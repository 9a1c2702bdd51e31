use kronosnet::errors::ErrorKind;
use kronosnet::flags::{
    acl_check_from_native, acl_check_to_native, acl_verdict_from_native, acl_verdict_to_native,
    filter_decision_from_native, filter_decision_to_native, log_level_from_native,
    log_level_to_native, rx_clear_traffic_from_native, rx_clear_traffic_to_native,
    subsystem_from_native, subsystem_to_native, transport_from_native, transport_to_native,
    tx_rx_from_native, tx_rx_to_native, u32_to_bool, u8_to_bool, AclAcceptReject, AclCheckType,
    FilterDecision, HandleFlags, LinkFlags, LogLevel, RxClearTraffic, SubSystem, TransportId, TxRx,
};

#[test]
fn u8_to_bool_zero_and_nonzero() {
    assert!(!u8_to_bool(0));
    assert!(u8_to_bool(1));
    assert!(u8_to_bool(255));
}

#[test]
fn u32_to_bool_zero_and_nonzero() {
    assert!(!u32_to_bool(0));
    assert!(u32_to_bool(1));
    assert!(u32_to_bool(0xFFFF_FFFF));
}

#[test]
fn handle_flag_word_round_trip_keeps_unknown_bits() {
    // A word with bits no named flag covers must survive a decode and
    // re-encode without loss.
    let word: u64 = 0xDEAD_BEEF_0BAD_F00D;
    assert_eq!(HandleFlags::from_bits(word).bits(), word);
    assert_eq!(LinkFlags::from_bits(word).bits(), word);
    assert_eq!(HandleFlags::none().bits(), 0);
    assert_eq!(HandleFlags::privileged().bits(), 1);
    assert_eq!(LinkFlags::traffic_high_priority().bits(), 1u64 << 63);
}

#[test]
fn flag_set_operations() {
    let a = HandleFlags::from_bits(0b0110);
    let b = HandleFlags::from_bits(0b0011);
    assert_eq!(a.union(b).bits(), 0b0111);
    assert_eq!(a.intersection(b).bits(), 0b0010);
    assert!(a.contains(HandleFlags::from_bits(0b0100)));
    assert!(!a.contains(b));
    let la = LinkFlags::from_bits(0b1100);
    let lb = LinkFlags::from_bits(0b0101);
    assert_eq!(la.union(lb).bits(), 0b1101);
    assert_eq!(la.intersection(lb).bits(), 0b0100);
    assert!(la.contains(LinkFlags::from_bits(0b1000)));
}

#[test]
fn transport_codec() {
    assert_eq!(transport_from_native(0), Ok(TransportId::Loopback));
    assert_eq!(transport_from_native(1), Ok(TransportId::Udp));
    assert_eq!(transport_from_native(2), Ok(TransportId::Sctp));
    assert_eq!(transport_from_native(3), Err(ErrorKind::UnknownVariant));
    for t in [TransportId::Loopback, TransportId::Udp, TransportId::Sctp] {
        assert_eq!(transport_from_native(transport_to_native(t)), Ok(t));
    }
}

#[test]
fn log_level_codec() {
    assert_eq!(log_level_from_native(0), Ok(LogLevel::Error));
    assert_eq!(log_level_from_native(4), Ok(LogLevel::Trace));
    assert_eq!(log_level_from_native(5), Err(ErrorKind::UnknownVariant));
    for l in [
        LogLevel::Error,
        LogLevel::Warning,
        LogLevel::Info,
        LogLevel::Debug,
        LogLevel::Trace,
    ] {
        assert_eq!(log_level_from_native(log_level_to_native(l)), Ok(l));
    }
}

#[test]
fn subsystem_codec() {
    assert_eq!(subsystem_from_native(0), Ok(SubSystem::Common));
    assert_eq!(subsystem_from_native(13), Ok(SubSystem::Rx));
    assert_eq!(subsystem_from_native(14), Err(ErrorKind::UnknownVariant));
    for s in [
        SubSystem::Common,
        SubSystem::Handle,
        SubSystem::Host,
        SubSystem::Listener,
        SubSystem::Link,
        SubSystem::Transport,
        SubSystem::Crypto,
        SubSystem::Compress,
        SubSystem::Filter,
        SubSystem::Dstcache,
        SubSystem::Heartbeat,
        SubSystem::Pmtud,
        SubSystem::Tx,
        SubSystem::Rx,
    ] {
        assert_eq!(subsystem_from_native(subsystem_to_native(s)), Ok(s));
    }
}

#[test]
fn tx_rx_codec() {
    assert_eq!(tx_rx_from_native(0), Ok(TxRx::Tx));
    assert_eq!(tx_rx_from_native(1), Ok(TxRx::Rx));
    assert_eq!(tx_rx_from_native(2), Err(ErrorKind::UnknownVariant));
    assert_eq!(tx_rx_to_native(TxRx::Tx), 0);
    assert_eq!(tx_rx_to_native(TxRx::Rx), 1);
}

#[test]
fn filter_decision_codec() {
    assert_eq!(filter_decision_from_native(-1), Ok(FilterDecision::Drop));
    assert_eq!(filter_decision_from_native(-7), Ok(FilterDecision::Drop));
    assert_eq!(filter_decision_from_native(0), Ok(FilterDecision::Unicast));
    assert_eq!(filter_decision_from_native(1), Ok(FilterDecision::Multicast));
    assert_eq!(filter_decision_from_native(2), Ok(FilterDecision::Broadcast));
    assert_eq!(filter_decision_from_native(3), Err(ErrorKind::UnknownVariant));
    for d in [
        FilterDecision::Drop,
        FilterDecision::Unicast,
        FilterDecision::Multicast,
        FilterDecision::Broadcast,
    ] {
        assert_eq!(filter_decision_from_native(filter_decision_to_native(d)), Ok(d));
    }
}

#[test]
fn acl_constant_codecs() {
    assert_eq!(acl_check_from_native(0), Ok(AclCheckType::Address));
    assert_eq!(acl_check_from_native(1), Ok(AclCheckType::Mask));
    assert_eq!(acl_check_from_native(2), Ok(AclCheckType::Range));
    assert_eq!(acl_check_from_native(3), Err(ErrorKind::UnknownVariant));
    for c in [AclCheckType::Address, AclCheckType::Mask, AclCheckType::Range] {
        assert_eq!(acl_check_from_native(acl_check_to_native(c)), Ok(c));
    }
    assert_eq!(acl_verdict_from_native(0), Ok(AclAcceptReject::Accept));
    assert_eq!(acl_verdict_from_native(1), Ok(AclAcceptReject::Reject));
    assert_eq!(acl_verdict_from_native(2), Err(ErrorKind::UnknownVariant));
    for v in [AclAcceptReject::Accept, AclAcceptReject::Reject] {
        assert_eq!(acl_verdict_from_native(acl_verdict_to_native(v)), Ok(v));
    }
}

#[test]
fn rx_clear_traffic_codec() {
    assert_eq!(rx_clear_traffic_from_native(0), Ok(RxClearTraffic::Allow));
    assert_eq!(rx_clear_traffic_from_native(1), Ok(RxClearTraffic::Disallow));
    assert_eq!(rx_clear_traffic_from_native(9), Err(ErrorKind::UnknownVariant));
    assert_eq!(rx_clear_traffic_to_native(RxClearTraffic::Allow), 0);
    assert_eq!(rx_clear_traffic_to_native(RxClearTraffic::Disallow), 1);
}
