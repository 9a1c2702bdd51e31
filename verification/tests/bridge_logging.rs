use kronosnet::bridge::{
    check_filter_verdict, decode_host_status_event, decode_link_status_event, decode_sock_event,
    filter_result_from_native, TeardownGate,
};
use kronosnet::errors::{error_from_native, ErrorKind};
use kronosnet::flags::{FilterDecision, HandleFlags, LogLevel, SubSystem, TxRx};
use kronosnet::logging::{decode_log_event, LogRelay, LOG_MSG_BUF_LEN};
use kronosnet::registry::{HostId, Registry};

#[test]
fn link_status_event_decodes_defensively() {
    let e = decode_link_status_event(2, 1, 1, 0, 255).unwrap();
    assert_eq!(e.host.to_u16(), 2);
    assert_eq!(e.link_id, 1);
    assert!(e.connected);
    assert!(!e.remote);
    assert!(e.external);
    // A link identifier beyond the documented maximum is not trusted.
    assert_eq!(decode_link_status_event(2, 8, 1, 0, 0), Err(ErrorKind::InvalidInput));
}

#[test]
fn host_status_event_decodes() {
    let e = decode_host_status_event(7, 1, 0, 1);
    assert_eq!(e.host.to_u16(), 7);
    assert!(e.reachable);
    assert!(!e.remote);
    assert!(e.external);
}

#[test]
fn sock_event_decodes() {
    let e = decode_sock_event(12, 3, 1, 1, 11).unwrap();
    assert_eq!(e.sock, 12);
    assert_eq!(e.channel, 3);
    assert_eq!(e.direction, TxRx::Rx);
    assert!(e.failed);
    assert_eq!(e.errno, 11);
    assert_eq!(decode_sock_event(12, 3, 9, 0, 0), Err(ErrorKind::UnknownVariant));
}

#[test]
fn filter_verdicts_are_validated() {
    assert_eq!(
        check_filter_verdict(FilterDecision::Unicast, 0),
        Err(ErrorKind::FilterError)
    );
    assert_eq!(
        check_filter_verdict(FilterDecision::Unicast, 2),
        Ok(FilterDecision::Unicast)
    );
    assert_eq!(
        check_filter_verdict(FilterDecision::Broadcast, 0),
        Ok(FilterDecision::Broadcast)
    );
    assert_eq!(check_filter_verdict(FilterDecision::Drop, 0), Ok(FilterDecision::Drop));
    assert_eq!(filter_result_from_native(0, 1), Ok(FilterDecision::Unicast));
    assert_eq!(filter_result_from_native(0, 0), Err(ErrorKind::FilterError));
    assert_eq!(filter_result_from_native(1, 0), Ok(FilterDecision::Multicast));
    assert_eq!(filter_result_from_native(7, 1), Err(ErrorKind::UnknownVariant));
}

#[test]
fn teardown_requested_inside_dispatch_is_deferred() {
    let mut reg = Registry::new();
    let h = reg.handle_new(HostId::new(1), false, LogLevel::Info, HandleFlags::none());
    let mut gate = TeardownGate::new();
    // Outside any dispatch, teardown may run at once.
    assert!(gate.request_close(h));
    // Inside a dispatch it must not: the request queues.
    gate.enter_dispatch();
    gate.enter_dispatch();
    assert!(!gate.request_close(h));
    // An inner return releases nothing.
    assert!(gate.leave_dispatch().is_empty());
    // The outermost return hands the queued request out, in order.
    let ready = gate.leave_dispatch();
    assert_eq!(ready, vec![h]);
    // Only now is the handle actually freed.
    for handle in ready {
        reg.handle_free(handle).unwrap();
    }
    assert!(!reg.handle_is_live(h));
}

#[test]
fn log_event_decodes_and_validates_constants() {
    let text = b"link 0 up\0garbage after terminator";
    let m = decode_log_event(1, 4, 2, text).unwrap();
    assert_eq!(m.handle_id, 1);
    assert_eq!(m.subsystem, SubSystem::Link);
    assert_eq!(m.level, LogLevel::Info);
    assert_eq!(m.msg, "link 0 up");
    assert!(matches!(decode_log_event(1, 99, 2, text), Err(ErrorKind::UnknownVariant)));
    assert!(matches!(decode_log_event(1, 4, 99, text), Err(ErrorKind::UnknownVariant)));
    // Text that is not valid UTF-8 becomes the empty message rather
    // than an error: inside a callback nothing can be propagated.
    let bad = [0xFFu8, 0x00];
    assert_eq!(decode_log_event(1, 4, 2, &bad).unwrap().msg, "");
}

#[test]
fn log_text_is_bounded_by_the_native_buffer() {
    let long = vec![b'a'; LOG_MSG_BUF_LEN + 40];
    let m = decode_log_event(1, 0, 0, &long).unwrap();
    assert_eq!(m.msg.len(), LOG_MSG_BUF_LEN);
}

#[test]
fn log_relay_is_first_in_first_out() {
    let mut relay = LogRelay::new();
    assert!(relay.next_msg().is_none());
    for (level, text) in [(0u8, "first"), (1, "second"), (2, "third")] {
        let mut buf = text.as_bytes().to_vec();
        buf.push(0);
        relay.deliver(decode_log_event(1, 0, level, &buf).unwrap());
    }
    assert_eq!(relay.len(), 3);
    assert_eq!(relay.next_msg().unwrap().msg, "first");
    assert_eq!(relay.next_msg().unwrap().msg, "second");
    assert_eq!(relay.next_msg().unwrap().msg, "third");
    assert!(relay.next_msg().is_none());
}

#[test]
fn native_error_codes_map_to_the_taxonomy() {
    assert_eq!(error_from_native(11), ErrorKind::WouldBlock);
    assert_eq!(error_from_native(22), ErrorKind::NativeError(22));
    assert_eq!(error_from_native(-5), ErrorKind::NativeError(-5));
}
