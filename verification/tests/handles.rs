use kronosnet::config::{CompressConfig, CryptoConfig, Endpoint, IpAddress};
use kronosnet::errors::ErrorKind;
use kronosnet::flags::{HandleFlags, LinkFlags, LogLevel, RxClearTraffic, TransportId};
use kronosnet::registry::{HostId, NotifyKind, NotifyRegistration, Registry, DATAFD_MAX};

fn fresh() -> (Registry, kronosnet::registry::Handle) {
    let mut reg = Registry::new();
    let h = reg.handle_new(HostId::new(1), false, LogLevel::Info, HandleFlags::none());
    (reg, h)
}

#[test]
fn handle_identifiers_are_issued_in_order_and_never_reused() {
    let mut reg = Registry::new();
    let h1 = reg.handle_new(HostId::new(1), false, LogLevel::Info, HandleFlags::none());
    let h2 = reg.handle_new(HostId::new(2), false, LogLevel::Info, HandleFlags::none());
    assert_eq!(h1.id(), 1);
    assert_eq!(h2.id(), 2);
    reg.handle_free(h1).unwrap();
    let h3 = reg.handle_new(HostId::new(3), false, LogLevel::Info, HandleFlags::none());
    // The freed identifier is not handed out again.
    assert_eq!(h3.id(), 3);
}

#[test]
fn operations_after_close_fail_with_invalid_handle() {
    let (mut reg, h) = fresh();
    assert!(reg.handle_is_live(h));
    reg.handle_free(h).unwrap();
    assert!(!reg.handle_is_live(h));
    // Every operation on the closed handle is rejected deterministically.
    assert_eq!(reg.host_add(h, HostId::new(2)), Err(ErrorKind::InvalidHandle));
    assert_eq!(reg.host_get_host_list(h).unwrap_err(), ErrorKind::InvalidHandle);
    assert_eq!(reg.handle_setfwd(h, true), Err(ErrorKind::InvalidHandle));
    assert_eq!(reg.handle_get_stats(h).unwrap_err(), ErrorKind::InvalidHandle);
    assert_eq!(
        reg.link_set_enable(h, HostId::new(2), 0, true),
        Err(ErrorKind::InvalidHandle)
    );
    assert_eq!(
        reg.handle_enable_notify(h, NotifyKind::Sock, None),
        Err(ErrorKind::InvalidHandle)
    );
    assert_eq!(reg.handle_free(h), Err(ErrorKind::InvalidHandle));
}

#[test]
fn close_refuses_while_attachments_remain() {
    let (mut reg, h) = fresh();
    reg.host_add(h, HostId::new(2)).unwrap();
    assert_eq!(reg.handle_free(h), Err(ErrorKind::ResourceBusy));
    reg.host_remove(h, HostId::new(2)).unwrap();

    let reg_token = NotifyRegistration { callback_token: 7, private_data: 0 };
    reg.handle_enable_notify(h, NotifyKind::Filter, Some(reg_token)).unwrap();
    assert_eq!(reg.handle_free(h), Err(ErrorKind::ResourceBusy));
    reg.handle_enable_notify(h, NotifyKind::Filter, None).unwrap();

    let channel = reg.handle_add_datafd(h, 33, -1).unwrap();
    assert_eq!(reg.handle_free(h), Err(ErrorKind::ResourceBusy));
    reg.handle_remove_datafd(h, 33).unwrap();
    assert_eq!(channel, 0);

    reg.handle_free(h).unwrap();
}

#[test]
fn close_refuses_while_log_consumer_attached() {
    let mut reg = Registry::new();
    let h = reg.handle_new(HostId::new(1), true, LogLevel::Debug, HandleFlags::none());
    // The log callback must be disabled before teardown can complete,
    // so no message is ever delivered for a fully freed handle.
    assert_eq!(reg.handle_free(h), Err(ErrorKind::ResourceBusy));
    reg.handle_detach_log(h).unwrap();
    reg.handle_free(h).unwrap();
}

#[test]
fn host_add_remove_and_list() {
    let (mut reg, h) = fresh();
    reg.host_add(h, HostId::new(2)).unwrap();
    reg.host_add(h, HostId::new(5)).unwrap();
    assert_eq!(reg.host_add(h, HostId::new(2)), Err(ErrorKind::InvalidInput));
    let list = reg.host_get_host_list(h).unwrap();
    let ids: Vec<u16> = list.iter().map(|hid| hid.to_u16()).collect();
    assert_eq!(ids, vec![2, 5]);
    assert_eq!(reg.host_remove(h, HostId::new(9)), Err(ErrorKind::NotFound));
    reg.host_remove(h, HostId::new(2)).unwrap();
    let ids2: Vec<u16> =
        reg.host_get_host_list(h).unwrap().iter().map(|hid| hid.to_u16()).collect();
    assert_eq!(ids2, vec![5]);
}

#[test]
fn host_remove_refuses_while_link_configured() {
    let (mut reg, h) = fresh();
    let peer = HostId::new(2);
    reg.host_add(h, peer).unwrap();
    let ep = Endpoint { ip: IpAddress::V4(0x7F00_0001), port: 8000 };
    reg.link_set_config(h, peer, 0, TransportId::Udp, ep, Some(ep), LinkFlags::none())
        .unwrap();
    assert_eq!(reg.host_remove(h, peer), Err(ErrorKind::ResourceBusy));
}

#[test]
fn host_names_round_trip_and_validate() {
    let (mut reg, h) = fresh();
    let peer = HostId::new(2);
    reg.host_add(h, peer).unwrap();
    assert_eq!(reg.host_get_name_by_host_id(h, peer).unwrap(), "");
    reg.host_set_name(h, peer, &"node-two".to_string()).unwrap();
    assert_eq!(reg.host_get_name_by_host_id(h, peer).unwrap(), "node-two");
    assert_eq!(
        reg.host_get_id_by_name(h, &"node-two".to_string()).unwrap().to_u16(),
        2
    );
    assert_eq!(
        reg.host_get_id_by_name(h, &"nobody".to_string()),
        Err(ErrorKind::NotFound)
    );
    assert_eq!(
        reg.host_set_name(h, peer, &"bad\0name".to_string()),
        Err(ErrorKind::InvalidInput)
    );
    let long = "x".repeat(256);
    assert_eq!(reg.host_set_name(h, peer, &long), Err(ErrorKind::TooLong));
    assert_eq!(
        reg.host_set_name(h, HostId::new(9), &"ok".to_string()),
        Err(ErrorKind::NotFound)
    );
}

#[test]
fn first_host_with_name_wins() {
    let (mut reg, h) = fresh();
    reg.host_add(h, HostId::new(2)).unwrap();
    reg.host_add(h, HostId::new(3)).unwrap();
    reg.host_set_name(h, HostId::new(2), &"twin".to_string()).unwrap();
    reg.host_set_name(h, HostId::new(3), &"twin".to_string()).unwrap();
    assert_eq!(reg.host_get_id_by_name(h, &"twin".to_string()).unwrap().to_u16(), 2);
}

#[test]
fn single_registration_per_kind() {
    let (mut reg, h) = fresh();
    let first = NotifyRegistration { callback_token: 1, private_data: 10 };
    let second = NotifyRegistration { callback_token: 2, private_data: 20 };
    reg.handle_enable_notify(h, NotifyKind::LinkStatus, Some(first)).unwrap();
    reg.handle_enable_notify(h, NotifyKind::LinkStatus, Some(second)).unwrap();
    // Exactly one registration is active afterwards: the second.
    assert_eq!(reg.handle_get_notify(h, NotifyKind::LinkStatus).unwrap(), Some(second));
    // No other kind was touched.
    assert_eq!(reg.handle_get_notify(h, NotifyKind::Sock).unwrap(), None);
    assert_eq!(reg.handle_get_notify(h, NotifyKind::HostStatus).unwrap(), None);
    // Disabling leaves nothing active.
    reg.handle_enable_notify(h, NotifyKind::LinkStatus, None).unwrap();
    assert_eq!(reg.handle_get_notify(h, NotifyKind::LinkStatus).unwrap(), None);
}

#[test]
fn forwarding_flag_round_trips() {
    let (mut reg, h) = fresh();
    assert!(!reg.handle_get_fwd(h).unwrap());
    reg.handle_setfwd(h, true).unwrap();
    assert!(reg.handle_get_fwd(h).unwrap());
}

#[test]
fn stats_snapshot_and_reset() {
    let (mut reg, h) = fresh();
    let stats = reg.handle_get_stats(h).unwrap();
    assert_eq!(stats.tx_packets, 0);
    assert_eq!(stats.rx_bytes, 0);
    reg.handle_clear_stats(h).unwrap();
    assert_eq!(reg.handle_get_stats(h).unwrap(), stats);
}

#[test]
fn pmtud_interval_bounds() {
    let (mut reg, h) = fresh();
    assert_eq!(reg.handle_pmtud_getfreq(h).unwrap(), 5);
    reg.handle_pmtud_setfreq(h, 60).unwrap();
    assert_eq!(reg.handle_pmtud_getfreq(h).unwrap(), 60);
    assert_eq!(reg.handle_pmtud_setfreq(h, 0), Err(ErrorKind::InvalidInput));
    assert_eq!(reg.handle_pmtud_setfreq(h, 86401), Err(ErrorKind::InvalidInput));
    assert_eq!(reg.handle_pmtud_getfreq(h).unwrap(), 60);
}

#[test]
fn onwire_version_window() {
    let (mut reg, h) = fresh();
    let (min, max, ver) = reg.handle_get_onwire_ver(h).unwrap();
    assert_eq!((min, max, ver), (1, 1, 1));
    reg.handle_set_onwire_ver(h, 1).unwrap();
    assert_eq!(reg.handle_set_onwire_ver(h, 2), Err(ErrorKind::InvalidInput));
}

#[test]
fn datafd_channels() {
    let (mut reg, h) = fresh();
    // Auto-assignment picks the lowest free channel.
    assert_eq!(reg.handle_add_datafd(h, 100, -1).unwrap(), 0);
    assert_eq!(reg.handle_add_datafd(h, 101, -1).unwrap(), 1);
    // An explicit channel is honoured, and a taken one refused.
    assert_eq!(reg.handle_add_datafd(h, 102, 5).unwrap(), 5);
    assert_eq!(reg.handle_add_datafd(h, 103, 5), Err(ErrorKind::ResourceBusy));
    // Channel numbers beyond the table are refused.
    assert_eq!(
        reg.handle_add_datafd(h, 104, DATAFD_MAX as i8),
        Err(ErrorKind::InvalidInput)
    );
    // A socket can be attached once.
    assert_eq!(reg.handle_add_datafd(h, 100, 7), Err(ErrorKind::InvalidInput));
    // Freeing channel 0 makes it the lowest free channel again.
    reg.handle_remove_datafd(h, 100).unwrap();
    assert_eq!(reg.handle_add_datafd(h, 105, -1).unwrap(), 0);
    assert_eq!(reg.handle_remove_datafd(h, 999), Err(ErrorKind::NotFound));
    // Both lookup directions agree with what was attached.
    assert_eq!(reg.handle_get_datafd(h, 5).unwrap(), 102);
    assert_eq!(reg.handle_get_channel(h, 101).unwrap(), 1);
    assert_eq!(reg.handle_get_datafd(h, 9), Err(ErrorKind::NotFound));
    assert_eq!(reg.handle_get_channel(h, 999), Err(ErrorKind::NotFound));
}

#[test]
fn crypto_and_compress_configuration() {
    let (mut reg, h) = fresh();
    let cfg = CryptoConfig {
        crypto_model: "openssl".to_string(),
        crypto_cipher_type: "aes256".to_string(),
        crypto_hash_type: "sha256".to_string(),
        private_key: vec![1; 2048],
    };
    reg.handle_crypto_set_config(h, &cfg).unwrap();
    let bad = CryptoConfig {
        crypto_model: "much-too-long-a-model-name".to_string(),
        crypto_cipher_type: "aes256".to_string(),
        crypto_hash_type: "sha256".to_string(),
        private_key: vec![1; 64],
    };
    assert_eq!(reg.handle_crypto_set_config(h, &bad), Err(ErrorKind::TooLong));

    let comp = CompressConfig {
        compress_model: "zlib".to_string(),
        compress_threshold: 100,
        compress_level: 9,
    };
    reg.handle_compress(h, &comp).unwrap();
}

#[test]
fn clear_traffic_policy_blocks_unencrypted_delivery() {
    let (mut reg, h) = fresh();
    let cfg = CryptoConfig {
        crypto_model: "openssl".to_string(),
        crypto_cipher_type: "aes256".to_string(),
        crypto_hash_type: "sha256".to_string(),
        private_key: vec![0x42; 2048],
    };
    reg.handle_crypto_set_config(h, &cfg).unwrap();
    assert!(reg.handle_crypto_rx_clear_traffic_allowed(h).unwrap());
    reg.handle_crypto_rx_clear_traffic(h, RxClearTraffic::Disallow).unwrap();
    // With clear-text receipt disallowed, the policy the native layer
    // enforces on unencrypted probe traffic reads back as rejection.
    assert!(!reg.handle_crypto_rx_clear_traffic_allowed(h).unwrap());
}
