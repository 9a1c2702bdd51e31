use kronosnet::config::IpAddress;
use kronosnet::errors::ErrorKind;
use kronosnet::nozzle::{IpNet, NozzleRegistry};

fn v4(a: u32, prefix: u8) -> IpNet {
    IpNet { ip: IpAddress::V4(a), prefix }
}

#[test]
fn device_open_and_name() {
    let mut reg = NozzleRegistry::new();
    let h = reg.open(&"tap0".to_string()).unwrap();
    assert_eq!(h.id(), 1);
    assert!(reg.is_open(h));
    assert_eq!(reg.get_name(h).unwrap(), "tap0");
    assert_eq!(reg.get_mtu(h).unwrap(), 1500);
    assert!(!reg.get_state(h).unwrap());
    assert!(reg.get_ips(h).unwrap().is_empty());
}

#[test]
fn device_name_must_fit_native_field() {
    let mut reg = NozzleRegistry::new();
    assert_eq!(
        reg.open(&"a-device-name-too-long".to_string()).unwrap_err(),
        ErrorKind::TooLong
    );
    assert_eq!(reg.open(&"bad\0name".to_string()).unwrap_err(), ErrorKind::InvalidInput);
    // Fifteen bytes plus the terminator fill the field exactly.
    assert!(reg.open(&"fifteen-bytes-x".to_string()).is_ok());
}

#[test]
fn device_operations_after_close_fail_with_invalid_handle() {
    let mut reg = NozzleRegistry::new();
    let h = reg.open(&"tap0".to_string()).unwrap();
    reg.close(h).unwrap();
    assert!(!reg.is_open(h));
    assert_eq!(reg.get_mtu(h).unwrap_err(), ErrorKind::InvalidHandle);
    assert_eq!(reg.set_mtu(h, 1400), Err(ErrorKind::InvalidHandle));
    assert_eq!(reg.add_ip(h, v4(0x0A00_0001, 24)), Err(ErrorKind::InvalidHandle));
    assert_eq!(reg.close(h), Err(ErrorKind::InvalidHandle));
    // A later device gets a fresh identifier, never the closed one.
    let h2 = reg.open(&"tap1".to_string()).unwrap();
    assert_eq!(h2.id(), 2);
}

#[test]
fn device_close_refuses_while_configured() {
    let mut reg = NozzleRegistry::new();
    let h = reg.open(&"tap0".to_string()).unwrap();
    reg.set_state(h, true).unwrap();
    assert_eq!(reg.close(h), Err(ErrorKind::ResourceBusy));
    reg.set_state(h, false).unwrap();
    reg.add_ip(h, v4(0x0A00_0001, 24)).unwrap();
    assert_eq!(reg.close(h), Err(ErrorKind::ResourceBusy));
    reg.del_ip(h, v4(0x0A00_0001, 24)).unwrap();
    reg.close(h).unwrap();
}

#[test]
fn device_mtu_round_trips_and_rejects_zero() {
    let mut reg = NozzleRegistry::new();
    let h = reg.open(&"tap0".to_string()).unwrap();
    reg.set_mtu(h, 157).unwrap();
    assert_eq!(reg.get_mtu(h).unwrap(), 157);
    assert_eq!(reg.set_mtu(h, 0), Err(ErrorKind::InvalidInput));
    assert_eq!(reg.get_mtu(h).unwrap(), 157);
}

#[test]
fn device_addresses_keep_order_and_uniqueness() {
    let mut reg = NozzleRegistry::new();
    let h = reg.open(&"tap0".to_string()).unwrap();
    let first = v4(0xC0A8_6401, 24);
    let second = v4(0xC0A8_6402, 24);
    reg.add_ip(h, first).unwrap();
    reg.add_ip(h, second).unwrap();
    assert_eq!(reg.get_ips(h).unwrap(), vec![first, second]);
    // The same assignment twice is rejected, as is a bad prefix.
    assert_eq!(reg.add_ip(h, first), Err(ErrorKind::InvalidInput));
    assert_eq!(reg.add_ip(h, v4(1, 33)), Err(ErrorKind::InvalidInput));
    // A prefix of 33 is fine for a wider address family.
    let wide = IpNet { ip: IpAddress::V6(1), prefix: 64 };
    reg.add_ip(h, wide).unwrap();
    reg.del_ip(h, second).unwrap();
    assert_eq!(reg.get_ips(h).unwrap(), vec![first, wide]);
    assert_eq!(reg.del_ip(h, second), Err(ErrorKind::NotFound));
}
