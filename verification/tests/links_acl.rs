use kronosnet::acl::{Acl, AclEntry};
use kronosnet::config::{Endpoint, IpAddress};
use kronosnet::errors::ErrorKind;
use kronosnet::flags::{
    AclAcceptReject, AclCheckType, HandleFlags, LinkFlags, LogLevel, TransportId,
};
use kronosnet::registry::{Handle, HostId, Registry};

fn localhost(port: u16) -> Endpoint {
    Endpoint { ip: IpAddress::V4(0x7F00_0001), port }
}

fn entry(check: AclCheckType, verdict: AclAcceptReject, src: &str, dst: &str) -> AclEntry {
    AclEntry {
        check_type: check,
        verdict,
        src: src.to_string(),
        dst: dst.to_string(),
    }
}

fn open_with_peer(own: u16, peer: u16) -> (Registry, Handle, HostId) {
    let mut reg = Registry::new();
    let h = reg.handle_new(HostId::new(own), false, LogLevel::Info, HandleFlags::none());
    let p = HostId::new(peer);
    reg.host_add(h, p).unwrap();
    (reg, h, p)
}

#[test]
fn cross_configured_links_read_back_exactly() {
    // Two endpoints, ids 1 and 2, each with one link at localhost port
    // 8000 plus the peer's id, enabled, and a 20-byte payload whose
    // bytes survive the buffer codec unchanged and in order.
    let mut reg = Registry::new();
    let h1 = reg.handle_new(HostId::new(1), false, LogLevel::Info, HandleFlags::none());
    let h2 = reg.handle_new(HostId::new(2), false, LogLevel::Info, HandleFlags::none());
    assert_eq!((h1.id(), h2.id()), (1, 2));
    reg.host_add(h1, HostId::new(2)).unwrap();
    reg.host_add(h2, HostId::new(1)).unwrap();
    reg.link_set_config(
        h1,
        HostId::new(2),
        0,
        TransportId::Udp,
        localhost(8001),
        Some(localhost(8002)),
        LinkFlags::none(),
    )
    .unwrap();
    reg.link_set_config(
        h2,
        HostId::new(1),
        0,
        TransportId::Udp,
        localhost(8002),
        Some(localhost(8001)),
        LinkFlags::none(),
    )
    .unwrap();
    reg.link_set_enable(h1, HostId::new(2), 0, true).unwrap();
    reg.link_set_enable(h2, HostId::new(1), 0, true).unwrap();
    assert!(reg.link_get_enable(h1, HostId::new(2), 0).unwrap());
    assert!(reg.link_get_enable(h2, HostId::new(1), 0).unwrap());

    let c1 = reg.link_get_config(h1, HostId::new(2), 0).unwrap();
    assert_eq!(c1.transport, TransportId::Udp);
    assert_eq!(c1.local, localhost(8001));
    assert_eq!(c1.remote, Some(localhost(8002)));
    let c2 = reg.link_get_config(h2, HostId::new(1), 0).unwrap();
    assert_eq!(c2.local, localhost(8002));
    assert_eq!(c2.remote, Some(localhost(8001)));

    // The payload: byte 0 is '0', bytes 1 through 9 the ascending
    // digits, and the pattern carries on to fill 20 bytes.  The wire
    // transfer itself is the native library's work; what this layer
    // owes is that the bytes pass its buffer codec unchanged.
    let mut payload = [0u8; 20];
    for (i, b) in payload.iter_mut().enumerate() {
        *b = b'0' + (i % 10) as u8;
    }
    assert_eq!(payload[0], b'0');
    let text = kronosnet::strings::string_from_bytes(&payload, 20).unwrap();
    assert_eq!(text, "01234567890123456789");
    let mut out: Vec<u8> = vec![0; 20];
    kronosnet::strings::string_to_bytes(&text, &mut out).unwrap();
    assert_eq!(&out[..], &payload[..]);
}

#[test]
fn link_configuration_guards() {
    let (mut reg, h, p) = open_with_peer(1, 2);
    // Out-of-range slot.
    assert_eq!(
        reg.link_set_config(
            h,
            p,
            8,
            TransportId::Udp,
            localhost(1),
            None,
            LinkFlags::none()
        ),
        Err(ErrorKind::InvalidInput)
    );
    // Unknown host.
    assert_eq!(
        reg.link_set_config(
            h,
            HostId::new(9),
            0,
            TransportId::Udp,
            localhost(1),
            None,
            LinkFlags::none()
        ),
        Err(ErrorKind::NotFound)
    );
    // Reading an unconfigured slot.
    assert_eq!(reg.link_get_config(h, p, 0), Err(ErrorKind::NotFound));
    assert_eq!(reg.link_get_enable(h, p, 0), Err(ErrorKind::NotFound));
    assert_eq!(reg.link_set_enable(h, p, 0, true), Err(ErrorKind::NotFound));
    // An enabled link refuses reconfiguration until disabled.
    reg.link_set_config(h, p, 0, TransportId::Udp, localhost(1), None, LinkFlags::none())
        .unwrap();
    reg.link_set_enable(h, p, 0, true).unwrap();
    assert_eq!(
        reg.link_set_config(
            h,
            p,
            0,
            TransportId::Sctp,
            localhost(2),
            None,
            LinkFlags::none()
        ),
        Err(ErrorKind::ResourceBusy)
    );
    reg.link_set_enable(h, p, 0, false).unwrap();
    reg.link_set_config(h, p, 0, TransportId::Sctp, localhost(2), None, LinkFlags::none())
        .unwrap();
    // A dynamic link reads back with no remote endpoint.
    assert_eq!(reg.link_get_config(h, p, 0).unwrap().remote, None);
}

#[test]
fn ping_timers_read_back_exactly() {
    let (mut reg, h, p) = open_with_peer(1, 2);
    reg.link_set_config(h, p, 0, TransportId::Udp, localhost(1), None, LinkFlags::none())
        .unwrap();
    reg.link_set_ping_timers(h, p, 0, 500, 1000, 1024).unwrap();
    assert_eq!(reg.link_get_ping_timers(h, p, 0).unwrap(), (500, 1000, 1024));
    assert_eq!(
        reg.link_set_ping_timers(h, p, 0, 0, 1000, 1024),
        Err(ErrorKind::InvalidInput)
    );
    assert_eq!(
        reg.link_set_ping_timers(h, p, 0, 500, 0, 1024),
        Err(ErrorKind::InvalidInput)
    );
    // The failed calls changed nothing.
    assert_eq!(reg.link_get_ping_timers(h, p, 0).unwrap(), (500, 1000, 1024));
}

#[test]
fn link_list_is_ascending_and_complete() {
    let (mut reg, h, p) = open_with_peer(1, 2);
    for slot in [5u8, 1, 3] {
        reg.link_set_config(
            h,
            p,
            slot,
            TransportId::Udp,
            localhost(8000 + slot as u16),
            None,
            LinkFlags::none(),
        )
        .unwrap();
    }
    assert_eq!(reg.link_get_link_list(h, p).unwrap(), vec![1, 3, 5]);
}

#[test]
fn acl_insert_shifts_and_clear_empties() {
    let mut acl = Acl::new();
    let a = entry(AclCheckType::Address, AclAcceptReject::Accept, "10.0.0.1", "10.0.0.2");
    let b = entry(AclCheckType::Mask, AclAcceptReject::Reject, "10.0.0.0", "255.0.0.0");
    let c = entry(AclCheckType::Range, AclAcceptReject::Accept, "10.0.0.1", "10.0.0.9");
    acl.add(a.duplicate());
    acl.add(b.duplicate());
    acl.insert(1, c.duplicate()).unwrap();
    let listed = acl.list();
    assert_eq!(listed.len(), 3);
    // The new entry sits at position 1; the entry that was there moved
    // down by one; the entry before it kept its place.
    assert!(listed[0].same_entry(&a));
    assert!(listed[1].same_entry(&c));
    assert!(listed[2].same_entry(&b));
    assert_eq!(acl.insert(4, a.duplicate()), Err(ErrorKind::IndexOutOfRange));
    acl.clear();
    assert_eq!(acl.len(), 0);
    assert!(acl.list().is_empty());
}

#[test]
fn acl_remove_takes_first_equal_entry() {
    let mut acl = Acl::new();
    let a = entry(AclCheckType::Address, AclAcceptReject::Accept, "src", "dst");
    let b = entry(AclCheckType::Address, AclAcceptReject::Reject, "src", "dst");
    acl.add(a.duplicate());
    acl.add(b.duplicate());
    acl.add(a.duplicate());
    assert!(acl.contains_entry(&a));
    acl.remove(&a).unwrap();
    let listed = acl.list();
    assert_eq!(listed.len(), 2);
    assert!(listed[0].same_entry(&b));
    assert!(listed[1].same_entry(&a));
    let missing = entry(AclCheckType::Range, AclAcceptReject::Accept, "x", "y");
    assert_eq!(acl.remove(&missing), Err(ErrorKind::NotFound));
}

#[test]
fn per_link_acl_keeps_order() {
    let (mut reg, h, p) = open_with_peer(1, 2);
    let a = entry(AclCheckType::Address, AclAcceptReject::Accept, "10.0.0.1", "any");
    let b = entry(AclCheckType::Address, AclAcceptReject::Reject, "10.0.0.2", "any");
    let c = entry(AclCheckType::Mask, AclAcceptReject::Accept, "10.0.0.0", "255.0.0.0");
    reg.link_add_acl(h, p, 0, a.duplicate()).unwrap();
    reg.link_add_acl(h, p, 0, b.duplicate()).unwrap();
    reg.link_insert_acl(h, p, 0, 1, c.duplicate()).unwrap();
    let listed = reg.link_get_acl_list(h, p, 0).unwrap();
    assert_eq!(listed.len(), 3);
    assert!(listed[0].same_entry(&a));
    assert!(listed[1].same_entry(&c));
    assert!(listed[2].same_entry(&b));
    assert_eq!(
        reg.link_insert_acl(h, p, 0, 9, a.duplicate()),
        Err(ErrorKind::IndexOutOfRange)
    );
    reg.link_rm_acl(h, p, 0, &c).unwrap();
    assert_eq!(reg.link_rm_acl(h, p, 0, &c), Err(ErrorKind::NotFound));
    reg.link_clear_acl(h, p, 0).unwrap();
    assert!(reg.link_get_acl_list(h, p, 0).unwrap().is_empty());
    // ACLs live per link slot: the neighbouring slot is untouched.
    assert!(reg.link_get_acl_list(h, p, 1).unwrap().is_empty());
}
