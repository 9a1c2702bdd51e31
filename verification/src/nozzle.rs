//! Local bookkeeping for the companion virtual-interface devices.
//!
//! A virtual-interface device is the second flavor of native resource
//! this crate wraps: opened by name, torn down explicitly, and carrying
//! a small amount of configuration — an MTU, an up/down state and an
//! ordered list of assigned addresses.  As with transport endpoints,
//! the wrapper tracks live devices itself so that a device used after
//! a successful close is rejected with `InvalidHandle` instead of
//! touching whatever the native layer put behind the reused identity.

use vstd::prelude::*;
use vstd::utf8::encode_utf8;

use crate::config::IpAddress;
use crate::errors::ErrorKind;
use crate::strings::{check_text_field, text_field_error};

verus! {

/// Capacity of the fixed native device-name field, terminator
/// included.
pub const DEVICE_NAME_BUF_LEN: usize = 16;

/// A typed token for one live virtual-interface device.
#[derive(Clone, Copy, Debug, PartialEq, Eq, Structural)]
pub struct NozzleHandle {
    id: u64,
}

impl View for NozzleHandle {
    type V = u64;

    closed spec fn view(&self) -> u64 {
        self.id
    }
}

impl NozzleHandle {
    /// The identifier of the device token.
    pub fn id(&self) -> (r: u64)
        ensures
            r == self@,
    {
        self.id
    }
}

/// One address assigned to a device: the address and its prefix
/// length.
#[derive(Clone, Copy, Debug, PartialEq, Eq, Structural)]
pub struct IpNet {
    pub ip: IpAddress,
    pub prefix: u8,
}

/// Whether the prefix length fits the address family.
pub open spec fn ip_net_valid(n: IpNet) -> bool {
    match n.ip {
        IpAddress::V4(_) => n.prefix <= 32,
        IpAddress::V6(_) => n.prefix <= 128,
    }
}

/// Whether the prefix length fits the address family.
fn ip_net_ok(n: &IpNet) -> (r: bool)
    ensures
        r == ip_net_valid(*n),
{
    match n.ip {
        IpAddress::V4(_) => n.prefix <= 32,
        IpAddress::V6(_) => n.prefix <= 128,
    }
}

/// Everything the wrapper tracks for one live device.
pub struct DeviceState {
    /// The identifier the registry issued; never reused.
    pub id: u64,
    /// The device name handed to the native layer.
    pub name: String,
    /// The device's maximum transmission unit.
    pub mtu: u32,
    /// Whether the device is administratively up.
    pub up: bool,
    /// The assigned addresses, in assignment order, each one present
    /// once.
    pub ips: Vec<IpNet>,
}

impl DeviceState {
    /// Addresses are valid and assigned at most once.
    pub open spec fn wf(self) -> bool {
        &&& forall|a: int, b: int| 0 <= a < b < self.ips@.len() ==> self.ips@[a] != self.ips@[b]
        &&& forall|a: int| 0 <= a < self.ips@.len() ==> ip_net_valid(#[trigger] self.ips@[a])
    }

    /// Whether `n` is assigned to the device.
    pub open spec fn has_ip(self, n: IpNet) -> bool {
        exists|a: int| 0 <= a < self.ips@.len() && (#[trigger] self.ips@[a]) == n
    }
}

/// Whether `s` holds a device with identifier `id`.
pub open spec fn devices_have_id(s: Seq<DeviceState>, id: u64) -> bool {
    exists|i: int| 0 <= i < s.len() && (#[trigger] s[i]).id == id
}

/// The position of the device with identifier `id` in `s`.
pub open spec fn device_index_of(s: Seq<DeviceState>, id: u64) -> int {
    choose|i: int| 0 <= i < s.len() && (#[trigger] s[i]).id == id
}

/// The state of the device with identifier `id` in `s`.
pub open spec fn device_state_of(s: Seq<DeviceState>, id: u64) -> DeviceState {
    s[device_index_of(s, id)]
}

/// The table of live virtual-interface devices.
pub struct NozzleRegistry {
    next_id: u64,
    devices: Vec<DeviceState>,
}

impl NozzleRegistry {
    /// Identifiers are unique, below the issue counter, and every
    /// device's own state is well shaped.
    pub closed spec fn wf(self) -> bool {
        &&& forall|i: int, j: int|
            0 <= i < j < self.devices@.len() ==> self.devices@[i].id != self.devices@[j].id
        &&& forall|i: int|
            0 <= i < self.devices@.len() ==> (#[trigger] self.devices@[i]).id < self.next_id
        &&& forall|i: int| 0 <= i < self.devices@.len() ==> (#[trigger] self.devices@[i]).wf()
    }

    /// The identifier the next opened device will get.
    pub closed spec fn fresh_id(self) -> u64 {
        self.next_id
    }

    /// How many devices are live.
    pub closed spec fn device_count(self) -> int {
        self.devices@.len() as int
    }

    /// Whether a device with identifier `id` is live.
    pub closed spec fn has_id(self, id: u64) -> bool {
        devices_have_id(self.devices@, id)
    }

    /// Whether `h` is live.
    pub open spec fn is_live(self, h: NozzleHandle) -> bool {
        self.has_id(h@)
    }

    /// The state kept for the live device with identifier `id`.
    pub closed spec fn state_of(self, id: u64) -> DeviceState {
        device_state_of(self.devices@, id)
    }

    /// An empty table.  The first issued identifier is 1, so 0 never
    /// names a live device.
    pub fn new() -> (r: NozzleRegistry)
        ensures
            r.wf(),
            r.device_count() == 0,
            r.fresh_id() == 1,
            forall|id: u64| !r.has_id(id),
    {
        NozzleRegistry { next_id: 1, devices: Vec::new() }
    }

    /// The position of the device with identifier `id`, if it is live.
    fn find_device(&self, id: u64) -> (r: Option<usize>)
        requires
            self.wf(),
        ensures
            r matches Some(i) ==> i < self.devices@.len() && self.devices@[i as int].id == id
                && self.has_id(id) && device_index_of(self.devices@, id) == i,
            r is None ==> !self.has_id(id),
    {
        let mut i: usize = 0;
        while i < self.devices.len()
            invariant
                self.wf(),
                i <= self.devices@.len(),
                forall|j: int| 0 <= j < i ==> (#[trigger] self.devices@[j]).id != id,
            decreases self.devices@.len() - i,
        {
            if self.devices[i].id == id {
                proof {
                    lemma_device_index_of(self.devices@, id, i as int);
                }
                return Some(i);
            }
            i += 1;
        }
        None
    }

    /// Creates the bookkeeping entry for a freshly opened device and
    /// issues its token.  The name must fit the fixed native name
    /// field; the device starts down, with the conventional default
    /// MTU and no address.
    pub fn open(&mut self, name: &String) -> (r: Result<NozzleHandle, ErrorKind>)
        requires
            old(self).wf(),
            old(self).fresh_id() < u64::MAX,
        ensures
            final(self).wf(),
            r is Err ==> *final(self) == *old(self),
            r is Ok <==> text_field_error(
                encode_utf8(name@),
                DEVICE_NAME_BUF_LEN as int - 1,
            ) is None,
            text_field_error(encode_utf8(name@), DEVICE_NAME_BUF_LEN as int - 1) matches Some(e)
                ==> r == Err::<NozzleHandle, ErrorKind>(e),
            r matches Ok(h) ==> ({
                &&& h@ == old(self).fresh_id()
                &&& final(self).fresh_id() == old(self).fresh_id() + 1
                &&& !old(self).has_id(h@)
                &&& final(self).has_id(h@)
                &&& final(self).device_count() == old(self).device_count() + 1
                &&& (forall|id: u64| id != h@ ==> final(self).has_id(id) == old(self).has_id(id))
                &&& (forall|id: u64|
                    id != h@ && old(self).has_id(id) ==> final(self).state_of(id) == old(
                        self,
                    ).state_of(id))
                &&& ({
                    let d = final(self).state_of(h@);
                    &&& d.id == h@
                    &&& d.name@ == name@
                    &&& d.mtu == 1500
                    &&& !d.up
                    &&& d.ips@.len() == 0
                })
            }),
    {
        if let Some(e) = check_text_field(name.as_str(), DEVICE_NAME_BUF_LEN - 1) {
            return Err(e);
        }
        let id = self.next_id;
        let state = DeviceState { id, name: name.clone(), mtu: 1500, up: false, ips: Vec::new() };
        self.devices.push(state);
        self.next_id = id + 1;
        proof {
            let post = self.devices@;
            let pre = old(self).devices@;
            lemma_device_index_of(post, id, pre.len() as int);
            assert forall|other: u64| other != id implies devices_have_id(post, other)
                == devices_have_id(pre, other) by {
                if devices_have_id(pre, other) {
                    let j = choose|j: int| 0 <= j < pre.len() && pre[j].id == other;
                    assert(post[j].id == other);
                }
                if devices_have_id(post, other) {
                    let j = choose|j: int| 0 <= j < post.len() && post[j].id == other;
                    assert(j < pre.len() && pre[j].id == other);
                }
            }
            assert forall|other: u64|
                other != id && devices_have_id(pre, other) implies device_state_of(post, other)
                == device_state_of(pre, other) by {
                let j = device_index_of(pre, other);
                assert(pre[j].id == other);
                assert(post[j] == pre[j]);
                lemma_device_index_of(post, other, j);
                lemma_device_index_of(pre, other, j);
            }
        }
        Ok(NozzleHandle { id })
    }

    /// Whether `h` is live: it was issued by this registry and has not
    /// been closed.
    pub fn is_open(&self, h: NozzleHandle) -> (r: bool)
        requires
            self.wf(),
        ensures
            r == self.is_live(h),
    {
        self.find_device(h.id()).is_some()
    }

    /// Tears down the bookkeeping for `h`.  Fails with `ResourceBusy`
    /// while the device is up or still has addresses assigned —
    /// teardown order is the caller's duty.  After success `h` is not
    /// live, and every operation on it fails with `InvalidHandle`.
    pub fn close(&mut self, h: NozzleHandle) -> (r: Result<(), ErrorKind>)
        requires
            old(self).wf(),
        ensures
            final(self).wf(),
            final(self).fresh_id() == old(self).fresh_id(),
            r is Err ==> *final(self) == *old(self),
            !old(self).is_live(h) ==> r == Err::<(), ErrorKind>(ErrorKind::InvalidHandle),
            old(self).is_live(h) && (old(self).state_of(h@).up || old(self).state_of(
                h@,
            ).ips@.len() > 0) ==> r == Err::<(), ErrorKind>(ErrorKind::ResourceBusy),
            r is Ok <==> old(self).is_live(h) && !old(self).state_of(h@).up && old(self).state_of(
                h@,
            ).ips@.len() == 0,
            r is Ok ==> ({
                &&& !final(self).has_id(h@)
                &&& final(self).device_count() == old(self).device_count() - 1
                &&& (forall|id: u64| id != h@ ==> final(self).has_id(id) == old(self).has_id(id))
                &&& (forall|id: u64|
                    id != h@ && old(self).has_id(id) ==> final(self).state_of(id) == old(
                        self,
                    ).state_of(id))
            }),
    {
        let i = match self.find_device(h.id()) {
            Some(i) => i,
            None => {
                return Err(ErrorKind::InvalidHandle);
            },
        };
        if self.devices[i].up || self.devices[i].ips.len() > 0 {
            return Err(ErrorKind::ResourceBusy);
        }
        let ghost pre = self.devices@;
        self.devices.remove(i);
        proof {
            let post = self.devices@;
            assert forall|id: u64| id != h@ implies devices_have_id(post, id) == devices_have_id(
                pre,
                id,
            ) by {
                if devices_have_id(pre, id) {
                    let j = choose|j: int| 0 <= j < pre.len() && pre[j].id == id;
                    if j < i as int {
                        assert(post[j].id == id);
                    } else {
                        assert(post[j - 1].id == id);
                    }
                }
                if devices_have_id(post, id) {
                    let j = choose|j: int| 0 <= j < post.len() && post[j].id == id;
                    if j < i as int {
                        assert(pre[j].id == id);
                    } else {
                        assert(pre[j + 1].id == id);
                    }
                }
            }
            assert(!devices_have_id(post, h@)) by {
                if devices_have_id(post, h@) {
                    let j = choose|j: int| 0 <= j < post.len() && post[j].id == h@;
                    if j < i as int {
                        assert(pre[j].id == h@ && pre[i as int].id == h@);
                    } else {
                        assert(pre[j + 1].id == h@ && pre[i as int].id == h@);
                    }
                }
            }
            assert forall|id: u64|
                id != h@ && devices_have_id(pre, id) implies device_state_of(post, id)
                == device_state_of(pre, id) by {
                let j = device_index_of(pre, id);
                assert(pre[j].id == id);
                if j < i as int {
                    assert(post[j].id == id);
                    lemma_device_index_of(post, id, j);
                } else {
                    assert(post[j - 1].id == id);
                    lemma_device_index_of(post, id, j - 1);
                }
                lemma_device_index_of(pre, id, j);
            }
        }
        Ok(())
    }

    /// The device's name, as handed to the native layer.
    pub fn get_name(&self, h: NozzleHandle) -> (r: Result<String, ErrorKind>)
        requires
            self.wf(),
        ensures
            r is Ok <==> self.is_live(h),
            !self.is_live(h) ==> r == Err::<String, ErrorKind>(ErrorKind::InvalidHandle),
            r matches Ok(name) ==> name@ == self.state_of(h@).name@,
    {
        let i = match self.find_device(h.id()) {
            Some(i) => i,
            None => {
                return Err(ErrorKind::InvalidHandle);
            },
        };
        Ok(self.devices[i].name.clone())
    }

    /// Sets the device's MTU; zero is rejected with `InvalidInput`.
    pub fn set_mtu(&mut self, h: NozzleHandle, mtu: u32) -> (r: Result<(), ErrorKind>)
        requires
            old(self).wf(),
        ensures
            final(self).wf(),
            r is Err ==> *final(self) == *old(self),
            !old(self).is_live(h) ==> r == Err::<(), ErrorKind>(ErrorKind::InvalidHandle),
            old(self).is_live(h) && mtu == 0 ==> r == Err::<(), ErrorKind>(ErrorKind::InvalidInput),
            r is Ok <==> old(self).is_live(h) && mtu != 0,
            r is Ok ==> ({
                let pre = old(self).state_of(h@);
                let post = final(self).state_of(h@);
                &&& nozzle_frame_except(*old(self), *final(self), h@)
                &&& post.id == pre.id
                &&& post.name == pre.name
                &&& post.mtu == mtu
                &&& post.up == pre.up
                &&& post.ips == pre.ips
            }),
    {
        let i = match self.find_device(h.id()) {
            Some(i) => i,
            None => {
                return Err(ErrorKind::InvalidHandle);
            },
        };
        if mtu == 0 {
            return Err(ErrorKind::InvalidInput);
        }
        let ghost pre_devices = self.devices@;
        self.devices[i].mtu = mtu;
        proof {
            lemma_device_update_frame(pre_devices, self.devices@, i as int);
        }
        Ok(())
    }

    /// The device's MTU, exactly as last set.
    pub fn get_mtu(&self, h: NozzleHandle) -> (r: Result<u32, ErrorKind>)
        requires
            self.wf(),
        ensures
            r is Ok <==> self.is_live(h),
            !self.is_live(h) ==> r == Err::<u32, ErrorKind>(ErrorKind::InvalidHandle),
            r matches Ok(mtu) ==> mtu == self.state_of(h@).mtu,
    {
        let i = match self.find_device(h.id()) {
            Some(i) => i,
            None => {
                return Err(ErrorKind::InvalidHandle);
            },
        };
        Ok(self.devices[i].mtu)
    }

    /// Switches the device up or down.
    pub fn set_state(&mut self, h: NozzleHandle, up: bool) -> (r: Result<(), ErrorKind>)
        requires
            old(self).wf(),
        ensures
            final(self).wf(),
            r is Err ==> *final(self) == *old(self),
            r is Ok <==> old(self).is_live(h),
            !old(self).is_live(h) ==> r == Err::<(), ErrorKind>(ErrorKind::InvalidHandle),
            r is Ok ==> ({
                let pre = old(self).state_of(h@);
                let post = final(self).state_of(h@);
                &&& nozzle_frame_except(*old(self), *final(self), h@)
                &&& post.id == pre.id
                &&& post.name == pre.name
                &&& post.mtu == pre.mtu
                &&& post.up == up
                &&& post.ips == pre.ips
            }),
    {
        let i = match self.find_device(h.id()) {
            Some(i) => i,
            None => {
                return Err(ErrorKind::InvalidHandle);
            },
        };
        let ghost pre_devices = self.devices@;
        self.devices[i].up = up;
        proof {
            lemma_device_update_frame(pre_devices, self.devices@, i as int);
        }
        Ok(())
    }

    /// Whether the device is administratively up.
    pub fn get_state(&self, h: NozzleHandle) -> (r: Result<bool, ErrorKind>)
        requires
            self.wf(),
        ensures
            r is Ok <==> self.is_live(h),
            !self.is_live(h) ==> r == Err::<bool, ErrorKind>(ErrorKind::InvalidHandle),
            r matches Ok(up) ==> up == self.state_of(h@).up,
    {
        let i = match self.find_device(h.id()) {
            Some(i) => i,
            None => {
                return Err(ErrorKind::InvalidHandle);
            },
        };
        Ok(self.devices[i].up)
    }

    /// Assigns an address to the device, behind every present address.
    /// A prefix that does not fit the address family, or an address
    /// already assigned, is rejected with `InvalidInput`.
    pub fn add_ip(&mut self, h: NozzleHandle, net: IpNet) -> (r: Result<(), ErrorKind>)
        requires
            old(self).wf(),
        ensures
            final(self).wf(),
            r is Err ==> *final(self) == *old(self),
            !old(self).is_live(h) ==> r == Err::<(), ErrorKind>(ErrorKind::InvalidHandle),
            old(self).is_live(h) ==> ({
                let pre = old(self).state_of(h@);
                &&& (r is Ok <==> ip_net_valid(net) && !pre.has_ip(net))
                &&& (r is Err ==> r == Err::<(), ErrorKind>(ErrorKind::InvalidInput))
                &&& (r is Ok ==> ({
                    let post = final(self).state_of(h@);
                    &&& nozzle_frame_except(*old(self), *final(self), h@)
                    &&& post.id == pre.id
                    &&& post.name == pre.name
                    &&& post.mtu == pre.mtu
                    &&& post.up == pre.up
                    &&& post.ips@ == pre.ips@.push(net)
                }))
            }),
    {
        let i = match self.find_device(h.id()) {
            Some(i) => i,
            None => {
                return Err(ErrorKind::InvalidHandle);
            },
        };
        if !ip_net_ok(&net) {
            return Err(ErrorKind::InvalidInput);
        }
        if self.find_ip(i, net).is_some() {
            return Err(ErrorKind::InvalidInput);
        }
        let ghost pre_devices = self.devices@;
        let ghost pre_state = self.devices@[i as int];
        self.devices[i].ips.push(net);
        proof {
            let post_state = self.devices@[i as int];
            let n = pre_state.ips@.len() as int;
            assert forall|a: int, b: int|
                0 <= a < b < post_state.ips@.len() implies post_state.ips@[a]
                != post_state.ips@[b] by {
                if b < n {
                    assert(pre_state.ips@[a] != pre_state.ips@[b]);
                } else {
                    assert(post_state.ips@[a] == pre_state.ips@[a]);
                    assert(pre_state.ips@[a] != net);
                }
            }
            assert(post_state.wf());
            lemma_device_update_frame(pre_devices, self.devices@, i as int);
        }
        Ok(())
    }

    /// Takes an assigned address off the device.  Fails with `NotFound`
    /// when the address is not assigned.
    pub fn del_ip(&mut self, h: NozzleHandle, net: IpNet) -> (r: Result<(), ErrorKind>)
        requires
            old(self).wf(),
        ensures
            final(self).wf(),
            r is Err ==> *final(self) == *old(self),
            !old(self).is_live(h) ==> r == Err::<(), ErrorKind>(ErrorKind::InvalidHandle),
            old(self).is_live(h) ==> ({
                let pre = old(self).state_of(h@);
                &&& (r is Ok <==> pre.has_ip(net))
                &&& (r is Err ==> r == Err::<(), ErrorKind>(ErrorKind::NotFound))
                &&& (r is Ok ==> ({
                    let post = final(self).state_of(h@);
                    &&& nozzle_frame_except(*old(self), *final(self), h@)
                    &&& post.id == pre.id
                    &&& post.name == pre.name
                    &&& post.mtu == pre.mtu
                    &&& post.up == pre.up
                    &&& post.ips@.len() == pre.ips@.len() - 1
                    &&& !post.has_ip(net)
                    &&& (forall|other: IpNet|
                        other != net ==> post.has_ip(other) == pre.has_ip(other))
                }))
            }),
    {
        let i = match self.find_device(h.id()) {
            Some(i) => i,
            None => {
                return Err(ErrorKind::InvalidHandle);
            },
        };
        let k = match self.find_ip(i, net) {
            Some(k) => k,
            None => {
                return Err(ErrorKind::NotFound);
            },
        };
        let ghost pre_devices = self.devices@;
        let ghost pre_state = self.devices@[i as int];
        self.devices[i].ips.remove(k);
        proof {
            let post_state = self.devices@[i as int];
            assert forall|a: int, b: int|
                0 <= a < b < post_state.ips@.len() implies post_state.ips@[a]
                != post_state.ips@[b] by {
                let pa = if a < k as int { a } else { a + 1 };
                let pb = if b < k as int { b } else { b + 1 };
                assert(post_state.ips@[a] == pre_state.ips@[pa]);
                assert(post_state.ips@[b] == pre_state.ips@[pb]);
                assert(pre_state.ips@[pa] != pre_state.ips@[pb]);
            }
            assert forall|a: int|
                0 <= a < post_state.ips@.len() implies ip_net_valid(
                #[trigger] post_state.ips@[a]) by {
                let pa = if a < k as int { a } else { a + 1 };
                assert(post_state.ips@[a] == pre_state.ips@[pa]);
            }
            assert(post_state.wf());
            assert(!post_state.has_ip(net)) by {
                if post_state.has_ip(net) {
                    let a = choose|a: int|
                        0 <= a < post_state.ips@.len() && (#[trigger] post_state.ips@[a]) == net;
                    let pa = if a < k as int { a } else { a + 1 };
                    assert(pre_state.ips@[pa] == net && pre_state.ips@[k as int] == net);
                }
            }
            assert forall|other: IpNet|
                other != net implies post_state.has_ip(other) == pre_state.has_ip(other) by {
                if pre_state.has_ip(other) {
                    let a = choose|a: int|
                        0 <= a < pre_state.ips@.len() && (#[trigger] pre_state.ips@[a]) == other;
                    if a < k as int {
                        assert(post_state.ips@[a] == other);
                    } else {
                        assert(post_state.ips@[a - 1] == other);
                    }
                }
                if post_state.has_ip(other) {
                    let a = choose|a: int|
                        0 <= a < post_state.ips@.len() && (#[trigger] post_state.ips@[a]) == other;
                    if a < k as int {
                        assert(pre_state.ips@[a] == other);
                    } else {
                        assert(pre_state.ips@[a + 1] == other);
                    }
                }
            }
            lemma_device_update_frame(pre_devices, self.devices@, i as int);
        }
        Ok(())
    }

    /// The assigned addresses, in assignment order: a point-in-time
    /// snapshot.
    pub fn get_ips(&self, h: NozzleHandle) -> (r: Result<Vec<IpNet>, ErrorKind>)
        requires
            self.wf(),
        ensures
            r is Ok <==> self.is_live(h),
            !self.is_live(h) ==> r == Err::<Vec<IpNet>, ErrorKind>(ErrorKind::InvalidHandle),
            r matches Ok(list) ==> list@ == self.state_of(h@).ips@,
    {
        let i = match self.find_device(h.id()) {
            Some(i) => i,
            None => {
                return Err(ErrorKind::InvalidHandle);
            },
        };
        let ghost ips = self.devices@[i as int].ips@;
        let mut list: Vec<IpNet> = Vec::new();
        let mut k: usize = 0;
        while k < self.devices[i].ips.len()
            invariant
                self.wf(),
                i < self.devices@.len(),
                ips == self.devices@[i as int].ips@,
                k <= ips.len(),
                list@ == ips.take(k as int),
            decreases ips.len() - k,
        {
            list.push(self.devices[i].ips[k]);
            proof {
                assert(list@ =~= ips.take(k as int + 1));
            }
            k += 1;
        }
        proof {
            assert(list@ =~= ips);
        }
        Ok(list)
    }

    /// The position of `net` among the device's addresses.
    fn find_ip(&self, i: usize, net: IpNet) -> (r: Option<usize>)
        requires
            self.wf(),
            i < self.devices@.len(),
        ensures
            r matches Some(k) ==> k < self.devices@[i as int].ips@.len()
                && self.devices@[i as int].ips@[k as int] == net,
            r is Some <==> self.devices@[i as int].has_ip(net),
    {
        let ghost state = self.devices@[i as int];
        let mut k: usize = 0;
        while k < self.devices[i].ips.len()
            invariant
                self.wf(),
                i < self.devices@.len(),
                state == self.devices@[i as int],
                k <= state.ips@.len(),
                forall|m: int| 0 <= m < k ==> (#[trigger] state.ips@[m]) != net,
            decreases state.ips@.len() - k,
        {
            if self.devices[i].ips[k] == net {
                return Some(k);
            }
            k += 1;
        }
        proof {
            if state.has_ip(net) {
                let m = choose|m: int|
                    0 <= m < state.ips@.len() && (#[trigger] state.ips@[m]) == net;
                assert(state.ips@[m] != net);
            }
        }
        None
    }
}

/// Every live device of `post` is that of `pre` and unchanged, except
/// the one with identifier `id`; liveness itself and the issue counter
/// are untouched.
pub open spec fn nozzle_frame_except(pre: NozzleRegistry, post: NozzleRegistry, id: u64) -> bool {
    &&& post.fresh_id() == pre.fresh_id()
    &&& post.device_count() == pre.device_count()
    &&& (forall|other: u64| post.has_id(other) == pre.has_id(other))
    &&& (forall|other: u64|
        other != id && pre.has_id(other) ==> post.state_of(other) == pre.state_of(other))
}

/// With unique identifiers, a position holding `id` is the one
/// `device_index_of` picks.
proof fn lemma_device_index_of(s: Seq<DeviceState>, id: u64, i: int)
    requires
        0 <= i < s.len(),
        s[i].id == id,
        forall|a: int, b: int| 0 <= a < b < s.len() ==> s[a].id != s[b].id,
    ensures
        devices_have_id(s, id),
        device_index_of(s, id) == i,
{
    assert(devices_have_id(s, id));
    let j = device_index_of(s, id);
    assert(0 <= j < s.len() && s[j].id == id);
    if i < j {
        assert(s[i].id != s[j].id);
    } else if j < i {
        assert(s[j].id != s[i].id);
    }
}

/// Replacing the device at one position, identifier kept and still
/// well shaped, preserves which devices are live, where they sit, and
/// every other device's state.
proof fn lemma_device_update_frame(pre: Seq<DeviceState>, post: Seq<DeviceState>, i: int)
    requires
        forall|a: int, b: int| 0 <= a < b < pre.len() ==> pre[a].id != pre[b].id,
        forall|k: int| 0 <= k < pre.len() ==> (#[trigger] pre[k]).wf(),
        0 <= i < pre.len(),
        post.len() == pre.len(),
        forall|k: int| 0 <= k < pre.len() && k != i ==> post[k] == #[trigger] pre[k],
        post[i].id == pre[i].id,
        post[i].wf(),
    ensures
        forall|a: int, b: int| 0 <= a < b < post.len() ==> post[a].id != post[b].id,
        forall|k: int| 0 <= k < post.len() ==> (#[trigger] post[k]).id == pre[k].id,
        forall|k: int| 0 <= k < post.len() ==> (#[trigger] post[k]).wf(),
        forall|id: u64| devices_have_id(post, id) == devices_have_id(pre, id),
        forall|id: u64|
            id != pre[i].id && devices_have_id(pre, id) ==> device_state_of(post, id)
                == device_state_of(pre, id),
        devices_have_id(post, pre[i].id),
        device_index_of(post, pre[i].id) == i,
        device_state_of(post, pre[i].id) == post[i],
        devices_have_id(pre, pre[i].id),
        device_index_of(pre, pre[i].id) == i,
        device_state_of(pre, pre[i].id) == pre[i],
{
    assert forall|k: int| 0 <= k < post.len() implies (#[trigger] post[k]).wf() by {
        if k != i {
            assert(post[k] == pre[k]);
            assert(pre[k].wf());
        }
    }
    assert(forall|k: int| 0 <= k < post.len() ==> (#[trigger] post[k]).id == pre[k].id);
    assert forall|id: u64| devices_have_id(post, id) == devices_have_id(pre, id) by {
        if devices_have_id(pre, id) {
            let j = choose|j: int| 0 <= j < pre.len() && pre[j].id == id;
            assert(post[j].id == id);
        }
        if devices_have_id(post, id) {
            let j = choose|j: int| 0 <= j < post.len() && post[j].id == id;
            assert(pre[j].id == id);
        }
    }
    assert forall|id: u64|
        id != pre[i].id && devices_have_id(pre, id) implies device_state_of(post, id)
        == device_state_of(pre, id) by {
        let j = device_index_of(pre, id);
        assert(pre[j].id == id);
        assert(j != i);
        assert(post[j].id == id);
        lemma_device_index_of(post, id, j);
        lemma_device_index_of(pre, id, j);
    }
    lemma_device_index_of(post, pre[i].id, i);
    lemma_device_index_of(pre, pre[i].id, i);
}

} // verus!
