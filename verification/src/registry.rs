//! Local bookkeeping for live native resources.
//!
//! The native library hands out raw identifiers and will happily reuse
//! one after it is freed, so the wrapper keeps its own table of live
//! handles: every handle carries an identifier that is never issued
//! twice, an operation on an identifier that is not in the table fails
//! with `InvalidHandle`, and closing a handle removes it from the table
//! so later operations on it fail deterministically instead of touching
//! a stranger's resource.  The table also keeps, per handle, what the
//! wrapper itself is responsible for: the hosts and links configured
//! through it, per-link access-control lists and timers, data channels,
//! notification registrations, and the applied crypto and compression
//! configurations.

use vstd::prelude::*;
use vstd::utf8::encode_utf8;

use crate::acl::{Acl, AclEntry, AclEntryView};
use crate::config::{
    compress_encode_error, crypto_encode_error, CompressConfig, CryptoConfig, Endpoint, IpAddress,
    LinkConfig, KEY_BUF_LEN, MODEL_BUF_LEN,
};
use crate::errors::ErrorKind;
use crate::flags::{HandleFlags, LinkFlags, LogLevel, RxClearTraffic, TransportId};
use crate::strings::{check_text_field, text_field_error};

verus! {

/// How many links each host pair can carry.
pub const LINKS_PER_HOST: usize = 8;

/// How many data channels one handle can have attached.
pub const DATAFD_MAX: usize = 32;

/// Capacity of the fixed native host-name field, terminator included.
pub const HOST_NAME_BUF_LEN: usize = 256;

/// A typed token for one live native resource.  The token is a plain
/// value and freely copyable; whether it is still live is tracked by
/// the [`Registry`] that issued it.
#[derive(Clone, Copy, Debug, PartialEq, Eq, Structural)]
pub struct Handle {
    id: u64,
}

impl View for Handle {
    type V = u64;

    closed spec fn view(&self) -> u64 {
        self.id
    }
}

impl Handle {
    /// The identifier of the handle.
    pub fn id(&self) -> (r: u64)
        ensures
            r == self@,
    {
        self.id
    }
}

/// A small unsigned integer identifying a remote participant.
#[derive(Clone, Copy, Debug, PartialEq, Eq, Structural)]
pub struct HostId {
    id: u16,
}

impl View for HostId {
    type V = u16;

    closed spec fn view(&self) -> u16 {
        self.id
    }
}

impl HostId {
    /// The typed value of a native host identifier.
    pub fn new(id: u16) -> (r: HostId)
        ensures
            r@ == id,
    {
        HostId { id }
    }

    /// The native value of the identifier.
    pub fn to_u16(&self) -> (r: u16)
        ensures
            r == self@,
    {
        self.id
    }
}

/// The notification kinds a handle can register for.
#[derive(Clone, Copy, Debug, PartialEq, Eq, Structural)]
pub enum NotifyKind {
    /// A data channel changed readiness.
    Sock,
    /// A link changed status.
    LinkStatus,
    /// A host became reachable or unreachable.
    HostStatus,
    /// The packet filter is consulted.
    Filter,
    /// A link's path MTU changed.
    Pmtud,
    /// The negotiated on-wire version changed.
    OnwireVersion,
}

/// One notification registration: an opaque token for the user
/// callback and the opaque private-data word handed back on every
/// invocation.
#[derive(Clone, Copy, Debug, PartialEq, Eq, Structural)]
pub struct NotifyRegistration {
    pub callback_token: u64,
    pub private_data: u64,
}

/// The registration table of one handle: at most one active
/// registration per notification kind, by construction.
#[derive(Clone, Copy, Debug, PartialEq, Eq)]
pub struct NotifyTable {
    pub sock: Option<NotifyRegistration>,
    pub link_status: Option<NotifyRegistration>,
    pub host_status: Option<NotifyRegistration>,
    pub filter: Option<NotifyRegistration>,
    pub pmtud: Option<NotifyRegistration>,
    pub onwire: Option<NotifyRegistration>,
}

impl NotifyTable {
    /// A table with no registration.
    pub open spec fn spec_empty() -> NotifyTable {
        NotifyTable {
            sock: None,
            link_status: None,
            host_status: None,
            filter: None,
            pmtud: None,
            onwire: None,
        }
    }

    /// The registration active for `kind`, if any.
    pub open spec fn reg_for(self, kind: NotifyKind) -> Option<NotifyRegistration> {
        match kind {
            NotifyKind::Sock => self.sock,
            NotifyKind::LinkStatus => self.link_status,
            NotifyKind::HostStatus => self.host_status,
            NotifyKind::Filter => self.filter,
            NotifyKind::Pmtud => self.pmtud,
            NotifyKind::OnwireVersion => self.onwire,
        }
    }

    /// Whether any registration is active.
    pub open spec fn any_active(self) -> bool {
        self.sock is Some || self.link_status is Some || self.host_status is Some
            || self.filter is Some || self.pmtud is Some || self.onwire is Some
    }

    /// The table with the registration for `kind` replaced by `reg`.
    pub open spec fn with_reg(self, kind: NotifyKind, reg: Option<NotifyRegistration>) -> NotifyTable {
        match kind {
            NotifyKind::Sock => NotifyTable { sock: reg, ..self },
            NotifyKind::LinkStatus => NotifyTable { link_status: reg, ..self },
            NotifyKind::HostStatus => NotifyTable { host_status: reg, ..self },
            NotifyKind::Filter => NotifyTable { filter: reg, ..self },
            NotifyKind::Pmtud => NotifyTable { pmtud: reg, ..self },
            NotifyKind::OnwireVersion => NotifyTable { onwire: reg, ..self },
        }
    }
}

/// Law: installing a registration for a kind while an earlier one is
/// active leaves exactly the new one active for that kind afterwards —
/// a single native event is delivered through one callback, never two
/// — and no other kind's registration is touched.
pub proof fn lemma_single_registration(
    t: NotifyTable,
    kind: NotifyKind,
    first: NotifyRegistration,
    second: NotifyRegistration,
)
    ensures
        t.with_reg(kind, Some(first)).with_reg(kind, Some(second)).reg_for(kind) == Some(second),
        forall|k: NotifyKind|
            k != kind ==> t.with_reg(kind, Some(first)).with_reg(kind, Some(second)).reg_for(k)
                == t.reg_for(k),
{
}

/// Statistics counters of one handle.
#[derive(Clone, Copy, Debug, PartialEq, Eq, Structural)]
pub struct HandleStats {
    pub tx_packets: u64,
    pub rx_packets: u64,
    pub tx_bytes: u64,
    pub rx_bytes: u64,
}

/// The plain-value settings of one handle.
#[derive(Clone, Copy, Debug, PartialEq, Eq)]
pub struct HandleMeta {
    /// The host identifier this endpoint answers as.
    pub local_host_id: u16,
    /// The flag word the handle was created with.
    pub flags: HandleFlags,
    /// Whether a log consumer was attached at creation.
    pub log_attached: bool,
    /// The lowest level the log callback is asked to deliver.
    pub log_level: LogLevel,
    /// Whether packet forwarding is switched on.
    pub fwd_enabled: bool,
    /// Whether unencrypted traffic is accepted while crypto is
    /// configured.
    pub rx_clear_traffic_allowed: bool,
    /// Seconds between path-MTU discovery runs.
    pub pmtud_interval: u64,
    /// Lowest on-wire protocol version the endpoint speaks.
    pub onwire_min: u8,
    /// Highest on-wire protocol version the endpoint speaks.
    pub onwire_max: u8,
    /// The on-wire protocol version currently forced, if any.
    pub onwire_ver: u8,
    /// Statistics counters.
    pub stats: HandleStats,
}

/// One attached data channel.
#[derive(Clone, Copy, Debug, PartialEq, Eq, Structural)]
pub struct DataFd {
    /// The caller's socket for this channel.
    pub sock: i32,
    /// The channel number, unique per handle.
    pub channel: i8,
}

/// The plain-value state of one link slot.
#[derive(Clone, Copy, Debug, PartialEq, Eq)]
pub struct LinkInfo {
    /// Whether the slot holds a configuration.
    pub configured: bool,
    /// The configuration; meaningful only while `configured`.
    pub config: LinkConfig,
    /// Whether the link is switched on.
    pub enabled: bool,
    /// Milliseconds between ping probes.
    pub ping_interval: u64,
    /// Milliseconds without a pong before the link is down.
    pub ping_timeout: u64,
    /// Ping timing precision, in the native unit.
    pub ping_precision: u32,
}

/// One link slot: its plain settings and its access-control list.
pub struct LinkState {
    pub info: LinkInfo,
    pub acl: Acl,
}

/// One remote host configured on a handle.
pub struct HostState {
    /// The host's identifier.
    pub host_id: u16,
    /// The host's display name.
    pub name: String,
    /// The fixed array of link slots towards this host.
    pub links: Vec<LinkState>,
}

impl HostState {
    /// The host state is shaped as the operations expect: exactly
    /// `LINKS_PER_HOST` link slots.
    pub open spec fn wf(self) -> bool {
        self.links@.len() == LINKS_PER_HOST
    }
}

/// Everything the wrapper tracks for one live handle.
pub struct HandleState {
    /// The identifier the registry issued; never reused.
    pub id: u64,
    /// Plain-value settings.
    pub meta: HandleMeta,
    /// Notification registrations, one slot per kind.
    pub regs: NotifyTable,
    /// The applied crypto configuration, if any.
    pub crypto: Option<CryptoConfig>,
    /// The applied compression configuration, if any.
    pub compress: Option<CompressConfig>,
    /// Attached data channels.
    pub datafds: Vec<DataFd>,
    /// Configured remote hosts, in insertion order.
    pub hosts: Vec<HostState>,
}

impl HandleState {
    /// Host identifiers are unique, every host has its full array of
    /// link slots, and data channels are unique and in range.
    pub open spec fn wf(self) -> bool {
        &&& forall|i: int, j: int|
            0 <= i < j < self.hosts@.len() ==> self.hosts@[i].host_id != self.hosts@[j].host_id
        &&& forall|i: int| 0 <= i < self.hosts@.len() ==> (#[trigger] self.hosts@[i]).wf()
        &&& forall|i: int, j: int|
            0 <= i < j < self.datafds@.len() ==> self.datafds@[i].channel
                != self.datafds@[j].channel
        &&& forall|i: int|
            0 <= i < self.datafds@.len() ==> 0 <= (#[trigger] self.datafds@[i]).channel
                < DATAFD_MAX
    }

    /// Whether a host with identifier `host` is configured.
    pub open spec fn has_host(self, host: u16) -> bool {
        exists|i: int| 0 <= i < self.hosts@.len() && (#[trigger] self.hosts@[i]).host_id == host
    }

    /// The position of host `host` in insertion order.
    pub open spec fn host_index(self, host: u16) -> int {
        choose|i: int| 0 <= i < self.hosts@.len() && (#[trigger] self.hosts@[i]).host_id == host
    }

    /// The state kept for host `host`.
    pub open spec fn host_at(self, host: u16) -> HostState {
        self.hosts@[self.host_index(host)]
    }

    /// Whether anything is still attached: hosts, data channels,
    /// notification registrations or the log consumer.  A busy handle
    /// refuses teardown.
    pub open spec fn busy(self) -> bool {
        self.hosts@.len() > 0 || self.datafds@.len() > 0 || self.regs.any_active()
            || self.meta.log_attached
    }
}

/// Whether `s` holds a handle with identifier `id`.
pub open spec fn seq_has_id(s: Seq<HandleState>, id: u64) -> bool {
    exists|i: int| 0 <= i < s.len() && (#[trigger] s[i]).id == id
}

/// The position of the handle with identifier `id` in `s`.
pub open spec fn seq_index_of(s: Seq<HandleState>, id: u64) -> int {
    choose|i: int| 0 <= i < s.len() && (#[trigger] s[i]).id == id
}

/// The state of the handle with identifier `id` in `s`.
pub open spec fn seq_state_of(s: Seq<HandleState>, id: u64) -> HandleState {
    s[seq_index_of(s, id)]
}

/// The handles of `post` are those of `pre` at the same positions and
/// with the same identifiers, and every handle other than `id` is
/// wholly unchanged.
pub open spec fn same_handles_except(
    pre: Seq<HandleState>,
    post: Seq<HandleState>,
    id: u64,
) -> bool {
    &&& post.len() == pre.len()
    &&& forall|i: int| 0 <= i < pre.len() ==> (#[trigger] post[i]).id == pre[i].id
    &&& forall|i: int| 0 <= i < pre.len() && pre[i].id != id ==> post[i] == #[trigger] pre[i]
}

/// `a` and `b` agree on everything a handle keeps except its hosts.
pub open spec fn same_handle_but_hosts(a: HandleState, b: HandleState) -> bool {
    &&& b.id == a.id
    &&& b.meta == a.meta
    &&& b.regs == a.regs
    &&& b.crypto == a.crypto
    &&& b.compress == a.compress
    &&& b.datafds == a.datafds
}

/// `a` and `b` agree on everything a handle keeps except its
/// notification registrations.
pub open spec fn same_handle_but_regs(a: HandleState, b: HandleState) -> bool {
    &&& b.id == a.id
    &&& b.meta == a.meta
    &&& b.crypto == a.crypto
    &&& b.compress == a.compress
    &&& b.datafds == a.datafds
    &&& b.hosts == a.hosts
}

/// `a` and `b` agree on everything a handle keeps except its
/// plain-value settings.
pub open spec fn same_handle_but_meta(a: HandleState, b: HandleState) -> bool {
    &&& b.id == a.id
    &&& b.regs == a.regs
    &&& b.crypto == a.crypto
    &&& b.compress == a.compress
    &&& b.datafds == a.datafds
    &&& b.hosts == a.hosts
}

/// `a` and `b` agree on everything a handle keeps except the applied
/// crypto and compression configurations.
pub open spec fn same_handle_but_configs(a: HandleState, b: HandleState) -> bool {
    &&& b.id == a.id
    &&& b.meta == a.meta
    &&& b.regs == a.regs
    &&& b.datafds == a.datafds
    &&& b.hosts == a.hosts
}

/// `a` and `b` agree on everything a handle keeps except its data
/// channels.
pub open spec fn same_handle_but_datafds(a: HandleState, b: HandleState) -> bool {
    &&& b.id == a.id
    &&& b.meta == a.meta
    &&& b.regs == a.regs
    &&& b.crypto == a.crypto
    &&& b.compress == a.compress
    &&& b.hosts == a.hosts
}

/// The hosts of `post` are those of `pre` at the same positions and
/// with the same identifiers, and every host other than `host` is
/// wholly unchanged.
pub open spec fn same_hosts_except(
    pre: Seq<HostState>,
    post: Seq<HostState>,
    host: u16,
) -> bool {
    &&& post.len() == pre.len()
    &&& forall|i: int| 0 <= i < pre.len() ==> (#[trigger] post[i]).host_id == pre[i].host_id
    &&& forall|i: int| 0 <= i < pre.len() && pre[i].host_id != host ==> post[i] == #[trigger] pre[i]
}

/// `a` and `b` agree on everything a host keeps except its link slots.
pub open spec fn same_host_but_links(a: HostState, b: HostState) -> bool {
    &&& b.host_id == a.host_id
    &&& b.name == a.name
    &&& b.links@.len() == a.links@.len()
}

/// Every link slot of `post` other than `link` is wholly unchanged
/// from `pre`.
pub open spec fn same_links_except(pre: Seq<LinkState>, post: Seq<LinkState>, link: int) -> bool {
    &&& post.len() == pre.len()
    &&& forall|i: int| 0 <= i < pre.len() && i != link ==> post[i] == #[trigger] pre[i]
}

/// The table of live handles.
pub struct Registry {
    next_id: u64,
    handles: Vec<HandleState>,
}

impl Registry {
    /// Identifiers are unique, below the issue counter, and every
    /// handle's own state is well shaped.
    pub closed spec fn wf(self) -> bool {
        &&& forall|i: int, j: int|
            0 <= i < j < self.handles@.len() ==> self.handles@[i].id != self.handles@[j].id
        &&& forall|i: int|
            0 <= i < self.handles@.len() ==> (#[trigger] self.handles@[i]).id < self.next_id
        &&& forall|i: int| 0 <= i < self.handles@.len() ==> (#[trigger] self.handles@[i]).wf()
    }

    /// The identifier the next created handle will get.
    pub closed spec fn fresh_id(self) -> u64 {
        self.next_id
    }

    /// How many handles are live.
    pub closed spec fn handle_count(self) -> int {
        self.handles@.len() as int
    }

    /// Whether a handle with identifier `id` is live.
    pub closed spec fn has_id(self, id: u64) -> bool {
        seq_has_id(self.handles@, id)
    }

    /// Whether `h` is live.
    pub open spec fn is_live(self, h: Handle) -> bool {
        self.has_id(h@)
    }

    /// The state kept for the live handle with identifier `id`.
    pub closed spec fn state_of(self, id: u64) -> HandleState {
        seq_state_of(self.handles@, id)
    }

    /// An empty table.  The first issued identifier is 1, so 0 never
    /// names a live handle.
    pub fn new() -> (r: Registry)
        ensures
            r.wf(),
            r.handle_count() == 0,
            r.fresh_id() == 1,
            forall|id: u64| !r.has_id(id),
    {
        Registry { next_id: 1, handles: Vec::new() }
    }

    /// The position of the handle with identifier `id`, if it is live.
    fn find_handle(&self, id: u64) -> (r: Option<usize>)
        requires
            self.wf(),
        ensures
            r matches Some(i) ==> i < self.handles@.len() && self.handles@[i as int].id == id
                && self.has_id(id) && seq_index_of(self.handles@, id) == i,
            r is None ==> !self.has_id(id),
    {
        let mut i: usize = 0;
        while i < self.handles.len()
            invariant
                self.wf(),
                i <= self.handles@.len(),
                forall|j: int| 0 <= j < i ==> (#[trigger] self.handles@[j]).id != id,
            decreases self.handles@.len() - i,
        {
            if self.handles[i].id == id {
                proof {
                    lemma_seq_index_of(self.handles@, id, i as int);
                }
                return Some(i);
            }
            i += 1;
        }
        None
    }

    /// Creates the bookkeeping entry for a freshly opened native
    /// resource and issues its handle.  The identifier is fresh: it
    /// was never issued before and will never be issued again.
    pub fn handle_new(
        &mut self,
        local_host: HostId,
        log_attached: bool,
        log_level: LogLevel,
        flags: HandleFlags,
    ) -> (h: Handle)
        requires
            old(self).wf(),
            old(self).fresh_id() < u64::MAX,
        ensures
            final(self).wf(),
            h@ == old(self).fresh_id(),
            final(self).fresh_id() == old(self).fresh_id() + 1,
            !old(self).has_id(h@),
            final(self).has_id(h@),
            final(self).handle_count() == old(self).handle_count() + 1,
            forall|id: u64| id != h@ ==> final(self).has_id(id) == old(self).has_id(id),
            forall|id: u64|
                id != h@ && old(self).has_id(id) ==> final(self).state_of(id) == old(
                    self,
                ).state_of(id),
            ({
                let s = final(self).state_of(h@);
                &&& s.id == h@
                &&& s.meta == HandleMeta {
                    local_host_id: local_host@,
                    flags,
                    log_attached,
                    log_level,
                    fwd_enabled: false,
                    rx_clear_traffic_allowed: true,
                    pmtud_interval: 5,
                    onwire_min: 1,
                    onwire_max: 1,
                    onwire_ver: 1,
                    stats: HandleStats { tx_packets: 0, rx_packets: 0, tx_bytes: 0, rx_bytes: 0 },
                }
                &&& s.regs == NotifyTable::spec_empty()
                &&& s.crypto is None
                &&& s.compress is None
                &&& s.datafds@.len() == 0
                &&& s.hosts@.len() == 0
            }),
    {
        let id = self.next_id;
        let state = HandleState {
            id,
            meta: HandleMeta {
                local_host_id: local_host.to_u16(),
                flags,
                log_attached,
                log_level,
                fwd_enabled: false,
                rx_clear_traffic_allowed: true,
                pmtud_interval: 5,
                onwire_min: 1,
                onwire_max: 1,
                onwire_ver: 1,
                stats: HandleStats { tx_packets: 0, rx_packets: 0, tx_bytes: 0, rx_bytes: 0 },
            },
            regs: NotifyTable {
                sock: None,
                link_status: None,
                host_status: None,
                filter: None,
                pmtud: None,
                onwire: None,
            },
            crypto: None,
            compress: None,
            datafds: Vec::new(),
            hosts: Vec::new(),
        };
        self.handles.push(state);
        self.next_id = id + 1;
        proof {
            let post = self.handles@;
            let pre = old(self).handles@;
            assert(post[pre.len() as int].id == id);
            lemma_seq_index_of(post, id, pre.len() as int);
            assert forall|other: u64| other != id implies seq_has_id(post, other) == seq_has_id(
                pre,
                other,
            ) by {
                if seq_has_id(pre, other) {
                    let j = choose|j: int| 0 <= j < pre.len() && pre[j].id == other;
                    assert(post[j].id == other);
                }
                if seq_has_id(post, other) {
                    let j = choose|j: int| 0 <= j < post.len() && post[j].id == other;
                    assert(j < pre.len() && pre[j].id == other);
                }
            }
            assert forall|other: u64| other != id && seq_has_id(pre, other) implies seq_state_of(
                post,
                other,
            ) == seq_state_of(pre, other) by {
                lemma_same_index(pre, post, other);
            }
        }
        Handle { id }
    }

    /// Tears down the bookkeeping for `h`.  Fails with `InvalidHandle`
    /// when `h` is not live and with `ResourceBusy` while hosts, data
    /// channels, registrations or the log consumer are still attached
    /// — teardown order is the caller's duty and nothing is torn down
    /// by force.  After success `h` is not live, and every operation
    /// on it fails with `InvalidHandle`.
    pub fn handle_free(&mut self, h: Handle) -> (r: Result<(), ErrorKind>)
        requires
            old(self).wf(),
        ensures
            final(self).wf(),
            final(self).fresh_id() == old(self).fresh_id(),
            r is Ok <==> old(self).is_live(h) && !old(self).state_of(h@).busy(),
            !old(self).is_live(h) ==> r == Err::<(), ErrorKind>(ErrorKind::InvalidHandle),
            old(self).is_live(h) && old(self).state_of(h@).busy() ==> r == Err::<(), ErrorKind>(
                ErrorKind::ResourceBusy,
            ),
            r is Err ==> *final(self) == *old(self),
            r is Ok ==> {
                &&& !final(self).has_id(h@)
                &&& final(self).handle_count() == old(self).handle_count() - 1
                &&& forall|id: u64| id != h@ ==> final(self).has_id(id) == old(self).has_id(id)
                &&& forall|id: u64|
                    id != h@ && old(self).has_id(id) ==> final(self).state_of(id) == old(
                        self,
                    ).state_of(id)
            },
    {
        let i = match self.find_handle(h.id()) {
            Some(i) => i,
            None => {
                return Err(ErrorKind::InvalidHandle);
            },
        };
        let busy = {
            let s = &self.handles[i];
            s.hosts.len() > 0 || s.datafds.len() > 0 || s.meta.log_attached || s.regs.sock.is_some()
                || s.regs.link_status.is_some() || s.regs.host_status.is_some()
                || s.regs.filter.is_some() || s.regs.pmtud.is_some() || s.regs.onwire.is_some()
        };
        if busy {
            return Err(ErrorKind::ResourceBusy);
        }
        let ghost pre = self.handles@;
        self.handles.remove(i);
        proof {
            let post = self.handles@;
            assert forall|id: u64| id != h@ implies seq_has_id(post, id) == seq_has_id(
                pre,
                id,
            ) by {
                if seq_has_id(pre, id) {
                    let j = choose|j: int| 0 <= j < pre.len() && pre[j].id == id;
                    if j < i as int {
                        assert(post[j].id == id);
                    } else {
                        assert(post[j - 1].id == id);
                    }
                }
                if seq_has_id(post, id) {
                    let j = choose|j: int| 0 <= j < post.len() && post[j].id == id;
                    if j < i as int {
                        assert(pre[j].id == id);
                    } else {
                        assert(pre[j + 1].id == id);
                    }
                }
            }
            assert(!seq_has_id(post, h@)) by {
                if seq_has_id(post, h@) {
                    let j = choose|j: int| 0 <= j < post.len() && post[j].id == h@;
                    if j < i as int {
                        assert(pre[j].id == h@ && pre[i as int].id == h@);
                    } else {
                        assert(pre[j + 1].id == h@ && pre[i as int].id == h@);
                    }
                }
            }
            assert forall|id: u64| id != h@ && seq_has_id(pre, id) implies seq_state_of(post, id)
                == seq_state_of(pre, id) by {
                let j = seq_index_of(pre, id);
                assert(pre[j].id == id);
                if j < i as int {
                    assert(post[j].id == id);
                    lemma_seq_index_of(post, id, j);
                } else {
                    assert(post[j - 1].id == id);
                    lemma_seq_index_of(post, id, j - 1);
                }
            }
        }
        Ok(())
    }

    /// Whether `h` is live: it was issued by this registry and has not
    /// been freed.
    pub fn handle_is_live(&self, h: Handle) -> (r: bool)
        requires
            self.wf(),
        ensures
            r == self.is_live(h),
    {
        self.find_handle(h.id()).is_some()
    }

    /// Configures a new remote host on `h`, with an empty name and a
    /// full array of unconfigured link slots.  Fails with
    /// `InvalidInput` when a host with this identifier is already
    /// configured.
    pub fn host_add(&mut self, h: Handle, host: HostId) -> (r: Result<(), ErrorKind>)
        requires
            old(self).wf(),
        ensures
            final(self).wf(),
            r is Err ==> *final(self) == *old(self),
            !old(self).is_live(h) ==> r == Err::<(), ErrorKind>(ErrorKind::InvalidHandle),
            old(self).is_live(h) ==> ({
                let pre = old(self).state_of(h@);
                &&& (r is Ok <==> !pre.has_host(host@))
                &&& (pre.has_host(host@) ==> r == Err::<(), ErrorKind>(ErrorKind::InvalidInput))
                &&& (r is Ok ==> ({
                    let post = final(self).state_of(h@);
                    &&& frame_except(*old(self), *final(self), h@)
                    &&& same_handle_but_hosts(pre, post)
                    &&& post.hosts@.len() == pre.hosts@.len() + 1
                    &&& (forall|k: int| 0 <= k < pre.hosts@.len() ==> post.hosts@[k] == pre.hosts@[k])
                    &&& post.has_host(host@)
                    &&& post.host_at(host@) == post.hosts@.last()
                    &&& post.hosts@.last().host_id == host@
                    &&& post.hosts@.last().name@ == Seq::<char>::empty()
                    &&& post.hosts@.last().links@.len() == LINKS_PER_HOST
                    &&& (forall|l: int|
                        #![trigger post.hosts@.last().links@[l]]
                        0 <= l < LINKS_PER_HOST ==> ({
                            let slot = post.hosts@.last().links@[l];
                            &&& !slot.info.configured
                            &&& !slot.info.enabled
                            &&& slot.acl@ == Seq::<AclEntryView>::empty()
                        }))
                }))
            }),
    {
        let i = match self.find_handle(h.id()) {
            Some(i) => i,
            None => {
                return Err(ErrorKind::InvalidHandle);
            },
        };
        if self.handles[i].find_host(host.to_u16()).is_some() {
            return Err(ErrorKind::InvalidInput);
        }
        let new_host = empty_host(host.to_u16());
        let ghost pre_handles = self.handles@;
        let ghost pre_state = self.handles@[i as int];
        self.handles[i].hosts.push(new_host);
        proof {
            let post_state = self.handles@[i as int];
            let n = pre_state.hosts@.len() as int;
            assert(post_state.hosts@[n].host_id == host@);
            assert forall|a: int, b: int|
                0 <= a < b < post_state.hosts@.len() implies post_state.hosts@[a].host_id
                != post_state.hosts@[b].host_id by {
                if b < n {
                    assert(pre_state.hosts@[a].host_id != pre_state.hosts@[b].host_id);
                } else {
                    assert(pre_state.hosts@[a].host_id != host@);
                }
            }
            assert(post_state.wf());
            lemma_update_frame(pre_handles, self.handles@, i as int);
            lemma_host_index_of(post_state, host@, n);
        }
        Ok(())
    }

    /// Takes a remote host out of `h`'s configuration.  Fails with
    /// `NotFound` when no such host is configured and with
    /// `ResourceBusy` while any of its links is still configured or
    /// enabled.
    pub fn host_remove(&mut self, h: Handle, host: HostId) -> (r: Result<(), ErrorKind>)
        requires
            old(self).wf(),
        ensures
            final(self).wf(),
            r is Err ==> *final(self) == *old(self),
            !old(self).is_live(h) ==> r == Err::<(), ErrorKind>(ErrorKind::InvalidHandle),
            old(self).is_live(h) ==> ({
                let pre = old(self).state_of(h@);
                &&& (!pre.has_host(host@) ==> r == Err::<(), ErrorKind>(ErrorKind::NotFound))
                &&& (pre.has_host(host@) && host_busy(pre.host_at(host@)) ==> r == Err::<
                    (),
                    ErrorKind,
                >(ErrorKind::ResourceBusy))
                &&& (r is Ok <==> pre.has_host(host@) && !host_busy(pre.host_at(host@)))
                &&& (r is Ok ==> ({
                    let post = final(self).state_of(h@);
                    &&& frame_except(*old(self), *final(self), h@)
                    &&& same_handle_but_hosts(pre, post)
                    &&& post.hosts@.len() == pre.hosts@.len() - 1
                    &&& !post.has_host(host@)
                    &&& (forall|other: u16|
                        other != host@ ==> post.has_host(other) == pre.has_host(other))
                    &&& (forall|other: u16|
                        other != host@ && pre.has_host(other) ==> post.host_at(other)
                            == pre.host_at(other))
                }))
            }),
    {
        let i = match self.find_handle(h.id()) {
            Some(i) => i,
            None => {
                return Err(ErrorKind::InvalidHandle);
            },
        };
        let j = match self.handles[i].find_host(host.to_u16()) {
            Some(j) => j,
            None => {
                return Err(ErrorKind::NotFound);
            },
        };
        if host_is_busy(&self.handles[i].hosts[j]) {
            return Err(ErrorKind::ResourceBusy);
        }
        let ghost pre_handles = self.handles@;
        let ghost pre_state = self.handles@[i as int];
        self.handles[i].hosts.remove(j);
        proof {
            let post_state = self.handles@[i as int];
            lemma_hosts_remove_frame(pre_state, post_state, j as int);
            assert(post_state.wf());
            lemma_update_frame(pre_handles, self.handles@, i as int);
        }
        Ok(())
    }

    /// Gives host `host` a display name.  Fails with `InvalidInput`
    /// when the name carries an embedded terminator and with `TooLong`
    /// when its bytes do not fit the fixed native name field.
    pub fn host_set_name(&mut self, h: Handle, host: HostId, name: &String) -> (r: Result<
        (),
        ErrorKind,
    >)
        requires
            old(self).wf(),
        ensures
            final(self).wf(),
            r is Err ==> *final(self) == *old(self),
            !old(self).is_live(h) ==> r == Err::<(), ErrorKind>(ErrorKind::InvalidHandle),
            old(self).is_live(h) ==> ({
                let pre = old(self).state_of(h@);
                &&& (pre.has_host(host@) ==> ({
                    let field = text_field_error(
                        encode_utf8(name@),
                        HOST_NAME_BUF_LEN as int - 1,
                    );
                    &&& (r is Ok <==> field is None)
                    &&& (field matches Some(e) ==> r == Err::<(), ErrorKind>(e))
                }))
                &&& (!pre.has_host(host@) ==> r == Err::<(), ErrorKind>(ErrorKind::NotFound))
                &&& (r is Ok ==> ({
                    let post = final(self).state_of(h@);
                    &&& frame_except(*old(self), *final(self), h@)
                    &&& same_handle_but_hosts(pre, post)
                    &&& (forall|other: u16| post.has_host(other) == pre.has_host(other))
                    &&& (forall|other: u16|
                        other != host@ && pre.has_host(other) ==> post.host_at(other)
                            == pre.host_at(other))
                    &&& post.host_at(host@).host_id == host@
                    &&& post.host_at(host@).name@ == name@
                    &&& post.host_at(host@).links == pre.host_at(host@).links
                }))
            }),
    {
        let i = match self.find_handle(h.id()) {
            Some(i) => i,
            None => {
                return Err(ErrorKind::InvalidHandle);
            },
        };
        let j = match self.handles[i].find_host(host.to_u16()) {
            Some(j) => j,
            None => {
                return Err(ErrorKind::NotFound);
            },
        };
        if let Some(e) = check_text_field(name.as_str(), HOST_NAME_BUF_LEN - 1) {
            return Err(e);
        }
        let ghost pre_handles = self.handles@;
        let ghost pre_state = self.handles@[i as int];
        self.handles[i].hosts[j].name = name.clone();
        proof {
            let post_state = self.handles@[i as int];
            lemma_hosts_update_frame(pre_state, post_state, j as int);
            assert(post_state.wf());
            lemma_update_frame(pre_handles, self.handles@, i as int);
        }
        Ok(())
    }

    /// The display name of host `host`, as last set; empty when never
    /// set.
    pub fn host_get_name_by_host_id(&self, h: Handle, host: HostId) -> (r: Result<
        String,
        ErrorKind,
    >)
        requires
            self.wf(),
        ensures
            !self.is_live(h) ==> r == Err::<String, ErrorKind>(ErrorKind::InvalidHandle),
            self.is_live(h) ==> ({
                let pre = self.state_of(h@);
                &&& (r is Ok <==> pre.has_host(host@))
                &&& (!pre.has_host(host@) ==> r == Err::<String, ErrorKind>(ErrorKind::NotFound))
                &&& (r matches Ok(name) ==> name@ == pre.host_at(host@).name@)
            }),
    {
        let i = match self.find_handle(h.id()) {
            Some(i) => i,
            None => {
                return Err(ErrorKind::InvalidHandle);
            },
        };
        let j = match self.handles[i].find_host(host.to_u16()) {
            Some(j) => j,
            None => {
                return Err(ErrorKind::NotFound);
            },
        };
        Ok(self.handles[i].hosts[j].name.clone())
    }

    /// The identifier of the first configured host whose name equals
    /// `name`, in insertion order.  Fails with `NotFound` when no host
    /// carries the name.
    pub fn host_get_id_by_name(&self, h: Handle, name: &String) -> (r: Result<HostId, ErrorKind>)
        requires
            self.wf(),
        ensures
            !self.is_live(h) ==> r == Err::<HostId, ErrorKind>(ErrorKind::InvalidHandle),
            self.is_live(h) ==> ({
                let hosts = self.state_of(h@).hosts@;
                &&& (r is Ok <==> first_host_named(hosts, name@) != -1)
                &&& (r is Err ==> r == Err::<HostId, ErrorKind>(ErrorKind::NotFound))
                &&& (r matches Ok(id) ==> id@ == hosts[first_host_named(hosts, name@)].host_id)
            }),
    {
        let i = match self.find_handle(h.id()) {
            Some(i) => i,
            None => {
                return Err(ErrorKind::InvalidHandle);
            },
        };
        let ghost hosts = self.handles@[i as int].hosts@;
        let mut j: usize = 0;
        while j < self.handles[i].hosts.len()
            invariant
                self.wf(),
                i < self.handles@.len(),
                self.is_live(h),
                self.state_of(h@) == self.handles@[i as int],
                hosts == self.handles@[i as int].hosts@,
                j <= hosts.len(),
                forall|k: int| 0 <= k < j ==> (#[trigger] hosts[k]).name@ != name@,
            decreases hosts.len() - j,
        {
            if self.handles[i].hosts[j].name.eq(name) {
                proof {
                    lemma_first_host_named_at(hosts, name@, j as int);
                }
                return Ok(HostId { id: self.handles[i].hosts[j].host_id });
            }
            j += 1;
        }
        proof {
            lemma_first_host_named_props(hosts, name@);
        }
        Err(ErrorKind::NotFound)
    }

    /// The identifiers of the configured hosts, in insertion order: a
    /// point-in-time snapshot.
    pub fn host_get_host_list(&self, h: Handle) -> (r: Result<Vec<HostId>, ErrorKind>)
        requires
            self.wf(),
        ensures
            r is Ok <==> self.is_live(h),
            !self.is_live(h) ==> r == Err::<Vec<HostId>, ErrorKind>(ErrorKind::InvalidHandle),
            r matches Ok(list) ==> ({
                let hosts = self.state_of(h@).hosts@;
                &&& list@.len() == hosts.len()
                &&& (forall|k: int| 0 <= k < hosts.len() ==> (#[trigger] list@[k])@ == hosts[k].host_id)
            }),
    {
        let i = match self.find_handle(h.id()) {
            Some(i) => i,
            None => {
                return Err(ErrorKind::InvalidHandle);
            },
        };
        let ghost hosts = self.handles@[i as int].hosts@;
        let mut list: Vec<HostId> = Vec::new();
        let mut j: usize = 0;
        while j < self.handles[i].hosts.len()
            invariant
                self.wf(),
                i < self.handles@.len(),
                self.is_live(h),
                self.state_of(h@) == self.handles@[i as int],
                hosts == self.handles@[i as int].hosts@,
                j <= hosts.len(),
                list@.len() == j,
                forall|k: int| 0 <= k < j ==> (#[trigger] list@[k])@ == hosts[k].host_id,
            decreases hosts.len() - j,
        {
            list.push(HostId { id: self.handles[i].hosts[j].host_id });
            j += 1;
        }
        Ok(list)
    }

    /// The positions of handle `h` and host `host`, after checking
    /// that `link_id` is a valid slot.  The checks run in this order:
    /// live handle, configured host, link slot in range.
    fn locate_link(&self, h: Handle, host: HostId, link_id: u8) -> (r: Result<
        (usize, usize),
        ErrorKind,
    >)
        requires
            self.wf(),
        ensures
            r is Ok <==> self.is_live(h) && self.state_of(h@).has_host(host@) && (link_id as int)
                < LINKS_PER_HOST,
            !self.is_live(h) ==> r == Err::<(usize, usize), ErrorKind>(ErrorKind::InvalidHandle),
            self.is_live(h) && !self.state_of(h@).has_host(host@) ==> r == Err::<
                (usize, usize),
                ErrorKind,
            >(ErrorKind::NotFound),
            self.is_live(h) && self.state_of(h@).has_host(host@) && (link_id as int)
                >= LINKS_PER_HOST ==> r == Err::<(usize, usize), ErrorKind>(ErrorKind::InvalidInput),
            r matches Ok(ij) ==> ({
                &&& ij.0 < self.handles@.len()
                &&& seq_index_of(self.handles@, h@) == ij.0
                &&& self.state_of(h@) == self.handles@[ij.0 as int]
                &&& ij.1 < self.state_of(h@).hosts@.len()
                &&& self.state_of(h@).host_index(host@) == ij.1
                &&& self.state_of(h@).hosts@[ij.1 as int].host_id == host@
                &&& self.state_of(h@).hosts@[ij.1 as int].links@.len() == LINKS_PER_HOST
            }),
    {
        let i = match self.find_handle(h.id()) {
            Some(i) => i,
            None => {
                return Err(ErrorKind::InvalidHandle);
            },
        };
        let j = match self.handles[i].find_host(host.to_u16()) {
            Some(j) => j,
            None => {
                return Err(ErrorKind::NotFound);
            },
        };
        if link_id as usize >= LINKS_PER_HOST {
            return Err(ErrorKind::InvalidInput);
        }
        Ok((i, j))
    }

    /// Switches packet forwarding on or off for `h`.
    pub fn handle_setfwd(&mut self, h: Handle, enabled: bool) -> (r: Result<(), ErrorKind>)
        requires
            old(self).wf(),
        ensures
            final(self).wf(),
            r is Err ==> *final(self) == *old(self),
            r is Ok <==> old(self).is_live(h),
            !old(self).is_live(h) ==> r == Err::<(), ErrorKind>(ErrorKind::InvalidHandle),
            r is Ok ==> ({
                let pre = old(self).state_of(h@);
                let post = final(self).state_of(h@);
                &&& frame_except(*old(self), *final(self), h@)
                &&& same_handle_but_meta(pre, post)
                &&& post.meta == HandleMeta { fwd_enabled: enabled, ..pre.meta }
            }),
    {
        let i = match self.find_handle(h.id()) {
            Some(i) => i,
            None => {
                return Err(ErrorKind::InvalidHandle);
            },
        };
        let ghost pre_handles = self.handles@;
        self.handles[i].meta.fwd_enabled = enabled;
        proof {
            assert(self.handles@[i as int].wf());
            handle_op_proof(pre_handles, self.handles@, i as int);
        }
        Ok(())
    }

    /// Detaches the log consumer that was attached when the handle was
    /// created.  The native log callback must be disabled this way
    /// before teardown completes, so no log message can be delivered
    /// for a handle that is already fully freed.
    pub fn handle_detach_log(&mut self, h: Handle) -> (r: Result<(), ErrorKind>)
        requires
            old(self).wf(),
        ensures
            final(self).wf(),
            r is Err ==> *final(self) == *old(self),
            r is Ok <==> old(self).is_live(h),
            !old(self).is_live(h) ==> r == Err::<(), ErrorKind>(ErrorKind::InvalidHandle),
            r is Ok ==> ({
                let pre = old(self).state_of(h@);
                let post = final(self).state_of(h@);
                &&& frame_except(*old(self), *final(self), h@)
                &&& same_handle_but_meta(pre, post)
                &&& post.meta == HandleMeta { log_attached: false, ..pre.meta }
            }),
    {
        let i = match self.find_handle(h.id()) {
            Some(i) => i,
            None => {
                return Err(ErrorKind::InvalidHandle);
            },
        };
        let ghost pre_handles = self.handles@;
        self.handles[i].meta.log_attached = false;
        proof {
            assert(self.handles@[i as int].wf());
            handle_op_proof(pre_handles, self.handles@, i as int);
        }
        Ok(())
    }

    /// Sets whether unencrypted traffic is still accepted while a
    /// crypto configuration is active.
    pub fn handle_crypto_rx_clear_traffic(&mut self, h: Handle, policy: RxClearTraffic) -> (r:
        Result<(), ErrorKind>)
        requires
            old(self).wf(),
        ensures
            final(self).wf(),
            r is Err ==> *final(self) == *old(self),
            r is Ok <==> old(self).is_live(h),
            !old(self).is_live(h) ==> r == Err::<(), ErrorKind>(ErrorKind::InvalidHandle),
            r is Ok ==> ({
                let pre = old(self).state_of(h@);
                let post = final(self).state_of(h@);
                &&& frame_except(*old(self), *final(self), h@)
                &&& same_handle_but_meta(pre, post)
                &&& post.meta == HandleMeta {
                    rx_clear_traffic_allowed: policy is Allow,
                    ..pre.meta
                }
            }),
    {
        let i = match self.find_handle(h.id()) {
            Some(i) => i,
            None => {
                return Err(ErrorKind::InvalidHandle);
            },
        };
        let allowed = match policy {
            RxClearTraffic::Allow => true,
            RxClearTraffic::Disallow => false,
        };
        let ghost pre_handles = self.handles@;
        self.handles[i].meta.rx_clear_traffic_allowed = allowed;
        proof {
            assert(self.handles@[i as int].wf());
            handle_op_proof(pre_handles, self.handles@, i as int);
        }
        Ok(())
    }

    /// Whether unencrypted traffic is accepted while a crypto
    /// configuration is active.
    pub fn handle_crypto_rx_clear_traffic_allowed(&self, h: Handle) -> (r: Result<bool, ErrorKind>)
        requires
            self.wf(),
        ensures
            r is Ok <==> self.is_live(h),
            !self.is_live(h) ==> r == Err::<bool, ErrorKind>(ErrorKind::InvalidHandle),
            r matches Ok(a) ==> a == self.state_of(h@).meta.rx_clear_traffic_allowed,
    {
        let i = match self.find_handle(h.id()) {
            Some(i) => i,
            None => {
                return Err(ErrorKind::InvalidHandle);
            },
        };
        Ok(self.handles[i].meta.rx_clear_traffic_allowed)
    }

    /// Sets how many seconds pass between path-MTU discovery runs.
    /// The native layer accepts one second up to one day.
    pub fn handle_pmtud_setfreq(&mut self, h: Handle, interval: u64) -> (r: Result<(), ErrorKind>)
        requires
            old(self).wf(),
        ensures
            final(self).wf(),
            r is Err ==> *final(self) == *old(self),
            r is Ok <==> old(self).is_live(h) && 1 <= interval <= 86400,
            !old(self).is_live(h) ==> r == Err::<(), ErrorKind>(ErrorKind::InvalidHandle),
            old(self).is_live(h) && !(1 <= interval <= 86400) ==> r == Err::<(), ErrorKind>(
                ErrorKind::InvalidInput,
            ),
            r is Ok ==> ({
                let pre = old(self).state_of(h@);
                let post = final(self).state_of(h@);
                &&& frame_except(*old(self), *final(self), h@)
                &&& same_handle_but_meta(pre, post)
                &&& post.meta == HandleMeta { pmtud_interval: interval, ..pre.meta }
            }),
    {
        let i = match self.find_handle(h.id()) {
            Some(i) => i,
            None => {
                return Err(ErrorKind::InvalidHandle);
            },
        };
        if interval < 1 || interval > 86400 {
            return Err(ErrorKind::InvalidInput);
        }
        let ghost pre_handles = self.handles@;
        self.handles[i].meta.pmtud_interval = interval;
        proof {
            assert(self.handles@[i as int].wf());
            handle_op_proof(pre_handles, self.handles@, i as int);
        }
        Ok(())
    }

    /// How many seconds pass between path-MTU discovery runs.
    pub fn handle_pmtud_getfreq(&self, h: Handle) -> (r: Result<u64, ErrorKind>)
        requires
            self.wf(),
        ensures
            r is Ok <==> self.is_live(h),
            !self.is_live(h) ==> r == Err::<u64, ErrorKind>(ErrorKind::InvalidHandle),
            r matches Ok(v) ==> v == self.state_of(h@).meta.pmtud_interval,
    {
        let i = match self.find_handle(h.id()) {
            Some(i) => i,
            None => {
                return Err(ErrorKind::InvalidHandle);
            },
        };
        Ok(self.handles[i].meta.pmtud_interval)
    }

    /// Forces the on-wire protocol version spoken on the wire.  The
    /// version must lie in the negotiated range; the semantics of the
    /// value belong to the native layer.
    pub fn handle_set_onwire_ver(&mut self, h: Handle, ver: u8) -> (r: Result<(), ErrorKind>)
        requires
            old(self).wf(),
        ensures
            final(self).wf(),
            r is Err ==> *final(self) == *old(self),
            !old(self).is_live(h) ==> r == Err::<(), ErrorKind>(ErrorKind::InvalidHandle),
            old(self).is_live(h) ==> ({
                let pre = old(self).state_of(h@);
                &&& (r is Ok <==> pre.meta.onwire_min <= ver <= pre.meta.onwire_max)
                &&& (!(pre.meta.onwire_min <= ver <= pre.meta.onwire_max) ==> r == Err::<
                    (),
                    ErrorKind,
                >(ErrorKind::InvalidInput))
                &&& (r is Ok ==> ({
                    let post = final(self).state_of(h@);
                    &&& frame_except(*old(self), *final(self), h@)
                    &&& same_handle_but_meta(pre, post)
                    &&& post.meta == HandleMeta { onwire_ver: ver, ..pre.meta }
                }))
            }),
    {
        let i = match self.find_handle(h.id()) {
            Some(i) => i,
            None => {
                return Err(ErrorKind::InvalidHandle);
            },
        };
        if ver < self.handles[i].meta.onwire_min || ver > self.handles[i].meta.onwire_max {
            return Err(ErrorKind::InvalidInput);
        }
        let ghost pre_handles = self.handles@;
        self.handles[i].meta.onwire_ver = ver;
        proof {
            assert(self.handles@[i as int].wf());
            handle_op_proof(pre_handles, self.handles@, i as int);
        }
        Ok(())
    }

    /// The on-wire protocol versions of `h`: the lowest and highest
    /// the endpoint speaks, and the one in force.
    pub fn handle_get_onwire_ver(&self, h: Handle) -> (r: Result<(u8, u8, u8), ErrorKind>)
        requires
            self.wf(),
        ensures
            r is Ok <==> self.is_live(h),
            !self.is_live(h) ==> r == Err::<(u8, u8, u8), ErrorKind>(ErrorKind::InvalidHandle),
            r matches Ok(v) ==> ({
                let meta = self.state_of(h@).meta;
                v == (meta.onwire_min, meta.onwire_max, meta.onwire_ver)
            }),
    {
        let i = match self.find_handle(h.id()) {
            Some(i) => i,
            None => {
                return Err(ErrorKind::InvalidHandle);
            },
        };
        let meta = &self.handles[i].meta;
        Ok((meta.onwire_min, meta.onwire_max, meta.onwire_ver))
    }

    /// Applies a crypto configuration to `h`.  Every text field and
    /// the key length are checked against the fixed native record
    /// before anything changes, so an oversized or terminator-carrying
    /// field fails the whole call with no state touched.
    pub fn handle_crypto_set_config(&mut self, h: Handle, cfg: &CryptoConfig) -> (r: Result<
        (),
        ErrorKind,
    >)
        requires
            old(self).wf(),
        ensures
            final(self).wf(),
            r is Err ==> *final(self) == *old(self),
            !old(self).is_live(h) ==> r == Err::<(), ErrorKind>(ErrorKind::InvalidHandle),
            old(self).is_live(h) ==> ({
                &&& (r is Ok <==> crypto_encode_error(cfg@) is None)
                &&& (crypto_encode_error(cfg@) matches Some(e) ==> r == Err::<(), ErrorKind>(e))
                &&& (r is Ok ==> ({
                    let pre = old(self).state_of(h@);
                    let post = final(self).state_of(h@);
                    &&& frame_except(*old(self), *final(self), h@)
                    &&& same_handle_but_configs(pre, post)
                    &&& post.compress == pre.compress
                    &&& (post.crypto matches Some(c) && c@ == cfg@)
                }))
            }),
    {
        let i = match self.find_handle(h.id()) {
            Some(i) => i,
            None => {
                return Err(ErrorKind::InvalidHandle);
            },
        };
        if let Some(e) = check_text_field(cfg.crypto_model.as_str(), MODEL_BUF_LEN) {
            return Err(e);
        }
        if let Some(e) = check_text_field(cfg.crypto_cipher_type.as_str(), MODEL_BUF_LEN) {
            return Err(e);
        }
        if let Some(e) = check_text_field(cfg.crypto_hash_type.as_str(), MODEL_BUF_LEN) {
            return Err(e);
        }
        if cfg.private_key.len() > KEY_BUF_LEN {
            return Err(ErrorKind::TooLong);
        }
        let ghost pre_handles = self.handles@;
        self.handles[i].crypto = Some(cfg.duplicate());
        proof {
            assert(self.handles@[i as int].wf());
            handle_op_proof(pre_handles, self.handles@, i as int);
        }
        Ok(())
    }

    /// Applies a compression configuration to `h`.  The model name is
    /// checked against the fixed native record before anything
    /// changes.
    pub fn handle_compress(&mut self, h: Handle, cfg: &CompressConfig) -> (r: Result<
        (),
        ErrorKind,
    >)
        requires
            old(self).wf(),
        ensures
            final(self).wf(),
            r is Err ==> *final(self) == *old(self),
            !old(self).is_live(h) ==> r == Err::<(), ErrorKind>(ErrorKind::InvalidHandle),
            old(self).is_live(h) ==> ({
                &&& (r is Ok <==> compress_encode_error(cfg@) is None)
                &&& (compress_encode_error(cfg@) matches Some(e) ==> r == Err::<(), ErrorKind>(e))
                &&& (r is Ok ==> ({
                    let pre = old(self).state_of(h@);
                    let post = final(self).state_of(h@);
                    &&& frame_except(*old(self), *final(self), h@)
                    &&& same_handle_but_configs(pre, post)
                    &&& post.crypto == pre.crypto
                    &&& (post.compress matches Some(c) && c@ == cfg@)
                }))
            }),
    {
        let i = match self.find_handle(h.id()) {
            Some(i) => i,
            None => {
                return Err(ErrorKind::InvalidHandle);
            },
        };
        if let Some(e) = check_text_field(cfg.compress_model.as_str(), MODEL_BUF_LEN) {
            return Err(e);
        }
        let ghost pre_handles = self.handles@;
        self.handles[i].compress = Some(cfg.duplicate());
        proof {
            assert(self.handles@[i as int].wf());
            handle_op_proof(pre_handles, self.handles@, i as int);
        }
        Ok(())
    }

    /// Installs, replaces or removes the registration for one
    /// notification kind: `Some` installs or atomically replaces the
    /// callback, `None` disables it.  Exactly one registration per
    /// kind is active afterwards at most, and no other kind is
    /// touched, so a single native event is never delivered twice.
    pub fn handle_enable_notify(
        &mut self,
        h: Handle,
        kind: NotifyKind,
        reg: Option<NotifyRegistration>,
    ) -> (r: Result<(), ErrorKind>)
        requires
            old(self).wf(),
        ensures
            final(self).wf(),
            r is Err ==> *final(self) == *old(self),
            r is Ok <==> old(self).is_live(h),
            !old(self).is_live(h) ==> r == Err::<(), ErrorKind>(ErrorKind::InvalidHandle),
            r is Ok ==> ({
                let pre = old(self).state_of(h@);
                let post = final(self).state_of(h@);
                &&& frame_except(*old(self), *final(self), h@)
                &&& same_handle_but_regs(pre, post)
                &&& post.regs == pre.regs.with_reg(kind, reg)
                &&& post.regs.reg_for(kind) == reg
                &&& (forall|k: NotifyKind|
                    k != kind ==> post.regs.reg_for(k) == pre.regs.reg_for(k))
            }),
    {
        let i = match self.find_handle(h.id()) {
            Some(i) => i,
            None => {
                return Err(ErrorKind::InvalidHandle);
            },
        };
        let ghost pre_handles = self.handles@;
        match kind {
            NotifyKind::Sock => {
                self.handles[i].regs.sock = reg;
            },
            NotifyKind::LinkStatus => {
                self.handles[i].regs.link_status = reg;
            },
            NotifyKind::HostStatus => {
                self.handles[i].regs.host_status = reg;
            },
            NotifyKind::Filter => {
                self.handles[i].regs.filter = reg;
            },
            NotifyKind::Pmtud => {
                self.handles[i].regs.pmtud = reg;
            },
            NotifyKind::OnwireVersion => {
                self.handles[i].regs.onwire = reg;
            },
        }
        proof {
            assert(self.handles@[i as int].wf());
            handle_op_proof(pre_handles, self.handles@, i as int);
        }
        Ok(())
    }

    /// The registration active for notification kind `kind`, if any.
    pub fn handle_get_notify(&self, h: Handle, kind: NotifyKind) -> (r: Result<
        Option<NotifyRegistration>,
        ErrorKind,
    >)
        requires
            self.wf(),
        ensures
            r is Ok <==> self.is_live(h),
            !self.is_live(h) ==> r == Err::<Option<NotifyRegistration>, ErrorKind>(
                ErrorKind::InvalidHandle,
            ),
            r matches Ok(reg) ==> reg == self.state_of(h@).regs.reg_for(kind),
    {
        let i = match self.find_handle(h.id()) {
            Some(i) => i,
            None => {
                return Err(ErrorKind::InvalidHandle);
            },
        };
        let regs = &self.handles[i].regs;
        Ok(
            match kind {
                NotifyKind::Sock => regs.sock,
                NotifyKind::LinkStatus => regs.link_status,
                NotifyKind::HostStatus => regs.host_status,
                NotifyKind::Filter => regs.filter,
                NotifyKind::Pmtud => regs.pmtud,
                NotifyKind::OnwireVersion => regs.onwire,
            },
        )
    }

    /// Whether packet forwarding is switched on.
    pub fn handle_get_fwd(&self, h: Handle) -> (r: Result<bool, ErrorKind>)
        requires
            self.wf(),
        ensures
            r is Ok <==> self.is_live(h),
            !self.is_live(h) ==> r == Err::<bool, ErrorKind>(ErrorKind::InvalidHandle),
            r matches Ok(v) ==> v == self.state_of(h@).meta.fwd_enabled,
    {
        let i = match self.find_handle(h.id()) {
            Some(i) => i,
            None => {
                return Err(ErrorKind::InvalidHandle);
            },
        };
        Ok(self.handles[i].meta.fwd_enabled)
    }

    /// The statistics counters of `h`: a point-in-time snapshot.
    pub fn handle_get_stats(&self, h: Handle) -> (r: Result<HandleStats, ErrorKind>)
        requires
            self.wf(),
        ensures
            r is Ok <==> self.is_live(h),
            !self.is_live(h) ==> r == Err::<HandleStats, ErrorKind>(ErrorKind::InvalidHandle),
            r matches Ok(stats) ==> stats == self.state_of(h@).meta.stats,
    {
        let i = match self.find_handle(h.id()) {
            Some(i) => i,
            None => {
                return Err(ErrorKind::InvalidHandle);
            },
        };
        Ok(self.handles[i].meta.stats)
    }

    /// Resets the statistics counters of `h` to zero.
    pub fn handle_clear_stats(&mut self, h: Handle) -> (r: Result<(), ErrorKind>)
        requires
            old(self).wf(),
        ensures
            final(self).wf(),
            r is Err ==> *final(self) == *old(self),
            r is Ok <==> old(self).is_live(h),
            !old(self).is_live(h) ==> r == Err::<(), ErrorKind>(ErrorKind::InvalidHandle),
            r is Ok ==> ({
                let pre = old(self).state_of(h@);
                let post = final(self).state_of(h@);
                &&& frame_except(*old(self), *final(self), h@)
                &&& same_handle_but_meta(pre, post)
                &&& post.meta == HandleMeta {
                    stats: HandleStats { tx_packets: 0, rx_packets: 0, tx_bytes: 0, rx_bytes: 0 },
                    ..pre.meta
                }
            }),
    {
        let i = match self.find_handle(h.id()) {
            Some(i) => i,
            None => {
                return Err(ErrorKind::InvalidHandle);
            },
        };
        let ghost pre_handles = self.handles@;
        self.handles[i].meta.stats = HandleStats {
            tx_packets: 0,
            rx_packets: 0,
            tx_bytes: 0,
            rx_bytes: 0,
        };
        proof {
            assert(self.handles@[i as int].wf());
            handle_op_proof(pre_handles, self.handles@, i as int);
        }
        Ok(())
    }

    /// Configures link slot `link_id` towards `host`: the transport to
    /// run, the local endpoint to bind, the remote endpoint to talk to
    /// — absent for a dynamic link — and the link's flag word.  The
    /// slot must be disabled; configuring an enabled link fails with
    /// `ResourceBusy`.  A configured slot starts out disabled.
    pub fn link_set_config(
        &mut self,
        h: Handle,
        host: HostId,
        link_id: u8,
        transport: TransportId,
        local: Endpoint,
        remote: Option<Endpoint>,
        flags: LinkFlags,
    ) -> (r: Result<(), ErrorKind>)
        requires
            old(self).wf(),
        ensures
            final(self).wf(),
            r is Err ==> *final(self) == *old(self),
            locate_link_errors(*old(self), h, host, link_id, r),
            old(self).is_live(h) && old(self).state_of(h@).has_host(host@) && (link_id as int)
                < LINKS_PER_HOST ==> ({
                let pre = old(self).state_of(h@).host_at(host@).links@[link_id as int];
                &&& (r is Ok <==> !pre.info.enabled)
                &&& (pre.info.enabled ==> r == Err::<(), ErrorKind>(ErrorKind::ResourceBusy))
                &&& (r is Ok ==> ({
                    let post = final(self).state_of(h@).host_at(host@).links@[link_id as int];
                    &&& link_op_frame(*old(self), *final(self), h@, host@, link_id as int)
                    &&& post.info == LinkInfo {
                        configured: true,
                        config: LinkConfig { transport, local, remote, flags },
                        enabled: false,
                        ping_interval: pre.info.ping_interval,
                        ping_timeout: pre.info.ping_timeout,
                        ping_precision: pre.info.ping_precision,
                    }
                    &&& post.acl == pre.acl
                }))
            }),
    {
        let (i, j) = match self.locate_link(h, host, link_id) {
            Ok(ij) => ij,
            Err(e) => {
                return Err(e);
            },
        };
        let l = link_id as usize;
        if self.handles[i].hosts[j].links[l].info.enabled {
            return Err(ErrorKind::ResourceBusy);
        }
        let ghost pre_handles = self.handles@;
        let ghost pre_state = self.handles@[i as int];
        let ghost pre_host = pre_state.hosts@[j as int];
        let old_info = self.handles[i].hosts[j].links[l].info;
        self.handles[i].hosts[j].links[l].info = LinkInfo {
            configured: true,
            config: LinkConfig { transport, local, remote, flags },
            enabled: false,
            ping_interval: old_info.ping_interval,
            ping_timeout: old_info.ping_timeout,
            ping_precision: old_info.ping_precision,
        };
        proof {
            link_op_proof(pre_handles, self.handles@, i as int, j as int);
        }
        Ok(())
    }

    /// What link slot `link_id` towards `host` is configured as.
    /// Fails with `NotFound` when the slot holds no configuration.
    pub fn link_get_config(&self, h: Handle, host: HostId, link_id: u8) -> (r: Result<
        LinkConfig,
        ErrorKind,
    >)
        requires
            self.wf(),
        ensures
            locate_link_errors(*self, h, host, link_id, result_forget(r)),
            self.is_live(h) && self.state_of(h@).has_host(host@) && (link_id as int)
                < LINKS_PER_HOST ==> ({
                let slot = self.state_of(h@).host_at(host@).links@[link_id as int];
                &&& (r is Ok <==> slot.info.configured)
                &&& (!slot.info.configured ==> r == Err::<LinkConfig, ErrorKind>(
                    ErrorKind::NotFound,
                ))
                &&& (r matches Ok(c) ==> c == slot.info.config)
            }),
    {
        let (i, j) = match self.locate_link(h, host, link_id) {
            Ok(ij) => ij,
            Err(e) => {
                return Err(e);
            },
        };
        let l = link_id as usize;
        if !self.handles[i].hosts[j].links[l].info.configured {
            return Err(ErrorKind::NotFound);
        }
        Ok(self.handles[i].hosts[j].links[l].info.config)
    }

    /// Switches link slot `link_id` towards `host` on or off.  Fails
    /// with `NotFound` when the slot holds no configuration.
    pub fn link_set_enable(&mut self, h: Handle, host: HostId, link_id: u8, enable: bool) -> (r:
        Result<(), ErrorKind>)
        requires
            old(self).wf(),
        ensures
            final(self).wf(),
            r is Err ==> *final(self) == *old(self),
            locate_link_errors(*old(self), h, host, link_id, r),
            old(self).is_live(h) && old(self).state_of(h@).has_host(host@) && (link_id as int)
                < LINKS_PER_HOST ==> ({
                let pre = old(self).state_of(h@).host_at(host@).links@[link_id as int];
                &&& (r is Ok <==> pre.info.configured)
                &&& (!pre.info.configured ==> r == Err::<(), ErrorKind>(ErrorKind::NotFound))
                &&& (r is Ok ==> ({
                    let post = final(self).state_of(h@).host_at(host@).links@[link_id as int];
                    &&& link_op_frame(*old(self), *final(self), h@, host@, link_id as int)
                    &&& post.info == LinkInfo { enabled: enable, ..pre.info }
                    &&& post.acl == pre.acl
                }))
            }),
    {
        let (i, j) = match self.locate_link(h, host, link_id) {
            Ok(ij) => ij,
            Err(e) => {
                return Err(e);
            },
        };
        let l = link_id as usize;
        if !self.handles[i].hosts[j].links[l].info.configured {
            return Err(ErrorKind::NotFound);
        }
        let ghost pre_handles = self.handles@;
        self.handles[i].hosts[j].links[l].info.enabled = enable;
        proof {
            link_op_proof(pre_handles, self.handles@, i as int, j as int);
        }
        Ok(())
    }

    /// Whether link slot `link_id` towards `host` is switched on.
    /// Fails with `NotFound` when the slot holds no configuration.
    pub fn link_get_enable(&self, h: Handle, host: HostId, link_id: u8) -> (r: Result<
        bool,
        ErrorKind,
    >)
        requires
            self.wf(),
        ensures
            locate_link_errors(*self, h, host, link_id, result_forget(r)),
            self.is_live(h) && self.state_of(h@).has_host(host@) && (link_id as int)
                < LINKS_PER_HOST ==> ({
                let slot = self.state_of(h@).host_at(host@).links@[link_id as int];
                &&& (r is Ok <==> slot.info.configured)
                &&& (!slot.info.configured ==> r == Err::<bool, ErrorKind>(ErrorKind::NotFound))
                &&& (r matches Ok(e) ==> e == slot.info.enabled)
            }),
    {
        let (i, j) = match self.locate_link(h, host, link_id) {
            Ok(ij) => ij,
            Err(e) => {
                return Err(e);
            },
        };
        let l = link_id as usize;
        if !self.handles[i].hosts[j].links[l].info.configured {
            return Err(ErrorKind::NotFound);
        }
        Ok(self.handles[i].hosts[j].links[l].info.enabled)
    }

    /// Sets the ping timers of link slot `link_id` towards `host`: the
    /// probe interval, the timeout after which the link counts as
    /// down, and the timing precision.  A zero interval or timeout is
    /// rejected with `InvalidInput`; an unconfigured slot with
    /// `NotFound`.
    pub fn link_set_ping_timers(
        &mut self,
        h: Handle,
        host: HostId,
        link_id: u8,
        interval: u64,
        timeout: u64,
        precision: u32,
    ) -> (r: Result<(), ErrorKind>)
        requires
            old(self).wf(),
        ensures
            final(self).wf(),
            r is Err ==> *final(self) == *old(self),
            locate_link_errors(*old(self), h, host, link_id, r),
            old(self).is_live(h) && old(self).state_of(h@).has_host(host@) && (link_id as int)
                < LINKS_PER_HOST ==> ({
                let pre = old(self).state_of(h@).host_at(host@).links@[link_id as int];
                &&& (r is Ok <==> pre.info.configured && interval != 0 && timeout != 0)
                &&& (!pre.info.configured ==> r == Err::<(), ErrorKind>(ErrorKind::NotFound))
                &&& (pre.info.configured && (interval == 0 || timeout == 0) ==> r == Err::<
                    (),
                    ErrorKind,
                >(ErrorKind::InvalidInput))
                &&& (r is Ok ==> ({
                    let post = final(self).state_of(h@).host_at(host@).links@[link_id as int];
                    &&& link_op_frame(*old(self), *final(self), h@, host@, link_id as int)
                    &&& post.info == LinkInfo {
                        ping_interval: interval,
                        ping_timeout: timeout,
                        ping_precision: precision,
                        ..pre.info
                    }
                    &&& post.acl == pre.acl
                }))
            }),
    {
        let (i, j) = match self.locate_link(h, host, link_id) {
            Ok(ij) => ij,
            Err(e) => {
                return Err(e);
            },
        };
        let l = link_id as usize;
        if !self.handles[i].hosts[j].links[l].info.configured {
            return Err(ErrorKind::NotFound);
        }
        if interval == 0 || timeout == 0 {
            return Err(ErrorKind::InvalidInput);
        }
        let ghost pre_handles = self.handles@;
        self.handles[i].hosts[j].links[l].info.ping_interval = interval;
        self.handles[i].hosts[j].links[l].info.ping_timeout = timeout;
        self.handles[i].hosts[j].links[l].info.ping_precision = precision;
        proof {
            link_op_proof(pre_handles, self.handles@, i as int, j as int);
        }
        Ok(())
    }

    /// The ping timers of link slot `link_id` towards `host`, exactly
    /// as last set: interval, timeout and precision.
    pub fn link_get_ping_timers(&self, h: Handle, host: HostId, link_id: u8) -> (r: Result<
        (u64, u64, u32),
        ErrorKind,
    >)
        requires
            self.wf(),
        ensures
            locate_link_errors(*self, h, host, link_id, result_forget(r)),
            self.is_live(h) && self.state_of(h@).has_host(host@) && (link_id as int)
                < LINKS_PER_HOST ==> ({
                let slot = self.state_of(h@).host_at(host@).links@[link_id as int];
                &&& (r is Ok <==> slot.info.configured)
                &&& (!slot.info.configured ==> r == Err::<(u64, u64, u32), ErrorKind>(
                    ErrorKind::NotFound,
                ))
                &&& (r matches Ok(t) ==> t == (
                    slot.info.ping_interval,
                    slot.info.ping_timeout,
                    slot.info.ping_precision,
                ))
            }),
    {
        let (i, j) = match self.locate_link(h, host, link_id) {
            Ok(ij) => ij,
            Err(e) => {
                return Err(e);
            },
        };
        let l = link_id as usize;
        if !self.handles[i].hosts[j].links[l].info.configured {
            return Err(ErrorKind::NotFound);
        }
        let info = &self.handles[i].hosts[j].links[l].info;
        Ok((info.ping_interval, info.ping_timeout, info.ping_precision))
    }

    /// The identifiers of the configured link slots towards `host`, in
    /// ascending order: a point-in-time snapshot.
    pub fn link_get_link_list(&self, h: Handle, host: HostId) -> (r: Result<Vec<u8>, ErrorKind>)
        requires
            self.wf(),
        ensures
            !self.is_live(h) ==> r == Err::<Vec<u8>, ErrorKind>(ErrorKind::InvalidHandle),
            self.is_live(h) && !self.state_of(h@).has_host(host@) ==> r == Err::<
                Vec<u8>,
                ErrorKind,
            >(ErrorKind::NotFound),
            r is Ok <==> self.is_live(h) && self.state_of(h@).has_host(host@),
            r matches Ok(list) ==> list@ == configured_links(
                self.state_of(h@).host_at(host@).links@,
                LINKS_PER_HOST as int,
            ),
    {
        let i = match self.find_handle(h.id()) {
            Some(i) => i,
            None => {
                return Err(ErrorKind::InvalidHandle);
            },
        };
        let j = match self.handles[i].find_host(host.to_u16()) {
            Some(j) => j,
            None => {
                return Err(ErrorKind::NotFound);
            },
        };
        let ghost links = self.handles@[i as int].hosts@[j as int].links@;
        let mut list: Vec<u8> = Vec::new();
        let mut l: usize = 0;
        while l < LINKS_PER_HOST
            invariant
                self.wf(),
                i < self.handles@.len(),
                j < self.handles@[i as int].hosts@.len(),
                links == self.handles@[i as int].hosts@[j as int].links@,
                links.len() == LINKS_PER_HOST,
                l <= LINKS_PER_HOST,
                list@ == configured_links(links, l as int),
            decreases LINKS_PER_HOST - l,
        {
            if self.handles[i].hosts[j].links[l].info.configured {
                list.push(l as u8);
                proof {
                    assert(list@ =~= configured_links(links, l as int + 1));
                }
            } else {
                proof {
                    assert(list@ =~= configured_links(links, l as int + 1));
                }
            }
            l += 1;
        }
        Ok(list)
    }

    /// Appends `entry` behind every present entry of the ACL of link
    /// slot `link_id` towards `host`.
    pub fn link_add_acl(&mut self, h: Handle, host: HostId, link_id: u8, entry: AclEntry) -> (r:
        Result<(), ErrorKind>)
        requires
            old(self).wf(),
        ensures
            final(self).wf(),
            r is Err ==> *final(self) == *old(self),
            locate_link_errors(*old(self), h, host, link_id, r),
            r is Ok <==> old(self).is_live(h) && old(self).state_of(h@).has_host(host@) && (
            link_id as int) < LINKS_PER_HOST,
            r is Ok ==> ({
                let pre = old(self).state_of(h@).host_at(host@).links@[link_id as int];
                let post = final(self).state_of(h@).host_at(host@).links@[link_id as int];
                &&& link_op_frame(*old(self), *final(self), h@, host@, link_id as int)
                &&& post.info == pre.info
                &&& post.acl@ == pre.acl@.push(entry@)
            }),
    {
        let (i, j) = match self.locate_link(h, host, link_id) {
            Ok(ij) => ij,
            Err(e) => {
                return Err(e);
            },
        };
        let l = link_id as usize;
        let ghost pre_handles = self.handles@;
        self.handles[i].hosts[j].links[l].acl.add(entry);
        proof {
            link_op_proof(pre_handles, self.handles@, i as int, j as int);
        }
        Ok(())
    }

    /// Places `entry` at position `index` of the ACL of link slot
    /// `link_id` towards `host`, shifting the entries from `index` on
    /// down by one.  Fails with `IndexOutOfRange` when `index` lies
    /// beyond the current length.
    pub fn link_insert_acl(
        &mut self,
        h: Handle,
        host: HostId,
        link_id: u8,
        index: usize,
        entry: AclEntry,
    ) -> (r: Result<(), ErrorKind>)
        requires
            old(self).wf(),
        ensures
            final(self).wf(),
            r is Err ==> *final(self) == *old(self),
            locate_link_errors(*old(self), h, host, link_id, r),
            old(self).is_live(h) && old(self).state_of(h@).has_host(host@) && (link_id as int)
                < LINKS_PER_HOST ==> ({
                let pre = old(self).state_of(h@).host_at(host@).links@[link_id as int];
                &&& (r is Ok <==> index <= pre.acl@.len())
                &&& (index > pre.acl@.len() ==> r == Err::<(), ErrorKind>(
                    ErrorKind::IndexOutOfRange,
                ))
                &&& (r is Ok ==> ({
                    let post = final(self).state_of(h@).host_at(host@).links@[link_id as int];
                    &&& link_op_frame(*old(self), *final(self), h@, host@, link_id as int)
                    &&& post.info == pre.info
                    &&& post.acl@ == pre.acl@.insert(index as int, entry@)
                }))
            }),
    {
        let (i, j) = match self.locate_link(h, host, link_id) {
            Ok(ij) => ij,
            Err(e) => {
                return Err(e);
            },
        };
        let l = link_id as usize;
        if index > self.handles[i].hosts[j].links[l].acl.len() {
            return Err(ErrorKind::IndexOutOfRange);
        }
        let ghost pre_handles = self.handles@;
        let r = self.handles[i].hosts[j].links[l].acl.insert(index, entry);
        match r {
            Ok(()) => {
                proof {
                    link_op_proof(pre_handles, self.handles@, i as int, j as int);
                }
                Ok(())
            },
            Err(e) => Err(e),
        }
    }

    /// Takes the first entry equal to `entry` out of the ACL of link
    /// slot `link_id` towards `host`.  Fails with `NotFound` when no
    /// entry is equal.
    pub fn link_rm_acl(&mut self, h: Handle, host: HostId, link_id: u8, entry: &AclEntry) -> (r:
        Result<(), ErrorKind>)
        requires
            old(self).wf(),
        ensures
            final(self).wf(),
            r is Err ==> *final(self) == *old(self),
            locate_link_errors(*old(self), h, host, link_id, r),
            old(self).is_live(h) && old(self).state_of(h@).has_host(host@) && (link_id as int)
                < LINKS_PER_HOST ==> ({
                let pre = old(self).state_of(h@).host_at(host@).links@[link_id as int];
                &&& (r is Ok <==> crate::acl::first_match(pre.acl@, entry@) != -1)
                &&& (crate::acl::first_match(pre.acl@, entry@) == -1 ==> r == Err::<
                    (),
                    ErrorKind,
                >(ErrorKind::NotFound))
                &&& (r is Ok ==> ({
                    let post = final(self).state_of(h@).host_at(host@).links@[link_id as int];
                    &&& link_op_frame(*old(self), *final(self), h@, host@, link_id as int)
                    &&& post.info == pre.info
                    &&& post.acl@ == pre.acl@.remove(crate::acl::first_match(pre.acl@, entry@))
                }))
            }),
    {
        let (i, j) = match self.locate_link(h, host, link_id) {
            Ok(ij) => ij,
            Err(e) => {
                return Err(e);
            },
        };
        let l = link_id as usize;
        if !self.handles[i].hosts[j].links[l].acl.contains_entry(entry) {
            return Err(ErrorKind::NotFound);
        }
        let ghost pre_handles = self.handles@;
        let r = self.handles[i].hosts[j].links[l].acl.remove(entry);
        match r {
            Ok(()) => {
                proof {
                    link_op_proof(pre_handles, self.handles@, i as int, j as int);
                }
                Ok(())
            },
            Err(e) => Err(e),
        }
    }

    /// Empties the ACL of link slot `link_id` towards `host`.
    pub fn link_clear_acl(&mut self, h: Handle, host: HostId, link_id: u8) -> (r: Result<
        (),
        ErrorKind,
    >)
        requires
            old(self).wf(),
        ensures
            final(self).wf(),
            r is Err ==> *final(self) == *old(self),
            locate_link_errors(*old(self), h, host, link_id, r),
            r is Ok <==> old(self).is_live(h) && old(self).state_of(h@).has_host(host@) && (
            link_id as int) < LINKS_PER_HOST,
            r is Ok ==> ({
                let pre = old(self).state_of(h@).host_at(host@).links@[link_id as int];
                let post = final(self).state_of(h@).host_at(host@).links@[link_id as int];
                &&& link_op_frame(*old(self), *final(self), h@, host@, link_id as int)
                &&& post.info == pre.info
                &&& post.acl@ == Seq::<AclEntryView>::empty()
            }),
    {
        let (i, j) = match self.locate_link(h, host, link_id) {
            Ok(ij) => ij,
            Err(e) => {
                return Err(e);
            },
        };
        let l = link_id as usize;
        let ghost pre_handles = self.handles@;
        self.handles[i].hosts[j].links[l].acl.clear();
        proof {
            link_op_proof(pre_handles, self.handles@, i as int, j as int);
        }
        Ok(())
    }

    /// A point-in-time copy of the ACL of link slot `link_id` towards
    /// `host`, in evaluation order.
    pub fn link_get_acl_list(&self, h: Handle, host: HostId, link_id: u8) -> (r: Result<
        Vec<AclEntry>,
        ErrorKind,
    >)
        requires
            self.wf(),
        ensures
            locate_link_errors(*self, h, host, link_id, result_forget(r)),
            r is Ok <==> self.is_live(h) && self.state_of(h@).has_host(host@) && (link_id as int)
                < LINKS_PER_HOST,
            r matches Ok(list) ==> list@.map_values(|e: AclEntry| e@) == self.state_of(
                h@,
            ).host_at(host@).links@[link_id as int].acl@,
    {
        let (i, j) = match self.locate_link(h, host, link_id) {
            Ok(ij) => ij,
            Err(e) => {
                return Err(e);
            },
        };
        let l = link_id as usize;
        Ok(self.handles[i].hosts[j].links[l].acl.list())
    }

    /// Attaches a data channel to `h`: the caller's socket `sock` under
    /// channel number `channel`, or under the lowest free channel when
    /// `channel` is negative.  A socket can be attached once; a taken
    /// channel, or a full table when auto-assigning, is `ResourceBusy`.
    pub fn handle_add_datafd(&mut self, h: Handle, sock: i32, channel: i8) -> (r: Result<
        i8,
        ErrorKind,
    >)
        requires
            old(self).wf(),
        ensures
            final(self).wf(),
            r is Err ==> *final(self) == *old(self),
            !old(self).is_live(h) ==> r == Err::<i8, ErrorKind>(ErrorKind::InvalidHandle),
            old(self).is_live(h) ==> ({
                let pre = old(self).state_of(h@);
                &&& (r is Ok <==> !sock_attached(pre, sock) && ((0 <= channel && (channel as int)
                    < DATAFD_MAX && !channel_taken(pre, channel)) || (channel < 0 && exists|c: i8|
                    0 <= c < DATAFD_MAX && !channel_taken(pre, c))))
                &&& (sock_attached(pre, sock) ==> r == Err::<i8, ErrorKind>(ErrorKind::InvalidInput))
                &&& (!sock_attached(pre, sock) && channel >= 0 ==> ({
                    &&& ((channel as int) >= DATAFD_MAX ==> r == Err::<i8, ErrorKind>(
                        ErrorKind::InvalidInput,
                    ))
                    &&& ((channel as int) < DATAFD_MAX && channel_taken(pre, channel) ==> r
                        == Err::<i8, ErrorKind>(ErrorKind::ResourceBusy))
                    &&& (r matches Ok(c) ==> c == channel)
                }))
                &&& (!sock_attached(pre, sock) && channel < 0 && (forall|c: i8|
                    0 <= c < DATAFD_MAX ==> channel_taken(pre, c)) ==> r == Err::<i8, ErrorKind>(
                    ErrorKind::ResourceBusy,
                ))
                &&& (!sock_attached(pre, sock) && channel < 0 ==> (r matches Ok(c) ==> forall|d: i8|
                    0 <= d < c ==> channel_taken(pre, d)))
                &&& (r matches Ok(c) ==> ({
                    let post = final(self).state_of(h@);
                    &&& 0 <= c < DATAFD_MAX
                    &&& !channel_taken(pre, c)
                    &&& frame_except(*old(self), *final(self), h@)
                    &&& same_handle_but_datafds(pre, post)
                    &&& post.datafds@ == pre.datafds@.push(DataFd { sock, channel: c })
                }))
            }),
    {
        let i = match self.find_handle(h.id()) {
            Some(i) => i,
            None => {
                return Err(ErrorKind::InvalidHandle);
            },
        };
        if datafd_sock_attached(&self.handles[i], sock) {
            return Err(ErrorKind::InvalidInput);
        }
        let chosen: i8;
        if channel >= 0 {
            if channel as usize >= DATAFD_MAX {
                return Err(ErrorKind::InvalidInput);
            }
            if datafd_channel_taken(&self.handles[i], channel) {
                return Err(ErrorKind::ResourceBusy);
            }
            chosen = channel;
        } else {
            let mut c: i8 = 0;
            let mut found: i8 = -1;
            while c < 32 && found < 0
                invariant
                    i < self.handles@.len(),
                    0 <= c <= DATAFD_MAX,
                    found < 0 ==> forall|d: i8|
                        0 <= d < c ==> channel_taken(self.handles@[i as int], d),
                    found >= 0 ==> 0 <= found < DATAFD_MAX && !channel_taken(
                        self.handles@[i as int],
                        found,
                    ) && (forall|d: i8|
                        0 <= d < found ==> channel_taken(self.handles@[i as int], d)),
                decreases DATAFD_MAX - c, 1int - (if found >= 0 { 1int } else { 0int }),
            {
                if !datafd_channel_taken(&self.handles[i], c) {
                    found = c;
                } else {
                    c += 1;
                }
            }
            if found < 0 {
                proof {
                    if exists|c2: i8|
                        0 <= c2 < DATAFD_MAX && !channel_taken(self.handles@[i as int], c2) {
                        let w = choose|c2: i8|
                            0 <= c2 < DATAFD_MAX && !channel_taken(self.handles@[i as int], c2);
                        assert(channel_taken(self.handles@[i as int], w));
                    }
                }
                return Err(ErrorKind::ResourceBusy);
            }
            chosen = found;
        }
        let ghost pre_handles = self.handles@;
        let ghost pre_state = self.handles@[i as int];
        self.handles[i].datafds.push(DataFd { sock, channel: chosen });
        proof {
            let post_state = self.handles@[i as int];
            let n = pre_state.datafds@.len() as int;
            assert forall|a: int, b: int|
                0 <= a < b < post_state.datafds@.len() implies post_state.datafds@[a].channel
                != post_state.datafds@[b].channel by {
                if b < n {
                    assert(pre_state.datafds@[a].channel != pre_state.datafds@[b].channel);
                } else {
                    assert(pre_state.datafds@[a] == post_state.datafds@[a]);
                    assert(!channel_taken(pre_state, chosen));
                    assert(pre_state.datafds@[a].channel != chosen);
                }
            }
            assert(post_state.wf());
            handle_op_proof(pre_handles, self.handles@, i as int);
        }
        Ok(chosen)
    }

    /// The socket attached under channel number `channel`.  Fails with
    /// `NotFound` when the channel carries no socket.
    pub fn handle_get_datafd(&self, h: Handle, channel: i8) -> (r: Result<i32, ErrorKind>)
        requires
            self.wf(),
        ensures
            !self.is_live(h) ==> r == Err::<i32, ErrorKind>(ErrorKind::InvalidHandle),
            self.is_live(h) ==> ({
                let state = self.state_of(h@);
                &&& (r is Ok <==> channel_taken(state, channel))
                &&& (!channel_taken(state, channel) ==> r == Err::<i32, ErrorKind>(
                    ErrorKind::NotFound,
                ))
                &&& (r matches Ok(sock) ==> exists|k: int|
                    0 <= k < state.datafds@.len() && (#[trigger] state.datafds@[k]) == (DataFd {
                        sock,
                        channel,
                    }))
            }),
    {
        let i = match self.find_handle(h.id()) {
            Some(i) => i,
            None => {
                return Err(ErrorKind::InvalidHandle);
            },
        };
        let ghost state = self.handles@[i as int];
        let mut k: usize = 0;
        while k < self.handles[i].datafds.len()
            invariant
                self.wf(),
                i < self.handles@.len(),
                self.is_live(h),
                self.state_of(h@) == self.handles@[i as int],
                state == self.handles@[i as int],
                k <= state.datafds@.len(),
                forall|m: int| 0 <= m < k ==> (#[trigger] state.datafds@[m]).channel != channel,
            decreases state.datafds@.len() - k,
        {
            let df = self.handles[i].datafds[k];
            if df.channel == channel {
                return Ok(df.sock);
            }
            k += 1;
        }
        proof {
            if channel_taken(state, channel) {
                let m = choose|m: int|
                    0 <= m < state.datafds@.len() && (#[trigger] state.datafds@[m]).channel
                        == channel;
                assert(state.datafds@[m].channel != channel);
            }
        }
        Err(ErrorKind::NotFound)
    }

    /// The channel number socket `sock` is attached under.  Fails with
    /// `NotFound` when the socket is not attached.
    pub fn handle_get_channel(&self, h: Handle, sock: i32) -> (r: Result<i8, ErrorKind>)
        requires
            self.wf(),
        ensures
            !self.is_live(h) ==> r == Err::<i8, ErrorKind>(ErrorKind::InvalidHandle),
            self.is_live(h) ==> ({
                let state = self.state_of(h@);
                &&& (r is Ok <==> sock_attached(state, sock))
                &&& (!sock_attached(state, sock) ==> r == Err::<i8, ErrorKind>(ErrorKind::NotFound))
                &&& (r matches Ok(channel) ==> exists|k: int|
                    0 <= k < state.datafds@.len() && (#[trigger] state.datafds@[k]) == (DataFd {
                        sock,
                        channel,
                    }))
            }),
    {
        let i = match self.find_handle(h.id()) {
            Some(i) => i,
            None => {
                return Err(ErrorKind::InvalidHandle);
            },
        };
        let ghost state = self.handles@[i as int];
        let mut k: usize = 0;
        while k < self.handles[i].datafds.len()
            invariant
                self.wf(),
                i < self.handles@.len(),
                self.is_live(h),
                self.state_of(h@) == self.handles@[i as int],
                state == self.handles@[i as int],
                k <= state.datafds@.len(),
                forall|m: int| 0 <= m < k ==> (#[trigger] state.datafds@[m]).sock != sock,
            decreases state.datafds@.len() - k,
        {
            let df = self.handles[i].datafds[k];
            if df.sock == sock {
                return Ok(df.channel);
            }
            k += 1;
        }
        proof {
            if sock_attached(state, sock) {
                let m = choose|m: int|
                    0 <= m < state.datafds@.len() && (#[trigger] state.datafds@[m]).sock == sock;
                assert(state.datafds@[m].sock != sock);
            }
        }
        Err(ErrorKind::NotFound)
    }

    /// Detaches the data channel that carries socket `sock`.  Fails
    /// with `NotFound` when no channel carries it.
    pub fn handle_remove_datafd(&mut self, h: Handle, sock: i32) -> (r: Result<(), ErrorKind>)
        requires
            old(self).wf(),
        ensures
            final(self).wf(),
            r is Err ==> *final(self) == *old(self),
            !old(self).is_live(h) ==> r == Err::<(), ErrorKind>(ErrorKind::InvalidHandle),
            old(self).is_live(h) ==> ({
                let pre = old(self).state_of(h@);
                &&& (r is Ok <==> sock_attached(pre, sock))
                &&& (!sock_attached(pre, sock) ==> r == Err::<(), ErrorKind>(ErrorKind::NotFound))
                &&& (r is Ok ==> ({
                    let post = final(self).state_of(h@);
                    &&& frame_except(*old(self), *final(self), h@)
                    &&& same_handle_but_datafds(pre, post)
                    &&& post.datafds@ == pre.datafds@.remove(first_datafd(pre.datafds@, sock))
                }))
            }),
    {
        let i = match self.find_handle(h.id()) {
            Some(i) => i,
            None => {
                return Err(ErrorKind::InvalidHandle);
            },
        };
        let ghost pre_state = self.handles@[i as int];
        let mut k: usize = 0;
        let n = self.handles[i].datafds.len();
        while k < n
            invariant
                *self == *old(self),
                self.wf(),
                old(self).is_live(h),
                i < self.handles@.len(),
                self.handles@[i as int].id == h@,
                seq_index_of(self.handles@, h@) == i as int,
                pre_state == self.handles@[i as int],
                pre_state == old(self).state_of(h@),
                n == pre_state.datafds@.len(),
                k <= n,
                forall|m: int| 0 <= m < k ==> (#[trigger] pre_state.datafds@[m]).sock != sock,
            decreases n - k,
        {
            if self.handles[i].datafds[k].sock == sock {
                proof {
                    lemma_first_datafd_at(pre_state.datafds@, sock, k as int);
                }
                let ghost pre_handles = self.handles@;
                self.handles[i].datafds.remove(k);
                proof {
                    let post_state = self.handles@[i as int];
                    assert forall|a: int, b: int|
                        0 <= a < b < post_state.datafds@.len()
                        implies post_state.datafds@[a].channel
                        != post_state.datafds@[b].channel by {
                        let pa = if a < k as int { a } else { a + 1 };
                        let pb = if b < k as int { b } else { b + 1 };
                        assert(post_state.datafds@[a] == pre_state.datafds@[pa]);
                        assert(post_state.datafds@[b] == pre_state.datafds@[pb]);
                        assert(pre_state.datafds@[pa].channel != pre_state.datafds@[pb].channel);
                    }
                    assert forall|m: int|
                        0 <= m < post_state.datafds@.len() implies 0 <= (#[trigger] post_state.datafds@[m]).channel < DATAFD_MAX by {
                        let pm = if m < k as int { m } else { m + 1 };
                        assert(post_state.datafds@[m] == pre_state.datafds@[pm]);
                    }
                    assert(post_state.wf());
                    handle_op_proof(pre_handles, self.handles@, i as int);
                    assert(sock_attached(pre_state, sock));
                }
                return Ok(());
            }
            k += 1;
        }
        proof {
            assert(!sock_attached(pre_state, sock)) by {
                if sock_attached(pre_state, sock) {
                    let m = choose|m: int|
                        0 <= m < pre_state.datafds@.len() && (#[trigger] pre_state.datafds@[m]).sock
                            == sock;
                    assert(pre_state.datafds@[m].sock != sock);
                }
            }
        }
        Err(ErrorKind::NotFound)
    }
}

/// The identifiers of the configured slots among the first `n` links,
/// in ascending order.
pub open spec fn configured_links(links: Seq<LinkState>, n: int) -> Seq<u8>
    decreases n,
{
    if n <= 0 {
        Seq::empty()
    } else if links[n - 1].info.configured {
        configured_links(links, n - 1).push((n - 1) as u8)
    } else {
        configured_links(links, n - 1)
    }
}

/// The `()` result with the same error as `r`, for stating the shared
/// location errors of differently typed operations in one form.
pub open spec fn result_forget<T>(r: Result<T, ErrorKind>) -> Result<(), ErrorKind> {
    match r {
        Ok(_) => Ok(()),
        Err(e) => Err(e),
    }
}

/// The errors shared by every per-link operation: an operation on a
/// dead handle fails with `InvalidHandle`, on an unconfigured host
/// with `NotFound`, and on a link slot out of range with
/// `InvalidInput`, in that order of checks.
pub open spec fn locate_link_errors(
    pre: Registry,
    h: Handle,
    host: HostId,
    link_id: u8,
    r: Result<(), ErrorKind>,
) -> bool {
    &&& (!pre.is_live(h) ==> r == Err::<(), ErrorKind>(ErrorKind::InvalidHandle))
    &&& (pre.is_live(h) && !pre.state_of(h@).has_host(host@) ==> r == Err::<(), ErrorKind>(
        ErrorKind::NotFound,
    ))
    &&& (pre.is_live(h) && pre.state_of(h@).has_host(host@) && (link_id as int) >= LINKS_PER_HOST
        ==> r == Err::<(), ErrorKind>(ErrorKind::InvalidInput))
}

/// The registries agree everywhere except link `link` of host `host`
/// of handle `id`: liveness, every other handle, every other host and
/// every other link slot are untouched, and the host keeps its
/// identifier, name and slot count.
pub open spec fn link_op_frame(
    pre: Registry,
    post: Registry,
    id: u64,
    host: u16,
    link: int,
) -> bool {
    &&& frame_except(pre, post, id)
    &&& pre.has_id(id) && post.has_id(id)
    &&& same_handle_but_hosts(pre.state_of(id), post.state_of(id))
    &&& (forall|other: u16|
        post.state_of(id).has_host(other) == pre.state_of(id).has_host(other))
    &&& (forall|other: u16|
        other != host && pre.state_of(id).has_host(other) ==> post.state_of(id).host_at(other)
            == pre.state_of(id).host_at(other))
    &&& pre.state_of(id).has_host(host)
    &&& ({
        let ph = pre.state_of(id).host_at(host);
        let qh = post.state_of(id).host_at(host);
        &&& qh.host_id == ph.host_id
        &&& qh.name == ph.name
        &&& qh.links@.len() == ph.links@.len()
        &&& (forall|k: int|
            0 <= k < ph.links@.len() && k != link ==> qh.links@[k] == #[trigger] ph.links@[k])
    })
}

/// The shared frame proof of the per-handle operations: when exactly
/// one handle changed, identifier kept and still well shaped, then
/// liveness, positions and every other handle are untouched.
proof fn handle_op_proof(pre: Seq<HandleState>, post: Seq<HandleState>, i: int)
    requires
        forall|a: int, b: int| 0 <= a < b < pre.len() ==> pre[a].id != pre[b].id,
        forall|k: int| 0 <= k < pre.len() ==> (#[trigger] pre[k]).wf(),
        0 <= i < pre.len(),
        post.len() == pre.len(),
        forall|k: int| 0 <= k < pre.len() && k != i ==> post[k] == #[trigger] pre[k],
        post[i].id == pre[i].id,
        post[i].wf(),
    ensures
        forall|a: int, b: int| 0 <= a < b < post.len() ==> post[a].id != post[b].id,
        forall|k: int| 0 <= k < post.len() ==> (#[trigger] post[k]).id == pre[k].id,
        forall|k: int| 0 <= k < post.len() ==> (#[trigger] post[k]).wf(),
        forall|id: u64| seq_has_id(post, id) == seq_has_id(pre, id),
        forall|id: u64|
            id != pre[i].id && seq_has_id(pre, id) ==> seq_state_of(post, id) == seq_state_of(
                pre,
                id,
            ),
        seq_has_id(pre, pre[i].id),
        seq_index_of(pre, pre[i].id) == i,
        seq_state_of(pre, pre[i].id) == pre[i],
        seq_has_id(post, pre[i].id),
        seq_index_of(post, pre[i].id) == i,
        seq_state_of(post, pre[i].id) == post[i],
{
    assert forall|k: int| 0 <= k < post.len() implies (#[trigger] post[k]).wf() by {
        if k != i {
            assert(post[k] == pre[k]);
            assert(pre[k].wf());
        }
    }
    lemma_update_frame(pre, post, i);
    lemma_seq_index_of(pre, pre[i].id, i);
}

/// The shared frame proof of the per-link operations: when exactly one
/// link slot of one host of one handle changed — host identifier, name
/// and slot count kept — then liveness, positions and every other
/// handle, host and slot are untouched, and well-formedness is kept.
proof fn link_op_proof(pre: Seq<HandleState>, post: Seq<HandleState>, i: int, j: int)
    requires
        forall|a: int, b: int| 0 <= a < b < pre.len() ==> pre[a].id != pre[b].id,
        forall|k: int| 0 <= k < pre.len() ==> (#[trigger] pre[k]).wf(),
        0 <= i < pre.len(),
        post.len() == pre.len(),
        forall|k: int| 0 <= k < pre.len() && k != i ==> post[k] == #[trigger] pre[k],
        post[i].id == pre[i].id,
        same_handle_but_hosts(pre[i], post[i]),
        0 <= j < pre[i].hosts@.len(),
        post[i].hosts@.len() == pre[i].hosts@.len(),
        forall|k: int|
            0 <= k < pre[i].hosts@.len() && k != j ==> post[i].hosts@[k]
                == #[trigger] pre[i].hosts@[k],
        post[i].hosts@[j].host_id == pre[i].hosts@[j].host_id,
        post[i].hosts@[j].name == pre[i].hosts@[j].name,
        post[i].hosts@[j].links@.len() == pre[i].hosts@[j].links@.len(),
    ensures
        forall|a: int, b: int| 0 <= a < b < post.len() ==> post[a].id != post[b].id,
        forall|k: int| 0 <= k < post.len() ==> (#[trigger] post[k]).id == pre[k].id,
        forall|k: int| 0 <= k < post.len() ==> (#[trigger] post[k]).wf(),
        forall|id: u64| seq_has_id(post, id) == seq_has_id(pre, id),
        forall|id: u64|
            id != pre[i].id && seq_has_id(pre, id) ==> seq_state_of(post, id) == seq_state_of(
                pre,
                id,
            ),
        seq_has_id(pre, pre[i].id),
        seq_index_of(pre, pre[i].id) == i,
        seq_state_of(pre, pre[i].id) == pre[i],
        seq_has_id(post, pre[i].id),
        seq_index_of(post, pre[i].id) == i,
        seq_state_of(post, pre[i].id) == post[i],
        forall|other: u16| post[i].has_host(other) == pre[i].has_host(other),
        forall|other: u16|
            other != pre[i].hosts@[j].host_id && pre[i].has_host(other) ==> post[i].host_at(other)
                == pre[i].host_at(other),
        pre[i].has_host(pre[i].hosts@[j].host_id),
        pre[i].host_index(pre[i].hosts@[j].host_id) == j,
        pre[i].host_at(pre[i].hosts@[j].host_id) == pre[i].hosts@[j],
        post[i].has_host(pre[i].hosts@[j].host_id),
        post[i].host_index(pre[i].hosts@[j].host_id) == j,
        post[i].host_at(pre[i].hosts@[j].host_id) == post[i].hosts@[j],
{
    lemma_hosts_update_frame(pre[i], post[i], j);
    lemma_host_index_of(pre[i], pre[i].hosts@[j].host_id, j);
    assert(pre[i].wf());
    assert forall|k: int|
        0 <= k < post[i].hosts@.len() implies (#[trigger] post[i].hosts@[k]).wf() by {
        if k != j {
            assert(post[i].hosts@[k] == pre[i].hosts@[k]);
            assert(pre[i].hosts@[k].wf());
        } else {
            assert(pre[i].hosts@[j].wf());
        }
    }
    assert(post[i].wf());
    assert forall|k: int| 0 <= k < post.len() implies (#[trigger] post[k]).wf() by {
        if k != i {
            assert(post[k] == pre[k]);
            assert(pre[k].wf());
        }
    }
    lemma_update_frame(pre, post, i);
    lemma_seq_index_of(pre, pre[i].id, i);
}

/// Whether some data channel of `s` uses channel number `c`.
pub open spec fn channel_taken(s: HandleState, c: i8) -> bool {
    exists|k: int| 0 <= k < s.datafds@.len() && (#[trigger] s.datafds@[k]).channel == c
}

/// Whether socket `sock` is attached to some data channel of `s`.
pub open spec fn sock_attached(s: HandleState, sock: i32) -> bool {
    exists|k: int| 0 <= k < s.datafds@.len() && (#[trigger] s.datafds@[k]).sock == sock
}

/// The position of the first data channel of `s` carrying `sock`, or
/// `-1` when none does.
pub open spec fn first_datafd(s: Seq<DataFd>, sock: i32) -> int
    decreases s.len(),
{
    if s.len() == 0 {
        -1
    } else if s[0].sock == sock {
        0
    } else if first_datafd(s.drop_first(), sock) == -1 {
        -1
    } else {
        1 + first_datafd(s.drop_first(), sock)
    }
}

/// `first_datafd` agrees with any position shown to be the first
/// occurrence of `sock`.
pub proof fn lemma_first_datafd_at(s: Seq<DataFd>, sock: i32, n: int)
    requires
        0 <= n < s.len(),
        s[n].sock == sock,
        forall|m: int| 0 <= m < n ==> (#[trigger] s[m]).sock != sock,
    ensures
        first_datafd(s, sock) == n,
    decreases s.len(),
{
    if s[0].sock != sock {
        assert(forall|m: int|
            0 <= m < n - 1 ==> s.drop_first()[m] == s[m + 1] && s[m + 1].sock != sock);
        lemma_first_datafd_at(s.drop_first(), sock, n - 1);
    }
}

/// Whether channel number `c` is already in use on `hs`.
fn datafd_channel_taken(hs: &HandleState, c: i8) -> (r: bool)
    ensures
        r == channel_taken(*hs, c),
{
    let mut k: usize = 0;
    while k < hs.datafds.len()
        invariant
            k <= hs.datafds@.len(),
            forall|m: int| 0 <= m < k ==> (#[trigger] hs.datafds@[m]).channel != c,
        decreases hs.datafds@.len() - k,
    {
        if hs.datafds[k].channel == c {
            return true;
        }
        k += 1;
    }
    proof {
        if channel_taken(*hs, c) {
            let m = choose|m: int|
                0 <= m < hs.datafds@.len() && (#[trigger] hs.datafds@[m]).channel == c;
            assert(hs.datafds@[m].channel != c);
        }
    }
    false
}

/// Whether socket `sock` is already attached to `hs`.
fn datafd_sock_attached(hs: &HandleState, sock: i32) -> (r: bool)
    ensures
        r == sock_attached(*hs, sock),
{
    let mut k: usize = 0;
    while k < hs.datafds.len()
        invariant
            k <= hs.datafds@.len(),
            forall|m: int| 0 <= m < k ==> (#[trigger] hs.datafds@[m]).sock != sock,
        decreases hs.datafds@.len() - k,
    {
        if hs.datafds[k].sock == sock {
            return true;
        }
        k += 1;
    }
    proof {
        if sock_attached(*hs, sock) {
            let m = choose|m: int|
                0 <= m < hs.datafds@.len() && (#[trigger] hs.datafds@[m]).sock == sock;
            assert(hs.datafds@[m].sock != sock);
        }
    }
    false
}

/// Whether any link of `hs` is still configured or enabled, which
/// blocks removing the host.
pub open spec fn host_busy(hs: HostState) -> bool {
    exists|l: int|
        0 <= l < hs.links@.len() && ((#[trigger] hs.links@[l]).info.configured
            || hs.links@[l].info.enabled)
}

/// Whether any link of `hs` is still configured or enabled.
fn host_is_busy(hs: &HostState) -> (r: bool)
    ensures
        r == host_busy(*hs),
{
    let mut l: usize = 0;
    while l < hs.links.len()
        invariant
            l <= hs.links@.len(),
            forall|k: int|
                0 <= k < l ==> !(#[trigger] hs.links@[k]).info.configured
                    && !hs.links@[k].info.enabled,
        decreases hs.links@.len() - l,
    {
        if hs.links[l].info.configured || hs.links[l].info.enabled {
            return true;
        }
        l += 1;
    }
    false
}

/// A fresh host entry: the given identifier, an empty name, and a full
/// array of unconfigured link slots.
fn empty_host(host_id: u16) -> (r: HostState)
    ensures
        r.wf(),
        r.host_id == host_id,
        r.name@ == Seq::<char>::empty(),
        r.links@.len() == LINKS_PER_HOST,
        forall|l: int|
            #![trigger r.links@[l]]
            0 <= l < LINKS_PER_HOST ==> ({
                let slot = r.links@[l];
                &&& !slot.info.configured
                &&& !slot.info.enabled
                &&& slot.acl@ == Seq::<AclEntryView>::empty()
            }),
{
    let mut links: Vec<LinkState> = Vec::new();
    while links.len() < LINKS_PER_HOST
        invariant
            links@.len() <= LINKS_PER_HOST,
            forall|l: int|
                #![trigger links@[l]]
                0 <= l < links@.len() ==> ({
                    let slot = links@[l];
                    &&& !slot.info.configured
                    &&& !slot.info.enabled
                    &&& slot.acl@ == Seq::<AclEntryView>::empty()
                }),
        decreases LINKS_PER_HOST - links@.len(),
    {
        links.push(
            LinkState {
                info: LinkInfo {
                    configured: false,
                    config: LinkConfig {
                        transport: TransportId::Loopback,
                        local: Endpoint { ip: IpAddress::V4(0), port: 0 },
                        remote: None,
                        flags: LinkFlags::none(),
                    },
                    enabled: false,
                    ping_interval: 0,
                    ping_timeout: 0,
                    ping_precision: 0,
                },
                acl: Acl::new(),
            },
        );
    }
    HostState { host_id, name: String::new(), links }
}

/// The position of the first host of `s` whose name is `name`, or `-1`
/// when no host carries it.
pub open spec fn first_host_named(s: Seq<HostState>, name: Seq<char>) -> int
    decreases s.len(),
{
    if s.len() == 0 {
        -1
    } else if s[0].name@ == name {
        0
    } else if first_host_named(s.drop_first(), name) == -1 {
        -1
    } else {
        1 + first_host_named(s.drop_first(), name)
    }
}

/// What `first_host_named` finds: a position holding the name with no
/// earlier occurrence, or `-1` when the name does not occur.
pub proof fn lemma_first_host_named_props(s: Seq<HostState>, name: Seq<char>)
    ensures
        first_host_named(s, name) == -1 ==> forall|j: int|
            0 <= j < s.len() ==> (#[trigger] s[j]).name@ != name,
        first_host_named(s, name) != -1 ==> 0 <= first_host_named(s, name) < s.len()
            && s[first_host_named(s, name)].name@ == name,
    decreases s.len(),
{
    if s.len() != 0 && s[0].name@ != name {
        lemma_first_host_named_props(s.drop_first(), name);
        assert(forall|j: int| 1 <= j < s.len() ==> s[j] == s.drop_first()[j - 1]);
    }
}

/// `first_host_named` agrees with any position shown to be the first
/// occurrence of `name`.
pub proof fn lemma_first_host_named_at(s: Seq<HostState>, name: Seq<char>, n: int)
    requires
        0 <= n < s.len(),
        s[n].name@ == name,
        forall|j: int| 0 <= j < n ==> (#[trigger] s[j]).name@ != name,
    ensures
        first_host_named(s, name) == n,
    decreases s.len(),
{
    if s[0].name@ != name {
        assert(forall|j: int|
            0 <= j < n - 1 ==> s.drop_first()[j] == s[j + 1] && s[j + 1].name@ != name);
        lemma_first_host_named_at(s.drop_first(), name, n - 1);
    }
}

/// Removing the host at one position keeps every other host, its
/// position order, and which hosts are configured.
proof fn lemma_hosts_remove_frame(pre: HandleState, post: HandleState, j: int)
    requires
        pre.wf(),
        0 <= j < pre.hosts@.len(),
        post.hosts@ == pre.hosts@.remove(j),
    ensures
        forall|a: int, b: int|
            0 <= a < b < post.hosts@.len() ==> post.hosts@[a].host_id != post.hosts@[b].host_id,
        forall|i: int| 0 <= i < post.hosts@.len() ==> (#[trigger] post.hosts@[i]).wf(),
        !post.has_host(pre.hosts@[j].host_id),
        forall|other: u16|
            other != pre.hosts@[j].host_id ==> post.has_host(other) == pre.has_host(other),
        forall|other: u16|
            other != pre.hosts@[j].host_id && pre.has_host(other) ==> post.host_at(other)
                == pre.host_at(other),
{
    let removed = pre.hosts@[j].host_id;
    assert(!post.has_host(removed)) by {
        if post.has_host(removed) {
            let k = choose|k: int|
                0 <= k < post.hosts@.len() && (#[trigger] post.hosts@[k]).host_id == removed;
            if k < j {
                assert(pre.hosts@[k].host_id == removed && pre.hosts@[j].host_id == removed);
            } else {
                assert(pre.hosts@[k + 1].host_id == removed && pre.hosts@[j].host_id == removed);
            }
        }
    }
    assert forall|other: u16|
        other != removed implies post.has_host(other) == pre.has_host(other) by {
        if pre.has_host(other) {
            let k = choose|k: int|
                0 <= k < pre.hosts@.len() && (#[trigger] pre.hosts@[k]).host_id == other;
            if k < j {
                assert(post.hosts@[k].host_id == other);
            } else {
                assert(post.hosts@[k - 1].host_id == other);
            }
        }
        if post.has_host(other) {
            let k = choose|k: int|
                0 <= k < post.hosts@.len() && (#[trigger] post.hosts@[k]).host_id == other;
            if k < j {
                assert(pre.hosts@[k].host_id == other);
            } else {
                assert(pre.hosts@[k + 1].host_id == other);
            }
        }
    }
    assert forall|other: u16|
        other != removed && pre.has_host(other) implies post.host_at(other) == pre.host_at(
        other,
    ) by {
        let k = pre.host_index(other);
        assert(pre.hosts@[k].host_id == other);
        if k < j {
            assert(post.hosts@[k] == pre.hosts@[k]);
            lemma_host_index_of(post, other, k);
        } else {
            assert(k > j);
            assert(post.hosts@[k - 1] == pre.hosts@[k]);
            lemma_host_index_of(post, other, k - 1);
        }
    }
}

/// Every live handle of `post` is that of `pre` and unchanged, except
/// the one with identifier `id`; liveness itself and the issue counter
/// are untouched.
pub open spec fn frame_except(pre: Registry, post: Registry, id: u64) -> bool {
    &&& post.fresh_id() == pre.fresh_id()
    &&& post.handle_count() == pre.handle_count()
    &&& forall|other: u64| post.has_id(other) == pre.has_id(other)
    &&& forall|other: u64|
        other != id && pre.has_id(other) ==> post.state_of(other) == pre.state_of(other)
}

impl HandleState {
    /// The position of host `host`, if it is configured.
    fn find_host(&self, host: u16) -> (r: Option<usize>)
        requires
            self.wf(),
        ensures
            r matches Some(j) ==> j < self.hosts@.len() && self.hosts@[j as int].host_id == host
                && self.has_host(host) && self.host_index(host) == j,
            r is None ==> !self.has_host(host),
    {
        let mut j: usize = 0;
        while j < self.hosts.len()
            invariant
                self.wf(),
                j <= self.hosts@.len(),
                forall|k: int| 0 <= k < j ==> (#[trigger] self.hosts@[k]).host_id != host,
            decreases self.hosts@.len() - j,
        {
            if self.hosts[j].host_id == host {
                proof {
                    lemma_host_index_of(*self, host, j as int);
                }
                return Some(j);
            }
            j += 1;
        }
        None
    }
}

/// With unique host identifiers, a position holding `host` is the one
/// `host_index` picks.
proof fn lemma_host_index_of(hs: HandleState, host: u16, j: int)
    requires
        forall|a: int, b: int|
            0 <= a < b < hs.hosts@.len() ==> hs.hosts@[a].host_id != hs.hosts@[b].host_id,
        0 <= j < hs.hosts@.len(),
        hs.hosts@[j].host_id == host,
    ensures
        hs.has_host(host),
        hs.host_index(host) == j,
{
    assert(hs.has_host(host));
    let k = hs.host_index(host);
    assert(0 <= k < hs.hosts@.len() && hs.hosts@[k].host_id == host);
    if j < k {
        assert(hs.hosts@[j].host_id != hs.hosts@[k].host_id);
    } else if k < j {
        assert(hs.hosts@[k].host_id != hs.hosts@[j].host_id);
    }
}

/// Replacing the handle at one position, identifier kept, preserves
/// which handles are live, where they sit, and every other handle's
/// state.
proof fn lemma_update_frame(pre: Seq<HandleState>, post: Seq<HandleState>, i: int)
    requires
        0 <= i < pre.len(),
        post.len() == pre.len(),
        forall|k: int| 0 <= k < pre.len() && k != i ==> post[k] == #[trigger] pre[k],
        post[i].id == pre[i].id,
        forall|a: int, b: int| 0 <= a < b < pre.len() ==> pre[a].id != pre[b].id,
    ensures
        forall|a: int, b: int| 0 <= a < b < post.len() ==> post[a].id != post[b].id,
        forall|id: u64| seq_has_id(post, id) == seq_has_id(pre, id),
        forall|id: u64|
            id != pre[i].id && seq_has_id(pre, id) ==> seq_state_of(post, id) == seq_state_of(
                pre,
                id,
            ),
        seq_has_id(post, pre[i].id),
        seq_index_of(post, pre[i].id) == i,
        seq_state_of(post, pre[i].id) == post[i],
{
    assert(forall|k: int| 0 <= k < post.len() ==> (#[trigger] post[k]).id == pre[k].id);
    assert forall|id: u64| seq_has_id(post, id) == seq_has_id(pre, id) by {
        if seq_has_id(pre, id) {
            let j = choose|j: int| 0 <= j < pre.len() && pre[j].id == id;
            assert(post[j].id == id);
        }
        if seq_has_id(post, id) {
            let j = choose|j: int| 0 <= j < post.len() && post[j].id == id;
            assert(pre[j].id == id);
        }
    }
    assert forall|id: u64|
        id != pre[i].id && seq_has_id(pre, id) implies seq_state_of(post, id) == seq_state_of(
        pre,
        id,
    ) by {
        let j = seq_index_of(pre, id);
        assert(pre[j].id == id);
        assert(j != i);
        assert(post[j].id == id);
        lemma_seq_index_of(post, id, j);
        lemma_seq_index_of(pre, id, j);
    }
    lemma_seq_index_of(post, pre[i].id, i);
}

/// Replacing the host at one position, identifier kept, preserves
/// which hosts are configured, where they sit, and every other host's
/// state.
proof fn lemma_hosts_update_frame(pre: HandleState, post: HandleState, j: int)
    requires
        pre.wf(),
        0 <= j < pre.hosts@.len(),
        post.hosts@.len() == pre.hosts@.len(),
        forall|k: int| 0 <= k < pre.hosts@.len() && k != j ==> post.hosts@[k] == #[trigger] pre.hosts@[k],
        post.hosts@[j].host_id == pre.hosts@[j].host_id,
    ensures
        forall|a: int, b: int|
            0 <= a < b < post.hosts@.len() ==> post.hosts@[a].host_id != post.hosts@[b].host_id,
        forall|host: u16| post.has_host(host) == pre.has_host(host),
        forall|host: u16|
            host != pre.hosts@[j].host_id && pre.has_host(host) ==> post.host_at(host)
                == pre.host_at(host),
        post.has_host(pre.hosts@[j].host_id),
        post.host_index(pre.hosts@[j].host_id) == j,
        post.host_at(pre.hosts@[j].host_id) == post.hosts@[j],
{
    assert(forall|k: int|
        0 <= k < post.hosts@.len() ==> (#[trigger] post.hosts@[k]).host_id
            == pre.hosts@[k].host_id);
    assert forall|host: u16| post.has_host(host) == pre.has_host(host) by {
        if pre.has_host(host) {
            let k = choose|k: int|
                0 <= k < pre.hosts@.len() && (#[trigger] pre.hosts@[k]).host_id == host;
            assert(post.hosts@[k].host_id == host);
        }
        if post.has_host(host) {
            let k = choose|k: int|
                0 <= k < post.hosts@.len() && (#[trigger] post.hosts@[k]).host_id == host;
            assert(pre.hosts@[k].host_id == host);
        }
    }
    assert(forall|a: int, b: int|
        0 <= a < b < post.hosts@.len() ==> post.hosts@[a].host_id != post.hosts@[b].host_id);
    assert forall|host: u16|
        host != pre.hosts@[j].host_id && pre.has_host(host) implies post.host_at(host)
        == pre.host_at(host) by {
        let k = pre.host_index(host);
        assert(pre.hosts@[k].host_id == host);
        assert(k != j);
        lemma_host_index_of(post, host, k);
        lemma_host_index_of(pre, host, k);
    }
    lemma_host_index_of(post, pre.hosts@[j].host_id, j);
}

/// With unique identifiers, a position holding `id` is the one
/// `seq_index_of` picks.
proof fn lemma_seq_index_of(s: Seq<HandleState>, id: u64, i: int)
    requires
        0 <= i < s.len(),
        s[i].id == id,
        forall|a: int, b: int| 0 <= a < b < s.len() ==> s[a].id != s[b].id,
    ensures
        seq_has_id(s, id),
        seq_index_of(s, id) == i,
{
    assert(seq_has_id(s, id));
    let j = seq_index_of(s, id);
    assert(0 <= j < s.len() && s[j].id == id);
    if i < j {
        assert(s[i].id != s[j].id);
    } else if j < i {
        assert(s[j].id != s[i].id);
    }
}

/// Two sequences that hold `id` at the same unchanged position give
/// the same state for `id`.
proof fn lemma_same_index(pre: Seq<HandleState>, post: Seq<HandleState>, id: u64)
    requires
        seq_has_id(pre, id),
        forall|a: int, b: int| 0 <= a < b < pre.len() ==> pre[a].id != pre[b].id,
        forall|a: int, b: int| 0 <= a < b < post.len() ==> post[a].id != post[b].id,
        post.len() >= pre.len(),
        forall|i: int| 0 <= i < pre.len() ==> post[i] == #[trigger] pre[i],
    ensures
        seq_state_of(post, id) == seq_state_of(pre, id),
{
    let j = seq_index_of(pre, id);
    assert(pre[j].id == id);
    assert(post[j] == pre[j]);
    lemma_seq_index_of(post, id, j);
}

} // verus!
