//! Decoding of native callback arguments, filter verdict checking, and
//! deferred teardown.
//!
//! Native notifications arrive on threads the native library chooses,
//! with raw integer arguments.  The bridge decodes those arguments
//! defensively into typed events before any user callback sees them,
//! validates the verdict a filter callback hands back, and defers a
//! teardown requested from inside a callback until the native call has
//! returned — freeing the resource while its own dispatcher is still
//! on the stack is undefined behaviour at the native layer.

use vstd::prelude::*;

use crate::errors::ErrorKind;
use crate::flags::{
    filter_decision_from_native_spec, filter_decision_from_native, tx_rx_from_native_spec,
    tx_rx_from_native, FilterDecision, TxRx,
};
use crate::registry::{Handle, HostId, LINKS_PER_HOST};

verus! {

/// A decoded link-status notification: which link changed and how.
#[derive(Clone, Copy, Debug, PartialEq, Eq, Structural)]
pub struct LinkStatusEvent {
    pub host: HostId,
    pub link_id: u8,
    pub connected: bool,
    pub remote: bool,
    pub external: bool,
}

/// Decodes the raw arguments of a link-status notification.  The link
/// identifier is checked against the documented maximum rather than
/// trusted; scalar booleans decode as zero or nonzero.
pub fn decode_link_status_event(
    host_id: u16,
    link_id: u8,
    connected: u8,
    remote: u8,
    external: u8,
) -> (r: Result<LinkStatusEvent, ErrorKind>)
    ensures
        r is Ok <==> (link_id as int) < LINKS_PER_HOST,
        r is Err ==> r == Err::<LinkStatusEvent, ErrorKind>(ErrorKind::InvalidInput),
        r matches Ok(e) ==> ({
            &&& e.host@ == host_id
            &&& e.link_id == link_id
            &&& e.connected == (connected != 0)
            &&& e.remote == (remote != 0)
            &&& e.external == (external != 0)
        }),
{
    if link_id as usize >= LINKS_PER_HOST {
        return Err(ErrorKind::InvalidInput);
    }
    Ok(
        LinkStatusEvent {
            host: HostId::new(host_id),
            link_id,
            connected: crate::flags::u8_to_bool(connected),
            remote: crate::flags::u8_to_bool(remote),
            external: crate::flags::u8_to_bool(external),
        },
    )
}

/// A decoded host-status notification.
#[derive(Clone, Copy, Debug, PartialEq, Eq, Structural)]
pub struct HostStatusEvent {
    pub host: HostId,
    pub reachable: bool,
    pub remote: bool,
    pub external: bool,
}

/// Decodes the raw arguments of a host-status notification; scalar
/// booleans decode as zero or nonzero, and no argument can make the
/// decoding fail.
pub fn decode_host_status_event(host_id: u16, reachable: u8, remote: u8, external: u8) -> (r:
    HostStatusEvent)
    ensures
        r.host@ == host_id,
        r.reachable == (reachable != 0),
        r.remote == (remote != 0),
        r.external == (external != 0),
{
    HostStatusEvent {
        host: HostId::new(host_id),
        reachable: crate::flags::u8_to_bool(reachable),
        remote: crate::flags::u8_to_bool(remote),
        external: crate::flags::u8_to_bool(external),
    }
}

/// A decoded data-channel notification: which socket and channel, the
/// direction it concerns, and the native error it reports, if any.
#[derive(Clone, Copy, Debug, PartialEq, Eq, Structural)]
pub struct SockEvent {
    pub sock: i32,
    pub channel: i8,
    pub direction: TxRx,
    pub failed: bool,
    pub errno: i32,
}

/// Decodes the raw arguments of a data-channel notification.  Fails
/// with `UnknownVariant` when the direction constant has no typed
/// case.
pub fn decode_sock_event(sock: i32, channel: i8, tx_rx: u8, error: u8, errno: i32) -> (r: Result<
    SockEvent,
    ErrorKind,
>)
    ensures
        r is Ok <==> tx_rx_from_native_spec(tx_rx) is Ok,
        r is Err ==> r == Err::<SockEvent, ErrorKind>(ErrorKind::UnknownVariant),
        r matches Ok(e) ==> ({
            &&& Ok::<TxRx, ErrorKind>(e.direction) == tx_rx_from_native_spec(tx_rx)
            &&& e.sock == sock
            &&& e.channel == channel
            &&& e.failed == (error != 0)
            &&& e.errno == errno
        }),
{
    let direction = match tx_rx_from_native(tx_rx) {
        Ok(d) => d,
        Err(e) => {
            return Err(e);
        },
    };
    Ok(
        SockEvent {
            sock,
            channel,
            direction,
            failed: crate::flags::u8_to_bool(error),
            errno,
        },
    )
}

/// Whether a filter verdict together with the destinations the
/// callback filled in is an acceptable combination: a unicast verdict
/// must name at least one destination.
pub open spec fn filter_verdict_acceptable(d: FilterDecision, dst_count: int) -> bool {
    !(d is Unicast && dst_count == 0)
}

/// Validates what a filter callback handed back.  A unicast verdict
/// with an empty destination list fails the send with `FilterError`
/// instead of guessing a delivery.
pub fn check_filter_verdict(decision: FilterDecision, dst_count: usize) -> (r: Result<
    FilterDecision,
    ErrorKind,
>)
    ensures
        r is Ok <==> filter_verdict_acceptable(decision, dst_count as int),
        r matches Ok(d) ==> d == decision,
        r is Err ==> r == Err::<FilterDecision, ErrorKind>(ErrorKind::FilterError),
{
    match decision {
        FilterDecision::Unicast => {
            if dst_count == 0 {
                Err(ErrorKind::FilterError)
            } else {
                Ok(decision)
            }
        },
        _ => Ok(decision),
    }
}

/// Decodes a native filter result and validates it against the
/// destinations the callback filled in: an unmapped result value fails
/// with `UnknownVariant`, a unicast verdict without destinations with
/// `FilterError`.
pub fn filter_result_from_native(v: i32, dst_count: usize) -> (r: Result<
    FilterDecision,
    ErrorKind,
>)
    ensures
        filter_decision_from_native_spec(v) is Err ==> r == Err::<FilterDecision, ErrorKind>(
            ErrorKind::UnknownVariant,
        ),
        filter_decision_from_native_spec(v) matches Ok(d) ==> ({
            &&& (r is Ok <==> filter_verdict_acceptable(d, dst_count as int))
            &&& (r is Ok ==> r == Ok::<FilterDecision, ErrorKind>(d))
            &&& (r is Err ==> r == Err::<FilterDecision, ErrorKind>(ErrorKind::FilterError))
        }),
{
    let decision = match filter_decision_from_native(v) {
        Ok(d) => d,
        Err(e) => {
            return Err(e);
        },
    };
    check_filter_verdict(decision, dst_count)
}

/// The teardown gate: teardown requested from inside a native callback
/// is queued and released only when the outermost native dispatch has
/// returned, never executed while the native call stack still holds
/// the resource.
pub struct TeardownGate {
    dispatch_depth: u32,
    pending: Vec<Handle>,
}

impl TeardownGate {
    /// How many native dispatches are on the stack.
    pub closed spec fn depth(self) -> u32 {
        self.dispatch_depth
    }

    /// The handles whose teardown waits for the dispatches to return,
    /// in request order.
    pub closed spec fn pending(self) -> Seq<Handle> {
        self.pending@
    }

    /// A gate with no dispatch running and nothing pending.
    pub fn new() -> (r: TeardownGate)
        ensures
            r.depth() == 0,
            r.pending() == Seq::<Handle>::empty(),
    {
        TeardownGate { dispatch_depth: 0, pending: Vec::new() }
    }

    /// Whether a native dispatch is on the stack.
    pub fn in_dispatch(&self) -> (r: bool)
        ensures
            r == (self.depth() > 0),
    {
        self.dispatch_depth > 0
    }

    /// Marks entry into a native callback dispatch.
    pub fn enter_dispatch(&mut self)
        requires
            old(self).depth() < u32::MAX,
        ensures
            final(self).depth() == old(self).depth() + 1,
            final(self).pending() == old(self).pending(),
    {
        self.dispatch_depth = self.dispatch_depth + 1;
    }

    /// Requests teardown of `h`.  While a dispatch is on the stack the
    /// request is queued and `false` comes back: the caller must not
    /// tear down now.  With no dispatch running, `true` comes back and
    /// nothing is queued: the caller may tear down at once.
    pub fn request_close(&mut self, h: Handle) -> (now: bool)
        ensures
            now <==> old(self).depth() == 0,
            final(self).depth() == old(self).depth(),
            now ==> final(self).pending() == old(self).pending(),
            !now ==> final(self).pending() == old(self).pending().push(h),
    {
        if self.dispatch_depth == 0 {
            true
        } else {
            self.pending.push(h);
            false
        }
    }

    /// Marks return from a native callback dispatch.  When the
    /// outermost dispatch returns, the queued teardown requests come
    /// back in request order and the queue empties; an inner return
    /// releases nothing.
    pub fn leave_dispatch(&mut self) -> (ready: Vec<Handle>)
        requires
            old(self).depth() > 0,
        ensures
            final(self).depth() == old(self).depth() - 1,
            final(self).depth() > 0 ==> ready@ == Seq::<Handle>::empty() && final(self).pending()
                == old(self).pending(),
            final(self).depth() == 0 ==> ready@ == old(self).pending() && final(self).pending()
                == Seq::<Handle>::empty(),
    {
        self.dispatch_depth = self.dispatch_depth - 1;
        if self.dispatch_depth == 0 {
            let mut drained: Vec<Handle> = Vec::new();
            core::mem::swap(&mut drained, &mut self.pending);
            drained
        } else {
            Vec::new()
        }
    }
}

} // verus!
