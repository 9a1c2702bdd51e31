//! Typed representations of native flag words, enumerated constants
//! and scalar booleans.
//!
//! Every native constant has exactly one typed case here; decoding a
//! native value that has no case fails with `UnknownVariant` rather
//! than coercing to a default, so additions to the native library are
//! surfaced instead of silently misread.  Flag words keep every bit of
//! the native value, named or not, so a word read from the native
//! layer can be written back without loss.

use vstd::prelude::*;

use crate::errors::ErrorKind;

verus! {

/// Decodes a native scalar boolean: zero is false, anything else true.
pub fn u8_to_bool(val: u8) -> (r: bool)
    ensures
        r == (val != 0),
{
    if val == 0 {
        false
    } else {
        true
    }
}

/// Decodes a native scalar boolean: zero is false, anything else true.
pub fn u32_to_bool(val: u32) -> (r: bool)
    ensures
        r == (val != 0),
{
    if val == 0 {
        false
    } else {
        true
    }
}

/// The flag word passed when a transport endpoint is created.
#[derive(Clone, Copy, Debug, PartialEq, Eq, Structural)]
pub struct HandleFlags {
    bits: u64,
}

impl View for HandleFlags {
    type V = u64;

    closed spec fn view(&self) -> u64 {
        self.bits
    }
}

impl HandleFlags {
    /// The typed value of a native flag word; every bit is kept.
    pub closed spec fn spec_from_bits(bits: u64) -> HandleFlags {
        HandleFlags { bits }
    }

    /// No flag set.
    pub fn none() -> (r: HandleFlags)
        ensures
            r@ == 0u64,
    {
        HandleFlags { bits: 0 }
    }

    /// The endpoint is created with privileged defaults.
    pub fn privileged() -> (r: HandleFlags)
        ensures
            r@ == 1u64,
    {
        HandleFlags { bits: 1 }
    }

    /// Adopts a native flag word without dropping unknown bits.
    pub fn from_bits(bits: u64) -> (r: HandleFlags)
        ensures
            r == HandleFlags::spec_from_bits(bits),
            r@ == bits,
    {
        HandleFlags { bits }
    }

    /// The native flag word this value stands for.
    pub fn bits(&self) -> (r: u64)
        ensures
            r == self@,
    {
        self.bits
    }

    /// The flags of `self` and `other` together.
    pub fn union(self, other: HandleFlags) -> (r: HandleFlags)
        ensures
            r@ == (self@ | other@),
    {
        HandleFlags { bits: self.bits | other.bits }
    }

    /// The flags set in both `self` and `other`.
    pub fn intersection(self, other: HandleFlags) -> (r: HandleFlags)
        ensures
            r@ == (self@ & other@),
    {
        HandleFlags { bits: self.bits & other.bits }
    }

    /// Whether every flag of `other` is set in `self`.
    pub fn contains(self, other: HandleFlags) -> (r: bool)
        ensures
            r == ((self@ & other@) == other@),
    {
        (self.bits & other.bits) == other.bits
    }
}

/// The flag word of one configured link.
#[derive(Clone, Copy, Debug, PartialEq, Eq, Structural)]
pub struct LinkFlags {
    bits: u64,
}

impl View for LinkFlags {
    type V = u64;

    closed spec fn view(&self) -> u64 {
        self.bits
    }
}

impl LinkFlags {
    /// The typed value of a native flag word; every bit is kept.
    pub closed spec fn spec_from_bits(bits: u64) -> LinkFlags {
        LinkFlags { bits }
    }

    /// No flag set.
    pub fn none() -> (r: LinkFlags)
        ensures
            r@ == 0u64,
    {
        LinkFlags { bits: 0 }
    }

    /// Traffic on the link is given high priority.
    pub fn traffic_high_priority() -> (r: LinkFlags)
        ensures
            r@ == (1u64 << 63),
    {
        LinkFlags { bits: 1u64 << 63 }
    }

    /// Adopts a native flag word without dropping unknown bits.
    pub fn from_bits(bits: u64) -> (r: LinkFlags)
        ensures
            r == LinkFlags::spec_from_bits(bits),
            r@ == bits,
    {
        LinkFlags { bits }
    }

    /// The native flag word this value stands for.
    pub fn bits(&self) -> (r: u64)
        ensures
            r == self@,
    {
        self.bits
    }

    /// The flags of `self` and `other` together.
    pub fn union(self, other: LinkFlags) -> (r: LinkFlags)
        ensures
            r@ == (self@ | other@),
    {
        LinkFlags { bits: self.bits | other.bits }
    }

    /// The flags set in both `self` and `other`.
    pub fn intersection(self, other: LinkFlags) -> (r: LinkFlags)
        ensures
            r@ == (self@ & other@),
    {
        LinkFlags { bits: self.bits & other.bits }
    }

    /// Whether every flag of `other` is set in `self`.
    pub fn contains(self, other: LinkFlags) -> (r: bool)
        ensures
            r == ((self@ & other@) == other@),
    {
        (self.bits & other.bits) == other.bits
    }
}

/// Law: a native flag word adopted by a flag type stands for exactly
/// that word again, named and unknown bits alike, so writing the value
/// back to the native layer is lossless.
pub proof fn lemma_flag_word_round_trip(word: u64)
    ensures
        HandleFlags::spec_from_bits(word)@ == word,
        LinkFlags::spec_from_bits(word)@ == word,
{
}

/// The transport kind a link runs over.
#[derive(Clone, Copy, Debug, PartialEq, Eq, Structural)]
pub enum TransportId {
    Loopback,
    Udp,
    Sctp,
}

/// The typed transport kind of a native transport constant.
pub open spec fn transport_from_native_spec(v: u8) -> Result<TransportId, ErrorKind> {
    if v == 0 {
        Ok(TransportId::Loopback)
    } else if v == 1 {
        Ok(TransportId::Udp)
    } else if v == 2 {
        Ok(TransportId::Sctp)
    } else {
        Err(ErrorKind::UnknownVariant)
    }
}

/// The native constant of a transport kind.
pub open spec fn transport_to_native_spec(t: TransportId) -> u8 {
    match t {
        TransportId::Loopback => 0,
        TransportId::Udp => 1,
        TransportId::Sctp => 2,
    }
}

/// Decodes a native transport constant.
pub fn transport_from_native(v: u8) -> (r: Result<TransportId, ErrorKind>)
    ensures
        r == transport_from_native_spec(v),
{
    if v == 0 {
        Ok(TransportId::Loopback)
    } else if v == 1 {
        Ok(TransportId::Udp)
    } else if v == 2 {
        Ok(TransportId::Sctp)
    } else {
        Err(ErrorKind::UnknownVariant)
    }
}

/// Encodes a transport kind as its native constant.
pub fn transport_to_native(t: TransportId) -> (r: u8)
    ensures
        r == transport_to_native_spec(t),
{
    match t {
        TransportId::Loopback => 0,
        TransportId::Udp => 1,
        TransportId::Sctp => 2,
    }
}

/// Law: transport kinds and their native constants correspond one to
/// one in both directions.
pub proof fn lemma_transport_round_trip(t: TransportId, v: u8)
    ensures
        transport_from_native_spec(transport_to_native_spec(t)) == Ok::<TransportId, ErrorKind>(t),
        transport_from_native_spec(v) matches Ok(t2) ==> transport_to_native_spec(t2) == v,
{
}

/// How urgent a native log message is.
#[derive(Clone, Copy, Debug, PartialEq, Eq, Structural)]
pub enum LogLevel {
    Error,
    Warning,
    Info,
    Debug,
    Trace,
}

/// The typed log level of a native level constant.
pub open spec fn log_level_from_native_spec(v: u8) -> Result<LogLevel, ErrorKind> {
    if v == 0 {
        Ok(LogLevel::Error)
    } else if v == 1 {
        Ok(LogLevel::Warning)
    } else if v == 2 {
        Ok(LogLevel::Info)
    } else if v == 3 {
        Ok(LogLevel::Debug)
    } else if v == 4 {
        Ok(LogLevel::Trace)
    } else {
        Err(ErrorKind::UnknownVariant)
    }
}

/// The native constant of a log level.
pub open spec fn log_level_to_native_spec(l: LogLevel) -> u8 {
    match l {
        LogLevel::Error => 0,
        LogLevel::Warning => 1,
        LogLevel::Info => 2,
        LogLevel::Debug => 3,
        LogLevel::Trace => 4,
    }
}

/// Decodes a native log level constant.
pub fn log_level_from_native(v: u8) -> (r: Result<LogLevel, ErrorKind>)
    ensures
        r == log_level_from_native_spec(v),
{
    if v == 0 {
        Ok(LogLevel::Error)
    } else if v == 1 {
        Ok(LogLevel::Warning)
    } else if v == 2 {
        Ok(LogLevel::Info)
    } else if v == 3 {
        Ok(LogLevel::Debug)
    } else if v == 4 {
        Ok(LogLevel::Trace)
    } else {
        Err(ErrorKind::UnknownVariant)
    }
}

/// Encodes a log level as its native constant.
pub fn log_level_to_native(l: LogLevel) -> (r: u8)
    ensures
        r == log_level_to_native_spec(l),
{
    match l {
        LogLevel::Error => 0,
        LogLevel::Warning => 1,
        LogLevel::Info => 2,
        LogLevel::Debug => 3,
        LogLevel::Trace => 4,
    }
}

/// Law: log levels and their native constants correspond one to one in
/// both directions.
pub proof fn lemma_log_level_round_trip(l: LogLevel, v: u8)
    ensures
        log_level_from_native_spec(log_level_to_native_spec(l)) == Ok::<LogLevel, ErrorKind>(l),
        log_level_from_native_spec(v) matches Ok(l2) ==> log_level_to_native_spec(l2) == v,
{
}

/// The native subsystem a log message originates from.
#[derive(Clone, Copy, Debug, PartialEq, Eq, Structural)]
pub enum SubSystem {
    Common,
    Handle,
    Host,
    Listener,
    Link,
    Transport,
    Crypto,
    Compress,
    Filter,
    Dstcache,
    Heartbeat,
    Pmtud,
    Tx,
    Rx,
}

/// The typed subsystem of a native subsystem constant.
pub open spec fn subsystem_from_native_spec(v: u8) -> Result<SubSystem, ErrorKind> {
    if v == 0 {
        Ok(SubSystem::Common)
    } else if v == 1 {
        Ok(SubSystem::Handle)
    } else if v == 2 {
        Ok(SubSystem::Host)
    } else if v == 3 {
        Ok(SubSystem::Listener)
    } else if v == 4 {
        Ok(SubSystem::Link)
    } else if v == 5 {
        Ok(SubSystem::Transport)
    } else if v == 6 {
        Ok(SubSystem::Crypto)
    } else if v == 7 {
        Ok(SubSystem::Compress)
    } else if v == 8 {
        Ok(SubSystem::Filter)
    } else if v == 9 {
        Ok(SubSystem::Dstcache)
    } else if v == 10 {
        Ok(SubSystem::Heartbeat)
    } else if v == 11 {
        Ok(SubSystem::Pmtud)
    } else if v == 12 {
        Ok(SubSystem::Tx)
    } else if v == 13 {
        Ok(SubSystem::Rx)
    } else {
        Err(ErrorKind::UnknownVariant)
    }
}

/// The native constant of a subsystem.
pub open spec fn subsystem_to_native_spec(s: SubSystem) -> u8 {
    match s {
        SubSystem::Common => 0,
        SubSystem::Handle => 1,
        SubSystem::Host => 2,
        SubSystem::Listener => 3,
        SubSystem::Link => 4,
        SubSystem::Transport => 5,
        SubSystem::Crypto => 6,
        SubSystem::Compress => 7,
        SubSystem::Filter => 8,
        SubSystem::Dstcache => 9,
        SubSystem::Heartbeat => 10,
        SubSystem::Pmtud => 11,
        SubSystem::Tx => 12,
        SubSystem::Rx => 13,
    }
}

/// Decodes a native subsystem constant.
pub fn subsystem_from_native(v: u8) -> (r: Result<SubSystem, ErrorKind>)
    ensures
        r == subsystem_from_native_spec(v),
{
    if v == 0 {
        Ok(SubSystem::Common)
    } else if v == 1 {
        Ok(SubSystem::Handle)
    } else if v == 2 {
        Ok(SubSystem::Host)
    } else if v == 3 {
        Ok(SubSystem::Listener)
    } else if v == 4 {
        Ok(SubSystem::Link)
    } else if v == 5 {
        Ok(SubSystem::Transport)
    } else if v == 6 {
        Ok(SubSystem::Crypto)
    } else if v == 7 {
        Ok(SubSystem::Compress)
    } else if v == 8 {
        Ok(SubSystem::Filter)
    } else if v == 9 {
        Ok(SubSystem::Dstcache)
    } else if v == 10 {
        Ok(SubSystem::Heartbeat)
    } else if v == 11 {
        Ok(SubSystem::Pmtud)
    } else if v == 12 {
        Ok(SubSystem::Tx)
    } else if v == 13 {
        Ok(SubSystem::Rx)
    } else {
        Err(ErrorKind::UnknownVariant)
    }
}

/// Encodes a subsystem as its native constant.
pub fn subsystem_to_native(s: SubSystem) -> (r: u8)
    ensures
        r == subsystem_to_native_spec(s),
{
    match s {
        SubSystem::Common => 0,
        SubSystem::Handle => 1,
        SubSystem::Host => 2,
        SubSystem::Listener => 3,
        SubSystem::Link => 4,
        SubSystem::Transport => 5,
        SubSystem::Crypto => 6,
        SubSystem::Compress => 7,
        SubSystem::Filter => 8,
        SubSystem::Dstcache => 9,
        SubSystem::Heartbeat => 10,
        SubSystem::Pmtud => 11,
        SubSystem::Tx => 12,
        SubSystem::Rx => 13,
    }
}

/// Law: subsystems and their native constants correspond one to one in
/// both directions.
pub proof fn lemma_subsystem_round_trip(s: SubSystem, v: u8)
    ensures
        subsystem_from_native_spec(subsystem_to_native_spec(s)) == Ok::<SubSystem, ErrorKind>(s),
        subsystem_from_native_spec(v) matches Ok(s2) ==> subsystem_to_native_spec(s2) == v,
{
}

/// Whether a notification concerns the transmit or the receive side.
#[derive(Clone, Copy, Debug, PartialEq, Eq, Structural)]
pub enum TxRx {
    Tx,
    Rx,
}

/// The typed direction of a native direction constant.
pub open spec fn tx_rx_from_native_spec(v: u8) -> Result<TxRx, ErrorKind> {
    if v == 0 {
        Ok(TxRx::Tx)
    } else if v == 1 {
        Ok(TxRx::Rx)
    } else {
        Err(ErrorKind::UnknownVariant)
    }
}

/// The native constant of a direction.
pub open spec fn tx_rx_to_native_spec(d: TxRx) -> u8 {
    match d {
        TxRx::Tx => 0,
        TxRx::Rx => 1,
    }
}

/// Decodes a native direction constant.
pub fn tx_rx_from_native(v: u8) -> (r: Result<TxRx, ErrorKind>)
    ensures
        r == tx_rx_from_native_spec(v),
{
    if v == 0 {
        Ok(TxRx::Tx)
    } else if v == 1 {
        Ok(TxRx::Rx)
    } else {
        Err(ErrorKind::UnknownVariant)
    }
}

/// Encodes a direction as its native constant.
pub fn tx_rx_to_native(d: TxRx) -> (r: u8)
    ensures
        r == tx_rx_to_native_spec(d),
{
    match d {
        TxRx::Tx => 0,
        TxRx::Rx => 1,
    }
}

/// Law: directions and their native constants correspond one to one in
/// both directions.
pub proof fn lemma_tx_rx_round_trip(d: TxRx, v: u8)
    ensures
        tx_rx_from_native_spec(tx_rx_to_native_spec(d)) == Ok::<TxRx, ErrorKind>(d),
        tx_rx_from_native_spec(v) matches Ok(d2) ==> tx_rx_to_native_spec(d2) == v,
{
}

/// The verdict a packet filter callback gives for one packet.
#[derive(Clone, Copy, Debug, PartialEq, Eq, Structural)]
pub enum FilterDecision {
    /// Deliver to the destinations the callback named.
    Unicast,
    /// Deliver to the known multicast group.
    Multicast,
    /// Deliver to every reachable host.
    Broadcast,
    /// Do not deliver the packet.
    Drop,
}

/// The typed verdict of a native filter result.
pub open spec fn filter_decision_from_native_spec(v: i32) -> Result<FilterDecision, ErrorKind> {
    if v < 0 {
        Ok(FilterDecision::Drop)
    } else if v == 0 {
        Ok(FilterDecision::Unicast)
    } else if v == 1 {
        Ok(FilterDecision::Multicast)
    } else if v == 2 {
        Ok(FilterDecision::Broadcast)
    } else {
        Err(ErrorKind::UnknownVariant)
    }
}

/// The native result value of a verdict.
pub open spec fn filter_decision_to_native_spec(d: FilterDecision) -> i32 {
    match d {
        FilterDecision::Drop => -1i32,
        FilterDecision::Unicast => 0,
        FilterDecision::Multicast => 1,
        FilterDecision::Broadcast => 2,
    }
}

/// Decodes a native filter result value.
pub fn filter_decision_from_native(v: i32) -> (r: Result<FilterDecision, ErrorKind>)
    ensures
        r == filter_decision_from_native_spec(v),
{
    if v < 0 {
        Ok(FilterDecision::Drop)
    } else if v == 0 {
        Ok(FilterDecision::Unicast)
    } else if v == 1 {
        Ok(FilterDecision::Multicast)
    } else if v == 2 {
        Ok(FilterDecision::Broadcast)
    } else {
        Err(ErrorKind::UnknownVariant)
    }
}

/// Encodes a verdict as its native result value.
pub fn filter_decision_to_native(d: FilterDecision) -> (r: i32)
    ensures
        r == filter_decision_to_native_spec(d),
{
    match d {
        FilterDecision::Drop => -1i32,
        FilterDecision::Unicast => 0,
        FilterDecision::Multicast => 1,
        FilterDecision::Broadcast => 2,
    }
}

/// Law: every verdict comes back unchanged from its native value.  The
/// native side folds every negative value to `Drop`, so decode-encode
/// is exact only on the canonical values.
pub proof fn lemma_filter_decision_round_trip(d: FilterDecision)
    ensures
        filter_decision_from_native_spec(filter_decision_to_native_spec(d)) == Ok::<
            FilterDecision,
            ErrorKind,
        >(d),
{
}

/// How one ACL entry matches an address.
#[derive(Clone, Copy, Debug, PartialEq, Eq, Structural)]
pub enum AclCheckType {
    /// The pattern names one exact address.
    Address,
    /// The pattern names an address and a mask.
    Mask,
    /// The pattern names an inclusive address range.
    Range,
}

/// The typed check kind of a native check constant.
pub open spec fn acl_check_from_native_spec(v: u8) -> Result<AclCheckType, ErrorKind> {
    if v == 0 {
        Ok(AclCheckType::Address)
    } else if v == 1 {
        Ok(AclCheckType::Mask)
    } else if v == 2 {
        Ok(AclCheckType::Range)
    } else {
        Err(ErrorKind::UnknownVariant)
    }
}

/// The native constant of a check kind.
pub open spec fn acl_check_to_native_spec(c: AclCheckType) -> u8 {
    match c {
        AclCheckType::Address => 0,
        AclCheckType::Mask => 1,
        AclCheckType::Range => 2,
    }
}

/// Decodes a native check kind constant.
pub fn acl_check_from_native(v: u8) -> (r: Result<AclCheckType, ErrorKind>)
    ensures
        r == acl_check_from_native_spec(v),
{
    if v == 0 {
        Ok(AclCheckType::Address)
    } else if v == 1 {
        Ok(AclCheckType::Mask)
    } else if v == 2 {
        Ok(AclCheckType::Range)
    } else {
        Err(ErrorKind::UnknownVariant)
    }
}

/// Encodes a check kind as its native constant.
pub fn acl_check_to_native(c: AclCheckType) -> (r: u8)
    ensures
        r == acl_check_to_native_spec(c),
{
    match c {
        AclCheckType::Address => 0,
        AclCheckType::Mask => 1,
        AclCheckType::Range => 2,
    }
}

/// Law: check kinds and their native constants correspond one to one
/// in both directions.
pub proof fn lemma_acl_check_round_trip(c: AclCheckType, v: u8)
    ensures
        acl_check_from_native_spec(acl_check_to_native_spec(c)) == Ok::<AclCheckType, ErrorKind>(c),
        acl_check_from_native_spec(v) matches Ok(c2) ==> acl_check_to_native_spec(c2) == v,
{
}

/// What an ACL entry does with traffic it matches.
#[derive(Clone, Copy, Debug, PartialEq, Eq, Structural)]
pub enum AclAcceptReject {
    Accept,
    Reject,
}

/// The typed verdict of a native accept/reject constant.
pub open spec fn acl_verdict_from_native_spec(v: u8) -> Result<AclAcceptReject, ErrorKind> {
    if v == 0 {
        Ok(AclAcceptReject::Accept)
    } else if v == 1 {
        Ok(AclAcceptReject::Reject)
    } else {
        Err(ErrorKind::UnknownVariant)
    }
}

/// The native constant of an accept/reject verdict.
pub open spec fn acl_verdict_to_native_spec(a: AclAcceptReject) -> u8 {
    match a {
        AclAcceptReject::Accept => 0,
        AclAcceptReject::Reject => 1,
    }
}

/// Decodes a native accept/reject constant.
pub fn acl_verdict_from_native(v: u8) -> (r: Result<AclAcceptReject, ErrorKind>)
    ensures
        r == acl_verdict_from_native_spec(v),
{
    if v == 0 {
        Ok(AclAcceptReject::Accept)
    } else if v == 1 {
        Ok(AclAcceptReject::Reject)
    } else {
        Err(ErrorKind::UnknownVariant)
    }
}

/// Encodes an accept/reject verdict as its native constant.
pub fn acl_verdict_to_native(a: AclAcceptReject) -> (r: u8)
    ensures
        r == acl_verdict_to_native_spec(a),
{
    match a {
        AclAcceptReject::Accept => 0,
        AclAcceptReject::Reject => 1,
    }
}

/// Law: accept/reject verdicts and their native constants correspond
/// one to one in both directions.
pub proof fn lemma_acl_verdict_round_trip(a: AclAcceptReject, v: u8)
    ensures
        acl_verdict_from_native_spec(acl_verdict_to_native_spec(a)) == Ok::<
            AclAcceptReject,
            ErrorKind,
        >(a),
        acl_verdict_from_native_spec(v) matches Ok(a2) ==> acl_verdict_to_native_spec(a2) == v,
{
}

/// Whether a handle accepts unencrypted traffic while crypto is
/// configured.
#[derive(Clone, Copy, Debug, PartialEq, Eq, Structural)]
pub enum RxClearTraffic {
    Allow,
    Disallow,
}

/// The typed clear-traffic policy of a native constant.
pub open spec fn rx_clear_traffic_from_native_spec(v: u8) -> Result<RxClearTraffic, ErrorKind> {
    if v == 0 {
        Ok(RxClearTraffic::Allow)
    } else if v == 1 {
        Ok(RxClearTraffic::Disallow)
    } else {
        Err(ErrorKind::UnknownVariant)
    }
}

/// The native constant of a clear-traffic policy.
pub open spec fn rx_clear_traffic_to_native_spec(p: RxClearTraffic) -> u8 {
    match p {
        RxClearTraffic::Allow => 0,
        RxClearTraffic::Disallow => 1,
    }
}

/// Decodes a native clear-traffic policy constant.
pub fn rx_clear_traffic_from_native(v: u8) -> (r: Result<RxClearTraffic, ErrorKind>)
    ensures
        r == rx_clear_traffic_from_native_spec(v),
{
    if v == 0 {
        Ok(RxClearTraffic::Allow)
    } else if v == 1 {
        Ok(RxClearTraffic::Disallow)
    } else {
        Err(ErrorKind::UnknownVariant)
    }
}

/// Encodes a clear-traffic policy as its native constant.
pub fn rx_clear_traffic_to_native(p: RxClearTraffic) -> (r: u8)
    ensures
        r == rx_clear_traffic_to_native_spec(p),
{
    match p {
        RxClearTraffic::Allow => 0,
        RxClearTraffic::Disallow => 1,
    }
}

/// Law: clear-traffic policies and their native constants correspond
/// one to one in both directions.
pub proof fn lemma_rx_clear_traffic_round_trip(p: RxClearTraffic, v: u8)
    ensures
        rx_clear_traffic_from_native_spec(rx_clear_traffic_to_native_spec(p)) == Ok::<
            RxClearTraffic,
            ErrorKind,
        >(p),
        rx_clear_traffic_from_native_spec(v) matches Ok(p2) ==> rx_clear_traffic_to_native_spec(p2)
            == v,
{
}

} // verus!
