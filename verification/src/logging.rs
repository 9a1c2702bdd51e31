//! The logging relay: native streaming log callbacks become an ordered
//! sequence of typed log messages.
//!
//! The native library emits log events from its own worker threads,
//! each a subsystem constant, a level constant and a fixed-capacity
//! text buffer.  Decoding runs inside the callback, where an error
//! cannot be propagated, so the text uses the best-effort codec; the
//! decoded messages queue in arrival order and a consumer drains them
//! first in, first out.

use vstd::prelude::*;
use vstd::utf8::{decode_utf8, valid_utf8};

use crate::errors::ErrorKind;
use crate::flags::{
    log_level_from_native_spec, log_level_from_native, subsystem_from_native_spec,
    subsystem_from_native, LogLevel, SubSystem,
};
use crate::strings::{native_content, string_from_bytes_safe};

verus! {

/// Capacity of the fixed native log text buffer.
pub const LOG_MSG_BUF_LEN: usize = 254;

/// One decoded log message.
pub struct LogMsg {
    /// Identifier of the handle the message originates from.
    pub handle_id: u64,
    /// The native subsystem that produced the message.
    pub subsystem: SubSystem,
    /// How urgent the message is.
    pub level: LogLevel,
    /// The message text.
    pub msg: String,
}

/// The mathematical value of a log message.
pub struct LogMsgView {
    pub handle_id: u64,
    pub subsystem: SubSystem,
    pub level: LogLevel,
    pub msg: Seq<char>,
}

impl View for LogMsg {
    type V = LogMsgView;

    open spec fn view(&self) -> LogMsgView {
        LogMsgView {
            handle_id: self.handle_id,
            subsystem: self.subsystem,
            level: self.level,
            msg: self.msg@,
        }
    }
}

/// The text a log buffer decodes to: its content as text when the
/// content is valid, the empty text otherwise — inside a native
/// callback an encoding error cannot be propagated.
pub open spec fn log_text_of(buf: Seq<u8>, bound: int) -> Seq<char> {
    let content = native_content(buf.take(bound));
    if valid_utf8(content) {
        decode_utf8(content)
    } else {
        Seq::<char>::empty()
    }
}

/// Decodes the raw arguments of a native log event.  Fails with
/// `UnknownVariant` when the subsystem or level constant has no typed
/// case — the subsystem is checked first; the text decodes
/// best-effort and never fails.
pub fn decode_log_event(handle_id: u64, subsystem: u8, level: u8, text: &[u8]) -> (r: Result<
    LogMsg,
    ErrorKind,
>)
    ensures
        r is Ok <==> subsystem_from_native_spec(subsystem) is Ok && log_level_from_native_spec(
            level,
        ) is Ok,
        r is Err ==> r == Err::<LogMsg, ErrorKind>(ErrorKind::UnknownVariant),
        r matches Ok(m) ==> ({
            let bound = if LOG_MSG_BUF_LEN <= text@.len() {
                LOG_MSG_BUF_LEN as int
            } else {
                text@.len() as int
            };
            &&& m.handle_id == handle_id
            &&& Ok::<SubSystem, ErrorKind>(m.subsystem) == subsystem_from_native_spec(subsystem)
            &&& Ok::<LogLevel, ErrorKind>(m.level) == log_level_from_native_spec(level)
            &&& m.msg@ == log_text_of(text@, bound)
        }),
{
    let sub = match subsystem_from_native(subsystem) {
        Ok(s) => s,
        Err(e) => {
            return Err(e);
        },
    };
    let lvl = match log_level_from_native(level) {
        Ok(l) => l,
        Err(e) => {
            return Err(e);
        },
    };
    let msg = string_from_bytes_safe(text, LOG_MSG_BUF_LEN);
    Ok(LogMsg { handle_id, subsystem: sub, level: lvl, msg })
}

/// The queue between the native log callback and its consumer:
/// messages leave in exactly the order they arrived.
pub struct LogRelay {
    queue: Vec<LogMsg>,
}

impl View for LogRelay {
    type V = Seq<LogMsgView>;

    closed spec fn view(&self) -> Seq<LogMsgView> {
        self.queue@.map_values(|m: LogMsg| m@)
    }
}

impl LogRelay {
    /// An empty relay.
    pub fn new() -> (r: LogRelay)
        ensures
            r@ == Seq::<LogMsgView>::empty(),
    {
        let r = LogRelay { queue: Vec::new() };
        proof {
            assert(r@ =~= Seq::<LogMsgView>::empty());
        }
        r
    }

    /// How many messages wait in the relay.
    pub fn len(&self) -> (r: usize)
        ensures
            r == self@.len(),
    {
        self.queue.len()
    }

    /// Queues one decoded message behind every waiting message.
    pub fn deliver(&mut self, msg: LogMsg)
        ensures
            final(self)@ == old(self)@.push(msg@),
    {
        self.queue.push(msg);
        proof {
            assert(self@ =~= old(self)@.push(self.queue@.last()@));
        }
    }

    /// The oldest waiting message, taken out of the relay; `None` when
    /// the relay is empty.  Messages come out first in, first out.
    pub fn next_msg(&mut self) -> (r: Option<LogMsg>)
        ensures
            old(self)@.len() == 0 ==> r is None && final(self)@ == old(self)@,
            old(self)@.len() > 0 ==> ({
                &&& r matches Some(m) && m@ == old(self)@[0]
                &&& final(self)@ == old(self)@.drop_first()
            }),
    {
        if self.queue.len() == 0 {
            return None;
        }
        let m = self.queue.remove(0);
        proof {
            assert(self@ =~= old(self)@.drop_first());
        }
        Some(m)
    }
}

} // verus!
