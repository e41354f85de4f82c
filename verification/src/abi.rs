//! Register conventions.
//!
//! - `mr0` carries the `CPtr` of the invoked capability; `mr1` to `mr3` carry the
//!   message.
//! - When a message is delivered, the receiver's `mr0` becomes the badge of the
//!   endpoint capability that the sender invoked, and `mr1` to `mr3` the sender's
//!   words.
//! - Messages fit in registers. A tag that claims further words is refused.
//! - A tag with `extra_caps == 1` attaches one capability. A sender names it by `mr1`;
//!   a receiver names by its own `mr1` the slot that it shall go to. A word that named
//!   a slot is not delivered: the receiver reads zero in `mr1`.
//! - A call with `extra_caps == 2` attaches nothing, and names by `mr1` the slot that a
//!   capability attached to the reply shall go to. One call cannot do both.

use vstd::prelude::*;

use crate::error::SyscallError;
use crate::trap::{MessageTag, TrapFrame, FLAG_ERROR};

verus! {

/// Clears the error bit.
pub fn reply_success(frame: &mut TrapFrame)
    ensures
        final(frame)@ == old(frame)@.succeeded(),
{
    let mut tag = frame.tag();
    tag.flags = tag.flags & !FLAG_ERROR;
    frame.set_tag(tag);
}

/// Sets the error bit, and `mr0` to the code of `error`.
pub fn reply_error(frame: &mut TrapFrame, error: SyscallError)
    ensures
        final(frame)@ == old(frame)@.failed(error.code()),
{
    frame.set_mr(0, error.code());
    let mut tag = frame.tag();
    tag.flags = tag.flags | FLAG_ERROR;
    frame.set_tag(tag);
}

/// Whether a message with this tag fits in registers and has `extra_caps` no higher than
/// `limit`.
pub open spec fn fits(tag: MessageTag, limit: u8) -> bool {
    tag.length == 0 && tag.extra_caps <= limit
}

/// Refuses what a send, a receive or a reply cannot carry.
pub fn require_fast_path_only(tag: MessageTag) -> (result: Result<(), SyscallError>)
    ensures
        result == if fits(tag, 1) {
            Ok(())
        } else {
            Err(SyscallError::TruncatedMessage)
        },
{
    if tag.length > 0 || tag.extra_caps > 1 {
        Err(SyscallError::TruncatedMessage)
    } else {
        Ok(())
    }
}

/// Refuses what a call cannot carry.
pub fn require_call_tag(tag: MessageTag) -> (result: Result<(), SyscallError>)
    ensures
        result == if fits(tag, 2) {
            Ok(())
        } else {
            Err(SyscallError::TruncatedMessage)
        },
{
    if tag.length > 0 || tag.extra_caps > 2 {
        Err(SyscallError::TruncatedMessage)
    } else {
        Ok(())
    }
}

} // verus!
