//! The size gate for outgoing payloads, and the meaning of the service's answers.
use vstd::prelude::*;
use vstd::string::*;
use crate::error::{PasteError, PbResult};

verus! {

/// What to do about a payload before it is sent.
#[derive(Debug, Clone, Copy, PartialEq, Eq, Structural)]
pub enum SizeCheck {
    /// Within the limit, no limit set, or already confirmed: go on.
    Proceed,
    /// Over the configured limit: ask once for confirmation, and stop where
    /// nobody can answer.
    Confirm,
}

/// A limit is configured, the payload exceeds it, and nothing was confirmed yet.
pub open spec fn needs_confirmation(len: u64, size_limit: Option<u64>, already_confirmed: bool) -> bool {
    &&& !already_confirmed
    &&& size_limit is Some
    &&& len > size_limit->Some_0
}

/// The size gate: a payload of `len` bytes needs confirmation when a limit is
/// configured, the payload exceeds it, and no oversized payload was confirmed
/// before in this invocation.
pub fn check_filesize(len: u64, size_limit: Option<u64>, already_confirmed: bool) -> (r: SizeCheck)
    ensures
        r == (if needs_confirmation(len, size_limit, already_confirmed) {
            SizeCheck::Confirm
        } else {
            SizeCheck::Proceed
        }),
{
    if already_confirmed {
        return SizeCheck::Proceed;
    }
    match size_limit {
        Some(limit) => if len > limit {
            SizeCheck::Confirm
        } else {
            SizeCheck::Proceed
        },
        None => SizeCheck::Proceed,
    }
}

/// The decryption key carried by a share link's fragment: a leading '-' only
/// asks for a warning before a burn-on-read paste is read, and is dropped.
pub fn key_from_fragment(fragment: &str) -> (r: &str)
    ensures
        r@ == if fragment@.len() > 0 && fragment@[0] == '-' {
            fragment@.drop_first()
        } else {
            fragment@
        },
{
    let n = fragment.unicode_len();
    if n > 0 && fragment.get_char(0) == '-' {
        let rest = fragment.substring_char(1, n);
        assert(rest@ =~= fragment@.drop_first());
        rest
    } else {
        fragment
    }
}

/// What the service's status means for a request for a paste: 0 is success, 1
/// an unknown paste id, anything else an unknown status.
pub fn paste_status(status: u32) -> (r: PbResult<()>)
    ensures
        status == 0 ==> r is Ok,
        status == 1 ==> r matches Err(PasteError::PasteNotFound),
        status > 1 ==> (r matches Err(PasteError::UnknownPasteStatus(s)) && s == status),
{
    match status {
        0 => Ok(()),
        1 => Err(PasteError::PasteNotFound),
        s => Err(PasteError::UnknownPasteStatus(s)),
    }
}

/// What the service's status means for a new paste or comment: 0 is success, 1
/// refused data, anything else an unknown status.
pub fn post_status(status: u32) -> (r: PbResult<()>)
    ensures
        status == 0 ==> r is Ok,
        status == 1 ==> r matches Err(PasteError::InvalidData),
        status > 1 ==> (r matches Err(PasteError::UnknownPasteStatus(s)) && s == status),
{
    match status {
        0 => Ok(()),
        1 => Err(PasteError::InvalidData),
        s => Err(PasteError::UnknownPasteStatus(s)),
    }
}

} // verus!
