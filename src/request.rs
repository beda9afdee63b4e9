//! What a seek or a directory creation asks of the OS.

use vstd::prelude::*;
use vstd::utf8::{decode_utf8, valid_utf8};
use crate::error::IoFailure;
use crate::text::checked_path;

verus! {

/// The origin of a seek.
#[derive(Clone, Copy, Debug, PartialEq, Eq, Structural)]
pub enum SeekPos {
    Start,
    Current,
    End,
}

/// A seek in the form the OS takes it: an unsigned offset from the start,
/// or a signed one from the current position or from the end.
#[derive(Clone, Copy, Debug, PartialEq, Eq, Structural)]
pub enum SeekTarget {
    Start(u64),
    Current(i64),
    End(i64),
}

/// The seek asked for by `offset` from `pos`. An offset from the start is
/// taken as unsigned: a negative one wraps to 2^64 plus itself, an offset
/// the OS refuses.
pub fn seek_target(offset: i64, pos: SeekPos) -> (r: SeekTarget)
    ensures
        pos == SeekPos::Start && offset >= 0 ==> r == SeekTarget::Start(offset as u64),
        pos == SeekPos::Start && offset < 0 ==> r == SeekTarget::Start(
            (offset + 0x1_0000_0000_0000_0000) as u64,
        ),
        pos == SeekPos::Current ==> r == SeekTarget::Current(offset),
        pos == SeekPos::End ==> r == SeekTarget::End(offset),
{
    match pos {
        SeekPos::Start => if offset >= 0 {
            SeekTarget::Start(offset as u64)
        } else {
            SeekTarget::Start(u64::MAX - ((-(offset + 1)) as u64))
        },
        SeekPos::Current => SeekTarget::Current(offset),
        SeekPos::End => SeekTarget::End(offset),
    }
}

/// How a directory is created: alone, failing when its parent is missing,
/// or together with every missing ancestor.
#[derive(Clone, Copy, Debug, PartialEq, Eq, Structural)]
pub enum MakeDirectionMode {
    Single,
    Multiple,
}

/// A directory to create, and whether its missing ancestors are created
/// too.
pub struct DirRequest {
    pub path: String,
    pub with_ancestors: bool,
}

/// The directory creation asked for by `path` and `mode`. An absent path,
/// or one that is not UTF-8 text, is invalid input, found before the file
/// system is touched.
pub fn create_dir_request(path: Option<&[u8]>, mode: MakeDirectionMode) -> (r: Result<
    DirRequest,
    IoFailure,
>)
    ensures
        match path {
            None => r == Err::<DirRequest, IoFailure>(IoFailure::spec_invalid_input()),
            Some(b) => if valid_utf8(b@) {
                &&& r is Ok
                &&& r->Ok_0.path@ == decode_utf8(b@)
                &&& r->Ok_0.with_ancestors == (mode == MakeDirectionMode::Multiple)
            } else {
                r == Err::<DirRequest, IoFailure>(IoFailure::spec_invalid_input())
            },
        },
{
    match checked_path(path) {
        Ok(p) => {
            let with_ancestors = match mode {
                MakeDirectionMode::Single => false,
                MakeDirectionMode::Multiple => true,
            };
            Ok(DirRequest { path: p, with_ancestors })
        },
        Err(e) => Err(e),
    }
}

} // verus!
