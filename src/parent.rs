//! The parent directory of the file an open descriptor refers to.

use vstd::prelude::*;
use crate::text::{byte_len, len_field, Str};

verus! {

/// The character of a decimal digit.
pub open spec fn digit_char(d: int) -> char {
    seq!['0', '1', '2', '3', '4', '5', '6', '7', '8', '9'][d]
}

/// The decimal numeral of `n`, without leading zeros.
pub open spec fn digits_of(n: nat) -> Seq<char>
    decreases n,
{
    if n < 10 {
        seq![digit_char(n as int)]
    } else {
        digits_of(n / 10).push(digit_char((n % 10) as int))
    }
}

/// The decimal numeral of `n`, with a minus sign when it is negative.
pub open spec fn decimal_text(n: int) -> Seq<char> {
    if n < 0 {
        seq!['-'] + digits_of((-n) as nat)
    } else {
        digits_of(n as nat)
    }
}

/// Relies on i32's `to_string`: the decimal numeral, led by a minus sign
/// when the number is negative.
#[verifier::external_body]
fn decimal_string(n: i32) -> (r: String)
    ensures
        r@ == decimal_text(n as int),
{
    n.to_string()
}

/// The directory in which each open descriptor of the process appears as
/// a link to the path it refers to, with a trailing separator.
pub open spec fn fd_table_dir() -> Seq<char> {
    "/proc/self/fd/"@
}

/// The link through which the OS shows the path that `fd` refers to.
pub fn fd_link_path(fd: i32) -> (r: String)
    ensures
        r@ == fd_table_dir() + decimal_text(fd as int),
{
    let dir = String::from_str("/proc/self/fd/");
    dir.concat(decimal_string(fd).as_str())
}

/// The parent of path `p` as text: `p` without its final component, or
/// none when `p` ends in a root or is empty.
pub uninterp spec fn path_parent(p: Seq<char>) -> Option<Seq<char>>;

/// Relies on std::path::Path::parent: the path without its final
/// component, and None when the path ends in a root or is empty. A parent
/// of a path given as text is text too.
#[verifier::external_body]
fn parent_text(p: &str) -> (r: Option<String>)
    ensures
        match r {
            Some(q) => path_parent(p@) == Some(q@),
            None => path_parent(p@) is None,
        },
        p@ == seq!['/'] ==> r is None,
        p@.len() == 0 ==> r is None,
{
    std::path::Path::new(p).parent().and_then(|q| q.to_str()).map(String::from)
}

/// The parent directory of `target`, the path a descriptor refers to,
/// ready to hand over; none when `target` has no parent.
pub fn parent_entry(target: &str) -> (r: Option<Str>)
    ensures
        match path_parent(target@) {
            None => r is None,
            Some(q) => r is Some && r->0.str@ == q && r->0.len == len_field(byte_len(q)),
        },
        target@ == seq!['/'] ==> r is None,
{
    match parent_text(target) {
        Some(q) => Some(Str::new(q)),
        None => None,
    }
}

} // verus!
