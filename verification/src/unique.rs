//! Names for files that are stored under a name of the server's choosing.

use vstd::prelude::*;
use vstd::string::StringSliceAdditionalSpecFns;
use crate::number::{decimal, push_decimal};
use crate::reply::{line_with, format_line};
use crate::text::{append, bytes_eq};

verus! {

/// Calls `rand::random::<u32>()`, which draws a value from the thread-local
/// generator. Nothing is claimed of the value: any `u32` may come back.
#[verifier::external_body]
fn random_number() -> (n: u32) {
    rand::random::<u32>()
}

/// The file name made from the number `n`.
pub open spec fn name_of(n: u32) -> Seq<u8> {
    "stou.".spec_bytes() + decimal(n as nat)
}

/// Is `name` one of `taken`?
pub open spec fn is_taken(taken: Seq<Vec<u8>>, name: Seq<u8>) -> bool {
    exists|i: int| 0 <= i < taken.len() && (#[trigger] taken[i])@ == name
}

/// The text of the reply that reports a file stored under `name`.
pub open spec fn stored_text(name: Seq<u8>) -> Seq<u8> {
    "Transfer complete: ".spec_bytes() + name
}

/// The file name made from the number `n`.
pub fn unique_name(n: u32) -> (r: Vec<u8>)
    ensures
        r@ == name_of(n),
{
    let mut r: Vec<u8> = Vec::new();
    append(&mut r, "stou.".as_bytes());
    push_decimal(&mut r, n as u64);
    r
}

/// Is `name` one of `taken`?
pub fn name_taken(taken: &Vec<Vec<u8>>, name: &[u8]) -> (r: bool)
    ensures
        r == is_taken(taken@, name@),
{
    let mut i: usize = 0;
    while i < taken.len()
        invariant
            i <= taken@.len(),
            forall|k: int| 0 <= k < i ==> (#[trigger] taken@[k])@ != name@,
        decreases taken@.len() - i,
    {
        if bytes_eq(taken[i].as_slice(), name) {
            return true;
        }
        i += 1;
    }
    false
}

/// The name made from `n`, unless the directory already holds it.
pub fn candidate(taken: &Vec<Vec<u8>>, n: u32) -> (r: Option<Vec<u8>>)
    ensures
        match r {
            Some(name) => name@ == name_of(n) && !is_taken(taken@, name_of(n)),
            None => is_taken(taken@, name_of(n)),
        },
{
    let name = unique_name(n);
    if name_taken(taken, name.as_slice()) {
        None
    } else {
        Some(name)
    }
}

/// Draw numbers, at most `tries` of them, until one makes a name that is not
/// among `taken`, the names that the directory holds. The name that comes
/// back is made from some number and is not taken. Nothing comes back only
/// with `tries` of 0, or where a drawn number made a name that is taken: so a
/// name is owed whenever a try is allowed and no name that a number makes is
/// taken.
pub fn fresh_name(taken: &Vec<Vec<u8>>, tries: u32) -> (r: Option<Vec<u8>>)
    ensures
        match r {
            Some(name) => !is_taken(taken@, name@) && exists|n: u32| name@ == name_of(n),
            None => tries == 0 || exists|n: u32| is_taken(taken@, name_of(n)),
        },
        tries == 0 ==> r.is_none(),
{
    let mut left: u32 = tries;
    while left > 0
        invariant
            left <= tries,
            left < tries ==> exists|n: u32| is_taken(taken@, name_of(n)),
        decreases left,
    {
        let n: u32 = random_number();
        match candidate(taken, n) {
            Some(name) => {
                return Some(name);
            },
            None => {
                assert(is_taken(taken@, name_of(n)));
            },
        }
        left -= 1;
    }
    None
}

/// The reply line that ends a store under a name of the server's choosing:
/// 226, with the name in the text.
pub fn stored_line(name: &[u8]) -> (l: Vec<u8>)
    ensures
        l@ == line_with(226, stored_text(name@)),
{
    let mut text: Vec<u8> = Vec::new();
    append(&mut text, "Transfer complete: ".as_bytes());
    append(&mut text, name);
    format_line(226, text.as_slice())
}

} // verus!
