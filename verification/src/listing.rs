//! The text of a directory listing: one row for each entry, with its name,
//! its size and its kind.

use vstd::prelude::*;
use vstd::string::StringSliceAdditionalSpecFns;
use crate::number::{decimal, push_decimal};
use crate::text::append;

verus! {

/// One entry of a directory.
#[derive(Debug, PartialEq, Eq)]
pub struct Entry {
    pub name: Vec<u8>,
    pub size: u64,
    pub is_dir: bool,
}

/// The byte between the columns of a row.
pub open spec fn TAB() -> u8 {
    9
}

/// The word for an entry's kind.
pub open spec fn kind_of(is_dir: bool) -> Seq<u8> {
    if is_dir {
        "dir".spec_bytes()
    } else {
        "file".spec_bytes()
    }
}

/// The row of an entry: name, size and kind with tabs between, then CR LF.
pub open spec fn row_of(e: Entry) -> Seq<u8> {
    e.name@ + seq![TAB()] + decimal(e.size as nat) + seq![TAB()] + kind_of(e.is_dir) + seq![
        13u8,
        10u8,
    ]
}

/// The rows of the first `n` entries, in their order.
pub open spec fn rows_of(entries: Seq<Entry>, n: int) -> Seq<u8>
    decreases n,
{
    if n <= 0 || n > entries.len() {
        Seq::empty()
    } else {
        rows_of(entries, n - 1) + row_of(entries[n - 1])
    }
}

/// Append the row of `e` to `out`.
pub fn push_row(out: &mut Vec<u8>, e: &Entry)
    ensures
        final(out)@ == old(out)@ + row_of(*e),
{
    append(out, e.name.as_slice());
    out.push(9);
    push_decimal(out, e.size);
    out.push(9);
    if e.is_dir {
        append(out, "dir".as_bytes());
    } else {
        append(out, "file".as_bytes());
    }
    out.push(13);
    out.push(10);
    assert(out@ =~= old(out)@ + row_of(*e));
}

/// The text of a listing: the rows of the entries, in their order.
pub fn listing(entries: &Vec<Entry>) -> (r: Vec<u8>)
    ensures
        r@ == rows_of(entries@, entries@.len() as int),
{
    let mut out: Vec<u8> = Vec::new();
    let mut i: usize = 0;
    while i < entries.len()
        invariant
            i <= entries@.len(),
            out@ == rows_of(entries@, i as int),
        decreases entries@.len() - i,
    {
        push_row(&mut out, &entries[i]);
        i += 1;
    }
    out
}

} // verus!
