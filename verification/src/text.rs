//! Small byte-string helpers shared by the parsers.

use vstd::prelude::*;

verus! {

/// ASCII whitespace, as trimmed from both ends of a line.
pub open spec fn is_space(b: u8) -> bool {
    b == 32 || (9 <= b && b <= 13)
}

/// The lower-case form of an ASCII letter; every other byte is itself.
pub open spec fn lower(b: u8) -> u8 {
    if 65 <= b && b <= 90 {
        (b + 32) as u8
    } else {
        b
    }
}

/// `s` with every ASCII letter in lower case.
pub open spec fn lowered(s: Seq<u8>) -> Seq<u8> {
    Seq::new(s.len(), |i: int| lower(s[i]))
}

/// The first index at or after `i` that holds no whitespace (or the length).
pub open spec fn skip_spaces(s: Seq<u8>, i: int) -> int
    decreases s.len() - i,
{
    if 0 <= i && i < s.len() && is_space(s[i]) {
        skip_spaces(s, i + 1)
    } else {
        i
    }
}

/// The end of `s` once trailing whitespace is dropped, never below `lo`.
pub open spec fn drop_trailing(s: Seq<u8>, lo: int, j: int) -> int
    decreases j,
{
    if 0 <= lo && lo < j && j <= s.len() && is_space(s[j - 1]) {
        drop_trailing(s, lo, j - 1)
    } else {
        j
    }
}

/// `s` without leading and trailing whitespace.
pub open spec fn trimmed(s: Seq<u8>) -> Seq<u8> {
    let lo = skip_spaces(s, 0);
    s.subrange(lo, drop_trailing(s, lo, s.len() as int))
}

/// The first index at or after `i` that holds `b` (or the length).
pub open spec fn find_byte(s: Seq<u8>, b: u8, i: int) -> int
    decreases s.len() - i,
{
    if 0 <= i && i < s.len() && s[i] != b {
        find_byte(s, b, i + 1)
    } else {
        i
    }
}

/// Skipping stops at the first byte that is no whitespace.
pub proof fn lemma_skip_spaces(s: Seq<u8>, i: int)
    requires
        0 <= i <= s.len(),
    ensures
        i <= skip_spaces(s, i) <= s.len(),
        forall|k: int| i <= k < skip_spaces(s, i) ==> is_space(s[k]),
        skip_spaces(s, i) < s.len() ==> !is_space(s[skip_spaces(s, i)]),
    decreases s.len() - i,
{
    if i < s.len() && is_space(s[i]) {
        lemma_skip_spaces(s, i + 1);
    }
}

/// Dropping stops behind the last byte that is no whitespace.
pub proof fn lemma_drop_trailing(s: Seq<u8>, lo: int, j: int)
    requires
        0 <= lo <= j <= s.len(),
    ensures
        lo <= drop_trailing(s, lo, j) <= j,
        forall|k: int| drop_trailing(s, lo, j) <= k < j ==> is_space(s[k]),
        lo < drop_trailing(s, lo, j) ==> !is_space(s[drop_trailing(s, lo, j) - 1]),
    decreases j,
{
    if lo < j && is_space(s[j - 1]) {
        lemma_drop_trailing(s, lo, j - 1);
    }
}

/// Trimming takes whitespace away, and nothing else, from both ends: the
/// text is whitespace, then the trimmed text, then whitespace, and the
/// trimmed text neither starts nor ends with whitespace.
pub proof fn law_trimmed(s: Seq<u8>)
    ensures
        exists|before: Seq<u8>, after: Seq<u8>|
            s == before + trimmed(s) + after && (forall|k: int|
                0 <= k < before.len() ==> is_space(before[k])) && (forall|k: int|
                0 <= k < after.len() ==> is_space(after[k])),
        trimmed(s).len() > 0 ==> !is_space(trimmed(s).first()) && !is_space(trimmed(s).last()),
{
    let lo = skip_spaces(s, 0);
    lemma_skip_spaces(s, 0);
    let hi = drop_trailing(s, lo, s.len() as int);
    lemma_drop_trailing(s, lo, s.len() as int);
    let before = s.subrange(0, lo);
    let after = s.subrange(hi, s.len() as int);
    assert(s =~= before + trimmed(s) + after);
    assert forall|k: int| 0 <= k < before.len() implies is_space(before[k]) by {
        assert(before[k] == s[k]);
    }
    assert forall|k: int| 0 <= k < after.len() implies is_space(after[k]) by {
        assert(after[k] == s[hi + k]);
    }
    if trimmed(s).len() > 0 {
        assert(trimmed(s).first() == s[lo]);
        assert(trimmed(s).last() == s[hi - 1]);
    }
}

/// What the search finds: no `b` before the index it gives, and `b` at it
/// unless it is the end.
pub proof fn lemma_find_byte_bounds(s: Seq<u8>, b: u8, i: int)
    requires
        0 <= i <= s.len(),
    ensures
        i <= find_byte(s, b, i) <= s.len(),
        forall|k: int| i <= k < find_byte(s, b, i) ==> s[k] != b,
        find_byte(s, b, i) < s.len() ==> s[find_byte(s, b, i)] == b,
    decreases s.len() - i,
{
    if i < s.len() && s[i] != b {
        lemma_find_byte_bounds(s, b, i + 1);
    }
}

/// Where the search stops: at `e`, if no byte from `i` up to `e` is `b` and
/// `e` is the end or holds `b`.
pub proof fn lemma_find_byte_stops(s: Seq<u8>, b: u8, i: int, e: int)
    requires
        0 <= i <= e <= s.len(),
        forall|k: int| i <= k < e ==> s[k] != b,
        e == s.len() || s[e] == b,
    ensures
        find_byte(s, b, i) == e,
    decreases e - i,
{
    if i < e {
        lemma_find_byte_stops(s, b, i + 1, e);
    }
}

/// Is `b` ASCII whitespace?
pub fn byte_is_space(b: u8) -> (r: bool)
    ensures
        r == is_space(b),
{
    b == 32 || (9 <= b && b <= 13)
}

/// Lower-case one byte.
pub fn to_lower(b: u8) -> (r: u8)
    ensures
        r == lower(b),
{
    if 65 <= b && b <= 90 {
        b + 32
    } else {
        b
    }
}

/// Are the two byte strings equal?
pub fn bytes_eq(a: &[u8], b: &[u8]) -> (r: bool)
    ensures
        r == (a@ == b@),
{
    if a.len() != b.len() {
        return false;
    }
    let mut i: usize = 0;
    while i < a.len()
        invariant
            a@.len() == b@.len(),
            i <= a@.len(),
            forall|k: int| 0 <= k < i ==> a@[k] == b@[k],
        decreases a@.len() - i,
    {
        if a[i] != b[i] {
            return false;
        }
        i += 1;
    }
    assert(a@ =~= b@);
    true
}

/// Does `word`, taken without regard to letter case, spell `name`?
/// `name` is expected in lower case.
pub fn eq_ignore_case(word: &[u8], name: &[u8]) -> (r: bool)
    ensures
        r == (lowered(word@) == name@),
{
    if word.len() != name.len() {
        return false;
    }
    let mut i: usize = 0;
    while i < word.len()
        invariant
            word@.len() == name@.len(),
            i <= word@.len(),
            forall|k: int| 0 <= k < i ==> lower(word@[k]) == name@[k],
        decreases word@.len() - i,
    {
        if to_lower(word[i]) != name[i] {
            assert(lowered(word@)[i as int] != name@[i as int]);
            return false;
        }
        i += 1;
    }
    assert(lowered(word@) =~= name@);
    true
}

/// A fresh copy of `a[from..to]`.
pub fn copy_range(a: &[u8], from: usize, to: usize) -> (r: Vec<u8>)
    requires
        from <= to <= a@.len(),
    ensures
        r@ == a@.subrange(from as int, to as int),
{
    let mut out: Vec<u8> = Vec::new();
    let mut i: usize = from;
    while i < to
        invariant
            from <= i <= to <= a@.len(),
            out@ == a@.subrange(from as int, i as int),
        decreases to - i,
    {
        out.push(a[i]);
        assert(out@ =~= a@.subrange(from as int, i + 1));
        i += 1;
    }
    out
}

/// A fresh copy of `a`.
pub fn copy_bytes(a: &[u8]) -> (r: Vec<u8>)
    ensures
        r@ == a@,
{
    let r = copy_range(a, 0, a.len());
    assert(a@.subrange(0, a@.len() as int) =~= a@);
    r
}

/// Append `src` to `dst`.
pub fn append(dst: &mut Vec<u8>, src: &[u8])
    ensures
        final(dst)@ == old(dst)@ + src@,
{
    let mut i: usize = 0;
    while i < src.len()
        invariant
            i <= src@.len(),
            dst@ == old(dst)@ + src@.subrange(0, i as int),
        decreases src@.len() - i,
    {
        dst.push(src[i]);
        assert(dst@ =~= old(dst)@ + src@.subrange(0, i + 1));
        i += 1;
    }
    assert(src@.subrange(0, src@.len() as int) =~= src@);
}

/// The bounds of `s` without its leading and trailing whitespace.
pub fn trim_bounds(s: &[u8]) -> (r: (usize, usize))
    ensures
        r.0 == skip_spaces(s@, 0),
        r.1 == drop_trailing(s@, r.0 as int, s@.len() as int),
        r.0 <= r.1 <= s@.len(),
        s@.subrange(r.0 as int, r.1 as int) == trimmed(s@),
{
    let mut lo: usize = 0;
    while lo < s.len() && byte_is_space(s[lo])
        invariant
            lo <= s@.len(),
            skip_spaces(s@, 0) == skip_spaces(s@, lo as int),
        decreases s@.len() - lo,
    {
        lo += 1;
    }
    let mut hi: usize = s.len();
    while lo < hi && byte_is_space(s[hi - 1])
        invariant
            lo <= hi <= s@.len(),
            drop_trailing(s@, lo as int, s@.len() as int) == drop_trailing(s@, lo as int, hi as int),
        decreases hi,
    {
        hi -= 1;
    }
    (lo, hi)
}

/// The first index at or after `from` that holds `b`, or the length.
pub fn find_from(s: &[u8], b: u8, from: usize) -> (r: usize)
    requires
        from <= s@.len(),
    ensures
        r == find_byte(s@, b, from as int),
        from <= r <= s@.len(),
{
    let mut i: usize = from;
    while i < s.len() && s[i] != b
        invariant
            from <= i <= s@.len(),
            find_byte(s@, b, from as int) == find_byte(s@, b, i as int),
        decreases s@.len() - i,
    {
        i += 1;
    }
    i
}

} // verus!
