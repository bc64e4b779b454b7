//! The address of a data connection and its encoding as six decimal numbers
//! with commas between: four address bytes, then the port's high and low byte.

use vstd::prelude::*;
use crate::text::{find_byte, find_from, lemma_find_byte_stops};
use crate::number::{
    decimal, decimal_of, parse_decimal, push_decimal, is_digit, lemma_decimal_round_trip,
};

verus! {

/// An IPv4 address and a port.
#[derive(Clone, Copy, Debug, PartialEq, Eq, Structural)]
pub struct DataAddress {
    pub h1: u8,
    pub h2: u8,
    pub h3: u8,
    pub h4: u8,
    pub port: u16,
}

/// The byte between two numbers of an encoded address.
pub open spec fn COMMA() -> u8 {
    44
}

/// The port that a high and a low byte spell.
pub open spec fn ftp_port(high: u8, low: u8) -> u16 {
    (high as int * 256 + low as int) as u16
}

/// The number in the field of `s` that starts at `i` and runs to the next
/// comma or to the end, if the field holds one of at most 255.
pub open spec fn octet_at(s: Seq<u8>, i: int) -> Option<nat> {
    decimal_of(s.subrange(i, find_byte(s, COMMA(), i)), 255)
}

/// The address that `s` encodes: exactly six comma-separated decimal numbers,
/// each at most 255.
pub open spec fn address_of(s: Seq<u8>) -> Option<DataAddress> {
    let e1 = find_byte(s, COMMA(), 0);
    let e2 = find_byte(s, COMMA(), e1 + 1);
    let e3 = find_byte(s, COMMA(), e2 + 1);
    let e4 = find_byte(s, COMMA(), e3 + 1);
    let e5 = find_byte(s, COMMA(), e4 + 1);
    let e6 = find_byte(s, COMMA(), e5 + 1);
    if e1 < s.len() && e2 < s.len() && e3 < s.len() && e4 < s.len() && e5 < s.len() && e6
        == s.len() && octet_at(s, 0).is_some() && octet_at(s, e1 + 1).is_some() && octet_at(
        s,
        e2 + 1,
    ).is_some() && octet_at(s, e3 + 1).is_some() && octet_at(s, e4 + 1).is_some() && octet_at(
        s,
        e5 + 1,
    ).is_some() {
        Some(
            DataAddress {
                h1: octet_at(s, 0).unwrap() as u8,
                h2: octet_at(s, e1 + 1).unwrap() as u8,
                h3: octet_at(s, e2 + 1).unwrap() as u8,
                h4: octet_at(s, e3 + 1).unwrap() as u8,
                port: ftp_port(
                    octet_at(s, e4 + 1).unwrap() as u8,
                    octet_at(s, e5 + 1).unwrap() as u8,
                ),
            },
        )
    } else {
        None
    }
}

/// The six-number encoding of an address.
pub open spec fn encoded(a: DataAddress) -> Seq<u8> {
    decimal(a.h1 as nat) + seq![COMMA()] + decimal(a.h2 as nat) + seq![COMMA()] + decimal(
        a.h3 as nat,
    ) + seq![COMMA()] + decimal(a.h4 as nat) + seq![COMMA()] + decimal((a.port / 256) as nat)
        + seq![COMMA()] + decimal((a.port % 256) as nat)
}

/// The address written with dots, as in a greeting.
pub open spec fn dotted(a: DataAddress) -> Seq<u8> {
    decimal(a.h1 as nat) + seq![46u8] + decimal(a.h2 as nat) + seq![46u8] + decimal(a.h3 as nat)
        + seq![46u8] + decimal(a.h4 as nat)
}

/// A field that holds the spelling of `n` and ends at a comma or at the end
/// of `s` is read as `n`.
proof fn lemma_field_reads_back(s: Seq<u8>, i: int, n: nat)
    requires
        n <= 255,
        0 <= i,
        i + decimal(n).len() <= s.len(),
        s.subrange(i, i + decimal(n).len()) == decimal(n),
        i + decimal(n).len() == s.len() || s[i + decimal(n).len()] == COMMA(),
    ensures
        find_byte(s, COMMA(), i) == i + decimal(n).len(),
        octet_at(s, i) == Some(n),
{
    let d = decimal(n);
    lemma_decimal_round_trip(n, 255);
    assert forall|k: int| i <= k < i + d.len() implies s[k] != COMMA() by {
        assert(s[k] == s.subrange(i, i + d.len())[k - i]);
        assert(is_digit(d[k - i]));
    }
    lemma_find_byte_stops(s, COMMA(), i, i + d.len());
}

/// An address that is written out is read back as it was.
pub proof fn law_address_round_trip(a: DataAddress)
    ensures
        address_of(encoded(a)) == Some(a),
{
    let s = encoded(a);
    let c = seq![COMMA()];
    let d1 = decimal(a.h1 as nat);
    let d2 = decimal(a.h2 as nat);
    let d3 = decimal(a.h3 as nat);
    let d4 = decimal(a.h4 as nat);
    let d5 = decimal((a.port / 256) as nat);
    let d6 = decimal((a.port % 256) as nat);
    let at2: int = d1.len() as int + 1;
    let at3: int = at2 + d2.len() + 1;
    let at4: int = at3 + d3.len() + 1;
    let at5: int = at4 + d4.len() + 1;
    let at6: int = at5 + d5.len() + 1;
    assert(s == d1 + c + d2 + c + d3 + c + d4 + c + d5 + c + d6);
    assert(s.len() == at6 + d6.len());
    assert(s.subrange(0, d1.len() as int) =~= d1);
    assert(s.subrange(at2, at2 + d2.len()) =~= d2);
    assert(s.subrange(at3, at3 + d3.len()) =~= d3);
    assert(s.subrange(at4, at4 + d4.len()) =~= d4);
    assert(s.subrange(at5, at5 + d5.len()) =~= d5);
    assert(s.subrange(at6, at6 + d6.len()) =~= d6);
    lemma_field_reads_back(s, 0, a.h1 as nat);
    lemma_field_reads_back(s, at2, a.h2 as nat);
    lemma_field_reads_back(s, at3, a.h3 as nat);
    lemma_field_reads_back(s, at4, a.h4 as nat);
    lemma_field_reads_back(s, at5, (a.port / 256) as nat);
    lemma_field_reads_back(s, at6, (a.port % 256) as nat);
    assert(ftp_port((a.port / 256) as u8, (a.port % 256) as u8) == a.port);
}

/// The port of a high and a low byte: `high * 256 + low`.
pub fn to_ftp_port(high: u8, low: u8) -> (r: u16)
    ensures
        r == high as int * 256 + low as int,
        r == ftp_port(high, low),
        r / 256 == high,
        r % 256 == low,
{
    let h: u16 = high as u16;
    let l: u16 = low as u16;
    h * 256 + l
}

/// Read the field of `s` that starts at `from`: its number, and where the
/// field ends (at a comma or at the end of `s`).
pub fn read_octet(s: &[u8], from: usize) -> (r: (Option<u8>, usize))
    requires
        from <= s@.len(),
    ensures
        r.1 == find_byte(s@, COMMA(), from as int),
        from <= r.1 <= s@.len(),
        match octet_at(s@, from as int) {
            Some(v) => r.0 == Some(v as u8),
            None => r.0.is_none(),
        },
{
    let e: usize = find_from(s, 44, from);
    match parse_decimal(s, from, e, 255) {
        Some(v) => (Some(v as u8), e),
        None => (None, e),
    }
}

/// Read an address from its six-number encoding.
pub fn port_addr(args: &[u8]) -> (r: Option<DataAddress>)
    ensures
        r == address_of(args@),
{
    let n: usize = args.len();
    let (o1, e1) = read_octet(args, 0);
    if e1 >= n || o1.is_none() {
        return None;
    }
    let (o2, e2) = read_octet(args, e1 + 1);
    if e2 >= n || o2.is_none() {
        return None;
    }
    let (o3, e3) = read_octet(args, e2 + 1);
    if e3 >= n || o3.is_none() {
        return None;
    }
    let (o4, e4) = read_octet(args, e3 + 1);
    if e4 >= n || o4.is_none() {
        return None;
    }
    let (o5, e5) = read_octet(args, e4 + 1);
    if e5 >= n || o5.is_none() {
        return None;
    }
    let (o6, e6) = read_octet(args, e5 + 1);
    if e6 != n || o6.is_none() {
        return None;
    }
    Some(
        DataAddress {
            h1: o1.unwrap(),
            h2: o2.unwrap(),
            h3: o3.unwrap(),
            h4: o4.unwrap(),
            port: to_ftp_port(o5.unwrap(), o6.unwrap()),
        },
    )
}

/// Append the six-number encoding of `a` to `out`.
pub fn push_encoded(out: &mut Vec<u8>, a: DataAddress)
    ensures
        final(out)@ == old(out)@ + encoded(a),
{
    push_decimal(out, a.h1 as u64);
    out.push(44);
    push_decimal(out, a.h2 as u64);
    out.push(44);
    push_decimal(out, a.h3 as u64);
    out.push(44);
    push_decimal(out, a.h4 as u64);
    out.push(44);
    push_decimal(out, (a.port / 256) as u64);
    out.push(44);
    push_decimal(out, (a.port % 256) as u64);
    assert(out@ =~= old(out)@ + encoded(a));
}

/// Append `a`'s address, written with dots, to `out`.
pub fn push_dotted(out: &mut Vec<u8>, a: DataAddress)
    ensures
        final(out)@ == old(out)@ + dotted(a),
{
    push_decimal(out, a.h1 as u64);
    out.push(46);
    push_decimal(out, a.h2 as u64);
    out.push(46);
    push_decimal(out, a.h3 as u64);
    out.push(46);
    push_decimal(out, a.h4 as u64);
    assert(out@ =~= old(out)@ + dotted(a));
}

} // verus!
