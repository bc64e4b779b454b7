//! Command lines: a verb, then a space and the argument.

use vstd::prelude::*;
use vstd::string::StringSliceAdditionalSpecFns;
use crate::session::Verb;
use crate::text::{trimmed, find_byte, lowered, trim_bounds, find_from, copy_range, eq_ignore_case};

verus! {

/// The byte between the verb and its argument.
pub open spec fn SPACE() -> u8 {
    32
}

/// The verb's word: the trimmed line up to its first space.
pub open spec fn word_of(line: Seq<u8>) -> Seq<u8> {
    let t = trimmed(line);
    t.subrange(0, find_byte(t, SPACE(), 0))
}

/// The argument: what follows the first space of the trimmed line, taken as
/// it stands; empty where the line has no space.
pub open spec fn argument_of(line: Seq<u8>) -> Seq<u8> {
    let t = trimmed(line);
    let p = find_byte(t, SPACE(), 0);
    if p < t.len() {
        t.subrange(p + 1, t.len() as int)
    } else {
        Seq::empty()
    }
}

/// The verb that a word names, whatever the case of its letters.
pub open spec fn verb_named(word: Seq<u8>) -> Verb {
    let w = lowered(word);
    if w == "user".spec_bytes() {
        Verb::User
    } else if w == "pass".spec_bytes() {
        Verb::Pass
    } else if w == "help".spec_bytes() || w == "?".spec_bytes() {
        Verb::Help
    } else if w == "syst".spec_bytes() {
        Verb::Syst
    } else if w == "quit".spec_bytes() || w == "exit".spec_bytes() || w == "logout".spec_bytes() {
        Verb::Quit
    } else if w == "appe".spec_bytes() {
        Verb::Appe
    } else if w == "cdup".spec_bytes() {
        Verb::Cdup
    } else if w == "cwd".spec_bytes() || w == "cd".spec_bytes() {
        Verb::Cwd
    } else if w == "dele".spec_bytes() {
        Verb::Dele
    } else if w == "list".spec_bytes() {
        Verb::List
    } else if w == "mkd".spec_bytes() || w == "mkdir".spec_bytes() {
        Verb::Mkd
    } else if w == "pasv".spec_bytes() {
        Verb::Pasv
    } else if w == "port".spec_bytes() {
        Verb::Port
    } else if w == "retr".spec_bytes() {
        Verb::Retr
    } else if w == "rnfr".spec_bytes() {
        Verb::Rnfr
    } else if w == "rnto".spec_bytes() {
        Verb::Rnto
    } else if w == "stor".spec_bytes() {
        Verb::Stor
    } else if w == "stou".spec_bytes() {
        Verb::Stou
    } else if w == "type".spec_bytes() {
        Verb::Type
    } else {
        Verb::Unknown
    }
}

/// The verb that `word` names.
pub fn verb_of(word: &[u8]) -> (v: Verb)
    ensures
        v == verb_named(word@),
{
    if eq_ignore_case(word, "user".as_bytes()) {
        Verb::User
    } else if eq_ignore_case(word, "pass".as_bytes()) {
        Verb::Pass
    } else if eq_ignore_case(word, "help".as_bytes()) || eq_ignore_case(word, "?".as_bytes()) {
        Verb::Help
    } else if eq_ignore_case(word, "syst".as_bytes()) {
        Verb::Syst
    } else if eq_ignore_case(word, "quit".as_bytes()) || eq_ignore_case(word, "exit".as_bytes())
        || eq_ignore_case(word, "logout".as_bytes()) {
        Verb::Quit
    } else if eq_ignore_case(word, "appe".as_bytes()) {
        Verb::Appe
    } else if eq_ignore_case(word, "cdup".as_bytes()) {
        Verb::Cdup
    } else if eq_ignore_case(word, "cwd".as_bytes()) || eq_ignore_case(word, "cd".as_bytes()) {
        Verb::Cwd
    } else if eq_ignore_case(word, "dele".as_bytes()) {
        Verb::Dele
    } else if eq_ignore_case(word, "list".as_bytes()) {
        Verb::List
    } else if eq_ignore_case(word, "mkd".as_bytes()) || eq_ignore_case(word, "mkdir".as_bytes()) {
        Verb::Mkd
    } else if eq_ignore_case(word, "pasv".as_bytes()) {
        Verb::Pasv
    } else if eq_ignore_case(word, "port".as_bytes()) {
        Verb::Port
    } else if eq_ignore_case(word, "retr".as_bytes()) {
        Verb::Retr
    } else if eq_ignore_case(word, "rnfr".as_bytes()) {
        Verb::Rnfr
    } else if eq_ignore_case(word, "rnto".as_bytes()) {
        Verb::Rnto
    } else if eq_ignore_case(word, "stor".as_bytes()) {
        Verb::Stor
    } else if eq_ignore_case(word, "stou".as_bytes()) {
        Verb::Stou
    } else if eq_ignore_case(word, "type".as_bytes()) {
        Verb::Type
    } else {
        Verb::Unknown
    }
}

/// Split a command line into its verb and its argument.
pub fn split_line(line: &[u8]) -> (r: (Verb, Vec<u8>))
    ensures
        r.0 == verb_named(word_of(line@)),
        r.1@ == argument_of(line@),
{
    let (lo, hi) = trim_bounds(line);
    let t: Vec<u8> = copy_range(line, lo, hi);
    let p: usize = find_from(t.as_slice(), 32, 0);
    let word: Vec<u8> = copy_range(t.as_slice(), 0, p);
    let arg: Vec<u8> = if p < t.len() {
        copy_range(t.as_slice(), p + 1, t.len())
    } else {
        Vec::new()
    };
    (verb_of(word.as_slice()), arg)
}

} // verus!
