//! Start-up values: the defaults of the command line, the range of data
//! ports, and the records of the user list.

use vstd::prelude::*;
use vstd::string::StringSliceAdditionalSpecFns;
use vstd::utf8::encode_utf8;
use crate::number::{decimal_of, parse_decimal};
use crate::text::{
    trimmed, find_byte, trim_bounds, find_from, copy_range, copy_bytes, append,
};
use crate::user::{User, UserView, Registry, position_from};

verus! {

/// What the command line sets.
#[derive(Debug, Clone)]
pub struct Arguements {
    pub ftp_port: String,
    pub service_port: String,
    pub passive: bool,
    pub active: bool,
    pub debug: bool,
    pub verbose: bool,
    pub data_port_range: String,
    pub run_test_file: Option<String>,
    pub config_file: Option<String>,
    pub log_file: Option<String>,
}

impl Arguements {
    /// The values in force where the command line sets nothing.
    pub fn new() -> (r: Arguements)
        ensures
            r.ftp_port@ == "2115"@,
            r.service_port@ == "2185"@,
            !r.passive,
            !r.active,
            !r.debug,
            !r.verbose,
            r.data_port_range@ == "27500-27999"@,
            r.run_test_file.is_none(),
            r.config_file.is_none(),
            r.log_file.is_none(),
    {
        Arguements {
            ftp_port: "2115".to_owned(),
            service_port: "2185".to_owned(),
            passive: false,
            active: false,
            debug: false,
            verbose: false,
            data_port_range: "27500-27999".to_owned(),
            run_test_file: None,
            config_file: None,
            log_file: None,
        }
    }
}

/// The byte between the two ends of a port range.
pub open spec fn DASH() -> u8 {
    45
}

/// The largest number that a port of the range may be.
pub open spec fn PORT_LIMIT() -> nat {
    0x7fff_ffff
}

/// The two ends that a range such as `27500-27999` names. The text is
/// trimmed; the first end runs to the first dash and the second from there to
/// the next dash or the end; each is a run of digits.
pub open spec fn range_of(text: Seq<u8>) -> Option<(int, int)> {
    let t = trimmed(text);
    let e1 = find_byte(t, DASH(), 0);
    let e2 = find_byte(t, DASH(), e1 + 1);
    if e1 < t.len() && decimal_of(t.subrange(0, e1), PORT_LIMIT()).is_some() && decimal_of(
        t.subrange(e1 + 1, e2),
        PORT_LIMIT(),
    ).is_some() {
        Some(
            (
                decimal_of(t.subrange(0, e1), PORT_LIMIT()).unwrap() as int,
                decimal_of(t.subrange(e1 + 1, e2), PORT_LIMIT()).unwrap() as int,
            ),
        )
    } else {
        None
    }
}

/// The ports from `first` to `last`, both included, in rising order.
pub open spec fn ports_between(first: int, last: int) -> Seq<i32> {
    Seq::new(
        if first <= last {
            (last - first + 1) as nat
        } else {
            0
        },
        |i: int| (first + i) as i32,
    )
}

/// Read the two ends of a port range.
pub fn parse_port_range(text: &[u8]) -> (r: Option<(i32, i32)>)
    ensures
        match range_of(text@) {
            Some((first, last)) => r == Some((first as i32, last as i32)) && 0 <= first
                <= i32::MAX && 0 <= last <= i32::MAX,
            None => r.is_none(),
        },
{
    let (lo, hi) = trim_bounds(text);
    let t: Vec<u8> = copy_range(text, lo, hi);
    let e1: usize = find_from(t.as_slice(), 45, 0);
    if e1 >= t.len() {
        return None;
    }
    let e2: usize = find_from(t.as_slice(), 45, e1 + 1);
    let first = parse_decimal(t.as_slice(), 0, e1, 0x7fff_ffff);
    let second = parse_decimal(t.as_slice(), e1 + 1, e2, 0x7fff_ffff);
    match (first, second) {
        (Some(a), Some(b)) => Some((a as i32, b as i32)),
        _ => None,
    }
}

/// Is `ports` a well-formed port range?
pub fn is_port_range(ports: &str) -> (r: bool)
    ensures
        r == range_of(encode_utf8(ports@)).is_some(),
{
    parse_port_range(ports.as_bytes()).is_some()
}

/// The ports of a range such as `27500-27999`, both ends included.
pub fn get_data_ports(ports: String) -> (r: Vec<i32>)
    requires
        range_of(encode_utf8(ports@)).is_some(),
    ensures
        r@ == ports_between(
            range_of(encode_utf8(ports@)).unwrap().0,
            range_of(encode_utf8(ports@)).unwrap().1,
        ),
{
    let range = parse_port_range(ports.as_str().as_bytes());
    let (first, last) = range.unwrap();
    let mut out: Vec<i32> = Vec::new();
    if first > last {
        assert(out@ =~= ports_between(first as int, last as int));
        return out;
    }
    let mut p: i32 = first;
    while p < last
        invariant
            first <= p <= last,
            out@ == ports_between(first as int, p - 1),
        decreases last - p,
    {
        out.push(p);
        assert(out@ =~= ports_between(first as int, p as int));
        p += 1;
    }
    out.push(last);
    assert(out@ =~= ports_between(first as int, last as int));
    out
}

/// What one line of the user list holds.
#[derive(Debug, PartialEq, Eq)]
pub enum Record {
    /// Nothing: the line is empty before its comment.
    Blank,
    /// An account: name, password and role.
    Entry { name: Vec<u8>, pass: Vec<u8>, role: Vec<u8> },
    /// Fewer than three fields.
    Malformed,
}

/// The model of a record.
pub ghost enum RecordView {
    Blank,
    Entry { name: Seq<u8>, pass: Seq<u8>, role: Seq<u8> },
    Malformed,
}

impl View for Record {
    type V = RecordView;

    open spec fn view(&self) -> RecordView {
        match *self {
            Record::Blank => RecordView::Blank,
            Record::Entry { name, pass, role } => RecordView::Entry {
                name: name@,
                pass: pass@,
                role: role@,
            },
            Record::Malformed => RecordView::Malformed,
        }
    }
}

/// The byte that starts a comment.
pub open spec fn HASH() -> u8 {
    35
}

/// The record of a line: what stands before the first `#` is split at single
/// spaces, and the first three fields are name, password and role.
pub open spec fn record_of(line: Seq<u8>) -> RecordView {
    let t = line.subrange(0, find_byte(line, HASH(), 0));
    let e1 = find_byte(t, 32, 0);
    let e2 = find_byte(t, 32, e1 + 1);
    let e3 = find_byte(t, 32, e2 + 1);
    if t.len() == 0 {
        RecordView::Blank
    } else if e1 < t.len() && e2 < t.len() {
        RecordView::Entry {
            name: t.subrange(0, e1),
            pass: t.subrange(e1 + 1, e2),
            role: t.subrange(e2 + 1, e3),
        }
    } else {
        RecordView::Malformed
    }
}

/// Read one line of the user list.
pub fn parse_user_line(line: &[u8]) -> (r: Record)
    ensures
        r@ == record_of(line@),
{
    let end: usize = find_from(line, 35, 0);
    let t: Vec<u8> = copy_range(line, 0, end);
    if t.len() == 0 {
        return Record::Blank;
    }
    let e1: usize = find_from(t.as_slice(), 32, 0);
    if e1 >= t.len() {
        return Record::Malformed;
    }
    let e2: usize = find_from(t.as_slice(), 32, e1 + 1);
    if e2 >= t.len() {
        return Record::Malformed;
    }
    let e3: usize = find_from(t.as_slice(), 32, e2 + 1);
    Record::Entry {
        name: copy_range(t.as_slice(), 0, e1),
        pass: copy_range(t.as_slice(), e1 + 1, e2),
        role: copy_range(t.as_slice(), e2 + 1, e3),
    }
}

/// The root of the account `name` below the directory `base`.
pub open spec fn home_of(base: Seq<u8>, name: Seq<u8>) -> Seq<u8> {
    base + "/ftproot/".spec_bytes() + name
}

/// The account of a record, for a server that runs in `base`.
pub open spec fn account_of(
    name: Seq<u8>,
    pass: Seq<u8>,
    role: Seq<u8>,
    base: Seq<u8>,
) -> UserView {
    UserView { name, pass, role, path: home_of(base, name), cur_dir: home_of(base, name) }
}

/// The account `name` with its root, and its first directory, below `base`.
pub fn initialize_user(name: &[u8], pass: &[u8], role: &[u8], base: &[u8]) -> (r: User)
    ensures
        r@ == account_of(name@, pass@, role@, base@),
{
    let mut home: Vec<u8> = copy_bytes(base);
    append(&mut home, "/ftproot/".as_bytes());
    append(&mut home, name);
    let cur = copy_bytes(home.as_slice());
    User {
        name: copy_bytes(name),
        pass: copy_bytes(pass),
        role: copy_bytes(role),
        path: home,
        cur_dir: cur,
    }
}

/// The registry's content once `user` is entered: it takes the place of an
/// account of the same name, or the last place.
pub open spec fn entered_into(users: Seq<UserView>, user: UserView) -> Seq<UserView> {
    match position_from(users, user.name, 0) {
        Some(i) => users.update(i, user),
        None => users.push(user),
    }
}

/// The registry's content after the first `n` lines of the user list.
pub open spec fn listed(lines: Seq<Vec<u8>>, base: Seq<u8>, n: int) -> Seq<UserView>
    decreases n,
{
    if n <= 0 || n > lines.len() {
        Seq::empty()
    } else {
        match record_of(lines[n - 1]@) {
            RecordView::Entry { name, pass, role } => entered_into(
                listed(lines, base, n - 1),
                account_of(name, pass, role, base),
            ),
            _ => listed(lines, base, n - 1),
        }
    }
}

/// Is one of the first `n` lines malformed?
pub open spec fn malformed_before(lines: Seq<Vec<u8>>, n: int) -> bool {
    exists|i: int| 0 <= i < n && i < lines.len() && record_of(#[trigger] lines[i]@) is Malformed
}

/// Build the registry from the lines of the user list, for a server that
/// runs in `base`. A malformed line stops the work: its index comes back.
pub fn get_user_list(lines: &Vec<Vec<u8>>, base: &[u8]) -> (r: Result<Registry, usize>)
    ensures
        match r {
            Ok(registry) => !malformed_before(lines@, lines@.len() as int) && registry.wf()
                && registry@ == listed(lines@, base@, lines@.len() as int),
            Err(i) => i < lines@.len() && record_of(lines@[i as int]@) is Malformed
                && !malformed_before(lines@, i as int),
        },
{
    let mut registry = Registry::new();
    assert(registry@ =~= Seq::<UserView>::empty());
    let mut i: usize = 0;
    while i < lines.len()
        invariant
            i <= lines@.len(),
            registry.wf(),
            registry@ == listed(lines@, base@, i as int),
            !malformed_before(lines@, i as int),
        decreases lines@.len() - i,
    {
        match parse_user_line(lines[i].as_slice()) {
            Record::Blank => {},
            Record::Entry { name, pass, role } => {
                let user = initialize_user(name.as_slice(), pass.as_slice(), role.as_slice(), base);
                registry.insert(user);
            },
            Record::Malformed => {
                return Err(i);
            },
        }
        i += 1;
    }
    Ok(registry)
}

} // verus!
