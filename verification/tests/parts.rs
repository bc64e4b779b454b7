use ftp_server::addr::{port_addr, read_octet, to_ftp_port, push_dotted, push_encoded, DataAddress};
use ftp_server::command::{split_line, verb_of};
use ftp_server::config::{
    get_data_ports, get_user_list, initialize_user, is_port_range, parse_port_range,
    parse_user_line, Arguements, Record,
};
use ftp_server::listing::{listing, push_row, Entry};
use ftp_server::number::{parse_decimal, push_decimal};
use ftp_server::path::{components, is_under, render_path, resolve};
use ftp_server::ports::{DataPortPool, PoolError};
use ftp_server::reply::{format_line, Reply};
use ftp_server::session::Verb;
use ftp_server::text::{append, bytes_eq, copy_range, eq_ignore_case, find_from, trim_bounds};
use ftp_server::unique::{candidate, fresh_name, name_taken, stored_line, unique_name};
use ftp_server::user::{Registry, User};

#[test]
fn default_arguments() {
    let a = Arguements::new();
    assert_eq!(a.ftp_port, "2115");
    assert_eq!(a.service_port, "2185");
    assert!(!a.passive && !a.active && !a.debug && !a.verbose);
    assert_eq!(a.data_port_range, "27500-27999");
    assert!(a.run_test_file.is_none() && a.config_file.is_none() && a.log_file.is_none());
}

#[test]
fn data_port_ranges() {
    assert_eq!(get_data_ports("27500-27503".to_string()), vec![27500, 27501, 27502, 27503]);
    assert_eq!(get_data_ports(" 7-7\n".to_string()), vec![7]);
    assert_eq!(get_data_ports("5-1".to_string()), Vec::<i32>::new());
    assert_eq!(get_data_ports("1-3-9".to_string()), vec![1, 2, 3]);
    assert_eq!(get_data_ports(Arguements::new().data_port_range).len(), 500);
    assert_eq!(get_data_ports("2147483646-2147483647".to_string()), vec![2147483646, 2147483647]);
    assert_eq!(parse_port_range(b"27500-27999"), Some((27500, 27999)));
    assert_eq!(parse_port_range(b"0012-0013"), Some((12, 13)));
    assert_eq!(parse_port_range(b"27500"), None);
    assert_eq!(parse_port_range(b"a-b"), None);
    assert_eq!(parse_port_range(b"1 - 5"), None);
    assert_eq!(parse_port_range(b"-5"), None);
    assert_eq!(parse_port_range(b"5-"), None);
    assert_eq!(parse_port_range(b"1-2147483648"), None);
    assert!(is_port_range("1-2"));
    assert!(!is_port_range(""));
}

#[test]
fn user_list_lines() {
    assert_eq!(parse_user_line(b""), Record::Blank);
    assert_eq!(parse_user_line(b"# only a comment"), Record::Blank);
    assert_eq!(
        parse_user_line(b"alice secret admin"),
        Record::Entry { name: b"alice".to_vec(), pass: b"secret".to_vec(), role: b"admin".to_vec() }
    );
    assert_eq!(
        parse_user_line(b"bob pw user # the second"),
        Record::Entry { name: b"bob".to_vec(), pass: b"pw".to_vec(), role: b"user".to_vec() }
    );
    assert_eq!(parse_user_line(b"alice secret"), Record::Malformed);
    assert_eq!(parse_user_line(b"alice"), Record::Malformed);
}

#[test]
fn user_list_builds_the_registry() {
    let lines = vec![
        b"# users".to_vec(),
        b"alice secret admin".to_vec(),
        b"".to_vec(),
        b"bob pw user".to_vec(),
        b"alice other user".to_vec(),
    ];
    let reg = get_user_list(&lines, b"/home/ftp").unwrap();
    assert_eq!(reg.len(), 2);
    assert!(reg.contains(b"alice") && reg.contains(b"bob") && !reg.contains(b"carol"));
    assert_eq!(reg.find(b"alice"), Some(0));
    assert_eq!(reg.find(b"bob"), Some(1));
    let alice = reg.get(b"alice").unwrap();
    assert_eq!(alice.pass, b"other".to_vec());
    assert_eq!(alice.role, b"user".to_vec());
    assert_eq!(alice.path, b"/home/ftp/ftproot/alice".to_vec());
    assert_eq!(alice.cur_dir, b"/home/ftp/ftproot/alice".to_vec());
    assert!(reg.get(b"carol").is_none());
    let bad = vec![b"alice secret admin".to_vec(), b"broken".to_vec(), b"x".to_vec()];
    assert_eq!(get_user_list(&bad, b"/home/ftp").err(), Some(1));
}

#[test]
fn accounts() {
    let u = User::new();
    assert!(u.name.is_empty() && u.pass.is_empty() && u.role.is_empty());
    assert!(u.path.is_empty() && u.cur_dir.is_empty());
    let v = initialize_user(b"n", b"p", b"r", b"/b");
    assert_eq!(v.path, b"/b/ftproot/n".to_vec());
    assert_eq!(v.duplicate(), v);
    let mut reg = Registry::new();
    assert_eq!(reg.len(), 0);
    reg.insert(v);
    assert_eq!(reg.len(), 1);
    assert_eq!(reg.find(b"N"), None);
}

#[test]
fn address_encoding() {
    assert_eq!(to_ftp_port(107, 203), 27595);
    assert_eq!(to_ftp_port(0, 21), 21);
    assert_eq!(to_ftp_port(255, 255), 65535);
    assert_eq!(
        port_addr(b"127,0,0,1,107,203"),
        Some(DataAddress { h1: 127, h2: 0, h3: 0, h4: 1, port: 27595 })
    );
    assert_eq!(port_addr(b""), None);
    assert_eq!(port_addr(b"127,0,0,1,107"), None);
    assert_eq!(port_addr(b"127,0,0,1,107,203,4"), None);
    assert_eq!(port_addr(b"127,0,0,1,107,"), None);
    assert_eq!(port_addr(b"127,0,0,1,300,1"), None);
    assert_eq!(port_addr(b"127,0,0,x,1,1"), None);
    assert_eq!(port_addr(b"127, 0,0,1,1,1"), None);
    assert_eq!(read_octet(b"12,34", 3), (Some(34), 5));
    assert_eq!(read_octet(b"12,34", 0), (Some(12), 2));
    assert_eq!(read_octet(b"999", 0), (None, 3));
    let a = DataAddress { h1: 10, h2: 20, h3: 30, h4: 40, port: 2115 };
    let mut out = b"(".to_vec();
    push_encoded(&mut out, a);
    assert_eq!(out, b"(10,20,30,40,8,67".to_vec());
    assert_eq!(port_addr(&out[1..]), Some(a));
    let mut dotted = Vec::new();
    push_dotted(&mut dotted, a);
    assert_eq!(dotted, b"10.20.30.40".to_vec());
}

#[test]
fn decimal_numbers() {
    assert_eq!(parse_decimal(b"x255y", 1, 4, 255), Some(255));
    assert_eq!(parse_decimal(b"256", 0, 3, 255), None);
    assert_eq!(parse_decimal(b"0007", 0, 4, 255), Some(7));
    assert_eq!(parse_decimal(b"", 0, 0, 255), None);
    assert_eq!(parse_decimal(b"+5", 0, 2, 255), None);
    assert_eq!(parse_decimal(b"99999999999999999999999", 0, 23, 4294967295), None);
    assert_eq!(parse_decimal(b"4294967295", 0, 10, 4294967295), Some(4294967295));
    let mut out = Vec::new();
    push_decimal(&mut out, 0);
    push_decimal(&mut out, 9);
    push_decimal(&mut out, 10);
    push_decimal(&mut out, 4294967295);
    assert_eq!(out, b"09104294967295".to_vec());
}

#[test]
fn reply_lines() {
    assert_eq!(format_line(7, b"x"), b"007 x\r\n".to_vec());
    assert_eq!(format_line(999, b""), b"999 \r\n".to_vec());
    assert_eq!(Reply::NotLoggedIn.line(), b"530 Not Logged In\r\n".to_vec());
    assert_eq!(Reply::System.line(), b"215 UNIX Type: L8\r\n".to_vec());
    assert_eq!(Reply::Unrecognized.line(), b"500 Invalid Command\r\n".to_vec());
    let all = [
        (Reply::LoggedIn, 230), (Reply::UnknownUser, 530), (Reply::NotLoggedIn, 530),
        (Reply::BadSequence, 503), (Reply::Unrecognized, 500), (Reply::Help, 214),
        (Reply::System, 215), (Reply::Goodbye, 221), (Reply::Accepted, 200),
        (Reply::PendingRename, 350), (Reply::FileActionDone, 250), (Reply::Opening, 150),
        (Reply::TransferComplete, 226), (Reply::CannotOpenData, 425),
        (Reply::TransferAborted, 426), (Reply::FileError, 550),
    ];
    for (r, code) in all {
        assert_eq!(r.code(), code);
        let line = r.line();
        assert_eq!(&line[..4], format!("{} ", code).as_bytes());
        assert!(line.ends_with(b"\r\n"));
        assert_eq!(&line[4..line.len() - 2], &r.text()[..]);
    }
}

#[test]
fn command_lines() {
    assert_eq!(split_line(b"  UsEr alice \r\n"), (Verb::User, b"alice".to_vec()));
    assert_eq!(split_line(b"LIST"), (Verb::List, Vec::new()));
    assert_eq!(split_line(b"stor a b  c"), (Verb::Stor, b"a b  c".to_vec()));
    assert_eq!(split_line(b""), (Verb::Unknown, Vec::new()));
    assert_eq!(split_line(b"NOOP"), (Verb::Unknown, Vec::new()));
    for (w, v) in [
        (&b"user"[..], Verb::User), (b"PASS", Verb::Pass), (b"help", Verb::Help),
        (b"?", Verb::Help), (b"syst", Verb::Syst), (b"quit", Verb::Quit), (b"exit", Verb::Quit),
        (b"LogOut", Verb::Quit), (b"appe", Verb::Appe), (b"cdup", Verb::Cdup),
        (b"cwd", Verb::Cwd), (b"cd", Verb::Cwd), (b"dele", Verb::Dele), (b"list", Verb::List),
        (b"mkd", Verb::Mkd), (b"mkdir", Verb::Mkd), (b"pasv", Verb::Pasv), (b"port", Verb::Port),
        (b"retr", Verb::Retr), (b"rnfr", Verb::Rnfr), (b"rnto", Verb::Rnto),
        (b"stor", Verb::Stor), (b"stou", Verb::Stou), (b"type", Verb::Type),
        (b"users", Verb::Unknown), (b"", Verb::Unknown),
    ] {
        assert_eq!(verb_of(w), v);
    }
}

#[test]
fn byte_helpers() {
    assert!(bytes_eq(b"ab", b"ab") && !bytes_eq(b"ab", b"ac") && !bytes_eq(b"ab", b"abc"));
    assert!(eq_ignore_case(b"AbC", b"abc") && !eq_ignore_case(b"abc", b"ABC"));
    assert_eq!(copy_range(b"hello", 1, 3), b"el".to_vec());
    assert_eq!(find_from(b"a,b,c", b',', 2), 3);
    assert_eq!(find_from(b"a,b,c", b',', 4), 5);
    assert_eq!(trim_bounds(b" \t x y \r\n"), (3, 6));
    assert_eq!(trim_bounds(b"   "), (3, 3));
    let mut v = b"ab".to_vec();
    append(&mut v, b"cd");
    assert_eq!(v, b"abcd".to_vec());
}

#[test]
fn path_resolution() {
    let root = b"/srv/ftproot/alice";
    assert_eq!(resolve(root, root, b""), Some(root.to_vec()));
    assert_eq!(resolve(root, root, b"a//b/./c/"), Some(b"/srv/ftproot/alice/a/b/c".to_vec()));
    assert_eq!(resolve(root, b"/srv/ftproot/alice/a/b", b"../.."), Some(root.to_vec()));
    assert_eq!(resolve(root, b"/srv/ftproot/alice/a/b", b"../../.."), None);
    assert_eq!(resolve(root, root, b"../alice2"), None);
    assert_eq!(resolve(root, root, b"../alice/x"), Some(b"/srv/ftproot/alice/x".to_vec()));
    assert_eq!(resolve(root, root, b"/srv/ftproot/alice/../alice/y"), Some(b"/srv/ftproot/alice/y".to_vec()));
    assert_eq!(resolve(root, root, b"/srv/ftproot/alicex"), None);
    assert_eq!(resolve(root, root, b"..."), Some(b"/srv/ftproot/alice/...".to_vec()));
    assert_eq!(resolve(b"/", b"/", b"../.."), Some(b"/".to_vec()));
    assert_eq!(resolve(b"/", b"/a", b"b"), Some(b"/a/b".to_vec()));
    assert_eq!(components(b"/a/./b/../c"), vec![b"a".to_vec(), b"c".to_vec()]);
    assert!(is_under(&components(b"/a"), &components(b"/a/b")));
    assert!(is_under(&components(b"/a"), &components(b"/a")));
    assert!(!is_under(&components(b"/a/b"), &components(b"/a")));
    assert!(!is_under(&components(b"/a"), &components(b"/ab")));
    assert_eq!(render_path(&Vec::new()), b"/".to_vec());
    assert_eq!(render_path(&components(b"x/y")), b"/x/y".to_vec());
}

#[test]
fn port_pool() {
    let mut pool = DataPortPool::new(&vec![27500, 27501, 27500, 27502]);
    assert_eq!(pool.available(), 3);
    assert_eq!(pool.allocate(), Ok(27500));
    assert_eq!(pool.allocate(), Ok(27501));
    assert_eq!(pool.allocate(), Ok(27502));
    assert_eq!(pool.held, vec![27500, 27501, 27502]);
    assert_eq!(pool.allocate(), Err(PoolError::Exhausted));
    assert_eq!(pool.available(), 0);
    assert!(!pool.release(1234));
    assert!(pool.release(27501));
    assert!(!pool.release(27501));
    assert_eq!(pool.held, vec![27500, 27502]);
    assert_eq!(pool.allocate(), Ok(27501));
    assert!(pool.release(27500));
    assert!(pool.release(27502));
    assert_eq!(pool.free, vec![27500, 27502]);
    let mut empty = DataPortPool::new(&Vec::new());
    assert_eq!(empty.allocate(), Err(PoolError::Exhausted));
}

#[test]
fn unique_names() {
    assert_eq!(unique_name(7), b"stou.7".to_vec());
    assert_eq!(unique_name(4294967295), b"stou.4294967295".to_vec());
    let taken = vec![b"stou.7".to_vec(), b"a".to_vec()];
    assert!(name_taken(&taken, b"a") && !name_taken(&taken, b"b"));
    assert_eq!(candidate(&taken, 7), None);
    assert_eq!(candidate(&taken, 8), Some(b"stou.8".to_vec()));
    assert_eq!(fresh_name(&taken, 0), None);
    let mut seen = Vec::new();
    for _ in 0..8 {
        let name = fresh_name(&taken, 1000).unwrap();
        assert!(name.starts_with(b"stou."));
        assert!(name[5..].iter().all(|b| b.is_ascii_digit()));
        assert!(!taken.contains(&name));
        seen.push(name);
    }
    seen.sort();
    seen.dedup();
    assert!(seen.len() > 1);
    assert_eq!(stored_line(b"stou.8"), b"226 Transfer complete: stou.8\r\n".to_vec());
}

#[test]
fn listing_rows() {
    let entries = vec![
        Entry { name: b"notes.txt".to_vec(), size: 1204, is_dir: false },
        Entry { name: b"sub".to_vec(), size: 0, is_dir: true },
    ];
    assert_eq!(listing(&entries), b"notes.txt\t1204\tfile\r\nsub\t0\tdir\r\n".to_vec());
    assert_eq!(listing(&Vec::new()), Vec::<u8>::new());
    let mut out = b">".to_vec();
    push_row(&mut out, &Entry { name: b"big".to_vec(), size: 18446744073709551615, is_dir: false });
    assert_eq!(out, b">big\t18446744073709551615\tfile\r\n".to_vec());
}

#[test]
fn fresh_name_is_owed_where_nothing_is_taken() {
    let none: Vec<Vec<u8>> = Vec::new();
    for _ in 0..16 {
        let name = fresh_name(&none, 1).unwrap();
        assert!(name.starts_with(b"stou.") && name.len() > 5);
    }
    let other = vec![b"readme".to_vec(), b"stou".to_vec(), b"stou.x".to_vec()];
    assert!(fresh_name(&other, 1).is_some());
    assert_eq!(fresh_name(&other, 0), None);
}
