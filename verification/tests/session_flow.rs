use ftp_server::addr::DataAddress;
use ftp_server::config::initialize_user;
use ftp_server::reply::Reply;
use ftp_server::session::{Action, Outcome, Session, TransferMode, TransferType, Verb};
use ftp_server::user::Registry;

fn server() -> DataAddress {
    DataAddress { h1: 127, h2: 0, h3: 0, h4: 1, port: 27500 }
}

fn registry() -> Registry {
    let mut r = Registry::new();
    r.insert(initialize_user(b"alice", b"secret", b"admin", b"/srv"));
    r.insert(initialize_user(b"bob", b"hunter2", b"user", b"/srv"));
    r
}

fn logged_in(name: &[u8]) -> Session {
    let mut s = Session::new(server());
    let a = s.handle(&registry(), Verb::User, name);
    assert_eq!(a, Action::Send(Reply::LoggedIn));
    s
}

#[test]
fn fresh_session_state() {
    let s = Session::new(server());
    assert!(!s.authenticated);
    assert!(s.user.is_none());
    assert_eq!(s.mode, TransferMode::Passive(27500));
    assert_eq!(s.transfer_type, TransferType::Binary);
    assert!(s.pending_rename_source.is_none());
    assert_eq!(s.login_attempts_remaining, 3);
    assert_eq!(s.greeting().line(), b"220 FTP Server 127.0.0.1\r\n".to_vec());
}

#[test]
fn end_to_end_listing() {
    let reg = registry();
    let mut s = Session::new(server());
    assert!(s.greeting().line().starts_with(b"220 "));
    let a = s.handle_line(&reg, b"USER alice\r\n");
    assert_eq!(a, Action::Send(Reply::LoggedIn));
    assert_eq!(a.completion(Outcome::Done).line(), b"230 User logged in\r\n".to_vec());
    let a = s.handle_line(&reg, b"PASV\r\n");
    assert_eq!(a, Action::Send(Reply::EnteringPassive(server())));
    assert_eq!(
        a.completion(Outcome::Done).line(),
        b"227 Entering Passive Mode (127,0,0,1,107,108)\r\n".to_vec()
    );
    assert_eq!(s.mode, TransferMode::Passive(27500));
    let a = s.handle_line(&reg, b"LIST\r\n");
    assert_eq!(a, Action::SendList(b"/srv/ftproot/alice".to_vec()));
    assert_eq!(a.preliminary(), Some(Reply::Opening));
    assert_eq!(a.completion(Outcome::Done).code(), 226);
    let a = s.handle_line(&reg, b"quit\r\n");
    assert_eq!(a, Action::Close(Reply::Goodbye));
    assert_eq!(a.completion(Outcome::Done).line(), b"221 GOODBYE\r\n".to_vec());
}

#[test]
fn known_identity_then_every_command_passes_the_gate() {
    let reg = registry();
    let verbs = [
        Verb::User, Verb::Pass, Verb::Help, Verb::Syst, Verb::Quit, Verb::Appe, Verb::Cdup,
        Verb::Cwd, Verb::Dele, Verb::List, Verb::Mkd, Verb::Pasv, Verb::Port, Verb::Retr,
        Verb::Rnfr, Verb::Rnto, Verb::Stor, Verb::Stou, Verb::Type, Verb::Unknown,
    ];
    for v in verbs {
        let mut s = logged_in(b"bob");
        assert_eq!(s.current_directory, b"/srv/ftproot/bob".to_vec());
        let a = s.handle(&reg, v, b"x");
        assert_ne!(a, Action::Send(Reply::NotLoggedIn));
    }
}

#[test]
fn three_unknown_identities_end_the_session() {
    let reg = registry();
    let mut s = Session::new(server());
    assert_eq!(s.handle_line(&reg, b"USER mallory"), Action::Send(Reply::UnknownUser));
    assert_eq!(s.login_attempts_remaining, 2);
    assert_eq!(s.handle_line(&reg, b"USER eve"), Action::Send(Reply::UnknownUser));
    assert_eq!(s.login_attempts_remaining, 1);
    let last = s.handle_line(&reg, b"USER trent");
    assert_eq!(last, Action::Close(Reply::UnknownUser));
    assert_eq!(last.completion(Outcome::Done).code(), 530);
    assert_eq!(s.login_attempts_remaining, 0);
    assert!(!s.is_logged_in());
}

#[test]
fn commands_before_login_are_refused() {
    let reg = registry();
    let gated = [
        Verb::Appe, Verb::Cdup, Verb::Cwd, Verb::Dele, Verb::List, Verb::Mkd, Verb::Pasv,
        Verb::Port, Verb::Retr, Verb::Rnfr, Verb::Rnto, Verb::Stor, Verb::Stou, Verb::Type,
    ];
    for v in gated {
        assert!(v.requires_login());
        let mut s = Session::new(server());
        let a = s.handle(&reg, v, b"file");
        assert_eq!(a, Action::Send(Reply::NotLoggedIn));
        assert_eq!(Reply::NotLoggedIn.code(), 530);
        assert_eq!(s, Session::new(server()));
    }
    let open = [Verb::User, Verb::Pass, Verb::Help, Verb::Syst, Verb::Quit, Verb::Unknown];
    for v in open {
        assert!(!v.requires_login());
    }
    let mut s = Session::new(server());
    assert_eq!(s.handle(&reg, Verb::Help, b""), Action::Send(Reply::Help));
    assert_eq!(s.handle(&reg, Verb::Syst, b""), Action::Send(Reply::System));
    assert_eq!(s.handle(&reg, Verb::Pass, b"pw"), Action::Send(Reply::BadSequence));
    assert_eq!(s.handle(&reg, Verb::Unknown, b""), Action::Send(Reply::Unrecognized));
    assert_eq!(s.handle(&reg, Verb::Quit, b""), Action::Close(Reply::Goodbye));
}

#[test]
fn second_identity_is_a_bad_sequence() {
    let reg = registry();
    let mut s = logged_in(b"alice");
    assert_eq!(s.handle_line(&reg, b"USER bob"), Action::Send(Reply::BadSequence));
    assert_eq!(s.user.as_ref().unwrap().name, b"alice".to_vec());
    assert_eq!(s.handle_line(&reg, b"PASS anything"), Action::Send(Reply::LoggedIn));
}

#[test]
fn paths_outside_the_root_are_refused() {
    let reg = registry();
    let mut s = logged_in(b"alice");
    for line in [
        &b"RETR ../bob/secret"[..],
        b"STOR ../../etc/passwd",
        b"APPE /etc/passwd",
        b"DELE ..",
        b"LIST /",
        b"MKD a/../../x",
        b"CWD /srv/ftproot/bob",
        b"RNFR ../bob/file",
        b"CDUP",
    ] {
        let a = s.handle_line(&reg, line);
        assert_eq!(a, Action::Send(Reply::FileError));
        assert_eq!(a.completion(Outcome::Done).code(), 550);
    }
    assert_eq!(s.current_directory, b"/srv/ftproot/alice".to_vec());
    assert!(s.pending_rename_source.is_none());
}

#[test]
fn paths_inside_the_root_are_resolved() {
    let reg = registry();
    let mut s = logged_in(b"alice");
    assert_eq!(
        s.handle_line(&reg, b"RETR docs/./a/../b.txt"),
        Action::SendFile(b"/srv/ftproot/alice/docs/b.txt".to_vec())
    );
    assert_eq!(
        s.handle_line(&reg, b"stor new file.bin"),
        Action::ReceiveFile { path: b"/srv/ftproot/alice/new file.bin".to_vec(), append: false }
    );
    assert_eq!(
        s.handle_line(&reg, b"APPE log"),
        Action::ReceiveFile { path: b"/srv/ftproot/alice/log".to_vec(), append: true }
    );
    assert_eq!(
        s.handle_line(&reg, b"DELE /srv/ftproot/alice/old"),
        Action::Remove(b"/srv/ftproot/alice/old".to_vec())
    );
    assert_eq!(
        s.handle_line(&reg, b"mkdir sub"),
        Action::CreateDirectory(b"/srv/ftproot/alice/sub".to_vec())
    );
    assert_eq!(
        s.handle_line(&reg, b"STOU"),
        Action::ReceiveUnique { directory: b"/srv/ftproot/alice".to_vec() }
    );
    assert_eq!(
        s.handle_line(&reg, b"cd sub"),
        Action::EnterDirectory(b"/srv/ftproot/alice/sub".to_vec())
    );
}

#[test]
fn directory_navigation() {
    let reg = registry();
    let mut s = logged_in(b"alice");
    let a = s.handle_line(&reg, b"CWD sub/deeper");
    assert_eq!(a, Action::EnterDirectory(b"/srv/ftproot/alice/sub/deeper".to_vec()));
    assert_eq!(s.current_directory, b"/srv/ftproot/alice".to_vec());
    assert_eq!(s.enter_directory(b"/srv/ftproot/alice/sub/deeper", false), Reply::FileError);
    assert_eq!(s.current_directory, b"/srv/ftproot/alice".to_vec());
    assert_eq!(s.enter_directory(b"/srv/ftproot/alice/sub/deeper", true), Reply::FileActionDone);
    assert_eq!(s.current_directory, b"/srv/ftproot/alice/sub/deeper".to_vec());
    assert_eq!(
        s.handle_line(&reg, b"CDUP"),
        Action::EnterDirectory(b"/srv/ftproot/alice/sub".to_vec())
    );
    assert_eq!(s.enter_directory(b"/srv/ftproot", true), Reply::FileError);
    assert_eq!(s.current_directory, b"/srv/ftproot/alice/sub/deeper".to_vec());
    let mut fresh = Session::new(server());
    assert_eq!(fresh.enter_directory(b"/srv/ftproot/alice", true), Reply::FileError);
}

#[test]
fn rename_takes_source_then_target() {
    let reg = registry();
    let mut s = logged_in(b"alice");
    assert_eq!(s.handle_line(&reg, b"RNTO b.txt"), Action::Send(Reply::BadSequence));
    let a = s.handle_line(&reg, b"RNFR a.txt");
    assert_eq!(a, Action::Send(Reply::PendingRename));
    assert_eq!(a.completion(Outcome::Done).code(), 350);
    assert_eq!(s.pending_rename_source, Some(b"/srv/ftproot/alice/a.txt".to_vec()));
    assert_eq!(s.handle_line(&reg, b"TYPE I"), Action::Send(Reply::Accepted));
    assert_eq!(s.pending_rename_source, Some(b"/srv/ftproot/alice/a.txt".to_vec()));
    let a = s.handle_line(&reg, b"RNTO b.txt");
    assert_eq!(
        a,
        Action::Move {
            from: b"/srv/ftproot/alice/a.txt".to_vec(),
            to: b"/srv/ftproot/alice/b.txt".to_vec(),
        }
    );
    assert_eq!(a.preliminary(), None);
    assert_eq!(a.completion(Outcome::Done).code(), 250);
    assert_eq!(a.completion(Outcome::Failed).code(), 550);
    assert!(s.pending_rename_source.is_none());
    let again = s.handle_line(&reg, b"RNTO c.txt");
    assert_eq!(again, Action::Send(Reply::BadSequence));
    assert_eq!(again.completion(Outcome::Done).code(), 503);
}

#[test]
fn rename_target_outside_the_root_clears_the_source() {
    let reg = registry();
    let mut s = logged_in(b"alice");
    assert_eq!(s.handle_line(&reg, b"RNFR a.txt"), Action::Send(Reply::PendingRename));
    assert_eq!(s.handle_line(&reg, b"RNTO ../bob/a.txt"), Action::Send(Reply::FileError));
    assert!(s.pending_rename_source.is_none());
}

#[test]
fn active_mode_records_the_peer() {
    let reg = registry();
    let mut s = logged_in(b"alice");
    let a = s.handle_line(&reg, b"PORT 192,168,1,20,107,203");
    assert_eq!(a, Action::Send(Reply::Accepted));
    assert_eq!(a.completion(Outcome::Done).code(), 200);
    assert_eq!(
        s.mode,
        TransferMode::Active(DataAddress { h1: 192, h2: 168, h3: 1, h4: 20, port: 27595 })
    );
    assert_eq!(s.handle_line(&reg, b"PORT 192,168,1,20,107"), Action::Send(Reply::Unrecognized));
    assert_eq!(s.handle_line(&reg, b"PORT 192,168,1,256,1,1"), Action::Send(Reply::Unrecognized));
    assert_eq!(
        s.mode,
        TransferMode::Active(DataAddress { h1: 192, h2: 168, h3: 1, h4: 20, port: 27595 })
    );
    assert_eq!(s.handle_line(&reg, b"PASV"), Action::Send(Reply::EnteringPassive(server())));
    assert_eq!(s.mode, TransferMode::Passive(27500));
}

#[test]
fn transfer_type_commands() {
    let reg = registry();
    let mut s = logged_in(b"alice");
    assert_eq!(s.handle_line(&reg, b"TYPE a"), Action::Send(Reply::Accepted));
    assert_eq!(s.transfer_type, TransferType::Ascii);
    assert_eq!(s.handle_line(&reg, b"TYPE I"), Action::Send(Reply::Accepted));
    assert_eq!(s.transfer_type, TransferType::Binary);
    assert_eq!(s.handle_line(&reg, b"TYPE X"), Action::Send(Reply::Unrecognized));
    assert_eq!(s.transfer_type, TransferType::Binary);
}

#[test]
fn transfer_outcomes() {
    let list = Action::SendList(b"/srv/ftproot/alice".to_vec());
    assert!(list.transfers());
    assert_eq!(list.completion(Outcome::Done), Reply::TransferComplete);
    assert_eq!(list.completion(Outcome::NoDataConnection), Reply::CannotOpenData);
    assert_eq!(list.completion(Outcome::NoDataConnection).code(), 425);
    assert_eq!(list.completion(Outcome::ConnectionBroken).code(), 426);
    assert_eq!(list.completion(Outcome::Failed).code(), 550);
    let remove = Action::Remove(b"/srv/ftproot/alice/x".to_vec());
    assert!(!remove.transfers());
    assert_eq!(remove.preliminary(), None);
    assert_eq!(remove.completion(Outcome::Done), Reply::FileActionDone);
    assert_eq!(remove.completion(Outcome::NoDataConnection), Reply::FileError);
    assert_eq!(remove.completion(Outcome::ConnectionBroken), Reply::FileError);
    let unique = Action::ReceiveUnique { directory: b"/srv".to_vec() };
    assert_eq!(unique.preliminary(), Some(Reply::Opening));
    assert_eq!(Reply::Opening.code(), 150);
}

#[test]
fn sessions_do_not_share_navigation() {
    let reg = registry();
    let mut a = logged_in(b"alice");
    let mut b = logged_in(b"alice");
    let mut c = logged_in(b"bob");
    assert_eq!(a.enter_directory(b"docs", true), Reply::FileActionDone);
    assert_eq!(a.current_directory, b"/srv/ftproot/alice/docs".to_vec());
    assert_eq!(b.current_directory, b"/srv/ftproot/alice".to_vec());
    assert_eq!(c.current_directory, b"/srv/ftproot/bob".to_vec());
    assert_eq!(reg.get(b"alice").unwrap().cur_dir, b"/srv/ftproot/alice".to_vec());
    assert_eq!(
        b.handle_line(&reg, b"RETR f"),
        Action::SendFile(b"/srv/ftproot/alice/f".to_vec())
    );
    assert_eq!(
        c.handle_line(&reg, b"RETR /srv/ftproot/alice/docs/f"),
        Action::Send(Reply::FileError)
    );
}
