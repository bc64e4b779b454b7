//! The state of one control connection and its transition function.
//!
//! A session takes one command at a time and answers with an [`Action`]: a
//! reply to send, or a file or transfer operation for the caller to perform.
//! An identity found in the registry logs the session in at once; a password
//! is never asked for, and the password command only confirms a login.

use vstd::prelude::*;
use vstd::string::StringSliceAdditionalSpecFns;
use crate::addr::{DataAddress, address_of, port_addr};
use crate::command::{verb_named, word_of, argument_of, split_line};
use crate::path::{confined, resolve};
use crate::reply::Reply;
use crate::text::{lowered, eq_ignore_case, copy_bytes};
use crate::user::{User, UserView, Registry, lookup};

verus! {

/// Which side opens the data connection.
#[derive(Clone, Copy, Debug, PartialEq, Eq, Structural)]
pub enum TransferMode {
    /// The server listens on this port.
    Passive(u16),
    /// The server connects to this address.
    Active(DataAddress),
}

/// How the payload is represented.
#[derive(Clone, Copy, Debug, PartialEq, Eq, Structural)]
pub enum TransferType {
    Ascii,
    Binary,
}

/// The commands that the server knows.
#[derive(Clone, Copy, Debug, PartialEq, Eq, Structural)]
pub enum Verb {
    User,
    Pass,
    Help,
    Syst,
    Quit,
    Appe,
    Cdup,
    Cwd,
    Dele,
    List,
    Mkd,
    Pasv,
    Port,
    Retr,
    Rnfr,
    Rnto,
    Stor,
    Stou,
    Type,
    Unknown,
}

/// What the caller does after a command.
#[derive(Debug, PartialEq, Eq)]
pub enum Action {
    /// Send the reply and read the next command.
    Send(Reply),
    /// Send the reply and end the session.
    Close(Reply),
    /// Send a listing of the directory over the data connection.
    SendList(Vec<u8>),
    /// Send the file's content over the data connection.
    SendFile(Vec<u8>),
    /// Write what the data connection delivers to the file.
    ReceiveFile { path: Vec<u8>, append: bool },
    /// Write what the data connection delivers to a new file in the directory.
    ReceiveUnique { directory: Vec<u8> },
    /// Remove the file.
    Remove(Vec<u8>),
    /// Rename `from` to `to`.
    Move { from: Vec<u8>, to: Vec<u8> },
    /// Create the directory.
    CreateDirectory(Vec<u8>),
    /// Make the directory the current one, if it exists.
    EnterDirectory(Vec<u8>),
}

/// The model of an action.
pub ghost enum ActionView {
    Send(Reply),
    Close(Reply),
    SendList(Seq<u8>),
    SendFile(Seq<u8>),
    ReceiveFile { path: Seq<u8>, append: bool },
    ReceiveUnique { directory: Seq<u8> },
    Remove(Seq<u8>),
    Move { from: Seq<u8>, to: Seq<u8> },
    CreateDirectory(Seq<u8>),
    EnterDirectory(Seq<u8>),
}

impl View for Action {
    type V = ActionView;

    open spec fn view(&self) -> ActionView {
        match *self {
            Action::Send(r) => ActionView::Send(r),
            Action::Close(r) => ActionView::Close(r),
            Action::SendList(p) => ActionView::SendList(p@),
            Action::SendFile(p) => ActionView::SendFile(p@),
            Action::ReceiveFile { path, append } => ActionView::ReceiveFile { path: path@, append },
            Action::ReceiveUnique { directory } => ActionView::ReceiveUnique {
                directory: directory@,
            },
            Action::Remove(p) => ActionView::Remove(p@),
            Action::Move { from, to } => ActionView::Move { from: from@, to: to@ },
            Action::CreateDirectory(p) => ActionView::CreateDirectory(p@),
            Action::EnterDirectory(p) => ActionView::EnterDirectory(p@),
        }
    }
}

/// The state of one control connection.
#[derive(Debug, PartialEq, Eq)]
pub struct Session {
    pub authenticated: bool,
    pub user: Option<User>,
    pub mode: TransferMode,
    pub transfer_type: TransferType,
    pub current_directory: Vec<u8>,
    pub pending_rename_source: Option<Vec<u8>>,
    pub login_attempts_remaining: u32,
    /// The server's address and the data port reserved for this session.
    pub server: DataAddress,
}

/// The model of a session.
pub ghost struct SessionView {
    pub authenticated: bool,
    pub user: Option<UserView>,
    pub mode: TransferMode,
    pub transfer_type: TransferType,
    pub current_directory: Seq<u8>,
    pub pending_rename_source: Option<Seq<u8>>,
    pub login_attempts_remaining: u32,
    pub server: DataAddress,
}

impl View for Session {
    type V = SessionView;

    open spec fn view(&self) -> SessionView {
        SessionView {
            authenticated: self.authenticated,
            user: match self.user {
                Some(u) => Some(u@),
                None => None,
            },
            mode: self.mode,
            transfer_type: self.transfer_type,
            current_directory: self.current_directory@,
            pending_rename_source: match self.pending_rename_source {
                Some(p) => Some(p@),
                None => None,
            },
            login_attempts_remaining: self.login_attempts_remaining,
            server: self.server,
        }
    }
}

/// The number of failed identifications after which a session ends.
pub const LOGIN_ATTEMPTS: u32 = 3;

/// May the command run only after a login?
pub open spec fn needs_login(verb: Verb) -> bool {
    match verb {
        Verb::User | Verb::Pass | Verb::Help | Verb::Syst | Verb::Quit | Verb::Unknown => false,
        _ => true,
    }
}

/// Has the session an identity?
pub open spec fn logged_in(s: SessionView) -> bool {
    s.authenticated && s.user.is_some()
}

/// The path that `arg` names for the session's user, if it lies under the
/// user's root.
pub open spec fn target(s: SessionView, arg: Seq<u8>) -> Option<Seq<u8>>
    recommends
        s.user.is_some(),
{
    confined(s.user.unwrap().path, s.current_directory, arg)
}

/// The transfer type that an argument of the type command names.
pub open spec fn type_named(arg: Seq<u8>) -> Option<TransferType> {
    if lowered(arg) == "a".spec_bytes() {
        Some(TransferType::Ascii)
    } else if lowered(arg) == "i".spec_bytes() {
        Some(TransferType::Binary)
    } else {
        None
    }
}

/// The operation that a command with a path argument asks for.
pub open spec fn operation(verb: Verb, path: Seq<u8>) -> ActionView {
    match verb {
        Verb::List => ActionView::SendList(path),
        Verb::Retr => ActionView::SendFile(path),
        Verb::Stor => ActionView::ReceiveFile { path, append: false },
        Verb::Appe => ActionView::ReceiveFile { path, append: true },
        Verb::Stou => ActionView::ReceiveUnique { directory: path },
        Verb::Dele => ActionView::Remove(path),
        Verb::Mkd => ActionView::CreateDirectory(path),
        _ => ActionView::EnterDirectory(path),
    }
}

/// The argument that a path command resolves: the parent for the
/// parent-directory command, the current directory for a unique store, the
/// command's own argument otherwise.
pub open spec fn path_argument(verb: Verb, arg: Seq<u8>) -> Seq<u8> {
    match verb {
        Verb::Cdup => "..".spec_bytes(),
        Verb::Stou => Seq::empty(),
        _ => arg,
    }
}

/// The session after an identity command, and what is sent.
pub open spec fn identify(s: SessionView, registry: Seq<UserView>, name: Seq<u8>) -> (
    SessionView,
    ActionView,
) {
    if logged_in(s) {
        (s, ActionView::Send(Reply::BadSequence))
    } else {
        match lookup(registry, name) {
            Some(u) => (
                SessionView { authenticated: true, user: Some(u), current_directory: u.path, ..s },
                ActionView::Send(Reply::LoggedIn),
            ),
            None => {
                let left: u32 = if s.login_attempts_remaining > 0 {
                    (s.login_attempts_remaining - 1) as u32
                } else {
                    0
                };
                (
                    SessionView { authenticated: false, login_attempts_remaining: left, ..s },
                    if left == 0 {
                        ActionView::Close(Reply::UnknownUser)
                    } else {
                        ActionView::Send(Reply::UnknownUser)
                    },
                )
            },
        }
    }
}

/// The session after a command, and what the caller is to do.
pub open spec fn next(s: SessionView, registry: Seq<UserView>, verb: Verb, arg: Seq<u8>) -> (
    SessionView,
    ActionView,
) {
    if needs_login(verb) && !logged_in(s) {
        (s, ActionView::Send(Reply::NotLoggedIn))
    } else {
        match verb {
            Verb::User => identify(s, registry, arg),
            Verb::Pass => (
                s,
                ActionView::Send(
                    if logged_in(s) {
                        Reply::LoggedIn
                    } else {
                        Reply::BadSequence
                    },
                ),
            ),
            Verb::Help => (s, ActionView::Send(Reply::Help)),
            Verb::Syst => (s, ActionView::Send(Reply::System)),
            Verb::Quit => (s, ActionView::Close(Reply::Goodbye)),
            Verb::Unknown => (s, ActionView::Send(Reply::Unrecognized)),
            Verb::Pasv => (
                SessionView { mode: TransferMode::Passive(s.server.port), ..s },
                ActionView::Send(Reply::EnteringPassive(s.server)),
            ),
            Verb::Port => match address_of(arg) {
                Some(a) => (
                    SessionView { mode: TransferMode::Active(a), ..s },
                    ActionView::Send(Reply::Accepted),
                ),
                None => (s, ActionView::Send(Reply::Unrecognized)),
            },
            Verb::Type => match type_named(arg) {
                Some(t) => (SessionView { transfer_type: t, ..s }, ActionView::Send(Reply::Accepted)),
                None => (s, ActionView::Send(Reply::Unrecognized)),
            },
            Verb::Rnfr => match target(s, arg) {
                Some(p) => (
                    SessionView { pending_rename_source: Some(p), ..s },
                    ActionView::Send(Reply::PendingRename),
                ),
                None => (s, ActionView::Send(Reply::FileError)),
            },
            Verb::Rnto => match s.pending_rename_source {
                None => (s, ActionView::Send(Reply::BadSequence)),
                Some(source) => (
                    SessionView { pending_rename_source: None, ..s },
                    match target(s, arg) {
                        Some(to) => ActionView::Move { from: source, to },
                        None => ActionView::Send(Reply::FileError),
                    },
                ),
            },
            _ => match target(s, path_argument(verb, arg)) {
                Some(p) => (s, operation(verb, p)),
                None => (s, ActionView::Send(Reply::FileError)),
            },
        }
    }
}

impl Verb {
    /// May the command run only after a login?
    pub fn requires_login(&self) -> (r: bool)
        ensures
            r == needs_login(*self),
    {
        match self {
            Verb::User | Verb::Pass | Verb::Help | Verb::Syst | Verb::Quit | Verb::Unknown => false,
            _ => true,
        }
    }
}

impl Session {
    /// A fresh session for a connection: nobody logged in, passive mode on
    /// the reserved data port, binary transfers, three identifications left.
    pub fn new(server: DataAddress) -> (r: Session)
        ensures
            r@ == (SessionView {
                authenticated: false,
                user: None,
                mode: TransferMode::Passive(server.port),
                transfer_type: TransferType::Binary,
                current_directory: Seq::empty(),
                pending_rename_source: None,
                login_attempts_remaining: LOGIN_ATTEMPTS,
                server,
            }),
    {
        Session {
            authenticated: false,
            user: None,
            mode: TransferMode::Passive(server.port),
            transfer_type: TransferType::Binary,
            current_directory: Vec::new(),
            pending_rename_source: None,
            login_attempts_remaining: LOGIN_ATTEMPTS,
            server,
        }
    }

    /// The greeting that opens a session.
    pub fn greeting(&self) -> (r: Reply)
        ensures
            r == Reply::Ready(self@.server),
    {
        Reply::Ready(self.server)
    }

    /// Has the session an identity?
    pub fn is_logged_in(&self) -> (r: bool)
        ensures
            r == logged_in(self@),
    {
        self.authenticated && self.user.is_some()
    }

    /// Resolve `arg` for the session's user.
    fn resolve_target(&self, arg: &[u8]) -> (r: Option<Vec<u8>>)
        requires
            self@.user.is_some(),
        ensures
            match target(self@, arg@) {
                Some(p) => r.is_some() && r.unwrap()@ == p,
                None => r.is_none(),
            },
    {
        match &self.user {
            Some(u) => resolve(u.path.as_slice(), self.current_directory.as_slice(), arg),
            None => None,
        }
    }

    /// Take an identity command.
    fn handle_identity(&mut self, registry: &Registry, name: &[u8]) -> (r: Action)
        ensures
            (final(self)@, r@) == identify(old(self)@, registry@, name@),
    {
        if self.is_logged_in() {
            return Action::Send(Reply::BadSequence);
        }
        match registry.get(name) {
            Some(u) => {
                self.authenticated = true;
                self.current_directory = copy_bytes(u.path.as_slice());
                self.user = Some(u);
                Action::Send(Reply::LoggedIn)
            },
            None => {
                self.authenticated = false;
                if self.login_attempts_remaining > 0 {
                    self.login_attempts_remaining = self.login_attempts_remaining - 1;
                }
                if self.login_attempts_remaining == 0 {
                    Action::Close(Reply::UnknownUser)
                } else {
                    Action::Send(Reply::UnknownUser)
                }
            },
        }
    }

    /// Take a rename-target command.
    fn handle_rename_to(&mut self, arg: &[u8]) -> (r: Action)
        requires
            logged_in(old(self)@),
        ensures
            (final(self)@, r@) == next(old(self)@, Seq::empty(), Verb::Rnto, arg@),
    {
        let source = self.pending_rename_source.take();
        match source {
            None => Action::Send(Reply::BadSequence),
            Some(source) => {
                match self.resolve_target(arg) {
                    Some(to) => Action::Move { from: source, to },
                    None => Action::Send(Reply::FileError),
                }
            },
        }
    }

    /// Take one command: the session moves to its next state, and the result
    /// says what to send or perform.
    pub fn handle(&mut self, registry: &Registry, verb: Verb, arg: &[u8]) -> (r: Action)
        ensures
            (final(self)@, r@) == next(old(self)@, registry@, verb, arg@),
    {
        if verb.requires_login() && !self.is_logged_in() {
            return Action::Send(Reply::NotLoggedIn);
        }
        match verb {
            Verb::User => self.handle_identity(registry, arg),
            Verb::Pass => {
                if self.is_logged_in() {
                    Action::Send(Reply::LoggedIn)
                } else {
                    Action::Send(Reply::BadSequence)
                }
            },
            Verb::Help => Action::Send(Reply::Help),
            Verb::Syst => Action::Send(Reply::System),
            Verb::Quit => Action::Close(Reply::Goodbye),
            Verb::Unknown => Action::Send(Reply::Unrecognized),
            Verb::Pasv => {
                self.mode = TransferMode::Passive(self.server.port);
                Action::Send(Reply::EnteringPassive(self.server))
            },
            Verb::Port => match port_addr(arg) {
                Some(a) => {
                    self.mode = TransferMode::Active(a);
                    Action::Send(Reply::Accepted)
                },
                None => Action::Send(Reply::Unrecognized),
            },
            Verb::Type => {
                if eq_ignore_case(arg, "a".as_bytes()) {
                    self.transfer_type = TransferType::Ascii;
                    Action::Send(Reply::Accepted)
                } else if eq_ignore_case(arg, "i".as_bytes()) {
                    self.transfer_type = TransferType::Binary;
                    Action::Send(Reply::Accepted)
                } else {
                    Action::Send(Reply::Unrecognized)
                }
            },
            Verb::Rnfr => match self.resolve_target(arg) {
                Some(p) => {
                    self.pending_rename_source = Some(p);
                    Action::Send(Reply::PendingRename)
                },
                None => Action::Send(Reply::FileError),
            },
            Verb::Rnto => self.handle_rename_to(arg),
            Verb::Cdup => match self.resolve_target("..".as_bytes()) {
                Some(p) => Action::EnterDirectory(p),
                None => Action::Send(Reply::FileError),
            },
            Verb::Stou => {
                let here: Vec<u8> = Vec::new();
                match self.resolve_target(here.as_slice()) {
                    Some(p) => Action::ReceiveUnique { directory: p },
                    None => Action::Send(Reply::FileError),
                }
            },
            _ => match self.resolve_target(arg) {
                Some(p) => match verb {
                    Verb::List => Action::SendList(p),
                    Verb::Retr => Action::SendFile(p),
                    Verb::Stor => Action::ReceiveFile { path: p, append: false },
                    Verb::Appe => Action::ReceiveFile { path: p, append: true },
                    Verb::Dele => Action::Remove(p),
                    Verb::Mkd => Action::CreateDirectory(p),
                    _ => Action::EnterDirectory(p),
                },
                None => Action::Send(Reply::FileError),
            },
        }
    }
}

/// How the operation that an action asked for went.
#[derive(Clone, Copy, Debug, PartialEq, Eq, Structural)]
pub enum Outcome {
    /// It was carried out in full.
    Done,
    /// The data connection could not be opened, or nobody connected in time.
    NoDataConnection,
    /// The data connection broke during the transfer.
    ConnectionBroken,
    /// The file system refused.
    Failed,
}

/// Does the action move payload over a data connection?
pub open spec fn is_transfer(a: ActionView) -> bool {
    a is SendList || a is SendFile || a is ReceiveFile || a is ReceiveUnique
}

/// The reply that ends an action: the action's own reply where it is one;
/// for a transfer 226, 425, 426 or 550 by outcome; for a file action 250
/// when done and 550 otherwise.
pub open spec fn completion_of(a: ActionView, outcome: Outcome) -> Reply {
    match a {
        ActionView::Send(r) => r,
        ActionView::Close(r) => r,
        _ => match outcome {
            Outcome::Done => if is_transfer(a) {
                Reply::TransferComplete
            } else {
                Reply::FileActionDone
            },
            Outcome::NoDataConnection => if is_transfer(a) {
                Reply::CannotOpenData
            } else {
                Reply::FileError
            },
            Outcome::ConnectionBroken => if is_transfer(a) {
                Reply::TransferAborted
            } else {
                Reply::FileError
            },
            Outcome::Failed => Reply::FileError,
        },
    }
}

/// The session after the caller found that `path` is, or is not, a directory.
pub open spec fn entered(s: SessionView, path: Seq<u8>, exists: bool) -> (SessionView, Reply) {
    if logged_in(s) && exists && target(s, path).is_some() {
        (SessionView { current_directory: target(s, path).unwrap(), ..s }, Reply::FileActionDone)
    } else {
        (s, Reply::FileError)
    }
}

impl Action {
    /// Does the action move payload over a data connection?
    pub fn transfers(&self) -> (r: bool)
        ensures
            r == is_transfer(self@),
    {
        match self {
            Action::SendList(_) => true,
            Action::SendFile(_) => true,
            Action::ReceiveFile { .. } => true,
            Action::ReceiveUnique { .. } => true,
            _ => false,
        }
    }

    /// The reply sent before the data connection is opened: 150 for a
    /// transfer, none for anything else.
    pub fn preliminary(&self) -> (r: Option<Reply>)
        ensures
            r == (if is_transfer(self@) {
                Some(Reply::Opening)
            } else {
                None
            }),
    {
        if self.transfers() {
            Some(Reply::Opening)
        } else {
            None
        }
    }

    /// The reply that ends the action, by how it went.
    pub fn completion(&self, outcome: Outcome) -> (r: Reply)
        ensures
            r == completion_of(self@, outcome),
    {
        match self {
            Action::Send(r) => *r,
            Action::Close(r) => *r,
            _ => {
                let transfer = self.transfers();
                match outcome {
                    Outcome::Done => if transfer {
                        Reply::TransferComplete
                    } else {
                        Reply::FileActionDone
                    },
                    Outcome::NoDataConnection => if transfer {
                        Reply::CannotOpenData
                    } else {
                        Reply::FileError
                    },
                    Outcome::ConnectionBroken => if transfer {
                        Reply::TransferAborted
                    } else {
                        Reply::FileError
                    },
                    Outcome::Failed => Reply::FileError,
                }
            },
        }
    }
}

impl Session {
    /// Take one command line.
    pub fn handle_line(&mut self, registry: &Registry, line: &[u8]) -> (r: Action)
        ensures
            (final(self)@, r@) == next(
                old(self)@,
                registry@,
                verb_named(word_of(line@)),
                argument_of(line@),
            ),
    {
        let (verb, arg) = split_line(line);
        self.handle(registry, verb, arg.as_slice())
    }

    /// Make `path` the current directory. The path is checked against the
    /// root once more; `exists` says whether the caller found a directory
    /// there.
    pub fn enter_directory(&mut self, path: &[u8], exists: bool) -> (r: Reply)
        ensures
            (final(self)@, r) == entered(old(self)@, path@, exists),
    {
        if !self.is_logged_in() || !exists {
            return Reply::FileError;
        }
        match self.resolve_target(path) {
            Some(p) => {
                self.current_directory = p;
                Reply::FileActionDone
            },
            None => Reply::FileError,
        }
    }
}

} // verus!
