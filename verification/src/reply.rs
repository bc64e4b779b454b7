//! The replies that a session sends on its control connection.
//!
//! A reply line is a three-digit code, a space, a text and CR LF.

use vstd::prelude::*;
use vstd::string::StringSliceAdditionalSpecFns;
use crate::addr::{DataAddress, encoded, dotted, push_encoded, push_dotted};
use crate::text::append;

verus! {

/// Every reply of the server.
#[derive(Clone, Copy, Debug, PartialEq, Eq, Structural)]
pub enum Reply {
    /// The greeting, with the server's address.
    Ready(DataAddress),
    /// The identity was accepted.
    LoggedIn,
    /// The identity is not in the registry.
    UnknownUser,
    /// The command needs a login first.
    NotLoggedIn,
    /// The command does not fit what came before it.
    BadSequence,
    /// The verb is unknown or its argument is malformed.
    Unrecognized,
    /// The list of commands.
    Help,
    /// The system type.
    System,
    /// The session ends.
    Goodbye,
    /// Passive mode: the address and port the server listens on.
    EnteringPassive(DataAddress),
    /// A mode or type command was accepted.
    Accepted,
    /// A rename source is recorded; the target is awaited.
    PendingRename,
    /// A file action (rename, delete, make or change directory) was done.
    FileActionDone,
    /// A data connection is about to be opened.
    Opening,
    /// The transfer is complete.
    TransferComplete,
    /// The data connection could not be opened.
    CannotOpenData,
    /// The data connection broke during the transfer.
    TransferAborted,
    /// The file or directory cannot be had, or lies outside the root.
    FileError,
}

/// The three-digit code of a reply.
pub open spec fn code_of(r: Reply) -> u16 {
    match r {
        Reply::Ready(_) => 220,
        Reply::LoggedIn => 230,
        Reply::UnknownUser => 530,
        Reply::NotLoggedIn => 530,
        Reply::BadSequence => 503,
        Reply::Unrecognized => 500,
        Reply::Help => 214,
        Reply::System => 215,
        Reply::Goodbye => 221,
        Reply::EnteringPassive(_) => 227,
        Reply::Accepted => 200,
        Reply::PendingRename => 350,
        Reply::FileActionDone => 250,
        Reply::Opening => 150,
        Reply::TransferComplete => 226,
        Reply::CannotOpenData => 425,
        Reply::TransferAborted => 426,
        Reply::FileError => 550,
    }
}

/// The text of a reply.
pub open spec fn text_of(r: Reply) -> Seq<u8> {
    match r {
        Reply::Ready(a) => "FTP Server ".spec_bytes() + dotted(a),
        Reply::LoggedIn => "User logged in".spec_bytes(),
        Reply::UnknownUser => "Unknown user".spec_bytes(),
        Reply::NotLoggedIn => "Not Logged In".spec_bytes(),
        Reply::BadSequence => "Bad sequence of commands".spec_bytes(),
        Reply::Unrecognized => "Invalid Command".spec_bytes(),
        Reply::Help => "Commands: user pass cwd cdup quit retr stor stou appe type rnfr rnto dele mkd list pasv port syst help".spec_bytes(),
        Reply::System => "UNIX Type: L8".spec_bytes(),
        Reply::Goodbye => "GOODBYE".spec_bytes(),
        Reply::EnteringPassive(a) => "Entering Passive Mode (".spec_bytes() + encoded(a)
            + ")".spec_bytes(),
        Reply::Accepted => "Command okay".spec_bytes(),
        Reply::PendingRename => "Ready for destination name".spec_bytes(),
        Reply::FileActionDone => "Requested file action okay".spec_bytes(),
        Reply::Opening => "Opening data connection".spec_bytes(),
        Reply::TransferComplete => "Transfer complete".spec_bytes(),
        Reply::CannotOpenData => "Can't open data connection".spec_bytes(),
        Reply::TransferAborted => "Connection closed; transfer aborted".spec_bytes(),
        Reply::FileError => "Requested action not taken".spec_bytes(),
    }
}

/// The three digits of a code below 1000.
pub open spec fn three_digits(code: u16) -> Seq<u8> {
    seq![
        (48 + code / 100) as u8,
        (48 + (code / 10) % 10) as u8,
        (48 + code % 10) as u8,
    ]
}

/// A reply line with the given code and text.
pub open spec fn line_with(code: u16, text: Seq<u8>) -> Seq<u8> {
    three_digits(code) + seq![32u8] + text + seq![13u8, 10u8]
}

/// The line that goes on the wire for a reply.
pub open spec fn line_of(r: Reply) -> Seq<u8> {
    line_with(code_of(r), text_of(r))
}

/// Every reply's code has three digits.
pub proof fn law_code_has_three_digits(r: Reply)
    ensures
        100 <= code_of(r) <= 999,
{
}

impl Reply {
    /// The reply's code.
    pub fn code(&self) -> (c: u16)
        ensures
            c == code_of(*self),
    {
        match self {
            Reply::Ready(_) => 220,
            Reply::LoggedIn => 230,
            Reply::UnknownUser => 530,
            Reply::NotLoggedIn => 530,
            Reply::BadSequence => 503,
            Reply::Unrecognized => 500,
            Reply::Help => 214,
            Reply::System => 215,
            Reply::Goodbye => 221,
            Reply::EnteringPassive(_) => 227,
            Reply::Accepted => 200,
            Reply::PendingRename => 350,
            Reply::FileActionDone => 250,
            Reply::Opening => 150,
            Reply::TransferComplete => 226,
            Reply::CannotOpenData => 425,
            Reply::TransferAborted => 426,
            Reply::FileError => 550,
        }
    }

    /// The reply's text.
    pub fn text(&self) -> (t: Vec<u8>)
        ensures
            t@ == text_of(*self),
    {
        let mut t: Vec<u8> = Vec::new();
        match self {
            Reply::Ready(a) => {
                append(&mut t, "FTP Server ".as_bytes());
                push_dotted(&mut t, *a);
            },
            Reply::LoggedIn => append(&mut t, "User logged in".as_bytes()),
            Reply::UnknownUser => append(&mut t, "Unknown user".as_bytes()),
            Reply::NotLoggedIn => append(&mut t, "Not Logged In".as_bytes()),
            Reply::BadSequence => append(&mut t, "Bad sequence of commands".as_bytes()),
            Reply::Unrecognized => append(&mut t, "Invalid Command".as_bytes()),
            Reply::Help => append(
                &mut t,
                "Commands: user pass cwd cdup quit retr stor stou appe type rnfr rnto dele mkd list pasv port syst help".as_bytes(),
            ),
            Reply::System => append(&mut t, "UNIX Type: L8".as_bytes()),
            Reply::Goodbye => append(&mut t, "GOODBYE".as_bytes()),
            Reply::EnteringPassive(a) => {
                append(&mut t, "Entering Passive Mode (".as_bytes());
                push_encoded(&mut t, *a);
                append(&mut t, ")".as_bytes());
            },
            Reply::Accepted => append(&mut t, "Command okay".as_bytes()),
            Reply::PendingRename => append(&mut t, "Ready for destination name".as_bytes()),
            Reply::FileActionDone => append(&mut t, "Requested file action okay".as_bytes()),
            Reply::Opening => append(&mut t, "Opening data connection".as_bytes()),
            Reply::TransferComplete => append(&mut t, "Transfer complete".as_bytes()),
            Reply::CannotOpenData => append(&mut t, "Can't open data connection".as_bytes()),
            Reply::TransferAborted => append(
                &mut t,
                "Connection closed; transfer aborted".as_bytes(),
            ),
            Reply::FileError => append(&mut t, "Requested action not taken".as_bytes()),
        }
        assert(t@ =~= text_of(*self));
        t
    }

    /// The line that goes on the wire.
    pub fn line(&self) -> (l: Vec<u8>)
        ensures
            l@ == line_of(*self),
    {
        let t = self.text();
        format_line(self.code(), t.as_slice())
    }
}

/// A reply line: the code's three digits, a space, the text, CR LF.
pub fn format_line(code: u16, text: &[u8]) -> (l: Vec<u8>)
    requires
        code <= 999,
    ensures
        l@ == line_with(code, text@),
{
    let mut l: Vec<u8> = Vec::new();
    l.push(48 + (code / 100) as u8);
    l.push(48 + ((code / 10) % 10) as u8);
    l.push(48 + (code % 10) as u8);
    l.push(32);
    append(&mut l, text);
    l.push(13);
    l.push(10);
    assert(l@ =~= line_with(code, text@));
    l
}

} // verus!
