//! What holds of every session, stated over the transition function.

use vstd::prelude::*;
use crate::path::{
    SLASH, normalize, resolved, render, under, confined, joined, lemma_joined_under,
    lemma_render_reads_back, lemma_resolved_clean, lemma_joined_starts,
};
use crate::reply::{Reply, code_of};
use crate::session::{
    SessionView, ActionView, Verb, Outcome, next, logged_in, needs_login, target, completion_of,
    entered, is_transfer,
};
use crate::user::{UserView, lookup};

verus! {

/// Is `p` a resolved path at or below `root`: do its components begin with
/// those of the root, and is it written in the one form that resolution
/// gives?
pub open spec fn in_sandbox(root: Seq<u8>, p: Seq<u8>) -> bool {
    under(normalize(root), normalize(p)) && p == render(normalize(p))
}

/// The paths that an action names.
pub open spec fn paths_of(a: ActionView) -> Seq<Seq<u8>> {
    match a {
        ActionView::Send(_) => Seq::empty(),
        ActionView::Close(_) => Seq::empty(),
        ActionView::SendList(p) => seq![p],
        ActionView::SendFile(p) => seq![p],
        ActionView::ReceiveFile { path, append } => seq![path],
        ActionView::ReceiveUnique { directory } => seq![directory],
        ActionView::Remove(p) => seq![p],
        ActionView::Move { from, to } => seq![from, to],
        ActionView::CreateDirectory(p) => seq![p],
        ActionView::EnterDirectory(p) => seq![p],
    }
}

/// The session after each of `names` was given as an identity, in turn.
pub open spec fn after_identities(
    s: SessionView,
    registry: Seq<UserView>,
    names: Seq<Seq<u8>>,
) -> SessionView
    decreases names.len(),
{
    if names.len() == 0 {
        s
    } else {
        next(after_identities(s, registry, names.drop_last()), registry, Verb::User, names.last()).0
    }
}

/// What resolution lets through lies in the sandbox of the root.
pub proof fn law_confined_in_sandbox(root: Seq<u8>, cur: Seq<u8>, arg: Seq<u8>)
    requires
        confined(root, cur, arg).is_some(),
    ensures
        in_sandbox(root, confined(root, cur, arg).unwrap()),
        normalize(confined(root, cur, arg).unwrap()) == resolved(cur, arg),
{
    lemma_resolved_clean(cur, arg);
    lemma_render_reads_back(resolved(cur, arg));
}

/// A path in the sandbox resolves to itself, whatever the current directory.
pub proof fn law_sandbox_path_resolves_to_itself(root: Seq<u8>, cur: Seq<u8>, p: Seq<u8>)
    requires
        in_sandbox(root, p),
    ensures
        confined(root, cur, p) == Some(p),
{
    if normalize(p).len() > 0 {
        lemma_joined_starts(normalize(p));
    }
}

/// Does `p` begin with `prefix`, and go on, if at all, with a new component?
pub open spec fn begins_with_directory(p: Seq<u8>, prefix: Seq<u8>) -> bool {
    &&& prefix.len() <= p.len()
    &&& p.subrange(0, prefix.len() as int) == prefix
    &&& (p.len() == prefix.len() || p[prefix.len() as int] == SLASH())
}

/// A path in the sandbox of `root` begins with the root's own path, written
/// out component by component, and goes on below it.
pub proof fn law_sandbox_paths_begin_with_root(root: Seq<u8>, p: Seq<u8>)
    requires
        in_sandbox(root, p),
    ensures
        begins_with_directory(p, joined(normalize(root))),
{
    let c = normalize(p);
    lemma_joined_under(normalize(root), c);
    if c.len() == 0 {
        assert(normalize(root).len() == 0);
        assert(joined(normalize(root)) =~= Seq::<u8>::empty());
        assert(p.subrange(0, 0) =~= Seq::<u8>::empty());
    }
}

/// Sessions whose roots lie apart never name the same path: a path in the
/// sandbox of two roots forces one root to be the other or a directory
/// below it.
pub proof fn law_roots_apart_share_no_path(root_a: Seq<u8>, root_b: Seq<u8>, p: Seq<u8>)
    requires
        in_sandbox(root_a, p),
        in_sandbox(root_b, p),
    ensures
        begins_with_directory(joined(normalize(root_a)), joined(normalize(root_b)))
            || begins_with_directory(joined(normalize(root_b)), joined(normalize(root_a))),
{
    law_sandbox_paths_begin_with_root(root_a, p);
    law_sandbox_paths_begin_with_root(root_b, p);
    let ja = joined(normalize(root_a));
    let jb = joined(normalize(root_b));
    if ja.len() <= jb.len() {
        assert(jb.subrange(0, ja.len() as int) =~= p.subrange(0, jb.len() as int).subrange(
            0,
            ja.len() as int,
        ));
        assert(p.subrange(0, jb.len() as int).subrange(0, ja.len() as int) =~= p.subrange(
            0,
            ja.len() as int,
        ));
        if ja.len() < jb.len() {
            assert(jb[ja.len() as int] == p.subrange(0, jb.len() as int)[ja.len() as int]);
        }
    } else {
        assert(ja.subrange(0, jb.len() as int) =~= p.subrange(0, ja.len() as int).subrange(
            0,
            jb.len() as int,
        ));
        assert(p.subrange(0, ja.len() as int).subrange(0, jb.len() as int) =~= p.subrange(
            0,
            jb.len() as int,
        ));
        assert(ja[jb.len() as int] == p.subrange(0, ja.len() as int)[jb.len() as int]);
    }
}

/// An identity that the registry holds logs the session in, with the
/// account's root as current directory; after that no command is refused for
/// want of a login.
pub proof fn law_known_identity_logs_in(
    s: SessionView,
    registry: Seq<UserView>,
    name: Seq<u8>,
    verb: Verb,
    arg: Seq<u8>,
)
    requires
        !logged_in(s),
        lookup(registry, name).is_some(),
    ensures
        next(s, registry, Verb::User, name).1 == ActionView::Send(Reply::LoggedIn),
        logged_in(next(s, registry, Verb::User, name).0),
        next(s, registry, Verb::User, name).0.user == lookup(registry, name),
        next(s, registry, Verb::User, name).0.current_directory == lookup(
            registry,
            name,
        ).unwrap().path,
        next(next(s, registry, Verb::User, name).0, registry, verb, arg).1 != ActionView::Send(
            Reply::NotLoggedIn,
        ),
{
}

/// Identities that the registry does not hold are counted: while fewer have
/// failed than the session had attempts left, each is answered with 530 and
/// the session goes on; the one that uses up the last attempt ends it.
pub proof fn law_unknown_identities_end_session(
    s: SessionView,
    registry: Seq<UserView>,
    names: Seq<Seq<u8>>,
)
    requires
        !logged_in(s),
        0 < names.len() <= s.login_attempts_remaining,
        forall|i: int| 0 <= i < names.len() ==> lookup(registry, #[trigger] names[i]).is_none(),
    ensures
        !logged_in(after_identities(s, registry, names)),
        after_identities(s, registry, names).login_attempts_remaining
            == s.login_attempts_remaining - names.len(),
        next(
            after_identities(s, registry, names.drop_last()),
            registry,
            Verb::User,
            names.last(),
        ).1 == (if names.len() == s.login_attempts_remaining {
            ActionView::Close(Reply::UnknownUser)
        } else {
            ActionView::Send(Reply::UnknownUser)
        }),
    decreases names.len(),
{
    let earlier = names.drop_last();
    if earlier.len() > 0 {
        assert forall|i: int| 0 <= i < earlier.len() implies lookup(
            registry,
            #[trigger] earlier[i],
        ).is_none() by {
            assert(earlier[i] == names[i]);
        }
        law_unknown_identities_end_session(s, registry, earlier);
    }
    assert(lookup(registry, names[names.len() - 1]).is_none());
}

/// Before a login, a command that needs one changes nothing and is answered
/// with 530.
pub proof fn law_login_gate(s: SessionView, registry: Seq<UserView>, verb: Verb, arg: Seq<u8>)
    requires
        !logged_in(s),
        needs_login(verb),
    ensures
        next(s, registry, verb, arg) == (s, ActionView::Send(Reply::NotLoggedIn)),
        code_of(Reply::NotLoggedIn) == 530,
{
}

/// The invariant of a session's rename state: a pending source belongs to a
/// logged-in session and lies under its user's root.
pub open spec fn pending_in_sandbox(s: SessionView) -> bool {
    s.pending_rename_source.is_some() ==> logged_in(s) && in_sandbox(
        s.user.unwrap().path,
        s.pending_rename_source.unwrap(),
    )
}

/// A fresh session has no pending source, and no command breaks the
/// invariant of the rename state.
pub proof fn law_pending_stays_in_sandbox(
    s: SessionView,
    registry: Seq<UserView>,
    verb: Verb,
    arg: Seq<u8>,
)
    requires
        pending_in_sandbox(s),
    ensures
        pending_in_sandbox(next(s, registry, verb, arg).0),
{
    if verb == Verb::Rnfr && logged_in(s) && target(s, arg).is_some() {
        law_confined_in_sandbox(s.user.unwrap().path, s.current_directory, arg);
    }
}

/// Every path that an action names lies under the root of the session's
/// user; an argument that resolves outside it is answered with 550, and no
/// operation is asked for.
pub proof fn law_paths_stay_under_root(
    s: SessionView,
    registry: Seq<UserView>,
    verb: Verb,
    arg: Seq<u8>,
)
    requires
        logged_in(s),
        pending_in_sandbox(s),
    ensures
        forall|i: int|
            0 <= i < paths_of(next(s, registry, verb, arg).1).len() ==> in_sandbox(
                s.user.unwrap().path,
                #[trigger] paths_of(next(s, registry, verb, arg).1)[i],
            ),
        (verb == Verb::Appe || verb == Verb::Cwd || verb == Verb::Dele || verb == Verb::List
            || verb == Verb::Mkd || verb == Verb::Retr || verb == Verb::Rnfr || verb == Verb::Stor)
            && target(s, arg).is_none() ==> next(s, registry, verb, arg) == (
            s,
            ActionView::Send(Reply::FileError),
        ),
        verb == Verb::Rnto && s.pending_rename_source.is_some() && target(s, arg).is_none() ==> next(
            s,
            registry,
            verb,
            arg,
        ).1 == ActionView::Send(Reply::FileError),
        code_of(Reply::FileError) == 550,
{
    let root = s.user.unwrap().path;
    let cur = s.current_directory;
    let a = next(s, registry, verb, arg).1;
    assert forall|i: int| 0 <= i < paths_of(a).len() implies in_sandbox(
        root,
        #[trigger] paths_of(a)[i],
    ) by {
        match a {
            ActionView::Move { from, to } => {
                law_confined_in_sandbox(root, cur, arg);
            },
            _ => {
                law_confined_in_sandbox(root, cur, crate::session::path_argument(verb, arg));
            },
        }
    }
}

/// The current directory changes only to a path under the user's root.
pub proof fn law_current_directory_stays_under_root(s: SessionView, path: Seq<u8>, exists: bool)
    requires
        logged_in(s),
    ensures
        entered(s, path, exists).0.current_directory == s.current_directory || in_sandbox(
            s.user.unwrap().path,
            entered(s, path, exists).0.current_directory,
        ),
{
    if exists && target(s, path).is_some() {
        law_confined_in_sandbox(s.user.unwrap().path, s.current_directory, path);
    }
}

/// A rename source alone asks for no file operation. A source and then a
/// target ask for one rename, of the source to the target, and clear the
/// pending source, so that a second target is answered with 503.
pub proof fn law_rename_takes_two_steps(
    s: SessionView,
    registry: Seq<UserView>,
    source: Seq<u8>,
    dest: Seq<u8>,
    again: Seq<u8>,
)
    requires
        logged_in(s),
        target(s, source).is_some(),
        target(s, dest).is_some(),
    ensures
        ({
            let (s1, a1) = next(s, registry, Verb::Rnfr, source);
            let (s2, a2) = next(s1, registry, Verb::Rnto, dest);
            let (s3, a3) = next(s2, registry, Verb::Rnto, again);
            &&& a1 == ActionView::Send(Reply::PendingRename)
            &&& s1.pending_rename_source == target(s, source)
            &&& a2 == (ActionView::Move {
                from: target(s, source).unwrap(),
                to: target(s, dest).unwrap(),
            })
            &&& s2.pending_rename_source.is_none()
            &&& a3 == ActionView::Send(Reply::BadSequence)
            &&& s3 == s2
        }),
        code_of(Reply::PendingRename) == 350,
        code_of(Reply::BadSequence) == 503,
{
}

/// Storing under a name and retrieving under the same name, in the same
/// directory, name one and the same file, and neither changes the session.
pub proof fn law_store_and_retrieve_name_one_file(
    s: SessionView,
    registry: Seq<UserView>,
    name: Seq<u8>,
)
    requires
        logged_in(s),
        target(s, name).is_some(),
    ensures
        next(s, registry, Verb::Stor, name) == (
            s,
            ActionView::ReceiveFile { path: target(s, name).unwrap(), append: false },
        ),
        next(s, registry, Verb::Retr, name) == (s, ActionView::SendFile(target(s, name).unwrap())),
{
}

/// Only a rename source sets the pending source and only a rename target
/// clears it: every other command leaves it as it was.
pub proof fn law_pending_rename_untouched(
    s: SessionView,
    registry: Seq<UserView>,
    verb: Verb,
    arg: Seq<u8>,
)
    requires
        verb != Verb::Rnfr,
        verb != Verb::Rnto,
    ensures
        next(s, registry, verb, arg).0.pending_rename_source == s.pending_rename_source,
{
}

/// A transfer ends with 226 when it was carried out, with 425 when no data
/// connection could be had and with 426 when the connection broke; every
/// other operation ends with 250 when it was carried out; a failure of the
/// file system ends either with 550.
pub proof fn law_completion_codes(a: ActionView, outcome: Outcome)
    requires
        !(a is Send),
        !(a is Close),
    ensures
        code_of(completion_of(a, outcome)) == (match outcome {
            Outcome::Done => if is_transfer(a) {
                226u16
            } else {
                250u16
            },
            Outcome::NoDataConnection => if is_transfer(a) {
                425u16
            } else {
                550u16
            },
            Outcome::ConnectionBroken => if is_transfer(a) {
                426u16
            } else {
                550u16
            },
            Outcome::Failed => 550u16,
        }),
{
}

} // verus!
