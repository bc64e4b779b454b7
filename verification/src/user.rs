//! Accounts and the registry that a session looks identities up in.

use vstd::prelude::*;
use crate::text::{bytes_eq, copy_bytes};

verus! {

/// One account. `path` is the root that the account is confined to;
/// `cur_dir` is the directory a fresh session of it starts in.
#[derive(Debug, PartialEq, Eq)]
pub struct User {
    pub name: Vec<u8>,
    pub pass: Vec<u8>,
    pub role: Vec<u8>,
    pub path: Vec<u8>,
    pub cur_dir: Vec<u8>,
}

/// The model of an account.
pub ghost struct UserView {
    pub name: Seq<u8>,
    pub pass: Seq<u8>,
    pub role: Seq<u8>,
    pub path: Seq<u8>,
    pub cur_dir: Seq<u8>,
}

impl View for User {
    type V = UserView;

    open spec fn view(&self) -> UserView {
        UserView {
            name: self.name@,
            pass: self.pass@,
            role: self.role@,
            path: self.path@,
            cur_dir: self.cur_dir@,
        }
    }
}

impl User {
    /// An account with every field empty.
    pub fn new() -> (r: User)
        ensures
            r@.name.len() == 0,
            r@.pass.len() == 0,
            r@.role.len() == 0,
            r@.path.len() == 0,
            r@.cur_dir.len() == 0,
    {
        User {
            name: Vec::new(),
            pass: Vec::new(),
            role: Vec::new(),
            path: Vec::new(),
            cur_dir: Vec::new(),
        }
    }

    /// An independent copy of the account.
    pub fn duplicate(&self) -> (r: User)
        ensures
            r@ == self@,
    {
        User {
            name: copy_bytes(self.name.as_slice()),
            pass: copy_bytes(self.pass.as_slice()),
            role: copy_bytes(self.role.as_slice()),
            path: copy_bytes(self.path.as_slice()),
            cur_dir: copy_bytes(self.cur_dir.as_slice()),
        }
    }
}

/// The models of a list of accounts.
pub open spec fn views(users: Seq<User>) -> Seq<UserView> {
    users.map_values(|u: User| u@)
}

/// The index of the first account at or after `i` that is called `name`.
pub open spec fn position_from(users: Seq<UserView>, name: Seq<u8>, i: int) -> Option<int>
    decreases users.len() - i,
{
    if i < 0 || i >= users.len() {
        None
    } else if users[i].name == name {
        Some(i)
    } else {
        position_from(users, name, i + 1)
    }
}

/// The account called `name`, if the registry holds one.
pub open spec fn lookup(users: Seq<UserView>, name: Seq<u8>) -> Option<UserView> {
    match position_from(users, name, 0) {
        Some(i) => Some(users[i]),
        None => None,
    }
}

/// No two accounts share a name.
pub open spec fn distinct_names(users: Seq<UserView>) -> bool {
    forall|i: int, j: int|
        0 <= i < j < users.len() ==> (#[trigger] users[i]).name != (#[trigger] users[j]).name
}

/// What `position_from` finds: an index of that name with none before it, or
/// nothing where no account from `i` on has the name.
pub proof fn lemma_position(users: Seq<UserView>, name: Seq<u8>, i: int)
    requires
        0 <= i <= users.len(),
    ensures
        match position_from(users, name, i) {
            Some(k) => i <= k < users.len() && users[k].name == name && forall|j: int|
                i <= j < k ==> (#[trigger] users[j]).name != name,
            None => forall|j: int| i <= j < users.len() ==> (#[trigger] users[j]).name != name,
        },
    decreases users.len() - i,
{
    if i < users.len() && users[i].name != name {
        lemma_position(users, name, i + 1);
    }
}

/// The accounts that identities are looked up in, by name.
pub struct Registry {
    pub users: Vec<User>,
}

impl View for Registry {
    type V = Seq<UserView>;

    open spec fn view(&self) -> Seq<UserView> {
        views(self.users@)
    }
}

impl Registry {
    /// The registry's invariant: a name stands for one account.
    pub open spec fn wf(&self) -> bool {
        distinct_names(self@)
    }

    /// A registry without accounts.
    pub fn new() -> (r: Registry)
        ensures
            r@.len() == 0,
            r.wf(),
    {
        Registry { users: Vec::new() }
    }

    /// The number of accounts.
    pub fn len(&self) -> (r: usize)
        ensures
            r == self@.len(),
    {
        self.users.len()
    }

    /// Where the account called `name` stands.
    pub fn find(&self, name: &[u8]) -> (r: Option<usize>)
        ensures
            match position_from(self@, name@, 0) {
                Some(i) => r.is_some() && r.unwrap() as int == i,
                None => r.is_none(),
            },
            r.is_some() ==> r.unwrap() < self.users@.len(),
    {
        let mut i: usize = 0;
        while i < self.users.len()
            invariant
                i <= self.users@.len(),
                position_from(self@, name@, 0) == position_from(self@, name@, i as int),
            decreases self.users@.len() - i,
        {
            assert(self@[i as int] == self.users@[i as int]@);
            if bytes_eq(self.users[i].name.as_slice(), name) {
                return Some(i);
            }
            i += 1;
        }
        None
    }

    /// Does the registry hold an account called `name`?
    pub fn contains(&self, name: &[u8]) -> (r: bool)
        ensures
            r == lookup(self@, name@).is_some(),
    {
        self.find(name).is_some()
    }

    /// A copy of the account called `name`.
    pub fn get(&self, name: &[u8]) -> (r: Option<User>)
        ensures
            match lookup(self@, name@) {
                Some(u) => r.is_some() && r.unwrap()@ == u,
                None => r.is_none(),
            },
    {
        proof {
            lemma_position(self@, name@, 0);
        }
        match self.find(name) {
            Some(i) => {
                assert(self@[i as int] == self.users@[i as int]@);
                Some(self.users[i].duplicate())
            },
            None => None,
        }
    }

    /// Enter an account. One of the same name is replaced; a new name is
    /// added at the end.
    pub fn insert(&mut self, user: User)
        requires
            old(self).wf(),
        ensures
            final(self).wf(),
            final(self)@ == (match position_from(old(self)@, user@.name, 0) {
                Some(i) => old(self)@.update(i, user@),
                None => old(self)@.push(user@),
            }),
            lookup(final(self)@, user@.name) == Some(user@),
    {
        let ghost before = self@;
        let ghost uv = user@;
        proof {
            lemma_position(before, uv.name, 0);
        }
        let found = self.find(user.name.as_slice());
        let ghost at: int;
        match found {
            Some(i) => {
                self.users.set(i, user);
                proof {
                    at = i as int;
                }
                assert(self@ =~= before.update(i as int, uv));
            },
            None => {
                self.users.push(user);
                proof {
                    at = before.len() as int;
                }
                assert(self@ =~= before.push(uv));
            },
        }
        let ghost after = self@;
        assert(0 <= at < after.len() && after[at] == uv);
        assert forall|j: int| 0 <= j < after.len() && j != at implies (#[trigger] after[j]).name
            != uv.name by {
            assert(after[j] == before[j]);
            if found.is_some() {
                if j < at {
                    assert(before[j].name != before[at].name);
                } else {
                    assert(before[at].name != before[j].name);
                }
            }
        }
        assert forall|i: int, j: int| 0 <= i < j < after.len() implies (#[trigger] after[i]).name
            != (#[trigger] after[j]).name by {
            if i != at && j != at {
                assert(after[i] == before[i]);
                assert(after[j] == before[j]);
            }
        }
        proof {
            lemma_position(after, uv.name, 0);
        }
    }
}

} // verus!
