//! Credential records and the credential store.
//!
//! The store is the repository interface the trust core depends on:
//! `find_by_username`, `insert`, `update_password_hash`. It is modelled as a
//! map from usernames to password hashes; the contracts of the operations
//! speak only of that map.

use vstd::prelude::*;

use crate::errors::AuthError;

verus! {

/// A persisted credential row: a unique username and the stored password
/// hash. The `password` field never holds the plaintext password.
#[derive(Debug)]
pub struct User {
    pub username: String,
    pub password: String,
}

/// A credential row prepared for insertion; `password` already holds the
/// hash, never the plaintext.
#[derive(Debug)]
pub struct CreateUser {
    pub username: String,
    pub password: String,
}

/// The minimal authenticated identity: the username alone, stripped of the
/// password hash before it leaves the trust core. This is the only data a
/// session token carries.
#[derive(Debug, PartialEq, Eq)]
pub struct SlimUser {
    pub username: String,
}

/// True when no two rows share a username.
pub(crate) open spec fn distinct_usernames(s: Seq<User>) -> bool {
    forall|i: int, j: int|
        0 <= i < s.len() && 0 <= j < s.len() && i != j ==> (#[trigger] s[i]).username@ != (
        #[trigger] s[j]).username@
}

/// True when some row carries the given username.
pub(crate) open spec fn seq_has_name(s: Seq<User>, name: Seq<char>) -> bool {
    exists|i: int| 0 <= i < s.len() && (#[trigger] s[i]).username@ == name
}

/// The index of the row with the given username, meaningful only when
/// `seq_has_name` holds and the usernames are distinct.
pub(crate) open spec fn name_index(s: Seq<User>, name: Seq<char>) -> int {
    choose|i: int| 0 <= i < s.len() && (#[trigger] s[i]).username@ == name
}

/// The stored hash of the row with the given username.
pub(crate) open spec fn seq_hash_for(s: Seq<User>, name: Seq<char>) -> Seq<char> {
    s[name_index(s, name)].password@
}

/// The rows as a map from username to stored hash.
pub(crate) open spec fn view_of(s: Seq<User>) -> Map<Seq<char>, Seq<char>> {
    Map::new(|name: Seq<char>| seq_has_name(s, name), |name: Seq<char>| seq_hash_for(s, name))
}

/// With distinct usernames, a row determines the map entry for its username.
proof fn lemma_found(s: Seq<User>, name: Seq<char>, i: int)
    requires
        distinct_usernames(s),
        0 <= i < s.len(),
        s[i].username@ == name,
    ensures
        seq_has_name(s, name),
        seq_hash_for(s, name) == s[i].password@,
{
    assert(seq_has_name(s, name));
    let k = name_index(s, name);
    assert(0 <= k < s.len() && s[k].username@ == name);
    assert(k == i);
}

/// Appending a row with a fresh username inserts exactly one map entry.
proof fn lemma_view_push(s: Seq<User>, u: User)
    requires
        distinct_usernames(s),
        !seq_has_name(s, u.username@),
    ensures
        distinct_usernames(s.push(u)),
        view_of(s.push(u)) == view_of(s).insert(u.username@, u.password@),
{
    let s2 = s.push(u);
    assert forall|i: int, j: int|
        0 <= i < s2.len() && 0 <= j < s2.len() && i != j implies (#[trigger] s2[i]).username@ != (
    #[trigger] s2[j]).username@ by {
        if i < s.len() && j < s.len() {
            assert(s2[i] == s[i] && s2[j] == s[j]);
        } else if i == s.len() {
            assert(s2[j] == s[j] && s2[i] == u);
            assert(s[j].username@ != u.username@);
        } else {
            assert(s2[i] == s[i] && s2[j] == u);
            assert(s[i].username@ != u.username@);
        }
    }
    let m1 = view_of(s2);
    let m2 = view_of(s).insert(u.username@, u.password@);
    assert forall|name: Seq<char>| #[trigger] m1.contains_key(name) <==> m2.contains_key(
        name,
    ) by {
        if seq_has_name(s2, name) {
            let k = name_index(s2, name);
            if k < s.len() {
                assert(s2[k] == s[k]);
                assert(seq_has_name(s, name));
            } else {
                assert(s2[k] == u);
            }
        }
        if seq_has_name(s, name) {
            let k = name_index(s, name);
            assert(s2[k] == s[k]);
            assert(seq_has_name(s2, name));
        }
        if name == u.username@ {
            assert(s2[s.len() as int] == u);
            assert(seq_has_name(s2, name));
        }
    }
    assert forall|name: Seq<char>| #[trigger] m1.contains_key(name) implies m1[name]
        == m2[name] by {
        let k = name_index(s2, name);
        assert(0 <= k < s2.len() && s2[k].username@ == name);
        if name == u.username@ {
            if k < s.len() {
                assert(s2[k] == s[k]);
                assert(seq_has_name(s, name));
            }
            assert(k == s.len());
            assert(s2[k] == u);
            assert(m1[name] == u.password@);
        } else {
            assert(k < s.len());
            assert(s2[k] == s[k]);
            lemma_found(s, name, k);
            assert(m1[name] == s[k].password@);
            assert(m2[name] == seq_hash_for(s, name));
        }
    }
    assert(m1 =~= m2);
}

/// Replacing the hash of one row, keeping its username, updates exactly one
/// map entry.
proof fn lemma_view_update(s: Seq<User>, i: int, s2: Seq<User>)
    requires
        distinct_usernames(s),
        0 <= i < s.len(),
        s2.len() == s.len(),
        forall|j: int| 0 <= j < s.len() && j != i ==> #[trigger] s2[j] == s[j],
        s2[i].username@ == s[i].username@,
    ensures
        distinct_usernames(s2),
        view_of(s2) == view_of(s).insert(s[i].username@, s2[i].password@),
{
    assert forall|a: int, b: int|
        0 <= a < s2.len() && 0 <= b < s2.len() && a != b implies (#[trigger] s2[a]).username@ != (
    #[trigger] s2[b]).username@ by {
        assert(s2[a].username@ == s[a].username@);
        assert(s2[b].username@ == s[b].username@);
    }
    let m1 = view_of(s2);
    let m2 = view_of(s).insert(s[i].username@, s2[i].password@);
    assert forall|name: Seq<char>| #[trigger] m1.contains_key(name) <==> m2.contains_key(
        name,
    ) by {
        if seq_has_name(s2, name) {
            let k = name_index(s2, name);
            assert(s2[k].username@ == s[k].username@);
            assert(seq_has_name(s, name));
        }
        if seq_has_name(s, name) {
            let k = name_index(s, name);
            assert(s2[k].username@ == s[k].username@);
            assert(seq_has_name(s2, name));
        }
    }
    assert forall|name: Seq<char>| #[trigger] m1.contains_key(name) implies m1[name]
        == m2[name] by {
        let k = name_index(s2, name);
        assert(0 <= k < s2.len() && s2[k].username@ == name);
        assert(s2[k].username@ == s[k].username@);
        if name == s[i].username@ {
            assert(k == i) by {
                if k != i {
                    assert(s[k].username@ != s[i].username@);
                }
            }
            assert(m1[name] == s2[i].password@);
        } else {
            assert(k != i);
            assert(s2[k] == s[k]);
            lemma_found(s, name, k);
            assert(m1[name] == s[k].password@);
            assert(m2[name] == seq_hash_for(s, name));
        }
    }
    assert(m1 =~= m2);
}

/// The credential store: the only owner of persisted credential rows.
/// Its abstract value is a map from username to stored password hash.
pub struct CredentialStore {
    users: Vec<User>,
}

impl View for CredentialStore {
    type V = Map<Seq<char>, Seq<char>>;

    closed spec fn view(&self) -> Map<Seq<char>, Seq<char>> {
        view_of(self.users@)
    }
}

impl CredentialStore {
    /// Usernames are unique: the storage-level uniqueness constraint.
    #[verifier::type_invariant]
    spec fn wf(self) -> bool {
        distinct_usernames(self.users@)
    }

    /// An empty store.
    pub fn new() -> (r: CredentialStore)
        ensures
            r@ == Map::<Seq<char>, Seq<char>>::empty(),
    {
        let r = CredentialStore { users: Vec::new() };
        proof {
            assert(r@ =~= Map::<Seq<char>, Seq<char>>::empty());
        }
        r
    }

    /// Looks a credential up by username.
    pub fn find_by_username(&self, username: &str) -> (r: Option<User>)
        ensures
            r is Some <==> self@.contains_key(username@),
            r matches Some(u) ==> u.username@ == username@ && u.password@ == self@[username@],
    {
        proof {
            use_type_invariant(self);
        }
        let target = username.to_owned();
        let n = self.users.len();
        let mut i: usize = 0;
        while i < n
            invariant
                n == self.users@.len(),
                0 <= i <= n,
                target@ == username@,
                distinct_usernames(self.users@),
                forall|j: int| 0 <= j < i ==> (#[trigger] self.users@[j]).username@ != username@,
            decreases n - i,
        {
            if self.users[i].username == target {
                let found = User {
                    username: self.users[i].username.clone(),
                    password: self.users[i].password.clone(),
                };
                proof {
                    lemma_found(self.users@, username@, i as int);
                }
                return Some(found);
            }
            i += 1;
        }
        proof {
            assert(!seq_has_name(self.users@, username@));
        }
        None
    }

    /// Inserts a fresh credential row. A row whose username is already
    /// present is rejected, as the storage layer's uniqueness constraint
    /// would reject it, and the store is left unchanged.
    pub fn insert(&mut self, user: User) -> (r: Result<(), AuthError>)
        ensures
            r is Ok <==> !old(self)@.contains_key(user.username@),
            r is Ok ==> final(self)@ == old(self)@.insert(user.username@, user.password@),
            r is Err ==> final(self)@ == old(self)@ && r == Err::<(), AuthError>(
                AuthError::DuplicateUsername,
            ),
    {
        proof {
            use_type_invariant(&*self);
        }
        let existing = self.find_by_username(user.username.as_str());
        if existing.is_some() {
            return Err(AuthError::DuplicateUsername);
        }
        let ghost s0 = self.users@;
        let mut users: Vec<User> = Vec::new();
        core::mem::swap(&mut users, &mut self.users);
        proof {
            lemma_view_push(s0, user);
        }
        users.push(user);
        core::mem::swap(&mut users, &mut self.users);
        Ok(())
    }

    /// Replaces the stored hash of the given username; reports whether the
    /// username was present.
    pub fn update_password_hash(&mut self, username: &str, new_hash: String) -> (updated: bool)
        ensures
            updated <==> old(self)@.contains_key(username@),
            updated ==> final(self)@ == old(self)@.insert(username@, new_hash@),
            !updated ==> final(self)@ == old(self)@,
    {
        proof {
            use_type_invariant(&*self);
        }
        let target = username.to_owned();
        let n = self.users.len();
        let mut i: usize = 0;
        while i < n
            invariant
                self.users@ == old(self).users@,
                n == self.users@.len(),
                0 <= i <= n,
                target@ == username@,
                distinct_usernames(self.users@),
                forall|j: int| 0 <= j < i ==> (#[trigger] self.users@[j]).username@ != username@,
            decreases n - i,
        {
            if self.users[i].username == target {
                let ghost s0 = self.users@;
                let mut users: Vec<User> = Vec::new();
                core::mem::swap(&mut users, &mut self.users);
                users[i].password = new_hash;
                proof {
                    lemma_view_update(s0, i as int, users@);
                    lemma_found(s0, username@, i as int);
                }
                core::mem::swap(&mut users, &mut self.users);
                return true;
            }
            i += 1;
        }
        proof {
            assert(!seq_has_name(self.users@, username@));
        }
        false
    }
}

impl CreateUser {
    /// Bundles a username with an already-hashed password for insertion.
    pub fn new(username: String, password: String) -> (r: CreateUser)
        ensures
            r.username@ == username@,
            r.password@ == password@,
    {
        CreateUser { username, password }
    }

    /// Persists the row. A uniqueness violation is reported as
    /// `DuplicateUsername`, exactly as a duplicate found up front.
    pub fn save(self, store: &mut CredentialStore) -> (r: Result<(), AuthError>)
        ensures
            r is Ok <==> !old(store)@.contains_key(self.username@),
            r is Ok ==> final(store)@ == old(store)@.insert(self.username@, self.password@),
            r is Err ==> final(store)@ == old(store)@ && r == Err::<(), AuthError>(
                AuthError::DuplicateUsername,
            ),
    {
        store.insert(User { username: self.username, password: self.password })
    }
}

} // verus!
