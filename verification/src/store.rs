//! Account store: user records, their invariants, and the state transitions
//! that the login and administration flows perform on them.
//!
//! The store keeps ids unique and usernames unique; usernames are folded to
//! lowercase by every caller that writes or looks one up, through
//! [`lowercase`].  Each mutating method is one state-machine transition with
//! an exact before/after contract; the service layer composes them.

use vstd::prelude::*;
use vstd::string::*;

verus! {

/// Account capability level.
#[derive(Clone, Copy, PartialEq, Eq, Structural, Debug)]
pub enum Role {
    /// Ordinary authenticated user.
    User,
    /// Administrator.
    Admin,
}

/// The wire spelling of a role, as it travels in token claims and responses.
pub open spec fn role_chars(role: Role) -> Seq<char> {
    match role {
        Role::Admin => "admin"@,
        Role::User => "user"@,
    }
}

/// Spell a role out as its wire string.
pub fn role_to_string(role: Role) -> (s: String)
    ensures
        s@ == role_chars(role),
{
    match role {
        Role::Admin => String::from_str("admin"),
        Role::User => String::from_str("user"),
    }
}

/// Which role a wire string denotes, if any.
pub open spec fn spec_parse_role(s: Seq<char>) -> Option<Role> {
    if s == "admin"@ {
        Some(Role::Admin)
    } else if s == "user"@ {
        Some(Role::User)
    } else {
        None
    }
}

/// Parse a wire string back into a role; anything but the two known
/// spellings is rejected.
pub fn parse_role(s: &str) -> (r: Option<Role>)
    ensures
        r == spec_parse_role(s@),
{
    let v = String::from_str(s);
    if v == String::from_str("admin") {
        Some(Role::Admin)
    } else if v == String::from_str("user") {
        Some(Role::User)
    } else {
        None
    }
}

/// The two role spellings are distinct, so spelling a role out and parsing
/// it back returns the same role.
pub proof fn lemma_role_roundtrip(role: Role)
    ensures
        spec_parse_role(role_chars(role)) == Some(role),
{
    reveal_strlit("admin");
    reveal_strlit("user");
    assert("admin"@.len() == 5);
    assert("user"@.len() == 4);
}

/// The lowercase folding applied to every username on its way in and out.
pub uninterp spec fn lower_of(s: Seq<char>) -> Seq<char>;

/// Fold a string to lowercase.
///
/// Relies on `str::to_lowercase`: the result is the Unicode lowercase
/// mapping of the input, a function of the characters alone.
#[verifier::external_body]
pub(crate) fn lowercase(s: &str) -> (r: String)
    ensures
        r@ == lower_of(s@),
{
    s.to_lowercase()
}

/// One account record.
#[derive(Debug)]
pub struct User {
    /// Stable primary key.
    pub id: i64,
    /// Unique, stored lowercase.
    pub username: String,
    /// Opaque password digest; never the plaintext, never shown to clients.
    pub password_hash: String,
    /// Capability level.
    pub role: Role,
    /// Count of consecutive failed password checks since the last success.
    pub failed_login_attempts: u64,
    /// Seconds since the epoch of the last successful login, if any.
    pub last_login_at: Option<u64>,
    /// Whether the account must set a new password after its next login.
    pub force_password_change: bool,
    /// Whether the account is barred from logging in and from using tokens.
    pub is_disabled: bool,
}

/// No two records share an id.
pub open spec fn unique_ids(s: Seq<User>) -> bool {
    forall|i: int, j: int| #![trigger s[i].id, s[j].id]
        0 <= i < j < s.len() ==> s[i].id != s[j].id
}

/// No two records share a username.
pub open spec fn unique_names(s: Seq<User>) -> bool {
    forall|i: int, j: int| #![trigger s[i].username, s[j].username]
        0 <= i < j < s.len() ==> s[i].username@ != s[j].username@
}

/// Whether some record carries this id.
pub open spec fn has_user_id(s: Seq<User>, id: i64) -> bool {
    exists|i: int| 0 <= i < s.len() && (#[trigger] s[i].id) == id
}

/// The index of the record carrying this id (meaningful under `unique_ids`).
pub open spec fn user_idx(s: Seq<User>, id: i64) -> int {
    choose|i: int| 0 <= i < s.len() && (#[trigger] s[i].id) == id
}

/// Whether some record carries this username.
pub open spec fn has_username(s: Seq<User>, name: Seq<char>) -> bool {
    exists|i: int| 0 <= i < s.len() && (#[trigger] s[i].username)@ == name
}

/// The index of the record carrying this username (meaningful under
/// `unique_names`).
pub open spec fn username_idx(s: Seq<User>, name: Seq<char>) -> int {
    choose|i: int| 0 <= i < s.len() && (#[trigger] s[i].username)@ == name
}

/// Under unique ids, an index whose record carries `id` is the index that
/// `user_idx` denotes.
pub proof fn lemma_user_idx_is(s: Seq<User>, id: i64, i: int)
    requires
        unique_ids(s),
        0 <= i < s.len(),
        s[i].id == id,
    ensures
        has_user_id(s, id),
        user_idx(s, id) == i,
{
    assert(has_user_id(s, id));
    let k = user_idx(s, id);
    if k != i {
        if k < i {
            assert(s[k].id != s[i].id);
        } else {
            assert(s[i].id != s[k].id);
        }
    }
}

/// Under unique usernames, an index whose record carries `name` is the index
/// that `username_idx` denotes.
pub proof fn lemma_username_idx_is(s: Seq<User>, name: Seq<char>, i: int)
    requires
        unique_names(s),
        0 <= i < s.len(),
        s[i].username@ == name,
    ensures
        has_username(s, name),
        username_idx(s, name) == i,
{
    assert(has_username(s, name));
    let k = username_idx(s, name);
    if k != i {
        if k < i {
            assert(s[k].username@ != s[i].username@);
        } else {
            assert(s[i].username@ != s[k].username@);
        }
    }
}

/// A failed password check increments the counter by exactly one; only at
/// the counter's ceiling does it stay put instead of wrapping.
pub open spec fn inc_attempts(n: u64) -> u64 {
    if n == u64::MAX {
        n
    } else {
        (n + 1) as u64
    }
}

/// Replacing a record with one of the same id and username preserves both
/// uniqueness invariants.
proof fn lemma_update_same_keys(s: Seq<User>, i: int, u: User)
    requires
        unique_ids(s),
        unique_names(s),
        0 <= i < s.len(),
        u.id == s[i].id,
        u.username@ == s[i].username@,
    ensures
        unique_ids(s.update(i, u)),
        unique_names(s.update(i, u)),
{
    let t = s.update(i, u);
    assert forall|p: int, q: int| #![trigger t[p].id, t[q].id]
        0 <= p < q < t.len() implies t[p].id != t[q].id by {
        assert(s[p].id != s[q].id);
    }
    assert forall|p: int, q: int| #![trigger t[p].username, t[q].username]
        0 <= p < q < t.len() implies t[p].username@ != t[q].username@ by {
        assert(s[p].username@ != s[q].username@);
    }
}

/// Removing a record preserves both uniqueness invariants.
proof fn lemma_remove_keeps_unique(s: Seq<User>, i: int)
    requires
        unique_ids(s),
        unique_names(s),
        0 <= i < s.len(),
    ensures
        unique_ids(s.remove(i)),
        unique_names(s.remove(i)),
{
    let t = s.remove(i);
    assert forall|p: int, q: int| #![trigger t[p].id, t[q].id]
        0 <= p < q < t.len() implies t[p].id != t[q].id by {
        let sp: int = if p < i {
            p
        } else {
            p + 1
        };
        let sq: int = if q < i {
            q
        } else {
            q + 1
        };
        assert(t[p] == s[sp]);
        assert(t[q] == s[sq]);
        assert(s[sp].id != s[sq].id);
    }
    assert forall|p: int, q: int| #![trigger t[p].username, t[q].username]
        0 <= p < q < t.len() implies t[p].username@ != t[q].username@ by {
        let sp: int = if p < i {
            p
        } else {
            p + 1
        };
        let sq: int = if q < i {
            q
        } else {
            q + 1
        };
        assert(t[p] == s[sp]);
        assert(t[q] == s[sq]);
        assert(s[sp].username@ != s[sq].username@);
    }
}

/// The in-memory account table.
pub struct UserStore {
    users: Vec<User>,
    next_id: i64,
}

impl View for UserStore {
    type V = Seq<User>;

    closed spec fn view(&self) -> Seq<User> {
        self.users@
    }
}

impl UserStore {
    /// The id the next created account will receive.
    pub closed spec fn next_id(&self) -> int {
        self.next_id as int
    }

    /// Well-formedness: ids and usernames are unique, and every id lies
    /// below the next one to be handed out.
    pub open spec fn wf(&self) -> bool {
        &&& unique_ids(self@)
        &&& unique_names(self@)
        &&& 1 <= self.next_id() <= i64::MAX
        &&& forall|i: int| 0 <= i < self@.len() ==> (#[trigger] self@[i].id) < self.next_id()
    }

    /// An empty store; the first account will get id 1.
    pub fn new() -> (r: UserStore)
        ensures
            r.wf(),
            r@ == Seq::<User>::empty(),
            r.next_id() == 1,
    {
        UserStore { users: Vec::new(), next_id: 1 }
    }

    /// Whether no id is left to hand out; account creation demands that
    /// this is still false.
    pub fn id_space_exhausted(&self) -> (b: bool)
        ensures
            b == (self.next_id() == i64::MAX),
    {
        self.next_id == i64::MAX
    }

    /// Number of accounts.
    pub fn len(&self) -> (n: usize)
        ensures
            n == self@.len(),
    {
        self.users.len()
    }

    /// Borrow the record at an index.
    pub fn get(&self, i: usize) -> (u: &User)
        requires
            i < self@.len(),
        ensures
            *u == self@[i as int],
    {
        &self.users[i]
    }

    /// Find the index of the record with this id.
    pub fn find_by_id(&self, id: i64) -> (r: Option<usize>)
        ensures
            match r {
                Some(i) => i < self@.len() && self@[i as int].id == id && has_user_id(self@, id),
                None => !has_user_id(self@, id),
            },
    {
        let mut i: usize = 0;
        while i < self.users.len()
            invariant
                i <= self@.len(),
                forall|k: int| 0 <= k < i ==> (#[trigger] self@[k].id) != id,
            decreases self@.len() - i,
        {
            if self.users[i].id == id {
                return Some(i);
            }
            i = i + 1;
        }
        None
    }

    /// Find the index of the record with this (already folded) username.
    pub fn find_by_name(&self, name: &String) -> (r: Option<usize>)
        ensures
            match r {
                Some(i) => i < self@.len() && self@[i as int].username@ == name@ && has_username(
                    self@,
                    name@,
                ),
                None => !has_username(self@, name@),
            },
    {
        let mut i: usize = 0;
        while i < self.users.len()
            invariant
                i <= self@.len(),
                forall|k: int| 0 <= k < i ==> (#[trigger] self@[k].username)@ != name@,
            decreases self@.len() - i,
        {
            if self.users[i].username == *name {
                return Some(i);
            }
            i = i + 1;
        }
        None
    }

    /// Create an account: fresh id, the given (already folded) username and
    /// digest, counter at zero, never logged in, not disabled.
    pub fn add_user(
        &mut self,
        username: String,
        password_hash: String,
        role: Role,
        force_password_change: bool,
    ) -> (id: i64)
        requires
            old(self).wf(),
            !has_username(old(self)@, username@),
            old(self).next_id() < i64::MAX,
        ensures
            final(self).wf(),
            id == old(self).next_id(),
            final(self).next_id() == old(self).next_id() + 1,
            final(self)@ == old(self)@.push(
                (User {
                    id,
                    username,
                    password_hash,
                    role,
                    failed_login_attempts: 0,
                    last_login_at: None,
                    force_password_change,
                    is_disabled: false,
                }),
            ),
    {
        let id = self.next_id;
        let u = User {
            id,
            username,
            password_hash,
            role,
            failed_login_attempts: 0,
            last_login_at: None,
            force_password_change,
            is_disabled: false,
        };
        self.users.push(u);
        self.next_id = self.next_id + 1;
        proof {
            let s = self@;
            assert forall|p: int, q: int| #![trigger s[p].id, s[q].id]
                0 <= p < q < s.len() implies s[p].id != s[q].id by {
                if q < s.len() - 1 {
                    assert(old(self)@[p].id != old(self)@[q].id);
                } else {
                    assert(old(self)@[p].id < old(self).next_id());
                }
            }
            assert forall|p: int, q: int| #![trigger s[p].username, s[q].username]
                0 <= p < q < s.len() implies s[p].username@ != s[q].username@ by {
                if q < s.len() - 1 {
                    assert(old(self)@[p].username@ != old(self)@[q].username@);
                } else {
                    assert(!has_username(old(self)@, s[q].username@));
                    assert(old(self)@[p].username@ != s[q].username@);
                }
            }
        }
        id
    }

    /// Replace the record at `i`, keeping its id and username.
    fn replace_at(&mut self, i: usize, u: User)
        requires
            old(self).wf(),
            i < old(self)@.len(),
            u.id == old(self)@[i as int].id,
            u.username@ == old(self)@[i as int].username@,
        ensures
            final(self).wf(),
            final(self).next_id() == old(self).next_id(),
            final(self)@ == old(self)@.update(i as int, u),
    {
        proof {
            lemma_update_same_keys(self@, i as int, u);
        }
        self.users[i] = u;
    }

    /// A failed password check: step the counter, touch nothing else.
    pub fn record_login_failure(&mut self, i: usize)
        requires
            old(self).wf(),
            i < old(self)@.len(),
        ensures
            final(self).wf(),
            final(self).next_id() == old(self).next_id(),
            final(self)@ == old(self)@.update(
                i as int,
                (User {
                    failed_login_attempts: inc_attempts(
                        old(self)@[i as int].failed_login_attempts,
                    ),
                    ..old(self)@[i as int]
                }),
            ),
    {
        let u = &self.users[i];
        let stepped: u64 = if u.failed_login_attempts == u64::MAX {
            u.failed_login_attempts
        } else {
            u.failed_login_attempts + 1
        };
        let nu = User {
            id: u.id,
            username: u.username.clone(),
            password_hash: u.password_hash.clone(),
            role: u.role,
            failed_login_attempts: stepped,
            last_login_at: u.last_login_at,
            force_password_change: u.force_password_change,
            is_disabled: u.is_disabled,
        };
        self.replace_at(i, nu);
    }

    /// A successful authentication: reset the counter, stamp the login time.
    pub fn record_login_success(&mut self, i: usize, now: u64)
        requires
            old(self).wf(),
            i < old(self)@.len(),
        ensures
            final(self).wf(),
            final(self).next_id() == old(self).next_id(),
            final(self)@ == old(self)@.update(
                i as int,
                (User {
                    failed_login_attempts: 0,
                    last_login_at: Some(now),
                    ..old(self)@[i as int]
                }),
            ),
    {
        let u = &self.users[i];
        let nu = User {
            id: u.id,
            username: u.username.clone(),
            password_hash: u.password_hash.clone(),
            role: u.role,
            failed_login_attempts: 0,
            last_login_at: Some(now),
            force_password_change: u.force_password_change,
            is_disabled: u.is_disabled,
        };
        self.replace_at(i, nu);
    }

    /// Admin role change.
    pub fn set_role(&mut self, i: usize, role: Role)
        requires
            old(self).wf(),
            i < old(self)@.len(),
        ensures
            final(self).wf(),
            final(self).next_id() == old(self).next_id(),
            final(self)@ == old(self)@.update(i as int, (User { role, ..old(self)@[i as int] })),
    {
        let u = &self.users[i];
        let nu = User {
            id: u.id,
            username: u.username.clone(),
            password_hash: u.password_hash.clone(),
            role,
            failed_login_attempts: u.failed_login_attempts,
            last_login_at: u.last_login_at,
            force_password_change: u.force_password_change,
            is_disabled: u.is_disabled,
        };
        self.replace_at(i, nu);
    }

    /// Admin disable or re-enable.
    pub fn set_disabled(&mut self, i: usize, is_disabled: bool)
        requires
            old(self).wf(),
            i < old(self)@.len(),
        ensures
            final(self).wf(),
            final(self).next_id() == old(self).next_id(),
            final(self)@ == old(self)@.update(i as int, (User { is_disabled, ..old(self)@[i as int] })),
    {
        let u = &self.users[i];
        let nu = User {
            id: u.id,
            username: u.username.clone(),
            password_hash: u.password_hash.clone(),
            role: u.role,
            failed_login_attempts: u.failed_login_attempts,
            last_login_at: u.last_login_at,
            force_password_change: u.force_password_change,
            is_disabled,
        };
        self.replace_at(i, nu);
    }

    /// Bootstrap upsert on an existing account: new digest, new role, and
    /// the forced-change flag as given; counter and history are untouched.
    pub fn overwrite_credentials(
        &mut self,
        i: usize,
        password_hash: String,
        role: Role,
        force_password_change: bool,
    )
        requires
            old(self).wf(),
            i < old(self)@.len(),
        ensures
            final(self).wf(),
            final(self).next_id() == old(self).next_id(),
            final(self)@ == old(self)@.update(
                i as int,
                (User { password_hash, role, force_password_change, ..old(self)@[i as int] }),
            ),
    {
        let u = &self.users[i];
        let nu = User {
            id: u.id,
            username: u.username.clone(),
            password_hash,
            role,
            failed_login_attempts: u.failed_login_attempts,
            last_login_at: u.last_login_at,
            force_password_change,
            is_disabled: u.is_disabled,
        };
        self.replace_at(i, nu);
    }

    /// Admin password reset: new digest, counter cleared, login history
    /// cleared, and the forced-change flag imposed again.
    pub fn reset_password(&mut self, i: usize, password_hash: String)
        requires
            old(self).wf(),
            i < old(self)@.len(),
        ensures
            final(self).wf(),
            final(self).next_id() == old(self).next_id(),
            final(self)@ == old(self)@.update(
                i as int,
                (User {
                    password_hash,
                    failed_login_attempts: 0,
                    last_login_at: None,
                    force_password_change: true,
                    ..old(self)@[i as int]
                }),
            ),
    {
        let u = &self.users[i];
        let nu = User {
            id: u.id,
            username: u.username.clone(),
            password_hash,
            role: u.role,
            failed_login_attempts: 0,
            last_login_at: None,
            force_password_change: true,
            is_disabled: u.is_disabled,
        };
        self.replace_at(i, nu);
    }

    /// Self-service password change: new digest, forced-change flag cleared;
    /// the counter and the disabled flag are untouched.
    pub fn change_password(&mut self, i: usize, password_hash: String)
        requires
            old(self).wf(),
            i < old(self)@.len(),
        ensures
            final(self).wf(),
            final(self).next_id() == old(self).next_id(),
            final(self)@ == old(self)@.update(
                i as int,
                (User {
                    password_hash,
                    force_password_change: false,
                    ..old(self)@[i as int]
                }),
            ),
    {
        let u = &self.users[i];
        let nu = User {
            id: u.id,
            username: u.username.clone(),
            password_hash,
            role: u.role,
            failed_login_attempts: u.failed_login_attempts,
            last_login_at: u.last_login_at,
            force_password_change: false,
            is_disabled: u.is_disabled,
        };
        self.replace_at(i, nu);
    }

    /// Delete the record at `i`.
    pub fn remove_at(&mut self, i: usize)
        requires
            old(self).wf(),
            i < old(self)@.len(),
        ensures
            final(self).wf(),
            final(self).next_id() == old(self).next_id(),
            final(self)@ == old(self)@.remove(i as int),
    {
        proof {
            lemma_remove_keeps_unique(self@, i as int);
        }
        self.users.remove(i);
    }
}

} // verus!
