//! Refresh token ledger: persistent, single-use, expiring opaque tokens.
//!
//! A refresh token is a high-entropy random string acting as a pure
//! capability reference: the ledger maps it to the owning user and an
//! absolute expiry.  At most one entry ever carries a given token value.
//! An entry is consumed — removed — the instant it is redeemed or found
//! expired, and is never reused; revocation is an unconditional, idempotent
//! removal.

use vstd::prelude::*;
use vstd::seq_lib::*;

use crate::random::is_ascii_alphanumeric;
use crate::random::sample_alphanumeric;

verus! {

/// One persisted refresh token.
#[derive(Debug)]
pub struct RefreshEntry {
    /// The opaque token string, unique, its own lookup key.
    pub token: String,
    /// The owning user.
    pub user_id: i64,
    /// Absolute expiry, seconds since the epoch.
    pub expires_at: u64,
}

/// No two entries share a token value.
pub open spec fn unique_tokens(s: Seq<RefreshEntry>) -> bool {
    forall|i: int, j: int| #![trigger s[i].token, s[j].token]
        0 <= i < j < s.len() ==> s[i].token@ != s[j].token@
}

/// Whether some entry carries this token value.
pub open spec fn has_token(s: Seq<RefreshEntry>, t: Seq<char>) -> bool {
    exists|i: int| 0 <= i < s.len() && (#[trigger] s[i].token)@ == t
}

/// The index of the entry carrying this token (meaningful under
/// `unique_tokens`).
pub open spec fn token_idx(s: Seq<RefreshEntry>, t: Seq<char>) -> int {
    choose|i: int| 0 <= i < s.len() && (#[trigger] s[i].token)@ == t
}

/// The ledger after the entry for `t`, if any, is consumed.
pub open spec fn remove_token(s: Seq<RefreshEntry>, t: Seq<char>) -> Seq<RefreshEntry> {
    if has_token(s, t) {
        s.remove(token_idx(s, t))
    } else {
        s
    }
}

/// Under unique tokens, an index whose entry carries `t` is the index that
/// `token_idx` denotes.
pub proof fn lemma_token_idx_is(s: Seq<RefreshEntry>, t: Seq<char>, i: int)
    requires
        unique_tokens(s),
        0 <= i < s.len(),
        s[i].token@ == t,
    ensures
        has_token(s, t),
        token_idx(s, t) == i,
{
    assert(has_token(s, t));
    let k = token_idx(s, t);
    if k != i {
        if k < i {
            assert(s[k].token@ != s[i].token@);
        } else {
            assert(s[i].token@ != s[k].token@);
        }
    }
}

/// Consuming a token's entry removes the only occurrence of that token and
/// keeps the remaining tokens unique.
pub proof fn lemma_remove_token_gone(s: Seq<RefreshEntry>, t: Seq<char>)
    requires
        unique_tokens(s),
    ensures
        !has_token(remove_token(s, t), t),
        unique_tokens(remove_token(s, t)),
        forall|u: Seq<char>|
            u != t ==> #[trigger] has_token(remove_token(s, t), u) == has_token(s, u),
{
    if has_token(s, t) {
        let i = token_idx(s, t);
        let r = s.remove(i);
        assert forall|p: int, q: int| #![trigger r[p].token, r[q].token]
            0 <= p < q < r.len() implies r[p].token@ != r[q].token@ by {
            let sp: int = if p < i {
                p
            } else {
                p + 1
            };
            let sq: int = if q < i {
                q
            } else {
                q + 1
            };
            assert(r[p] == s[sp]);
            assert(r[q] == s[sq]);
            assert(s[sp].token@ != s[sq].token@);
        }
        assert forall|p: int| 0 <= p < r.len() implies (#[trigger] r[p].token)@ != t by {
            let sp: int = if p < i {
                p
            } else {
                p + 1
            };
            assert(r[p] == s[sp]);
            if s[sp].token@ == t {
                lemma_token_idx_is(s, t, sp);
            }
        }
        assert forall|u: Seq<char>| u != t implies #[trigger] has_token(r, u) == has_token(
            s,
            u,
        ) by {
            if has_token(s, u) {
                let k = choose|k: int| 0 <= k < s.len() && (#[trigger] s[k].token)@ == u;
                if k < i {
                    assert(r[k] == s[k]);
                } else {
                    assert(k != i);
                    assert(r[k - 1] == s[k]);
                }
                assert(has_token(r, u));
            }
            if has_token(r, u) {
                let k = choose|k: int| 0 <= k < r.len() && (#[trigger] r[k].token)@ == u;
                let sk: int = if k < i {
                    k
                } else {
                    k + 1
                };
                assert(r[k] == s[sk]);
                assert(has_token(s, u));
            }
        }
    }
}

/// Redeeming consumes: after the redeemed token's entry is removed and a
/// rotated entry with a different token value is persisted in its place, the
/// redeemed token is no longer present in the ledger, so a second redemption
/// of that same token must fail as invalid.
pub proof fn lemma_rotation_consumes(s: Seq<RefreshEntry>, t: Seq<char>, e: RefreshEntry)
    requires
        unique_tokens(s),
        e.token@ != t,
    ensures
        !has_token(remove_token(remove_token(s, t), e.token@).push(e), t),
        unique_tokens(remove_token(remove_token(s, t), e.token@).push(e)),
{
    lemma_remove_token_gone(s, t);
    let l1 = remove_token(s, t);
    lemma_remove_token_gone(l1, e.token@);
    let l2 = remove_token(l1, e.token@);
    assert(!has_token(l2, t));
    lemma_push_fresh_unique(l2, e);
    let p = l2.push(e);
    assert forall|k: int| 0 <= k < p.len() implies (#[trigger] p[k].token)@ != t by {
        if k < l2.len() {
            assert(p[k] == l2[k]);
            if l2[k].token@ == t {
                assert(has_token(l2, t));
            }
        } else {
            assert(p[k] == e);
        }
    }
}

/// Appending an entry whose token is absent keeps tokens unique.
proof fn lemma_push_fresh_unique(s: Seq<RefreshEntry>, e: RefreshEntry)
    requires
        unique_tokens(s),
        !has_token(s, e.token@),
    ensures
        unique_tokens(s.push(e)),
{
    let p = s.push(e);
    assert forall|i: int, j: int| #![trigger p[i].token, p[j].token]
        0 <= i < j < p.len() implies p[i].token@ != p[j].token@ by {
        if j < s.len() {
            assert(p[i] == s[i]);
            assert(p[j] == s[j]);
            assert(s[i].token@ != s[j].token@);
        } else {
            assert(p[i] == s[i]);
            assert(p[j] == e);
            if s[i].token@ == e.token@ {
                assert(has_token(s, e.token@));
            }
        }
    }
}

/// Revocation is idempotent: consuming a token's entry a second time
/// changes nothing, since the first consumption already removed the only
/// entry carrying it.
pub proof fn lemma_revoke_idempotent(s: Seq<RefreshEntry>, t: Seq<char>)
    requires
        unique_tokens(s),
    ensures
        remove_token(remove_token(s, t), t) == remove_token(s, t),
{
    lemma_remove_token_gone(s, t);
}

/// Generate a fresh high-entropy opaque refresh token: 64 random ASCII
/// alphanumeric characters, carrying no embedded claims.
pub fn generate_refresh_token() -> (r: String)
    ensures
        r@.len() == 64,
        forall|i: int| 0 <= i < r@.len() ==> is_ascii_alphanumeric(#[trigger] r@[i]),
{
    sample_alphanumeric(64)
}

/// The in-memory refresh token table.
pub struct RefreshLedger {
    entries: Vec<RefreshEntry>,
}

impl View for RefreshLedger {
    type V = Seq<RefreshEntry>;

    closed spec fn view(&self) -> Seq<RefreshEntry> {
        self.entries@
    }
}

impl RefreshLedger {
    /// Well-formedness: at most one entry per token value.
    pub open spec fn wf(&self) -> bool {
        unique_tokens(self@)
    }

    /// An empty ledger.
    pub fn new() -> (r: RefreshLedger)
        ensures
            r.wf(),
            r@ == Seq::<RefreshEntry>::empty(),
    {
        RefreshLedger { entries: Vec::new() }
    }

    /// Number of live entries.
    pub fn len(&self) -> (n: usize)
        ensures
            n == self@.len(),
    {
        self.entries.len()
    }

    /// Borrow the entry at an index.
    pub fn get(&self, i: usize) -> (e: &RefreshEntry)
        requires
            i < self@.len(),
        ensures
            *e == self@[i as int],
    {
        &self.entries[i]
    }

    /// Find the index of the entry carrying this token.
    pub fn find(&self, token: &String) -> (r: Option<usize>)
        ensures
            match r {
                Some(i) => i < self@.len() && self@[i as int].token@ == token@ && has_token(
                    self@,
                    token@,
                ),
                None => !has_token(self@, token@),
            },
    {
        let mut i: usize = 0;
        while i < self.entries.len()
            invariant
                i <= self@.len(),
                forall|k: int| 0 <= k < i ==> (#[trigger] self@[k].token)@ != token@,
            decreases self@.len() - i,
        {
            if self.entries[i].token == *token {
                return Some(i);
            }
            i = i + 1;
        }
        None
    }

    /// Remove the entry carrying this token, if any; idempotent, and exactly
    /// what logout and redemption use to consume a token.
    pub fn remove(&mut self, token: &String)
        requires
            old(self).wf(),
        ensures
            final(self).wf(),
            final(self)@ == remove_token(old(self)@, token@),
            !has_token(final(self)@, token@),
    {
        proof {
            lemma_remove_token_gone(old(self)@, token@);
        }
        match self.find(token) {
            Some(i) => {
                proof {
                    lemma_token_idx_is(self@, token@, i as int);
                }
                self.entries.remove(i);
            },
            None => (),
        }
    }

    /// Persist a token for a user: any previous entry with the same token
    /// value is replaced, so token values stay unique.
    pub fn insert(&mut self, token: String, user_id: i64, expires_at: u64)
        requires
            old(self).wf(),
        ensures
            final(self).wf(),
            final(self)@ == remove_token(old(self)@, token@).push(
                (RefreshEntry { token, user_id, expires_at }),
            ),
    {
        proof {
            lemma_remove_token_gone(old(self)@, token@);
        }
        let e = RefreshEntry { token, user_id, expires_at };
        match self.find(&e.token) {
            Some(i) => {
                proof {
                    lemma_token_idx_is(self@, e.token@, i as int);
                }
                self.entries.remove(i);
            },
            None => (),
        }
        proof {
            lemma_push_fresh_unique(self@, e);
        }
        self.entries.push(e);
    }

    /// Drop every entry owned by a user: the cascade that accompanies the
    /// user's deletion.
    pub fn remove_user(&mut self, user_id: i64)
        requires
            old(self).wf(),
        ensures
            final(self).wf(),
            final(self)@ == old(self)@.filter(owned_by_other(user_id)),
    {
        let ghost s = self.entries@;
        let mut kept: Vec<RefreshEntry> = Vec::new();
        let mut i: usize = 0;
        while i < self.entries.len()
            invariant
                i <= s.len(),
                self.entries@ == s,
                kept@ == s.subrange(0, i as int).filter(owned_by_other(user_id)),
            decreases s.len() - i,
        {
            let ghost prefix = s.subrange(0, i as int);
            let ghost prefix1 = s.subrange(0, i as int + 1);
            let e = &self.entries[i];
            if e.user_id != user_id {
                let kept_entry = RefreshEntry {
                    token: e.token.clone(),
                    user_id: e.user_id,
                    expires_at: e.expires_at,
                };
                assert(kept_entry == s[i as int]);
                kept.push(kept_entry);
            }
            proof {
                reveal(Seq::filter);
                assert(prefix1.drop_last() =~= prefix);
                assert(prefix1.last() == s[i as int]);
                assert(kept@ == prefix1.filter(owned_by_other(user_id)));
            }
            i = i + 1;
        }
        proof {
            assert(s.subrange(0, s.len() as int) =~= s);
            lemma_filter_keeps_unique(s, user_id);
        }
        self.entries = kept;
    }
}

/// The predicate that survives the cascade delete for `user_id`: entries
/// owned by any other user.
pub open spec fn owned_by_other(user_id: i64) -> spec_fn(RefreshEntry) -> bool {
    |e: RefreshEntry| e.user_id != user_id
}

/// Filtering a ledger by owner keeps tokens unique.
proof fn lemma_filter_keeps_unique(s: Seq<RefreshEntry>, user_id: i64)
    requires
        unique_tokens(s),
    ensures
        unique_tokens(s.filter(owned_by_other(user_id))),
    decreases s.len(),
{
    reveal(Seq::filter);
    let pred = owned_by_other(user_id);
    if s.len() == 0 {
    } else {
        let prefix = s.drop_last();
        lemma_filter_keeps_unique(prefix, user_id);
        let f = prefix.filter(pred);
        if pred(s.last()) {
            assert forall|k: int| 0 <= k < f.len() implies (#[trigger] f[k].token)@
                != s.last().token@ by {
                lemma_filter_in_original(prefix, pred, k);
                let j = choose|j: int|
                    0 <= j < prefix.len() && #[trigger] prefix[j] == f[k];
                assert(s[j].token@ != s[s.len() - 1].token@);
            }
            assert forall|i: int, j: int| #![trigger f.push(s.last())[i].token, f.push(s.last())[j].token]
                0 <= i < j < f.push(s.last()).len() implies f.push(s.last())[i].token@ != f.push(
                s.last(),
            )[j].token@ by {
                if j < f.len() {
                    assert(f[i].token@ != f[j].token@);
                }
            }
            assert(s.filter(pred) == f.push(s.last()));
        } else {
            assert(s.filter(pred) == f);
        }
    }
}

/// Every element of a filtered sequence occurs in the original.
proof fn lemma_filter_in_original(s: Seq<RefreshEntry>, pred: spec_fn(RefreshEntry) -> bool, k: int)
    requires
        0 <= k < s.filter(pred).len(),
    ensures
        exists|j: int| 0 <= j < s.len() && #[trigger] s[j] == s.filter(pred)[k],
    decreases s.len(),
{
    reveal(Seq::filter);
    if s.len() == 0 {
    } else {
        let prefix = s.drop_last();
        let f = prefix.filter(pred);
        if pred(s.last()) && k == f.len() {
            assert(s[s.len() - 1] == s.filter(pred)[k]);
        } else {
            lemma_filter_in_original(prefix, pred, k);
            let j = choose|j: int| 0 <= j < prefix.len() && #[trigger] prefix[j] == f[k];
            assert(s[j] == s.filter(pred)[k]);
        }
    }
}

} // verus!
