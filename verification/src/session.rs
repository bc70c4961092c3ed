//! Session lifecycle: issuing, validating and invalidating the time-bounded
//! tokens that gate every command. The session table is modelled as a map
//! from token to session record; tokens are wide random identifiers.

use vstd::prelude::*;

verus! {

/// Ghost record of one session, as the contracts speak of it.
pub struct SessionView {
    pub token: Seq<char>,
    pub user_id: Seq<char>,
    pub created_at: u64,
    pub expires_at: u64,
}

/// One issued session: an opaque token bound to a user and a validity window.
pub struct Session {
    pub token: String,
    pub user_id: String,
    pub created_at: u64,
    pub expires_at: u64,
}

impl View for Session {
    type V = SessionView;

    open spec fn view(&self) -> SessionView {
        SessionView {
            token: self.token@,
            user_id: self.user_id@,
            created_at: self.created_at,
            expires_at: self.expires_at,
        }
    }
}

/// No two entries share a token, so the table below is well defined.
pub open spec fn distinct_tokens(s: Seq<Session>) -> bool {
    forall|i: int, j: int| 0 <= i < j < s.len() ==> s[i].token@ != s[j].token@
}

/// The session table a sequence of entries denotes.
pub open spec fn seq_table(s: Seq<Session>) -> Map<Seq<char>, SessionView> {
    Map::new(
        |t: Seq<char>| exists|i: int| 0 <= i < s.len() && s[i].token@ == t,
        |t: Seq<char>|
            {
                let i = choose|i: int| 0 <= i < s.len() && s[i].token@ == t;
                s[i]@
            },
    )
}

proof fn lemma_seq_table_at(s: Seq<Session>, i: int)
    requires
        distinct_tokens(s),
        0 <= i < s.len(),
    ensures
        seq_table(s).contains_key(s[i].token@),
        seq_table(s)[s[i].token@] == s[i]@,
{
    let t = s[i].token@;
    assert(seq_table(s).contains_key(t));
    let j = choose|j: int| 0 <= j < s.len() && s[j].token@ == t;
    assert(s[j].token@ == t);
    if i < j {
        assert(s[i].token@ != s[j].token@);
    } else if j < i {
        assert(s[j].token@ != s[i].token@);
    }
}

proof fn lemma_seq_table_absent(s: Seq<Session>, t: Seq<char>)
    requires
        forall|i: int| 0 <= i < s.len() ==> s[i].token@ != t,
    ensures
        !seq_table(s).contains_key(t),
{
}

proof fn lemma_seq_table_push(s: Seq<Session>, x: Session)
    requires
        distinct_tokens(s),
        forall|i: int| 0 <= i < s.len() ==> s[i].token@ != x.token@,
    ensures
        distinct_tokens(s.push(x)),
        seq_table(s.push(x)) =~= seq_table(s).insert(x.token@, x@),
{
    let p = s.push(x);
    assert forall|i: int, j: int| 0 <= i < j < p.len() implies p[i].token@ != p[j].token@ by {
        if j < s.len() {
            assert(s[i].token@ != s[j].token@);
        } else {
            assert(p[j] == x);
            assert(s[i].token@ != x.token@);
        }
    }
    assert forall|t: Seq<char>| #[trigger] seq_table(p).contains_key(t) == seq_table(s).insert(
        x.token@,
        x@,
    ).contains_key(t) by {
        if t == x.token@ {
            assert(p[s.len() as int].token@ == t);
        } else {
            if seq_table(p).contains_key(t) {
                let i = choose|i: int| 0 <= i < p.len() && p[i].token@ == t;
                assert(i < s.len());
                assert(s[i].token@ == t);
            }
            if seq_table(s).contains_key(t) {
                let i = choose|i: int| 0 <= i < s.len() && s[i].token@ == t;
                assert(p[i].token@ == t);
            }
        }
    }
    assert forall|t: Seq<char>| seq_table(p).contains_key(t) implies seq_table(p)[t] == seq_table(
        s,
    ).insert(x.token@, x@)[t] by {
        let i = choose|i: int| 0 <= i < p.len() && p[i].token@ == t;
        if t == x.token@ {
            assert(i == s.len());
            assert(p[i]@ == x@);
        } else {
            assert(i < s.len());
            lemma_seq_table_at(s, i);
            let j = choose|j: int| 0 <= j < s.len() && s[j].token@ == t;
            if i < j {
                assert(s[i].token@ != s[j].token@);
            } else if j < i {
                assert(s[j].token@ != s[i].token@);
            }
        }
    }
}

proof fn lemma_seq_table_remove(s: Seq<Session>, i: int)
    requires
        distinct_tokens(s),
        0 <= i < s.len(),
    ensures
        distinct_tokens(s.remove(i)),
        seq_table(s.remove(i)) =~= seq_table(s).remove(s[i].token@),
{
    let t = s[i].token@;
    let r = s.remove(i);
    assert forall|a: int, b: int| 0 <= a < b < r.len() implies r[a].token@ != r[b].token@ by {
        let a0 = if a < i {
            a
        } else {
            a + 1
        };
        let b0 = if b < i {
            b
        } else {
            b + 1
        };
        assert(r[a] == s[a0]);
        assert(r[b] == s[b0]);
        assert(s[a0].token@ != s[b0].token@);
    }
    assert forall|u: Seq<char>| #[trigger] seq_table(r).contains_key(u) == seq_table(s).remove(
        t,
    ).contains_key(u) by {
        if seq_table(r).contains_key(u) {
            let a = choose|a: int| 0 <= a < r.len() && r[a].token@ == u;
            let a0 = if a < i {
                a
            } else {
                a + 1
            };
            assert(r[a] == s[a0]);
            assert(s[a0].token@ == u);
            if u == t {
                if a0 < i {
                    assert(s[a0].token@ != s[i].token@);
                } else {
                    assert(s[i].token@ != s[a0].token@);
                }
            }
        }
        if seq_table(s).remove(t).contains_key(u) {
            let a0 = choose|a0: int| 0 <= a0 < s.len() && s[a0].token@ == u;
            if a0 < i {
                assert(r[a0] == s[a0]);
                assert(r[a0].token@ == u);
            } else if a0 > i {
                assert(r[a0 - 1] == s[a0]);
                assert(r[a0 - 1].token@ == u);
            }
        }
    }
    assert forall|u: Seq<char>| seq_table(r).contains_key(u) implies seq_table(r)[u] == seq_table(
        s,
    ).remove(t)[u] by {
        let a = choose|a: int| 0 <= a < r.len() && r[a].token@ == u;
        let a0 = if a < i {
            a
        } else {
            a + 1
        };
        assert(r[a] == s[a0]);
        lemma_seq_table_at(s, a0);
        let b = choose|b: int| 0 <= b < s.len() && s[b].token@ == u;
        if a0 < b {
            assert(s[a0].token@ != s[b].token@);
        } else if b < a0 {
            assert(s[b].token@ != s[a0].token@);
        }
    }
}

/// What a lookup of `t` at time `now` in table `m` returns: the session only
/// if it is present and strictly before its expiry, with no sliding renewal.
pub open spec fn spec_validate(m: Map<Seq<char>, SessionView>, t: Seq<char>, now: u64) -> Option<
    SessionView,
> {
    if m.contains_key(t) && now < m[t].expires_at {
        Some(m[t])
    } else {
        None
    }
}

/// A token validates strictly before its expiry instant and never from the
/// expiry instant on, whether or not it is still in the table.
pub proof fn lemma_validate_window(m: Map<Seq<char>, SessionView>, t: Seq<char>, now: u64)
    ensures
        m.contains_key(t) && now < m[t].expires_at ==> spec_validate(m, t, now) == Some(m[t]),
        m.contains_key(t) && now >= m[t].expires_at ==> spec_validate(m, t, now) == None::<
            SessionView,
        >,
        !m.contains_key(t) ==> spec_validate(m, t, now) == None::<SessionView>,
{
}

/// Once a token is invalidated, validating it returns nothing, at any time.
pub proof fn lemma_invalidate_then_validate(m: Map<Seq<char>, SessionView>, t: Seq<char>, now: u64)
    ensures
        spec_validate(m.remove(t), t, now) == None::<SessionView>,
{
}

/// The table restricted to sessions still valid at `now`.
pub open spec fn live_sessions(m: Map<Seq<char>, SessionView>, now: u64) -> Map<
    Seq<char>,
    SessionView,
> {
    Map::new(|t: Seq<char>| m.contains_key(t) && now < m[t].expires_at, |t: Seq<char>| m[t])
}

/// Relies on rand::random for a uniformly random `u128` and on std hex
/// formatting with zero padding to width 32; nothing is assumed of the
/// token's value beyond its length.
#[verifier::external_body]
fn fresh_token() -> (r: String)
    ensures
        r@.len() == 32,
{
    let v: u128 = rand::random();
    format!("{:032x}", v)
}

/// Issues, validates and expires session tokens; the sole source of truth
/// for whether a caller is authenticated.
pub struct SessionManager {
    sessions: Vec<Session>,
}

impl SessionManager {
    /// Entries never share a token.
    pub closed spec fn wf(&self) -> bool {
        distinct_tokens(self.sessions@)
    }

    /// The current session table, keyed by token.
    pub closed spec fn table(&self) -> Map<Seq<char>, SessionView> {
        seq_table(self.sessions@)
    }

    pub fn new() -> (r: Self)
        ensures
            r.wf(),
            r.table() =~= Map::<Seq<char>, SessionView>::empty(),
    {
        let r = SessionManager { sessions: Vec::new() };
        proof {
            assert forall|t: Seq<char>| !r.table().contains_key(t) by {
                lemma_seq_table_absent(r.sessions@, t);
            }
        }
        r
    }

    /// Creates a session for `user_id` valid for `SESSION_TTL_SECS` from
    /// `now` under a token that is random and provably new: every prior
    /// session is kept untouched. A colliding draw is redrawn a few times;
    /// only if every draw collides (vanishingly unlikely for 128-bit
    /// tokens, and possible at all only against a non-empty table) is no
    /// session created, and the table is then unchanged. On an empty table
    /// a session is always issued.
    pub fn create_session(&mut self, user_id: &String, now: u64) -> (r: Option<String>)
        requires
            old(self).wf(),
            now + crate::SESSION_TTL_SECS <= u64::MAX,
        ensures
            final(self).wf(),
            match r {
                Some(token) => {
                    &&& token@.len() == 32
                    &&& !old(self).table().contains_key(token@)
                    &&& final(self).table() =~= old(self).table().insert(
                        token@,
                        SessionView {
                            token: token@,
                            user_id: user_id@,
                            created_at: now,
                            expires_at: (now + crate::SESSION_TTL_SECS) as u64,
                        },
                    )
                },
                None => *final(self) == *old(self) && (exists|t: Seq<char>|
                    old(self).table().contains_key(t)),
            },
    {
        let mut attempt: usize = 0;
        while attempt < 8
            invariant
                self.wf(),
                *self == *old(self),
                attempt <= 8,
                now + crate::SESSION_TTL_SECS <= u64::MAX,
                attempt > 0 ==> exists|t: Seq<char>| old(self).table().contains_key(t),
            decreases 8 - attempt,
        {
            let token = fresh_token();
            if !self.contains_token(&token) {
                let entry = Session {
                    token: token.clone(),
                    user_id: user_id.clone(),
                    created_at: now,
                    expires_at: now + crate::SESSION_TTL_SECS,
                };
                let ghost pre = self.sessions@;
                proof {
                    assert forall|i: int| 0 <= i < pre.len() implies pre[i].token@
                        != entry.token@ by {
                        lemma_seq_table_at(pre, i);
                        assert(!seq_table(pre).contains_key(token@));
                    }
                    lemma_seq_table_push(pre, entry);
                }
                self.sessions.push(entry);
                return Some(token);
            }
            attempt = attempt + 1;
        }
        None
    }

    /// Looks a token up at time `now`: returns the session only if present
    /// and not yet expired; the table itself is never changed by a lookup.
    pub fn validate_token(&self, token: &String, now: u64) -> (r: Option<Session>)
        requires
            self.wf(),
        ensures
            match r {
                Some(s) => spec_validate(self.table(), token@, now) == Some(s@),
                None => spec_validate(self.table(), token@, now) == None::<SessionView>,
            },
    {
        let n = self.sessions.len();
        let mut i: usize = 0;
        while i < n
            invariant
                self.wf(),
                n == self.sessions@.len(),
                i <= n,
                forall|k: int| 0 <= k < i ==> self.sessions@[k].token@ != token@,
            decreases n - i,
        {
            if self.sessions[i].token == *token {
                proof {
                    lemma_seq_table_at(self.sessions@, i as int);
                }
                if now < self.sessions[i].expires_at {
                    let entry = &self.sessions[i];
                    return Some(
                        Session {
                            token: entry.token.clone(),
                            user_id: entry.user_id.clone(),
                            created_at: entry.created_at,
                            expires_at: entry.expires_at,
                        },
                    );
                } else {
                    return None;
                }
            }
            i = i + 1;
        }
        proof {
            lemma_seq_table_absent(self.sessions@, token@);
        }
        None
    }

    /// Drops every expired session, bounding the table's memory; lookups
    /// after the sweep behave as before, since expired sessions never
    /// validate anyway.
    pub fn sweep_expired(&mut self, now: u64)
        requires
            old(self).wf(),
        ensures
            final(self).wf(),
            final(self).table() =~= live_sessions(old(self).table(), now),
    {
        let ghost orig = self.sessions@;
        let n = self.sessions.len();
        let mut kept: Vec<Session> = Vec::new();
        let mut i: usize = 0;
        while i < n
            invariant
                distinct_tokens(orig),
                self.sessions@ == orig,
                n == orig.len(),
                i <= n,
                distinct_tokens(kept@),
                forall|t: Seq<char>| #[trigger] seq_table(kept@).contains_key(t) == (exists|a: int|
                    0 <= a < i && orig[a].token@ == t && now < orig[a].expires_at),
                forall|t: Seq<char>|
                    seq_table(kept@).contains_key(t) ==> seq_table(kept@)[t] == seq_table(orig)[t],
            decreases n - i,
        {
            if now < self.sessions[i].expires_at {
                let entry = &self.sessions[i];
                let copy = Session {
                    token: entry.token.clone(),
                    user_id: entry.user_id.clone(),
                    created_at: entry.created_at,
                    expires_at: entry.expires_at,
                };
                proof {
                    assert forall|j: int| 0 <= j < kept@.len() implies kept@[j].token@
                        != copy.token@ by {
                        lemma_seq_table_at(kept@, j);
                        let a = choose|a: int|
                            0 <= a < i && orig[a].token@ == kept@[j].token@ && now
                                < orig[a].expires_at;
                        if kept@[j].token@ == copy.token@ {
                            assert(orig[a].token@ == orig[i as int].token@);
                        }
                    }
                    lemma_seq_table_push(kept@, copy);
                    lemma_seq_table_at(orig, i as int);
                }
                kept.push(copy);
            }
            i = i + 1;
        }
        self.sessions = kept;
        proof {
            assert forall|t: Seq<char>| #[trigger] self.table().contains_key(t)
                == live_sessions(seq_table(orig), now).contains_key(t) by {
                if self.table().contains_key(t) {
                    let a = choose|a: int|
                        0 <= a < n && orig[a].token@ == t && now < orig[a].expires_at;
                    lemma_seq_table_at(orig, a);
                }
                if live_sessions(seq_table(orig), now).contains_key(t) {
                    let a = choose|a: int| 0 <= a < orig.len() && orig[a].token@ == t;
                    lemma_seq_table_at(orig, a);
                }
            }
            assert(self.table() =~= live_sessions(seq_table(orig), now));
        }
    }

    /// Whether the token is in the table at all, expired or not.
    pub fn contains_token(&self, token: &String) -> (r: bool)
        requires
            self.wf(),
        ensures
            r == self.table().contains_key(token@),
    {
        let n = self.sessions.len();
        let mut i: usize = 0;
        while i < n
            invariant
                self.wf(),
                n == self.sessions@.len(),
                i <= n,
                forall|k: int| 0 <= k < i ==> self.sessions@[k].token@ != token@,
            decreases n - i,
        {
            if self.sessions[i].token == *token {
                proof {
                    lemma_seq_table_at(self.sessions@, i as int);
                }
                return true;
            }
            i = i + 1;
        }
        proof {
            lemma_seq_table_absent(self.sessions@, token@);
        }
        false
    }

    /// Removes the session under `token` immediately; idempotent on unknown
    /// tokens.
    pub fn invalidate(&mut self, token: &String)
        requires
            old(self).wf(),
        ensures
            final(self).wf(),
            final(self).table() =~= old(self).table().remove(token@),
            !final(self).table().contains_key(token@),
    {
        let n = self.sessions.len();
        let mut i: usize = 0;
        while i < n
            invariant
                self.wf(),
                self.sessions@ == old(self).sessions@,
                n == self.sessions@.len(),
                i <= n,
                forall|k: int| 0 <= k < i ==> self.sessions@[k].token@ != token@,
            decreases n - i,
        {
            if self.sessions[i].token == *token {
                proof {
                    lemma_seq_table_remove(self.sessions@, i as int);
                }
                self.sessions.remove(i);
                proof {
                    assert forall|k: int|
                        0 <= k < self.sessions@.len() implies self.sessions@[k].token@
                        != token@ by {
                        let k0 = if k < i {
                            k
                        } else {
                            k + 1
                        };
                        assert(self.sessions@[k] == old(self).sessions@[k0]);
                        if k0 != i as int {
                            if k0 < i {
                                assert(old(self).sessions@[k0].token@ != old(
                                    self,
                                ).sessions@[i as int].token@);
                            } else {
                                assert(old(self).sessions@[i as int].token@ != old(
                                    self,
                                ).sessions@[k0].token@);
                            }
                        }
                    }
                    lemma_seq_table_absent(self.sessions@, token@);
                }
                return ;
            }
            i = i + 1;
        }
        proof {
            lemma_seq_table_absent(self.sessions@, token@);
            assert(self.table() =~= old(self).table().remove(token@));
        }
    }
}

} // verus!
