//! One-time password-reset codes: which admin each live code was issued
//! to, when, and whether it has been used.

use vstd::prelude::*;
use crate::assoc::{
    assoc_view, keys_unique, lemma_assoc_dom, lemma_assoc_index, lemma_assoc_push,
    lemma_assoc_update,
};
use crate::clock::{wall_elapsed, wall_elapsed_secs, wall_in_range};

verus! {

broadcast use vstd::string::group_string_axioms;

/// Seconds for which a reset code stays valid.
pub const RESET_CODE_TTL_SECS: i128 = 300;

/// What is recorded of an issued code.
#[derive(Clone, Copy, Debug, PartialEq, Eq, Structural)]
pub struct ResetCodeEntry {
    /// The admin the code was sent to.
    pub admin_id: i64,
    /// Wall-clock time (nanoseconds since the epoch) of issue.
    pub created_at: i128,
    pub used: bool,
}

/// The codes on record, keyed by their text.
pub struct ResetCodeTable {
    entries: Vec<(String, ResetCodeEntry)>,
}

/// The entries with each code read as its characters.
pub open spec fn code_pairs(s: Seq<(String, ResetCodeEntry)>) -> Seq<(Seq<char>, ResetCodeEntry)> {
    s.map_values(|p: (String, ResetCodeEntry)| (p.0@, p.1))
}

/// A code that can still be redeemed at `now`: not used and issued less
/// than the validity period ago (in whole seconds, rounded toward zero).
pub open spec fn code_live(e: ResetCodeEntry, now: i128) -> bool {
    !e.used && wall_elapsed_secs(now, e.created_at) < RESET_CODE_TTL_SECS
}

/// The codes of `codes` that are live at `now`.
pub open spec fn live_codes(codes: Map<Seq<char>, ResetCodeEntry>, now: i128) -> Map<
    Seq<char>,
    ResetCodeEntry,
> {
    codes.restrict(codes.dom().filter(|c: Seq<char>| code_live(codes[c], now)))
}

/// The codes of `codes` that are live at `now` and were not issued to
/// `admin_id`.
pub open spec fn live_codes_of_others(
    codes: Map<Seq<char>, ResetCodeEntry>,
    now: i128,
    admin_id: i64,
) -> Map<Seq<char>, ResetCodeEntry> {
    codes.restrict(
        codes.dom().filter(|c: Seq<char>| code_live(codes[c], now) && codes[c].admin_id != admin_id),
    )
}

spec fn keep_entry(e: ResetCodeEntry, now: i128, except_admin: Option<i64>) -> bool {
    code_live(e, now) && (except_admin != Some(e.admin_id))
}

proof fn lemma_times(s: Seq<(String, ResetCodeEntry)>)
    requires
        keys_unique(code_pairs(s)),
        forall|i: int| 0 <= i < s.len() ==> wall_in_range(#[trigger] s[i].1.created_at),
    ensures
        forall|c: Seq<char>|
            assoc_view(code_pairs(s)).contains_key(c) ==> wall_in_range(
                #[trigger] assoc_view(code_pairs(s))[c].created_at,
            ),
{
    assert forall|c: Seq<char>| assoc_view(code_pairs(s)).contains_key(c) implies wall_in_range(
        #[trigger] assoc_view(code_pairs(s))[c].created_at,
    ) by {
        let ps = code_pairs(s);
        lemma_assoc_dom(ps, c);
        let i = choose|i: int| 0 <= i < ps.len() && #[trigger] ps[i].0 == c;
        lemma_assoc_index(ps, i);
        assert(s[i].1 == ps[i].1);
    }
}

impl ResetCodeTable {
    /// The codes on record, keyed by their characters.
    pub closed spec fn view(&self) -> Map<Seq<char>, ResetCodeEntry> {
        assoc_view(code_pairs(self.entries@))
    }

    #[verifier::type_invariant]
    spec fn well_formed(&self) -> bool {
        &&& keys_unique(code_pairs(self.entries@))
        &&& forall|i: int|
            0 <= i < self.entries@.len() ==> wall_in_range(#[trigger] self.entries@[i].1.created_at)
    }

    /// A table with no codes.
    pub fn new() -> (t: Self)
        ensures
            t@ == Map::<Seq<char>, ResetCodeEntry>::empty(),
    {
        let t = ResetCodeTable { entries: Vec::new() };
        assert(code_pairs(t.entries@) =~= Seq::empty());
        t
    }

    fn find(&self, code: &String) -> (r: Option<usize>)
        ensures
            match r {
                Some(i) => i < self.entries@.len() && self.entries@[i as int].0@ == code@,
                None => !self@.contains_key(code@),
            },
    {
        let ghost s = code_pairs(self.entries@);
        let mut i: usize = 0;
        while i < self.entries.len()
            invariant
                s == code_pairs(self.entries@),
                i <= self.entries@.len(),
                forall|j: int| 0 <= j < i ==> #[trigger] s[j].0 != code@,
            decreases self.entries@.len() - i,
        {
            if self.entries[i].0 == *code {
                return Some(i);
            }
            assert(s[i as int].0 == self.entries@[i as int].0@);
            i = i + 1;
        }
        proof {
            lemma_assoc_dom(s, code@);
        }
        None
    }

    /// The record of `code`, if it is on record.
    pub fn get(&self, code: &str) -> (r: Option<ResetCodeEntry>)
        ensures
            r == (if self@.contains_key(code@) { Some(self@[code@]) } else { None::<ResetCodeEntry> }),
    {
        proof {
            use_type_invariant(self);
        }
        let key = code.to_string();
        match self.find(&key) {
            Some(i) => {
                proof {
                    lemma_assoc_index(code_pairs(self.entries@), i as int);
                }
                Some(self.entries[i].1)
            },
            None => None,
        }
    }

    /// Keeps the codes that are live at `now` and, when `except_admin` names
    /// an admin, were not issued to that admin.
    fn retain_live(&mut self, now: i128, except_admin: Option<i64>)
        requires
            wall_in_range(now),
        ensures
            final(self)@ == old(self)@.restrict(
                old(self)@.dom().filter(|c: Seq<char>| keep_entry(old(self)@[c], now, except_admin)),
            ),
    {
        proof {
            use_type_invariant(&*self);
        }
        let ghost s = self.entries@;
        let ghost ps = code_pairs(s);
        let ghost m0 = self@;
        let mut kept: Vec<(String, ResetCodeEntry)> = Vec::new();
        let mut i: usize = 0;
        let n = self.entries.len();
        while i < n
            invariant
                n == s.len(),
                s == self.entries@,
                ps == code_pairs(s),
                keys_unique(ps),
                forall|j: int| 0 <= j < s.len() ==> wall_in_range(#[trigger] s[j].1.created_at),
                wall_in_range(now),
                i <= s.len(),
                keys_unique(code_pairs(kept@)),
                forall|j: int| 0 <= j < kept@.len() ==> exists|k: int| 0 <= k < i && #[trigger] kept@[j] == s[k],
                assoc_view(code_pairs(kept@)) == assoc_view(ps.take(i as int)).restrict(
                    assoc_view(ps.take(i as int)).dom().filter(
                        |c: Seq<char>| keep_entry(assoc_view(ps.take(i as int))[c], now, except_admin),
                    ),
                ),
            decreases s.len() - i,
        {
            let e = self.entries[i].1;
            let ghost before = kept@;
            let ghost key = ps[i as int].0;
            proof {
                assert(ps[i as int] == (s[i as int].0@, e));
                assert(ps.take(i + 1) =~= ps.take(i as int).push((key, e)));
                lemma_assoc_push(ps.take(i as int), key, e);
                assert(wall_in_range(s[i as int].1.created_at));
            }
            let elapsed = wall_elapsed(now, e.created_at);
            let keep = !e.used && elapsed < RESET_CODE_TTL_SECS && match except_admin {
                Some(a) => a != e.admin_id,
                None => true,
            };
            if keep {
                let code = self.entries[i].0.clone();
                proof {
                    let cb = code_pairs(before);
                    lemma_assoc_dom(cb, key);
                    if assoc_view(cb).contains_key(key) {
                        let j = choose|j: int| 0 <= j < cb.len() && #[trigger] cb[j].0 == key;
                        let k = choose|k: int| 0 <= k < i && #[trigger] before[j] == s[k];
                        assert(cb[j] == ps[k]);
                        assert(ps[k].0 == ps[i as int].0);
                    }
                    lemma_assoc_push(cb, key, e);
                    assert(code_pairs(before.push((code, e))) =~= cb.push((key, e)));
                }
                kept.push((code, e));
                proof {
                    assert forall|j: int| 0 <= j < kept@.len() implies exists|k: int| 0 <= k < i + 1 && #[trigger] kept@[j] == s[k] by {
                        if j == before.len() {
                            assert(kept@[j] == s[i as int]);
                        } else {
                            assert(kept@[j] == before[j]);
                        }
                    }
                    lemma_assoc_dom(ps.take(i as int), key);
                    assert forall|j: int| 0 <= j < ps.take(i as int).len() implies #[trigger] ps.take(i as int)[j].0 != key by {
                        assert(ps.take(i as int)[j] == ps[j]);
                    }
                    assert(assoc_view(code_pairs(kept@)) =~= assoc_view(ps.take(i + 1)).restrict(
                        assoc_view(ps.take(i + 1)).dom().filter(
                            |c: Seq<char>| keep_entry(assoc_view(ps.take(i + 1))[c], now, except_admin),
                        ),
                    ));
                }
            } else {
                proof {
                    lemma_assoc_dom(ps.take(i as int), key);
                    assert forall|j: int| 0 <= j < ps.take(i as int).len() implies #[trigger] ps.take(i as int)[j].0 != key by {
                        assert(ps.take(i as int)[j] == ps[j]);
                    }
                    assert(assoc_view(code_pairs(kept@)) =~= assoc_view(ps.take(i + 1)).restrict(
                        assoc_view(ps.take(i + 1)).dom().filter(
                            |c: Seq<char>| keep_entry(assoc_view(ps.take(i + 1))[c], now, except_admin),
                        ),
                    ));
                }
            }
            i = i + 1;
        }
        proof {
            assert(ps.take(s.len() as int) =~= ps);
            assert forall|j: int| 0 <= j < kept@.len() implies wall_in_range(#[trigger] kept@[j].1.created_at) by {
                let k = choose|k: int| 0 <= k < s.len() && #[trigger] kept@[j] == s[k];
            }
        }
        self.entries = kept;
    }
}

/// Why a reset code was not accepted.
#[derive(Clone, Copy, Debug, PartialEq, Eq, Structural)]
pub enum RedeemError {
    /// No live code with this text is on record.
    InvalidOrExpired,
    /// The code has been used.
    AlreadyUsed,
    /// The code is more than the validity period old.
    Expired,
}

/// The codes after a new code `code` has been issued to `admin_id` at
/// `now`: codes that are used or expired, and every other code of the same
/// admin, are dropped, and the new code is recorded unused.
pub open spec fn issued(
    codes: Map<Seq<char>, ResetCodeEntry>,
    code: Seq<char>,
    admin_id: i64,
    now: i128,
) -> Map<Seq<char>, ResetCodeEntry> {
    live_codes_of_others(codes, now, admin_id).insert(
        code,
        ResetCodeEntry { admin_id, created_at: now, used: false },
    )
}

/// The outcome of presenting `code` at `now`, and the codes left after it:
/// dead codes are dropped first; then the code must be on record, unused
/// and not older than the validity period; it is then marked used and its
/// admin is returned.
pub open spec fn redeemed(codes: Map<Seq<char>, ResetCodeEntry>, code: Seq<char>, now: i128) -> (
    Result<i64, RedeemError>,
    Map<Seq<char>, ResetCodeEntry>,
) {
    let live = live_codes(codes, now);
    if !live.contains_key(code) {
        (Err(RedeemError::InvalidOrExpired), live)
    } else if live[code].used {
        (Err(RedeemError::AlreadyUsed), live)
    } else if wall_elapsed_secs(now, live[code].created_at) > RESET_CODE_TTL_SECS {
        (Err(RedeemError::Expired), live)
    } else {
        (
            Ok(live[code].admin_id),
            live.insert(code, ResetCodeEntry { used: true, ..live[code] }),
        )
    }
}

impl ResetCodeTable {
    fn insert(&mut self, code: String, e: ResetCodeEntry)
        requires
            wall_in_range(e.created_at),
        ensures
            final(self)@ == old(self)@.insert(code@, e),
    {
        proof {
            use_type_invariant(&*self);
        }
        match self.find(&code) {
            Some(i) => {
                let ghost ps = code_pairs(self.entries@);
                proof {
                    lemma_assoc_update(ps, i as int, e);
                }
                let mut entries = Vec::new();
                std::mem::swap(&mut entries, &mut self.entries);
                entries.set(i, (code, e));
                proof {
                    assert(code_pairs(entries@) =~= ps.update(i as int, (ps[i as int].0, e)));
                }
                self.entries = entries;
            },
            None => {
                let ghost ps = code_pairs(self.entries@);
                proof {
                    lemma_assoc_push(ps, code@, e);
                }
                let mut entries = Vec::new();
                std::mem::swap(&mut entries, &mut self.entries);
                let ghost c = code@;
                entries.push((code, e));
                proof {
                    assert(code_pairs(entries@) =~= ps.push((c, e)));
                }
                self.entries = entries;
            },
        }
    }

    /// Records `code` as issued to `admin_id` at wall-clock time `now`, after
    /// dropping dead codes and the admin's other codes.
    pub fn issue_reset_code(&mut self, code: String, admin_id: i64, now: i128)
        requires
            wall_in_range(now),
        ensures
            final(self)@ == issued(old(self)@, code@, admin_id, now),
    {
        let ghost m0 = self@;
        self.retain_live(now, Some(admin_id));
        proof {
            assert(self@ =~= live_codes_of_others(m0, now, admin_id));
        }
        self.insert(code, ResetCodeEntry { admin_id, created_at: now, used: false });
    }

    /// Presents `code` at wall-clock time `now`; on success the code is
    /// marked used and the admin it was issued to is returned.
    pub fn redeem(&mut self, code: &str, now: i128) -> (r: Result<i64, RedeemError>)
        requires
            wall_in_range(now),
        ensures
            (r, final(self)@) == redeemed(old(self)@, code@, now),
    {
        let ghost m0 = self@;
        self.retain_live(now, None);
        proof {
            assert(self@ =~= live_codes(m0, now));
            use_type_invariant(&*self);
            lemma_times(self.entries@);
        }
        let e = match self.get(code) {
            Some(e) => e,
            None => return Err(RedeemError::InvalidOrExpired),
        };
        if e.used {
            return Err(RedeemError::AlreadyUsed);
        }
        if wall_elapsed(now, e.created_at) > RESET_CODE_TTL_SECS {
            return Err(RedeemError::Expired);
        }
        self.insert(code.to_string(), ResetCodeEntry { used: true, ..e });
        Ok(e.admin_id)
    }
}

/// A reset code works once: after it has been accepted, presenting it again
/// (at any time) is refused as unknown.
pub proof fn lemma_code_single_use(codes: Map<Seq<char>, ResetCodeEntry>, code: Seq<char>, now: i128, later: i128)
    requires
        redeemed(codes, code, now).0 is Ok,
    ensures
        redeemed(redeemed(codes, code, now).1, code, later).0 == Err::<i64, RedeemError>(
            RedeemError::InvalidOrExpired,
        ),
{
}

/// A code is refused once the validity period has run out.
pub proof fn lemma_code_expires(codes: Map<Seq<char>, ResetCodeEntry>, code: Seq<char>, now: i128)
    requires
        codes.contains_key(code),
        wall_elapsed_secs(now, codes[code].created_at) >= RESET_CODE_TTL_SECS,
    ensures
        redeemed(codes, code, now).0 is Err,
{
}

/// A freshly issued code is accepted within the validity period, and names
/// the admin it was issued to.
pub proof fn lemma_issue_then_redeem(
    codes: Map<Seq<char>, ResetCodeEntry>,
    code: Seq<char>,
    admin_id: i64,
    issued_at: i128,
    now: i128,
)
    requires
        wall_elapsed_secs(now, issued_at) < RESET_CODE_TTL_SECS,
    ensures
        redeemed(issued(codes, code, admin_id, issued_at), code, now).0 == Ok::<i64, RedeemError>(
            admin_id,
        ),
{
}

/// Issuing a new code to an admin makes every earlier code of that admin
/// unusable.
pub proof fn lemma_new_code_replaces_old(
    codes: Map<Seq<char>, ResetCodeEntry>,
    old_code: Seq<char>,
    new_code: Seq<char>,
    admin_id: i64,
    first: i128,
    second: i128,
    now: i128,
)
    requires
        old_code != new_code,
    ensures
        redeemed(
            issued(issued(codes, old_code, admin_id, first), new_code, admin_id, second),
            old_code,
            now,
        ).0 == Err::<i64, RedeemError>(RedeemError::InvalidOrExpired),
{
}

/// Issuing a code to one admin leaves another admin's live code (with a
/// different text) as it was.
pub proof fn lemma_other_admins_keep_codes(
    codes: Map<Seq<char>, ResetCodeEntry>,
    code: Seq<char>,
    other_code: Seq<char>,
    admin_id: i64,
    now: i128,
)
    requires
        code != other_code,
        codes.contains_key(other_code),
        codes[other_code].admin_id != admin_id,
        code_live(codes[other_code], now),
    ensures
        issued(codes, code, admin_id, now).contains_key(other_code),
        issued(codes, code, admin_id, now)[other_code] == codes[other_code],
{
}

} // verus!
