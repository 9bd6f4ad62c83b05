//! Per-client fixed-window attempt counters.
//!
//! Each client address has a guard: the number of attempts counted in the
//! current window and the monotonic time at which the window opened. A
//! window that is older than the limit's length is restarted on the next
//! check, and old guards can be pruned.

use vstd::prelude::*;
use crate::assoc::{
    assoc_view, keys_unique, lemma_assoc_dom, lemma_assoc_index, lemma_assoc_push, lemma_assoc_remove,
    lemma_assoc_update,
};
use crate::clock::{elapsed_secs, mono_elapsed_secs};

verus! {

/// The address a request came from: the IP address as a 128-bit number
/// (IPv4 addresses in the low 32 bits), whether it is an IPv6 address, the
/// port, and for IPv6 the flow label and scope id.
#[derive(Clone, Copy, Debug, PartialEq, Eq, Structural)]
pub struct ClientAddr {
    pub is_v6: bool,
    pub ip: u128,
    pub port: u16,
    pub flowinfo: u32,
    pub scope_id: u32,
}

/// Attempts counted for one client in its current window.
#[derive(Clone, Copy, Debug, PartialEq, Eq, Structural)]
pub struct LoginGuard {
    pub attempts: u32,
    /// Monotonic time (nanoseconds) at which the window opened.
    pub window_start: u64,
}

/// The guards of all clients that have been seen, one per address.
pub struct GuardTable {
    entries: Vec<(ClientAddr, LoginGuard)>,
}

impl GuardTable {
    /// The guards as a map from address to guard.
    pub closed spec fn view(&self) -> Map<ClientAddr, LoginGuard> {
        assoc_view(self.entries@)
    }

    #[verifier::type_invariant]
    spec fn unique(&self) -> bool {
        keys_unique(self.entries@)
    }

    /// A table with no guards.
    pub fn new() -> (t: Self)
        ensures
            t@ == Map::<ClientAddr, LoginGuard>::empty(),
    {
        GuardTable { entries: Vec::new() }
    }

    /// The number of guards held.
    pub fn len(&self) -> (n: usize)
        ensures
            n == self@.len(),
    {
        proof {
            use_type_invariant(self);
            lemma_unique_len(self.entries@);
        }
        self.entries.len()
    }

    fn find(&self, addr: &ClientAddr) -> (r: Option<usize>)
        ensures
            match r {
                Some(i) => i < self.entries@.len() && self.entries@[i as int].0 == *addr,
                None => !self@.contains_key(*addr),
            },
    {
        let mut i: usize = 0;
        while i < self.entries.len()
            invariant
                i <= self.entries@.len(),
                forall|j: int| 0 <= j < i ==> #[trigger] self.entries@[j].0 != *addr,
            decreases self.entries@.len() - i,
        {
            if self.entries[i].0 == *addr {
                return Some(i);
            }
            i = i + 1;
        }
        proof {
            lemma_assoc_dom(self.entries@, *addr);
        }
        None
    }

    /// The guard of `addr`, if it has one.
    pub fn get(&self, addr: &ClientAddr) -> (r: Option<LoginGuard>)
        ensures
            r == (if self@.contains_key(*addr) { Some(self@[*addr]) } else { None::<LoginGuard> }),
    {
        proof {
            use_type_invariant(self);
        }
        match self.find(addr) {
            Some(i) => {
                proof {
                    lemma_assoc_index(self.entries@, i as int);
                }
                Some(self.entries[i].1)
            },
            None => None,
        }
    }

    /// Sets the guard of `addr`.
    pub fn insert(&mut self, addr: ClientAddr, guard: LoginGuard)
        ensures
            final(self)@ == old(self)@.insert(addr, guard),
    {
        proof {
            use_type_invariant(&*self);
        }
        match self.find(&addr) {
            Some(i) => {
                proof {
                    lemma_assoc_update(self.entries@, i as int, guard);
                }
                let mut entries = Vec::new();
                std::mem::swap(&mut entries, &mut self.entries);
                entries.set(i, (addr, guard));
                self.entries = entries;
            },
            None => {
                proof {
                    lemma_assoc_push(self.entries@, addr, guard);
                }
                let mut entries = Vec::new();
                std::mem::swap(&mut entries, &mut self.entries);
                entries.push((addr, guard));
                self.entries = entries;
            },
        }
    }

    /// Drops the guard of `addr`, if any.
    pub fn remove(&mut self, addr: &ClientAddr)
        ensures
            final(self)@ == old(self)@.remove(*addr),
    {
        proof {
            use_type_invariant(&*self);
        }
        match self.find(addr) {
            Some(i) => {
                proof {
                    lemma_assoc_remove(self.entries@, i as int);
                }
                let mut entries = Vec::new();
                std::mem::swap(&mut entries, &mut self.entries);
                entries.remove(i);
                self.entries = entries;
            },
            None => {
                assert(self@.remove(*addr) =~= self@);
            },
        }
    }
}

proof fn lemma_unique_len<K, V>(s: Seq<(K, V)>)
    requires
        keys_unique(s),
    ensures
        assoc_view(s).len() == s.len(),
        assoc_view(s).dom().finite(),
    decreases s.len(),
{
    if s.len() > 0 {
        let d = s.drop_last();
        lemma_unique_len(d);
        lemma_assoc_dom(d, s.last().0);
        assert forall|j: int| 0 <= j < d.len() implies #[trigger] d[j].0 != s.last().0 by {
            assert(d[j] == s[j]);
        }
    }
}

/// The guard an address has once its window has been checked at `now`: a
/// fresh one when it had none or when its window is more than `window_secs`
/// old, the one it had otherwise.
pub open spec fn refreshed_guard(current: Option<LoginGuard>, window_secs: u64, now: u64) -> LoginGuard {
    match current {
        None => LoginGuard { attempts: 0, window_start: now },
        Some(g) => if mono_elapsed_secs(now, g.window_start) > window_secs {
            LoginGuard { attempts: 0, window_start: now }
        } else {
            g
        },
    }
}

/// The current guard of `addr` in `guards`.
pub open spec fn guard_of(guards: Map<ClientAddr, LoginGuard>, addr: ClientAddr) -> Option<LoginGuard> {
    if guards.contains_key(addr) {
        Some(guards[addr])
    } else {
        None
    }
}

/// Whether a check of `addr` at `now` lets the attempt through: its window,
/// once refreshed, has counted fewer than `max_attempts` attempts.
pub open spec fn rate_allows(
    guards: Map<ClientAddr, LoginGuard>,
    addr: ClientAddr,
    max_attempts: u32,
    window_secs: u64,
    now: u64,
) -> bool {
    refreshed_guard(guard_of(guards, addr), window_secs, now).attempts < max_attempts
}

/// The guards after a check of `addr` at `now`: the refreshed guard, with
/// one more attempt counted when the attempt was let through.
pub open spec fn rate_checked(
    guards: Map<ClientAddr, LoginGuard>,
    addr: ClientAddr,
    max_attempts: u32,
    window_secs: u64,
    now: u64,
) -> Map<ClientAddr, LoginGuard> {
    let g = refreshed_guard(guard_of(guards, addr), window_secs, now);
    if g.attempts < max_attempts {
        guards.insert(addr, LoginGuard { attempts: (g.attempts + 1) as u32, window_start: g.window_start })
    } else {
        guards.insert(addr, g)
    }
}

/// Counts an attempt of `addr` at monotonic time `now` against a limit of
/// `max_attempts` per window of `window_secs` seconds. Returns whether the
/// attempt is let through.
pub fn check_rate_limit(
    guards: &mut GuardTable,
    addr: ClientAddr,
    max_attempts: u32,
    window_secs: u64,
    now: u64,
) -> (allowed: bool)
    ensures
        allowed == rate_allows(old(guards)@, addr, max_attempts, window_secs, now),
        final(guards)@ == rate_checked(old(guards)@, addr, max_attempts, window_secs, now),
{
    let current = guards.get(&addr);
    let mut guard = match current {
        Some(g) => g,
        None => LoginGuard { attempts: 0, window_start: now },
    };
    if elapsed_secs(now, guard.window_start) > window_secs {
        guard = LoginGuard { attempts: 0, window_start: now };
    }
    if guard.attempts >= max_attempts {
        guards.insert(addr, guard);
        return false;
    }
    guard.attempts = guard.attempts + 1;
    guards.insert(addr, guard);
    true
}

/// Whether a guard's window is still open at `now` (at most `window_secs`
/// seconds old).
pub open spec fn window_open(g: LoginGuard, window_secs: u64, now: u64) -> bool {
    mono_elapsed_secs(now, g.window_start) <= window_secs
}

/// The guards whose windows are still open at `now`.
pub open spec fn pruned(guards: Map<ClientAddr, LoginGuard>, window_secs: u64, now: u64) -> Map<
    ClientAddr,
    LoginGuard,
> {
    guards.restrict(guards.dom().filter(|a: ClientAddr| window_open(guards[a], window_secs, now)))
}

/// Drops every guard whose window is more than `window_secs` seconds old at
/// monotonic time `now`.
pub fn prune_expired(guards: &mut GuardTable, window_secs: u64, now: u64)
    ensures
        final(guards)@ == pruned(old(guards)@, window_secs, now),
{
    proof {
        use_type_invariant(&*guards);
    }
    let ghost s = guards.entries@;
    let mut kept: Vec<(ClientAddr, LoginGuard)> = Vec::new();
    let mut i: usize = 0;
    while i < guards.entries.len()
        invariant
            s == guards.entries@,
            keys_unique(s),
            i <= s.len(),
            keys_unique(kept@),
            forall|j: int| 0 <= j < kept@.len() ==> exists|k: int| 0 <= k < i && #[trigger] kept@[j] == s[k],
            assoc_view(kept@) == pruned(assoc_view(s.take(i as int)), window_secs, now),
        decreases s.len() - i,
    {
        let e = guards.entries[i];
        let ghost before = kept@;
        proof {
            assert(s.take(i + 1) =~= s.take(i as int).push(e));
            lemma_assoc_push(s.take(i as int), e.0, e.1);
            lemma_assoc_dom(s.take(i as int), e.0);
            assert forall|j: int| 0 <= j < s.take(i as int).len() implies #[trigger] s.take(i as int)[j].0 != e.0 by {
                assert(s.take(i as int)[j] == s[j]);
            }
        }
        if elapsed_secs(now, e.1.window_start) <= window_secs {
            proof {
                lemma_assoc_dom(before, e.0);
                if assoc_view(before).contains_key(e.0) {
                    let j = choose|j: int| 0 <= j < before.len() && #[trigger] before[j].0 == e.0;
                    let k = choose|k: int| 0 <= k < i && #[trigger] before[j] == s[k];
                    assert(s[k].0 == s[i as int].0);
                }
                lemma_assoc_push(before, e.0, e.1);
            }
            kept.push(e);
            proof {
                assert forall|j: int| 0 <= j < kept@.len() implies exists|k: int| 0 <= k < i + 1 && #[trigger] kept@[j] == s[k] by {
                    if j == before.len() {
                        assert(kept@[j] == s[i as int]);
                    } else {
                        assert(kept@[j] == before[j]);
                    }
                }
                assert(assoc_view(kept@) =~= pruned(assoc_view(s.take(i + 1)), window_secs, now));
            }
        } else {
            proof {
                assert(assoc_view(kept@) =~= pruned(assoc_view(s.take(i + 1)), window_secs, now));
            }
        }
        i = i + 1;
    }
    proof {
        assert(s.take(s.len() as int) =~= s);
    }
    guards.entries = kept;
}

/// A check never counts more than the limit: if the guard of `addr` counts
/// at most `max_attempts` attempts before a check, it does after it.
pub proof fn lemma_count_bounded(
    guards: Map<ClientAddr, LoginGuard>,
    addr: ClientAddr,
    max_attempts: u32,
    window_secs: u64,
    now: u64,
)
    requires
        guards.contains_key(addr) ==> guards[addr].attempts <= max_attempts,
    ensures
        rate_checked(guards, addr, max_attempts, window_secs, now)[addr].attempts <= max_attempts,
{
}

/// Once a client has been refused, it stays refused until its window has
/// expired: a later check whose window is still open is refused and
/// changes nothing.
pub proof fn lemma_refusal_persists(
    guards: Map<ClientAddr, LoginGuard>,
    addr: ClientAddr,
    max_attempts: u32,
    window_secs: u64,
    first: u64,
    later: u64,
)
    requires
        !rate_allows(guards, addr, max_attempts, window_secs, first),
        window_open(
            rate_checked(guards, addr, max_attempts, window_secs, first)[addr],
            window_secs,
            later,
        ),
    ensures
        !rate_allows(
            rate_checked(guards, addr, max_attempts, window_secs, first),
            addr,
            max_attempts,
            window_secs,
            later,
        ),
        rate_checked(
            rate_checked(guards, addr, max_attempts, window_secs, first),
            addr,
            max_attempts,
            window_secs,
            later,
        ) == rate_checked(guards, addr, max_attempts, window_secs, first),
{
    let m1 = rate_checked(guards, addr, max_attempts, window_secs, first);
    assert(m1.insert(addr, m1[addr]) =~= m1);
}

/// Within one window a client is let through while fewer than
/// `max_attempts` attempts have been counted, and each pass counts one.
pub proof fn lemma_pass_counts_one(
    guards: Map<ClientAddr, LoginGuard>,
    addr: ClientAddr,
    max_attempts: u32,
    window_secs: u64,
    now: u64,
)
    requires
        guards.contains_key(addr),
        window_open(guards[addr], window_secs, now),
    ensures
        rate_allows(guards, addr, max_attempts, window_secs, now) <==> guards[addr].attempts
            < max_attempts,
        rate_allows(guards, addr, max_attempts, window_secs, now) ==> rate_checked(
            guards,
            addr,
            max_attempts,
            window_secs,
            now,
        )[addr] == (LoginGuard {
            attempts: (guards[addr].attempts + 1) as u32,
            window_start: guards[addr].window_start,
        }),
{
}

/// A client without a guard, or whose window has expired, starts a new
/// window at `now` and is let through if the limit is not zero.
pub proof fn lemma_new_window(
    guards: Map<ClientAddr, LoginGuard>,
    addr: ClientAddr,
    max_attempts: u32,
    window_secs: u64,
    now: u64,
)
    requires
        guards.contains_key(addr) ==> !window_open(guards[addr], window_secs, now),
    ensures
        rate_allows(guards, addr, max_attempts, window_secs, now) <==> max_attempts > 0,
        rate_checked(guards, addr, max_attempts, window_secs, now)[addr] == (LoginGuard {
            attempts: if max_attempts > 0 { 1 } else { 0 },
            window_start: now,
        }),
{
}

/// Checking one client leaves every other client's guard as it was.
pub proof fn lemma_other_clients_untouched(
    guards: Map<ClientAddr, LoginGuard>,
    addr: ClientAddr,
    other: ClientAddr,
    max_attempts: u32,
    window_secs: u64,
    now: u64,
)
    requires
        other != addr,
    ensures
        guard_of(rate_checked(guards, addr, max_attempts, window_secs, now), other) == guard_of(
            guards,
            other,
        ),
{
}

/// Pruning expired guards just before a check changes neither the decision
/// nor the guard the checked client is left with.
pub proof fn lemma_prune_then_check(
    guards: Map<ClientAddr, LoginGuard>,
    addr: ClientAddr,
    max_attempts: u32,
    window_secs: u64,
    now: u64,
)
    ensures
        rate_allows(pruned(guards, window_secs, now), addr, max_attempts, window_secs, now)
            == rate_allows(guards, addr, max_attempts, window_secs, now),
        rate_checked(pruned(guards, window_secs, now), addr, max_attempts, window_secs, now)[addr]
            == rate_checked(guards, addr, max_attempts, window_secs, now)[addr],
{
}


/// The guards after what each endpoint does for a request of `addr` at
/// `now`: expired windows are dropped, then the attempt is checked.
pub open spec fn guarded_check(
    guards: Map<ClientAddr, LoginGuard>,
    addr: ClientAddr,
    max_attempts: u32,
    window_secs: u64,
    now: u64,
) -> Map<ClientAddr, LoginGuard> {
    rate_checked(pruned(guards, window_secs, now), addr, max_attempts, window_secs, now)
}

/// Whether that check lets the attempt through.
pub open spec fn guarded_allows(
    guards: Map<ClientAddr, LoginGuard>,
    addr: ClientAddr,
    max_attempts: u32,
    window_secs: u64,
    now: u64,
) -> bool {
    rate_allows(pruned(guards, window_secs, now), addr, max_attempts, window_secs, now)
}

/// The guards after a run of checks of `addr` at the times `times`, in order.
pub open spec fn after_run(
    guards: Map<ClientAddr, LoginGuard>,
    addr: ClientAddr,
    max_attempts: u32,
    window_secs: u64,
    times: Seq<u64>,
) -> Map<ClientAddr, LoginGuard>
    decreases times.len(),
{
    if times.len() == 0 {
        guards
    } else {
        guarded_check(
            after_run(guards, addr, max_attempts, window_secs, times.drop_last()),
            addr,
            max_attempts,
            window_secs,
            times.last(),
        )
    }
}

/// How many checks of a run of checks of `addr` at the times `times` are
/// let through.
pub open spec fn passes(
    guards: Map<ClientAddr, LoginGuard>,
    addr: ClientAddr,
    max_attempts: u32,
    window_secs: u64,
    times: Seq<u64>,
) -> nat
    decreases times.len(),
{
    if times.len() == 0 {
        0
    } else {
        passes(guards, addr, max_attempts, window_secs, times.drop_last()) + if guarded_allows(
            after_run(guards, addr, max_attempts, window_secs, times.drop_last()),
            addr,
            max_attempts,
            window_secs,
            times.last(),
        ) {
            1nat
        } else {
            0nat
        }
    }
}

/// The start of the window that the first check of a run leaves `addr` with.
pub open spec fn run_window_start(
    guards: Map<ClientAddr, LoginGuard>,
    addr: ClientAddr,
    max_attempts: u32,
    window_secs: u64,
    times: Seq<u64>,
) -> u64 {
    after_run(guards, addr, max_attempts, window_secs, times.take(1))[addr].window_start
}

proof fn lemma_run_invariant(
    guards: Map<ClientAddr, LoginGuard>,
    addr: ClientAddr,
    max_attempts: u32,
    window_secs: u64,
    times: Seq<u64>,
    s: u64,
)
    requires
        times.len() >= 1,
        s == run_window_start(guards, addr, max_attempts, window_secs, times),
        forall|i: int| 0 <= i < times.len() ==> mono_elapsed_secs(#[trigger] times[i], s) <= window_secs,
    ensures
        after_run(guards, addr, max_attempts, window_secs, times).contains_key(addr),
        after_run(guards, addr, max_attempts, window_secs, times)[addr].window_start == s,
        passes(guards, addr, max_attempts, window_secs, times) <= max_attempts,
        passes(guards, addr, max_attempts, window_secs, times) > 0 ==> passes(
            guards,
            addr,
            max_attempts,
            window_secs,
            times,
        ) <= after_run(guards, addr, max_attempts, window_secs, times)[addr].attempts <= max_attempts,
    decreases times.len(),
{
    let d = times.drop_last();
    if times.len() == 1 {
        assert(times.take(1) =~= times);
        assert(d =~= Seq::<u64>::empty());
        assert(passes(guards, addr, max_attempts, window_secs, d) == 0);
        assert(after_run(guards, addr, max_attempts, window_secs, d) == guards);
    } else {
        assert(d.take(1) =~= times.take(1));
        assert forall|i: int| 0 <= i < d.len() implies mono_elapsed_secs(#[trigger] d[i], s) <= window_secs by {
            assert(d[i] == times[i]);
        }
        lemma_run_invariant(guards, addr, max_attempts, window_secs, d, s);
        let g = after_run(guards, addr, max_attempts, window_secs, d);
        let t = times.last();
        assert(mono_elapsed_secs(times[times.len() - 1], s) <= window_secs);
        assert(window_open(g[addr], window_secs, t));
        let p = pruned(g, window_secs, t);
        assert(p.contains_key(addr) && p[addr] == g[addr]);
        assert(guard_of(p, addr) == Some(g[addr]));
    }
}

/// Within one window a client gets at most `max_attempts` attempts through:
/// of a run of checks of `addr`, all made while the window that the first of
/// them left open is still open, at most `max_attempts` are let through.
pub proof fn lemma_run_bounded(
    guards: Map<ClientAddr, LoginGuard>,
    addr: ClientAddr,
    max_attempts: u32,
    window_secs: u64,
    times: Seq<u64>,
)
    requires
        times.len() >= 1,
        forall|i: int|
            0 <= i < times.len() ==> mono_elapsed_secs(
                #[trigger] times[i],
                run_window_start(guards, addr, max_attempts, window_secs, times),
            ) <= window_secs,
    ensures
        passes(guards, addr, max_attempts, window_secs, times) <= max_attempts,
{
    lemma_run_invariant(
        guards,
        addr,
        max_attempts,
        window_secs,
        times,
        run_window_start(guards, addr, max_attempts, window_secs, times),
    );
}

} // verus!
