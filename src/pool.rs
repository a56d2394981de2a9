use vstd::prelude::*;

use vstd::arithmetic::div_mod::{lemma_fundamental_div_mod, lemma_fundamental_div_mod_converse};

verus! {

/// Round-robin dispatch over `sessions` inference sessions: call `t` (counting
/// from 0) goes to session `t % sessions`.
pub struct RoundRobin {
    pub counter: usize,
    pub sessions: usize,
}

/// The session that serves call number `ticket`.
pub fn session_index(ticket: usize, sessions: usize) -> (r: usize)
    requires
        sessions > 0,
    ensures
        r == ticket % sessions,
        r < sessions,
{
    ticket % sessions
}

impl RoundRobin {
    pub open spec fn wf(&self) -> bool {
        self.sessions > 0
    }

    /// A dispatcher over `sessions` sessions that has served no call yet.
    pub fn new(sessions: usize) -> (r: RoundRobin)
        requires
            sessions > 0,
        ensures
            r.wf(),
            r.sessions == sessions,
            r.counter == 0,
    {
        RoundRobin { counter: 0, sessions }
    }

    /// The session for the next call; the counter wraps at `usize::MAX` as an
    /// atomic `fetch_add` does.
    pub fn next_session(&mut self) -> (r: usize)
        requires
            old(self).wf(),
        ensures
            final(self).wf(),
            final(self).sessions == old(self).sessions,
            r == old(self).counter % old(self).sessions,
            final(self).counter == if old(self).counter == usize::MAX {
                0
            } else {
                old(self).counter + 1
            },
    {
        let r = session_index(self.counter, self.sessions);
        self.counter = if self.counter == usize::MAX { 0 } else { self.counter + 1 };
        r
    }
}

/// How many of the calls `0..k` go to session `s` out of `n`.
pub open spec fn calls_to(k: nat, n: nat, s: nat) -> nat
    decreases k,
{
    if k == 0 {
        0
    } else {
        calls_to((k - 1) as nat, n, s) + if ((k - 1) as nat) % n == s {
            1nat
        } else {
            0nat
        }
    }
}

/// Of `k` calls dealt round-robin over `n` sessions, session `s` gets `k / n`,
/// plus one when `s` is among the first `k % n` sessions: every session gets
/// `k / n` or `k / n + 1` calls.
pub proof fn lemma_round_robin_fair(k: nat, n: nat, s: nat)
    requires
        n > 0,
        s < n,
    ensures
        calls_to(k, n, s) == k / n + if s < k % n {
            1nat
        } else {
            0nat
        },
        k / n <= calls_to(k, n, s) <= k / n + 1,
    decreases k,
{
    if k > 0 {
        let j = (k - 1) as nat;
        lemma_round_robin_fair(j, n, s);
        lemma_fundamental_div_mod(j as int, n as int);
        let q = j / n;
        let r = j % n;
        if r + 1 < n {
            lemma_fundamental_div_mod_converse(k as int, n as int, q as int, (r + 1) as int);
        } else {
            assert(k == (q + 1) * n + 0) by (nonlinear_arith)
                requires
                    j == q * n + r,
                    r + 1 == n,
                    k == j + 1,
            ;
            lemma_fundamental_div_mod_converse(k as int, n as int, (q + 1) as int, 0);
        }
    }
}


/// How many of the calls `start..start + k` go to session `s` out of `n`.
pub open spec fn calls_in(start: nat, k: nat, n: nat, s: nat) -> nat
    decreases k,
{
    if k == 0 {
        0
    } else {
        calls_in(start, (k - 1) as nat, n, s) + if ((start + k - 1) as nat) % n == s {
            1nat
        } else {
            0nat
        }
    }
}

proof fn lemma_calls_in_difference(start: nat, k: nat, n: nat, s: nat)
    requires
        n > 0,
    ensures
        calls_to(start + k, n, s) == calls_to(start, n, s) + calls_in(start, k, n, s),
    decreases k,
{
    if k > 0 {
        lemma_calls_in_difference(start, (k - 1) as nat, n, s);
    }
}

/// Of any `k` consecutive calls dealt round-robin over `n` sessions, whatever
/// the counter was when they began, every session gets `k / n` or `k / n + 1`.
pub proof fn lemma_round_robin_window_fair(start: nat, k: nat, n: nat, s: nat)
    requires
        n > 0,
        s < n,
    ensures
        k / n <= calls_in(start, k, n, s) <= k / n + 1,
{
    let b = start + k;
    lemma_calls_in_difference(start, k, n, s);
    lemma_round_robin_fair(start, n, s);
    lemma_round_robin_fair(b as nat, n, s);
    lemma_fundamental_div_mod(start as int, n as int);
    lemma_fundamental_div_mod(k as int, n as int);
    let qa = start / n;
    let ra = start % n;
    let qk = k / n;
    let rk = k % n;
    if ra + rk < n {
        assert(b == (qa + qk) * n + (ra + rk)) by (nonlinear_arith)
            requires
                start == n * qa + ra,
                k == n * qk + rk,
                b == start + k,
        ;
        lemma_fundamental_div_mod_converse(b as int, n as int, (qa + qk) as int, (ra + rk) as int);
    } else {
        assert(b == (qa + qk + 1) * n + (ra + rk - n)) by (nonlinear_arith)
            requires
                start == n * qa + ra,
                k == n * qk + rk,
                b == start + k,
        ;
        lemma_fundamental_div_mod_converse(
            b as int,
            n as int,
            (qa + qk + 1) as int,
            (ra + rk - n) as int,
        );
    }
}

} // verus!
