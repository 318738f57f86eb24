//! The sampling loop, and what a run of it produces.
//!
//! An amplitude function may be stateful and need not be deterministic, so
//! the result of a run is described by a relation rather than by a formula:
//! a run of `n` samples makes `n` calls, through mutable references
//! `calls[0], ..., calls[n - 1]`, on states `states[0], ..., states[n]`.
//! Call `i` is made at position `i` of the grid, finds the state
//! `states[i]`, leaves the state `states[i + 1]`, and its answer is sample
//! `i`. [`records`] holds the part of this that concerns each call on its
//! own; that call `i` leaves `states[i + 1]` behind is said where a contract
//! needs it, as `*final(calls[i]) == states[i + 1]`.

use vstd::prelude::*;
use crate::time::{grid, TimePos};

verus! {

/// `calls`, `states` and `amps` record the first `amps.len()` calls of a run
/// over `n` samples: call `i` is made at position `i` of the grid, through
/// the reference `calls[i]`, finds the state `states[i]` behind it, and
/// `amps[i]` is an answer that `func` may give to it.
pub open spec fn records<U, A, F: Fn(TimePos, &mut U) -> A>(
    func: F,
    n: usize,
    calls: Seq<&mut U>,
    states: Seq<U>,
    amps: Seq<A>,
) -> bool {
    &&& amps.len() <= n
    &&& calls.len() == amps.len()
    &&& states.len() == amps.len() + 1
    &&& forall|i: int|
        #![trigger calls[i]]
        #![trigger amps[i]]
        0 <= i < amps.len() ==> {
            &&& *calls[i] == states[i]
            &&& call_ensures(func, (grid(n)[i], calls[i]), amps[i])
        }
}

/// Samples `func` at the `n` positions of the grid, in order, and returns the
/// `n` amplitudes in the order of the calls.
///
/// Every call gets the same `data`, so what one call leaves in it is what the
/// next call finds there, and what the last call leaves is what the caller
/// gets back. With `n == 0` nothing is called and `data` is untouched.
///
/// The precondition asks for no more than that each call which the run makes
/// is one that `func` permits: whenever the first few calls have been
/// answered, `func` accepts the next position together with the state that
/// those calls have left. A function without a precondition of its own meets
/// this for every `data` and every `n`.
#[verifier::loop_isolation(false)]
pub fn synth<U, A, F: Fn(TimePos, &mut U) -> A>(func: F, data: &mut U, n: usize) -> (samples: Vec<A>)
    requires
        forall|calls: Seq<&mut U>, states: Seq<U>, amps: Seq<A>, next: &mut U|
            #![trigger
                records(func, n, calls, states, amps),
                call_requires(func, (grid(n)[amps.len() as int], next))
            ]
            (records(func, n, calls, states, amps)
                && amps.len() < n
                && states[0] == *old(data)
                && (forall|i: int| #![trigger calls[i]] 0 <= i < amps.len() ==> *final(calls[i]) == states[i + 1])
                && *next == states[amps.len() as int])
                ==> call_requires(func, (grid(n)[amps.len() as int], next)),
    ensures
        samples@.len() == n,
        n == 0 ==> *final(data) == *old(data),
        exists|calls: Seq<&mut U>, states: Seq<U>|
            records(func, n, calls, states, samples@)
                && states[0] == *old(data)
                && states[n as int] == *final(data)
                && (forall|i: int| #![trigger calls[i]] 0 <= i < n ==> *final(calls[i]) == states[i + 1]),
{
    let mut samples: Vec<A> = Vec::with_capacity(n);
    let ghost mut states: Seq<U> = seq![*data];
    let mut i: usize = 0;
    assert(records(func, n, Seq::<&mut U>::empty(), states, samples@));
    while i < n
        invariant
            i <= n,
            samples@.len() == i,
            states[0] == *old(data),
            states[i as int] == *data,
            exists|calls: Seq<&mut U>|
                #[trigger] records(func, n, calls, states, samples@)
                    && (forall|j: int| #![trigger calls[j]] 0 <= j < i ==> *final(calls[j]) == states[j + 1]),
        decreases n - i,
    {
        let ghost earlier = samples@;
        let ghost prefix = states;
        let pos = TimePos { index: i, count: n };
        assert(grid(n)[earlier.len() as int] == pos);
        let amp = func(pos, data);
        samples.push(amp);
        proof {
            states = prefix.push(*data);
            let made = choose|calls: Seq<&mut U>|
                #[trigger] records(func, n, calls, prefix, earlier)
                    && (forall|j: int| #![trigger calls[j]] 0 <= j < i ==> *final(calls[j]) == prefix[j + 1]);
            let call = choose|r: &mut U|
                *r == prefix[i as int] && *final(r) == *data && call_ensures(func, (pos, r), amp);
            let calls = made.push(call);
            assert forall|j: int| 0 <= j < i + 1 implies {
                &&& *#[trigger] calls[j] == states[j]
                &&& call_ensures(func, (grid(n)[j], calls[j]), samples@[j])
                &&& *final(calls[j]) == states[j + 1]
            } by {
                if j < i {
                    assert(calls[j] == made[j]);
                }
            }
            assert(records(func, n, calls, states, samples@));
        }
        i += 1;
    }
    samples
}

/// Induction along a run: a property of the state that holds before the
/// first call, and that every call carries from the state it finds to the
/// state it leaves, holds of every state of the run. The property may depend
/// on how many calls have been made.
pub proof fn lemma_run_invariant<U, A, F: Fn(TimePos, &mut U) -> A>(
    func: F,
    n: usize,
    calls: Seq<&mut U>,
    states: Seq<U>,
    amps: Seq<A>,
    inv: spec_fn(int, U) -> bool,
)
    requires
        records(func, n, calls, states, amps),
        forall|i: int| #![trigger calls[i]] 0 <= i < amps.len() ==> *final(calls[i]) == states[i + 1],
        inv(0, states[0]),
        forall|i: int, r: &mut U, a: A|
            0 <= i < amps.len() && inv(i, *r) && #[trigger] call_ensures(func, (grid(n)[i], r), a)
                ==> inv(i + 1, *final(r)),
    ensures
        forall|i: int| 0 <= i <= amps.len() ==> inv(i, #[trigger] states[i]),
{
    assert forall|i: int| 0 <= i <= amps.len() implies inv(i, #[trigger] states[i]) by {
        lemma_run_invariant_at(func, n, calls, states, amps, inv, i);
    }
}

proof fn lemma_run_invariant_at<U, A, F: Fn(TimePos, &mut U) -> A>(
    func: F,
    n: usize,
    calls: Seq<&mut U>,
    states: Seq<U>,
    amps: Seq<A>,
    inv: spec_fn(int, U) -> bool,
    k: int,
)
    requires
        records(func, n, calls, states, amps),
        forall|i: int| #![trigger calls[i]] 0 <= i < amps.len() ==> *final(calls[i]) == states[i + 1],
        inv(0, states[0]),
        forall|i: int, r: &mut U, a: A|
            0 <= i < amps.len() && inv(i, *r) && #[trigger] call_ensures(func, (grid(n)[i], r), a)
                ==> inv(i + 1, *final(r)),
        0 <= k <= amps.len(),
    ensures
        inv(k, states[k]),
    decreases k,
{
    if k > 0 {
        lemma_run_invariant_at(func, n, calls, states, amps, inv, k - 1);
        let r = calls[k - 1];
        assert(call_ensures(func, (grid(n)[k - 1], r), amps[k - 1]));
    }
}

/// An amplitude function that answers `c` wherever and in whatever state it
/// is asked yields `n` samples that are all `c`.
pub proof fn lemma_constant_amplitude<U, A, F: Fn(TimePos, &mut U) -> A>(
    func: F,
    n: usize,
    calls: Seq<&mut U>,
    states: Seq<U>,
    amps: Seq<A>,
    c: A,
)
    requires
        records(func, n, calls, states, amps),
        amps.len() == n,
        forall|t: TimePos, r: &mut U, a: A| call_ensures(func, (t, r), a) ==> a == c,
    ensures
        amps == Seq::new(n as nat, |i: int| c),
{
    assert(amps =~= Seq::new(n as nat, |i: int| c));
}

/// An amplitude function that answers with the position at which it is asked
/// yields the grid itself.
pub proof fn lemma_identity_amplitude<U, F: Fn(TimePos, &mut U) -> TimePos>(
    func: F,
    n: usize,
    calls: Seq<&mut U>,
    states: Seq<U>,
    amps: Seq<TimePos>,
)
    requires
        records(func, n, calls, states, amps),
        amps.len() == n,
        forall|t: TimePos, r: &mut U, a: TimePos| call_ensures(func, (t, r), a) ==> a == t,
    ensures
        amps == grid(n),
{
    assert(amps =~= grid(n));
}

} // verus!
