//! The mathematical state of the state module, and what holds of it.
//!
//! A [`State`] is a block height together with a sparse map from accounts to
//! nonces. The two mutations of the module are the two variants of [`Call`];
//! [`State::run`] applies a whole history of calls. Every contract of the
//! executable module is stated over these definitions, and the lemmas below
//! say what follows for histories of any length.

use vstd::prelude::*;

verus! {

/// The abstract state: the current height, and the nonce of every account
/// that has transacted.
#[verifier::reject_recursive_types(A)]
pub struct State<A> {
    /// The current block height.
    pub block_number: nat,
    /// The nonces that have been stored. An account without an entry has
    /// nonce zero.
    pub nonces: Map<A, nat>,
}

/// One mutation of the state.
pub enum Call<A> {
    /// Advance the block height by one.
    IncBlockNumber,
    /// Advance the nonce of the given account by one.
    IncNonce(A),
}

impl<A> State<A> {
    /// The state at genesis: height zero, and no account has an entry.
    pub open spec fn genesis() -> Self {
        State { block_number: 0, nonces: Map::empty() }
    }

    /// The nonce of `who`: the stored one, or zero where none is stored.
    pub open spec fn nonce(self, who: A) -> nat {
        if self.nonces.contains_key(who) {
            self.nonces[who]
        } else {
            0
        }
    }

    /// The state after the block height has advanced by one.
    pub open spec fn inc_block_number(self) -> Self {
        State { block_number: self.block_number + 1, nonces: self.nonces }
    }

    /// The state after the nonce of `who` has advanced by one.
    pub open spec fn inc_nonce(self, who: A) -> Self {
        State {
            block_number: self.block_number,
            nonces: self.nonces.insert(who, self.nonce(who) + 1),
        }
    }

    /// The invariant of the nonce map: it has finitely many entries, and an
    /// account has an entry only once its nonce has left zero.
    pub open spec fn valid(self) -> bool {
        &&& self.nonces.dom().finite()
        &&& forall|who: A| self.nonces.contains_key(who) ==> self.nonces[who] >= 1
    }

    /// The state after one call.
    pub open spec fn step(self, call: Call<A>) -> Self {
        match call {
            Call::IncBlockNumber => self.inc_block_number(),
            Call::IncNonce(who) => self.inc_nonce(who),
        }
    }

    /// The state after a history of calls, applied first to last.
    pub open spec fn run(self, calls: Seq<Call<A>>) -> Self
        decreases calls.len(),
    {
        if calls.len() == 0 {
            self
        } else {
            self.run(calls.drop_last()).step(calls.last())
        }
    }
}

/// How many times `call` occurs in the history `calls`.
pub open spec fn occurrences<A>(calls: Seq<Call<A>>, call: Call<A>) -> nat
    decreases calls.len(),
{
    if calls.len() == 0 {
        0
    } else {
        occurrences(calls.drop_last(), call) + if calls.last() == call {
            1nat
        } else {
            0nat
        }
    }
}

/// The history that makes the same call `n` times.
pub open spec fn repeated<A>(call: Call<A>, n: nat) -> Seq<Call<A>> {
    Seq::new(n, |i: int| call)
}

/// A run is determined by how often each call was made: the height has
/// advanced by the number of height increments in the history, the nonce of
/// each account by the number of increments made for that account, and an
/// account has an entry exactly if it had one before or was incremented.
pub proof fn lemma_run_counts_calls<A>(s: State<A>, calls: Seq<Call<A>>)
    ensures
        s.run(calls).block_number == s.block_number + occurrences(calls, Call::IncBlockNumber),
        forall|who: A|
            #![trigger s.run(calls).nonce(who)]
            #![trigger occurrences(calls, Call::IncNonce(who))]
            s.run(calls).nonce(who) == s.nonce(who) + occurrences(calls, Call::IncNonce(who)),
        forall|who: A|
            #![trigger s.run(calls).nonces.contains_key(who)]
            #![trigger occurrences(calls, Call::IncNonce(who))]
            s.run(calls).nonces.contains_key(who) <==> s.nonces.contains_key(who) || occurrences(
                calls,
                Call::IncNonce(who),
            ) > 0,
    decreases calls.len(),
{
    if calls.len() > 0 {
        lemma_run_counts_calls(s, calls.drop_last());
        assert forall|who: A|
            {
                &&& s.run(calls).nonce(who) == s.nonce(who) + #[trigger] occurrences(
                    calls,
                    Call::IncNonce(who),
                )
                &&& s.run(calls).nonces.contains_key(who) <==> s.nonces.contains_key(who)
                    || occurrences(calls, Call::IncNonce(who)) > 0
            } by {
            match calls.last() {
                Call::IncBlockNumber => {},
                Call::IncNonce(other) => {
                    assert(other == who <==> calls.last() == Call::IncNonce(who));
                },
            }
        }
    }
}

/// The invariant of the nonce map survives every call, so a history that
/// starts in a valid state ends in one.
pub proof fn lemma_run_preserves_valid<A>(s: State<A>, calls: Seq<Call<A>>)
    requires
        s.valid(),
    ensures
        s.run(calls).valid(),
    decreases calls.len(),
{
    if calls.len() > 0 {
        lemma_run_preserves_valid(s, calls.drop_last());
    }
}

/// Every state that a history reaches from genesis is valid: no account is
/// ever stored with nonce zero.
pub proof fn lemma_reachable_states_are_valid<A>(calls: Seq<Call<A>>)
    ensures
        State::<A>::genesis().run(calls).valid(),
{
    lemma_run_preserves_valid(State::<A>::genesis(), calls);
}

/// The height and the nonces only ever grow.
pub proof fn lemma_counters_never_decrease<A>(s: State<A>, calls: Seq<Call<A>>)
    ensures
        s.run(calls).block_number >= s.block_number,
        forall|who: A| #[trigger] s.run(calls).nonce(who) >= s.nonce(who),
{
    lemma_run_counts_calls(s, calls);
}

/// From genesis, a history in which the height was incremented exactly `n`
/// times ends at height `n`, whatever else was called in between.
pub proof fn lemma_block_number_counts_increments<A>(calls: Seq<Call<A>>, n: nat)
    requires
        occurrences(calls, Call::IncBlockNumber) == n,
    ensures
        State::<A>::genesis().run(calls).block_number == n,
{
    lemma_run_counts_calls(State::<A>::genesis(), calls);
}

/// From genesis, a history in which the nonce of `who` was incremented
/// exactly `n` times leaves `who` with nonce `n`, whatever else was called in
/// between.
pub proof fn lemma_nonce_counts_increments<A>(who: A, calls: Seq<Call<A>>, n: nat)
    requires
        occurrences(calls, Call::IncNonce(who)) == n,
    ensures
        State::<A>::genesis().run(calls).nonce(who) == n,
{
    lemma_run_counts_calls(State::<A>::genesis(), calls);
}

/// Incrementing the nonce of one account leaves the nonce of every other
/// account as it was.
pub proof fn lemma_inc_nonce_keeps_other_nonces<A>(s: State<A>, who: A, other: A)
    requires
        other != who,
    ensures
        s.inc_nonce(who).nonce(other) == s.nonce(other),
{
}

/// Nonce increments, however many and for whichever accounts, leave the
/// height as it was.
pub proof fn lemma_nonce_calls_keep_block_number<A>(s: State<A>, calls: Seq<Call<A>>)
    requires
        forall|i: int| 0 <= i < calls.len() ==> calls[i] is IncNonce,
    ensures
        s.run(calls).block_number == s.block_number,
    decreases calls.len(),
{
    if calls.len() > 0 {
        lemma_nonce_calls_keep_block_number(s, calls.drop_last());
    }
}

/// Height increments, however many, leave every nonce as it was.
pub proof fn lemma_block_number_calls_keep_nonces<A>(s: State<A>, calls: Seq<Call<A>>)
    requires
        forall|i: int| 0 <= i < calls.len() ==> calls[i] is IncBlockNumber,
    ensures
        s.run(calls).nonces == s.nonces,
        forall|who: A| #[trigger] s.run(calls).nonce(who) == s.nonce(who),
    decreases calls.len(),
{
    if calls.len() > 0 {
        lemma_block_number_calls_keep_nonces(s, calls.drop_last());
    }
}

/// Two histories that make each call equally often end in the same state:
/// the order in which calls are made is immaterial.
pub proof fn lemma_order_of_calls_is_immaterial<A>(
    s: State<A>,
    first: Seq<Call<A>>,
    second: Seq<Call<A>>,
)
    requires
        forall|call: Call<A>| occurrences(first, call) == occurrences(second, call),
    ensures
        s.run(first) == s.run(second),
{
    lemma_run_counts_calls(s, first);
    lemma_run_counts_calls(s, second);
    let left = s.run(first);
    let right = s.run(second);
    assert forall|who: A| #[trigger]
        left.nonces.dom().contains(who) == right.nonces.dom().contains(who) by {
        assert(left.nonces.contains_key(who) == right.nonces.contains_key(who));
    }
    assert forall|who: A| #[trigger]
        left.nonces.dom().contains(who) implies left.nonces[who] == right.nonces[who] by {
        assert(left.nonce(who) == right.nonce(who));
    }
    assert(left.nonces =~= right.nonces);
}

/// However the increments for two distinct accounts `a` and `b` are
/// interleaved in a history, both end with the nonce they would have had all
/// of the increments for `a` been made first and all of those for `b` after.
pub proof fn lemma_interleaving_equals_grouping<A>(s: State<A>, a: A, b: A, calls: Seq<Call<A>>)
    requires
        a != b,
    ensures
        ({
            let grouped = repeated(Call::IncNonce(a), occurrences(calls, Call::IncNonce(a)))
                + repeated(Call::IncNonce(b), occurrences(calls, Call::IncNonce(b)));
            &&& s.run(calls).nonce(a) == s.run(grouped).nonce(a)
            &&& s.run(calls).nonce(b) == s.run(grouped).nonce(b)
        }),
{
    let times_a = occurrences(calls, Call::IncNonce(a));
    let times_b = occurrences(calls, Call::IncNonce(b));
    let for_a = repeated(Call::IncNonce(a), times_a);
    let for_b = repeated(Call::IncNonce(b), times_b);
    lemma_run_counts_calls(s, calls);
    lemma_run_counts_calls(s, for_a + for_b);
    lemma_occurrences_of_concat(for_a, for_b, Call::IncNonce(a));
    lemma_occurrences_of_concat(for_a, for_b, Call::IncNonce(b));
    lemma_occurrences_of_repeated(Call::IncNonce(a), times_a, Call::IncNonce(a));
    lemma_occurrences_of_repeated(Call::IncNonce(a), times_a, Call::IncNonce(b));
    lemma_occurrences_of_repeated(Call::IncNonce(b), times_b, Call::IncNonce(a));
    lemma_occurrences_of_repeated(Call::IncNonce(b), times_b, Call::IncNonce(b));
}

/// A call occurs in a concatenation as often as in its two parts together.
proof fn lemma_occurrences_of_concat<A>(front: Seq<Call<A>>, back: Seq<Call<A>>, call: Call<A>)
    ensures
        occurrences(front + back, call) == occurrences(front, call) + occurrences(back, call),
    decreases back.len(),
{
    if back.len() == 0 {
        assert(front + back =~= front);
    } else {
        assert((front + back).drop_last() =~= front + back.drop_last());
        lemma_occurrences_of_concat(front, back.drop_last(), call);
    }
}

/// A history of `n` equal calls holds that call `n` times, and no other.
proof fn lemma_occurrences_of_repeated<A>(made: Call<A>, n: nat, call: Call<A>)
    ensures
        occurrences(repeated(made, n), call) == if made == call {
            n
        } else {
            0
        },
    decreases n,
{
    if n > 0 {
        assert(repeated(made, n).drop_last() =~= repeated(made, (n - 1) as nat));
        lemma_occurrences_of_repeated(made, (n - 1) as nat, call);
    }
}

} // verus!
