//! The state module: block height and per-account nonces.

use crate::counter::Counter;
use crate::model::State;
use std::collections::BTreeMap;
use vstd::laws_cmp::obeys_cmp;
use vstd::pervasive::strictly_cloned;
use vstd::prelude::*;

verus! {

/// The types that a runtime chooses for this module.
///
/// They are bound once, by the type that implements this trait, and stay the
/// same for as long as a [`Pallet`] over that type lives.
pub trait Config {
    /// Identifies an account. Identifiers key the nonce map, so they are
    /// ordered, and cloned when an entry is made.
    type AccountId: Ord + Clone;

    /// Counts blocks.
    type BlockNumber: Ord + Copy + Counter;

    /// Counts the transactions of one account.
    type Nonce: Ord + Copy + Counter;
}

/// Whether values of `K` behave as keys of the nonce map: comparing them is
/// a total order that agrees with equality, and the clone of a key is that
/// key. The map is only as good as the ordering of its keys, so the
/// operations that look an account up ask this of the identifier type.
///
/// The primitive integer types obey these laws.
pub open spec fn obeys_key_laws<K: Ord + Clone>() -> bool {
    &&& obeys_cmp::<K>()
    &&& forall|key: K, copy: K| #[trigger] strictly_cloned(key, copy) ==> copy == key
}

/// The state module. It holds the low-level state of a chain: the current
/// block height, and how many transactions each account has made.
#[derive(Debug)]
pub struct Pallet<T: Config> {
    /// The current block number.
    block_number: T::BlockNumber,
    /// A map from an account to its nonce. An account is entered when its
    /// nonce first leaves zero.
    nonce: BTreeMap<T::AccountId, T::Nonce>,
}

impl<T: Config> View for Pallet<T> {
    type V = State<T::AccountId>;

    closed spec fn view(&self) -> State<T::AccountId> {
        State {
            block_number: self.block_number.value(),
            nonces: self.nonce@.map_values(|n: T::Nonce| n.value()),
        }
    }
}

impl<T: Config> Pallet<T> {
    /// Whether the stored nonces satisfy the invariant of the nonce map:
    /// no account is stored with nonce zero. [`Pallet::new`] establishes it
    /// and both mutators preserve it.
    pub open spec fn wf(&self) -> bool {
        self@.valid()
    }

    /// Creates the module in its genesis state: the block number is zero and
    /// every account has nonce zero.
    pub fn new() -> (pallet: Self)
        ensures
            pallet@ == State::<T::AccountId>::genesis(),
            pallet@.block_number == 0,
            forall|who: T::AccountId| pallet@.nonce(who) == 0,
            pallet.wf(),
    {
        let pallet = Self { block_number: T::BlockNumber::zero(), nonce: BTreeMap::new() };
        assert(pallet@.nonces =~= Map::<T::AccountId, nat>::empty());
        pallet
    }

    /// The current block number.
    pub fn block_number(&self) -> (number: T::BlockNumber)
        ensures
            number.value() == self@.block_number,
    {
        self.block_number
    }

    /// The nonce of `who`: the stored one, or zero for an account that has
    /// no entry.
    pub fn nonce(&self, who: &T::AccountId) -> (nonce: T::Nonce)
        requires
            obeys_key_laws::<T::AccountId>(),
        ensures
            nonce.value() == self@.nonce(*who),
    {
        *self.nonce.get(who).unwrap_or(&T::Nonce::zero())
    }

    /// Advances the block number by one, and touches nothing else.
    ///
    /// Overflow is not detected here: the block number type must be able to
    /// hold the next height, and it is for the embedding runtime to see to
    /// that.
    pub fn inc_block_number(&mut self)
        requires
            T::BlockNumber::can_hold(old(self)@.block_number + 1),
        ensures
            final(self)@ == old(self)@.inc_block_number(),
            final(self)@.block_number == old(self)@.block_number + 1,
            final(self)@.nonces == old(self)@.nonces,
            old(self).wf() ==> final(self).wf(),
    {
        self.block_number = self.block_number.plus(T::BlockNumber::one());
    }

    /// Advances the nonce of `who` by one, and touches no other account. An
    /// account without an entry is entered with nonce one.
    ///
    /// Overflow is not detected here: the nonce type must be able to hold
    /// the next nonce of `who`, and it is for the embedding runtime to see
    /// to that.
    pub fn inc_nonce(&mut self, who: &T::AccountId)
        requires
            obeys_key_laws::<T::AccountId>(),
            T::Nonce::can_hold(old(self)@.nonce(*who) + 1),
        ensures
            final(self)@ == old(self)@.inc_nonce(*who),
            final(self)@.nonce(*who) == old(self)@.nonce(*who) + 1,
            forall|other: T::AccountId|
                other != *who ==> final(self)@.nonce(other) == old(self)@.nonce(other),
            final(self)@.block_number == old(self)@.block_number,
            old(self).wf() ==> final(self).wf(),
    {
        let current = *self.nonce.get(who).unwrap_or(&T::Nonce::zero());
        let key = who.clone();
        assert(key == *who) by {
            assert(strictly_cloned(*who, key));
        }
        self.nonce.insert(key, current.plus(T::Nonce::one()));
        assert(self@.nonces =~= old(self)@.inc_nonce(*who).nonces);
    }
}

} // verus!
