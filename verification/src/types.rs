//! Plain values that pass between the randomness manager and the node around it.

use vstd::prelude::*;

verus! {

/// Index of a party in the key generation protocol.
pub type PartyId = u16;

/// Number of an epoch.
pub type EpochId = u64;

/// Number of a consensus round.
pub type Round = u64;

/// Voting power of a committee member.
pub type StakeUnit = u64;

/// A reading of a monotonic clock, in milliseconds.
pub type Millis = u64;

/// Name of a validator: its compressed BLS public key.
#[derive(Clone, Copy, Debug, PartialEq, Eq, Hash)]
pub struct AuthorityName {
    pub bytes: [u8; 96],
}

impl View for AuthorityName {
    type V = Seq<u8>;

    open spec fn view(&self) -> Seq<u8> {
        self.bytes@
    }
}

impl AuthorityName {
    /// Whether two names are the same.
    pub fn is(&self, other: &AuthorityName) -> (same: bool)
        ensures
            same == (self@ == other@),
    {
        let mut i: usize = 0;
        while i < 96
            invariant
                i <= 96,
                self@.len() == 96,
                other@.len() == 96,
                forall|j: int| 0 <= j < i ==> self@[j] == other@[j],
            decreases 96 - i,
        {
            if self.bytes[i] != other.bytes[i] {
                return false;
            }
            i = i + 1;
        }
        assert(self@ =~= other@);
        true
    }
}

/// Network identity of a validator.
#[derive(Clone, Copy, Debug, PartialEq, Eq)]
pub struct PeerId {
    pub bytes: [u8; 32],
}

/// Number of a randomness round.
#[derive(Clone, Copy, Debug, PartialEq, Eq)]
pub struct RandomnessRound(pub u64);

impl RandomnessRound {
    /// The round that many rounds later, unless there is none.
    pub fn checked_add(self, rounds: u64) -> (sum: Option<RandomnessRound>)
        ensures
            sum == (if self.0 + rounds <= u64::MAX {
                Some(RandomnessRound((self.0 + rounds) as u64))
            } else {
                None
            }),
    {
        match self.0.checked_add(rounds) {
            Some(n) => Some(RandomnessRound(n)),
            None => None,
        }
    }
}

/// Why a call to the manager fails.
#[derive(Clone, Copy, Debug, PartialEq, Eq)]
pub enum SuiError {
    /// The epoch of this manager is over.
    EpochEnded,
    /// The consensus adapter refused a transaction.
    Consensus,
    /// The store failed.
    Storage,
}

/// Result of a call to the manager.
pub type SuiResult<T> = Result<T, SuiError>;

/// What the manager reads of the epoch store during one call.
#[derive(Clone, Copy, Debug, PartialEq, Eq)]
pub struct EpochStore {
    /// Name of this validator.
    pub name: AuthorityName,
    /// The committee's epoch.
    pub epoch: EpochId,
    /// Whether the tables of the epoch can be had, or why not.
    pub tables: SuiResult<()>,
    /// Consensus round after which key generation fails if it is still open.
    pub dkg_timeout_round: u32,
    /// When the epoch was opened.
    pub epoch_open_time: Millis,
}

/// The epoch store, while it is there.
pub open spec fn epoch_store_of(store: Option<&EpochStore>) -> SuiResult<EpochStore> {
    match store {
        Some(epoch_store) => Ok(*epoch_store),
        None => Err(SuiError::EpochEnded),
    }
}

/// Whether the tables can be had: the store is there and still has them.
pub open spec fn tables_of(store: Option<&EpochStore>) -> SuiResult<()> {
    match store {
        Some(epoch_store) => epoch_store.tables,
        None => Err(SuiError::EpochEnded),
    }
}

/// The gauges that follow key generation over an epoch.
#[derive(Clone, Copy, Debug, PartialEq, Eq)]
pub struct DkgMetrics {
    pub epoch_random_beacon_dkg_num_shares: i64,
    pub epoch_random_beacon_dkg_message_time_ms: i64,
    pub epoch_random_beacon_dkg_confirmation_time_ms: i64,
    pub epoch_random_beacon_dkg_epoch_start_completion_time_ms: i64,
    pub epoch_random_beacon_dkg_completion_time_ms: i64,
    pub epoch_random_beacon_dkg_failed: i64,
}

/// Milliseconds from `start` to `now`, as a gauge holds them; none if the clock went back.
pub open spec fn elapsed_millis(start: Millis, now: Millis) -> i64 {
    (if now >= start {
        (now - start) as u64
    } else {
        0u64
    }) as i64
}

/// Milliseconds from `start` to `now`, as a gauge holds them.
pub fn elapsed(start: Millis, now: Millis) -> (millis: i64)
    ensures
        millis == elapsed_millis(start, now),
{
    if now >= start {
        (now - start) as i64
    } else {
        0
    }
}

} // verus!
