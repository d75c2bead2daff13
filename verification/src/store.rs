//! The tables of an epoch: what they hold, what a batch writes to them, and what is read back
//! from them when a manager starts.

use crate::dkg::{Confirmation, Output, ProcessedMessage, UsedMessages};
use crate::rows::{distinct_keys, map_of_rows};
use crate::types::{PartyId, RandomnessRound, SuiError, SuiResult};
use vstd::prelude::*;

verus! {

/// Key of the only row of a table that has one.
pub const SINGLETON_KEY: u64 = 0;

/// A row to be written to one of the tables.
pub enum TableWrite {
    DkgProcessedMessages(PartyId, ProcessedMessage),
    DkgUsedMessages(u64, UsedMessages),
    DkgConfirmations(PartyId, Confirmation),
    DkgOutput(u64, Output),
    RandomnessRoundsPending(RandomnessRound),
    RandomnessNextRound(u64, RandomnessRound),
}

/// How a batch refuses writes.
#[derive(Clone, Copy, Debug, PartialEq, Eq)]
pub struct Refusal {
    /// Number of writes that the batch holds when it begins to refuse more.
    pub from: usize,
    pub error: SuiError,
}

/// Writes that are made to the tables together.
pub struct DBBatch {
    pub writes: Vec<TableWrite>,
    /// How the batch refuses writes, if it does: as one that is not of the tables' store, or
    /// that cannot encode a row.
    pub refusal: Option<Refusal>,
}

/// What a batch comes to.
pub struct BatchView {
    pub writes: Seq<TableWrite>,
    pub refusal: Option<Refusal>,
}

impl BatchView {
    /// The error with which the next write is refused, if it is.
    pub open spec fn refuses(self) -> Option<SuiError> {
        match self.refusal {
            Some(refusal) => if self.writes.len() >= refusal.from {
                Some(refusal.error)
            } else {
                None
            },
            None => None,
        }
    }

    /// The batch with one more write.
    pub open spec fn with(self, write: TableWrite) -> BatchView {
        BatchView { writes: self.writes.push(write), ..self }
    }

    /// The batch after an attempt to add a write, and how that went.
    pub open spec fn inserted(self, write: TableWrite) -> (BatchView, SuiResult<()>) {
        match self.refuses() {
            Some(error) => (self, Err(error)),
            None => (self.with(write), Ok(())),
        }
    }
}

impl View for DBBatch {
    type V = BatchView;

    open spec fn view(&self) -> BatchView {
        BatchView { writes: self.writes@, refusal: self.refusal }
    }
}

impl DBBatch {
    /// A batch without writes, which refuses none.
    pub fn new() -> (batch: DBBatch)
        ensures
            batch@ == (BatchView { writes: Seq::empty(), refusal: None }),
    {
        DBBatch { writes: Vec::new(), refusal: None }
    }

    /// Adds a write after those that are there, unless the batch refuses it.
    pub fn insert_batch(&mut self, write: TableWrite) -> (result: SuiResult<()>)
        ensures
            (final(self)@, result) == old(self)@.inserted(write),
    {
        if let Some(refusal) = self.refusal {
            if self.writes.len() >= refusal.from {
                return Err(refusal.error);
            }
        }
        self.writes.push(write);
        Ok(())
    }
}

/// What the tables hold.
pub struct Tables {
    pub dkg_processed_messages: Map<PartyId, ProcessedMessage>,
    pub dkg_used_messages: Map<u64, UsedMessages>,
    pub dkg_confirmations: Map<PartyId, Confirmation>,
    pub dkg_output: Map<u64, Output>,
    pub randomness_next_round: Map<u64, RandomnessRound>,
    pub randomness_rounds_pending: Set<RandomnessRound>,
}

impl Tables {
    /// The tables of a new epoch.
    pub open spec fn empty() -> Tables {
        Tables {
            dkg_processed_messages: Map::empty(),
            dkg_used_messages: Map::empty(),
            dkg_confirmations: Map::empty(),
            dkg_output: Map::empty(),
            randomness_next_round: Map::empty(),
            randomness_rounds_pending: Set::empty(),
        }
    }

    /// The tables after one write.
    pub open spec fn after(self, write: TableWrite) -> Tables {
        match write {
            TableWrite::DkgProcessedMessages(key, row) => Tables {
                dkg_processed_messages: self.dkg_processed_messages.insert(key, row),
                ..self
            },
            TableWrite::DkgUsedMessages(key, row) => Tables {
                dkg_used_messages: self.dkg_used_messages.insert(key, row),
                ..self
            },
            TableWrite::DkgConfirmations(key, row) => Tables {
                dkg_confirmations: self.dkg_confirmations.insert(key, row),
                ..self
            },
            TableWrite::DkgOutput(key, row) => Tables {
                dkg_output: self.dkg_output.insert(key, row),
                ..self
            },
            TableWrite::RandomnessRoundsPending(round) => Tables {
                randomness_rounds_pending: self.randomness_rounds_pending.insert(round),
                ..self
            },
            TableWrite::RandomnessNextRound(key, round) => Tables {
                randomness_next_round: self.randomness_next_round.insert(key, round),
                ..self
            },
        }
    }

    /// The tables after the writes of a batch.
    pub open spec fn after_all(self, writes: Seq<TableWrite>) -> Tables
        decreases writes.len(),
    {
        if writes.len() == 0 {
            self
        } else {
            self.after_all(writes.drop_last()).after(writes.last())
        }
    }

    /// The tables after a pending round is removed.
    pub open spec fn without_pending(self, round: RandomnessRound) -> Tables {
        Tables { randomness_rounds_pending: self.randomness_rounds_pending.remove(round), ..self }
    }
}

/// The rows that are read from the tables when a manager starts.
pub struct StoredRows {
    pub dkg_processed_messages: Vec<(PartyId, ProcessedMessage)>,
    pub dkg_used_messages: Option<UsedMessages>,
    pub dkg_confirmations: Vec<(PartyId, Confirmation)>,
    pub dkg_output: Option<Output>,
    pub randomness_next_round: Option<RandomnessRound>,
    pub randomness_rounds_pending: Vec<RandomnessRound>,
}

/// What a table with a single row holds.
pub open spec fn singleton<V>(table: Map<u64, V>) -> Option<V> {
    if table.contains_key(SINGLETON_KEY) {
        Some(table[SINGLETON_KEY])
    } else {
        None
    }
}

impl StoredRows {
    /// Whether these rows are what the tables hold, each row once.
    pub open spec fn read_from(self, tables: Tables) -> bool {
        &&& distinct_keys(self.dkg_processed_messages@)
        &&& distinct_keys(self.dkg_confirmations@)
        &&& self.randomness_rounds_pending@.no_duplicates()
        &&& map_of_rows(self.dkg_processed_messages@) == tables.dkg_processed_messages
        &&& self.dkg_used_messages == singleton(tables.dkg_used_messages)
        &&& map_of_rows(self.dkg_confirmations@) == tables.dkg_confirmations
        &&& self.dkg_output == singleton(tables.dkg_output)
        &&& self.randomness_next_round == singleton(tables.randomness_next_round)
        &&& self.randomness_rounds_pending@.to_set() == tables.randomness_rounds_pending
    }
}

} // verus!
