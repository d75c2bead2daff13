//! The state machine that generates a key among the validators and numbers the rounds of
//! randomness.

use crate::checks::completable;
use crate::dkg::{
    Confirmation, DkgError, ENCRYPTION_LIMIT, Message, Output, Party, PartyView, ProcessedMessage,
    UsedMessages, sender_of,
};
use crate::once::OnceCell;
use crate::rows::{insert_row, map_of_rows, values_below, values_in_order, values_of};
use crate::state::{
    AuthorityInfo, ConsensusTransaction, DkgAction, DkgState, EpochUpdate, Progress, Reception,
    RoundAction, adding_message, advancing, all_known, checkpoint_action, completion_action,
    confirmation_added, finishing, generation_action, going_on, info_map, message_action,
    message_filed, message_sent, messages_used, news, output_found, restored, round_reserved,
    starting, timed_out,
};
use crate::store::{BatchView, DBBatch, SINGLETON_KEY, StoredRows, TableWrite};
use crate::types::{
    AuthorityName, DkgMetrics, EpochId, EpochStore, Millis, PartyId, PeerId, RandomnessRound, Round,
    SuiError, SuiResult, elapsed, epoch_store_of, tables_of,
};
use std::collections::BTreeMap;
use vstd::prelude::*;

verus! {

/// State machine for key generation and the numbering of randomness rounds.
pub struct Inner {
    pub(crate) authority_info: Vec<AuthorityInfo>,
    // State for key generation.
    pub(crate) dkg_start_time: OnceCell<Millis>,
    pub(crate) party: Party,
    pub(crate) weights: Vec<u16>,
    pub(crate) processed_messages: BTreeMap<PartyId, ProcessedMessage>,
    pub(crate) used_messages: OnceCell<UsedMessages>,
    pub(crate) confirmations: BTreeMap<PartyId, Confirmation>,
    pub(crate) dkg_output: OnceCell<Option<Output>>,
    // State for randomness generation.
    pub(crate) next_randomness_round: RandomnessRound,
}

impl View for Inner {
    type V = DkgState;

    closed spec fn view(&self) -> DkgState {
        DkgState {
            authority_info: info_map(self.authority_info@),
            dkg_start_time: self.dkg_start_time@,
            party: self.party,
            weights: self.weights@,
            processed_messages: self.processed_messages@,
            used_messages: self.used_messages@,
            confirmations: self.confirmations@,
            dkg_output: self.dkg_output@,
            next_randomness_round: self.next_randomness_round,
        }
    }
}

/// A lookup of an authority: its peer and party, if it is known.
fn find_authority(entries: &Vec<AuthorityInfo>, authority: &AuthorityName) -> (found: Option<
    (PeerId, PartyId),
>)
    ensures
        found == (if info_map(entries@).contains_key(authority@) {
            Some(info_map(entries@)[authority@])
        } else {
            None
        }),
{
    let mut rest: usize = entries.len();
    assert(entries@.take(rest as int) =~= entries@);
    while rest > 0
        invariant
            rest <= entries@.len(),
            info_map(entries@).contains_key(authority@) == info_map(
                entries@.take(rest as int),
            ).contains_key(authority@),
            info_map(entries@).contains_key(authority@) ==> info_map(entries@)[authority@]
                == info_map(entries@.take(rest as int))[authority@],
        decreases rest,
    {
        let ghost upto = entries@.take(rest as int);
        assert(upto.drop_last() =~= entries@.take(rest - 1));
        rest = rest - 1;
        if entries[rest].name.is(authority) {
            return Some((entries[rest].peer_id, entries[rest].party_id));
        }
    }
    None
}

/// The epoch store, while it is there.
pub(crate) fn epoch_store(store: Option<&EpochStore>) -> (result: SuiResult<&EpochStore>)
    ensures
        match result {
            Ok(epoch_store) => epoch_store_of(store) == Ok::<EpochStore, SuiError>(*epoch_store),
            Err(error) => epoch_store_of(store) == Err::<EpochStore, SuiError>(error),
        },
{
    match store {
        Some(epoch_store) => Ok(epoch_store),
        None => Err(SuiError::EpochEnded),
    }
}

/// Whether the tables can be had.
pub(crate) fn tables(store: Option<&EpochStore>) -> (result: SuiResult<()>)
    ensures
        result == tables_of(store),
{
    match store {
        Some(epoch_store) => epoch_store.tables,
        None => Err(SuiError::EpochEnded),
    }
}

/// The messages of a map are in the map.
proof fn lemma_values_known(
    party: PartyView,
    messages: Map<PartyId, ProcessedMessage>,
    bound: nat,
)
    requires
        all_known(party, messages),
        bound <= 0x1_0000,
    ensures
        forall|i: int|
            0 <= i < values_below(messages, bound).len() ==> sender_of(
                #[trigger] values_below(messages, bound)[i],
            ) < party.weights.len(),
    decreases bound,
{
    if bound > 0 {
        lemma_values_known(party, messages, (bound - 1) as nat);
        let below = values_below(messages, (bound - 1) as nat);
        let values = values_below(messages, bound);
        assert forall|i: int| 0 <= i < values.len() implies sender_of(#[trigger] values[i])
            < party.weights.len() by {
            if i < below.len() {
                assert(values[i] == below[i]);
            }
        }
    }
}

/// Every value of a map is among its values in order.
proof fn lemma_value_listed<V>(map: Map<PartyId, V>, id: PartyId, bound: nat) -> (at: int)
    requires
        map.contains_key(id),
        id < bound <= 0x1_0000,
    ensures
        0 <= at < values_below(map, bound).len(),
        values_below(map, bound)[at] == map[id],
    decreases bound,
{
    if id == bound - 1 {
        values_below(map, bound).len() - 1
    } else {
        lemma_value_listed(map, id, (bound - 1) as nat)
    }
}

impl Inner {
    /// Begins key generation: makes this party's message, if it still has to say one, and asks
    /// for it to be submitted. The outcome of the submission goes to `message_submitted`.
    pub fn start_dkg(&mut self, store: Option<&EpochStore>, now: Millis) -> (action: DkgAction)
        requires
            old(self)@.well_formed(),
        ensures
            final(self)@.well_formed(),
            starting(old(self)@, store, now, final(self)@, action@),
    {
        if self.used_messages.initialized() || self.dkg_output.initialized() {
            // Key generation has started already, or is over.
            return DkgAction::Return { update: None, result: Ok(()) };
        }
        let _ = self.dkg_start_time.set(now);
        let created = self.party.create_message();
        self.message_created(store, created)
    }

    /// What is to be done with the message that this party made.
    pub fn message_created(&self, store: Option<&EpochStore>, created: Result<Message, DkgError>)
        -> (action: DkgAction)
        ensures
            action@ == message_action(store, created),
    {
        let message = match created {
            Ok(message) => message,
            Err(_) => {
                // A party without weight has no message, which is no failure of the call.
                return DkgAction::Return { update: None, result: Ok(()) };
            },
        };
        match epoch_store(store) {
            Ok(epoch_store) => DkgAction::Submit(
                ConsensusTransaction::new_randomness_dkg_message(epoch_store.name, message),
            ),
            Err(error) => DkgAction::Return { update: None, result: Err(error) },
        }
    }

    /// Ends the call that began with `start_dkg`, once this party's message was submitted.
    pub fn message_submitted(
        &self,
        metrics: &mut DkgMetrics,
        now: Millis,
        submitted: SuiResult<()>,
    ) -> (result: SuiResult<()>)
        requires
            self@.dkg_start_time is Some,
        ensures
            message_sent(
                *old(metrics),
                self@.dkg_start_time,
                now,
                submitted,
                *final(metrics),
                result,
            ),
    {
        if submitted.is_ok() {
            if let Some(start) = self.dkg_start_time.get() {
                metrics.epoch_random_beacon_dkg_message_time_ms = elapsed(*start, now);
            }
        }
        submitted
    }

    /// Takes a dealer's message that came from an authority. It is processed and filed if it can
    /// still be used and if the authority is the dealer; otherwise it is ignored.
    pub fn add_message(
        &mut self,
        store: Option<&EpochStore>,
        batch: &mut DBBatch,
        authority: &AuthorityName,
        message: Message,
    ) -> (result: SuiResult<()>)
        requires
            old(self)@.well_formed(),
            old(self)@.takes_message(authority@, message@.sender) ==> old(self)@.can_process(
                message,
            ),
        ensures
            final(self)@.well_formed(),
            adding_message(
                old(self)@,
                old(batch)@,
                store,
                authority@,
                message,
                (final(self)@, final(batch)@, result),
            ),
    {
        match self.message_reception(authority, message.sender()) {
            Reception::Taken => {},
            _ => {
                return Ok(());
            },
        }
        let processed = self.party.process_message(message);
        self.message_processed(store, batch, processed)
    }

    /// Files a message that this party has processed.
    pub fn message_processed(
        &mut self,
        store: Option<&EpochStore>,
        batch: &mut DBBatch,
        processed: Result<ProcessedMessage, DkgError>,
    ) -> (result: SuiResult<()>)
        requires
            old(self)@.well_formed(),
        ensures
            final(self)@.well_formed(),
            (final(self)@, final(batch)@, result) == message_filed(
                old(self)@,
                old(batch)@,
                store,
                processed,
            ),
    {
        match processed {
            Ok(message) => {
                let sender: PartyId = message.sender();
                insert_row(&mut self.processed_messages, sender, message.clone());
                match tables(store) {
                    Ok(_) => {},
                    Err(error) => {
                        return Err(error);
                    },
                }
                batch.insert_batch(TableWrite::DkgProcessedMessages(sender, message))
            },
            Err(_) => Ok(()),
        }
    }

    /// Takes a confirmation that came from an authority. It is filed while key generation runs
    /// and if the authority is the party that confirms; otherwise it is ignored.
    pub fn add_confirmation(
        &mut self,
        store: Option<&EpochStore>,
        batch: &mut DBBatch,
        authority: &AuthorityName,
        confirmation: Confirmation,
    ) -> (result: SuiResult<()>)
        requires
            old(self)@.well_formed(),
        ensures
            final(self)@.well_formed(),
            (final(self)@, final(batch)@, result) == confirmation_added(
                old(self)@,
                old(batch)@,
                store,
                authority@,
                confirmation,
            ),
    {
        let sender: PartyId = confirmation.sender();
        match self.confirmation_reception(authority, sender) {
            Reception::Taken => {},
            _ => {
                return Ok(());
            },
        }
        insert_row(&mut self.confirmations, sender, confirmation.clone());
        match tables(store) {
            Ok(_) => {},
            Err(error) => {
                return Err(error);
            },
        }
        batch.insert_batch(TableWrite::DkgConfirmations(sender, confirmation))
    }

    /// Advances key generation as far as it goes: confirms once enough messages are there, and
    /// takes the output once enough confirmations are there, or fails when time has run out. If
    /// a confirmation is to be submitted, the outcome of that goes to `confirmation_submitted`.
    pub fn advance_dkg(
        &mut self,
        store: Option<&EpochStore>,
        batch: &mut DBBatch,
        metrics: &mut DkgMetrics,
        round: Round,
        now: Millis,
    ) -> (action: DkgAction)
        requires
            old(self)@.well_formed(),
            store is Some ==> old(self)@.can_advance(),
        ensures
            final(self)@.well_formed(),
            advancing(
                Progress { state: old(self)@, batch: old(batch)@, metrics: *old(metrics) },
                store,
                round,
                now,
                Progress { state: final(self)@, batch: final(batch)@, metrics: *final(metrics) },
                action@,
            ),
    {
        let epoch_store: &EpochStore = match epoch_store(store) {
            Ok(epoch_store) => epoch_store,
            Err(error) => {
                return DkgAction::Return { update: None, result: Err(error) };
            },
        };
        // Once there are enough processed messages, confirm.
        if !self.dkg_output.initialized() && !self.used_messages.initialized() {
            let messages = values_of(&self.processed_messages);
            proof {
                lemma_values_known(self@.party@, self@.processed_messages, 0x1_0000);
                assert forall|i: int| 0 <= i < messages@.len() implies sender_of(
                    *#[trigger] messages@[i],
                ) < self@.party@.weights.len() by {
                    assert(messages@.unref()[i] == *messages@[i]);
                }
            }
            let merged = self.party.merge(&messages);
            match self.messages_merged(epoch_store, batch, merged) {
                Some(action) => {
                    return action;
                },
                None => {},
            }
        }
        self.finish_dkg(epoch_store, batch, metrics, round, now)
    }

    /// Goes on with merged messages: they are the ones in use, and this party confirms.
    pub fn messages_merged(
        &mut self,
        epoch_store: &EpochStore,
        batch: &mut DBBatch,
        merged: Result<(Confirmation, UsedMessages), DkgError>,
    ) -> (action: Option<DkgAction>)
        requires
            old(self)@.well_formed(),
            !old(self)@.confirmed(),
        ensures
            final(self)@.well_formed(),
            (
                final(self)@,
                final(batch)@,
                match action {
                    Some(action) => Some(action@),
                    None => None,
                },
            ) == messages_used(old(self)@, old(batch)@, *epoch_store, merged),
    {
        match merged {
            Ok((confirmation, used)) => {
                let _ = self.used_messages.set(used.clone());
                match epoch_store.tables {
                    Ok(_) => {},
                    Err(error) => {
                        return Some(DkgAction::Return { update: None, result: Err(error) });
                    },
                }
                match batch.insert_batch(TableWrite::DkgUsedMessages(SINGLETON_KEY, used)) {
                    Ok(_) => {},
                    Err(error) => {
                        return Some(DkgAction::Return { update: None, result: Err(error) });
                    },
                }
                Some(
                    DkgAction::Submit(
                        ConsensusTransaction::new_randomness_dkg_confirmation(
                            epoch_store.name,
                            confirmation,
                        ),
                    ),
                )
            },
            // Wait for more messages.
            Err(_) => None,
        }
    }

    /// Goes on with the call that began with `advance_dkg`, once this party's confirmation was
    /// submitted.
    pub fn confirmation_submitted(
        &mut self,
        epoch_store: &EpochStore,
        batch: &mut DBBatch,
        metrics: &mut DkgMetrics,
        round: Round,
        now: Millis,
        submitted: SuiResult<()>,
    ) -> (action: DkgAction)
        requires
            old(self)@.well_formed(),
            submitted is Ok ==> old(self)@.can_finish(),
        ensures
            final(self)@.well_formed(),
            going_on(
                Progress { state: old(self)@, batch: old(batch)@, metrics: *old(metrics) },
                *epoch_store,
                round,
                now,
                submitted,
                Progress { state: final(self)@, batch: final(batch)@, metrics: *final(metrics) },
                action@,
            ),
    {
        match submitted {
            Ok(_) => {},
            Err(error) => {
                return DkgAction::Return { update: None, result: Err(error) };
            },
        }
        if let Some(start) = self.dkg_start_time.get() {
            metrics.epoch_random_beacon_dkg_confirmation_time_ms = elapsed(*start, now);
        }
        self.finish_dkg(epoch_store, batch, metrics, round, now)
    }

    /// The end of a call that advances key generation.
    fn finish_dkg(
        &mut self,
        epoch_store: &EpochStore,
        batch: &mut DBBatch,
        metrics: &mut DkgMetrics,
        round: Round,
        now: Millis,
    ) -> (action: DkgAction)
        requires
            old(self)@.well_formed(),
            old(self)@.can_finish(),
        ensures
            final(self)@.well_formed(),
            finishing(
                Progress { state: old(self)@, batch: old(batch)@, metrics: *old(metrics) },
                *epoch_store,
                round,
                now,
                Progress { state: final(self)@, batch: final(batch)@, metrics: *final(metrics) },
                action@,
            ),
    {
        let mut update: Option<EpochUpdate> = None;
        // Once there are enough confirmations, take the output.
        if !self.dkg_output.initialized() {
            if let Some(used) = self.used_messages.get() {
                let confirmations = values_of(&self.confirmations);
                let completed = self.party.complete(used, &confirmations);
                let (found, result) = self.confirmations_completed(
                    epoch_store,
                    batch,
                    metrics,
                    now,
                    completed,
                );
                match result {
                    Ok(_) => {},
                    Err(error) => {
                        return DkgAction::Return { update: found, result: Err(error) };
                    },
                }
                update = found;
            }
        }
        // If time has run out, key generation has failed.
        self.time_out(epoch_store, metrics, round);
        DkgAction::Return { update, result: Ok(()) }
    }

    /// Goes on with the outcome of the confirmations: an output closes key generation.
    pub fn confirmations_completed(
        &mut self,
        epoch_store: &EpochStore,
        batch: &mut DBBatch,
        metrics: &mut DkgMetrics,
        now: Millis,
        completed: Result<Output, DkgError>,
    ) -> (outcome: (Option<EpochUpdate>, SuiResult<()>))
        requires
            old(self)@.well_formed(),
            !old(self)@.closed(),
        ensures
            final(self)@.well_formed(),
            (
                Progress { state: final(self)@, batch: final(batch)@, metrics: *final(metrics) },
                news(outcome.0),
                outcome.1,
            ) == output_found(
                Progress { state: old(self)@, batch: old(batch)@, metrics: *old(metrics) },
                *epoch_store,
                now,
                completed,
            ),
    {
        match completed {
            Ok(output) => {
                metrics.epoch_random_beacon_dkg_num_shares = output.num_shares() as i64;
                metrics.epoch_random_beacon_dkg_epoch_start_completion_time_ms = elapsed(
                    epoch_store.epoch_open_time,
                    now,
                );
                metrics.epoch_random_beacon_dkg_failed = 0;
                if let Some(start) = self.dkg_start_time.get() {
                    metrics.epoch_random_beacon_dkg_completion_time_ms = elapsed(*start, now);
                }
                let _ = self.dkg_output.set(Some(output.clone()));
                let update = EpochUpdate {
                    epoch: epoch_store.epoch,
                    authority_info: copy_info(&self.authority_info),
                    output: output.clone(),
                    threshold: self.party.t(),
                };
                match epoch_store.tables {
                    Ok(_) => {},
                    Err(error) => {
                        return (Some(update), Err(error));
                    },
                }
                let result = batch.insert_batch(TableWrite::DkgOutput(SINGLETON_KEY, output));
                (Some(update), result)
            },
            // Wait for more confirmations.
            Err(_) => (None, Ok(())),
        }
    }

    /// Marks key generation as failed if it is still open after the last round for it.
    fn time_out(&mut self, epoch_store: &EpochStore, metrics: &mut DkgMetrics, round: Round)
        requires
            old(self)@.well_formed(),
        ensures
            final(self)@.well_formed(),
            forall|batch: BatchView| #[trigger]
                timed_out(
                    Progress { state: old(self)@, batch, metrics: *old(metrics) },
                    *epoch_store,
                    round,
                ) == (Progress { state: final(self)@, batch, metrics: *final(metrics) }),
    {
        if !self.dkg_output.initialized() && round > epoch_store.dkg_timeout_round as u64 {
            metrics.epoch_random_beacon_dkg_failed = 1;
            let _ = self.dkg_output.set(None);
        }
    }

    /// Reserves the next round for randomness generation. Once the batch is written, the node
    /// must call `generate_randomness` for it. When a manager starts, it resumes the reserved
    /// rounds that were written and have not been completed.
    pub fn reserve_next_randomness(&mut self, store: Option<&EpochStore>, batch: &mut DBBatch)
        -> (result: SuiResult<RandomnessRound>)
        requires
            old(self)@.well_formed(),
            old(self)@.next_randomness_round.0 < u64::MAX,
        ensures
            final(self)@.well_formed(),
            (final(self)@, final(batch)@, result) == round_reserved(
                old(self)@,
                old(batch)@,
                store,
            ),
    {
        let round: RandomnessRound = self.next_randomness_round;
        if let Some(next) = round.checked_add(1) {
            self.next_randomness_round = next;
        }
        match tables(store) {
            Ok(_) => {},
            Err(error) => {
                return Err(error);
            },
        }
        match batch.insert_batch(TableWrite::RandomnessRoundsPending(round)) {
            Ok(_) => {},
            Err(error) => {
                return Err(error);
            },
        }
        match batch.insert_batch(
            TableWrite::RandomnessNextRound(SINGLETON_KEY, self.next_randomness_round),
        ) {
            Ok(_) => {},
            Err(error) => {
                return Err(error);
            },
        }
        Ok(round)
    }

    /// Begins to generate randomness for a round.
    pub fn generate_randomness(&self, epoch: EpochId, round: RandomnessRound) -> (action:
        RoundAction)
        ensures
            action == generation_action(epoch, round),
    {
        RoundAction::SendPartialSignatures(epoch, round)
    }

    /// Learns that randomness for a round is in a checkpoint: the round is to be removed from
    /// the pending ones. The outcome of that goes to `pending_removed`.
    pub fn notify_randomness_in_checkpoint(
        &self,
        store: Option<&EpochStore>,
        round: RandomnessRound,
    ) -> (action: RoundAction)
        ensures
            action == checkpoint_action(store, round),
    {
        match tables(store) {
            Ok(_) => RoundAction::RemovePending(round),
            Err(error) => RoundAction::Fail(error),
        }
    }

    /// Ends the call that began with `notify_randomness_in_checkpoint`, once the round was
    /// removed.
    pub fn pending_removed(
        &self,
        store: Option<&EpochStore>,
        round: RandomnessRound,
        removed: SuiResult<()>,
    ) -> (action: RoundAction)
        ensures
            action == completion_action(store, round, removed),
    {
        match removed {
            Ok(_) => match epoch_store(store) {
                Ok(epoch_store) => RoundAction::CompleteRound(epoch_store.epoch, round),
                Err(error) => RoundAction::Fail(error),
            },
            Err(error) => RoundAction::Fail(error),
        }
    }
}

/// A copy of a list of authorities.
pub(crate) fn copy_info(entries: &Vec<AuthorityInfo>) -> (copy: Vec<AuthorityInfo>)
    ensures
        copy@ == entries@,
{
    let mut copy: Vec<AuthorityInfo> = Vec::new();
    let mut i: usize = 0;
    while i < entries.len()
        invariant
            i <= entries@.len(),
            copy@ == entries@.take(i as int),
        decreases entries@.len() - i,
    {
        copy.push(entries[i]);
        i = i + 1;
        assert(copy@ =~= entries@.take(i as int));
    }
    assert(entries@.take(i as int) =~= entries@);
    copy
}

/// Copies rows into a map, one after another.
fn messages_from(rows: &Vec<(PartyId, ProcessedMessage)>) -> (map: BTreeMap<
    PartyId,
    ProcessedMessage,
>)
    ensures
        map@ == map_of_rows(rows@),
{
    let mut map: BTreeMap<PartyId, ProcessedMessage> = BTreeMap::new();
    let mut i: usize = 0;
    while i < rows.len()
        invariant
            i <= rows@.len(),
            map@ == map_of_rows(rows@.take(i as int)),
        decreases rows@.len() - i,
    {
        insert_row(&mut map, rows[i].0, rows[i].1.clone());
        assert(rows@.take(i + 1).drop_last() =~= rows@.take(i as int));
        i = i + 1;
    }
    assert(rows@.take(i as int) =~= rows@);
    map
}

/// Copies rows into a map, one after another.
fn confirmations_from(rows: &Vec<(PartyId, Confirmation)>) -> (map: BTreeMap<
    PartyId,
    Confirmation,
>)
    ensures
        map@ == map_of_rows(rows@),
{
    let mut map: BTreeMap<PartyId, Confirmation> = BTreeMap::new();
    let mut i: usize = 0;
    while i < rows.len()
        invariant
            i <= rows@.len(),
            map@ == map_of_rows(rows@.take(i as int)),
        decreases rows@.len() - i,
    {
        insert_row(&mut map, rows[i].0, rows[i].1.clone());
        assert(rows@.take(i + 1).drop_last() =~= rows@.take(i as int));
        i = i + 1;
    }
    assert(rows@.take(i as int) =~= rows@);
    map
}

impl Inner {
    /// The state in which a manager starts.
    pub(crate) fn restore(
        authority_info: Vec<AuthorityInfo>,
        party: Party,
        weights: Vec<u16>,
        rows: &StoredRows,
    ) -> (inner: Inner)
        requires
            party@.well_formed(),
            weights@ == party@.weights,
        ensures
            inner@.well_formed(),
            inner@ == restored(info_map(authority_info@), party, *rows),
    {
        let mut inner = Inner {
            authority_info,
            dkg_start_time: OnceCell::new(),
            party,
            weights,
            processed_messages: BTreeMap::new(),
            used_messages: OnceCell::new(),
            confirmations: BTreeMap::new(),
            dkg_output: OnceCell::new(),
            next_randomness_round: match rows.randomness_next_round {
                Some(round) => round,
                None => RandomnessRound(0),
            },
        };
        match &rows.dkg_output {
            Some(output) => {
                let _ = inner.dkg_output.set(Some(output.clone()));
            },
            None => {
                inner.processed_messages = messages_from(&rows.dkg_processed_messages);
                if let Some(used) = &rows.dkg_used_messages {
                    let _ = inner.used_messages.set(used.clone());
                }
                inner.confirmations = confirmations_from(&rows.dkg_confirmations);
            },
        }
        inner
    }
}

impl Inner {
    /// How to reach the validators, and which parties they are.
    pub fn authority_info(&self) -> (entries: &Vec<AuthorityInfo>)
        ensures
            info_map(entries@) == self@.authority_info,
    {
        &self.authority_info
    }

    /// The round that would be reserved next.
    pub fn next_randomness_round(&self) -> (round: RandomnessRound)
        ensures
            round == self@.next_randomness_round,
    {
        self.next_randomness_round
    }

    /// Whether key generation is over.
    pub fn is_dkg_closed(&self) -> (closed: bool)
        ensures
            closed == self@.closed(),
    {
        self.dkg_output.initialized()
    }

    /// Whether key generation ended with a key.
    pub fn is_dkg_successful(&self) -> (successful: bool)
        ensures
            successful == self@.successful(),
    {
        match self.dkg_output.get() {
            Some(Some(_)) => true,
            _ => false,
        }
    }

    /// Whether the manager can be asked to advance. That can fail only in a state restored from
    /// rows that this party did not write.
    pub fn can_advance_dkg(&self) -> (can: bool)
        requires
            self@.well_formed(),
        ensures
            can == self@.can_advance(),
    {
        if self.dkg_output.initialized() {
            return true;
        }
        if let Some(used) = self.used_messages.get() {
            let confirmations = values_of(&self.confirmations);
            return completable(&self.party, &self.weights, used, &confirmations);
        }
        let messages = values_of(&self.processed_messages);
        let mut i: usize = 0;
        while i < messages.len()
            invariant
                i <= messages@.len(),
                messages@.unref() == values_in_order(self@.processed_messages),
                self@.well_formed(),
                !self@.confirmed(),
                !self@.closed(),
                forall|j: int|
                    0 <= j < i ==> sender_of(*#[trigger] messages@[j])
                        < self@.party@.weights.len(),
            decreases messages@.len() - i,
        {
            if messages[i].sender() as usize >= self.weights.len() {
                proof {
                    if all_known(self@.party@, self@.processed_messages) {
                        lemma_values_known(self@.party@, self@.processed_messages, 0x1_0000);
                        assert(messages@.unref()[i as int] == *messages@[i as int]);
                    }
                }
                return false;
            }
            i = i + 1;
        }
        proof {
            assert forall|id: PartyId| #[trigger]
                self@.processed_messages.contains_key(id) implies sender_of(
                self@.processed_messages[id],
            ) < self@.party@.weights.len() by {
                let j = lemma_value_listed(self@.processed_messages, id, 0x1_0000);
                assert(messages@.unref()[j] == *messages@[j]);
            }
        }
        true
    }

    /// Whether a message that came from an authority can be handed to `add_message`: the protocol
    /// can process it, or it is ignored.
    pub fn can_add_message(&self, authority: &AuthorityName, message: &Message) -> (can: bool)
        ensures
            can == (self@.takes_message(authority@, message@.sender) ==> self@.can_process(
                *message,
            )),
    {
        match self.message_reception(authority, message.sender()) {
            Reception::Taken => {},
            _ => {
                return true;
            },
        }
        let count: usize = message.coefficients();
        let fits: bool = match message.encryption_size() {
            Some(size) => size < ENCRYPTION_LIMIT,
            None => false,
        };
        fits && (count >= 2 || (count == 1 && self.party.t() >= 2))
    }

    /// What becomes of something that an authority says as a party.
    fn reception(&self, authority: &AuthorityName, sender: PartyId) -> (reception: Reception)
        ensures
            reception == self@.reception(authority@, sender),
    {
        match find_authority(&self.authority_info, authority) {
            Some((_, party_id)) => if party_id == sender {
                Reception::Taken
            } else {
                Reception::FalseSender
            },
            None => Reception::UnknownAuthority,
        }
    }

    /// What becomes of a message that an authority sends as a party.
    pub fn message_reception(&self, authority: &AuthorityName, sender: PartyId) -> (reception:
        Reception)
        ensures
            reception == self@.message_reception(authority@, sender),
    {
        if self.used_messages.initialized() || self.dkg_output.initialized() {
            // The confirmation is out, so no more messages can be added.
            return Reception::TooLate;
        }
        self.reception(authority, sender)
    }

    /// What becomes of a confirmation that an authority sends as a party.
    pub fn confirmation_reception(&self, authority: &AuthorityName, sender: PartyId) -> (reception:
        Reception)
        ensures
            reception == self@.confirmation_reception(authority@, sender),
    {
        if self.dkg_output.initialized() {
            // Once key generation is over, no more confirmations are needed.
            return Reception::TooLate;
        }
        self.reception(authority, sender)
    }
}

} // verus!
