//! The state of key generation and randomness numbering, and how each call moves it.

use crate::dkg::{
    Confirmation, DkgError, ENCRYPTION_LIMIT, Message, Output, Party, PartyView, ProcessedMessage,
    UsedMessages, can_complete, complete_outcome, create_outcome, merge_outcome, num_shares,
    process_outcome, sender_of,
};
use crate::rows::{map_of_rows, values_in_order};
use crate::store::{BatchView, SINGLETON_KEY, StoredRows, TableWrite};
use crate::types::{
    AuthorityName, DkgMetrics, EpochId, EpochStore, Millis, PartyId, PeerId, RandomnessRound, Round,
    SuiError, SuiResult, elapsed_millis, epoch_store_of, tables_of,
};
use vstd::prelude::*;

verus! {

/// How to reach a validator, and which party it is.
#[derive(Clone, Copy, Debug, PartialEq, Eq)]
pub struct AuthorityInfo {
    pub name: AuthorityName,
    pub peer_id: PeerId,
    pub party_id: PartyId,
}

/// Peer and party of each authority, by its name. The last entry for a name counts.
pub open spec fn info_map(entries: Seq<AuthorityInfo>) -> Map<Seq<u8>, (PeerId, PartyId)>
    decreases entries.len(),
{
    if entries.len() == 0 {
        Map::empty()
    } else {
        info_map(entries.drop_last()).insert(
            entries.last().name@,
            (entries.last().peer_id, entries.last().party_id),
        )
    }
}

/// What a transaction tells the other validators.
pub enum ConsensusTransactionKind {
    RandomnessDkgMessage(AuthorityName, Message),
    RandomnessDkgConfirmation(AuthorityName, Confirmation),
}

/// A transaction for consensus.
pub struct ConsensusTransaction {
    pub kind: ConsensusTransactionKind,
}

impl ConsensusTransaction {
    /// A transaction that carries a dealer's message.
    pub fn new_randomness_dkg_message(authority: AuthorityName, message: Message) -> (transaction:
        ConsensusTransaction)
        ensures
            transaction.kind == ConsensusTransactionKind::RandomnessDkgMessage(authority, message),
    {
        ConsensusTransaction {
            kind: ConsensusTransactionKind::RandomnessDkgMessage(authority, message),
        }
    }

    /// A transaction that carries a confirmation.
    pub fn new_randomness_dkg_confirmation(authority: AuthorityName, confirmation: Confirmation)
        -> (transaction: ConsensusTransaction)
        ensures
            transaction.kind == ConsensusTransactionKind::RandomnessDkgConfirmation(
                authority,
                confirmation,
            ),
    {
        ConsensusTransaction {
            kind: ConsensusTransactionKind::RandomnessDkgConfirmation(authority, confirmation),
        }
    }
}

/// News for the network: the key of an epoch, with the threshold for using it, and how to reach
/// the validators. The last entry for a validator counts.
pub struct EpochUpdate {
    pub epoch: EpochId,
    pub authority_info: Vec<AuthorityInfo>,
    pub output: Output,
    pub threshold: u16,
}

/// What such news say.
pub struct EpochUpdateView {
    pub epoch: EpochId,
    /// Peer and party of each authority, by its name.
    pub authority_info: Map<Seq<u8>, (PeerId, PartyId)>,
    pub output: Output,
    pub threshold: u16,
}

impl View for EpochUpdate {
    type V = EpochUpdateView;

    open spec fn view(&self) -> EpochUpdateView {
        EpochUpdateView {
            epoch: self.epoch,
            authority_info: info_map(self.authority_info@),
            output: self.output,
            threshold: self.threshold,
        }
    }
}

/// What news say, if there are any.
pub open spec fn news(update: Option<EpochUpdate>) -> Option<EpochUpdateView> {
    match update {
        Some(update) => Some(update@),
        None => None,
    }
}

/// What the node has to do for a call about key generation.
pub enum DkgAction {
    /// Submit a transaction, and tell the manager how that went.
    Submit(ConsensusTransaction),
    /// Pass the update on, if there is one, and return the result.
    Return { update: Option<EpochUpdate>, result: SuiResult<()> },
}

/// What such an action comes to.
pub enum DkgActionView {
    Submit(ConsensusTransaction),
    Return { update: Option<EpochUpdateView>, result: SuiResult<()> },
}

impl View for DkgAction {
    type V = DkgActionView;

    open spec fn view(&self) -> DkgActionView {
        match *self {
            DkgAction::Submit(transaction) => DkgActionView::Submit(transaction),
            DkgAction::Return { update, result } => DkgActionView::Return {
                update: news(update),
                result,
            },
        }
    }
}

/// An action that only returns a result.
pub open spec fn only_result(result: SuiResult<()>) -> DkgActionView {
    DkgActionView::Return { update: None, result }
}

/// What the node has to do for a round.
#[derive(Clone, Copy, Debug, PartialEq, Eq)]
pub enum RoundAction {
    /// Send partial signatures for a round.
    SendPartialSignatures(EpochId, RandomnessRound),
    /// Remove a round from the pending ones, and tell the manager how that went.
    RemovePending(RandomnessRound),
    /// Stop sending partial signatures for a round, and return success.
    CompleteRound(EpochId, RandomnessRound),
    /// Return an error.
    Fail(SuiError),
}

/// What becomes of a message or a confirmation from an authority.
#[derive(Clone, Copy, Debug, PartialEq, Eq)]
pub enum Reception {
    /// It is taken.
    Taken,
    /// It is ignored, since there is no more use for it.
    TooLate,
    /// It is ignored, since the authority is not known.
    UnknownAuthority,
    /// It is ignored, since the authority pretends to be another party.
    FalseSender,
}

/// The state of a randomness manager.
pub struct DkgState {
    /// Peer and party of each authority, by its name.
    pub authority_info: Map<Seq<u8>, (PeerId, PartyId)>,
    pub dkg_start_time: Option<Millis>,
    pub party: Party,
    /// Weights of all parties, as the party has them.
    pub weights: Seq<u16>,
    pub processed_messages: Map<PartyId, ProcessedMessage>,
    pub used_messages: Option<UsedMessages>,
    pub confirmations: Map<PartyId, Confirmation>,
    /// Nothing while key generation runs, then its output, or the fact that there is none.
    pub dkg_output: Option<Option<Output>>,
    pub next_randomness_round: RandomnessRound,
}

impl DkgState {
    /// What holds in every state: the party is one that could be made, and its weights are known.
    pub open spec fn well_formed(self) -> bool {
        self.party@.well_formed() && self.weights == self.party@.weights
    }

    /// Whether the messages in this state are such as this party can have processed, filed under
    /// their senders. That is so unless the state was restored from rows that it did not write.
    pub open spec fn genuine(self) -> bool {
        &&& all_filed(self.party@, self.processed_messages)
        &&& self.used_messages matches Some(used) ==> all_processed(self.party@, used@)
    }

    /// Whether the protocol can be asked to complete, if it is: see `can_complete`.
    pub open spec fn can_finish(self) -> bool {
        self.confirmed() && !self.closed() ==> can_complete(
            self.party@,
            self.used_messages->0@,
            values_in_order(self.confirmations),
        )
    }

    /// Whether the protocol can be asked to merge or to complete, if it is: messages to be merged
    /// come from parties that there are.
    pub open spec fn can_advance(self) -> bool {
        &&& self.can_finish()
        &&& !self.confirmed() && !self.closed() ==> all_known(
            self.party@,
            self.processed_messages,
        )
    }

    /// Whether messages are filed under their senders, which are parties of authorities.
    pub open spec fn messages_of_authorities(self) -> bool {
        forall|id: PartyId| #[trigger]
            self.processed_messages.contains_key(id) ==> {
                &&& sender_of(self.processed_messages[id]) == id
                &&& self.has_authority(id)
            }
    }

    /// Whether confirmations are filed under their senders, which are parties of authorities.
    pub open spec fn confirmations_of_authorities(self) -> bool {
        forall|id: PartyId| #[trigger]
            self.confirmations.contains_key(id) ==> {
                &&& self.confirmations[id]@.sender == id
                &&& self.has_authority(id)
            }
    }

    /// Whether there is an authority behind a party.
    pub open spec fn has_authority(self, id: PartyId) -> bool {
        exists|authority: Seq<u8>| self.speaks_for(authority, id)
    }

    /// Whether key generation is over.
    pub open spec fn closed(self) -> bool {
        self.dkg_output is Some
    }

    /// Whether key generation ended with a key.
    pub open spec fn successful(self) -> bool {
        self.dkg_output matches Some(Some(_))
    }

    /// Whether this party has confirmed.
    pub open spec fn confirmed(self) -> bool {
        self.used_messages is Some
    }

    /// Whether a name is that of the authority behind a party.
    pub open spec fn speaks_for(self, authority: Seq<u8>, party_id: PartyId) -> bool {
        self.authority_info.contains_key(authority) && self.authority_info[authority].1 == party_id
    }

    /// Whether a message gets processed: there is still use for it, and it comes from the
    /// authority that it claims to come from.
    pub open spec fn takes_message(self, authority: Seq<u8>, sender: PartyId) -> bool {
        !self.confirmed() && !self.closed() && self.speaks_for(authority, sender)
    }

    /// What becomes of a message from an authority.
    pub open spec fn message_reception(self, authority: Seq<u8>, sender: PartyId) -> Reception {
        if self.confirmed() || self.closed() {
            Reception::TooLate
        } else {
            self.reception(authority, sender)
        }
    }

    /// What becomes of a confirmation from an authority.
    pub open spec fn confirmation_reception(
        self,
        authority: Seq<u8>,
        sender: PartyId,
    ) -> Reception {
        if self.closed() {
            Reception::TooLate
        } else {
            self.reception(authority, sender)
        }
    }

    /// What becomes of something from an authority for which there is use.
    pub open spec fn reception(self, authority: Seq<u8>, sender: PartyId) -> Reception {
        if !self.authority_info.contains_key(authority) {
            Reception::UnknownAuthority
        } else if !self.speaks_for(authority, sender) {
            Reception::FalseSender
        } else {
            Reception::Taken
        }
    }

    /// Whether the protocol can process a message at all: its commitment is not empty, nor, with
    /// a threshold of one, to a constant polynomial, and its encryption is not too long.
    pub open spec fn can_process(self, message: Message) -> bool {
        &&& message@.coefficients >= 1
        &&& message@.coefficients == 1 ==> self.party@.threshold >= 2
        &&& message@.encryption.len() < ENCRYPTION_LIMIT
    }

    /// Whether a confirmation is kept.
    pub open spec fn takes_confirmation(self, authority: Seq<u8>, sender: PartyId) -> bool {
        !self.closed() && self.speaks_for(authority, sender)
    }
}

/// Whether messages are filed under their senders, and a party can have processed all of them.
pub open spec fn all_filed(party: PartyView, messages: Map<PartyId, ProcessedMessage>) -> bool {
    forall|id: PartyId| #[trigger]
        messages.contains_key(id) ==> {
            &&& sender_of(messages[id]) == id
            &&& party.could_have_processed(messages[id])
        }
}

/// Whether the senders of messages are parties.
pub open spec fn all_known(party: PartyView, messages: Map<PartyId, ProcessedMessage>) -> bool {
    forall|id: PartyId| #[trigger]
        messages.contains_key(id) ==> sender_of(messages[id]) < party.weights.len()
}

/// Whether a party can have processed all of some messages.
pub open spec fn all_processed(party: PartyView, messages: Seq<ProcessedMessage>) -> bool {
    forall|i: int| 0 <= i < messages.len() ==> party.could_have_processed(#[trigger] messages[i])
}

/// The state, the batch and the gauges in the course of a call.
pub struct Progress {
    pub state: DkgState,
    pub batch: BatchView,
    pub metrics: DkgMetrics,
}

// ---------------------------------------------------------------------------------------------
// Restoring
// ---------------------------------------------------------------------------------------------

/// The state in which a manager starts: the output if there is one, else what was collected for
/// it; and the next round, from zero.
pub open spec fn restored(
    authority_info: Map<Seq<u8>, (PeerId, PartyId)>,
    party: Party,
    rows: StoredRows,
) -> DkgState {
    let next_randomness_round = match rows.randomness_next_round {
        Some(round) => round,
        None => RandomnessRound(0),
    };
    match rows.dkg_output {
        Some(output) => DkgState {
            authority_info,
            dkg_start_time: None,
            party,
            weights: party@.weights,
            processed_messages: Map::empty(),
            used_messages: None,
            confirmations: Map::empty(),
            dkg_output: Some(Some(output)),
            next_randomness_round,
        },
        None => DkgState {
            authority_info,
            dkg_start_time: None,
            party,
            weights: party@.weights,
            processed_messages: map_of_rows(rows.dkg_processed_messages@),
            used_messages: rows.dkg_used_messages,
            confirmations: map_of_rows(rows.dkg_confirmations@),
            dkg_output: None,
            next_randomness_round,
        },
    }
}

/// What the network is to know of restored rows: the key of the epoch, if there is one.
pub open spec fn restored_update(
    epoch: EpochId,
    authority_info: Map<Seq<u8>, (PeerId, PartyId)>,
    threshold: u16,
    rows: StoredRows,
) -> Option<EpochUpdateView> {
    match rows.dkg_output {
        Some(output) => Some(EpochUpdateView { epoch, authority_info, output, threshold }),
        None => None,
    }
}

/// The rounds that are resumed: all pending ones, in order.
pub open spec fn resumed(epoch: EpochId, pending: Seq<RandomnessRound>) -> Seq<RoundAction> {
    pending.map_values(|round: RandomnessRound| RoundAction::SendPartialSignatures(epoch, round))
}

/// The gauges once rows are restored.
pub open spec fn restored_metrics(metrics: DkgMetrics, rows: StoredRows) -> DkgMetrics {
    match rows.dkg_output {
        Some(output) => DkgMetrics {
            epoch_random_beacon_dkg_num_shares: num_shares(output@) as i64,
            ..metrics
        },
        None => metrics,
    }
}

// ---------------------------------------------------------------------------------------------
// Starting
// ---------------------------------------------------------------------------------------------

/// The state once the clock of key generation runs.
pub open spec fn clock_started(state: DkgState, now: Millis) -> DkgState {
    DkgState {
        dkg_start_time: match state.dkg_start_time {
            Some(start) => Some(start),
            None => Some(now),
        },
        ..state
    }
}

/// What to do with this party's message: submit it, unless there is none or the epoch is over.
pub open spec fn message_action(
    store: Option<&EpochStore>,
    created: Result<Message, DkgError>,
) -> DkgActionView {
    match created {
        Ok(message) => match store {
            Some(epoch_store) => DkgActionView::Submit(
                ConsensusTransaction {
                    kind: ConsensusTransactionKind::RandomnessDkgMessage(
                        epoch_store.name,
                        message,
                    ),
                },
            ),
            None => only_result(Err(SuiError::EpochEnded)),
        },
        Err(_) => only_result(Ok(())),
    }
}

/// Whether a call can begin key generation like this: the clock runs from the first such call,
/// and this party's message goes out. A party that has confirmed, or for which key generation is
/// over, does nothing.
pub open spec fn starting(
    before: DkgState,
    store: Option<&EpochStore>,
    now: Millis,
    after: DkgState,
    action: DkgActionView,
) -> bool {
    if before.confirmed() || before.closed() {
        after == before && action == only_result(Ok(()))
    } else {
        &&& after == clock_started(before, now)
        &&& exists|created: Result<Message, DkgError>| #[trigger]
            create_outcome(before.party@, created) && action == message_action(store, created)
    }
}

/// The gauges once this party's message is submitted.
pub open spec fn message_metrics(
    metrics: DkgMetrics,
    start: Millis,
    now: Millis,
) -> DkgMetrics {
    DkgMetrics {
        epoch_random_beacon_dkg_message_time_ms: elapsed_millis(start, now),
        ..metrics
    }
}

/// Whether a call that began key generation can end like this once this party's message is
/// submitted: with the outcome of that, and on success with the time it took in a gauge.
pub open spec fn message_sent(
    before: DkgMetrics,
    start: Option<Millis>,
    now: Millis,
    submitted: SuiResult<()>,
    after: DkgMetrics,
    result: SuiResult<()>,
) -> bool {
    &&& result == submitted
    &&& submitted is Err ==> after == before
    &&& submitted is Ok ==> after == message_metrics(before, start->0, now)
}

// ---------------------------------------------------------------------------------------------
// Collecting messages and confirmations
// ---------------------------------------------------------------------------------------------

/// What a processed message changes: it is filed under its sender, in the state and, while the
/// tables can be had and the batch takes more writes, in the batch. A message that could not be
/// processed changes nothing.
pub open spec fn message_filed(
    state: DkgState,
    batch: BatchView,
    store: Option<&EpochStore>,
    processed: Result<ProcessedMessage, DkgError>,
) -> (DkgState, BatchView, SuiResult<()>) {
    match processed {
        Ok(message) => {
            let filed = DkgState {
                processed_messages: state.processed_messages.insert(sender_of(message), message),
                ..state
            };
            match tables_of(store) {
                Ok(_) => {
                    let (batch, result) = batch.inserted(
                        TableWrite::DkgProcessedMessages(sender_of(message), message),
                    );
                    (filed, batch, result)
                },
                Err(error) => (filed, batch, Err(error)),
            }
        },
        Err(_) => (state, batch, Ok(())),
    }
}

/// Whether a call can take a message from an authority like this: it is processed and filed if
/// there is use for it and it comes from its sender, and else ignored.
pub open spec fn adding_message(
    before: DkgState,
    batch: BatchView,
    store: Option<&EpochStore>,
    authority: Seq<u8>,
    message: Message,
    after: (DkgState, BatchView, SuiResult<()>),
) -> bool {
    if before.takes_message(authority, message@.sender) {
        exists|processed: Result<ProcessedMessage, DkgError>| #[trigger]
            process_outcome(before.party@, message, processed) && after == message_filed(
                before,
                batch,
                store,
                processed,
            )
    } else {
        after == (before, batch, Ok::<(), SuiError>(()))
    }
}

/// What a confirmation changes that is kept.
pub open spec fn confirmation_filed(
    state: DkgState,
    batch: BatchView,
    store: Option<&EpochStore>,
    confirmation: Confirmation,
) -> (DkgState, BatchView, SuiResult<()>) {
    let sender = confirmation@.sender;
    let filed = DkgState {
        confirmations: state.confirmations.insert(sender, confirmation),
        ..state
    };
    match tables_of(store) {
        Ok(_) => {
            let (batch, result) = batch.inserted(
                TableWrite::DkgConfirmations(sender, confirmation),
            );
            (filed, batch, result)
        },
        Err(error) => (filed, batch, Err(error)),
    }
}

/// What a confirmation from an authority changes: it is kept if there is use for it and it comes
/// from its sender, and else ignored.
pub open spec fn confirmation_added(
    state: DkgState,
    batch: BatchView,
    store: Option<&EpochStore>,
    authority: Seq<u8>,
    confirmation: Confirmation,
) -> (DkgState, BatchView, SuiResult<()>) {
    if state.takes_confirmation(authority, confirmation@.sender) {
        confirmation_filed(state, batch, store, confirmation)
    } else {
        (state, batch, Ok(()))
    }
}

// ---------------------------------------------------------------------------------------------
// Advancing
// ---------------------------------------------------------------------------------------------

/// What merged messages change: they are the ones in use from now on, and this party's
/// confirmation is to be submitted once the batch holds them. There is nothing to do yet if the
/// messages could not be merged.
pub open spec fn messages_used(
    state: DkgState,
    batch: BatchView,
    epoch_store: EpochStore,
    merged: Result<(Confirmation, UsedMessages), DkgError>,
) -> (DkgState, BatchView, Option<DkgActionView>) {
    match merged {
        Ok((confirmation, used)) => {
            let confirmed = DkgState { used_messages: Some(used), ..state };
            match epoch_store.tables {
                Ok(_) => {
                    let (batch, inserted) = batch.inserted(
                        TableWrite::DkgUsedMessages(SINGLETON_KEY, used),
                    );
                    let action = match inserted {
                        Ok(_) => DkgActionView::Submit(
                            ConsensusTransaction {
                                kind: ConsensusTransactionKind::RandomnessDkgConfirmation(
                                    epoch_store.name,
                                    confirmation,
                                ),
                            },
                        ),
                        Err(error) => only_result(Err(error)),
                    };
                    (confirmed, batch, Some(action))
                },
                Err(error) => (confirmed, batch, Some(only_result(Err(error)))),
            }
        },
        Err(_) => (state, batch, None),
    }
}

/// The gauges once key generation has an output.
pub open spec fn completion_metrics(
    metrics: DkgMetrics,
    epoch_store: EpochStore,
    start: Option<Millis>,
    now: Millis,
    num_shares: nat,
) -> DkgMetrics {
    DkgMetrics {
        epoch_random_beacon_dkg_num_shares: num_shares as i64,
        epoch_random_beacon_dkg_epoch_start_completion_time_ms: elapsed_millis(
            epoch_store.epoch_open_time,
            now,
        ),
        epoch_random_beacon_dkg_failed: 0,
        epoch_random_beacon_dkg_completion_time_ms: match start {
            Some(start) => elapsed_millis(start, now),
            None => metrics.epoch_random_beacon_dkg_completion_time_ms,
        },
        ..metrics
    }
}

/// What an output changes: key generation is closed with it, the network is to know, and the
/// batch holds it while the tables can be had. Nothing changes if there is no output yet.
pub open spec fn output_found(
    progress: Progress,
    epoch_store: EpochStore,
    now: Millis,
    completed: Result<Output, DkgError>,
) -> (Progress, Option<EpochUpdateView>, SuiResult<()>) {
    match completed {
        Ok(output) => {
            let closed = Progress {
                state: DkgState { dkg_output: Some(Some(output)), ..progress.state },
                batch: progress.batch,
                metrics: completion_metrics(
                    progress.metrics,
                    epoch_store,
                    progress.state.dkg_start_time,
                    now,
                    num_shares(output@),
                ),
            };
            let update = EpochUpdateView {
                epoch: epoch_store.epoch,
                authority_info: progress.state.authority_info,
                output,
                threshold: progress.state.party@.threshold,
            };
            match epoch_store.tables {
                Ok(_) => {
                    let (batch, result) = closed.batch.inserted(
                        TableWrite::DkgOutput(SINGLETON_KEY, output),
                    );
                    (Progress { batch, ..closed }, Some(update), result)
                },
                Err(error) => (closed, Some(update), Err(error)),
            }
        },
        Err(_) => (progress, None, Ok(())),
    }
}

/// Key generation fails if it is still open after the last round for it.
pub open spec fn timed_out(progress: Progress, epoch_store: EpochStore, round: Round) -> Progress {
    if !progress.state.closed() && round > epoch_store.dkg_timeout_round {
        Progress {
            state: DkgState { dkg_output: Some(None), ..progress.state },
            metrics: DkgMetrics { epoch_random_beacon_dkg_failed: 1, ..progress.metrics },
            ..progress
        }
    } else {
        progress
    }
}

/// The end of a call that advances key generation: an output closes it, or else time may run
/// out.
pub open spec fn finished(
    progress: Progress,
    epoch_store: EpochStore,
    round: Round,
    now: Millis,
    completed: Result<Output, DkgError>,
) -> (Progress, DkgActionView) {
    let (found, update, result) = output_found(progress, epoch_store, now, completed);
    match result {
        Ok(_) => (
            timed_out(found, epoch_store, round),
            DkgActionView::Return { update, result: Ok(()) },
        ),
        Err(error) => (found, DkgActionView::Return { update, result: Err(error) }),
    }
}

/// Whether a call that advances key generation can end like this: with the confirmations that
/// are there once this party has confirmed, and else with no more than a look at the time.
pub open spec fn finishing(
    before: Progress,
    epoch_store: EpochStore,
    round: Round,
    now: Millis,
    after: Progress,
    action: DkgActionView,
) -> bool {
    if before.state.confirmed() && !before.state.closed() {
        exists|completed: Result<Output, DkgError>|
            #[trigger] complete_outcome(
                before.state.party@,
                before.state.used_messages->0@,
                values_in_order(before.state.confirmations),
                completed,
            ) && (after, action) == finished(before, epoch_store, round, now, completed)
    } else {
        after == timed_out(before, epoch_store, round) && action == only_result(Ok(()))
    }
}

/// Whether a call can advance key generation like this: it merges the messages that are there
/// unless this party has confirmed, and goes on to the end if that asks for no action. It fails
/// if the epoch is over.
pub open spec fn advancing(
    before: Progress,
    store: Option<&EpochStore>,
    round: Round,
    now: Millis,
    after: Progress,
    action: DkgActionView,
) -> bool {
    match store {
        None => after == before && action == only_result(Err(SuiError::EpochEnded)),
        Some(epoch_store) => if !before.state.confirmed() && !before.state.closed() {
            exists|merged: Result<(Confirmation, UsedMessages), DkgError>|
                {
                    &&& #[trigger] merge_outcome(
                        before.state.party@,
                        values_in_order(before.state.processed_messages),
                        merged,
                    )
                    &&& {
                        let (state, batch, asked) = messages_used(
                            before.state,
                            before.batch,
                            *epoch_store,
                            merged,
                        );
                        let between = Progress { state, batch, metrics: before.metrics };
                        match asked {
                            Some(asked) => after == between && action == asked,
                            None => finishing(between, *epoch_store, round, now, after, action),
                        }
                    }
                }
        } else {
            finishing(before, *epoch_store, round, now, after, action)
        },
    }
}

/// The gauges once this party's confirmation is submitted.
pub open spec fn confirmation_metrics(
    metrics: DkgMetrics,
    start: Option<Millis>,
    now: Millis,
) -> DkgMetrics {
    match start {
        Some(start) => DkgMetrics {
            epoch_random_beacon_dkg_confirmation_time_ms: elapsed_millis(start, now),
            ..metrics
        },
        None => metrics,
    }
}

/// Whether a call that advances key generation can go on like this once this party's confirmation
/// is submitted: to its end, unless the submission failed.
pub open spec fn going_on(
    before: Progress,
    epoch_store: EpochStore,
    round: Round,
    now: Millis,
    submitted: SuiResult<()>,
    after: Progress,
    action: DkgActionView,
) -> bool {
    match submitted {
        Ok(_) => finishing(
            Progress {
                metrics: confirmation_metrics(before.metrics, before.state.dkg_start_time, now),
                ..before
            },
            epoch_store,
            round,
            now,
            after,
            action,
        ),
        Err(error) => after == before && action == only_result(Err(error)),
    }
}

// ---------------------------------------------------------------------------------------------
// Numbering rounds
// ---------------------------------------------------------------------------------------------

/// What reserving a round changes: the next round is one later, and the batch holds the
/// reserved round as pending and the next one, while the tables can be had.
pub open spec fn round_reserved(
    state: DkgState,
    batch: BatchView,
    store: Option<&EpochStore>,
) -> (DkgState, BatchView, SuiResult<RandomnessRound>) {
    let round = state.next_randomness_round;
    let next = RandomnessRound((round.0 + 1) as u64);
    let reserved = DkgState { next_randomness_round: next, ..state };
    match tables_of(store) {
        Ok(_) => {
            let (batch, result) = batch.inserted(TableWrite::RandomnessRoundsPending(round));
            match result {
                Ok(_) => {
                    let (batch, result) = batch.inserted(
                        TableWrite::RandomnessNextRound(SINGLETON_KEY, next),
                    );
                    match result {
                        Ok(_) => (reserved, batch, Ok(round)),
                        Err(error) => (reserved, batch, Err(error)),
                    }
                },
                Err(error) => (reserved, batch, Err(error)),
            }
        },
        Err(error) => (reserved, batch, Err(error)),
    }
}

/// What the node has to do to generate randomness for a round.
pub open spec fn generation_action(epoch: EpochId, round: RandomnessRound) -> RoundAction {
    RoundAction::SendPartialSignatures(epoch, round)
}

/// What the node has to do once randomness for a round is in a checkpoint.
pub open spec fn checkpoint_action(
    store: Option<&EpochStore>,
    round: RandomnessRound,
) -> RoundAction {
    match tables_of(store) {
        Ok(_) => RoundAction::RemovePending(round),
        Err(error) => RoundAction::Fail(error),
    }
}

/// What the node has to do once such a round is removed from the pending ones.
pub open spec fn completion_action(
    store: Option<&EpochStore>,
    round: RandomnessRound,
    removed: SuiResult<()>,
) -> RoundAction {
    match removed {
        Ok(_) => match epoch_store_of(store) {
            Ok(epoch_store) => RoundAction::CompleteRound(epoch_store.epoch, round),
            Err(error) => RoundAction::Fail(error),
        },
        Err(error) => RoundAction::Fail(error),
    }
}

} // verus!
