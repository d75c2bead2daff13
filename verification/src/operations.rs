//! What each operation does, in plain terms: for every input, what it leaves as it was, what it
//! changes, and what it gives back.

use crate::dkg::{
    Confirmation, DkgError, Message, Output, ProcessedMessage, UsedMessages, aggregate_outcome,
    can_complete, combined_key, commitments_of, complaints_of, complete_outcome, create_outcome,
    enough_confirmed, first_of_each, joint_weight, merge_outcome, num_shares, process_outcome,
    senders_of, settles, share_ids, share_numbers, standing, undisputed, weight,
};
use crate::laws::{Call, lemma_undisputed_completion, step};
use crate::rows::values_in_order;
use crate::state::{
    ConsensusTransaction, ConsensusTransactionKind, DkgAction, DkgActionView, DkgState, EpochUpdate,
    EpochUpdateView, Progress, RoundAction, advancing, checkpoint_action, completion_action,
    finished, finishing, generation_action, going_on, info_map, message_action, message_filed,
    message_metrics, message_sent, messages_used, news, output_found, starting,
};
use crate::store::{BatchView, TableWrite};
use crate::types::{
    DkgMetrics, EpochId, EpochStore, Millis, PartyId, RandomnessRound, Round, SuiError, SuiResult,
    elapsed_millis, epoch_store_of, tables_of,
};
use vstd::prelude::*;

verus! {

// ---------------------------------------------------------------------------------------------
// Words
// ---------------------------------------------------------------------------------------------

/// Whether the tables can be had and a batch takes `count` more writes.
pub open spec fn writable(store: Option<&EpochStore>, batch: BatchView, count: nat) -> bool {
    &&& store is Some
    &&& store->0.tables is Ok
    &&& batch.refusal is Some ==> batch.writes.len() + count <= batch.refusal->0.from
}

/// What stands in the way of a write: the epoch is over, its tables are gone, or the batch refuses.
pub open spec fn obstacle(store: Option<&EpochStore>, batch: BatchView) -> SuiError {
    if store is None {
        SuiError::EpochEnded
    } else if store->0.tables is Err {
        store->0.tables->Err_0
    } else {
        batch.refusal->0.error
    }
}

/// Whether an attempt to add one write to a batch went as it should: the write comes last if it
/// can be made, and else the batch is as it was, and the error says what stood in the way.
pub open spec fn written(
    store: Option<&EpochStore>,
    before: BatchView,
    write: TableWrite,
    after: BatchView,
    result: SuiResult<()>,
) -> bool {
    &&& after.refusal == before.refusal
    &&& writable(store, before, 1) ==> after.writes == before.writes.push(write) && result is Ok
    &&& !writable(store, before, 1) ==> after.writes == before.writes && result == Err::<
        (),
        SuiError,
    >(obstacle(store, before))
}

/// Key generation is over when there is a word on its output, and has succeeded when that is a
/// key; a party has confirmed when it has messages in use; and an authority speaks for the one
/// party that it is listed with.
pub proof fn law_words_mean_what_they_say(state: DkgState, authority: Seq<u8>, id: PartyId)
    ensures
        state.closed() <==> state.dkg_output is Some,
        state.successful() <==> state.dkg_output is Some && state.dkg_output->0 is Some,
        state.confirmed() <==> state.used_messages is Some,
        state.speaks_for(authority, id) <==> state.authority_info.contains_key(authority)
            && state.authority_info[authority].1 == id,
{
}

/// The epoch store is there or the epoch has ended; the tables are there if the store has them.
pub proof fn law_store_and_tables(store: Option<&EpochStore>)
    ensures
        store is None ==> epoch_store_of(store) == Err::<EpochStore, SuiError>(
            SuiError::EpochEnded,
        ),
        store is None ==> tables_of(store) == Err::<(), SuiError>(SuiError::EpochEnded),
        store is Some ==> epoch_store_of(store) == Ok::<EpochStore, SuiError>(*store->0),
        store is Some ==> tables_of(store) == store->0.tables,
{
}

/// A gauge shows the milliseconds from one reading of the clock to another, as far as it can hold
/// them, modulo its size beyond that, and none if the clock went back.
pub proof fn law_time_that_has_passed(start: Millis, now: Millis)
    ensures
        now < start ==> elapsed_millis(start, now) == 0,
        start <= now && now - start <= i64::MAX ==> elapsed_millis(start, now) == now - start,
        start <= now ==> elapsed_millis(start, now) as u64 == now - start,
{
    let passed = (now - start) as u64;
    assert((passed as i64) as u64 == passed) by (bit_vector);
}

/// A batch that takes a write has it last; one that refuses it stays as it was.
pub proof fn law_batch_takes_or_refuses(store: EpochStore, batch: BatchView, write: TableWrite)
    requires
        store.tables is Ok,
    ensures
        written(Some(&store), batch, write, batch.inserted(write).0, batch.inserted(write).1),
        batch.with(write).writes == batch.writes.push(write),
        batch.with(write).refusal == batch.refusal,
{
}

/// An action for the node says what its parts say, with the peer and party of every authority.
pub proof fn law_action_is_seen_whole(action: DkgAction, update: EpochUpdate)
    ensures
        action matches DkgAction::Submit(transaction) ==> action@ == DkgActionView::Submit(
            transaction,
        ),
        action matches DkgAction::Return { update, result } ==> action@ == (DkgActionView::Return {
            update: news(update),
            result,
        }),
        news(None) is None,
        news(Some(update)) == Some(update@),
        update@.epoch == update.epoch,
        update@.output == update.output,
        update@.threshold == update.threshold,
        update@.authority_info == info_map(update.authority_info@),
{
}

/// The number of shares in an output is that of the shares it lists, and zero if it lists none.
pub proof fn law_shares_are_counted(output: Output)
    ensures
        output@.shares is Some ==> num_shares(output@) == output@.shares->0.len(),
        output@.shares is None ==> num_shares(output@) == 0,
{
}

// ---------------------------------------------------------------------------------------------
// Starting key generation
// ---------------------------------------------------------------------------------------------

/// A call to start changes nothing but the time at which key generation began; that is when the
/// first such call came to a party that had not confirmed while key generation was open.
pub proof fn law_start_sets_only_the_clock(
    before: Progress,
    store: Option<&EpochStore>,
    now: Millis,
    action: DkgActionView,
    after: Progress,
)
    requires
        step(Call::StartDkg { store, now, action }, before, after),
    ensures
        after == (Progress {
            state: DkgState { dkg_start_time: after.state.dkg_start_time, ..before.state },
            ..before
        }),
        before.state.dkg_start_time is Some ==> after.state.dkg_start_time
            == before.state.dkg_start_time,
        before.state.dkg_start_time is None && before.state.used_messages is None
            && before.state.dkg_output is None ==> after.state.dkg_start_time == Some(now),
        before.state.used_messages is Some || before.state.dkg_output is Some
            ==> after.state.dkg_start_time == before.state.dkg_start_time,
{
}

/// A party with weight that has not confirmed, while key generation is open, has its own message
/// sent under its own name, each time it is asked to start; if the epoch is over it says so. All
/// others have nothing to send, and that is no failure.
pub proof fn law_start_sends_the_message(
    state: DkgState,
    store: Option<&EpochStore>,
    now: Millis,
    after: DkgState,
    action: DkgActionView,
)
    requires
        starting(state, store, now, after, action),
    ensures
        ({
            let has_say = state.used_messages is None && state.dkg_output is None && weight(
                state.party@.weights,
                state.party@.id,
            ) > 0;
            &&& !has_say ==> action == (DkgActionView::Return { update: None, result: Ok(()) })
            &&& has_say && store is None ==> action == (DkgActionView::Return {
                update: None,
                result: Err(SuiError::EpochEnded),
            })
            &&& has_say && store is Some ==> {
                &&& action is Submit
                &&& action->Submit_0.kind is RandomnessDkgMessage
                &&& action->Submit_0.kind->RandomnessDkgMessage_0 == store->0.name
                &&& create_outcome(
                    state.party@,
                    Ok(action->Submit_0.kind->RandomnessDkgMessage_1),
                )
                &&& action->Submit_0.kind->RandomnessDkgMessage_1@.sender == state.party@.id
                &&& action->Submit_0.kind->RandomnessDkgMessage_1@.commitment
                    == state.party@.commitment
            }
        }),
{
}

/// A message that was made is sent under this validator's name, unless the epoch is over; if none
/// could be made, there is nothing to do.
pub proof fn law_made_message_is_sent(
    store: Option<&EpochStore>,
    message: Message,
    error: DkgError,
)
    ensures
        store is Some ==> message_action(store, Ok(message)) == DkgActionView::Submit(
            ConsensusTransaction {
                kind: ConsensusTransactionKind::RandomnessDkgMessage(store->0.name, message),
            },
        ),
        store is None ==> message_action(store, Ok(message)) == (DkgActionView::Return {
            update: None,
            result: Err(SuiError::EpochEnded),
        }),
        message_action(store, Err(error)) == (DkgActionView::Return {
            update: None,
            result: Ok(()),
        }),
{
}

/// Once the message is out, one gauge shows how long that took, and the others stay.
pub proof fn law_message_time_is_shown(metrics: DkgMetrics, start: Millis, now: Millis)
    ensures
        message_metrics(metrics, start, now) == (DkgMetrics {
            epoch_random_beacon_dkg_message_time_ms: elapsed_millis(start, now),
            ..metrics
        }),
{
}

/// The outcome of the submission is the outcome of the call, and the gauge moves on success only.
pub proof fn law_submission_is_reported(
    before: DkgMetrics,
    start: Millis,
    now: Millis,
    submitted: SuiResult<()>,
    after: DkgMetrics,
    result: SuiResult<()>,
)
    requires
        message_sent(before, Some(start), now, submitted, after, result),
    ensures
        result == submitted,
        submitted is Err ==> after == before,
        submitted is Ok ==> after == (DkgMetrics {
            epoch_random_beacon_dkg_message_time_ms: elapsed_millis(start, now),
            ..before
        }),
{
}

// ---------------------------------------------------------------------------------------------
// Collecting messages and confirmations
// ---------------------------------------------------------------------------------------------

/// Something from an authority is taken if there is use for it, the authority is known, and it is
/// listed with the party that the thing claims to come from; of several reasons to ignore it, the
/// first in this order is told.
pub proof fn law_reception(state: DkgState, authority: Seq<u8>, sender: PartyId)
    ensures
        ({
            let known = state.authority_info.contains_key(authority);
            let own = known && state.authority_info[authority].1 == sender;
            let open = state.dkg_output is None;
            let waiting = open && state.used_messages is None;
            let of_message = state.message_reception(authority, sender);
            let of_confirmation = state.confirmation_reception(authority, sender);
            &&& of_message is TooLate <==> !waiting
            &&& of_message is UnknownAuthority <==> waiting && !known
            &&& of_message is FalseSender <==> waiting && known && !own
            &&& of_message is Taken <==> waiting && own
            &&& of_confirmation is TooLate <==> !open
            &&& of_confirmation is UnknownAuthority <==> open && !known
            &&& of_confirmation is FalseSender <==> open && known && !own
            &&& of_confirmation is Taken <==> open && own
            &&& state.takes_message(authority, sender) <==> of_message is Taken
            &&& state.takes_confirmation(authority, sender) <==> of_confirmation is Taken
        }),
{
}

/// The protocol can process a message unless its commitment is empty, or constant with a threshold
/// of one, or its encryption is too long.
pub proof fn law_what_can_be_processed(state: DkgState, message: Message)
    ensures
        state.can_process(message) <==> {
            &&& message@.coefficients > 0
            &&& message@.coefficients > 1 || state.party@.threshold > 1
            &&& message@.encryption.len() < 0x8000_0000
        },
{
}

/// A message that was processed is filed under its sender, in the state in every case, and in the
/// batch if it can be written there. Nothing else changes.
pub proof fn law_processed_message_is_filed(
    state: DkgState,
    batch: BatchView,
    store: Option<&EpochStore>,
    processed: ProcessedMessage,
)
    ensures
        ({
            let sender = processed@.message@.sender;
            let (after, after_batch, result) = message_filed(state, batch, store, Ok(processed));
            &&& after == DkgState {
                processed_messages: state.processed_messages.insert(sender, processed),
                ..state
            }
            &&& written(
                store,
                batch,
                TableWrite::DkgProcessedMessages(sender, processed),
                after_batch,
                result,
            )
        }),
{
}

/// A message that could not be processed changes nothing, and that is no failure of the call.
pub proof fn law_unprocessed_message_is_dropped(
    state: DkgState,
    batch: BatchView,
    store: Option<&EpochStore>,
    error: DkgError,
)
    ensures
        message_filed(state, batch, store, Err(error)) == (state, batch, Ok::<(), SuiError>(())),
{
}

/// While a party has not confirmed and key generation is open, a message that it accepts, from the
/// authority of its sender, is filed under that sender, whatever else is filed: the very message,
/// with all shares of this party or a complaint about the sender. It is in the batch, last, if it
/// can be written there. Nothing else changes.
pub proof fn law_accepted_message_is_filed(
    before: Progress,
    store: Option<&EpochStore>,
    authority: Seq<u8>,
    message: Message,
    result: SuiResult<()>,
    after: Progress,
)
    requires
        step(Call::AddMessage { store, authority, message, result }, before, after),
        before.state.used_messages is None,
        before.state.dkg_output is None,
        before.state.authority_info.contains_key(authority),
        before.state.authority_info[authority].1 == message@.sender,
        before.state.party@.accepts(message),
    ensures
        ({
            let filed = after.state.processed_messages[message@.sender];
            let party = before.state.party@;
            &&& after.state == DkgState {
                processed_messages: before.state.processed_messages.insert(message@.sender, filed),
                ..before.state
            }
            &&& filed@.message == message
            &&& filed@.complaint is None ==> share_numbers(filed@.shares) == share_ids(
                party.weights,
                party.id as int,
            )
            &&& filed@.complaint is Some ==> filed@.shares.len() == 0
                && filed@.complaint->0.accused == message@.sender
            &&& written(
                store,
                before.batch,
                TableWrite::DkgProcessedMessages(message@.sender, filed),
                after.batch,
                result,
            )
            &&& after.metrics == before.metrics
        }),
{
    let processed = choose|processed: Result<ProcessedMessage, DkgError>| #[trigger]
        process_outcome(before.state.party@, message, processed) && (
            after.state,
            after.batch,
            result,
        ) == message_filed(before.state, before.batch, store, processed);
    assert(processed is Ok);
    let filed = processed->Ok_0;
    assert(after.state.processed_messages[message@.sender] == filed);
    if filed@.complaint is Some {
        assert(share_numbers(filed@.shares).len() == filed@.shares.len());
    }
}

/// Any other message is ignored: nothing changes, and that is no failure.
pub proof fn law_other_messages_are_ignored(
    before: Progress,
    store: Option<&EpochStore>,
    authority: Seq<u8>,
    message: Message,
    result: SuiResult<()>,
    after: Progress,
)
    requires
        step(Call::AddMessage { store, authority, message, result }, before, after),
        ({
            ||| before.state.used_messages is Some
            ||| before.state.dkg_output is Some
            ||| !before.state.authority_info.contains_key(authority)
            ||| before.state.authority_info[authority].1 != message@.sender
            ||| !before.state.party@.accepts(message)
        }),
    ensures
        after == before,
        result is Ok,
{
}

/// While key generation is open, a confirmation from the authority of its sender is filed under
/// that sender, in every state, whatever messages are there. It is in the batch, last, if it can
/// be written there. Nothing else changes.
pub proof fn law_confirmation_is_filed(
    before: Progress,
    store: Option<&EpochStore>,
    authority: Seq<u8>,
    confirmation: Confirmation,
    result: SuiResult<()>,
    after: Progress,
)
    requires
        step(Call::AddConfirmation { store, authority, confirmation, result }, before, after),
        before.state.dkg_output is None,
        before.state.authority_info.contains_key(authority),
        before.state.authority_info[authority].1 == confirmation@.sender,
    ensures
        after.state == (DkgState {
            confirmations: before.state.confirmations.insert(confirmation@.sender, confirmation),
            ..before.state
        }),
        written(
            store,
            before.batch,
            TableWrite::DkgConfirmations(confirmation@.sender, confirmation),
            after.batch,
            result,
        ),
        after.metrics == before.metrics,
{
}

/// Any other confirmation is ignored: nothing changes, and that is no failure.
pub proof fn law_other_confirmations_are_ignored(
    before: Progress,
    store: Option<&EpochStore>,
    authority: Seq<u8>,
    confirmation: Confirmation,
    result: SuiResult<()>,
    after: Progress,
)
    requires
        step(Call::AddConfirmation { store, authority, confirmation, result }, before, after),
        ({
            ||| before.state.dkg_output is Some
            ||| !before.state.authority_info.contains_key(authority)
            ||| before.state.authority_info[authority].1 != confirmation@.sender
        }),
    ensures
        after == before,
        result is Ok,
{
}

// ---------------------------------------------------------------------------------------------
// Advancing key generation
// ---------------------------------------------------------------------------------------------

/// Whether a party has what it takes to confirm: messages from dealers with the weight of the
/// threshold, one of which gave it its shares.
pub open spec fn ready_to_confirm(state: DkgState) -> bool {
    let messages = values_in_order(state.processed_messages);
    &&& joint_weight(state.party@.weights, senders_of(messages)) >= state.party@.threshold
    &&& exists|i: int|
        0 <= i < first_of_each(messages).len() && (#[trigger] first_of_each(
            messages,
        )[i])@.complaint is None
}

/// Whether a call ended with no more than a look at the time: key generation that is open is
/// marked as failed after its last round, and else nothing is changed.
pub open spec fn only_time_counted(
    before: Progress,
    epoch_store: EpochStore,
    round: Round,
    after: Progress,
    action: DkgActionView,
) -> bool {
    &&& action == (DkgActionView::Return { update: None, result: Ok(()) })
    &&& after.batch == before.batch
    &&& round <= epoch_store.dkg_timeout_round || before.state.dkg_output is Some ==> after
        == before
    &&& round > epoch_store.dkg_timeout_round && before.state.dkg_output is None ==> {
        &&& after.state == (DkgState { dkg_output: Some(None), ..before.state })
        &&& after.metrics == (DkgMetrics { epoch_random_beacon_dkg_failed: 1, ..before.metrics })
    }
}

/// Whether a call ended key generation with a key: the key is the output, the network is told of
/// it with the epoch, the threshold and all authorities, it is written if it can be, and the
/// gauges show it. Time does not count.
pub open spec fn key_was_taken(
    before: Progress,
    epoch_store: EpochStore,
    now: Millis,
    output: Output,
    after: Progress,
    action: DkgActionView,
) -> bool {
    &&& after.state == (DkgState { dkg_output: Some(Some(output)), ..before.state })
    &&& action is Return
    &&& action->update == Some(
        EpochUpdateView {
            epoch: epoch_store.epoch,
            authority_info: before.state.authority_info,
            output,
            threshold: before.state.party@.threshold,
        },
    )
    &&& written(
        Some(&epoch_store),
        before.batch,
        TableWrite::DkgOutput(0, output),
        after.batch,
        action->result,
    )
    &&& after.metrics.epoch_random_beacon_dkg_num_shares == num_shares(output@) as i64
    &&& after.metrics.epoch_random_beacon_dkg_failed == 0
    &&& after.metrics.epoch_random_beacon_dkg_epoch_start_completion_time_ms == elapsed_millis(
        epoch_store.epoch_open_time,
        now,
    )
    &&& before.state.dkg_start_time is Some
        ==> after.metrics.epoch_random_beacon_dkg_completion_time_ms == elapsed_millis(
        before.state.dkg_start_time->0,
        now,
    )
    &&& before.state.dkg_start_time is None
        ==> after.metrics.epoch_random_beacon_dkg_completion_time_ms
        == before.metrics.epoch_random_beacon_dkg_completion_time_ms
    &&& after.metrics.epoch_random_beacon_dkg_message_time_ms
        == before.metrics.epoch_random_beacon_dkg_message_time_ms
    &&& after.metrics.epoch_random_beacon_dkg_confirmation_time_ms
        == before.metrics.epoch_random_beacon_dkg_confirmation_time_ms
}

/// Whether the confirmations that are there were looked at: they gave an output, which was taken,
/// or none, and then only time counted.
pub open spec fn confirmations_counted(
    before: Progress,
    epoch_store: EpochStore,
    round: Round,
    now: Millis,
    after: Progress,
    action: DkgActionView,
) -> bool {
    exists|completed: Result<Output, DkgError>| #[trigger]
        complete_outcome(
            before.state.party@,
            before.state.used_messages->0@,
            values_in_order(before.state.confirmations),
            completed,
        ) && {
            &&& completed is Ok ==> key_was_taken(
                before,
                epoch_store,
                now,
                completed->Ok_0,
                after,
                action,
            )
            &&& completed is Err ==> only_time_counted(before, epoch_store, round, after, action)
        }
}

/// An output that was found is taken in every state; if there is none, nothing changes.
pub proof fn law_found_output_is_taken(
    before: Progress,
    epoch_store: EpochStore,
    now: Millis,
    output: Output,
    error: DkgError,
)
    ensures
        ({
            let (after, update, result) = output_found(before, epoch_store, now, Ok(output));
            key_was_taken(
                before,
                epoch_store,
                now,
                output,
                after,
                DkgActionView::Return { update, result },
            )
        }),
        output_found(before, epoch_store, now, Err(error)) == (
            before,
            None::<EpochUpdateView>,
            Ok::<(), SuiError>(()),
        ),
{
}

/// Messages that were merged are in use from then on, in every state. They are in the batch, last,
/// if they can be written there, and only then the confirmation is sent, under this validator's
/// name. If they could not be merged, nothing changes and there is nothing to do yet.
pub proof fn law_merged_messages_are_used(
    state: DkgState,
    batch: BatchView,
    epoch_store: EpochStore,
    confirmation: Confirmation,
    used: UsedMessages,
    error: DkgError,
)
    ensures
        ({
            let (after, after_batch, action) = messages_used(
                state,
                batch,
                epoch_store,
                Ok((confirmation, used)),
            );
            let can_write = writable(Some(&epoch_store), batch, 1);
            &&& after == DkgState { used_messages: Some(used), ..state }
            &&& after_batch.refusal == batch.refusal
            &&& can_write ==> {
                &&& after_batch.writes == batch.writes.push(TableWrite::DkgUsedMessages(0, used))
                &&& action == Some(
                    DkgActionView::Submit(
                        ConsensusTransaction {
                            kind: ConsensusTransactionKind::RandomnessDkgConfirmation(
                                epoch_store.name,
                                confirmation,
                            ),
                        },
                    ),
                )
            }
            &&& !can_write ==> {
                &&& after_batch.writes == batch.writes
                &&& action == Some(
                    DkgActionView::Return {
                        update: None,
                        result: Err(obstacle(Some(&epoch_store), batch)),
                    },
                )
            }
        }),
        messages_used(state, batch, epoch_store, Err(error)) == (
            state,
            batch,
            None::<DkgActionView>,
        ),
{
}

/// With the epoch over, advancing says so and changes nothing, in every state.
pub proof fn law_advancing_after_the_epoch(
    before: Progress,
    round: Round,
    now: Millis,
    after: Progress,
    action: DkgActionView,
)
    requires
        advancing(before, None, round, now, after, action),
    ensures
        after == before,
        action == (DkgActionView::Return { update: None, result: Err(SuiError::EpochEnded) }),
{
}

/// Once key generation is over, advancing changes nothing, and succeeds.
pub proof fn law_advancing_when_all_is_over(
    before: Progress,
    epoch_store: EpochStore,
    round: Round,
    now: Millis,
    after: Progress,
    action: DkgActionView,
)
    requires
        advancing(before, Some(&epoch_store), round, now, after, action),
        before.state.dkg_output is Some,
    ensures
        after == before,
        action == (DkgActionView::Return { update: None, result: Ok(()) }),
{
}

/// A party that has not confirmed and has what it takes does so when asked to advance, in every
/// other respect whatever the state, the round and the time: the messages in use are the first of
/// each dealer, and its confirmation holds the complaints about them. They are in the batch, last,
/// if they can be written there, and only then the confirmation is sent. Nothing else changes.
pub proof fn law_advancing_confirms(
    before: Progress,
    epoch_store: EpochStore,
    round: Round,
    now: Millis,
    after: Progress,
    action: DkgActionView,
)
    requires
        advancing(before, Some(&epoch_store), round, now, after, action),
        before.state.used_messages is None,
        before.state.dkg_output is None,
        ready_to_confirm(before.state),
    ensures
        ({
            let messages = first_of_each(values_in_order(before.state.processed_messages));
            let used = after.state.used_messages->0;
            let can_write = writable(Some(&epoch_store), before.batch, 1);
            &&& after.state == DkgState { used_messages: Some(used), ..before.state }
            &&& used@ == messages
            &&& after.metrics == before.metrics
            &&& after.batch.refusal == before.batch.refusal
            &&& can_write ==> {
                &&& after.batch.writes == before.batch.writes.push(
                    TableWrite::DkgUsedMessages(0, used),
                )
                &&& action is Submit
                &&& action->Submit_0.kind is RandomnessDkgConfirmation
                &&& action->Submit_0.kind->RandomnessDkgConfirmation_0 == epoch_store.name
                &&& action->Submit_0.kind->RandomnessDkgConfirmation_1@.sender
                    == before.state.party@.id
                &&& action->Submit_0.kind->RandomnessDkgConfirmation_1@.complaints
                    == complaints_of(messages)
            }
            &&& !can_write ==> {
                &&& after.batch.writes == before.batch.writes
                &&& action == (DkgActionView::Return {
                    update: None,
                    result: Err(obstacle(Some(&epoch_store), before.batch)),
                })
            }
        }),
{
    let messages = values_in_order(before.state.processed_messages);
    let merged = choose|merged: Result<(Confirmation, UsedMessages), DkgError>|
        {
            &&& #[trigger] merge_outcome(before.state.party@, messages, merged)
            &&& {
                let (state, batch, asked) = messages_used(
                    before.state,
                    before.batch,
                    epoch_store,
                    merged,
                );
                let between = Progress { state, batch, metrics: before.metrics };
                match asked {
                    Some(asked) => after == between && action == asked,
                    None => finishing(between, epoch_store, round, now, after, action),
                }
            }
        };
    assert(merged is Ok);
}

/// A party that has not confirmed and does not have what it takes goes on waiting when asked to
/// advance; only time counts, whatever confirmations are there.
pub proof fn law_advancing_waits_for_messages(
    before: Progress,
    epoch_store: EpochStore,
    round: Round,
    now: Millis,
    after: Progress,
    action: DkgActionView,
)
    requires
        advancing(before, Some(&epoch_store), round, now, after, action),
        before.state.used_messages is None,
        before.state.dkg_output is None,
        !ready_to_confirm(before.state),
    ensures
        only_time_counted(before, epoch_store, round, after, action),
{
}

/// A party that has confirmed looks at the confirmations that are there when asked to advance.
pub proof fn law_advancing_counts_confirmations(
    before: Progress,
    epoch_store: EpochStore,
    round: Round,
    now: Millis,
    after: Progress,
    action: DkgActionView,
)
    requires
        advancing(before, Some(&epoch_store), round, now, after, action),
        before.state.used_messages is Some,
        before.state.dkg_output is None,
    ensures
        confirmations_counted(before, epoch_store, round, now, after, action),
{
    let completed = choose|completed: Result<Output, DkgError>| #[trigger]
        complete_outcome(
            before.state.party@,
            before.state.used_messages->0@,
            values_in_order(before.state.confirmations),
            completed,
        ) && (after, action) == finished(before, epoch_store, round, now, completed);
    assert(complete_outcome(
        before.state.party@,
        before.state.used_messages->0@,
        values_in_order(before.state.confirmations),
        completed,
    ));
}

/// The gauges once a confirmation is out: one shows how long that took, if the clock has run.
pub open spec fn confirmation_time_shown(
    before: DkgMetrics,
    start: Option<Millis>,
    now: Millis,
) -> DkgMetrics {
    DkgMetrics {
        epoch_random_beacon_dkg_confirmation_time_ms: if start is Some {
            elapsed_millis(start->0, now)
        } else {
            before.epoch_random_beacon_dkg_confirmation_time_ms
        },
        ..before
    }
}

/// If a confirmation could not be submitted, the call ends with that error and changes nothing.
pub proof fn law_refused_confirmation_ends_the_call(
    before: Progress,
    epoch_store: EpochStore,
    round: Round,
    now: Millis,
    error: SuiError,
    after: Progress,
    action: DkgActionView,
)
    requires
        going_on(before, epoch_store, round, now, Err(error), after, action),
    ensures
        after == before,
        action == (DkgActionView::Return { update: None, result: Err(error) }),
{
}

/// Once a confirmation is submitted, the same call looks at the confirmations that are there,
/// after one gauge shows how long it took.
pub proof fn law_submitted_confirmation_goes_on(
    before: Progress,
    epoch_store: EpochStore,
    round: Round,
    now: Millis,
    after: Progress,
    action: DkgActionView,
)
    requires
        going_on(before, epoch_store, round, now, Ok(()), after, action),
    ensures
        ({
            let metrics = confirmation_time_shown(before.metrics, before.state.dkg_start_time, now);
            let shown = Progress { metrics, ..before };
            &&& before.state.used_messages is Some && before.state.dkg_output is None
                ==> confirmations_counted(shown, epoch_store, round, now, after, action)
            &&& before.state.used_messages is None || before.state.dkg_output is Some
                ==> only_time_counted(shown, epoch_store, round, after, action)
        }),
{
    let metrics = confirmation_time_shown(before.metrics, before.state.dkg_start_time, now);
    let shown = Progress { metrics, ..before };
    assert(finishing(shown, epoch_store, round, now, after, action));
    if before.state.used_messages is Some && before.state.dkg_output is None {
        let completed = choose|completed: Result<Output, DkgError>| #[trigger]
            complete_outcome(
                before.state.party@,
                before.state.used_messages->0@,
                values_in_order(before.state.confirmations),
                completed,
            ) && (after, action) == finished(shown, epoch_store, round, now, completed);
        assert(complete_outcome(
            shown.state.party@,
            shown.state.used_messages->0@,
            values_in_order(shown.state.confirmations),
            completed,
        ));
    }
}

/// Confirmations without enough weight are waited for; only time counts.
pub proof fn law_too_few_confirmations_are_waited_for(
    before: Progress,
    epoch_store: EpochStore,
    round: Round,
    now: Millis,
    after: Progress,
    action: DkgActionView,
)
    requires
        confirmations_counted(before, epoch_store, round, now, after, action),
        !enough_confirmed(before.state.party@, values_in_order(before.state.confirmations)),
    ensures
        only_time_counted(before, epoch_store, round, after, action),
{
}

/// Confirmations of enough weight lead to a key in every case but one: that settling the
/// complaints leaves no message standing. The key is that of the messages that stand.
pub proof fn law_enough_confirmations_decide(
    before: Progress,
    epoch_store: EpochStore,
    round: Round,
    now: Millis,
    after: Progress,
    action: DkgActionView,
)
    requires
        confirmations_counted(before, epoch_store, round, now, after, action),
        enough_confirmed(before.state.party@, values_in_order(before.state.confirmations)),
    ensures
        exists|excluded: Set<PartyId>|
            {
                let messages = standing(before.state.used_messages->0@, excluded);
                let output = after.state.dkg_output->0->0;
                &&& #[trigger] settles(
                    before.state.party@.weights,
                    values_in_order(before.state.confirmations),
                    excluded,
                )
                &&& messages.len() > 0 ==> {
                    &&& key_was_taken(before, epoch_store, now, output, after, action)
                    &&& aggregate_outcome(before.state.party@, messages, Ok(output))
                    &&& output@.public_key == combined_key(commitments_of(messages))
                }
                &&& messages.len() == 0 ==> only_time_counted(
                    before,
                    epoch_store,
                    round,
                    after,
                    action,
                )
            },
{
    let party = before.state.party@;
    let used = before.state.used_messages->0@;
    let confirmations = values_in_order(before.state.confirmations);
    let completed = choose|completed: Result<Output, DkgError>| #[trigger]
        complete_outcome(party, used, confirmations, completed) && {
            &&& completed is Ok ==> key_was_taken(
                before,
                epoch_store,
                now,
                completed->Ok_0,
                after,
                action,
            )
            &&& completed is Err ==> only_time_counted(before, epoch_store, round, after, action)
        };
    let excluded = choose|excluded: Set<PartyId>| #[trigger]
        settles(party.weights, confirmations, excluded) && aggregate_outcome(
            party,
            standing(used, excluded),
            completed,
        );
    assert(settles(party.weights, confirmations, excluded));
}

/// If a confirmation is submitted while key generation is open, and the party holds confirmations
/// of enough weight without complaints and has messages in use, then that very call ends with a
/// key, whatever the round: the output is there with the key of all messages in use, and the
/// network is told of it with the epoch, the threshold and all authorities.
pub proof fn law_enough_confirmations_succeed_after_submission(
    before: Progress,
    epoch_store: EpochStore,
    round: Round,
    now: Millis,
    action: DkgActionView,
    after: Progress,
)
    requires
        step(
            Call::ConfirmationSubmitted { epoch_store, round, now, submitted: Ok(()), action },
            before,
            after,
        ),
        before.state.dkg_output is None,
        before.state.used_messages is Some,
        before.state.used_messages->0@.len() > 0,
        enough_confirmed(before.state.party@, values_in_order(before.state.confirmations)),
        undisputed(before.state.party@.weights, values_in_order(before.state.confirmations)),
    ensures
        after.state.dkg_output is Some && after.state.dkg_output->0 is Some,
        ({
            let output = after.state.dkg_output->0->0;
            let shown = Progress {
                metrics: confirmation_time_shown(before.metrics, before.state.dkg_start_time, now),
                ..before
            };
            &&& output@.public_key == combined_key(commitments_of(before.state.used_messages->0@))
            &&& key_was_taken(shown, epoch_store, now, output, after, action)
        }),
{
    law_submitted_confirmation_goes_on(before, epoch_store, round, now, after, action);
    let metrics = confirmation_time_shown(before.metrics, before.state.dkg_start_time, now);
    let shown = Progress { metrics, ..before };
    law_counted_without_complaints(shown, epoch_store, round, now, after, action);
}

/// Confirmations of enough weight without complaints lead to the key of all messages in use.
pub proof fn law_counted_without_complaints(
    before: Progress,
    epoch_store: EpochStore,
    round: Round,
    now: Millis,
    after: Progress,
    action: DkgActionView,
)
    requires
        confirmations_counted(before, epoch_store, round, now, after, action),
        before.state.used_messages->0@.len() > 0,
        enough_confirmed(before.state.party@, values_in_order(before.state.confirmations)),
        undisputed(before.state.party@.weights, values_in_order(before.state.confirmations)),
    ensures
        ({
            let output = after.state.dkg_output->0->0;
            &&& key_was_taken(before, epoch_store, now, output, after, action)
            &&& aggregate_outcome(
                before.state.party@,
                before.state.used_messages->0@,
                Ok(output),
            )
        }),
{
    let party = before.state.party@;
    let used = before.state.used_messages->0@;
    let confirmations = values_in_order(before.state.confirmations);
    let completed = choose|completed: Result<Output, DkgError>| #[trigger]
        complete_outcome(party, used, confirmations, completed) && {
            &&& completed is Ok ==> key_was_taken(
                before,
                epoch_store,
                now,
                completed->Ok_0,
                after,
                action,
            )
            &&& completed is Err ==> only_time_counted(before, epoch_store, round, after, action)
        };
    lemma_undisputed_completion(party, used, confirmations, completed);
}

/// A party can be asked to advance in every state but these: it is to merge messages of which one
/// has a sender that is no party; or it is to complete the protocol with messages and
/// confirmations on which that cannot be done.
pub proof fn law_when_advancing_is_possible(state: DkgState)
    ensures
        state.can_advance() <==> {
            &&& state.dkg_output is None && state.used_messages is None ==> forall|id: PartyId|
                state.processed_messages.contains_key(id) ==> (
                #[trigger] state.processed_messages[id])@.message@.sender
                    < state.party@.weights.len()
            &&& state.dkg_output is None && state.used_messages is Some ==> can_complete(
                state.party@,
                state.used_messages->0@,
                values_in_order(state.confirmations),
            )
        },
        state.can_finish() <==> (state.dkg_output is None && state.used_messages is Some
            ==> can_complete(
            state.party@,
            state.used_messages->0@,
            values_in_order(state.confirmations),
        )),
{
    if state.dkg_output is None && state.used_messages is None {
        if forall|id: PartyId|
            state.processed_messages.contains_key(id) ==> (
            #[trigger] state.processed_messages[id])@.message@.sender
                < state.party@.weights.len() {
            assert forall|id: PartyId| #[trigger]
                state.processed_messages.contains_key(id) implies crate::dkg::sender_of(
                state.processed_messages[id],
            ) < state.party@.weights.len() by {
                assert(state.processed_messages[id]@.message@.sender < state.party@.weights.len());
            }
        }
    }
}

// ---------------------------------------------------------------------------------------------
// Rounds
// ---------------------------------------------------------------------------------------------

/// A reservation uses up one round number in every case, whatever the state of key generation. It
/// gives the round that was next, with that round as pending and the one after it as next in the
/// batch, if both can be written; else it gives the error that stood in the way, and the batch has
/// at most the first of the two. Nothing else changes.
pub proof fn law_reservation(
    before: Progress,
    store: Option<&EpochStore>,
    reserved: SuiResult<RandomnessRound>,
    after: Progress,
)
    requires
        step(Call::ReserveNextRandomness { store, reserved }, before, after),
    ensures
        ({
            let round = before.state.next_randomness_round;
            let next = RandomnessRound((round.0 + 1) as u64);
            let pending = TableWrite::RandomnessRoundsPending(round);
            &&& after.state == DkgState { next_randomness_round: next, ..before.state }
            &&& after.metrics == before.metrics
            &&& after.batch.refusal == before.batch.refusal
            &&& writable(store, before.batch, 2) ==> {
                &&& reserved == Ok::<RandomnessRound, SuiError>(round)
                &&& after.batch.writes == before.batch.writes.push(pending).push(
                    TableWrite::RandomnessNextRound(0, next),
                )
            }
            &&& !writable(store, before.batch, 2) ==> reserved == Err::<
                RandomnessRound,
                SuiError,
            >(obstacle(store, before.batch))
            &&& writable(store, before.batch, 1) && !writable(store, before.batch, 2)
                ==> after.batch.writes == before.batch.writes.push(pending)
            &&& !writable(store, before.batch, 1) ==> after.batch.writes == before.batch.writes
        }),
{
}

/// To generate randomness for a round in an epoch is to send partial signatures for that round in
/// that epoch.
pub proof fn law_generation_sends_signatures(epoch: EpochId, round: RandomnessRound)
    ensures
        generation_action(epoch, round) is SendPartialSignatures,
        generation_action(epoch, round)->SendPartialSignatures_0 == epoch,
        generation_action(epoch, round)->SendPartialSignatures_1 == round,
{
}

/// A round whose randomness is in a checkpoint is removed from the pending ones if the tables can
/// be had, and once that is done the round is complete in the epoch of the store.
pub proof fn law_checkpoint_completes_a_round(
    store: Option<&EpochStore>,
    round: RandomnessRound,
    error: SuiError,
)
    ensures
        store is Some && store->0.tables is Ok ==> checkpoint_action(store, round)
            == RoundAction::RemovePending(round),
        store is Some && store->0.tables is Err ==> checkpoint_action(store, round)
            == RoundAction::Fail(store->0.tables->Err_0),
        store is None ==> checkpoint_action(store, round) == RoundAction::Fail(
            SuiError::EpochEnded,
        ),
        store is Some ==> completion_action(store, round, Ok(())) == RoundAction::CompleteRound(
            store->0.epoch,
            round,
        ),
        store is None ==> completion_action(store, round, Ok(())) == RoundAction::Fail(
            SuiError::EpochEnded,
        ),
        completion_action(store, round, Err(error)) == RoundAction::Fail(error),
{
}

} // verus!
