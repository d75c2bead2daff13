//! What holds across calls to the manager.

use crate::dkg::{
    Confirmation, DkgError, Message, Output, PartyView, ProcessedMessage, accuses,
    aggregate_outcome, among, combined_key, commitments_of, complete_outcome, counts,
    enough_confirmed, first_of_each, hex_digit, hex_of, joint_weight, process_outcome,
    sender_of, senders_of, settles, share_ids, share_numbers, standing, undisputed,
};
use crate::manager::can_start;
use crate::rows::{values_below, values_in_order};
use crate::setup::{EpochSetup, decimal, decimal_digit, dkg_prefix};
use crate::state::{
    ConsensusTransaction, ConsensusTransactionKind, DkgActionView, DkgState, EpochUpdateView,
    Progress, RoundAction, adding_message, advancing, all_filed, all_processed, confirmation_added,
    finished, going_on, message_filed, restored, restored_update, resumed, round_reserved, starting,
};
use crate::store::{SINGLETON_KEY, StoredRows, TableWrite, Tables, singleton};
use crate::types::{
    EpochId, EpochStore, Millis, PartyId, RandomnessRound, Round, SuiResult, tables_of,
};
use vstd::prelude::*;

verus! {

/// A call to the manager that can change it, with what it is given and what it gives back.
pub enum Call<'a> {
    StartDkg { store: Option<&'a EpochStore>, now: Millis, action: DkgActionView },
    AddMessage {
        store: Option<&'a EpochStore>,
        authority: Seq<u8>,
        message: Message,
        result: SuiResult<()>,
    },
    AddConfirmation {
        store: Option<&'a EpochStore>,
        authority: Seq<u8>,
        confirmation: Confirmation,
        result: SuiResult<()>,
    },
    AdvanceDkg { store: Option<&'a EpochStore>, round: Round, now: Millis, action: DkgActionView },
    ConfirmationSubmitted {
        epoch_store: EpochStore,
        round: Round,
        now: Millis,
        submitted: SuiResult<()>,
        action: DkgActionView,
    },
    ReserveNextRandomness { store: Option<&'a EpochStore>, reserved: SuiResult<RandomnessRound> },
}

/// Whether a call can lead from one state, batch and gauges to others, as the contracts of the
/// manager's methods say.
pub open spec fn step(call: Call, before: Progress, after: Progress) -> bool {
    match call {
        Call::StartDkg { store, now, action } => {
            &&& starting(before.state, store, now, after.state, action)
            &&& after.batch == before.batch
            &&& after.metrics == before.metrics
        },
        Call::AddMessage { store, authority, message, result } => {
            &&& before.state.takes_message(authority, message@.sender)
                ==> before.state.can_process(message)
            &&& adding_message(
                before.state,
                before.batch,
                store,
                authority,
                message,
                (after.state, after.batch, result),
            )
            &&& after.metrics == before.metrics
        },
        Call::AddConfirmation { store, authority, confirmation, result } => {
            &&& (after.state, after.batch, result) == confirmation_added(
                before.state,
                before.batch,
                store,
                authority,
                confirmation,
            )
            &&& after.metrics == before.metrics
        },
        Call::AdvanceDkg { store, round, now, action } => advancing(
            before,
            store,
            round,
            now,
            after,
            action,
        ),
        Call::ConfirmationSubmitted { epoch_store, round, now, submitted, action } => going_on(
            before,
            epoch_store,
            round,
            now,
            submitted,
            after,
            action,
        ),
        Call::ReserveNextRandomness { store, reserved } => {
            &&& before.state.next_randomness_round.0 < u64::MAX
            &&& (after.state, after.batch, reserved) == round_reserved(
                before.state,
                before.batch,
                store,
            )
            &&& after.metrics == before.metrics
        },
    }
}

/// Whether calls can lead through states, batches and gauges, one after another.
pub open spec fn run(calls: Seq<Call>, states: Seq<Progress>) -> bool {
    &&& states.len() == calls.len() + 1
    &&& forall|i: int|
        0 <= i < calls.len() ==> step(#[trigger] calls[i], states[i], states[i + 1])
}

// ---------------------------------------------------------------------------------------------
// What is settled stays settled
// ---------------------------------------------------------------------------------------------

/// Whether nothing that was settled in one state is changed in another: who takes part, when key
/// generation began, which messages are in use and what came out; and, from the confirmation on,
/// the messages, and from the end of key generation on, the confirmations. Round numbers do not
/// go back.
pub open spec fn settled(before: DkgState, after: DkgState) -> bool {
    &&& after.party == before.party
    &&& after.weights == before.weights
    &&& after.authority_info == before.authority_info
    &&& before.dkg_start_time is Some ==> after.dkg_start_time == before.dkg_start_time
    &&& before.confirmed() ==> after.used_messages == before.used_messages
    &&& before.closed() ==> after.dkg_output == before.dkg_output
    &&& before.confirmed() || before.closed() ==> after.processed_messages
        == before.processed_messages
    &&& before.closed() ==> {
        &&& after.used_messages == before.used_messages
        &&& after.confirmations == before.confirmations
    }
    &&& before.next_randomness_round.0 <= after.next_randomness_round.0
}

/// No call changes what is settled.
pub proof fn law_call_keeps_settled(call: Call, before: Progress, after: Progress)
    requires
        step(call, before, after),
    ensures
        settled(before.state, after.state),
{
}

/// Whatever calls come, what is settled at some point is still so at any later point: the output
/// of key generation and the fact that it failed, once known, are final.
pub proof fn law_settled_for_good(calls: Seq<Call>, states: Seq<Progress>, i: int, j: int)
    requires
        run(calls, states),
        0 <= i <= j < states.len(),
    ensures
        settled(states[i].state, states[j].state),
    decreases j - i,
{
    if i < j {
        law_settled_for_good(calls, states, i, j - 1);
        law_call_keeps_settled(calls[j - 1], states[j - 1], states[j]);
    }
}

/// Key generation that ended with a key is over.
pub proof fn law_successful_is_closed(state: DkgState)
    requires
        state.successful(),
    ensures
        state.closed(),
{
}

/// The message that a call gives out for consensus, if it does.
pub open spec fn message_given(call: Call) -> Option<Message> {
    match call {
        Call::StartDkg {
            action: DkgActionView::Submit(
                ConsensusTransaction {
                    kind: ConsensusTransactionKind::RandomnessDkgMessage(_, message),
                },
            ),
            ..
        } => Some(message),
        _ => None,
    }
}

/// Whatever calls come, all messages that a manager sends are its own, with one commitment.
pub proof fn law_one_commitment(calls: Seq<Call>, states: Seq<Progress>, i: int)
    requires
        run(calls, states),
        0 <= i < calls.len(),
        message_given(calls[i]) is Some,
    ensures
        message_given(calls[i])->0@.sender == states[0].state.party@.id,
        message_given(calls[i])->0@.commitment == states[0].state.party@.commitment,
{
    law_settled_for_good(calls, states, 0, i);
    assert(step(calls[i], states[i], states[i + 1]));
}

/// A party that has confirmed, or for which key generation is over, does not begin it again.
pub proof fn law_start_is_idle_later(
    state: DkgState,
    store: Option<&EpochStore>,
    now: Millis,
    after: DkgState,
    action: DkgActionView,
)
    requires
        state.confirmed() || state.closed(),
        starting(state, store, now, after, action),
    ensures
        after == state,
        action matches DkgActionView::Return { update: None, result: Ok(_) },
{
}

// ---------------------------------------------------------------------------------------------
// Who can file what
// ---------------------------------------------------------------------------------------------

/// Whether two maps agree on a key.
pub open spec fn agree_on<V>(one: Map<PartyId, V>, other: Map<PartyId, V>, id: PartyId) -> bool {
    &&& one.contains_key(id) == other.contains_key(id)
    &&& one.contains_key(id) ==> one[id] == other[id]
}

/// What is filed for a party changes only when the authority behind that party speaks, a message
/// only by a message and a confirmation only by a confirmation: nobody can speak for another.
pub proof fn law_no_speaking_for_others(call: Call, before: Progress, after: Progress, id: PartyId)
    requires
        step(call, before, after),
    ensures
        agree_on(before.state.processed_messages, after.state.processed_messages, id) || (
        call matches Call::AddMessage { authority, message, .. } && before.state.speaks_for(
            authority,
            id,
        ) && message@.sender == id),
        agree_on(before.state.confirmations, after.state.confirmations, id) || (
        call matches Call::AddConfirmation { authority, confirmation, .. }
            && before.state.speaks_for(authority, id) && confirmation@.sender == id),
{
}

/// If every message that is filed belongs to a party of one of the authorities, under whose id it
/// is, then that stays so in every call, and so it is with confirmations. There is then one
/// message and one confirmation of a party at most.
pub proof fn law_call_keeps_authorities(call: Call, before: Progress, after: Progress)
    requires
        step(call, before, after),
    ensures
        before.state.messages_of_authorities() ==> after.state.messages_of_authorities(),
        before.state.confirmations_of_authorities() ==> after.state.confirmations_of_authorities(),
{
    law_call_keeps_settled(call, before, after);
    assert forall|id: PartyId| before.state.has_authority(id) implies #[trigger]
        after.state.has_authority(id) by {
        let authority = choose|authority: Seq<u8>| before.state.speaks_for(authority, id);
        assert(after.state.speaks_for(authority, id));
    }
    match call {
        Call::AddMessage { authority, message, .. } => {
            if before.state.takes_message(authority, message@.sender) {
                assert(before.state.speaks_for(authority, message@.sender));
                assert(before.state.has_authority(message@.sender));
                assert(after.state.has_authority(message@.sender));
            }
        },
        Call::AddConfirmation { authority, confirmation, .. } => {
            if before.state.takes_confirmation(authority, confirmation@.sender) {
                assert(before.state.speaks_for(authority, confirmation@.sender));
                assert(before.state.has_authority(confirmation@.sender));
                assert(after.state.has_authority(confirmation@.sender));
            }
        },
        _ => {},
    }
    if before.state.messages_of_authorities() {
        assert forall|id: PartyId| #[trigger]
            after.state.processed_messages.contains_key(id) implies after.state.has_authority(
            id,
        ) by {
            if before.state.processed_messages.contains_key(id) {
                assert(before.state.has_authority(id));
            }
        }
    }
    if before.state.confirmations_of_authorities() {
        assert forall|id: PartyId| #[trigger]
            after.state.confirmations.contains_key(id) implies after.state.has_authority(id) by {
            if before.state.confirmations.contains_key(id) {
                assert(before.state.has_authority(id));
            }
        }
    }
}

/// Whatever calls come, what is filed keeps belonging to the parties of the authorities.
pub proof fn law_run_keeps_authorities(calls: Seq<Call>, states: Seq<Progress>, i: int)
    requires
        run(calls, states),
        0 <= i < states.len(),
        states[0].state.messages_of_authorities(),
        states[0].state.confirmations_of_authorities(),
    ensures
        states[i].state.messages_of_authorities(),
        states[i].state.confirmations_of_authorities(),
    decreases i,
{
    if i > 0 {
        law_run_keeps_authorities(calls, states, i - 1);
        law_call_keeps_authorities(calls[i - 1], states[i - 1], states[i]);
    }
}

/// A message changes nothing but the messages that are filed, and of the batch.
pub proof fn law_message_changes_only_messages(
    before: Progress,
    store: Option<&EpochStore>,
    authority: Seq<u8>,
    message: Message,
    result: SuiResult<()>,
    after: Progress,
)
    requires
        step(Call::AddMessage { store, authority, message, result }, before, after),
    ensures
        after.state == (DkgState {
            processed_messages: after.state.processed_messages,
            ..before.state
        }),
        after.metrics == before.metrics,
{
}

// ---------------------------------------------------------------------------------------------
// Genuine messages
// ---------------------------------------------------------------------------------------------

/// The values of a map of messages that a party can have processed are such messages.
proof fn lemma_values_processed(
    party: PartyView,
    messages: Map<PartyId, ProcessedMessage>,
    bound: nat,
)
    requires
        all_filed(party, messages),
        bound <= 0x1_0000,
    ensures
        all_processed(party, values_below(messages, bound)),
    decreases bound,
{
    if bound > 0 {
        lemma_values_processed(party, messages, (bound - 1) as nat);
    }
}

/// The first messages of senders are among the messages.
proof fn lemma_first_processed(party: PartyView, messages: Seq<ProcessedMessage>)
    requires
        all_processed(party, messages),
    ensures
        all_processed(party, first_of_each(messages)),
    decreases messages.len(),
{
    if messages.len() > 0 {
        assert forall|i: int| 0 <= i < messages.len() - 1 implies party.could_have_processed(
            #[trigger] messages.drop_last()[i],
        ) by {
            assert(party.could_have_processed(messages[i]));
        }
        lemma_first_processed(party, messages.drop_last());
        assert(party.could_have_processed(messages[messages.len() - 1]));
    }
}

/// Every call keeps the state genuine: only such messages are added, and only such are used, as
/// this party has processed.
pub proof fn law_call_keeps_genuine(call: Call, before: Progress, after: Progress)
    requires
        step(call, before, after),
        before.state.genuine(),
        before.state.well_formed(),
    ensures
        after.state.genuine(),
        after.state.well_formed(),
{
    let party = before.state.party@;
    lemma_values_processed(party, before.state.processed_messages, 0x1_0000);
    lemma_first_processed(party, values_in_order(before.state.processed_messages));
    match call {
        Call::AddMessage { store, authority, message, .. } => {
            if before.state.takes_message(authority, message@.sender) {
                let processed = choose|processed: Result<ProcessedMessage, DkgError>| #[trigger]
                    process_outcome(party, message, processed) && (
                        after.state,
                        after.batch,
                        call->AddMessage_result,
                    ) == message_filed(before.state, before.batch, store, processed);
                if let Ok(row) = processed {
                    lemma_processed_has_own_shares(party, message, row);
                }
            }
        },
        _ => {},
    }
}

/// The shares that processing finds are this party's.
proof fn lemma_processed_has_own_shares(party: PartyView, message: Message, row: ProcessedMessage)
    requires
        process_outcome(party, message, Ok(row)),
    ensures
        party.has_own_shares(row),
{
    assert forall|i: int| 0 <= i < row@.shares.len() implies share_ids(
        party.weights,
        party.id as int,
    ).contains((#[trigger] row@.shares[i]).index) by {
        let numbers = share_numbers(row@.shares);
        assert(numbers.len() == row@.shares.len());
        assert(numbers[i] == row@.shares[i].index);
        assert(numbers == share_ids(party.weights, party.id as int));
    }
}

/// Whatever calls come, a genuine state stays genuine.
pub proof fn law_run_keeps_genuine(calls: Seq<Call>, states: Seq<Progress>, i: int)
    requires
        run(calls, states),
        0 <= i < states.len(),
        states[0].state.genuine(),
        states[0].state.well_formed(),
    ensures
        states[i].state.genuine(),
        states[i].state.well_formed(),
    decreases i,
{
    if i > 0 {
        law_run_keeps_genuine(calls, states, i - 1);
        law_call_keeps_genuine(calls[i - 1], states[i - 1], states[i]);
    }
}

/// In a genuine state the protocol can always be asked to go on.
pub proof fn law_genuine_can_advance(state: DkgState)
    requires
        state.genuine(),
    ensures
        state.can_advance(),
{
}

/// A manager of a new epoch starts genuine, with nothing filed.
pub proof fn law_new_epoch_is_genuine(state: DkgState, rows: StoredRows)
    requires
        rows.read_from(Tables::empty()),
        state == restored(state.authority_info, state.party, rows),
    ensures
        state.genuine(),
        state.messages_of_authorities(),
        state.confirmations_of_authorities(),
{
}

// ---------------------------------------------------------------------------------------------
// Confirming and completing
// ---------------------------------------------------------------------------------------------

/// Whether messages are filed under their senders.
pub open spec fn under_senders(messages: Map<PartyId, ProcessedMessage>) -> bool {
    forall|id: PartyId| #[trigger]
        messages.contains_key(id) ==> sender_of(messages[id]) == id
}

/// The senders of the messages under keys below a bound are below it.
proof fn lemma_senders_below(messages: Map<PartyId, ProcessedMessage>, bound: nat)
    requires
        under_senders(messages),
        bound <= 0x1_0000,
    ensures
        forall|i: int|
            0 <= i < values_below(messages, bound).len() ==> sender_of(
                #[trigger] values_below(messages, bound)[i],
            ) < bound,
    decreases bound,
{
    if bound > 0 {
        lemma_senders_below(messages, (bound - 1) as nat);
        let below = values_below(messages, (bound - 1) as nat);
        let values = values_below(messages, bound);
        assert forall|i: int| 0 <= i < values.len() implies sender_of(#[trigger] values[i])
            < bound by {
            if i < below.len() {
                assert(values[i] == below[i]);
            }
        }
    }
}

/// Filed messages have different senders.
proof fn lemma_first_of_filed(messages: Map<PartyId, ProcessedMessage>, bound: nat)
    requires
        under_senders(messages),
        bound <= 0x1_0000,
    ensures
        first_of_each(values_below(messages, bound)) == values_below(messages, bound),
    decreases bound,
{
    if bound > 0 {
        let below = values_below(messages, (bound - 1) as nat);
        let key = (bound - 1) as PartyId;
        lemma_first_of_filed(messages, (bound - 1) as nat);
        if messages.contains_key(key) {
            lemma_senders_below(messages, (bound - 1) as nat);
            let values = values_below(messages, bound);
            assert(values.drop_last() =~= below);
            assert(!among(senders_of(below), key)) by {
                assert forall|i: int| 0 <= i < senders_of(below).len() implies senders_of(below)[i]
                    != key by {
                    assert(sender_of(below[i]) < bound - 1);
                }
            }
        }
    }
}

/// A party confirms only when the dealers of its messages together have the weight of the
/// threshold, and some message gave it its shares. It then speaks for itself, goes on with all
/// its messages, and has put them into the batch before it asks for the confirmation to be sent.
pub proof fn law_confirms_with_enough_messages(
    before: Progress,
    store: Option<&EpochStore>,
    round: Round,
    now: Millis,
    after: Progress,
    action: DkgActionView,
)
    requires
        under_senders(before.state.processed_messages),
        advancing(before, store, round, now, after, action),
        action is Submit,
    ensures
        !before.state.confirmed() && !before.state.closed(),
        joint_weight(
            before.state.party@.weights,
            senders_of(values_in_order(before.state.processed_messages)),
        ) >= before.state.party@.threshold,
        action->Submit_0.kind matches ConsensusTransactionKind::RandomnessDkgConfirmation(
            authority,
            confirmation,
        ) && authority == store->0.name && confirmation@.sender == before.state.party@.id,
        after.state.used_messages matches Some(used) && used@ == values_in_order(
            before.state.processed_messages,
        ) && after.batch == before.batch.with(TableWrite::DkgUsedMessages(SINGLETON_KEY, used))
            && exists|i: int| 0 <= i < used@.len() && (#[trigger] used@[i])@.complaint is None,
{
    lemma_first_of_filed(before.state.processed_messages, 0x1_0000);
}

/// A party that has not confirmed does so as soon as it is asked to advance with messages from
/// dealers of enough weight, if one of them gave it its shares. The confirmation is sent if the
/// messages can be put into the batch.
pub proof fn law_enough_messages_confirm(
    before: Progress,
    store: Option<&EpochStore>,
    round: Round,
    now: Millis,
    after: Progress,
    action: DkgActionView,
    good: int,
)
    requires
        under_senders(before.state.processed_messages),
        !before.state.confirmed() && !before.state.closed(),
        store is Some,
        joint_weight(
            before.state.party@.weights,
            senders_of(values_in_order(before.state.processed_messages)),
        ) >= before.state.party@.threshold,
        0 <= good < values_in_order(before.state.processed_messages).len(),
        values_in_order(before.state.processed_messages)[good]@.complaint is None,
        advancing(before, store, round, now, after, action),
    ensures
        after.state.confirmed(),
        tables_of(store) is Ok && before.batch.refuses() is None ==> action is Submit,
{
    lemma_first_of_filed(before.state.processed_messages, 0x1_0000);
}

/// Whatever calls come, a confirmation is sent at most once.
pub proof fn law_confirms_once(calls: Seq<Call>, states: Seq<Progress>, i: int, j: int)
    requires
        run(calls, states),
        0 <= i < j < calls.len(),
        calls[i] matches Call::AdvanceDkg { action, .. } && action is Submit,
    ensures
        !(calls[j] matches Call::AdvanceDkg { action, .. } && action is Submit),
{
    law_settled_for_good(calls, states, i + 1, j);
    assert(step(calls[i], states[i], states[i + 1]));
    assert(step(calls[j], states[j], states[j + 1]));
}

/// The news for the network that a call gives out, if it does.
pub open spec fn news_given(call: Call) -> Option<EpochUpdateView> {
    match call {
        Call::StartDkg { action: DkgActionView::Return { update, .. }, .. } => update,
        Call::AdvanceDkg { action: DkgActionView::Return { update, .. }, .. } => update,
        Call::ConfirmationSubmitted { action: DkgActionView::Return { update, .. }, .. } => update,
        _ => None,
    }
}

/// The network is told of a key in the call in which key generation ends with it, and in no other
/// call: not once it is over, and so not after a start with a key.
pub proof fn law_news_come_with_the_key(call: Call, before: Progress, after: Progress)
    requires
        step(call, before, after),
    ensures
        news_given(call) is Some <==> !before.state.successful() && after.state.successful(),
        news_given(call) matches Some(update) ==> {
            &&& !before.state.closed()
            &&& after.state.dkg_output == Some(Some(update.output))
            &&& update.authority_info == after.state.authority_info
            &&& update.threshold == after.state.party@.threshold
        },
{
}

/// Whatever calls come, the network is told of a key at most once.
pub proof fn law_announced_once(calls: Seq<Call>, states: Seq<Progress>, i: int, j: int)
    requires
        run(calls, states),
        0 <= i < j < calls.len(),
        news_given(calls[i]) is Some,
    ensures
        news_given(calls[j]) is None,
{
    law_settled_for_good(calls, states, i + 1, j);
    assert(step(calls[i], states[i], states[i + 1]));
    assert(step(calls[j], states[j], states[j + 1]));
    law_news_come_with_the_key(calls[i], states[i], states[i + 1]);
    law_news_come_with_the_key(calls[j], states[j], states[j + 1]);
}

/// A manager that starts with a key tells the network of it, and then no call does, whatever
/// calls come.
pub proof fn law_key_at_start_is_announced_once(
    epoch: EpochId,
    rows: StoredRows,
    calls: Seq<Call>,
    states: Seq<Progress>,
    i: int,
)
    requires
        run(calls, states),
        0 <= i < calls.len(),
        states[0].state == restored(states[0].state.authority_info, states[0].state.party, rows),
        rows.dkg_output is Some,
    ensures
        restored_update(
            epoch,
            states[0].state.authority_info,
            states[0].state.party@.threshold,
            rows,
        ) is Some,
        news_given(calls[i]) is None,
{
    law_settled_for_good(calls, states, 0, i);
    assert(step(calls[i], states[i], states[i + 1]));
    law_news_come_with_the_key(calls[i], states[i], states[i + 1]);
}

/// Key generation ends with a key only when those who confirmed together have the weight that
/// it takes, and only for a party that has confirmed.
pub proof fn law_succeeds_with_enough_confirmations(call: Call, before: Progress, after: Progress)
    requires
        step(call, before, after),
        !before.state.successful(),
        after.state.successful(),
    ensures
        before.state.confirmed(),
        after.state.confirmations == before.state.confirmations,
        enough_confirmed(before.state.party@, values_in_order(before.state.confirmations)),
{
}

/// Whether those who confirmed have enough weight, and nobody complains.
pub open spec fn agreed(state: DkgState) -> bool {
    &&& enough_confirmed(state.party@, values_in_order(state.confirmations))
    &&& undisputed(state.party@.weights, values_in_order(state.confirmations))
}

/// Without complaints, nobody is left out.
proof fn lemma_nobody_left_out(
    weights: Seq<u16>,
    confirmations: Seq<Confirmation>,
    excluded: Set<PartyId>,
)
    requires
        undisputed(weights, confirmations),
        settles(weights, confirmations, excluded),
    ensures
        excluded =~= Set::<PartyId>::empty(),
{
    assert forall|id: PartyId| !excluded.contains(id) by {
        if excluded.contains(id) {
            let i = choose|i: int|
                #![trigger confirmations[i]]
                counts(weights, confirmations, i) && {
                    ||| accuses(confirmations[i]@, id)
                    ||| confirmations[i]@.sender == id && confirmations[i]@.complaints.len() > 0
                };
            assert(confirmations[i]@.complaints.len() == 0);
        }
    }
}

/// If nobody is left out, every message stands.
proof fn lemma_all_stand(messages: Seq<ProcessedMessage>)
    ensures
        standing(messages, Set::empty()) == messages,
    decreases messages.len(),
{
    if messages.len() > 0 {
        lemma_all_stand(messages.drop_last());
        assert(messages.drop_last().push(messages.last()) =~= messages);
    }
}

/// Without complaints, what completing the protocol gives is what aggregating all messages does.
pub proof fn lemma_undisputed_completion(
    party: PartyView,
    used: Seq<ProcessedMessage>,
    confirmations: Seq<Confirmation>,
    result: Result<Output, DkgError>,
)
    requires
        complete_outcome(party, used, confirmations, result),
        enough_confirmed(party, confirmations),
        undisputed(party.weights, confirmations),
    ensures
        aggregate_outcome(party, used, result),
{
    let excluded = choose|excluded: Set<PartyId>| #[trigger]
        settles(party.weights, confirmations, excluded) && aggregate_outcome(
            party,
            standing(used, excluded),
            result,
        );
    lemma_nobody_left_out(party.weights, confirmations, excluded);
    lemma_all_stand(used);
}

/// Once a party has confirmed, with some messages, and enough others have without a complaint,
/// key generation ends with a key as soon as the party is asked to advance: even if time has run
/// out meanwhile, and even if the key cannot be stored.
pub proof fn law_enough_confirmations_succeed(
    before: Progress,
    epoch_store: EpochStore,
    round: Round,
    now: Millis,
    after: Progress,
    action: DkgActionView,
)
    requires
        before.state.confirmed() && !before.state.closed(),
        before.state.used_messages->0@.len() > 0,
        agreed(before.state),
        advancing(before, Some(&epoch_store), round, now, after, action),
    ensures
        after.state.successful(),
        action matches DkgActionView::Return { update: Some(update), .. } && {
            &&& update.epoch == epoch_store.epoch
            &&& after.state.dkg_output == Some(Some(update.output))
            &&& update.threshold == before.state.party@.threshold
            &&& update.output@.public_key == combined_key(
                commitments_of(before.state.used_messages->0@),
            )
        },
{
    let completed = choose|completed: Result<Output, DkgError>| #[trigger]
        complete_outcome(
            before.state.party@,
            before.state.used_messages->0@,
            values_in_order(before.state.confirmations),
            completed,
        ) && (after, action) == finished(before, epoch_store, round, now, completed);
    lemma_undisputed_completion(
        before.state.party@,
        before.state.used_messages->0@,
        values_in_order(before.state.confirmations),
        completed,
    );
}

/// Two parties that have confirmed the same dealers' commitments, and see enough confirmations
/// without a complaint, end with the same public key.
pub proof fn law_parties_agree(
    one: Progress,
    other: Progress,
    epoch_store: EpochStore,
    other_store: EpochStore,
    round: Round,
    other_round: Round,
    now: Millis,
    other_now: Millis,
    after: Progress,
    other_after: Progress,
    action: DkgActionView,
    other_action: DkgActionView,
)
    requires
        one.state.confirmed() && !one.state.closed(),
        other.state.confirmed() && !other.state.closed(),
        one.state.used_messages->0@.len() > 0,
        commitments_of(one.state.used_messages->0@) == commitments_of(
            other.state.used_messages->0@,
        ),
        agreed(one.state),
        agreed(other.state),
        advancing(one, Some(&epoch_store), round, now, after, action),
        advancing(other, Some(&other_store), other_round, other_now, other_after, other_action),
    ensures
        after.state.dkg_output matches Some(Some(output))
            && other_after.state.dkg_output matches Some(Some(other_output))
            && output@.public_key == other_output@.public_key,
{
    assert(commitments_of(one.state.used_messages->0@).len() == one.state.used_messages->0@.len());
    law_enough_confirmations_succeed(one, epoch_store, round, now, after, action);
    law_enough_confirmations_succeed(
        other,
        other_store,
        other_round,
        other_now,
        other_after,
        other_action,
    );
}

// ---------------------------------------------------------------------------------------------
// Running out of time
// ---------------------------------------------------------------------------------------------

impl<'a> Call<'a> {
    /// Whether this is a call to advance key generation, or to go on with that, after the last
    /// round for it.
    pub open spec fn advances_late(self) -> bool {
        match self {
            Call::AdvanceDkg { store: Some(epoch_store), round, .. } => round
                > epoch_store.dkg_timeout_round,
            Call::ConfirmationSubmitted { epoch_store, round, .. } => round
                > epoch_store.dkg_timeout_round,
            _ => false,
        }
    }

    /// Whether this is a call to advance key generation, or to go on with that, which has
    /// returned without an error.
    pub open spec fn has_advanced(self) -> bool {
        match self {
            Call::AdvanceDkg { action: DkgActionView::Return { result, .. }, .. } => result is Ok,
            Call::ConfirmationSubmitted { action: DkgActionView::Return { result, .. }, .. } =>
                result is Ok,
            _ => false,
        }
    }
}

/// After the last round for it, key generation is over once a call to advance it has returned
/// without an error.
pub proof fn law_over_after_last_round(call: Call, before: Progress, after: Progress)
    requires
        step(call, before, after),
        call.advances_late(),
        call.has_advanced(),
    ensures
        after.state.closed(),
{
}

/// Key generation fails only in a call to advance it after the last round for it, and the gauge
/// shows it; before that, it is over only with a key.
pub proof fn law_fails_only_late(call: Call, before: Progress, after: Progress)
    requires
        step(call, before, after),
        !before.state.closed(),
        after.state.closed(),
        !after.state.successful(),
    ensures
        call.advances_late(),
        call.has_advanced(),
        after.metrics.epoch_random_beacon_dkg_failed == 1,
{
}

// ---------------------------------------------------------------------------------------------
// Numbering rounds
// ---------------------------------------------------------------------------------------------

/// How many of some calls reserve a round.
pub open spec fn reservations(calls: Seq<Call>) -> nat
    decreases calls.len(),
{
    if calls.len() == 0 {
        0
    } else {
        reservations(calls.drop_last()) + if calls.last() is ReserveNextRandomness {
            1nat
        } else {
            0
        }
    }
}

/// The next round goes up by one with every reservation and with nothing else, so that rounds
/// are given out without a gap.
pub proof fn law_rounds_are_consecutive(calls: Seq<Call>, states: Seq<Progress>)
    requires
        run(calls, states),
    ensures
        states.last().state.next_randomness_round.0 == states[0].state.next_randomness_round.0
            + reservations(calls),
    decreases calls.len(),
{
    if calls.len() > 0 {
        let n = calls.len() - 1;
        assert(run(calls.drop_last(), states.drop_last())) by {
            assert forall|i: int| 0 <= i < n implies step(
                #[trigger] calls.drop_last()[i],
                states.drop_last()[i],
                states.drop_last()[i + 1],
            ) by {
                assert(step(calls[i], states[i], states[i + 1]));
            }
        }
        law_rounds_are_consecutive(calls.drop_last(), states.drop_last());
        assert(step(calls[n], states[n], states[n + 1]));
    }
}

/// The round that a call gives out, if it does.
pub open spec fn round_given(call: Call) -> Option<RandomnessRound> {
    match call {
        Call::ReserveNextRandomness { reserved: Ok(round), .. } => Some(round),
        _ => None,
    }
}

/// A reservation gives the next round, and whatever calls come, no round is given twice: a later
/// reservation gives a later round.
pub proof fn law_rounds_are_given_once(calls: Seq<Call>, states: Seq<Progress>, i: int, j: int)
    requires
        run(calls, states),
        0 <= i < j < calls.len(),
        round_given(calls[i]) is Some,
        round_given(calls[j]) is Some,
    ensures
        round_given(calls[i])->0 == states[i].state.next_randomness_round,
        (round_given(calls[i])->0).0 < (round_given(calls[j])->0).0,
{
    law_settled_for_good(calls, states, i + 1, j);
    assert(step(calls[i], states[i], states[i + 1]));
    assert(step(calls[j], states[j], states[j + 1]));
}

// ---------------------------------------------------------------------------------------------
// Starting again
// ---------------------------------------------------------------------------------------------

/// Whether tables hold what a manager in some state has to find there when it starts again: the
/// next round; and the key, if there is one, or else what was collected for it.
pub open spec fn in_step(state: DkgState, tables: Tables) -> bool {
    &&& state.next_randomness_round == match singleton(tables.randomness_next_round) {
        Some(round) => round,
        None => RandomnessRound(0),
    }
    &&& match singleton(tables.dkg_output) {
        Some(output) => state.dkg_output == Some(Some(output)),
        None => {
            &&& !state.successful()
            &&& tables.dkg_processed_messages == state.processed_messages
            &&& singleton(tables.dkg_used_messages) == state.used_messages
            &&& tables.dkg_confirmations == state.confirmations
        },
    }
}

impl<'a> Call<'a> {
    /// Whether a call ended with an error because the tables could not be had or the batch
    /// refused a write, after it had changed the state.
    pub open spec fn writes_lost(self) -> bool {
        match self {
            Call::StartDkg { .. } => false,
            Call::AddMessage { result, .. } => result is Err,
            Call::AddConfirmation { result, .. } => result is Err,
            Call::AdvanceDkg { store, action, .. } => {
                &&& store is Some
                &&& action matches DkgActionView::Return { result: Err(_), .. }
            },
            Call::ConfirmationSubmitted { submitted, action, .. } => {
                &&& submitted is Ok
                &&& action matches DkgActionView::Return { result: Err(_), .. }
            },
            Call::ReserveNextRandomness { reserved, .. } => reserved is Err,
        }
    }
}

/// The tables after a batch to which a write was added.
proof fn lemma_after_push(tables: Tables, batch: Seq<TableWrite>, write: TableWrite)
    ensures
        tables.after_all(batch.push(write)) == tables.after_all(batch).after(write),
{
    assert(batch.push(write).drop_last() =~= batch);
}

/// The tables after the writes that some call added, of which there are at most two.
proof fn lemma_call_writes(call: Call, before: Progress, after: Progress, tables: Tables)
    requires
        step(call, before, after),
    ensures
        before.batch.writes.is_prefix_of(after.batch.writes),
        ({
            let n = before.batch.writes.len() as int;
            let writes = after.batch.writes;
            let held = tables.after_all(before.batch.writes);
            tables.after_all(writes) == if writes.len() == n {
                held
            } else if writes.len() == n + 1 {
                held.after(writes[n])
            } else {
                held.after(writes[n]).after(writes[n + 1])
            }
        }),
{
    let n = before.batch.writes.len() as int;
    let writes = after.batch.writes;
    if writes.len() == n + 1 {
        assert(writes =~= before.batch.writes.push(writes[n]));
        lemma_after_push(tables, before.batch.writes, writes[n]);
    } else if writes.len() == n + 2 {
        let first = before.batch.writes.push(writes[n]);
        assert(writes =~= first.push(writes[n + 1]));
        lemma_after_push(tables, before.batch.writes, writes[n]);
        lemma_after_push(tables, first, writes[n + 1]);
    } else {
        assert(writes =~= before.batch.writes);
    }
}

/// A manager starts in step with tables from which it was restored.
pub proof fn law_restored_in_step(state: DkgState, rows: StoredRows, tables: Tables)
    requires
        rows.read_from(tables),
        state == restored(state.authority_info, state.party, rows),
    ensures
        in_step(state, tables),
{
}

/// A batch only grows. If it is written, then the tables stay in step with the manager, through
/// every call in which no write was lost.
pub proof fn law_batch_keeps_step(call: Call, before: Progress, after: Progress, tables: Tables)
    requires
        step(call, before, after),
        in_step(before.state, tables.after_all(before.batch.writes)),
        !call.writes_lost(),
    ensures
        before.batch.writes.is_prefix_of(after.batch.writes),
        in_step(after.state, tables.after_all(after.batch.writes)),
{
    lemma_call_writes(call, before, after, tables);
}

/// Whatever calls come in which no write is lost, the tables are in step with the manager once
/// the batch is written.
pub proof fn law_run_keeps_step(calls: Seq<Call>, states: Seq<Progress>, tables: Tables)
    requires
        run(calls, states),
        in_step(states[0].state, tables.after_all(states[0].batch.writes)),
        forall|i: int| 0 <= i < calls.len() ==> !(#[trigger] calls[i]).writes_lost(),
    ensures
        in_step(states.last().state, tables.after_all(states.last().batch.writes)),
    decreases calls.len(),
{
    if calls.len() > 0 {
        let n = calls.len() - 1;
        assert(run(calls.drop_last(), states.drop_last())) by {
            assert forall|i: int| 0 <= i < n implies step(
                #[trigger] calls.drop_last()[i],
                states.drop_last()[i],
                states.drop_last()[i + 1],
            ) by {
                assert(step(calls[i], states[i], states[i + 1]));
            }
        }
        assert forall|i: int| 0 <= i < n implies !(
        #[trigger] calls.drop_last()[i]).writes_lost() by {
            assert(!calls[i].writes_lost());
        }
        law_run_keeps_step(calls.drop_last(), states.drop_last(), tables);
        assert(step(calls[n], states[n], states[n + 1]));
        law_batch_keeps_step(calls[n], states[n], states[n + 1], tables);
    }
}

/// The tables stay in step when a completed round is removed from the pending ones.
pub proof fn law_completing_keeps_step(state: DkgState, tables: Tables, round: RandomnessRound)
    requires
        in_step(state, tables),
    ensures
        in_step(state, tables.without_pending(round)),
{
}

/// What a manager has forgotten when it starts again: when key generation began, that it failed,
/// and, if it ended with a key, how.
pub open spec fn forgetful(state: DkgState) -> DkgState {
    if state.successful() {
        DkgState {
            dkg_start_time: None,
            processed_messages: Map::empty(),
            used_messages: None,
            confirmations: Map::empty(),
            ..state
        }
    } else {
        DkgState { dkg_start_time: None, dkg_output: None, ..state }
    }
}

/// A manager that starts again from tables in step with it goes on where it was: it is in the
/// same state, but for what it forgets.
pub proof fn law_restart_goes_on(state: DkgState, rows: StoredRows, tables: Tables)
    requires
        state.well_formed(),
        in_step(state, tables),
        rows.read_from(tables),
    ensures
        restored(state.authority_info, state.party, rows) == forgetful(state),
{
}

/// A manager that could start from an epoch's setup can start from it again while the epoch's
/// tables can be had, whatever they hold.
pub proof fn law_can_restart(
    first_store: Option<&EpochStore>,
    store: Option<&EpochStore>,
    setup: EpochSetup,
    private_key: Seq<u8>,
)
    requires
        can_start(first_store, setup, private_key),
        tables_of(store) is Ok,
    ensures
        can_start(store, setup, private_key),
{
}

/// What is genuine, or of the authorities, is still so after a restart.
pub proof fn law_restart_keeps_what_is_filed(state: DkgState)
    ensures
        state.genuine() ==> forgetful(state).genuine(),
        state.messages_of_authorities() ==> forgetful(state).messages_of_authorities(),
        state.confirmations_of_authorities() ==> forgetful(state).confirmations_of_authorities(),
{
    assert forall|id: PartyId| state.has_authority(id) implies #[trigger] forgetful(
        state,
    ).has_authority(id) by {
        let authority = choose|authority: Seq<u8>| state.speaks_for(authority, id);
        assert(forgetful(state).speaks_for(authority, id));
    }
}

/// A reservation makes its round pending once the batch is written, even if the batch then refuses
/// the next round and the reservation fails. No other call makes a round pending, and no call
/// makes a round other than pending.
pub proof fn law_reserved_is_pending(call: Call, before: Progress, after: Progress, tables: Tables)
    requires
        step(call, before, after),
    ensures
        ({
            let pending = tables.after_all(before.batch.writes).randomness_rounds_pending;
            let later = tables.after_all(after.batch.writes).randomness_rounds_pending;
            let round = before.state.next_randomness_round;
            &&& round_given(call) is Some ==> round_given(call) == Some(round)
            &&& round_given(call) is Some ==> later == pending.insert(round)
            &&& later == pending || (later == pending.insert(round)
                && call is ReserveNextRandomness)
        }),
{
    lemma_call_writes(call, before, after, tables);
}

/// Whether all pending rounds have been given out already.
pub open spec fn pending_given(state: DkgState, tables: Tables) -> bool {
    forall|round: RandomnessRound| #[trigger]
        tables.randomness_rounds_pending.contains(round) ==> round.0
            < state.next_randomness_round.0
}

/// If all pending rounds have been given out already, then that stays so, and a reservation gives
/// a round that is not pending.
pub proof fn law_pending_stay_given(call: Call, before: Progress, after: Progress, tables: Tables)
    requires
        step(call, before, after),
        pending_given(before.state, tables.after_all(before.batch.writes)),
    ensures
        pending_given(after.state, tables.after_all(after.batch.writes)),
        round_given(call) matches Some(round) ==> !tables.after_all(
            before.batch.writes,
        ).randomness_rounds_pending.contains(round),
{
    law_reserved_is_pending(call, before, after, tables);
    law_call_keeps_settled(call, before, after);
}

/// A manager that starts has partial signatures sent for exactly the rounds that are pending:
/// those that were reserved in a batch that was written, and have not been completed.
pub proof fn law_resumes_what_is_pending(
    epoch: EpochId,
    rows: StoredRows,
    tables: Tables,
    round: RandomnessRound,
)
    requires
        rows.read_from(tables),
    ensures
        resumed(epoch, rows.randomness_rounds_pending@).contains(
            RoundAction::SendPartialSignatures(epoch, round),
        ) <==> tables.randomness_rounds_pending.contains(round),
{
    let pending = rows.randomness_rounds_pending@;
    let actions = resumed(epoch, pending);
    if pending.contains(round) {
        let i = choose|i: int| 0 <= i < pending.len() && pending[i] == round;
        assert(actions[i] == RoundAction::SendPartialSignatures(epoch, round));
    }
    if actions.contains(RoundAction::SendPartialSignatures(epoch, round)) {
        let i = choose|i: int|
            0 <= i < actions.len() && actions[i] == RoundAction::SendPartialSignatures(
                epoch,
                round,
            );
        assert(pending[i] == round);
    }
    assert(pending.to_set().contains(round) == pending.contains(round));
}

/// How often an action is among others.
pub open spec fn times(actions: Seq<RoundAction>, action: RoundAction) -> nat
    decreases actions.len(),
{
    if actions.len() == 0 {
        0
    } else {
        times(actions.drop_last(), action) + if actions.last() == action {
            1nat
        } else {
            0
        }
    }
}

/// Among different rounds, each is resumed once, and no other is.
proof fn lemma_resumed_times(
    epoch: EpochId,
    pending: Seq<RandomnessRound>,
    round: RandomnessRound,
)
    requires
        pending.no_duplicates(),
    ensures
        times(resumed(epoch, pending), RoundAction::SendPartialSignatures(epoch, round)) == (
        if pending.contains(round) {
            1nat
        } else {
            0
        }),
    decreases pending.len(),
{
    if pending.len() > 0 {
        let before = pending.drop_last();
        let actions = resumed(epoch, pending);
        assert(actions.drop_last() =~= resumed(epoch, before));
        lemma_resumed_times(epoch, before, round);
        assert(pending.contains(round) <==> before.contains(round) || pending.last() == round) by {
            if pending.contains(round) {
                let i = choose|i: int| 0 <= i < pending.len() && pending[i] == round;
                if i < before.len() {
                    assert(before[i] == round);
                }
            }
            if before.contains(round) {
                let i = choose|i: int| 0 <= i < before.len() && before[i] == round;
                assert(pending[i] == round);
            }
            assert(pending[pending.len() - 1] == pending.last());
        }
        assert(!(before.contains(round) && pending.last() == round)) by {
            if before.contains(round) {
                let i = choose|i: int| 0 <= i < before.len() && before[i] == round;
                assert(pending[i] != pending[pending.len() - 1]);
            }
        }
    }
}

/// A manager that starts has partial signatures sent exactly once for each pending round, and
/// for no other.
pub proof fn law_pending_is_resumed_once(
    epoch: EpochId,
    rows: StoredRows,
    tables: Tables,
    round: RandomnessRound,
)
    requires
        rows.read_from(tables),
    ensures
        times(
            resumed(epoch, rows.randomness_rounds_pending@),
            RoundAction::SendPartialSignatures(epoch, round),
        ) == (if tables.randomness_rounds_pending.contains(round) {
            1nat
        } else {
            0
        }),
{
    let pending = rows.randomness_rounds_pending@;
    lemma_resumed_times(epoch, pending, round);
    assert(pending.to_set().contains(round) == pending.contains(round));
}

/// Whatever calls come, the pending rounds are those from the start and those given out.
proof fn lemma_run_pending(
    calls: Seq<Call>,
    states: Seq<Progress>,
    tables: Tables,
    i: int,
    n: int,
)
    requires
        run(calls, states),
        0 <= i < n <= calls.len(),
        round_given(calls[i]) is Some,
    ensures
        tables.after_all(states[n].batch.writes).randomness_rounds_pending.contains(
            round_given(calls[i])->0,
        ),
    decreases n - i,
{
    assert(step(calls[n - 1], states[n - 1], states[n]));
    law_reserved_is_pending(calls[n - 1], states[n - 1], states[n], tables);
    if i < n - 1 {
        lemma_run_pending(calls, states, tables, i, n - 1);
    }
}

/// What becomes of the rounds that some calls reserve, if their batch is written, then one round
/// is completed, and then a manager starts from the tables: it goes on with the number after all
/// of them, the completed round is not resumed, and every other reserved round is, once.
pub proof fn law_written_reservations_survive(
    calls: Seq<Call>,
    states: Seq<Progress>,
    tables: Tables,
    completed: RandomnessRound,
    rows: StoredRows,
    epoch: EpochId,
    i: int,
)
    requires
        run(calls, states),
        in_step(states[0].state, tables.after_all(states[0].batch.writes)),
        forall|k: int| 0 <= k < calls.len() ==> !(#[trigger] calls[k]).writes_lost(),
        0 <= i < calls.len(),
        round_given(calls[i]) is Some,
        rows.read_from(tables.after_all(states.last().batch.writes).without_pending(completed)),
    ensures
        ({
            let round = round_given(calls[i])->0;
            let next = restored(
                states[0].state.authority_info,
                states[0].state.party,
                rows,
            ).next_randomness_round;
            &&& next == states.last().state.next_randomness_round
            &&& round.0 < next.0
            &&& times(
                resumed(epoch, rows.randomness_rounds_pending@),
                RoundAction::SendPartialSignatures(epoch, round),
            ) == (if round == completed {
                0nat
            } else {
                1
            })
        }),
{
    let n = calls.len() as int;
    let round = round_given(calls[i])->0;
    let written = tables.after_all(states.last().batch.writes);
    law_run_keeps_step(calls, states, tables);
    lemma_run_pending(calls, states, tables, i, n);
    law_pending_is_resumed_once(epoch, rows, written.without_pending(completed), round);
    law_settled_for_good(calls, states, i + 1, n);
    assert(step(calls[i], states[i], states[i + 1]));
}

/// What becomes of rounds that some calls reserve in a batch that is not written: a manager that
/// starts from the tables gives them out again, from the number at which the calls began, and
/// resumes none of them.
pub proof fn law_unwritten_reservations_are_gone(
    calls: Seq<Call>,
    states: Seq<Progress>,
    tables: Tables,
    rows: StoredRows,
    epoch: EpochId,
    i: int,
)
    requires
        run(calls, states),
        in_step(states[0].state, tables),
        pending_given(states[0].state, tables),
        0 <= i < calls.len(),
        round_given(calls[i]) is Some,
        rows.read_from(tables),
    ensures
        restored(
            states[0].state.authority_info,
            states[0].state.party,
            rows,
        ).next_randomness_round == states[0].state.next_randomness_round,
        times(
            resumed(epoch, rows.randomness_rounds_pending@),
            RoundAction::SendPartialSignatures(epoch, round_given(calls[i])->0),
        ) == 0,
{
    let round = round_given(calls[i])->0;
    law_settled_for_good(calls, states, 0, i);
    assert(step(calls[i], states[i], states[i + 1]));
    law_pending_is_resumed_once(epoch, rows, tables, round);
    assert(round.0 >= states[0].state.next_randomness_round.0);
}

/// Two reservations, one after the other, before a restart. If their batch is written and the
/// first round is completed, the manager goes on after the second round, has partial signatures
/// sent for it once, and for the first not at all. If the batch is not written, it goes on with
/// the first round, and resumes neither.
pub proof fn law_two_reservations_and_a_restart(
    before: Progress,
    between: Progress,
    after: Progress,
    store: Option<&EpochStore>,
    later_store: Option<&EpochStore>,
    first: RandomnessRound,
    second: RandomnessRound,
    tables: Tables,
    written: StoredRows,
    unwritten: StoredRows,
    epoch: EpochId,
)
    requires
        before.batch.writes.len() == 0,
        in_step(before.state, tables),
        pending_given(before.state, tables),
        step(
            Call::ReserveNextRandomness { store, reserved: Ok(first) },
            before,
            between,
        ),
        step(
            Call::ReserveNextRandomness { store: later_store, reserved: Ok(second) },
            between,
            after,
        ),
        written.read_from(tables.after_all(after.batch.writes).without_pending(first)),
        unwritten.read_from(tables),
    ensures
        ({
            let state = restored(before.state.authority_info, before.state.party, written);
            let actions = resumed(epoch, written.randomness_rounds_pending@);
            &&& state.next_randomness_round.0 == second.0 + 1
            &&& times(actions, RoundAction::SendPartialSignatures(epoch, second)) == 1
            &&& times(actions, RoundAction::SendPartialSignatures(epoch, first)) == 0
        }),
        ({
            let state = restored(before.state.authority_info, before.state.party, unwritten);
            let actions = resumed(epoch, unwritten.randomness_rounds_pending@);
            &&& state.next_randomness_round == first
            &&& times(actions, RoundAction::SendPartialSignatures(epoch, first)) == 0
            &&& times(actions, RoundAction::SendPartialSignatures(epoch, second)) == 0
        }),
{
    let calls = seq![
        Call::ReserveNextRandomness { store, reserved: Ok(first) },
        Call::ReserveNextRandomness { store: later_store, reserved: Ok(second) },
    ];
    let states = seq![before, between, after];
    assert(tables.after_all(before.batch.writes) == tables);
    law_written_reservations_survive(calls, states, tables, first, written, epoch, 0);
    law_written_reservations_survive(calls, states, tables, first, written, epoch, 1);
    law_unwritten_reservations_are_gone(calls, states, tables, unwritten, epoch, 0);
    law_unwritten_reservations_are_gone(calls, states, tables, unwritten, epoch, 1);
}

/// A round that was reserved without an error, in a batch that was written, is resumed when a
/// manager starts from these tables.
pub proof fn law_reserved_is_resumed(
    before: Progress,
    store: Option<&EpochStore>,
    after: Progress,
    round: RandomnessRound,
    epoch: EpochId,
    tables: Tables,
    rows: StoredRows,
)
    requires
        step(Call::ReserveNextRandomness { store, reserved: Ok(round) }, before, after),
        rows.read_from(tables.after_all(after.batch.writes)),
    ensures
        resumed(epoch, rows.randomness_rounds_pending@).contains(
            RoundAction::SendPartialSignatures(epoch, round),
        ),
{
    law_reserved_is_pending(
        Call::ReserveNextRandomness { store, reserved: Ok(round) },
        before,
        after,
        tables,
    );
    law_resumes_what_is_pending(epoch, rows, tables.after_all(after.batch.writes), round);
}

/// A round that is removed from the pending ones is not resumed.
pub proof fn law_completed_is_not_resumed(
    epoch: EpochId,
    rows: StoredRows,
    tables: Tables,
    round: RandomnessRound,
)
    requires
        rows.read_from(tables.without_pending(round)),
    ensures
        !resumed(epoch, rows.randomness_rounds_pending@).contains(
            RoundAction::SendPartialSignatures(epoch, round),
        ),
{
    law_resumes_what_is_pending(epoch, rows, tables.without_pending(round), round);
}

// ---------------------------------------------------------------------------------------------
// Telling epochs apart
// ---------------------------------------------------------------------------------------------

/// Different numbers look different in decimal.
proof fn lemma_decimal_is_unique(n: nat, m: nat)
    requires
        decimal(n) == decimal(m),
    ensures
        n == m,
    decreases n,
{
    lemma_decimal_not_empty(n / 10);
    lemma_decimal_not_empty(m / 10);
    if n >= 10 && m >= 10 {
        assert(decimal(n).drop_last() =~= decimal(n / 10));
        assert(decimal(m).drop_last() =~= decimal(m / 10));
        assert(decimal(n).last() == decimal_digit(n % 10));
        assert(decimal(m).last() == decimal_digit(m % 10));
        lemma_decimal_is_unique(n / 10, m / 10);
    } else if n < 10 && m < 10 {
        assert(decimal(n)[0] == decimal_digit(n));
        assert(decimal(m)[0] == decimal_digit(m));
    } else if n < 10 {
        assert(decimal(m) == decimal(m / 10).push(decimal_digit(m % 10)));
    } else {
        assert(decimal(n) == decimal(n / 10).push(decimal_digit(n % 10)));
    }
}

/// A number has a digit.
proof fn lemma_decimal_not_empty(n: nat)
    ensures
        decimal(n).len() >= 1,
    decreases n,
{
    if n >= 10 {
        lemma_decimal_not_empty(n / 10);
    }
}

/// Key generation of one epoch on one chain has an oracle prefix that no other has.
pub proof fn law_prefix_is_unique(
    one_chain: Seq<u8>,
    one_epoch: EpochId,
    other_chain: Seq<u8>,
    other_epoch: EpochId,
)
    requires
        one_chain.len() == 32,
        other_chain.len() == 32,
        dkg_prefix(one_chain, one_epoch) == dkg_prefix(other_chain, other_epoch),
    ensures
        one_chain == other_chain,
        one_epoch == other_epoch,
{
    reveal_strlit("dkg ");
    reveal_strlit(" ");
    let one = dkg_prefix(one_chain, one_epoch);
    let other = dkg_prefix(other_chain, other_epoch);
    assert forall|i: int| 0 <= i < 32 implies one_chain[i] == other_chain[i] by {
        assert(one[4 + 2 * i] == hex_of(one_chain)[2 * i]);
        assert(other[4 + 2 * i] == hex_of(other_chain)[2 * i]);
        assert(one[5 + 2 * i] == hex_of(one_chain)[2 * i + 1]);
        assert(other[5 + 2 * i] == hex_of(other_chain)[2 * i + 1]);
        assert(hex_of(one_chain)[2 * i] == hex_digit((one_chain[i] / 16) as u8));
        assert(hex_of(other_chain)[2 * i] == hex_digit((other_chain[i] / 16) as u8));
        assert(hex_of(one_chain)[2 * i + 1] == hex_digit((one_chain[i] % 16) as u8));
        assert(hex_of(other_chain)[2 * i + 1] == hex_digit((other_chain[i] % 16) as u8));
    }
    assert(one_chain =~= other_chain);
    assert(one.skip(69) =~= decimal(one_epoch as nat));
    assert(other.skip(69) =~= decimal(other_epoch as nat));
    lemma_decimal_is_unique(one_epoch as nat, other_epoch as nat);
}

} // verus!
