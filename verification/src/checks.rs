//! What is checked of messages and confirmations before the protocol is asked to go on with them.

use crate::dkg::{
    Confirmation, Party, ProcessedMessage, ProcessedSummary, UsedMessages, accused_in, accuses,
    among, can_be_accused, can_complete, confirmers_of, counts, enough_confirmed, joint_weight,
    sender_of, share_ids, summarizes, total, weight,
};
use crate::types::PartyId;
use vstd::prelude::*;

verus! {

/// Sum of the first `count` weights.
fn total_before(weights: &Vec<u16>, count: usize) -> (sum: u64)
    requires
        count <= weights@.len() <= 1000,
    ensures
        sum == total(weights@.take(count as int)),
{
    let mut sum: u64 = 0;
    let mut i: usize = 0;
    assert(total(weights@.take(0)) == 0);
    while i < count
        invariant
            i <= count <= weights@.len() <= 1000,
            sum == total(weights@.take(i as int)),
            sum <= i * 0xffff,
        decreases count - i,
    {
        assert(weights@.take(i + 1).drop_last() =~= weights@.take(i as int));
        sum = sum + weights[i] as u64;
        i = i + 1;
    }
    sum
}

/// The first weights do not weigh more than all of them.
proof fn lemma_total_take(weights: Seq<u16>, count: int)
    requires
        0 <= count <= weights.len(),
    ensures
        total(weights.take(count)) <= total(weights),
    decreases weights.len() - count,
{
    if count == weights.len() {
        assert(weights.take(count) =~= weights);
    } else {
        lemma_total_take(weights, count + 1);
        assert(weights.take(count + 1).drop_last() =~= weights.take(count));
    }
}

/// Whether the shares in a message are this party's.
fn has_own_shares(party: &Party, weights: &Vec<u16>, processed: &ProcessedMessage) -> (own: bool)
    requires
        party@.well_formed(),
        weights@ == party@.weights,
    ensures
        own == party@.has_own_shares(*processed),
{
    let summary: ProcessedSummary = processed.summary();
    let id: usize = party.id() as usize;
    let before: u64 = total_before(weights, id);
    let own: u64 = weights[id] as u64;
    proof {
        lemma_total_take(weights@, id + 1);
        assert(weights@.take(id + 1).drop_last() =~= weights@.take(id as int));
    }
    let ghost ids = share_ids(weights@, party@.id as int);
    let mut i: usize = 0;
    while i < summary.shares.len()
        invariant
            i <= summary.shares@.len(),
            summarizes(summary, *processed),
            ids == share_ids(weights@, party@.id as int),
            weights@ == party@.weights,
            own == weights@[party@.id as int],
            before == total(weights@.take(party@.id as int)),
            before + own <= u16::MAX,
            forall|j: int| 0 <= j < i ==> ids.contains((#[trigger] processed@.shares[j]).index),
        decreases summary.shares@.len() - i,
    {
        let share: u64 = summary.shares[i] as u64;
        assert(share == processed@.shares[i as int].index);
        if share <= before || share > before + own {
            proof {
                if ids.contains(processed@.shares[i as int].index) {
                    let k = choose|k: int| 0 <= k < ids.len() && ids[k] == share;
                    assert(ids[k] == (before + 1 + k) as u16);
                }
                assert(!party@.has_own_shares(*processed));
            }
            return false;
        }
        assert(ids.contains(processed@.shares[i as int].index)) by {
            let k = share - before - 1;
            assert(ids[k] == (before + 1 + k) as u16);
        }
        i = i + 1;
    }
    true
}

/// Whether an earlier confirmation has the same sender.
fn heard_before(confirmations: &Vec<&Confirmation>, i: usize) -> (heard: bool)
    requires
        i < confirmations@.len(),
    ensures
        heard == exists|j: int|
            0 <= j < i && (#[trigger] confirmations@[j])@.sender
                == confirmations@[i as int]@.sender,
{
    let sender: PartyId = confirmations[i].sender();
    let mut j: usize = 0;
    while j < i
        invariant
            j <= i < confirmations@.len(),
            sender == confirmations@[i as int]@.sender,
            forall|k: int| 0 <= k < j ==> (#[trigger] confirmations@[k])@.sender != sender,
        decreases i - j,
    {
        if confirmations[j].sender() == sender {
            assert(confirmations@[j as int]@.sender == sender);
            return true;
        }
        j = j + 1;
    }
    false
}

/// The weight of a party; none if there is no such party.
fn weight_of(weights: &Vec<u16>, id: PartyId) -> (found: u16)
    ensures
        found == weight(weights@, id),
{
    if (id as usize) < weights.len() {
        weights[id as usize]
    } else {
        0
    }
}

/// The weight of those who confirmed, each counted once.
fn confirmed_weight(weights: &Vec<u16>, confirmations: &Vec<&Confirmation>) -> (sum: u128)
    ensures
        sum == joint_weight(weights@, confirmers_of(confirmations@.unref())),
{
    let ghost ids = confirmers_of(confirmations@.unref());
    let mut sum: u128 = 0;
    let mut i: usize = 0;
    assert(ids.take(0) =~= Seq::<PartyId>::empty());
    while i < confirmations.len()
        invariant
            i <= confirmations@.len(),
            ids == confirmers_of(confirmations@.unref()),
            sum == joint_weight(weights@, ids.take(i as int)),
            sum <= i * 0xffff,
        decreases confirmations@.len() - i,
    {
        let sender: PartyId = confirmations[i].sender();
        let heard: bool = heard_before(confirmations, i);
        proof {
            let upto = ids.take(i + 1);
            assert(upto.drop_last() =~= ids.take(i as int));
            assert(upto.last() == sender);
            assert(heard == among(ids.take(i as int), sender)) by {
                if heard {
                    let j = choose|j: int|
                        0 <= j < i && (#[trigger] confirmations@[j])@.sender == sender;
                    assert(ids.take(i as int)[j] == sender);
                }
                if among(ids.take(i as int), sender) {
                    let j = choose|j: int| 0 <= j < i && ids.take(i as int)[j] == sender;
                    assert(confirmations@[j]@.sender == sender);
                }
            }
        }
        if !heard {
            sum = sum + weight_of(weights, sender) as u128;
        }
        i = i + 1;
    }
    assert(ids.take(i as int) =~= ids);
    sum
}

/// Whether a confirmation counts.
fn is_counted(weights: &Vec<u16>, confirmations: &Vec<&Confirmation>, i: usize) -> (counted: bool)
    requires
        i < confirmations@.len(),
    ensures
        counted == counts(weights@, confirmations@.unref(), i as int),
{
    let ghost all = confirmations@.unref();
    let heard: bool = heard_before(confirmations, i);
    proof {
        if heard {
            let j = choose|j: int|
                0 <= j < i && (#[trigger] confirmations@[j])@.sender
                    == confirmations@[i as int]@.sender;
            assert(all[j]@.sender == all[i as int]@.sender);
        } else {
            assert forall|j: int| 0 <= j < i implies (#[trigger] all[j])@.sender
                != all[i as int]@.sender by {
                assert(confirmations@[j]@.sender != confirmations@[i as int]@.sender);
            }
        }
    }
    !heard && weight_of(weights, confirmations[i].sender()) > 0
}

/// Whether a confirmation accuses a party.
fn is_accused(confirmation: &Confirmation, id: PartyId) -> (accused: bool)
    ensures
        accused == accuses(confirmation@, id),
{
    let ids: Vec<PartyId> = confirmation.accused();
    let mut i: usize = 0;
    while i < ids.len()
        invariant
            i <= ids@.len(),
            ids@ == accused_in(confirmation@),
            forall|k: int| 0 <= k < i ==> (#[trigger] confirmation@.complaints[k]).accused != id,
        decreases ids@.len() - i,
    {
        if ids[i] == id {
            assert(confirmation@.complaints[i as int].accused == id);
            return true;
        }
        i = i + 1;
    }
    false
}

/// Whether the complaints about a message that count can be looked into.
fn answerable(weights: &Vec<u16>, confirmations: &Vec<&Confirmation>, processed: &ProcessedMessage)
    -> (can: bool)
    ensures
        can == can_be_accused(weights@, confirmations@.unref(), *processed),
{
    let ghost all = confirmations@.unref();
    let summary: ProcessedSummary = processed.summary();
    let mut i: usize = 0;
    while i < confirmations.len()
        invariant
            i <= confirmations@.len(),
            all == confirmations@.unref(),
            summarizes(summary, *processed),
            forall|k: int|
                #![trigger all[k]]
                k < i && counts(weights@, all, k) && accuses(all[k]@, sender_of(*processed)) ==> {
                    &&& processed@.message@.coefficients >= 2
                    &&& processed@.message@.encryptions > all[k]@.sender
                },
        decreases confirmations@.len() - i,
    {
        assert(all[i as int] == *confirmations@[i as int]);
        if is_counted(weights, confirmations, i) && is_accused(confirmations[i], summary.sender) {
            let accuser: usize = confirmations[i].sender() as usize;
            if summary.coefficients < 2 || summary.encryptions <= accuser {
                return false;
            }
        }
        i = i + 1;
    }
    true
}

/// Whether the protocol can be completed, or is to wait.
pub(crate) fn completable(
    party: &Party,
    weights: &Vec<u16>,
    used: &UsedMessages,
    confirmations: &Vec<&Confirmation>,
) -> (can: bool)
    requires
        party@.well_formed(),
        weights@ == party@.weights,
    ensures
        can == can_complete(party@, used@, confirmations@.unref()),
{
    let required: u128 = 2 * (party.t() as u128) - 1;
    if confirmed_weight(weights, confirmations) < required {
        return true;
    }
    let messages: Vec<ProcessedMessage> = used.messages();
    let mut i: usize = 0;
    while i < messages.len()
        invariant
            i <= messages@.len(),
            messages@ == used@,
            party@.well_formed(),
            weights@ == party@.weights,
            enough_confirmed(party@, confirmations@.unref()),
            forall|j: int|
                0 <= j < i ==> {
                    &&& party@.has_own_shares(#[trigger] used@[j])
                    &&& can_be_accused(party@.weights, confirmations@.unref(), used@[j])
                },
        decreases messages@.len() - i,
    {
        let own: bool = has_own_shares(party, weights, &messages[i]);
        if !own || !answerable(weights, confirmations, &messages[i]) {
            assert(!(party@.has_own_shares(used@[i as int]) && can_be_accused(
                party@.weights,
                confirmations@.unref(),
                used@[i as int],
            )));
            return false;
        }
        i = i + 1;
    }
    true
}

} // verus!
