//! What a manager starts from, in plain terms: the committee, the party made from it, and the rows
//! of the tables.

use crate::dkg::{
    Node, Party, divided_weight, encodes_private_key, encodes_public_key, has_node, hex_digit,
    hex_of, largest_divisor, lost_weight, may_divide, num_shares, public_key_of, total,
};
use crate::manager::{can_start, starts_as};
use crate::rows::{map_of_rows, values_below, values_in_order};
use crate::setup::{
    CommitteeMember, EpochSetup, authority_entries, can_be_party, decimal, decimal_digit, dkg_info,
    dkg_nodes, dkg_prefix, peer_map,
};
use crate::state::{
    AuthorityInfo, DkgState, EpochUpdateView, RoundAction, info_map, restored, restored_metrics,
    restored_update, resumed,
};
use crate::store::StoredRows;
use crate::types::{
    AuthorityName, DkgMetrics, EpochId, EpochStore, PartyId, PeerId, RandomnessRound,
};
use vstd::prelude::*;

verus! {

// ---------------------------------------------------------------------------------------------
// Rows
// ---------------------------------------------------------------------------------------------

/// The map that rows make has the keys of the rows, and of several rows with one key the last
/// counts.
pub proof fn law_last_row_counts<V>(rows: Seq<(PartyId, V)>)
    ensures
        forall|key: PartyId| #[trigger]
            map_of_rows(rows).contains_key(key) <==> exists|i: int|
                0 <= i < rows.len() && (#[trigger] rows[i]).0 == key,
        forall|i: int|
            0 <= i < rows.len() && (forall|j: int|
                i < j < rows.len() ==> (#[trigger] rows[j]).0 != rows[i].0) ==> map_of_rows(
                rows,
            )[(#[trigger] rows[i]).0] == rows[i].1,
    decreases rows.len(),
{
    if rows.len() > 0 {
        let before = rows.drop_last();
        let n = rows.len() - 1;
        law_last_row_counts(before);
        assert forall|key: PartyId| #[trigger]
            map_of_rows(rows).contains_key(key) <==> exists|i: int|
                0 <= i < rows.len() && (#[trigger] rows[i]).0 == key by {
            if map_of_rows(rows).contains_key(key) {
                if key == rows[n].0 {
                    assert(rows[n].0 == key);
                } else {
                    assert(map_of_rows(before).contains_key(key));
                    let i = choose|i: int| 0 <= i < before.len() && (#[trigger] before[i]).0 == key;
                    assert(rows[i].0 == key);
                }
            }
            if exists|i: int| 0 <= i < rows.len() && (#[trigger] rows[i]).0 == key {
                let i = choose|i: int| 0 <= i < rows.len() && (#[trigger] rows[i]).0 == key;
                if i < n {
                    assert(before[i].0 == key);
                    assert(map_of_rows(before).contains_key(key));
                }
            }
        }
        assert forall|i: int|
            0 <= i < rows.len() && (forall|j: int|
                i < j < rows.len() ==> (#[trigger] rows[j]).0 != rows[i].0) implies map_of_rows(
            rows,
        )[(#[trigger] rows[i]).0] == rows[i].1 by {
            if i < n {
                assert(rows[n].0 != rows[i].0);
                assert(before[i] == rows[i]);
                assert forall|j: int| i < j < before.len() implies (#[trigger] before[j]).0
                    != before[i].0 by {
                    assert(rows[j].0 != rows[i].0);
                }
            }
        }
    }
}

/// The keys of a map below a bound, in increasing order, with the values in that order.
proof fn lemma_keys_below<V>(map: Map<PartyId, V>, bound: nat) -> (keys: Seq<PartyId>)
    requires
        bound <= 0x1_0000,
    ensures
        forall|i: int, j: int| 0 <= i < j < keys.len() ==> keys[i] < keys[j],
        forall|k: PartyId| #[trigger] keys.contains(k) <==> map.contains_key(k) && k < bound,
        values_below(map, bound).len() == keys.len(),
        forall|i: int|
            0 <= i < keys.len() ==> #[trigger] values_below(map, bound)[i] == map[keys[i]],
    decreases bound,
{
    if bound == 0 {
        Seq::empty()
    } else {
        let below = lemma_keys_below(map, (bound - 1) as nat);
        let key = (bound - 1) as PartyId;
        if map.contains_key(key) {
            let keys = below.push(key);
            assert forall|i: int, j: int| 0 <= i < j < keys.len() implies keys[i] < keys[j] by {
                assert(below.contains(below[i]));
            }
            assert forall|k: PartyId| #[trigger] keys.contains(k) <==> map.contains_key(k) && k
                < bound by {
                if keys.contains(k) {
                    let i = choose|i: int| 0 <= i < keys.len() && keys[i] == k;
                    if i < below.len() {
                        assert(below.contains(below[i]));
                    }
                }
                if map.contains_key(k) && k < bound {
                    if k == key {
                        assert(keys[keys.len() - 1] == k);
                    } else {
                        assert(below.contains(k));
                        let i = choose|i: int| 0 <= i < below.len() && below[i] == k;
                        assert(keys[i] == k);
                    }
                }
            }
            assert forall|i: int| 0 <= i < keys.len() implies #[trigger] values_below(map, bound)[i]
                == map[keys[i]] by {
                if i < below.len() {
                    assert(values_below(map, bound)[i] == values_below(map, (bound - 1) as nat)[i]);
                }
            }
            keys
        } else {
            assert forall|k: PartyId| #[trigger] below.contains(k) <==> map.contains_key(k) && k
                < bound by {}
            below
        }
    }
}

/// The values of a map in order are those of all its keys, each once, by increasing key.
pub proof fn law_values_are_in_order<V>(map: Map<PartyId, V>) -> (keys: Seq<PartyId>)
    ensures
        forall|i: int, j: int| 0 <= i < j < keys.len() ==> keys[i] < keys[j],
        forall|k: PartyId| #[trigger] keys.contains(k) <==> map.contains_key(k),
        values_in_order(map).len() == keys.len(),
        forall|i: int| 0 <= i < keys.len() ==> #[trigger] values_in_order(map)[i] == map[keys[i]],
{
    lemma_keys_below(map, 0x1_0000)
}

// ---------------------------------------------------------------------------------------------
// Restoring
// ---------------------------------------------------------------------------------------------

/// A manager starts with the next round of the tables, or from zero, in every case. With a key in
/// the tables it starts with that, and with nothing that led to it; else with the messages, the
/// confirmations and the messages in use that the tables hold, and with key generation open.
pub proof fn law_what_a_manager_starts_with(
    authority_info: Map<Seq<u8>, (PeerId, PartyId)>,
    party: Party,
    rows: StoredRows,
)
    ensures
        ({
            let state = restored(authority_info, party, rows);
            &&& state.authority_info == authority_info
            &&& state.party == party
            &&& state.weights == party@.weights
            &&& state.dkg_start_time is None
            &&& rows.randomness_next_round is Some ==> state.next_randomness_round
                == rows.randomness_next_round->0
            &&& rows.randomness_next_round is None ==> state.next_randomness_round
                == RandomnessRound(0)
            &&& rows.dkg_output is Some ==> {
                &&& state.dkg_output == Some(Some(rows.dkg_output->0))
                &&& state.used_messages is None
                &&& forall|id: PartyId| !state.processed_messages.contains_key(id)
                &&& forall|id: PartyId| !state.confirmations.contains_key(id)
            }
            &&& rows.dkg_output is None ==> {
                &&& state.dkg_output is None
                &&& state.used_messages == rows.dkg_used_messages
                &&& state.processed_messages == map_of_rows(rows.dkg_processed_messages@)
                &&& state.confirmations == map_of_rows(rows.dkg_confirmations@)
            }
        }),
{
}

/// The rounds that are pending are resumed in the epoch, one after another and no others.
pub proof fn law_rounds_are_resumed_in_order(epoch: EpochId, pending: Seq<RandomnessRound>)
    ensures
        resumed(epoch, pending).len() == pending.len(),
        forall|i: int|
            0 <= i < pending.len() ==> #[trigger] resumed(epoch, pending)[i]
                == RoundAction::SendPartialSignatures(epoch, pending[i]),
{
}

/// At the start one gauge shows the number of shares of a key in the tables; without one, and
/// else, the gauges stay.
pub proof fn law_gauges_at_the_start(metrics: DkgMetrics, rows: StoredRows)
    ensures
        rows.dkg_output is None ==> restored_metrics(metrics, rows) == metrics,
        rows.dkg_output is Some ==> restored_metrics(metrics, rows) == (DkgMetrics {
            epoch_random_beacon_dkg_num_shares: num_shares(rows.dkg_output->0@) as i64,
            ..metrics
        }),
{
}

/// A key in the tables is announced at the start, with the epoch of the committee, the threshold
/// of the party and the authorities of the state; there is no other news at the start.
pub proof fn law_key_in_the_tables_is_announced(
    epoch: EpochId,
    authority_info: Map<Seq<u8>, (PeerId, PartyId)>,
    threshold: u16,
    rows: StoredRows,
)
    ensures
        rows.dkg_output is None ==> restored_update(epoch, authority_info, threshold, rows) is None,
        rows.dkg_output is Some ==> restored_update(epoch, authority_info, threshold, rows) == Some(
            EpochUpdateView { epoch, authority_info, output: rows.dkg_output->0, threshold },
        ),
{
}

// ---------------------------------------------------------------------------------------------
// The committee
// ---------------------------------------------------------------------------------------------

/// The peers that are known are those listed, and of several entries for one name the last counts.
pub proof fn law_last_peer_counts(entries: Seq<(AuthorityName, PeerId)>)
    ensures
        forall|name: Seq<u8>| #[trigger]
            peer_map(entries).contains_key(name) <==> exists|i: int|
                0 <= i < entries.len() && (#[trigger] entries[i]).0@ == name,
        forall|i: int|
            0 <= i < entries.len() && (forall|j: int|
                i < j < entries.len() ==> (#[trigger] entries[j]).0@ != entries[i].0@) ==> peer_map(
                entries,
            )[(#[trigger] entries[i]).0@] == entries[i].1,
    decreases entries.len(),
{
    if entries.len() > 0 {
        let before = entries.drop_last();
        let n = entries.len() - 1;
        law_last_peer_counts(before);
        assert forall|name: Seq<u8>| #[trigger]
            peer_map(entries).contains_key(name) <==> exists|i: int|
                0 <= i < entries.len() && (#[trigger] entries[i]).0@ == name by {
            if peer_map(entries).contains_key(name) {
                if name == entries[n].0@ {
                    assert(entries[n].0@ == name);
                } else {
                    assert(peer_map(before).contains_key(name));
                    let i = choose|i: int|
                        0 <= i < before.len() && (#[trigger] before[i]).0@ == name;
                    assert(entries[i].0@ == name);
                }
            }
            if exists|i: int| 0 <= i < entries.len() && (#[trigger] entries[i]).0@ == name {
                let i = choose|i: int|
                    0 <= i < entries.len() && (#[trigger] entries[i]).0@ == name;
                if i < n {
                    assert(before[i].0@ == name);
                    assert(peer_map(before).contains_key(name));
                }
            }
        }
        assert forall|i: int|
            0 <= i < entries.len() && (forall|j: int|
                i < j < entries.len() ==> (#[trigger] entries[j]).0@ != entries[i].0@)
            implies peer_map(entries)[(#[trigger] entries[i]).0@] == entries[i].1 by {
            if i < n {
                assert(entries[n].0@ != entries[i].0@);
                assert(before[i] == entries[i]);
                assert forall|j: int| i < j < before.len() implies (#[trigger] before[j]).0@
                    != before[i].0@ by {
                    assert(entries[j].0@ != entries[i].0@);
                }
            }
        }
    }
}

/// The authorities that are known are those listed, and of several entries for one name the last
/// counts.
pub proof fn law_last_authority_counts(entries: Seq<AuthorityInfo>)
    ensures
        forall|name: Seq<u8>| #[trigger]
            info_map(entries).contains_key(name) <==> exists|i: int|
                0 <= i < entries.len() && (#[trigger] entries[i]).name@ == name,
        forall|i: int|
            0 <= i < entries.len() && (forall|j: int|
                i < j < entries.len() ==> (#[trigger] entries[j]).name@ != entries[i].name@)
                ==> info_map(entries)[(#[trigger] entries[i]).name@] == (
                entries[i].peer_id,
                entries[i].party_id,
            ),
    decreases entries.len(),
{
    if entries.len() > 0 {
        let before = entries.drop_last();
        let n = entries.len() - 1;
        law_last_authority_counts(before);
        assert forall|name: Seq<u8>| #[trigger]
            info_map(entries).contains_key(name) <==> exists|i: int|
                0 <= i < entries.len() && (#[trigger] entries[i]).name@ == name by {
            if info_map(entries).contains_key(name) {
                if name == entries[n].name@ {
                    assert(entries[n].name@ == name);
                } else {
                    assert(info_map(before).contains_key(name));
                    let i = choose|i: int|
                        0 <= i < before.len() && (#[trigger] before[i]).name@ == name;
                    assert(entries[i].name@ == name);
                }
            }
            if exists|i: int| 0 <= i < entries.len() && (#[trigger] entries[i]).name@ == name {
                let i = choose|i: int|
                    0 <= i < entries.len() && (#[trigger] entries[i]).name@ == name;
                if i < n {
                    assert(before[i].name@ == name);
                    assert(info_map(before).contains_key(name));
                }
            }
        }
        assert forall|i: int|
            0 <= i < entries.len() && (forall|j: int|
                i < j < entries.len() ==> (#[trigger] entries[j]).name@ != entries[i].name@)
            implies info_map(entries)[(#[trigger] entries[i]).name@] == (
            entries[i].peer_id,
            entries[i].party_id,
        ) by {
            if i < n {
                assert(entries[n].name@ != entries[i].name@);
                assert(before[i] == entries[i]);
                assert forall|j: int| i < j < before.len() implies (#[trigger] before[j]).name@
                    != before[i].name@ by {
                    assert(entries[j].name@ != entries[i].name@);
                }
            }
        }
    }
}

/// Key generation takes of each member its index, name, key and stake, in the order of the
/// members; a member can be a party if its index is a party id and its key a group element.
pub proof fn law_members_make_parties(members: Seq<CommitteeMember>, i: int)
    requires
        0 <= i < members.len(),
    ensures
        dkg_info(members).len() == members.len(),
        dkg_info(members)[i].0 == members[i].index as u16,
        dkg_info(members)[i].1 == members[i].name,
        dkg_info(members)[i].2 == members[i].public_key,
        dkg_info(members)[i].3 == members[i].stake,
        can_be_party(members[i]) <==> members[i].index < 0x1_0000 && encodes_public_key(
            members[i].public_key@,
        ),
{
}

/// Each member of a committee whose peers are listed is known by its name, with the peer that is
/// listed for it last and its index as its party; nobody else is known. Of several members with
/// one name the last counts.
pub proof fn law_authorities_are_the_members(setup: EpochSetup, i: int, j: int)
    requires
        0 <= i < setup.committee.members@.len(),
        forall|k: int|
            i < k < setup.committee.members@.len() ==> (
            #[trigger] setup.committee.members@[k]).name@ != setup.committee.members@[i].name@,
        0 <= j < setup.peer_ids@.len(),
        setup.peer_ids@[j].0@ == setup.committee.members@[i].name@,
        forall|k: int|
            j < k < setup.peer_ids@.len() ==> (#[trigger] setup.peer_ids@[k]).0@
                != setup.committee.members@[i].name@,
    ensures
        ({
            let known = info_map(authority_entries(setup.info(), peer_map(setup.peer_ids@)));
            let member = setup.committee.members@[i];
            &&& known.contains_key(member.name@)
            &&& known[member.name@] == (setup.peer_ids@[j].1, member.index as u16)
            &&& forall|name: Seq<u8>| #[trigger]
                known.contains_key(name) ==> exists|k: int|
                    0 <= k < setup.committee.members@.len() && (
                    #[trigger] setup.committee.members@[k]).name@ == name
        }),
{
    let members = setup.committee.members@;
    let peers = peer_map(setup.peer_ids@);
    let entries = authority_entries(setup.info(), peers);
    law_last_peer_counts(setup.peer_ids@);
    law_last_authority_counts(entries);
    assert forall|k: int| 0 <= k < members.len() implies (#[trigger] entries[k]).name
        == members[k].name && entries[k].party_id == members[k].index as u16 && entries[k].peer_id
        == peers[members[k].name@] by {
        law_members_make_parties(members, k);
        assert(setup.info()[k].1 == members[k].name);
    }
    assert(entries.len() == members.len());
    assert(entries[i].name@ == members[i].name@);
    assert forall|k: int| i < k < entries.len() implies (#[trigger] entries[k]).name@
        != entries[i].name@ by {
        assert(members[k].name@ != members[i].name@);
    }
    assert(peers[setup.peer_ids@[j].0@] == setup.peer_ids@[j].1);
    assert forall|name: Seq<u8>| #[trigger]
        info_map(entries).contains_key(name) implies exists|k: int|
        0 <= k < members.len() && (#[trigger] members[k]).name@ == name by {
        let k = choose|k: int| 0 <= k < entries.len() && (#[trigger] entries[k]).name@ == name;
        assert(members[k].name@ == name);
    }
}

/// When a manager starts with a key in its tables, the network is told of that key with the epoch
/// of the committee, the threshold of the party, and the peer and party of every member.
pub proof fn law_start_announces_the_key(
    setup: EpochSetup,
    rows: StoredRows,
    state: DkgState,
    i: int,
    j: int,
)
    requires
        state == restored(
            info_map(authority_entries(setup.info(), peer_map(setup.peer_ids@))),
            state.party,
            rows,
        ),
        rows.dkg_output is Some,
        0 <= i < setup.committee.members@.len(),
        forall|k: int|
            i < k < setup.committee.members@.len() ==> (
            #[trigger] setup.committee.members@[k]).name@ != setup.committee.members@[i].name@,
        0 <= j < setup.peer_ids@.len(),
        setup.peer_ids@[j].0@ == setup.committee.members@[i].name@,
        forall|k: int|
            j < k < setup.peer_ids@.len() ==> (#[trigger] setup.peer_ids@[k]).0@
                != setup.committee.members@[i].name@,
    ensures
        ({
            let update = restored_update(
                setup.committee.epoch,
                state.authority_info,
                setup.threshold(),
                rows,
            );
            let member = setup.committee.members@[i];
            &&& update is Some
            &&& update->0.epoch == setup.committee.epoch
            &&& update->0.output == rows.dkg_output->0
            &&& update->0.threshold == setup.threshold()
            &&& update->0.authority_info == state.authority_info
            &&& update->0.authority_info.contains_key(member.name@)
            &&& update->0.authority_info[member.name@] == (
                setup.peer_ids@[j].1,
                member.index as u16,
            )
        }),
{
    law_authorities_are_the_members(setup, i, j);
}

// ---------------------------------------------------------------------------------------------
// The party
// ---------------------------------------------------------------------------------------------

/// The party that a member makes has its index as id, its key, and its stake as weight.
pub proof fn law_node_of_a_member(setup: EpochSetup, i: int)
    requires
        0 <= i < setup.committee.members@.len(),
    ensures
        setup.nodes().len() == setup.committee.members@.len(),
        setup.nodes()[i].id == setup.committee.members@[i].index as u16,
        setup.nodes()[i].public_key == setup.committee.members@[i].public_key,
        setup.nodes()[i].weight == setup.committee.members@[i].stake as u16,
{
    law_members_make_parties(setup.committee.members@, i);
    assert(setup.info()[i].0 == setup.committee.members@[i].index as u16);
}

/// All members are valid if each has an index that is a party id, a key that is a group element, a
/// stake that can be a weight, and a peer that is listed.
pub proof fn law_when_members_are_valid(setup: EpochSetup)
    ensures
        setup.members_valid() <==> forall|i: int|
            0 <= i < setup.committee.members@.len() ==> {
                let member = #[trigger] setup.committee.members@[i];
                &&& member.index < 0x1_0000
                &&& encodes_public_key(member.public_key@)
                &&& member.stake < 0x1_0000
                &&& exists|j: int|
                    0 <= j < setup.peer_ids@.len() && (#[trigger] setup.peer_ids@[j]).0@
                        == member.name@
            },
{
    law_last_peer_counts(setup.peer_ids@);
    let members = setup.committee.members@;
    if setup.members_valid() {
        assert forall|i: int| 0 <= i < members.len() implies ({
            let member = #[trigger] members[i];
            &&& member.index < 0x1_0000
            &&& encodes_public_key(member.public_key@)
            &&& member.stake < 0x1_0000
            &&& exists|j: int|
                0 <= j < setup.peer_ids@.len() && (#[trigger] setup.peer_ids@[j]).0@ == member.name@
        }) by {
            assert(can_be_party(members[i]));
            assert(peer_map(setup.peer_ids@).contains_key(members[i].name@));
        }
    } else {
        let i = choose|i: int|
            0 <= i < members.len() && {
                let member = #[trigger] members[i];
                ||| !can_be_party(member)
                ||| member.stake > u16::MAX
                ||| !peer_map(setup.peer_ids@).contains_key(member.name@)
            };
        assert(0 <= i < members.len());
        let member = members[i];
        assert(!can_be_party(member) || member.stake > u16::MAX || !peer_map(
            setup.peer_ids@,
        ).contains_key(member.name@));
    }
}

/// Sum of the stakes of members, each divided by `d`.
pub open spec fn stakes(members: Seq<CommitteeMember>, d: nat) -> nat
    decreases members.len(),
{
    if members.len() == 0 {
        0
    } else {
        stakes(members.drop_last(), d) + members.last().stake as nat / d
    }
}

/// What division of the stakes of members by `d` loses.
pub open spec fn stakes_lost(members: Seq<CommitteeMember>, d: nat) -> nat
    decreases members.len(),
{
    if members.len() == 0 {
        0
    } else {
        stakes_lost(members.drop_last(), d) + members.last().stake as nat % d
    }
}

/// The weights of the nodes that members make are their stakes.
proof fn lemma_stakes(members: Seq<CommitteeMember>, d: nat)
    requires
        forall|i: int| 0 <= i < members.len() ==> (#[trigger] members[i]).stake <= u16::MAX,
    ensures
        divided_weight(dkg_nodes(dkg_info(members)), d) == stakes(members, d),
        lost_weight(dkg_nodes(dkg_info(members)), d) == stakes_lost(members, d),
    decreases members.len(),
{
    if members.len() > 0 {
        let nodes = dkg_nodes(dkg_info(members));
        assert(nodes.drop_last() =~= dkg_nodes(dkg_info(members.drop_last())));
        assert(members[members.len() - 1].stake <= u16::MAX);
        assert(nodes.last().weight == members.last().stake);
        assert forall|i: int| 0 <= i < members.len() - 1 implies (
        #[trigger] members.drop_last()[i]).stake <= u16::MAX by {
            assert(members[i].stake <= u16::MAX);
        }
        lemma_stakes(members.drop_last(), d);
    }
}

/// The weights of valid members are valid if there are between one and a thousand members, with
/// indexes from zero without a gap, whose stakes sum to a number that is not zero and fits into
/// sixteen bits, as the threshold does; and if the lower bound is at least one and at most that
/// sum.
pub proof fn law_when_weights_are_valid(setup: EpochSetup)
    requires
        setup.members_valid(),
    ensures
        ({
            let members = setup.committee.members@;
            let bound = setup.protocol_config.random_beacon_reduction_lower_bound;
            setup.weights_valid() <==> {
                &&& 1 <= members.len() <= 1000
                &&& forall|id: int|
                    0 <= id < members.len() ==> #[trigger] has_index(members, id)
                &&& setup.committee.validity_threshold < 0x1_0000
                &&& 1 <= bound <= stakes(members, 1) < 0x1_0000
            }
        }),
{
    let members = setup.committee.members@;
    assert forall|i: int| 0 <= i < members.len() implies (#[trigger] members[i]).stake
        <= u16::MAX && members[i].index <= u16::MAX by {
        assert(can_be_party(members[i]));
    }
    lemma_stakes(members, 1);
    assert forall|id: int| has_index(members, id) == #[trigger] has_node(setup.nodes(), id) by {
        if has_index(members, id) {
            let j = choose|j: int| 0 <= j < members.len() && (#[trigger] members[j]).index == id;
            law_node_of_a_member(setup, j);
            assert(setup.nodes()[j].id == id);
        }
        if has_node(setup.nodes(), id) {
            let j = choose|j: int|
                0 <= j < setup.nodes().len() && (#[trigger] setup.nodes()[j]).id == id;
            law_node_of_a_member(setup, j);
            assert(members[j].index == id);
        }
    }
    assert(setup.nodes().len() == members.len());
    if forall|id: int| 0 <= id < members.len() ==> #[trigger] has_index(members, id) {
        assert forall|id: int| 0 <= id < setup.nodes().len() implies #[trigger] has_node(
            setup.nodes(),
            id,
        ) by {
            assert(has_index(members, id));
        }
    }
    if setup.weights_valid() {
        assert forall|id: int| 0 <= id < members.len() implies #[trigger] has_index(
            members,
            id,
        ) by {
            assert(has_node(setup.nodes(), id));
        }
    }
}

/// Whether one of some members has an index.
pub open spec fn has_index(members: Seq<CommitteeMember>, index: int) -> bool {
    exists|j: int| 0 <= j < members.len() && (#[trigger] members[j]).index == index
}

/// Whether stakes may be divided by `d`: the sum of what is left is at least the lower bound, and
/// no more is lost than is allowed.
pub open spec fn divisible(setup: EpochSetup, d: nat) -> bool {
    &&& stakes(setup.committee.members@, d)
        >= setup.protocol_config.random_beacon_reduction_lower_bound
    &&& stakes_lost(setup.committee.members@, d)
        <= setup.protocol_config.random_beacon_reduction_allowed_delta
}

/// The largest divisor allowed is allowed, and no larger one is.
proof fn lemma_largest_divisor(nodes: Seq<Node>, delta: u16, bound: u16, d: nat)
    ensures
        ({
            let found = largest_divisor(nodes, delta, bound, d);
            &&& 1 <= found
            &&& found <= d || found == 1
            &&& found == 1 || may_divide(nodes, delta, bound, found)
            &&& forall|larger: nat|
                found < larger <= d ==> !#[trigger] may_divide(nodes, delta, bound, larger)
        }),
    decreases d,
{
    if d > 1 && !may_divide(nodes, delta, bound, d) {
        lemma_largest_divisor(nodes, delta, bound, (d - 1) as nat);
    }
}

/// Stakes are divided by the largest number up to forty that the parameters allow, and by one if
/// they allow none above.
pub proof fn law_divisor(setup: EpochSetup, larger: nat)
    requires
        setup.members_valid(),
        setup.weights_valid(),
    ensures
        1 <= setup.divisor() <= 40,
        setup.divisor() == 1 || divisible(setup, setup.divisor()),
        setup.divisor() < larger <= 40 ==> !divisible(setup, larger),
{
    let members = setup.committee.members@;
    let delta = setup.protocol_config.random_beacon_reduction_allowed_delta;
    let bound = setup.protocol_config.random_beacon_reduction_lower_bound as u16;
    assert forall|i: int| 0 <= i < members.len() implies (#[trigger] members[i]).stake
        <= u16::MAX by {
        assert(can_be_party(members[i]));
    }
    lemma_largest_divisor(setup.nodes(), delta, bound, 40);
    lemma_stakes(members, setup.divisor());
    lemma_stakes(members, larger);
    if setup.divisor() < larger <= 40 {
        assert(!may_divide(setup.nodes(), delta, bound, larger));
    }
}

/// The threshold of a party is that of the committee, divided as stakes are, and rounded up.
pub proof fn law_threshold(setup: EpochSetup)
    requires
        setup.members_valid(),
        setup.weights_valid(),
    ensures
        setup.threshold() * setup.divisor() >= setup.committee.validity_threshold,
        setup.committee.validity_threshold > 0 ==> (setup.threshold() - 1) * setup.divisor()
            < setup.committee.validity_threshold,
        setup.committee.validity_threshold == 0 ==> setup.threshold() == 0,
{
    law_divisor(setup, 1);
    let d = setup.divisor() as int;
    let t = setup.committee.validity_threshold as int;
    let q = (t + d - 1) / d;
    if t == 0 {
        assert((d - 1) / d == 0) by (nonlinear_arith)
            requires
                d >= 1,
        ;
        assert(0 * d == 0);
    } else {
        assert(q * d >= t && (q - 1) * d < t && 0 <= q <= t) by (nonlinear_arith)
            requires
                q == (t + d - 1) / d,
                d >= 1,
                t >= 1,
        ;
    }
}

/// For each party id there is a member with that index, whose key is the key and whose divided
/// stake is the weight of that party.
pub proof fn law_weights_and_keys(setup: EpochSetup, id: int) -> (j: int)
    requires
        setup.members_valid(),
        setup.weights_valid(),
        0 <= id < setup.committee.members@.len(),
    ensures
        setup.weights().len() == setup.committee.members@.len(),
        setup.public_keys().len() == setup.committee.members@.len(),
        0 <= j < setup.committee.members@.len(),
        setup.committee.members@[j].index == id,
        setup.weights()[id] == setup.committee.members@[j].stake as nat / setup.divisor(),
        setup.public_keys()[id] == setup.committee.members@[j].public_key@,
{
    law_divisor(setup, 1);
    law_node_of_a_member(setup, 0);
    assert(has_node(setup.nodes(), id));
    let j = choose|j: int|
        0 <= j < setup.nodes().len() && (#[trigger] setup.nodes()[j]).id == id;
    law_node_of_a_member(setup, j);
    assert(can_be_party(setup.committee.members@[j]));
    let stake = setup.committee.members@[j].stake as nat;
    let d = setup.divisor();
    assert(stake / d <= stake) by (nonlinear_arith)
        requires
            d >= 1,
    ;
    j
}

/// The holder of a private key can take part if it is one, some party has its public half as key,
/// and the threshold is at least one and at most half of the total weight.
pub proof fn law_who_can_take_part(setup: EpochSetup, private_key: Seq<u8>)
    ensures
        setup.can_take_part(private_key) <==> {
            &&& encodes_private_key(private_key)
            &&& exists|id: int|
                0 <= id < setup.public_keys().len() && #[trigger] setup.public_keys()[id]
                    == public_key_of(private_key)
            &&& setup.threshold() >= 1
            &&& 2 * setup.threshold() <= total(setup.weights())
        },
{
    let keys = setup.public_keys();
    let key = public_key_of(private_key);
    if keys.contains(key) {
        let id = choose|id: int| 0 <= id < keys.len() && keys[id] == key;
        assert(keys[id] == key);
    }
}

/// The party made from a setup is the first with the public half of the private key, and has the
/// weights, keys and threshold of the setup, the private key, and the oracle of the epoch.
pub proof fn law_party_of_a_setup(setup: EpochSetup, private_key: Seq<u8>, commitment: Seq<u8>)
    requires
        setup.members_valid(),
        setup.weights_valid(),
        setup.can_take_part(private_key),
    ensures
        ({
            let party = setup.party(private_key, commitment);
            &&& party.id < setup.public_keys().len()
            &&& setup.public_keys()[party.id as int] == public_key_of(private_key)
            &&& forall|id: int|
                0 <= id < party.id ==> #[trigger] setup.public_keys()[id] != public_key_of(
                    private_key,
                )
            &&& party.private_key == private_key
            &&& party.commitment == commitment
            &&& party.weights == setup.weights()
            &&& party.public_keys == setup.public_keys()
            &&& party.threshold == setup.threshold()
            &&& party.oracle_prefix == dkg_prefix(
                setup.chain_identifier@,
                setup.committee.epoch,
            )
        }),
{
    law_node_of_a_member(setup, 0);
    setup.public_keys().index_of_first_ensures(public_key_of(private_key));
}

/// A manager can start exactly if the store is there with its tables, members and weights are
/// valid, and the holder of the private key can take part; what the tables hold does not matter.
pub proof fn law_when_a_manager_can_start(
    store: Option<&EpochStore>,
    setup: EpochSetup,
    private_key: Seq<u8>,
)
    ensures
        can_start(store, setup, private_key) <==> {
            &&& store is Some
            &&& store->0.tables is Ok
            &&& setup.members_valid()
            &&& setup.weights_valid()
            &&& setup.can_take_part(private_key)
        },
{
}

/// A manager that starts has the party of the setup and its authorities; it goes on with the next
/// round, the key, or else what was collected for one, that the rows hold; it announces a key, and
/// no other news, with the epoch, the threshold and all authorities; it resumes each pending round
/// in the epoch of the committee, in order; and of the gauges only the number of shares moves,
/// with a key.
pub proof fn law_how_a_manager_starts(
    setup: EpochSetup,
    rows: StoredRows,
    private_key: Seq<u8>,
    before: DkgMetrics,
    state: DkgState,
    update: Option<EpochUpdateView>,
    rounds: Seq<RoundAction>,
    after: DkgMetrics,
)
    requires
        starts_as(setup, rows, private_key, before, state, update, rounds, after),
    ensures
        state.party@ == setup.party(private_key, state.party@.commitment),
        state.weights == state.party@.weights,
        state.authority_info == info_map(
            authority_entries(setup.info(), peer_map(setup.peer_ids@)),
        ),
        state.dkg_start_time is None,
        state.next_randomness_round.0 == (if rows.randomness_next_round is Some {
            (rows.randomness_next_round->0).0
        } else {
            0
        }),
        rows.dkg_output is Some ==> {
            &&& state.dkg_output == Some(Some(rows.dkg_output->0))
            &&& state.used_messages is None
            &&& forall|id: PartyId| !state.processed_messages.contains_key(id)
            &&& forall|id: PartyId| !state.confirmations.contains_key(id)
            &&& update == Some(
                EpochUpdateView {
                    epoch: setup.committee.epoch,
                    authority_info: state.authority_info,
                    output: rows.dkg_output->0,
                    threshold: state.party@.threshold,
                },
            )
            &&& after == (DkgMetrics {
                epoch_random_beacon_dkg_num_shares: num_shares(rows.dkg_output->0@) as i64,
                ..before
            })
        },
        rows.dkg_output is None ==> {
            &&& state.dkg_output is None
            &&& state.used_messages == rows.dkg_used_messages
            &&& state.processed_messages == map_of_rows(rows.dkg_processed_messages@)
            &&& state.confirmations == map_of_rows(rows.dkg_confirmations@)
            &&& update is None
            &&& after == before
        },
        rounds.len() == rows.randomness_rounds_pending@.len(),
        forall|i: int|
            0 <= i < rounds.len() ==> #[trigger] rounds[i] == RoundAction::SendPartialSignatures(
                setup.committee.epoch,
                rows.randomness_rounds_pending@[i],
            ),
{
}

// ---------------------------------------------------------------------------------------------
// The oracle prefix
// ---------------------------------------------------------------------------------------------

/// The number that decimal digits stand for.
pub open spec fn number(digits: Seq<char>) -> nat
    decreases digits.len(),
{
    if digits.len() == 0 {
        0
    } else {
        10 * number(digits.drop_last()) + (digits.last() as nat - '0' as nat) as nat
    }
}

/// A number in decimal is made of digits, stands for itself, and begins with a zero only if it is
/// zero.
pub proof fn law_decimal(n: nat)
    ensures
        decimal(n).len() > 0,
        number(decimal(n)) == n,
        forall|i: int|
            0 <= i < decimal(n).len() ==> '0' <= #[trigger] decimal(n)[i] && decimal(n)[i] <= '9',
        n > 0 ==> decimal(n)[0] != '0',
        n == 0 ==> decimal(n).len() == 1,
    decreases n,
{
    if n < 10 {
        assert(decimal(n).drop_last() =~= Seq::<char>::empty());
        assert(decimal(n).last() == decimal_digit(n));
        assert(number(Seq::<char>::empty()) == 0);
    } else {
        law_decimal(n / 10);
        assert(decimal(n).drop_last() =~= decimal(n / 10));
        assert(decimal(n).last() == decimal_digit(n % 10));
        assert(decimal(n)[0] == decimal(n / 10)[0]);
        assert forall|i: int| 0 <= i < decimal(n).len() implies '0' <= #[trigger] decimal(n)[i]
            && decimal(n)[i] <= '9' by {
            if i < decimal(n).len() - 1 {
                assert(decimal(n)[i] == decimal(n / 10)[i]);
            }
        }
    }
}

/// The oracle prefix of an epoch is the word for key generation, the chain in hexadecimal with two
/// digits for each byte, and the epoch in decimal, with spaces between them.
pub proof fn law_prefix_layout(chain_identifier: Seq<u8>, epoch: EpochId)
    requires
        chain_identifier.len() == 32,
    ensures
        ({
            let prefix = dkg_prefix(chain_identifier, epoch);
            &&& prefix.len() > 69
            &&& prefix[0] == 'd' && prefix[1] == 'k' && prefix[2] == 'g' && prefix[3] == ' '
            &&& forall|i: int|
                0 <= i < 32 ==> {
                    &&& prefix[4 + 2 * i] == hex_digit((#[trigger] chain_identifier[i] / 16) as u8)
                    &&& prefix[5 + 2 * i] == hex_digit((chain_identifier[i] % 16) as u8)
                }
            &&& prefix[68] == ' '
            &&& prefix.skip(69) == decimal(epoch as nat)
        }),
{
    reveal_strlit("dkg ");
    reveal_strlit(" ");
    law_decimal(epoch as nat);
    let prefix = dkg_prefix(chain_identifier, epoch);
    let hex = hex_of(chain_identifier);
    assert forall|i: int| 0 <= i < 32 implies {
        &&& prefix[4 + 2 * i] == hex_digit((#[trigger] chain_identifier[i] / 16) as u8)
        &&& prefix[5 + 2 * i] == hex_digit((chain_identifier[i] % 16) as u8)
    } by {
        assert(prefix[4 + 2 * i] == hex[2 * i]);
        assert(prefix[5 + 2 * i] == hex[2 * i + 1]);
    }
    assert(prefix.skip(69) =~= decimal(epoch as nat));
}

} // verus!
