//! Tables that are keyed by party, and their values in the order of the keys.

use crate::types::PartyId;
use std::collections::BTreeMap;
use vstd::prelude::*;

verus! {

/// The values under keys below `bound`, in the order of the keys.
pub open spec fn values_below<V>(map: Map<PartyId, V>, bound: nat) -> Seq<V>
    decreases bound,
{
    if bound == 0 {
        Seq::empty()
    } else {
        let before = values_below(map, (bound - 1) as nat);
        let key = (bound - 1) as PartyId;
        if map.contains_key(key) {
            before.push(map[key])
        } else {
            before
        }
    }
}

/// All values of a map, in the order of the keys.
pub open spec fn values_in_order<V>(map: Map<PartyId, V>) -> Seq<V> {
    values_below(map, 0x1_0000)
}

/// The map that rows make when they are inserted one after another.
pub open spec fn map_of_rows<V>(rows: Seq<(PartyId, V)>) -> Map<PartyId, V>
    decreases rows.len(),
{
    if rows.len() == 0 {
        Map::empty()
    } else {
        map_of_rows(rows.drop_last()).insert(rows.last().0, rows.last().1)
    }
}

/// Whether no key occurs twice among rows.
pub open spec fn distinct_keys<V>(rows: Seq<(PartyId, V)>) -> bool {
    forall|i: int, j: int|
        0 <= i < j < rows.len() ==> (#[trigger] rows[i]).0 != (#[trigger] rows[j]).0
}

/// Of increasing keys, `count` lie below `bound`.
spec fn split_at(keys: Seq<PartyId>, bound: nat, count: nat) -> bool {
    &&& count <= keys.len()
    &&& forall|i: int| 0 <= i < count ==> (#[trigger] keys[i]) < bound
    &&& forall|i: int| count <= i < keys.len() ==> (#[trigger] keys[i]) >= bound
}

/// The keys of a map in increasing order lead to its values in order.
proof fn lemma_values_below<V>(map: Map<PartyId, V>, keys: Seq<PartyId>, bound: nat, count: nat)
    requires
        bound <= 0x1_0000,
        forall|i: int, j: int| 0 <= i < j < keys.len() ==> keys[i] < keys[j],
        forall|k: PartyId| keys.contains(k) <==> map.contains_key(k),
        split_at(keys, bound, count),
    ensures
        values_below(map, bound) == Seq::new(count, |i: int| map[keys[i]]),
    decreases bound,
{
    if bound == 0 {
        assert(values_below(map, bound) =~= Seq::new(count, |i: int| map[keys[i]])) by {
            if count > 0 {
                assert(keys[0] < 0);
            }
        }
    } else {
        let key = (bound - 1) as PartyId;
        if map.contains_key(key) {
            assert(keys.contains(key));
            let at = keys.index_of(key);
            assert(keys[at] == key);
            assert(at == count - 1) by {
                if at < count - 1 {
                    assert(keys[at] < keys[count - 1]);
                }
            }
            assert(split_at(keys, (bound - 1) as nat, (count - 1) as nat)) by {
                assert forall|i: int| 0 <= i < count - 1 implies (#[trigger] keys[i]) < bound
                    - 1 by {
                    assert(keys[i] < keys[at]);
                }
            }
            lemma_values_below(map, keys, (bound - 1) as nat, (count - 1) as nat);
            assert(values_below(map, bound) =~= Seq::new(count, |i: int| map[keys[i]]));
        } else {
            assert(split_at(keys, (bound - 1) as nat, count)) by {
                assert forall|i: int| 0 <= i < count implies (#[trigger] keys[i]) < bound - 1 by {
                    assert(keys.contains(keys[i]));
                }
            }
            lemma_values_below(map, keys, (bound - 1) as nat, count);
        }
    }
}

/// The values of a map, in the order of the keys.
pub fn values_of<V>(map: &BTreeMap<PartyId, V>) -> (values: Vec<&V>)
    ensures
        values@.unref() == values_in_order(map@),
{
    let mut values: Vec<&V> = Vec::new();
    let all = map.values();
    let ghost keys = choose|keys: Seq<PartyId>|
        {
            &&& vstd::std_specs::btree::increasing_seq(keys)
            &&& keys.to_set() == map@.dom()
            &&& keys.no_duplicates()
            &&& vstd::std_specs::iter::IteratorSpec::remaining(&all) == keys.map(
                |i: int, k| &map@[k],
            )
        };
    proof {
        assert(vstd::laws_cmp::obeys_cmp::<PartyId>());
        assert(forall|k: PartyId| keys.contains(k) <==> keys.to_set().contains(k));
        assert(vstd::std_specs::btree::increasing_seq(keys));
        assert forall|i: int, j: int| 0 <= i < j < keys.len() implies keys[i] < keys[j] by {
            assert(vstd::std_specs::cmp::OrdSpec::cmp_spec(&keys[i], &keys[j]) is Less);
        }
        lemma_values_below(map@, keys, 0x1_0000, keys.len());
    }
    for value in rest: all
        invariant
            rest.seq() == keys.map(|i: int, k| &map@[k]),
            values@ == rest.seq().take(rest.index()),
    {
        values.push(value);
    }
    assert(values@.unref() =~= values_in_order(map@));
    values
}

/// Puts a row into a map, in the place of one with the same key.
pub fn insert_row<V>(map: &mut BTreeMap<PartyId, V>, key: PartyId, value: V)
    ensures
        final(map)@ == old(map)@.insert(key, value),
{
    assert(vstd::laws_cmp::obeys_cmp::<PartyId>());
    map.insert(key, value);
}

} // verus!
