//! Lookup tables over the numbers that name nodes and sockets.

use vstd::prelude::*;
use std::collections::HashMap;

verus! {

broadcast use vstd::std_specs::hash::group_hash_axioms;

/// What a list of entries says of `key`: the value of the last entry under
/// that key, as a later entry replaces an earlier one.
pub open spec fn last_value(pairs: Seq<(u64, u64)>, key: u64) -> Option<u64>
    decreases pairs.len(),
{
    if pairs.len() == 0 {
        None
    } else if pairs.last().0 == key {
        Some(pairs.last().1)
    } else {
        last_value(pairs.drop_last(), key)
    }
}

/// What a table says of `key`.
pub open spec fn table_value(table: Map<u64, u64>, key: u64) -> Option<u64> {
    if table.contains_key(key) {
        Some(table[key])
    } else {
        None
    }
}

/// Whether a table says of every key what the list of entries says.
pub open spec fn indexes(table: Map<u64, u64>, pairs: Seq<(u64, u64)>) -> bool {
    forall|key: u64| #[trigger] table_value(table, key) == last_value(pairs, key)
}

/// A value that the entries give is the value of one of them.
pub proof fn lemma_last_value_is_entry(pairs: Seq<(u64, u64)>, key: u64)
    requires
        last_value(pairs, key) is Some,
    ensures
        exists|i: int| 0 <= i < pairs.len() && #[trigger] pairs[i] == (key, last_value(pairs, key).unwrap()),
    decreases pairs.len(),
{
    if pairs.last().0 == key {
        assert(pairs[pairs.len() - 1] == (key, last_value(pairs, key).unwrap()));
    } else {
        lemma_last_value_is_entry(pairs.drop_last(), key);
        let i = choose|i: int|
            0 <= i < pairs.drop_last().len() && #[trigger] pairs.drop_last()[i] == (
                key,
                last_value(pairs.drop_last(), key).unwrap(),
            );
        assert(pairs[i] == pairs.drop_last()[i]);
    }
}

/// The table of the entries: one pass, after which every lookup takes one
/// step.
pub fn build_index(pairs: &Vec<(u64, u64)>) -> (table: HashMap<u64, u64>)
    ensures
        indexes(table@, pairs@),
{
    let mut table: HashMap<u64, u64> = HashMap::new();
    let mut i: usize = 0;
    assert(pairs@.take(0) =~= Seq::<(u64, u64)>::empty());
    assert forall|key: u64| #[trigger] table_value(table@, key) == last_value(pairs@.take(0), key) by {}
    while i < pairs.len()
        invariant
            i <= pairs@.len(),
            indexes(table@, pairs@.take(i as int)),
        decreases pairs@.len() - i,
    {
        let entry = pairs[i];
        let ghost before = table@;
        table.insert(entry.0, entry.1);
        proof {
            let done = pairs@.take(i as int);
            let next = pairs@.take(i + 1);
            assert(next.drop_last() =~= done);
            assert(next.last() == entry);
            assert forall|key: u64| #[trigger]
                table_value(table@, key) == last_value(next, key) by {
                assert(table_value(before, key) == last_value(done, key));
            }
        }
        i = i + 1;
    }
    assert(pairs@.take(i as int) =~= pairs@);
    table
}

/// What the table says of `key`.
pub fn lookup(table: &HashMap<u64, u64>, key: u64) -> (r: Option<u64>)
    ensures
        r == table_value(table@, key),
{
    match table.get(&key) {
        Some(v) => Some(*v),
        None => None,
    }
}

} // verus!
