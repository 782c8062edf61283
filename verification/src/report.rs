//! The final report: the accounts in the order of their client ids.

use itertools::Itertools;
use std::collections::HashMap;
use vstd::prelude::*;
use vstd::std_specs::iter::IteratorSpec;
use crate::record::{OutputRecord, SCALE};

verus! {

broadcast use vstd::std_specs::hash::group_hash_axioms;

/// Whether `rows` reports `records`: one row for each account, in strictly
/// ascending order of the client ids, each with the client's record.
pub open spec fn is_report(rows: Seq<(u16, OutputRecord)>, records: Map<u16, OutputRecord>) -> bool {
    &&& forall|i: int, j: int| 0 <= i < j < rows.len() ==> rows[i].0 < rows[j].0
    &&& forall|i: int|
        0 <= i < rows.len() ==> records.contains_key(#[trigger] rows[i].0) && rows[i].1
            == records[rows[i].0]
    &&& forall|client_id: u16| #[trigger]
        records.contains_key(client_id) ==> exists|i: int|
            0 <= i < rows.len() && #[trigger] rows[i].0 == client_id
}

/// The client ids of the accounts, each once, in no particular order.
pub fn client_ids(client_map: &HashMap<u16, OutputRecord>) -> (ids: Vec<u16>)
    ensures
        ids@.no_duplicates(),
        ids@.to_set() == client_map@.dom(),
{
    let mut ids: Vec<u16> = Vec::new();
    let ghost all = client_map.keys().remaining();
    for client_id in keys: client_map.keys()
        invariant
            keys.seq() == all,
            ids@.len() == keys.index(),
            forall|i: int| 0 <= i < ids@.len() ==> ids@[i] == *all[i],
    {
        ids.push(*client_id);
    }
    assert(ids@ =~= all.unref());
    ids
}

/// `Itertools::sorted` of the `itertools` crate, on client ids: the result
/// holds the same ids, each as often as before, in ascending order.
#[verifier::external_body]
fn sorted_ids(ids: Vec<u16>) -> (sorted: Vec<u16>)
    ensures
        sorted@.to_multiset() == ids@.to_multiset(),
        forall|i: int, j: int| 0 <= i <= j < sorted@.len() ==> sorted@[i] <= sorted@[j],
{
    ids.into_iter().sorted().collect()
}

/// The client ids of the accounts, each once, in ascending order.
pub fn sorted_client_ids(client_map: &HashMap<u16, OutputRecord>) -> (ids: Vec<u16>)
    ensures
        forall|i: int, j: int| 0 <= i < j < ids@.len() ==> ids@[i] < ids@[j],
        ids@.to_set() == client_map@.dom(),
{
    let unordered = client_ids(client_map);
    let ids = sorted_ids(unordered);
    proof {
        unordered@.to_multiset_ensures();
        ids@.to_multiset_ensures();
        unordered@.lemma_multiset_has_no_duplicates();
        ids@.lemma_multiset_has_no_duplicates_conv();
        assert forall|client_id: u16| ids@.to_set().contains(client_id) == unordered@.to_set().contains(
            client_id,
        ) by {
            assert(ids@.contains(client_id) == (ids@.to_multiset().count(client_id) > 0));
            assert(unordered@.contains(client_id) == (unordered@.to_multiset().count(client_id)
                > 0));
        }
        assert(ids@.to_set() =~= unordered@.to_set());
    }
    ids
}

/// The rows of the report: see `is_report`.
pub fn output_rows(client_map: &HashMap<u16, OutputRecord>) -> (rows: Vec<(u16, OutputRecord)>)
    ensures
        is_report(rows@, client_map@),
{
    let ids = sorted_client_ids(client_map);
    let mut rows: Vec<(u16, OutputRecord)> = Vec::new();
    let mut i: usize = 0;
    while i < ids.len()
        invariant
            i <= ids.len(),
            rows@.len() == i,
            ids@.to_set() == client_map@.dom(),
            forall|k: int| 0 <= k < i ==> (#[trigger] rows@[k]).0 == ids@[k] && rows@[k].1
                == client_map@[ids@[k]],
        decreases ids.len() - i,
    {
        let client_id = ids[i];
        assert(ids@.to_set().contains(client_id));
        let output_record = *client_map.get(&client_id).unwrap();
        rows.push((client_id, output_record));
        i += 1;
    }
    proof {
        assert forall|client_id: u16| #[trigger] client_map@.contains_key(client_id) implies exists|
            k: int,
        |
            0 <= k < rows@.len() && #[trigger] rows@[k].0 == client_id by {
            assert(ids@.to_set().contains(client_id));
            let k = choose|k: int| 0 <= k < ids@.len() && ids@[k] == client_id;
            assert(rows@[k].0 == client_id);
        }
        assert forall|k: int| 0 <= k < rows@.len() implies client_map@.contains_key(
            #[trigger] rows@[k].0,
        ) && rows@[k].1 == client_map@[rows@[k].0] by {
            assert(ids@.to_set().contains(ids@[k]));
        }
    }
    rows
}

/// An amount as a decimal number: sign, whole units, and ten-thousandths.
#[derive(Clone, Copy, Debug, PartialEq, Eq)]
pub struct Decimal {
    pub negative: bool,
    pub whole: u128,
    pub fraction: u16,
}

/// The number of fixed-point units that a decimal number stands for.
pub open spec fn decimal_units(d: Decimal) -> int {
    if d.negative {
        -(d.whole * SCALE + d.fraction)
    } else {
        d.whole * SCALE + d.fraction
    }
}

/// An amount in fixed-point units as a decimal number with four fractional
/// digits, exactly.
pub fn to_decimal(units: i128) -> (d: Decimal)
    ensures
        decimal_units(d) == units,
        d.fraction < SCALE,
        d.negative == (units < 0),
{
    let magnitude: u128 = if units < 0 {
        (-(units + 1)) as u128 + 1
    } else {
        units as u128
    };
    let scale: u128 = SCALE as u128;
    assert(magnitude == (magnitude / scale) * scale + magnitude % scale) by {
        vstd::arithmetic::div_mod::lemma_fundamental_div_mod(magnitude as int, scale as int);
    }
    Decimal {
        negative: units < 0,
        whole: magnitude / scale,
        fraction: (magnitude % scale) as u16,
    }
}

} // verus!
