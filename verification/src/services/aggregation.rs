//! What merging the rows of the relational side into one entity per store
//! means, and what holds of it.

use crate::models::store_to_elastic::{StoreEntityView, StoreRowView};
use crate::models::store_types::{StoreTypesResult, StoreTypesView};
use vstd::prelude::*;

verus! {

/// The entity that the first row of a store gives: the fields of the row, the
/// name of its recommendation as the only one or none, no categories yet, and
/// the timestamp of the pass.
pub open spec fn fresh_entity(row: StoreRowView, timestamp: Seq<char>) -> StoreEntityView {
    StoreEntityView {
        timestamp,
        seq: row.seq,
        name: row.name,
        store_type: row.store_type,
        address: row.address,
        lat: row.lat,
        lng: row.lng,
        zero_possible: row.zero_possible,
        recommend_names: match row.recommend_name {
            Some(name) => seq![name],
            None => Seq::empty(),
        },
        location_city: row.location_city,
        location_county: row.location_county,
        location_district: row.location_district,
        major_type: Seq::empty(),
        sub_type: Seq::empty(),
    }
}

/// An entity after a further row of its store: the name of the row's
/// recommendation is added where it has one, and nothing else changes.
pub open spec fn absorbed(entity: StoreEntityView, row: StoreRowView) -> StoreEntityView {
    match row.recommend_name {
        Some(name) => StoreEntityView {
            recommend_names: entity.recommend_names.push(name),
            ..entity
        },
        None => entity,
    }
}

/// The entity of store `key` after the rows `rows`; `None` while no row of
/// that store was seen.
pub open spec fn merged_entity(rows: Seq<StoreRowView>, key: i32, timestamp: Seq<char>) -> Option<
    StoreEntityView,
>
    decreases rows.len(),
{
    if rows.len() == 0 {
        None
    } else {
        let row = rows.last();
        match merged_entity(rows.drop_last(), key, timestamp) {
            Some(entity) => if row.seq == key {
                Some(absorbed(entity, row))
            } else {
                Some(entity)
            },
            None => if row.seq == key {
                Some(fresh_entity(row, timestamp))
            } else {
                None
            },
        }
    }
}

/// The keys of the stores in `rows`, each once, in the order in which they
/// first occur.
pub open spec fn distinct_keys(rows: Seq<StoreRowView>) -> Seq<i32>
    decreases rows.len(),
{
    if rows.len() == 0 {
        Seq::empty()
    } else {
        let before = distinct_keys(rows.drop_last());
        if before.contains(rows.last().seq) {
            before
        } else {
            before.push(rows.last().seq)
        }
    }
}

/// The entities that `rows` aggregate to: one per store, in the order in
/// which the stores first occur.
pub open spec fn aggregated(rows: Seq<StoreRowView>, timestamp: Seq<char>) -> Seq<
    StoreEntityView,
> {
    Seq::new(
        distinct_keys(rows).len(),
        |i: int| merged_entity(rows, distinct_keys(rows)[i], timestamp).unwrap(),
    )
}

/// The number of rows of store `key` that carry the name of a
/// recommendation.
pub open spec fn named_rows(rows: Seq<StoreRowView>, key: i32) -> nat
    decreases rows.len(),
{
    if rows.len() == 0 {
        0
    } else {
        let row = rows.last();
        named_rows(rows.drop_last(), key) + if row.seq == key && row.recommend_name is Some {
            1nat
        } else {
            0nat
        }
    }
}

/// The keys of the aggregation are the keys of the rows: each row's key is
/// among them, each of them is the key of a row, and none occurs twice.
pub proof fn lemma_distinct_keys(rows: Seq<StoreRowView>)
    ensures
        forall|i: int| 0 <= i < rows.len() ==> distinct_keys(rows).contains(#[trigger] rows[i].seq),
        forall|k: i32|
            distinct_keys(rows).contains(k) ==> exists|i: int|
                0 <= i < rows.len() && #[trigger] rows[i].seq == k,
        distinct_keys(rows).no_duplicates(),
        distinct_keys(rows).len() <= rows.len(),
    decreases rows.len(),
{
    if rows.len() > 0 {
        let front = rows.drop_last();
        let before = distinct_keys(front);
        let last = rows.last().seq;
        lemma_distinct_keys(front);
        let keys = distinct_keys(rows);
        assert forall|i: int| 0 <= i < rows.len() implies keys.contains(#[trigger] rows[i].seq) by {
            if i < front.len() {
                assert(front[i] == rows[i]);
                let p = choose|p: int| 0 <= p < before.len() && before[p] == rows[i].seq;
                assert(keys[p] == rows[i].seq);
            } else {
                if before.contains(last) {
                } else {
                    assert(keys[before.len() as int] == last);
                }
            }
        }
        assert forall|k: i32| keys.contains(k) implies exists|i: int|
            0 <= i < rows.len() && #[trigger] rows[i].seq == k by {
            if before.contains(k) {
                let i = choose|i: int| 0 <= i < front.len() && #[trigger] front[i].seq == k;
                assert(rows[i].seq == k);
            } else {
                let p = choose|p: int| 0 <= p < keys.len() && keys[p] == k;
                if p < before.len() {
                    assert(before[p] == k);
                }
                assert(rows[rows.len() - 1].seq == k);
            }
        }
    }
}

/// A store has an entity exactly when its key is among the keys of the
/// aggregation, and the entity carries that key and the timestamp of the
/// pass.
pub proof fn lemma_merged_entity_exists(rows: Seq<StoreRowView>, key: i32, timestamp: Seq<char>)
    ensures
        merged_entity(rows, key, timestamp) is Some <==> distinct_keys(rows).contains(key),
        merged_entity(rows, key, timestamp) matches Some(entity) ==> entity.seq == key
            && entity.timestamp == timestamp && entity.major_type.len() == 0
            && entity.sub_type.len() == 0,
    decreases rows.len(),
{
    if rows.len() > 0 {
        let front = rows.drop_last();
        let before = distinct_keys(front);
        lemma_merged_entity_exists(front, key, timestamp);
        let keys = distinct_keys(rows);
        if before.contains(key) {
            let p = choose|p: int| 0 <= p < before.len() && before[p] == key;
            assert(keys[p] == key);
        } else if rows.last().seq == key {
            assert(keys[before.len() as int] == key);
        } else {
            if keys.contains(key) {
                let p = choose|p: int| 0 <= p < keys.len() && keys[p] == key;
                if p < before.len() {
                    assert(before[p] == key);
                }
            }
        }
    }
}

/// The merged array of a store holds one name for each of its rows that
/// carries one: names that repeat are kept, rows without a name are passed
/// over.
pub proof fn lemma_merged_names_count(rows: Seq<StoreRowView>, key: i32, timestamp: Seq<char>)
    ensures
        merged_entity(rows, key, timestamp) matches Some(entity) ==> entity.recommend_names.len()
            == named_rows(rows, key),
        merged_entity(rows, key, timestamp) is None ==> named_rows(rows, key) == 0,
    decreases rows.len(),
{
    if rows.len() > 0 {
        lemma_merged_names_count(rows.drop_last(), key, timestamp);
    }
}

/// The fields of an entity other than its arrays are those of the first row
/// of its store.
pub proof fn lemma_merged_fields_of_first_row(
    rows: Seq<StoreRowView>,
    key: i32,
    timestamp: Seq<char>,
    first: int,
)
    requires
        0 <= first < rows.len(),
        rows[first].seq == key,
        forall|j: int| 0 <= j < first ==> rows[j].seq != key,
    ensures
        merged_entity(rows, key, timestamp) matches Some(entity) && (StoreEntityView {
            recommend_names: Seq::empty(),
            ..entity
        }) == (StoreEntityView {
            recommend_names: Seq::empty(),
            ..fresh_entity(rows[first], timestamp)
        }),
    decreases rows.len(),
{
    let front = rows.drop_last();
    if first == rows.len() - 1 {
        lemma_no_row_no_entity(front, key, timestamp);
    } else {
        lemma_merged_fields_of_first_row(front, key, timestamp, first);
    }
}

/// A store none of whose rows was seen has no entity.
pub proof fn lemma_no_row_no_entity(rows: Seq<StoreRowView>, key: i32, timestamp: Seq<char>)
    requires
        forall|j: int| 0 <= j < rows.len() ==> rows[j].seq != key,
    ensures
        merged_entity(rows, key, timestamp) is None,
    decreases rows.len(),
{
    if rows.len() > 0 {
        let front = rows.drop_last();
        assert forall|j: int| 0 <= j < front.len() implies front[j].seq != key by {
            assert(front[j] == rows[j]);
        }
        lemma_no_row_no_entity(front, key, timestamp);
    }
}

/// The aggregation has one entity per key of the rows, each key once, and
/// each entity carries the key at its place.
pub proof fn lemma_aggregated_keys(rows: Seq<StoreRowView>, timestamp: Seq<char>)
    ensures
        aggregated(rows, timestamp).len() == distinct_keys(rows).len(),
        forall|i: int|
            0 <= i < distinct_keys(rows).len() ==> (#[trigger] aggregated(rows, timestamp)[i]).seq
                == distinct_keys(rows)[i],
        forall|i: int, j: int|
            0 <= i < j < distinct_keys(rows).len() ==> (#[trigger] aggregated(
                rows,
                timestamp,
            )[i]).seq != (#[trigger] aggregated(rows, timestamp)[j]).seq,
        forall|i: int|
            0 <= i < distinct_keys(rows).len() ==> exists|r: int|
                0 <= r < rows.len() && #[trigger] rows[r].seq == (#[trigger] aggregated(
                    rows,
                    timestamp,
                )[i]).seq,
{
    lemma_distinct_keys(rows);
    let keys = distinct_keys(rows);
    assert forall|i: int| 0 <= i < keys.len() implies (#[trigger] aggregated(
        rows,
        timestamp,
    )[i]).seq == keys[i] by {
        lemma_merged_entity_exists(rows, keys[i], timestamp);
    }
    assert forall|i: int| 0 <= i < keys.len() implies exists|r: int|
        0 <= r < rows.len() && #[trigger] rows[r].seq == (#[trigger] aggregated(
            rows,
            timestamp,
        )[i]).seq by {
        assert(keys.contains(keys[i]));
    }
}

/// Each entity of the aggregation holds one name for each row of its store
/// that carries one.
pub proof fn lemma_aggregated_names(rows: Seq<StoreRowView>, timestamp: Seq<char>)
    ensures
        forall|i: int|
            0 <= i < aggregated(rows, timestamp).len() ==> (#[trigger] aggregated(
                rows,
                timestamp,
            )[i]).recommend_names.len() == named_rows(rows, aggregated(rows, timestamp)[i].seq),
{
    lemma_aggregated_keys(rows, timestamp);
    let keys = distinct_keys(rows);
    assert forall|i: int| 0 <= i < aggregated(rows, timestamp).len() implies (#[trigger] aggregated(
        rows,
        timestamp,
    )[i]).recommend_names.len() == named_rows(rows, aggregated(rows, timestamp)[i].seq) by {
        assert(keys.contains(keys[i]));
        lemma_merged_entity_exists(rows, keys[i], timestamp);
        lemma_merged_names_count(rows, keys[i], timestamp);
    }
}

/// The rows of the category lookup as pairs of a store and the code of its
/// major category.
pub open spec fn major_pairs(rows: Seq<StoreTypesResult>) -> Seq<(i32, i32)> {
    Seq::new(rows.len(), |i: int| (rows[i].seq, rows[i].major_type))
}

/// The rows of the category lookup as pairs of a store and the code of its
/// sub-category.
pub open spec fn sub_pairs(rows: Seq<StoreTypesResult>) -> Seq<(i32, i32)> {
    Seq::new(rows.len(), |i: int| (rows[i].seq, rows[i].sub_type))
}

/// A list of codes after one more code of the same store: the code is added
/// at the end unless the list holds it already.
pub open spec fn with_code(codes: Option<Seq<i32>>, code: i32) -> Seq<i32> {
    match codes {
        Some(c) => if c.contains(code) {
            c
        } else {
            c.push(code)
        },
        None => seq![code],
    }
}

/// The codes of store `key` among `pairs`, each once, in the order in which
/// they first occur; `None` where no pair is of that store.
pub open spec fn grouped_codes(pairs: Seq<(i32, i32)>, key: i32) -> Option<Seq<i32>>
    decreases pairs.len(),
{
    if pairs.len() == 0 {
        None
    } else {
        let before = grouped_codes(pairs.drop_last(), key);
        if pairs.last().0 == key {
            Some(with_code(before, pairs.last().1))
        } else {
            before
        }
    }
}

/// A store has a list of codes exactly when a pair is of that store; the list
/// holds exactly the codes paired with the store, and none of them twice.
pub proof fn lemma_grouped_codes(pairs: Seq<(i32, i32)>, key: i32)
    ensures
        grouped_codes(pairs, key) is Some <==> exists|i: int|
            0 <= i < pairs.len() && (#[trigger] pairs[i]).0 == key,
        grouped_codes(pairs, key) matches Some(codes) ==> codes.no_duplicates() && forall|c: i32|
            #![trigger codes.contains(c)]
            #![trigger pairs.contains((key, c))]
            codes.contains(c) <==> pairs.contains((key, c)),
    decreases pairs.len(),
{
    if pairs.len() > 0 {
        let front = pairs.drop_last();
        let last = pairs.last();
        lemma_grouped_codes(front, key);
        let before = grouped_codes(front, key);
        let after = grouped_codes(pairs, key);
        if before is Some {
            let i = choose|i: int| 0 <= i < front.len() && (#[trigger] front[i]).0 == key;
            assert(pairs[i].0 == key);
        }
        if last.0 == key {
            assert(pairs[pairs.len() - 1].0 == key);
        }
        if last.0 != key && exists|i: int| 0 <= i < pairs.len() && (#[trigger] pairs[i]).0 == key {
            let i = choose|i: int| 0 <= i < pairs.len() && (#[trigger] pairs[i]).0 == key;
            assert(front[i].0 == key);
        }
        if after is Some {
            let codes = after->0;
            assert forall|c: i32| codes.contains(c) <==> pairs.contains((key, c)) by {
                if pairs.contains((key, c)) {
                    let i = choose|i: int| 0 <= i < pairs.len() && pairs[i] == (key, c);
                    if i < front.len() {
                        assert(front[i] == (key, c));
                        assert(front.contains((key, c)));
                        assert(before is Some);
                        assert(before->0.contains(c));
                        let q = choose|q: int| 0 <= q < before->0.len() && before->0[q] == c;
                        assert(codes[q] == c);
                    } else {
                        assert(last == (key, c));
                        if before is Some && before->0.contains(c) {
                        } else {
                            assert(codes[codes.len() - 1] == c);
                        }
                    }
                }
                if codes.contains(c) {
                    let q = choose|q: int| 0 <= q < codes.len() && codes[q] == c;
                    if before is Some && q < before->0.len() {
                        assert(before->0[q] == c);
                        assert(before->0.contains(c));
                        let i = choose|i: int| 0 <= i < front.len() && front[i] == (key, c);
                        assert(pairs[i] == (key, c));
                    } else {
                        assert(last.0 == key);
                        assert(last.1 == c);
                        assert(pairs[pairs.len() - 1] == (key, c));
                    }
                }
            }
        }
    }
}

/// The lists of codes of the stores among `pairs`, by store.
pub open spec fn grouped_by_store(pairs: Seq<(i32, i32)>) -> Map<i32, Seq<i32>> {
    Map::new(
        |key: i32| grouped_codes(pairs, key) is Some,
        |key: i32| grouped_codes(pairs, key)->0,
    )
}

/// The codes of the major categories and of the sub-categories that the rows
/// of the category lookup bring, by store.
pub open spec fn grouped_types(rows: Seq<StoreTypesResult>) -> StoreTypesView {
    StoreTypesView {
        major: grouped_by_store(major_pairs(rows)),
        sub: grouped_by_store(sub_pairs(rows)),
    }
}

} // verus!
