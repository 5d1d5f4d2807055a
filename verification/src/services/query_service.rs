//! The relational side of a cycle: rows merged into entities, categories
//! grouped by store, pages fetched by a cursor, and the watermark.

use crate::error::SyncError;
use crate::models::store_to_elastic::{
    clone_opt_text, lemma_texts_push, texts, DistinctStoreResult, StoreEntityView, StoreResult,
    StoreRowView,
};
use crate::models::store_types::{code_lists, codes_in, StoreTypesMap, StoreTypesResult};
use crate::services::aggregation::{
    absorbed, aggregated, distinct_keys, fresh_entity, grouped_codes, grouped_types,
    lemma_distinct_keys,
    lemma_merged_entity_exists, major_pairs, merged_entity, sub_pairs, with_code,
};
use crate::utils_module::time_utils::{
    get_str_from_naive_datetime, DateTimeView, NaiveDateTime,
};
use std::collections::HashMap;
use vstd::prelude::*;

verus! {

/// What a list of rows stands for.
pub open spec fn row_views(rows: Seq<StoreResult>) -> Seq<StoreRowView> {
    Seq::new(rows.len(), |i: int| rows[i]@)
}

/// What a list of entities stands for.
pub open spec fn entity_views(entities: Seq<DistinctStoreResult>) -> Seq<StoreEntityView> {
    Seq::new(entities.len(), |i: int| entities[i]@)
}

/// Whether `codes` holds `code`.
fn holds_code(codes: &Vec<i32>, code: i32) -> (found: bool)
    ensures
        found == codes@.contains(code),
{
    let mut i: usize = 0;
    while i < codes.len()
        invariant
            i <= codes.len(),
            forall|j: int| 0 <= j < i ==> codes[j] != code,
        decreases codes.len() - i,
    {
        if codes[i] == code {
            return true;
        }
        i += 1;
    }
    false
}

/// Adds `code` to the codes of store `key` unless they hold it already, and
/// leaves the codes of every other store as they are.
fn add_code(map: &mut HashMap<i32, Vec<i32>>, key: i32, code: i32)
    ensures
        codes_in(final(map)@, key) == Some(with_code(codes_in(old(map)@, key), code)),
        forall|k: i32| k != key ==> codes_in(final(map)@, k) == codes_in(old(map)@, k),
{
    broadcast use vstd::std_specs::hash::group_hash_axioms;

    let mut codes: Vec<i32> = match map.remove(&key) {
        Some(held) => held,
        None => Vec::new(),
    };
    if !holds_code(&codes, code) {
        codes.push(code);
    }
    assert(codes@ =~= with_code(codes_in(old(map)@, key), code));
    map.insert(key, codes);
}

/// The part of a cycle that works on what the relational side returned.
#[derive(Debug)]
pub struct QueryServicePub;

impl QueryServicePub {
    pub fn new() -> (service: QueryServicePub)
        ensures
            service == QueryServicePub,
    {
        QueryServicePub
    }

    /// Merges the rows into one entity per store, in the order in which the
    /// stores first occur. Each entity carries `cur_utc_date` as its
    /// timestamp, written as `YYYY-MM-DDTHH:MM:SSZ`.
    pub fn get_distinct_store_table(
        &self,
        stores: &[StoreResult],
        cur_utc_date: NaiveDateTime,
    ) -> (r: Result<Vec<DistinctStoreResult>, SyncError>)
        ensures
            r matches Ok(entities) && entity_views(entities@) == aggregated(
                row_views(stores@),
                cur_utc_date@.zulu(),
            ),
    {
        broadcast use vstd::std_specs::hash::group_hash_axioms;

        let cur_time_utc: String = get_str_from_naive_datetime(cur_utc_date);
        let ghost rows = row_views(stores@);
        let ghost stamp = cur_time_utc@;
        let mut entities: Vec<DistinctStoreResult> = Vec::new();
        let mut place_of: HashMap<i32, usize> = HashMap::new();
        let mut i: usize = 0;
        while i < stores.len()
            invariant
                i <= stores.len(),
                rows == row_views(stores@),
                stamp == cur_time_utc@,
                entities.len() == distinct_keys(rows.take(i as int)).len(),
                forall|j: int|
                    0 <= j < entities.len() ==> Some(#[trigger] entities[j]@) == merged_entity(
                        rows.take(i as int),
                        distinct_keys(rows.take(i as int))[j],
                        stamp,
                    ),
                forall|k: i32|
                    place_of@.contains_key(k) <==> distinct_keys(rows.take(i as int)).contains(k),
                forall|k: i32| #[trigger]
                    place_of@.contains_key(k) ==> place_of@[k] < entities.len() && distinct_keys(
                        rows.take(i as int),
                    )[place_of@[k] as int] == k,
            decreases stores.len() - i,
        {
            let store = &stores[i];
            let ghost seen = rows.take(i as int);
            let ghost grown = rows.take(i + 1);
            let ghost keys = distinct_keys(seen);
            let ghost before = entities@;
            proof {
                assert(grown.drop_last() =~= seen);
                assert(grown.last() == store@);
                lemma_distinct_keys(seen);
                lemma_merged_entity_exists(seen, store.seq, stamp);
            }
            let found: Option<usize> = match place_of.get(&store.seq) {
                Some(p) => Some(*p),
                None => None,
            };
            match found {
                Some(p) => {
                    assert(keys[p as int] == store.seq);
                    assert(distinct_keys(grown) == keys);
                    if let Some(recommend) = &store.recommend_name {
                        let name = recommend.clone();
                        proof {
                            lemma_texts_push(entities[p as int].recommend_names@, name);
                        }
                        entities[p].recommend_names.push(name);
                    }
                    assert(entities[p as int]@ == absorbed(before[p as int]@, store@));
                    assert forall|j: int| 0 <= j < entities.len() implies Some(
                        #[trigger] entities[j]@,
                    ) == merged_entity(grown, distinct_keys(grown)[j], stamp) by {
                        if j != p {
                            assert(entities[j] == before[j]);
                            assert(keys[j] != store.seq);
                        }
                    }
                },
                None => {
                    assert(!keys.contains(store.seq));
                    assert(distinct_keys(grown) == keys.push(store.seq));
                    let names: Vec<String> = match &store.recommend_name {
                        Some(recommend) => {
                            let mut one: Vec<String> = Vec::new();
                            let name = recommend.clone();
                            one.push(name);
                            assert(texts(one@) =~= seq![name@]);
                            one
                        },
                        None => {
                            let none: Vec<String> = Vec::new();
                            assert(texts(none@) =~= Seq::<
                                Seq<char>,
                            >::empty());
                            none
                        },
                    };
                    let entity = DistinctStoreResult::new(
                        cur_time_utc.clone(),
                        store.seq,
                        store.name.clone(),
                        clone_opt_text(&store.store_type),
                        clone_opt_text(&store.address),
                        store.lat,
                        store.lng,
                        store.zero_possible,
                        names,
                        clone_opt_text(&store.location_city),
                        clone_opt_text(&store.location_county),
                        clone_opt_text(&store.location_district),
                        Vec::new(),
                        Vec::new(),
                    );
                    assert(entity@ == fresh_entity(store@, stamp));
                    place_of.insert(store.seq, entities.len());
                    entities.push(entity);
                    assert forall|j: int| 0 <= j < entities.len() implies Some(
                        #[trigger] entities[j]@,
                    ) == merged_entity(grown, distinct_keys(grown)[j], stamp) by {
                        if j < before.len() {
                            assert(entities[j] == before[j]);
                            assert(keys.contains(keys[j]));
                        }
                    }
                    assert forall|k: i32|
                        place_of@.contains_key(k) <==> distinct_keys(grown).contains(k) by {
                        if keys.contains(k) {
                            let q = choose|q: int| 0 <= q < keys.len() && keys[q] == k;
                            assert(distinct_keys(grown)[q] == k);
                        }
                        if k == store.seq {
                            assert(distinct_keys(grown)[keys.len() as int] == k);
                        }
                        if distinct_keys(grown).contains(k) {
                            let q = choose|q: int|
                                0 <= q < distinct_keys(grown).len() && distinct_keys(grown)[q] == k;
                            if q < keys.len() {
                                assert(keys[q] == k);
                            }
                        }
                    }
                },
            }
            i += 1;
        }
        proof {
            assert(rows.take(i as int) =~= rows);
            assert(entity_views(entities@) =~= aggregated(rows, stamp));
        }
        Ok(entities)
    }

    /// Groups the rows of the category lookup by store: for each store the
    /// codes of its major categories and of its sub-categories, each code
    /// once, in the order in which the rows bring them.
    pub fn get_store_types(&self, store_types_result: &Vec<StoreTypesResult>) -> (r: Result<
        StoreTypesMap,
        SyncError,
    >)
        ensures
            r matches Ok(types) && types@ == grouped_types(store_types_result@),
    {
        let mut store_type_major_map: HashMap<i32, Vec<i32>> = HashMap::new();
        let mut store_type_sub_map: HashMap<i32, Vec<i32>> = HashMap::new();
        let ghost majors = major_pairs(store_types_result@);
        let ghost subs = sub_pairs(store_types_result@);
        let mut i: usize = 0;
        while i < store_types_result.len()
            invariant
                i <= store_types_result.len(),
                majors == major_pairs(store_types_result@),
                subs == sub_pairs(store_types_result@),
                forall|key: i32|
                    #![trigger codes_in(store_type_major_map@, key)]
                    codes_in(store_type_major_map@, key) == grouped_codes(
                        majors.take(i as int),
                        key,
                    ),
                forall|key: i32|
                    #![trigger codes_in(store_type_sub_map@, key)]
                    codes_in(store_type_sub_map@, key) == grouped_codes(subs.take(i as int), key),
            decreases store_types_result.len() - i,
        {
            let store = &store_types_result[i];
            proof {
                assert(majors.take(i + 1).drop_last() =~= majors.take(i as int));
                assert(subs.take(i + 1).drop_last() =~= subs.take(i as int));
            }
            add_code(&mut store_type_major_map, store.seq, store.major_type);
            add_code(&mut store_type_sub_map, store.seq, store.sub_type);
            i += 1;
        }
        proof {
            assert(majors.take(i as int) =~= majors);
            assert(subs.take(i as int) =~= subs);
        }
        let ghost major_map = store_type_major_map@;
        let ghost sub_map = store_type_sub_map@;
        let types = StoreTypesMap::new(store_type_major_map, store_type_sub_map);
        proof {
            let wanted = grouped_types(store_types_result@);
            assert(types@.major == code_lists(major_map));
            assert(types@.sub == code_lists(sub_map));
            assert forall|key: i32|
                #![trigger code_lists(major_map).contains_key(key)]
                #![trigger wanted.major.contains_key(key)]
                code_lists(major_map).contains_key(key) == grouped_types(
                    store_types_result@,
                ).major.contains_key(key) && (code_lists(major_map).contains_key(key)
                    ==> code_lists(major_map)[key] == grouped_types(
                    store_types_result@,
                ).major[key]) by {
                assert(codes_in(major_map, key) == grouped_codes(majors, key));
            }
            assert forall|key: i32|
                #![trigger code_lists(sub_map).contains_key(key)]
                #![trigger wanted.sub.contains_key(key)]
                code_lists(sub_map).contains_key(key) == grouped_types(
                    store_types_result@,
                ).sub.contains_key(key) && (code_lists(sub_map).contains_key(key) ==> code_lists(
                    sub_map,
                )[key] == grouped_types(store_types_result@).sub[key]) by {
                assert(codes_in(sub_map, key) == grouped_codes(subs, key));
            }
            assert(types@.major =~= grouped_types(store_types_result@).major);
            assert(types@.sub =~= grouped_types(store_types_result@).sub);
        }
        Ok(types)
    }
}

/// What to ask the relational side for next.
#[derive(Clone, Copy, Debug, PartialEq, Eq, Structural)]
pub enum PageRequest {
    /// The next page: all rows of the next stores in rising order of their
    /// keys, at most `limit` stores, with keys above `after` where one is
    /// given. A page holds every row of each of its stores.
    Fetch { after: Option<i32>, limit: usize },
    /// Every page was fetched.
    Finished,
}

/// The rows from the place `from` on all have keys above the cursor.
pub open spec fn above_cursor(source: Seq<StoreRowView>, from: int, cursor: Option<i32>) -> bool {
    forall|i: int|
        from <= i < source.len() ==> (cursor matches Some(c) ==> c < (#[trigger] source[i]).seq)
}

/// The rows before the place `upto` all have keys up to the cursor.
pub open spec fn upto_cursor(source: Seq<StoreRowView>, upto: int, cursor: Option<i32>) -> bool {
    forall|i: int|
        0 <= i < upto ==> cursor is Some && (#[trigger] source[i]).seq <= cursor->0
}

/// `page` is the page that the relational side owes for the cursor `after`
/// out of `source`, the rows of the query in rising order of their keys: the
/// rows of the next stores above the cursor, all rows of each of them, and at
/// least one store where there is one left.
pub open spec fn owed_page(source: Seq<StoreRowView>, after: Option<i32>, page: Seq<StoreRowView>)
    -> bool {
    exists|start: int, end: int|
        #![trigger source.subrange(start, end)]
        {
            &&& 0 <= start <= end <= source.len()
            &&& page == source.subrange(start, end)
            &&& upto_cursor(source, start, after)
            &&& above_cursor(source, start, after)
            &&& start < source.len() ==> start < end
            &&& start < end ==> above_cursor(source, end, Some(source[end - 1].seq))
        }
}

/// The cursor after a page: the key of its last row, or the cursor as it was
/// after an empty page.
pub open spec fn cursor_after(cursor: Option<i32>, page: Seq<StoreRowView>) -> Option<i32> {
    if page.len() == 0 {
        cursor
    } else {
        Some(page.last().seq)
    }
}

/// `rows` are the rows of `source` up to the cursor, and no row behind them
/// has a key up to the cursor.
pub open spec fn fetched_upto(source: Seq<StoreRowView>, rows: Seq<StoreRowView>, cursor: Option<i32>)
    -> bool {
    &&& rows.len() <= source.len()
    &&& rows == source.take(rows.len() as int)
    &&& upto_cursor(source, rows.len() as int, cursor)
    &&& above_cursor(source, rows.len() as int, cursor)
}

/// A page that the relational side owes carries the fetch on without a gap:
/// the rows held so far with the page behind them are again the rows of the
/// source up to the new cursor. A page that comes back empty says that the
/// rows held are the whole source.
pub proof fn lemma_page_carries_on(
    source: Seq<StoreRowView>,
    rows: Seq<StoreRowView>,
    cursor: Option<i32>,
    page: Seq<StoreRowView>,
)
    requires
        sorted_by_key(source),
        fetched_upto(source, rows, cursor),
        owed_page(source, cursor, page),
    ensures
        fetched_upto(source, rows + page, cursor_after(cursor, page)),
        page.len() == 0 ==> rows == source,
        page.len() > 0 && cursor is Some ==> cursor->0 < cursor_after(cursor, page)->0,
{
    let (start, end) = choose|start: int, end: int|
        #![trigger source.subrange(start, end)]
        {
            &&& 0 <= start <= end <= source.len()
            &&& page == source.subrange(start, end)
            &&& upto_cursor(source, start, cursor)
            &&& above_cursor(source, start, cursor)
            &&& start < source.len() ==> start < end
            &&& start < end ==> above_cursor(source, end, Some(source[end - 1].seq))
        };
    let held = rows.len() as int;
    if held < start {
        assert(source[held].seq <= cursor->0);
        assert(cursor->0 < source[held].seq);
    }
    if start < held {
        assert(source[start].seq <= cursor->0);
        assert(cursor->0 < source[start].seq);
    }
    assert(held == start);
    assert(rows + page =~= source.take(end));
    if page.len() == 0 {
        assert(rows =~= source);
    } else {
        let top = source[end - 1].seq;
        assert(page.last() == source[end - 1]);
        assert(cursor is Some ==> cursor->0 < top) by {
            if cursor is Some {
                assert(cursor->0 < source[end - 1].seq);
            }
        }
    }
}

/// The rows of the pages, one page behind the other.
pub open spec fn gathered(pages: Seq<Seq<StoreRowView>>) -> Seq<StoreRowView>
    decreases pages.len(),
{
    if pages.len() == 0 {
        Seq::empty()
    } else {
        gathered(pages.drop_last()) + pages.last()
    }
}

/// The cursor after the pages.
pub open spec fn cursor_of(pages: Seq<Seq<StoreRowView>>) -> Option<i32>
    decreases pages.len(),
{
    if pages.len() == 0 {
        None
    } else {
        cursor_after(cursor_of(pages.drop_last()), pages.last())
    }
}

/// Each page is the one that the relational side owes for the cursor after
/// the pages before it.
pub open spec fn pages_owed(source: Seq<StoreRowView>, pages: Seq<Seq<StoreRowView>>) -> bool {
    forall|k: int|
        0 <= k < pages.len() ==> owed_page(source, cursor_of(pages.take(k)), #[trigger] pages[k])
}

/// The fetch is exhaustive: where the source stands in rising order of its
/// keys and hands out the pages it owes, the rows gathered up to the first
/// empty page are the whole source, each row once and in the order of the
/// source, however many rows there are.
pub proof fn lemma_fetch_is_exhaustive(source: Seq<StoreRowView>, pages: Seq<Seq<StoreRowView>>)
    requires
        sorted_by_key(source),
        pages_owed(source, pages),
        pages.len() > 0,
        pages.last().len() == 0,
    ensures
        gathered(pages) == source,
{
    let before = pages.drop_last();
    lemma_pages_carry_on(source, pages, pages.len() - 1);
    assert(pages.take(pages.len() - 1) =~= before);
    lemma_page_carries_on(source, gathered(before), cursor_of(before), pages.last());
    assert(gathered(pages) =~= gathered(before));
}

/// The rows gathered from the first `n` pages are the rows of the source up
/// to the cursor after them.
proof fn lemma_pages_carry_on(source: Seq<StoreRowView>, pages: Seq<Seq<StoreRowView>>, n: int)
    requires
        sorted_by_key(source),
        pages_owed(source, pages),
        0 <= n <= pages.len(),
    ensures
        fetched_upto(source, gathered(pages.take(n)), cursor_of(pages.take(n))),
    decreases n,
{
    let first = pages.take(n);
    if n == 0 {
        assert(gathered(first) =~= source.take(0));
    } else {
        lemma_pages_carry_on(source, pages, n - 1);
        assert(first.drop_last() =~= pages.take(n - 1));
        assert(first.last() == pages[n - 1]);
        lemma_page_carries_on(
            source,
            gathered(pages.take(n - 1)),
            cursor_of(pages.take(n - 1)),
            pages[n - 1],
        );
    }
}

/// The rows stand in rising order of their keys.
pub open spec fn sorted_by_key(source: Seq<StoreRowView>) -> bool {
    forall|i: int, j: int| 0 <= i <= j < source.len() ==> source[i].seq <= source[j].seq
}

/// The fetch of all rows of one query, page by page: each page is asked for
/// behind the key of the last row of the page before, and the first page
/// that comes back empty ends the fetch.
#[derive(Debug)]
pub struct StoreBatchCursor {
    batch_size: usize,
    rows: Vec<StoreResult>,
    last_seq: Option<i32>,
    finished: bool,
}

impl StoreBatchCursor {
    /// The rows fetched so far.
    pub closed spec fn rows(&self) -> Seq<StoreResult> {
        self.rows@
    }

    /// The key behind which the next page is asked for.
    pub closed spec fn last_seq(&self) -> Option<i32> {
        self.last_seq
    }

    /// Whether an empty page has ended the fetch.
    pub closed spec fn finished(&self) -> bool {
        self.finished
    }

    /// How many rows a page holds at most.
    pub closed spec fn batch_size(&self) -> usize {
        self.batch_size
    }

    /// A fetch that has not asked for anything yet.
    pub fn new(batch_size: usize) -> (cursor: StoreBatchCursor)
        ensures
            cursor.rows().len() == 0,
            cursor.last_seq() is None,
            !cursor.finished(),
            cursor.batch_size() == batch_size,
    {
        StoreBatchCursor { batch_size, rows: Vec::new(), last_seq: None, finished: false }
    }

    /// What to ask for next.
    pub fn request(&self) -> (request: PageRequest)
        ensures
            request == if self.finished() {
                PageRequest::Finished
            } else {
                PageRequest::Fetch { after: self.last_seq(), limit: self.batch_size() }
            },
    {
        if self.finished {
            PageRequest::Finished
        } else {
            PageRequest::Fetch { after: self.last_seq, limit: self.batch_size }
        }
    }

    /// Takes in the page that came back. Its rows are added behind the rows
    /// fetched before, and the key of its last row is the new cursor; an
    /// empty page ends the fetch.
    pub fn accept(&mut self, page: Vec<StoreResult>)
        ensures
            final(self).rows() == old(self).rows() + page@,
            final(self).batch_size() == old(self).batch_size(),
            final(self).finished() == (old(self).finished() || page.len() == 0),
            row_views(final(self).rows()) == row_views(old(self).rows()) + row_views(page@),
            final(self).last_seq() == cursor_after(old(self).last_seq(), row_views(page@)),
    {
        let mut page = page;
        let ghost held = self.rows@;
        let ghost came = page@;
        if page.len() == 0 {
            self.finished = true;
            assert(self.rows@ + page@ =~= self.rows@);
        } else {
            let last = page[page.len() - 1].seq;
            assert(row_views(page@)[page.len() - 1].seq == last);
            self.rows.append(&mut page);
            self.last_seq = Some(last);
        }
        assert(row_views(held + came) =~= row_views(held) + row_views(came));
    }

    /// The rows that were fetched.
    pub fn into_rows(self) -> (rows: Vec<StoreResult>)
        ensures
            rows@ == self.rows(),
    {
        self.rows
    }
}

/// What an optional moment stands for.
pub open spec fn moment_view(moment: Option<NaiveDateTime>) -> Option<DateTimeView> {
    match moment {
        Some(m) => Some(m@),
        None => None,
    }
}

/// Writing `cycle_start` as the watermark does not move the watermark
/// backward: there is no watermark yet, or the cycle did not start before the
/// moment that the watermark shows.
pub open spec fn may_advance(current: Option<DateTimeView>, cycle_start: DateTimeView) -> bool {
    current matches Some(shown) ==> !cycle_start.before(shown)
}

/// A cycle that began at `cycle_start` and found so many entities created,
/// updated and deleted owes a write of the watermark: it found any, and the
/// write does not move the watermark backward.
pub open spec fn write_owed(
    current: Option<DateTimeView>,
    cycle_start: DateTimeView,
    created: nat,
    updated: nat,
    deleted: nat,
) -> bool {
    !(created == 0 && updated == 0 && deleted == 0) && may_advance(current, cycle_start)
}

/// The watermark after such a cycle: the start of the cycle where the write
/// is owed, else the watermark as it was.
pub open spec fn watermark_after(
    current: Option<DateTimeView>,
    cycle_start: DateTimeView,
    created: nat,
    updated: nat,
    deleted: nat,
) -> Option<DateTimeView> {
    if write_owed(current, cycle_start, created, updated, deleted) {
        Some(cycle_start)
    } else {
        current
    }
}

/// Whether writing `cycle_start` as the watermark does not move the
/// watermark backward.
pub fn can_advance(current: &Option<NaiveDateTime>, cycle_start: &NaiveDateTime) -> (b: bool)
    ensures
        b == may_advance(moment_view(*current), cycle_start@),
{
    match current {
        Some(shown) => !cycle_start.is_before(shown),
        None => true,
    }
}

/// The moment to write as the new watermark after a cycle, or `None` where
/// the watermark stays as it is. A cycle that found nothing leaves it
/// untouched, so that the next cycle looks at the same window again, and so
/// does a cycle that started before the moment that the watermark shows.
pub fn next_watermark(
    current: &Option<NaiveDateTime>,
    cycle_start: NaiveDateTime,
    created: usize,
    updated: usize,
    deleted: usize,
) -> (write: Option<NaiveDateTime>)
    ensures
        write is Some <==> write_owed(
            moment_view(*current),
            cycle_start@,
            created as nat,
            updated as nat,
            deleted as nat,
        ),
        write matches Some(moment) ==> moment@ == cycle_start@,
        watermark_after(
            moment_view(*current),
            cycle_start@,
            created as nat,
            updated as nat,
            deleted as nat,
        ) == match write {
            Some(moment) => Some(moment@),
            None => moment_view(*current),
        },
{
    if created == 0 && updated == 0 && deleted == 0 {
        None
    } else if can_advance(current, &cycle_start) {
        Some(cycle_start)
    } else {
        None
    }
}

/// The watermark is unchanged after a cycle exactly when the cycle found
/// nothing created, updated or deleted, and else it is the start of the
/// cycle. This is said of a cycle that starts after the moment that the
/// watermark shows: a cycle that starts at that very moment or before it
/// leaves the watermark unchanged whatever it finds.
pub proof fn lemma_watermark_policy(
    current: Option<DateTimeView>,
    cycle_start: DateTimeView,
    created: nat,
    updated: nat,
    deleted: nat,
)
    requires
        may_advance(current, cycle_start),
        current != Some(cycle_start),
    ensures
        watermark_after(current, cycle_start, created, updated, deleted) == current <==> created
            == 0 && updated == 0 && deleted == 0,
        !(created == 0 && updated == 0 && deleted == 0) ==> watermark_after(
            current,
            cycle_start,
            created,
            updated,
            deleted,
        ) == Some(cycle_start),
{
}

/// The watermark never moves backward, whenever a cycle starts and whatever
/// it finds.
pub proof fn lemma_watermark_monotonic(
    current: DateTimeView,
    cycle_start: DateTimeView,
    created: nat,
    updated: nat,
    deleted: nat,
)
    ensures
        watermark_after(Some(current), cycle_start, created, updated, deleted) matches Some(after)
            && !after.before(current),
{
}

} // verus!
