//! The tasks of the synchroniser: which task a definition names, when a
//! definition is due, and how the categories reach the entities.

use crate::configuration::index_schedules_config::IndexSchedules;
use crate::error::SyncError;
use crate::models::store_to_elastic::{DistinctStoreResult, StoreEntityView};
use crate::models::store_types::{StoreTypesMap, StoreTypesView};
use crate::services::es_query_service::EsQueryServicePub;
use crate::services::query_service::{entity_views, QueryServicePub};
use vstd::prelude::*;
use vstd::string::*;

verus! {

/// The first moment, in milliseconds since 1970 in UTC, for which a
/// schedule is asked.
pub const FIRST_TICK_MS: i64 = 0;

/// The last moment, in milliseconds since 1970 in UTC, for which a schedule
/// is asked: the end of the year 9999.
pub const LAST_TICK_MS: i64 = 253_402_300_799_999;

/// The clocks on which schedules are read: nine hours east of UTC, in
/// seconds.
pub const SCHEDULE_ZONE_EAST_SECS: i32 = 32_400;

/// Whether `cron::Schedule::from_str` accepts `expression`.
pub uninterp spec fn cron_accepted(expression: Seq<char>) -> bool;

/// The first moment strictly after `now_ms` that the schedule of
/// `expression` names, as the `cron` crate computes it on the clocks
/// `east_secs` seconds east of UTC; `None` where the schedule names no later
/// moment. Moments are milliseconds since 1970 in UTC.
pub uninterp spec fn cron_next_after(expression: Seq<char>, now_ms: int, east_secs: int) -> Option<
    int,
>;

/// `cron::Schedule::from_str`: whether it accepts the expression.
#[verifier::external_body]
fn cron_parses(expression: &str) -> (accepted: bool)
    ensures
        accepted == cron_accepted(expression@),
{
    <cron::Schedule as std::str::FromStr>::from_str(expression).is_ok()
}

/// `cron::Schedule::after`, and of its moments the first: the schedule of
/// `expression` is asked for the moments after `now_ms`, taken as a moment
/// on the clocks `east_secs` seconds east of UTC. What it names lies
/// strictly after `now_ms`, since the search begins one second later and
/// gives whole seconds.
#[verifier::external_body]
fn cron_upcoming(expression: &str, now_ms: i64, east_secs: i32) -> (next_ms: Option<i64>)
    requires
        cron_accepted(expression@),
        FIRST_TICK_MS <= now_ms <= LAST_TICK_MS,
        -86_400 < east_secs < 86_400,
    ensures
        next_ms matches Some(next) ==> cron_next_after(
            expression@,
            now_ms as int,
            east_secs as int,
        ) == Some(next as int) && next > now_ms,
        next_ms is None ==> cron_next_after(expression@, now_ms as int, east_secs as int) is None,
{
    let schedule = <cron::Schedule as std::str::FromStr>::from_str(expression).unwrap();
    let zone = chrono::FixedOffset::east_opt(east_secs).unwrap();
    let now = chrono::DateTime::from_timestamp_millis(now_ms).unwrap().with_timezone(&zone);
    let next = schedule.after(&now).next()?;
    Some(next.timestamp_millis())
}

/// The occurrence at `next_ms` is due at the tick at `now_ms`: it lies less
/// than one tick ahead.
pub open spec fn due(now_ms: int, next_ms: int, tick_ms: int) -> bool {
    0 <= next_ms - now_ms < tick_ms
}

/// Whether a tick at `now_ms` fires for the schedule of `expression`: the
/// next moment that the schedule names is due.
pub open spec fn fires(expression: Seq<char>, now_ms: int, tick_ms: int) -> bool {
    &&& FIRST_TICK_MS <= now_ms <= LAST_TICK_MS
    &&& cron_next_after(expression, now_ms, SCHEDULE_ZONE_EAST_SECS as int) matches Some(next_ms)
    &&& due(now_ms, next_ms, tick_ms)
}

/// Whether the occurrence at `next_ms` is due at the tick at `now_ms`.
pub fn is_due(now_ms: i64, next_ms: i64, tick_ms: u64) -> (b: bool)
    ensures
        b == due(now_ms as int, next_ms as int, tick_ms as int),
{
    if next_ms < now_ms {
        false
    } else {
        let ahead: i128 = next_ms as i128 - now_ms as i128;
        ahead < tick_ms as i128
    }
}

/// An occurrence fires at one tick at most: at a tick at which it is due it
/// lies less than a tick ahead, so every tick that follows at the distance
/// of a tick or more finds it in the past, and what the schedule names then
/// is a later occurrence.
pub proof fn lemma_fires_at_most_once(
    now_ms: int,
    tick_ms: int,
    occurrence_ms: int,
    later_now_ms: int,
    later_occurrence_ms: int,
)
    requires
        due(now_ms, occurrence_ms, tick_ms),
        later_now_ms >= now_ms + tick_ms,
        later_occurrence_ms > later_now_ms,
    ensures
        later_occurrence_ms != occurrence_ms,
        later_occurrence_ms > occurrence_ms,
{
}

/// Among ticks that follow each other at the distance of one tick, an
/// occurrence is due at no more than one.
pub proof fn lemma_due_at_one_tick(first_ms: int, tick_ms: int, j: int, k: int, occurrence_ms: int)
    requires
        tick_ms > 0,
        due(first_ms + j * tick_ms, occurrence_ms, tick_ms),
        due(first_ms + k * tick_ms, occurrence_ms, tick_ms),
    ensures
        j == k,
{
    if j < k {
        assert(first_ms + k * tick_ms >= first_ms + j * tick_ms + tick_ms) by (nonlinear_arith)
            requires
                j + 1 <= k,
                tick_ms > 0,
        ;
    } else if k < j {
        assert(first_ms + j * tick_ms >= first_ms + k * tick_ms + tick_ms) by (nonlinear_arith)
            requires
                k + 1 <= j,
                tick_ms > 0,
        ;
    }
}

/// The task that a definition names.
#[derive(Clone, Copy, Debug, PartialEq, Eq, Structural)]
pub enum IndexTask {
    /// A full re-index of the stores.
    StoreStaticIndex,
    /// An incremental cycle over the stores that changed.
    StoreDynamicIndex,
    /// A full re-index of the keywords for completion.
    AutoCompleteStaticIndex,
}

/// The task of the name `function_name`, if it names one.
pub open spec fn task_named(function_name: Seq<char>) -> Option<IndexTask> {
    if function_name == "store_static_index"@ {
        Some(IndexTask::StoreStaticIndex)
    } else if function_name == "store_dynamic_index"@ {
        Some(IndexTask::StoreDynamicIndex)
    } else if function_name == "auto_complete_static_index"@ {
        Some(IndexTask::AutoCompleteStaticIndex)
    } else {
        None
    }
}

/// The store has codes of both kinds in the lookup.
pub open spec fn has_types(types: StoreTypesView, seq: i32) -> bool {
    types.major_of(seq) is Some && types.sub_of(seq) is Some
}

/// Every entity up to the place `upto` has codes of both kinds in the lookup.
pub open spec fn typed_upto(entities: Seq<StoreEntityView>, types: StoreTypesView, upto: int)
    -> bool {
    forall|i: int| 0 <= i <= upto && i < entities.len() ==> has_types(types, (#[trigger] entities[i]).seq)
}

/// An entity with the codes that the lookup holds for its store.
pub open spec fn with_types(entity: StoreEntityView, types: StoreTypesView) -> StoreEntityView {
    StoreEntityView {
        major_type: types.major_of(entity.seq)->0,
        sub_type: types.sub_of(entity.seq)->0,
        ..entity
    }
}

/// The entities after their categories were attached: each entity has the
/// codes of its store, up to the first entity whose store the lookup does
/// not hold; from that one on the entities are as they were.
pub open spec fn attached(entities: Seq<StoreEntityView>, types: StoreTypesView) -> Seq<
    StoreEntityView,
> {
    Seq::new(
        entities.len(),
        |j: int|
            if typed_upto(entities, types, j) {
                with_types(entities[j], types)
            } else {
                entities[j]
            },
    )
}

/// The tasks of the synchroniser, with the two services they work with.
#[derive(Debug)]
pub struct MainController {
    query_service: QueryServicePub,
    es_query_service: EsQueryServicePub,
}

impl MainController {
    pub fn new(query_service: QueryServicePub, es_query_service: EsQueryServicePub) -> (controller:
        MainController)
        ensures
            controller.services() == (query_service, es_query_service),
    {
        MainController { query_service, es_query_service }
    }

    /// The two services of the controller.
    pub closed spec fn services(&self) -> (QueryServicePub, EsQueryServicePub) {
        (self.query_service, self.es_query_service)
    }

    /// The service for the relational side.
    pub fn query_service(&self) -> (service: &QueryServicePub)
        ensures
            *service == self.services().0,
    {
        &self.query_service
    }

    /// The service for the search engine.
    pub fn es_query_service(&self) -> (service: &EsQueryServicePub)
        ensures
            *service == self.services().1,
    {
        &self.es_query_service
    }

    /// Whether the definition is due at the tick at `now_ms`, with ticks
    /// `tick_ms` milliseconds apart: its schedule names a next moment, and
    /// that moment lies less than one tick ahead. Moments are milliseconds
    /// since 1970 in UTC, and the schedule is read on the clocks nine hours
    /// east of UTC. A definition whose schedule is no cron expression is
    /// refused.
    pub fn main_schedule_task(&self, index_schedule: &IndexSchedules, now_ms: i64, tick_ms: u64)
        -> (r: Result<bool, SyncError>)
        ensures
            r is Ok <==> cron_accepted(index_schedule.time@),
            r matches Ok(fire) ==> fire == fires(
                index_schedule.time@,
                now_ms as int,
                tick_ms as int,
            ),
            r matches Err(e) ==> e.is_configuration_of(
                "Failed to parse CRON expression: "@ + index_schedule.time@,
            ),
    {
        if !cron_parses(index_schedule.time.as_str()) {
            let mut detail = String::from_str("Failed to parse CRON expression: ");
            detail.append(index_schedule.time.as_str());
            return Err(SyncError::Configuration { detail });
        }
        if now_ms < FIRST_TICK_MS || now_ms > LAST_TICK_MS {
            return Ok(false);
        }
        match cron_upcoming(index_schedule.time.as_str(), now_ms, SCHEDULE_ZONE_EAST_SECS) {
            Some(next_ms) => Ok(is_due(now_ms, next_ms, tick_ms)),
            None => Ok(false),
        }
    }

    /// The task that the definition names. A definition that names no task
    /// is refused, with the name it gave in the failure.
    pub fn main_task(&self, index_schedule: &IndexSchedules) -> (r: Result<IndexTask, SyncError>)
        ensures
            r matches Ok(task) ==> task_named(index_schedule.function_name@) == Some(task),
            r matches Err(e) ==> e matches SyncError::Configuration { detail } && detail@
                == "The mapped function does not exist.: "@ + index_schedule.function_name@
                && task_named(index_schedule.function_name@) is None,
    {
        let function_name = &index_schedule.function_name;
        if *function_name == String::from_str("store_static_index") {
            Ok(IndexTask::StoreStaticIndex)
        } else if *function_name == String::from_str("store_dynamic_index") {
            Ok(IndexTask::StoreDynamicIndex)
        } else if *function_name == String::from_str("auto_complete_static_index") {
            Ok(IndexTask::AutoCompleteStaticIndex)
        } else {
            let mut detail = String::from_str("The mapped function does not exist.: ");
            detail.append(function_name.as_str());
            Err(SyncError::Configuration { detail })
        }
    }

    /// Gives each entity the codes of the categories of its store. The first
    /// entity whose store the lookup does not hold ends the work with a
    /// failure that names the store; the entities before it have their codes
    /// then, and the others are as they were.
    pub fn handling_store_type(
        &self,
        store_types_all: &StoreTypesMap,
        stores_distinct: &mut Vec<DistinctStoreResult>,
    ) -> (r: Result<(), SyncError>)
        ensures
            entity_views(final(stores_distinct)@) == attached(
                entity_views(old(stores_distinct)@),
                store_types_all@,
            ),
            r is Ok <==> typed_upto(
                entity_views(old(stores_distinct)@),
                store_types_all@,
                old(stores_distinct).len() - 1,
            ),
            r matches Err(e) ==> e matches SyncError::DataIntegrity { seq } && !has_types(
                store_types_all@,
                seq,
            ) && exists|at: int|
                0 <= at < old(stores_distinct).len() && (#[trigger] old(stores_distinct)[at]).seq
                    == seq && typed_upto(
                    entity_views(old(stores_distinct)@),
                    store_types_all@,
                    at - 1,
                ),
    {
        broadcast use vstd::std_specs::hash::group_hash_axioms;

        let ghost before = entity_views(stores_distinct@);
        let mut i: usize = 0;
        while i < stores_distinct.len()
            invariant
                i <= stores_distinct.len(),
                stores_distinct.len() == before.len(),
                before == entity_views(old(stores_distinct)@),
                typed_upto(before, store_types_all@, i - 1),
                forall|j: int|
                    0 <= j < i ==> (#[trigger] stores_distinct[j])@ == with_types(
                        before[j],
                        store_types_all@,
                    ),
                forall|j: int|
                    i <= j < stores_distinct.len() ==> (#[trigger] stores_distinct[j])@
                        == before[j],
            decreases stores_distinct.len() - i,
        {
            let seq: i32 = stores_distinct[i].seq;
            assert(before[i as int].seq == seq);
            let major_vec = match store_types_all.store_type_major_map.get(&seq) {
                Some(codes) => codes.clone(),
                None => {
                    proof {
                        lemma_attached_until(before, store_types_all@, i as int, stores_distinct@);
                    }
                    return Err(SyncError::DataIntegrity { seq });
                },
            };
            let sub_vec = match store_types_all.store_type_sub_map.get(&seq) {
                Some(codes) => codes.clone(),
                None => {
                    proof {
                        lemma_attached_until(before, store_types_all@, i as int, stores_distinct@);
                    }
                    return Err(SyncError::DataIntegrity { seq });
                },
            };
            stores_distinct[i].set_major_type(major_vec);
            stores_distinct[i].set_sub_type(sub_vec);
            i += 1;
        }
        proof {
            lemma_attached_all(before, store_types_all@, stores_distinct@);
        }
        Ok(())
    }

    /// The place in the list of definitions that the number `number` picks,
    /// counted from 1 as the menu shows them; `None` for a number that the
    /// menu does not show.
    pub fn cli_indexing_task(&self, number: i32, shown: usize) -> (picked: Option<usize>)
        ensures
            picked == if 0 < number && number <= shown {
                Some((number - 1) as usize)
            } else {
                None
            },
    {
        if number > 0 && (number as usize) <= shown {
            Some((number - 1) as usize)
        } else {
            None
        }
    }
}

/// Entities of which the first `at` have their codes and the others are as
/// they were are the entities after attaching, where the store of the
/// entity at `at` is not in the lookup.
proof fn lemma_attached_until(
    before: Seq<StoreEntityView>,
    types: StoreTypesView,
    at: int,
    now: Seq<DistinctStoreResult>,
)
    requires
        0 <= at < before.len(),
        now.len() == before.len(),
        typed_upto(before, types, at - 1),
        !has_types(types, before[at].seq),
        forall|j: int| 0 <= j < at ==> (#[trigger] now[j])@ == with_types(before[j], types),
        forall|j: int| at <= j < now.len() ==> (#[trigger] now[j])@ == before[j],
    ensures
        entity_views(now) == attached(before, types),
        !typed_upto(before, types, before.len() - 1),
{
    assert forall|j: int| 0 <= j < before.len() implies entity_views(now)[j] == attached(
        before,
        types,
    )[j] by {
        if j < at {
            assert(typed_upto(before, types, j));
        } else {
            assert(!typed_upto(before, types, j));
        }
    }
    assert(entity_views(now) =~= attached(before, types));
}

/// Entities that all have their codes are the entities after attaching.
proof fn lemma_attached_all(
    before: Seq<StoreEntityView>,
    types: StoreTypesView,
    now: Seq<DistinctStoreResult>,
)
    requires
        now.len() == before.len(),
        typed_upto(before, types, before.len() - 1),
        forall|j: int| 0 <= j < now.len() ==> (#[trigger] now[j])@ == with_types(before[j], types),
    ensures
        entity_views(now) == attached(before, types),
{
    assert forall|j: int| 0 <= j < before.len() implies entity_views(now)[j] == attached(
        before,
        types,
    )[j] by {
        assert(typed_upto(before, types, j));
    }
    assert(entity_views(now) =~= attached(before, types));
}

} // verus!
