//! One cycle over the stores, full or incremental, as a run of actions:
//! the caller performs each action against the relational side or the
//! search engine and reports what happened.

use crate::controller::main_controller::{attached, has_types, typed_upto, MainController};
use crate::error::SyncError;
use crate::models::store_to_elastic::{DistinctStoreResult, StoreEntityView, StoreResult, StoreRowView};
use crate::models::store_types::{StoreTypesResult, StoreTypesView};
use crate::services::aggregation::{
    aggregated, grouped_types, lemma_aggregated_keys, lemma_distinct_keys,
};
use crate::services::query_service::{
    can_advance, entity_views, may_advance, moment_view, next_watermark, row_views, watermark_after,
    write_owed,
};
use crate::utils_module::time_utils::{DateTimeView, NaiveDateTime};
use vstd::prelude::*;
use vstd::string::*;

verus! {

/// Whether a cycle builds the index anew or brings it up to date.
#[derive(Clone, Copy, Debug, PartialEq, Eq, Structural)]
pub enum CycleMode {
    /// Every store is fetched and a new index is built behind the alias.
    Static,
    /// The stores touched since the watermark are deleted from the index, and
    /// those of them that are in use are inserted anew.
    Dynamic,
}

/// Where a cycle stands: what it is waiting for.
#[derive(Clone, Copy, Debug, PartialEq, Eq, Structural)]
pub enum CyclePhase {
    ReadingWatermark,
    FetchingStores,
    Deleting,
    FetchingTypes,
    Reindexing,
    Inserting,
    WritingWatermark,
    Finished,
}

/// What happened to the action that a cycle asked for last.
#[derive(Debug)]
pub enum CycleEvent {
    /// The watermark was read; `None` where the definition has none yet.
    Watermark(Option<NaiveDateTime>),
    /// The stores were fetched, page by page: the rows of the stores in use,
    /// and in an incremental cycle also the keys of the stores that were
    /// touched and are out of use.
    Stores { rows: Vec<StoreResult>, retired: Vec<i32> },
    /// The rows of the category lookup were fetched.
    StoreTypes(Vec<StoreTypesResult>),
    /// A write was done.
    Completed,
    /// The action failed.
    Failed(SyncError),
}

/// What a [`CycleEvent`] stands for.
pub enum CycleEventView {
    Watermark(Option<DateTimeView>),
    Stores { rows: Seq<StoreRowView>, retired: Seq<i32> },
    StoreTypes(Seq<StoreTypesResult>),
    Completed,
    Failed,
}

impl View for CycleEvent {
    type V = CycleEventView;

    open spec fn view(&self) -> CycleEventView {
        match *self {
            CycleEvent::Watermark(moment) => CycleEventView::Watermark(moment_view(moment)),
            CycleEvent::Stores { rows, retired } => CycleEventView::Stores {
                rows: row_views(rows@),
                retired: retired@,
            },
            CycleEvent::StoreTypes(rows) => CycleEventView::StoreTypes(rows@),
            CycleEvent::Completed => CycleEventView::Completed,
            CycleEvent::Failed(_) => CycleEventView::Failed,
        }
    }
}

/// What a cycle asks for next.
#[derive(Debug)]
pub enum CycleAction {
    /// Read the watermark of the definition.
    ReadWatermark,
    /// Fetch the rows of all stores in use.
    FetchAllStores,
    /// Fetch what was touched after `since`: the rows of the stores in use,
    /// and the keys of the stores out of use.
    FetchChangedStores { since: NaiveDateTime },
    /// Delete the documents of the stores with these keys.
    DeleteDocuments { keys: Vec<i32> },
    /// Fetch the rows of the category lookup, of all stores or of the stores
    /// with the given keys.
    FetchStoreTypes { seqs: Option<Vec<i32>> },
    /// Build a new index from the entities of the cycle and move the alias.
    Reindex,
    /// Insert the entities of the cycle under the alias.
    InsertDocuments,
    /// Write the moment as the new watermark of the definition.
    WriteWatermark(NaiveDateTime),
    /// The cycle is over, with this result.
    Finish(Result<(), SyncError>),
}

/// What a [`CycleAction`] stands for.
pub enum CycleActionView {
    ReadWatermark,
    FetchAllStores,
    FetchChangedStores { since: DateTimeView },
    DeleteDocuments { keys: Seq<i32> },
    FetchStoreTypes { seqs: Option<Seq<i32>> },
    Reindex,
    InsertDocuments,
    WriteWatermark(DateTimeView),
    Finish { ok: bool },
}

impl View for CycleAction {
    type V = CycleActionView;

    open spec fn view(&self) -> CycleActionView {
        match *self {
            CycleAction::ReadWatermark => CycleActionView::ReadWatermark,
            CycleAction::FetchAllStores => CycleActionView::FetchAllStores,
            CycleAction::FetchChangedStores { since } => CycleActionView::FetchChangedStores {
                since: since@,
            },
            CycleAction::DeleteDocuments { keys } => CycleActionView::DeleteDocuments {
                keys: keys@,
            },
            CycleAction::FetchStoreTypes { seqs } => CycleActionView::FetchStoreTypes {
                seqs: match seqs {
                    Some(keys) => Some(keys@),
                    None => None,
                },
            },
            CycleAction::Reindex => CycleActionView::Reindex,
            CycleAction::InsertDocuments => CycleActionView::InsertDocuments,
            CycleAction::WriteWatermark(moment) => CycleActionView::WriteWatermark(moment@),
            CycleAction::Finish(result) => CycleActionView::Finish { ok: result is Ok },
        }
    }
}

/// The failure names the store of the first entity that has no codes in the
/// lookup.
pub open spec fn names_first_untyped(
    e: SyncError,
    entities: Seq<StoreEntityView>,
    types: StoreTypesView,
) -> bool {
    &&& e is DataIntegrity
    &&& exists|at: int|
        0 <= at < entities.len() && (#[trigger] entities[at]).seq == e->seq && !has_types(
            types,
            entities[at].seq,
        ) && typed_upto(entities, types, at - 1)
}

/// The keys of the entities, in their order.
pub open spec fn keys_of(entities: Seq<StoreEntityView>) -> Seq<i32> {
    Seq::new(entities.len(), |i: int| entities[i].seq)
}

/// What a [`StoreIndexCycle`] stands for.
pub struct CycleView {
    pub mode: CycleMode,
    pub phase: CyclePhase,
    pub cycle_start: DateTimeView,
    /// The watermark that the cycle read.
    pub watermark: Option<DateTimeView>,
    /// The entities of the stores in use.
    pub entities: Seq<StoreEntityView>,
    /// The keys of the stores that were touched and are out of use.
    pub retired: Seq<i32>,
}

impl CycleView {
    /// The cycle ends here.
    pub open spec fn end(self, ok: bool) -> (CycleView, CycleActionView) {
        (CycleView { phase: CyclePhase::Finished, ..self }, CycleActionView::Finish { ok })
    }

    /// The keys of all stores that the cycle found touched: those in use,
    /// then those out of use.
    pub open spec fn touched(self) -> Seq<i32> {
        keys_of(self.entities) + self.retired
    }

    /// The cycle after the watermark was read. A full cycle fetches all
    /// stores; an incremental one fetches what was touched after the
    /// watermark, and ends where there is no watermark to start from.
    pub open spec fn after_watermark(self, shown: Option<DateTimeView>) -> (
        CycleView,
        CycleActionView,
    ) {
        let read = CycleView { watermark: shown, ..self };
        match (self.mode, shown) {
            (CycleMode::Static, _) => (
                CycleView { phase: CyclePhase::FetchingStores, ..read },
                CycleActionView::FetchAllStores,
            ),
            (CycleMode::Dynamic, Some(since)) => (
                CycleView { phase: CyclePhase::FetchingStores, ..read },
                CycleActionView::FetchChangedStores { since },
            ),
            (CycleMode::Dynamic, None) => read.end(false),
        }
    }

    /// The cycle asks for the categories of its entities: of all stores in a
    /// full cycle, of the stores of its entities in an incremental one.
    pub open spec fn ask_types(self) -> (CycleView, CycleActionView) {
        (
            CycleView { phase: CyclePhase::FetchingTypes, ..self },
            CycleActionView::FetchStoreTypes {
                seqs: match self.mode {
                    CycleMode::Static => None,
                    CycleMode::Dynamic => Some(keys_of(self.entities)),
                },
            },
        )
    }

    /// The cycle after the stores came: the rows are merged into entities
    /// that carry the start of the cycle as their timestamp. An incremental
    /// cycle that found stores touched deletes the documents of all of them
    /// first, of those in use and of those out of use.
    pub open spec fn after_stores(self, rows: Seq<StoreRowView>, retired: Seq<i32>) -> (
        CycleView,
        CycleActionView,
    ) {
        let merged = CycleView {
            entities: aggregated(rows, self.cycle_start.zulu()),
            retired: match self.mode {
                CycleMode::Static => Seq::empty(),
                CycleMode::Dynamic => retired,
            },
            ..self
        };
        if self.mode == CycleMode::Dynamic && merged.touched().len() > 0 {
            (
                CycleView { phase: CyclePhase::Deleting, ..merged },
                CycleActionView::DeleteDocuments { keys: merged.touched() },
            )
        } else {
            merged.ask_types()
        }
    }

    /// The cycle after its writes to the search engine: it writes its start
    /// as the new watermark where that is owed, and ends. A full cycle owes
    /// it whenever that does not move the watermark backward; an incremental
    /// one, in addition, only where it found a store touched.
    pub open spec fn after_writes(self) -> (CycleView, CycleActionView) {
        let owed = match self.mode {
            CycleMode::Static => may_advance(self.watermark, self.cycle_start),
            CycleMode::Dynamic => write_owed(
                self.watermark,
                self.cycle_start,
                self.entities.len(),
                0,
                self.touched().len(),
            ),
        };
        if owed {
            (
                CycleView { phase: CyclePhase::WritingWatermark, ..self },
                CycleActionView::WriteWatermark(self.cycle_start),
            )
        } else {
            self.end(true)
        }
    }

    /// The cycle after the rows of the category lookup came: the entities
    /// get their codes, and a store without codes ends the cycle. A full
    /// cycle then builds the index; an incremental one inserts its entities,
    /// the stores in use and no others, or goes on where it has none.
    pub open spec fn after_types(self, rows: Seq<StoreTypesResult>) -> (
        CycleView,
        CycleActionView,
    ) {
        let types = grouped_types(rows);
        let typed = CycleView { entities: attached(self.entities, types), ..self };
        if !typed_upto(self.entities, types, self.entities.len() - 1) {
            typed.end(false)
        } else if self.mode == CycleMode::Static {
            (CycleView { phase: CyclePhase::Reindexing, ..typed }, CycleActionView::Reindex)
        } else if typed.entities.len() > 0 {
            (CycleView { phase: CyclePhase::Inserting, ..typed }, CycleActionView::InsertDocuments)
        } else {
            typed.after_writes()
        }
    }

    /// The cycle after `event`: the state it is in then, and what it asks
    /// for. An action that failed ends the cycle, and so does an event that
    /// the cycle was not waiting for.
    pub open spec fn next(self, event: CycleEventView) -> (CycleView, CycleActionView) {
        match (self.phase, event) {
            (CyclePhase::ReadingWatermark, CycleEventView::Watermark(shown)) => {
                self.after_watermark(shown)
            },
            (CyclePhase::FetchingStores, CycleEventView::Stores { rows, retired }) => {
                self.after_stores(rows, retired)
            },
            (CyclePhase::Deleting, CycleEventView::Completed) => self.ask_types(),
            (CyclePhase::FetchingTypes, CycleEventView::StoreTypes(rows)) => self.after_types(rows),
            (CyclePhase::Reindexing, CycleEventView::Completed) => self.after_writes(),
            (CyclePhase::Inserting, CycleEventView::Completed) => self.after_writes(),
            (CyclePhase::WritingWatermark, CycleEventView::Completed) => self.end(true),
            _ => self.end(false),
        }
    }
}

/// One cycle over the stores.
#[derive(Debug)]
pub struct StoreIndexCycle {
    mode: CycleMode,
    phase: CyclePhase,
    cycle_start: NaiveDateTime,
    watermark: Option<NaiveDateTime>,
    entities: Vec<DistinctStoreResult>,
    retired: Vec<i32>,
}

impl View for StoreIndexCycle {
    type V = CycleView;

    closed spec fn view(&self) -> CycleView {
        CycleView {
            mode: self.mode,
            phase: self.phase,
            cycle_start: self.cycle_start@,
            watermark: moment_view(self.watermark),
            entities: entity_views(self.entities@),
            retired: self.retired@,
        }
    }
}

/// The failure of an event that a cycle was not waiting for.
fn unexpected_event() -> (e: SyncError)
    ensures
        e matches SyncError::Configuration { detail } && detail@ == "unexpected event"@,
{
    SyncError::Configuration { detail: String::from_str("unexpected event") }
}

impl StoreIndexCycle {
    /// Where the cycle stands.
    pub fn phase(&self) -> (phase: CyclePhase)
        ensures
            phase == self@.phase,
    {
        self.phase
    }

    /// The moment at which the cycle began.
    pub fn cycle_start(&self) -> (moment: NaiveDateTime)
        ensures
            moment@ == self@.cycle_start,
    {
        self.cycle_start
    }

    /// The entities of the cycle.
    pub fn entities(&self) -> (entities: &Vec<DistinctStoreResult>)
        ensures
            entity_views(entities@) == self@.entities,
    {
        &self.entities
    }

    /// The watermark that the cycle read.
    pub fn watermark(&self) -> (shown: Option<NaiveDateTime>)
        ensures
            moment_view(shown) == self@.watermark,
    {
        self.watermark
    }

    /// The keys of the stores that were touched and are out of use.
    pub fn retired(&self) -> (retired: &Vec<i32>)
        ensures
            retired@ == self@.retired,
    {
        &self.retired
    }

    fn keys(&self) -> (keys: Vec<i32>)
        ensures
            keys@ == keys_of(self@.entities),
    {
        let mut keys: Vec<i32> = Vec::new();
        let mut i: usize = 0;
        while i < self.entities.len()
            invariant
                i <= self.entities.len(),
                keys.len() == i,
                forall|j: int| 0 <= j < i ==> keys[j] == (#[trigger] self.entities[j]).seq,
            decreases self.entities.len() - i,
        {
            keys.push(self.entities[i].seq);
            i += 1;
        }
        assert(keys@ =~= keys_of(entity_views(self.entities@)));
        keys
    }

    fn touched(&self) -> (keys: Vec<i32>)
        ensures
            keys@ == self@.touched(),
    {
        let mut keys = self.keys();
        let mut i: usize = 0;
        while i < self.retired.len()
            invariant
                i <= self.retired.len(),
                keys@ == keys_of(self@.entities) + self.retired@.take(i as int),
            decreases self.retired.len() - i,
        {
            keys.push(self.retired[i]);
            assert(keys@ =~= keys_of(self@.entities) + self.retired@.take(i + 1));
            i += 1;
        }
        assert(self.retired@.take(i as int) =~= self.retired@);
        keys
    }

    fn fetch_types(&mut self) -> (action: CycleAction)
        ensures
            final(self)@ == old(self)@.ask_types().0,
            action@ == old(self)@.ask_types().1,
    {
        let seqs = match self.mode {
            CycleMode::Static => None,
            CycleMode::Dynamic => Some(self.keys()),
        };
        self.phase = CyclePhase::FetchingTypes;
        CycleAction::FetchStoreTypes { seqs }
    }

    fn finish(&mut self, result: Result<(), SyncError>) -> (action: CycleAction)
        ensures
            final(self)@ == old(self)@.end(result is Ok).0,
            action == CycleAction::Finish(result),
    {
        self.phase = CyclePhase::Finished;
        CycleAction::Finish(result)
    }

    fn write_watermark(&mut self) -> (action: CycleAction)
        ensures
            final(self)@ == old(self)@.after_writes().0,
            action@ == old(self)@.after_writes().1,
            action is WriteWatermark || action == CycleAction::Finish(Ok::<(), SyncError>(())),
    {
        let write = match self.mode {
            CycleMode::Static => if can_advance(&self.watermark, &self.cycle_start) {
                Some(self.cycle_start)
            } else {
                None
            },
            CycleMode::Dynamic => {
                let created = self.entities.len();
                let deleted = if created > 0 {
                    created
                } else {
                    self.retired.len()
                };
                next_watermark(&self.watermark, self.cycle_start, created, 0, deleted)
            },
        };
        match write {
            Some(moment) => {
                self.phase = CyclePhase::WritingWatermark;
                CycleAction::WriteWatermark(moment)
            },
            None => self.finish(Ok(())),
        }
    }

    /// Takes in what happened to the action that the cycle asked for last,
    /// and says what to do next. A failure of the action ends the cycle with
    /// that failure; a store without categories ends it with a failure that
    /// names the store.
    pub fn advance(&mut self, controller: &MainController, event: CycleEvent) -> (action:
        CycleAction)
        ensures
            final(self)@ == old(self)@.next(event@).0,
            action@ == old(self)@.next(event@).1,
            event matches CycleEvent::Failed(e) ==> action == CycleAction::Finish(
                Err::<(), SyncError>(e),
            ),
            action matches CycleAction::Finish(Err(e)) ==> event is Failed || if old(self)@.phase
                == CyclePhase::FetchingTypes && event is StoreTypes {
                names_first_untyped(e, old(self)@.entities, grouped_types(event->StoreTypes_0@))
            } else {
                e.is_configuration_of(
                    if old(self)@.phase == CyclePhase::ReadingWatermark && event is Watermark {
                        "no watermark"@
                    } else {
                        "unexpected event"@
                    },
                )
            },
    {
        let phase = self.phase;
        match event {
            CycleEvent::Failed(e) => self.finish(Err(e)),
            CycleEvent::Watermark(shown) => {
                if phase == CyclePhase::ReadingWatermark {
                    self.watermark = shown;
                    match (self.mode, shown) {
                        (CycleMode::Static, _) => {
                            self.phase = CyclePhase::FetchingStores;
                            CycleAction::FetchAllStores
                        },
                        (CycleMode::Dynamic, Some(since)) => {
                            self.phase = CyclePhase::FetchingStores;
                            CycleAction::FetchChangedStores { since }
                        },
                        (CycleMode::Dynamic, None) => self.finish(Err(no_watermark())),
                    }
                } else {
                    self.finish(Err(unexpected_event()))
                }
            },
            CycleEvent::Stores { rows, retired } => {
                if phase == CyclePhase::FetchingStores {
                    let merged = controller.query_service().get_distinct_store_table(
                        rows.as_slice(),
                        self.cycle_start,
                    );
                    match merged {
                        Ok(entities) => {
                            self.entities = entities;
                        },
                        Err(e) => {
                            return self.finish(Err(e));
                        },
                    }
                    match self.mode {
                        CycleMode::Static => {
                            self.retired = Vec::new();
                            self.fetch_types()
                        },
                        CycleMode::Dynamic => {
                            self.retired = retired;
                            if self.entities.len() > 0 || self.retired.len() > 0 {
                                let keys = self.touched();
                                self.phase = CyclePhase::Deleting;
                                CycleAction::DeleteDocuments { keys }
                            } else {
                                self.fetch_types()
                            }
                        },
                    }
                } else {
                    self.finish(Err(unexpected_event()))
                }
            },
            CycleEvent::StoreTypes(rows) => {
                if phase == CyclePhase::FetchingTypes {
                    let types = match controller.query_service().get_store_types(&rows) {
                        Ok(types) => types,
                        Err(e) => {
                            return self.finish(Err(e));
                        },
                    };
                    let ghost before = self.entities@;
                    match controller.handling_store_type(&types, &mut self.entities) {
                        Ok(()) => {},
                        Err(e) => {
                            proof {
                                let at = choose|at: int|
                                    0 <= at < before.len() && (#[trigger] before[at]).seq == e->seq
                                        && typed_upto(entity_views(before), types@, at - 1);
                                assert(entity_views(before)[at].seq == e->seq);
                            }
                            return self.finish(Err(e));
                        },
                    }
                    if self.mode == CycleMode::Static {
                        self.phase = CyclePhase::Reindexing;
                        CycleAction::Reindex
                    } else if self.entities.len() > 0 {
                        self.phase = CyclePhase::Inserting;
                        CycleAction::InsertDocuments
                    } else {
                        self.write_watermark()
                    }
                } else {
                    self.finish(Err(unexpected_event()))
                }
            },
            CycleEvent::Completed => {
                match phase {
                    CyclePhase::Deleting => self.fetch_types(),
                    CyclePhase::Reindexing | CyclePhase::Inserting => self.write_watermark(),
                    CyclePhase::WritingWatermark => self.finish(Ok(())),
                    _ => self.finish(Err(unexpected_event())),
                }
            },
        }
    }
}

/// The failure of an incremental cycle for a definition that has no
/// watermark to start from.
fn no_watermark() -> (e: SyncError)
    ensures
        e matches SyncError::Configuration { detail } && detail@ == "no watermark"@,
{
    SyncError::Configuration { detail: String::from_str("no watermark") }
}

impl MainController {
    /// Begins a full cycle at the moment `cur_utc_date`: the cycle, and its
    /// first action, the reading of the watermark.
    pub fn store_static_index(&self, cur_utc_date: NaiveDateTime) -> (begun: (
        StoreIndexCycle,
        CycleAction,
    ))
        ensures
            begun.0@ == (CycleView {
                mode: CycleMode::Static,
                phase: CyclePhase::ReadingWatermark,
                cycle_start: cur_utc_date@,
                watermark: None,
                entities: Seq::empty(),
                retired: Seq::empty(),
            }),
            begun.1@ == CycleActionView::ReadWatermark,
    {
        let cycle = StoreIndexCycle {
            mode: CycleMode::Static,
            phase: CyclePhase::ReadingWatermark,
            cycle_start: cur_utc_date,
            watermark: None,
            entities: Vec::new(),
            retired: Vec::new(),
        };
        assert(cycle@.entities =~= Seq::empty());
        (cycle, CycleAction::ReadWatermark)
    }

    /// Begins an incremental cycle at the moment `cur_utc_date`: the cycle,
    /// and its first action, the reading of the watermark.
    pub fn store_dynamic_index(&self, cur_utc_date: NaiveDateTime) -> (begun: (
        StoreIndexCycle,
        CycleAction,
    ))
        ensures
            begun.0@ == (CycleView {
                mode: CycleMode::Dynamic,
                phase: CyclePhase::ReadingWatermark,
                cycle_start: cur_utc_date@,
                watermark: None,
                entities: Seq::empty(),
                retired: Seq::empty(),
            }),
            begun.1@ == CycleActionView::ReadWatermark,
    {
        let cycle = StoreIndexCycle {
            mode: CycleMode::Dynamic,
            phase: CyclePhase::ReadingWatermark,
            cycle_start: cur_utc_date,
            watermark: None,
            entities: Vec::new(),
            retired: Vec::new(),
        };
        assert(cycle@.entities =~= Seq::empty());
        (cycle, CycleAction::ReadWatermark)
    }

    /// The keywords for completion have no source yet: their re-index does
    /// nothing and succeeds.
    pub fn auto_complete_static_index(&self) -> (r: Result<(), SyncError>)
        ensures
            r is Ok,
    {
        Ok(())
    }
}

/// The watermark never moves backward: whatever a cycle asks to write is
/// its own start, and it asks for it only where the start does not lie
/// before the watermark that the cycle holds.
pub proof fn lemma_cycle_never_moves_watermark_backward(cycle: CycleView, event: CycleEventView)
    ensures
        cycle.next(event).1 matches CycleActionView::WriteWatermark(moment) ==> moment
            == cycle.cycle_start && may_advance(cycle.watermark, moment),
{
}

/// The watermark that a cycle holds is the one that was read for it: the
/// cycle takes it in when it comes, and no later step changes it.
pub proof fn lemma_cycle_keeps_watermark(cycle: CycleView, event: CycleEventView)
    ensures
        cycle.phase == CyclePhase::ReadingWatermark ==> (event matches CycleEventView::Watermark(
            shown,
        ) ==> cycle.next(event).0.watermark == shown),
        cycle.phase != CyclePhase::ReadingWatermark ==> cycle.next(event).0.watermark
            == cycle.watermark,
        cycle.next(event).0.cycle_start == cycle.cycle_start,
{
}

/// The moment that an incremental cycle asks to write once its entities
/// have their categories, where it asks for one: after the insert where it
/// has entities, at once where it has none.
pub open spec fn written_after_types(cycle: CycleView, rows: Seq<StoreTypesResult>) -> Option<
    DateTimeView,
> {
    let typed = cycle.next(CycleEventView::StoreTypes(rows));
    let last = if typed.1 is InsertDocuments {
        typed.0.next(CycleEventView::Completed).1
    } else {
        typed.1
    };
    match last {
        CycleActionView::WriteWatermark(moment) => Some(moment),
        _ => None,
    }
}

/// An incremental cycle that runs to its end without a failure leaves the
/// watermark as the policy has it. The stores in use that were touched are
/// deleted and created anew, the stores out of use are deleted; where there
/// is any of them and the cycle did not start before the watermark, the
/// cycle writes its start as the new watermark, and else it writes nothing.
pub proof fn lemma_incremental_watermark(cycle: CycleView, rows: Seq<StoreTypesResult>)
    requires
        cycle.mode == CycleMode::Dynamic,
        cycle.phase == CyclePhase::FetchingTypes,
        typed_upto(cycle.entities, grouped_types(rows), cycle.entities.len() - 1),
    ensures
        ({
            let typed = cycle.next(CycleEventView::StoreTypes(rows));
            let created = cycle.entities.len();
            let deleted = cycle.touched().len();
            &&& created > 0 ==> typed.1 is InsertDocuments
            &&& created == 0 ==> !(typed.1 is InsertDocuments)
            &&& watermark_after(cycle.watermark, cycle.cycle_start, created, 0, deleted)
                == match written_after_types(cycle, rows) {
                Some(moment) => Some(moment),
                None => cycle.watermark,
            }
            &&& written_after_types(cycle, rows) is Some <==> write_owed(
                cycle.watermark,
                cycle.cycle_start,
                created,
                0,
                deleted,
            )
        }),
{
}

/// A store that was touched and is out of use is deleted and not inserted
/// again: its key is among the keys whose documents the cycle deletes, and,
/// as no row of a store in use carries it, it is the key of no entity that
/// the cycle holds for the insert, then or after the categories came.
pub proof fn lemma_retired_store_is_deleted_only(
    cycle: CycleView,
    rows: Seq<StoreRowView>,
    retired: Seq<i32>,
    types: Seq<StoreTypesResult>,
    key: i32,
)
    requires
        cycle.mode == CycleMode::Dynamic,
        cycle.phase == CyclePhase::FetchingStores,
        retired.contains(key),
        forall|i: int| 0 <= i < rows.len() ==> (#[trigger] rows[i]).seq != key,
    ensures
        ({
            let fetched = cycle.next(CycleEventView::Stores { rows, retired });
            let asked = fetched.0.next(CycleEventView::Completed);
            let typed = asked.0.next(CycleEventView::StoreTypes(types));
            &&& fetched.1 matches CycleActionView::DeleteDocuments { keys } && keys.contains(key)
            &&& !keys_of(fetched.0.entities).contains(key)
            &&& asked.1 matches CycleActionView::FetchStoreTypes { seqs: Some(seqs) }
                && !seqs.contains(key)
            &&& !keys_of(typed.0.entities).contains(key)
        }),
{
    let stamp = cycle.cycle_start.zulu();
    let fetched = cycle.next(CycleEventView::Stores { rows, retired });
    let merged = aggregated(rows, stamp);
    lemma_aggregated_keys(rows, stamp);
    lemma_distinct_keys(rows);
    let at = choose|at: int| 0 <= at < retired.len() && retired[at] == key;
    let touched = keys_of(merged) + retired;
    assert(touched[keys_of(merged).len() + at] == key);
    assert(touched.len() > 0);
    assert forall|i: int| 0 <= i < merged.len() implies (#[trigger] merged[i]).seq != key by {
        let r = choose|r: int| 0 <= r < rows.len() && #[trigger] rows[r].seq == merged[i].seq;
    }
    assert(!keys_of(merged).contains(key)) by {
        if keys_of(merged).contains(key) {
            let i = choose|i: int| 0 <= i < keys_of(merged).len() && keys_of(merged)[i] == key;
            assert(merged[i].seq == key);
        }
    }
    let asked = fetched.0.next(CycleEventView::Completed);
    let typed = asked.0.next(CycleEventView::StoreTypes(types));
    let after = typed.0.entities;
    assert(!keys_of(after).contains(key)) by {
        if keys_of(after).contains(key) {
            let i = choose|i: int| 0 <= i < keys_of(after).len() && keys_of(after)[i] == key;
            assert(after[i].seq == merged[i].seq);
        }
    }
}

} // verus!
