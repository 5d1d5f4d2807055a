//! The writes to the search engine: a full re-index behind an alias, and
//! the inserts, updates and deletes of an incremental cycle.

use crate::configuration::index_schedules_config::IndexSchedules;
use crate::error::SyncError;
use crate::models::store_to_elastic::DistinctStoreResult;
use crate::repository::es_request::{
    action_views, batch_end, batch_from, bulk_batches, chunk_count, chunk_end, chunk_start,
    AliasAction, AliasActionView, EsRequest, EsRequestView,
};
use crate::utils_module::time_utils::{
    chrono_parsed_moment, get_compact_str_from_naive_datetime, get_naive_datetime_from_str,
    DateTimeView, NaiveDateTime,
};
use vstd::prelude::*;
use vstd::string::*;

verus! {

/// The key under which `serde_json` holds the first member of the JSON
/// object that `text` is: the first in the order in which its map of members
/// is walked. `None` where `text` is no JSON object or the object has no
/// member.
pub uninterp spec fn json_first_key(text: Seq<char>) -> Option<Seq<char>>;

/// `serde_json::Value::as_object` on what `serde_json::from_str` reads from
/// the text, and of that map the first of `serde_json::Map::keys`.
#[verifier::external_body]
fn first_key_of(text: &str) -> (key: Option<String>)
    ensures
        key matches Some(k) ==> json_first_key(text@) == Some(k@),
        key is None ==> json_first_key(text@) is None,
{
    let value = serde_json::from_str::<serde_json::Value>(text).ok()?;
    value.as_object()?.keys().next().cloned()
}

/// The JSON string that `serde_json::to_string` writes for `text`: the text
/// between quotes, with the characters escaped that JSON asks for.
pub uninterp spec fn json_quoted(text: Seq<char>) -> Seq<char>;

/// The string that the answer to a search holds in the field `field` of the
/// source of its first hit, as `serde_json` reads the answer; `None` where
/// the answer is no JSON, has no hit, or holds no string there.
pub uninterp spec fn json_first_hit_text(document: Seq<char>, field: Seq<char>) -> Option<
    Seq<char>,
>;

/// `serde_json::to_string` of a string.
#[verifier::external_body]
fn quote_json(text: &str) -> (quoted: String)
    ensures
        quoted@ == json_quoted(text@),
{
    serde_json::to_string(text).unwrap_or_default()
}

/// `serde_json::Value::as_str` on the member `field` of the member `_source`
/// of the first element of the array `hits` under `hits`, in what
/// `serde_json::from_str` reads from the document.
#[verifier::external_body]
fn first_hit_text(document: &str, field: &str) -> (text: Option<String>)
    ensures
        text matches Some(t) ==> json_first_hit_text(document@, field@) == Some(t@),
        text is None ==> json_first_hit_text(document@, field@) is None,
{
    let value = serde_json::from_str::<serde_json::Value>(document).ok()?;
    let hit = value.get("hits")?.get("hits")?.as_array()?.first()?;
    hit.get("_source")?.get(field)?.as_str().map(|s| s.to_string())
}

/// The query that asks for the newest document by the field
/// `timestamp_field`, and of it for that field alone.
pub open spec fn recent_index_query(timestamp_field: Seq<char>) -> Seq<char> {
    "{\"size\":1,\"sort\":[{"@ + json_quoted(timestamp_field) + ":\"desc\"}],\"_source\":["@
        + json_quoted(timestamp_field) + "]}"@
}

/// The name of the physical index that a full re-index of `alias` builds at
/// the moment `now`: the alias, a hyphen, and the moment as `YYYYMMDDHHMMSS`.
pub open spec fn physical_index_name(alias: Seq<char>, now: DateTimeView) -> Seq<char> {
    alias + "-"@ + now.compact()
}

/// Where a full re-index stands.
#[derive(Clone, Copy, Debug, PartialEq, Eq, Structural)]
pub enum StaticPhase {
    /// The new index is being created.
    Creating,
    /// A batch of entities is being inserted.
    Inserting,
    /// The engine is asked whether the alias is known.
    Probing,
    /// The engine is asked which index the alias points at.
    Resolving,
    /// The alias is being moved from the old index to the new one.
    Swapping,
    /// The old index is being deleted.
    Dropping,
    /// The alias is being created.
    Aliasing,
    /// The alias is being refreshed.
    Refreshing,
    /// The run is over.
    Finished,
}

/// What to do next in a run against the search engine.
#[derive(Debug)]
pub enum EsStep {
    /// Send the request and report its answer.
    Send(EsRequest),
    /// The run is over, with this result.
    Done(Result<(), SyncError>),
}

/// One full re-index: a new index is created and filled, the alias is moved
/// to it, the index that the alias pointed at before is deleted, and the
/// alias is refreshed.
#[derive(Debug)]
pub struct StaticIndexing {
    alias: String,
    new_index: String,
    data_len: usize,
    batch_size: usize,
    sent: usize,
    old_index: Option<String>,
    phase: StaticPhase,
}

/// What a [`StaticIndexing`] stands for.
pub struct StaticIndexingView {
    pub alias: Seq<char>,
    pub new_index: Seq<char>,
    pub data_len: int,
    pub batch_size: int,
    pub sent: int,
    pub old_index: Option<Seq<char>>,
    pub phase: StaticPhase,
}

/// The request that moves `alias` from `old_index` to `new_index`.
pub open spec fn swap_request(alias: Seq<char>, new_index: Seq<char>, old_index: Seq<char>)
    -> EsRequestView {
    EsRequestView::UpdateAliases {
        actions: seq![
            AliasActionView::Remove { index: old_index, alias },
            AliasActionView::Add { index: new_index, alias },
        ],
    }
}

/// The request that creates `alias` for `index`.
pub open spec fn alias_request(alias: Seq<char>, index: Seq<char>) -> EsRequestView {
    EsRequestView::UpdateAliases { actions: seq![AliasActionView::Add { index, alias }] }
}

impl StaticIndexingView {
    /// The run ends here without success.
    pub open spec fn fail(self) -> (StaticIndexingView, Option<EsRequestView>, bool) {
        (StaticIndexingView { phase: StaticPhase::Finished, ..self }, None, false)
    }

    /// After the index was created or a batch inserted: the next batch, or,
    /// once every entity was sent, the question whether the alias is known.
    pub open spec fn after_batch(self) -> (StaticIndexingView, Option<EsRequestView>, bool) {
        if self.sent < self.data_len {
            let end = batch_end(self.sent, self.data_len, self.batch_size);
            (
                StaticIndexingView { sent: end, phase: StaticPhase::Inserting, ..self },
                Some(EsRequestView::Bulk { index: self.new_index, start: self.sent, end }),
                false,
            )
        } else {
            (
                StaticIndexingView { phase: StaticPhase::Probing, ..self },
                Some(EsRequestView::GetIndex { index: self.alias }),
                false,
            )
        }
    }

    /// The run after the answer to the request it sent last: the state it is
    /// in then, the request it sends next or `None` where it is over, and
    /// whether it is over with success. A request that failed ends the run.
    /// The one exception is the question whether the alias is known: the
    /// answer that it does not exist leads to the creation of the alias, and
    /// any other failure of that question ends the run like every failure.
    pub open spec fn next(self, answer: AnswerView) -> (
        StaticIndexingView,
        Option<EsRequestView>,
        bool,
    ) {
        match self.phase {
            StaticPhase::Creating | StaticPhase::Inserting => if answer.succeeded() {
                self.after_batch()
            } else {
                self.fail()
            },
            StaticPhase::Probing => if answer.succeeded() {
                (
                    StaticIndexingView { phase: StaticPhase::Resolving, ..self },
                    Some(EsRequestView::GetAlias { name: self.alias }),
                    false,
                )
            } else if answer is NotFound {
                (
                    StaticIndexingView { phase: StaticPhase::Aliasing, ..self },
                    Some(alias_request(self.alias, self.new_index)),
                    false,
                )
            } else {
                self.fail()
            },
            StaticPhase::Resolving => match answer {
                AnswerView::Document(document) => match json_first_key(document) {
                    Some(old_index) => (
                        StaticIndexingView {
                            old_index: Some(old_index),
                            phase: StaticPhase::Swapping,
                            ..self
                        },
                        Some(swap_request(self.alias, self.new_index, old_index)),
                        false,
                    ),
                    None => self.fail(),
                },
                _ => self.fail(),
            },
            StaticPhase::Swapping => match self.old_index {
                Some(old_index) => if answer.succeeded() {
                    (
                        StaticIndexingView { phase: StaticPhase::Dropping, ..self },
                        Some(EsRequestView::DeleteIndex { index: old_index }),
                        false,
                    )
                } else {
                    self.fail()
                },
                None => self.fail(),
            },
            StaticPhase::Dropping | StaticPhase::Aliasing => if answer.succeeded() {
                (
                    StaticIndexingView { phase: StaticPhase::Refreshing, ..self },
                    Some(EsRequestView::Refresh { index: self.alias }),
                    false,
                )
            } else {
                self.fail()
            },
            StaticPhase::Refreshing => if answer.succeeded() {
                (StaticIndexingView { phase: StaticPhase::Finished, ..self }, None, true)
            } else {
                self.fail()
            },
            StaticPhase::Finished => self.fail(),
        }
    }
}

/// The answer to a request as the run of a re-index reads it.
pub enum AnswerView {
    /// The request succeeded and returned this document.
    Document(Seq<char>),
    /// The request succeeded and returned nothing.
    Empty,
    /// The engine answered that what was asked for does not exist.
    NotFound,
    /// The request failed in another way.
    Failed,
}

/// The answer to a request as the run of a re-index reads it.
pub open spec fn answer_view(answer: Result<Option<String>, SyncError>) -> AnswerView {
    match answer {
        Ok(Some(document)) => AnswerView::Document(document@),
        Ok(None) => AnswerView::Empty,
        Err(e) => if e.not_found() {
            AnswerView::NotFound
        } else {
            AnswerView::Failed
        },
    }
}

impl AnswerView {
    /// The request succeeded.
    pub open spec fn succeeded(self) -> bool {
        self is Document || self is Empty
    }
}

impl View for StaticIndexing {
    type V = StaticIndexingView;

    closed spec fn view(&self) -> StaticIndexingView {
        StaticIndexingView {
            alias: self.alias@,
            new_index: self.new_index@,
            data_len: self.data_len as int,
            batch_size: self.batch_size as int,
            sent: self.sent as int,
            old_index: match self.old_index {
                Some(old) => Some(old@),
                None => None,
            },
            phase: self.phase,
        }
    }
}

/// The part of a cycle that writes to the search engine.
#[derive(Debug)]
pub struct EsQueryServicePub;

impl StaticIndexing {
    #[verifier::type_invariant]
    spec fn within_data(self) -> bool {
        self.sent <= self.data_len
    }

    /// Where the run stands.
    pub fn phase(&self) -> (phase: StaticPhase)
        ensures
            phase == self@.phase,
    {
        self.phase
    }

    /// The name of the index that the run builds.
    pub fn new_index_name(&self) -> (name: &String)
        ensures
            name@ == self@.new_index,
    {
        &self.new_index
    }

    fn finish(&mut self)
        ensures
            final(self)@ == old(self)@.fail().0,
    {
        proof {
            use_type_invariant(&*self);
        }
        self.phase = StaticPhase::Finished;
    }

    fn send_next_batch(&mut self) -> (request: EsRequest)
        ensures
            final(self)@ == old(self)@.after_batch().0,
            Some(request@) == old(self)@.after_batch().1,
    {
        proof {
            use_type_invariant(&*self);
        }
        if self.sent < self.data_len {
            let request = batch_from(
                self.new_index.as_str(),
                self.sent,
                self.data_len,
                self.batch_size,
            );
            self.sent = if self.data_len - self.sent <= self.batch_size {
                self.data_len
            } else {
                self.sent + self.batch_size
            };
            self.phase = StaticPhase::Inserting;
            request
        } else {
            self.phase = StaticPhase::Probing;
            EsRequest::GetIndex { index: self.alias.clone() }
        }
    }

    /// Takes in the answer to the request that the run sent last, and says
    /// what to do next. A request that failed ends the run with its failure,
    /// with one exception: where the engine answers that it does not know
    /// the alias, the alias is created for the new index. An answer from
    /// which the old index cannot be read ends the run too.
    pub fn advance(&mut self, answer: Result<Option<String>, SyncError>) -> (step: EsStep)
        ensures
            final(self)@ == old(self)@.next(answer_view(answer)).0,
            match step {
                EsStep::Send(request) => old(self)@.next(answer_view(answer)).1 == Some(request@),
                EsStep::Done(result) => {
                    &&& old(self)@.next(answer_view(answer)).1 is None
                    &&& result is Ok <==> old(self)@.next(answer_view(answer)).2
                    &&& answer matches Err(e) ==> result == Err::<(), SyncError>(e)
                    &&& answer is Ok && result is Err ==> result->Err_0.is_parse_of(
                        if old(self)@.phase == StaticPhase::Finished {
                            "the run is over"@
                        } else {
                            "no index name in the alias"@
                        },
                    )
                },
            },
    {
        proof {
            use_type_invariant(&*self);
        }
        let phase = self.phase;
        match phase {
            StaticPhase::Probing => match answer {
                Ok(_) => {
                    self.phase = StaticPhase::Resolving;
                    EsStep::Send(EsRequest::GetAlias { name: self.alias.clone() })
                },
                Err(e) => {
                    if !e.is_not_found() {
                        self.finish();
                        return EsStep::Done(Err(e));
                    }
                    self.phase = StaticPhase::Aliasing;
                    let mut actions = Vec::new();
                    actions.push(
                        AliasAction::Add {
                            index: self.new_index.clone(),
                            alias: self.alias.clone(),
                        },
                    );
                    assert(action_views(actions@) =~= seq![
                        AliasActionView::Add { index: self.new_index@, alias: self.alias@ },
                    ]);
                    EsStep::Send(EsRequest::UpdateAliases { actions })
                },
            },
            _ => match answer {
                Err(e) => {
                    self.finish();
                    EsStep::Done(Err(e))
                },
                Ok(document) => self.advance_after_success(document),
            },
        }
    }

    fn advance_after_success(&mut self, document: Option<String>) -> (step: EsStep)
        requires
            old(self)@.phase != StaticPhase::Probing,
        ensures
            final(self)@ == old(self)@.next(answer_view(Ok(document))).0,
            match step {
                EsStep::Send(request) => old(self)@.next(answer_view(Ok(document))).1 == Some(
                    request@,
                ),
                EsStep::Done(result) => {
                    &&& old(self)@.next(answer_view(Ok(document))).1 is None
                    &&& result is Ok <==> old(self)@.next(answer_view(Ok(document))).2
                    &&& result is Err ==> result->Err_0.is_parse_of(
                        if old(self)@.phase == StaticPhase::Finished {
                            "the run is over"@
                        } else {
                            "no index name in the alias"@
                        },
                    )
                },
            },
    {
        proof {
            use_type_invariant(&*self);
        }
        let phase = self.phase;
        match phase {
            StaticPhase::Creating | StaticPhase::Inserting => EsStep::Send(self.send_next_batch()),
            StaticPhase::Resolving => {
                let found = match &document {
                    Some(text) => first_key_of(text.as_str()),
                    None => None,
                };
                match found {
                    Some(old_index) => {
                        let mut actions = Vec::new();
                        actions.push(
                            AliasAction::Remove {
                                index: old_index.clone(),
                                alias: self.alias.clone(),
                            },
                        );
                        actions.push(
                            AliasAction::Add {
                                index: self.new_index.clone(),
                                alias: self.alias.clone(),
                            },
                        );
                        assert(action_views(actions@) =~= seq![
                            AliasActionView::Remove { index: old_index@, alias: self.alias@ },
                            AliasActionView::Add { index: self.new_index@, alias: self.alias@ },
                        ]);
                        self.old_index = Some(old_index);
                        self.phase = StaticPhase::Swapping;
                        EsStep::Send(EsRequest::UpdateAliases { actions })
                    },
                    None => {
                        self.finish();
                        EsStep::Done(Err(parse_failure("no index name in the alias")))
                    },
                }
            },
            StaticPhase::Swapping => {
                let old = match &self.old_index {
                    Some(old_index) => Some(old_index.clone()),
                    None => None,
                };
                match old {
                    Some(old_index) => {
                        self.phase = StaticPhase::Dropping;
                        EsStep::Send(EsRequest::DeleteIndex { index: old_index })
                    },
                    None => {
                        self.finish();
                        EsStep::Done(Err(parse_failure("no index name in the alias")))
                    },
                }
            },
            StaticPhase::Dropping | StaticPhase::Aliasing => {
                self.phase = StaticPhase::Refreshing;
                EsStep::Send(EsRequest::Refresh { index: self.alias.clone() })
            },
            StaticPhase::Refreshing => {
                self.phase = StaticPhase::Finished;
                EsStep::Done(Ok(()))
            },
            _ => {
                self.finish();
                EsStep::Done(Err(parse_failure("the run is over")))
            },
        }
    }
}

/// The failure of an answer that cannot be read.
fn parse_failure(detail: &str) -> (e: SyncError)
    ensures
        e.is_parse_of(detail@),
{
    SyncError::Parse { detail: String::from_str(detail) }
}

impl EsQueryServicePub {
    pub fn new() -> (service: EsQueryServicePub)
        ensures
            service == EsQueryServicePub,
    {
        EsQueryServicePub
    }

    /// Begins a full re-index of `data_len` entities at the moment `now`,
    /// with `settings` as the settings and mappings of the new index: the
    /// run, and the request that creates the new index. A definition without
    /// a settings file is refused.
    pub fn post_indexing_data_by_bulk_static(
        &self,
        index_schedule: &IndexSchedules,
        data_len: usize,
        now: NaiveDateTime,
        settings: &str,
    ) -> (r: Result<(StaticIndexing, EsRequest), SyncError>)
        requires
            index_schedule.setting_path is Some ==> index_schedule.es_batch_size > 0,
        ensures
            r is Ok <==> index_schedule.setting_path is Some,
            r matches Ok((run, request)) ==> run@ == (StaticIndexingView {
                alias: index_schedule.index_name@,
                new_index: physical_index_name(index_schedule.index_name@, now@),
                data_len: data_len as int,
                batch_size: index_schedule.es_batch_size as int,
                sent: 0,
                old_index: None,
                phase: StaticPhase::Creating,
            }) && request@ == (EsRequestView::CreateIndex {
                index: physical_index_name(index_schedule.index_name@, now@),
                settings: settings@,
            }),
            r matches Err(e) ==> e.is_configuration_of("no settings file for the index"@),
    {
        if index_schedule.setting_path.is_none() {
            return Err(
                SyncError::Configuration {
                    detail: String::from_str("no settings file for the index"),
                },
            );
        }
        let curr_time = get_compact_str_from_naive_datetime(now);
        let mut new_index_name = index_schedule.index_name.clone();
        new_index_name.append("-");
        new_index_name.append(curr_time.as_str());
        let request = EsRequest::CreateIndex {
            index: new_index_name.clone(),
            settings: String::from_str(settings),
        };
        let run = StaticIndexing {
            alias: index_schedule.index_name.clone(),
            new_index: new_index_name,
            data_len,
            batch_size: index_schedule.es_batch_size,
            sent: 0,
            old_index: None,
            phase: StaticPhase::Creating,
        };
        Ok((run, request))
    }

    /// The search that asks the index of the definition for its newest
    /// document by the field `timestamp_field`.
    pub fn recent_index_datetime_query(&self, index_schedule: &IndexSchedules, timestamp_field: &str)
        -> (request: EsRequest)
        ensures
            request@ == (EsRequestView::Search {
                index: index_schedule.index_name@,
                query: recent_index_query(timestamp_field@),
            }),
    {
        let quoted = quote_json(timestamp_field);
        let mut query = String::from_str("{\"size\":1,\"sort\":[{");
        query.append(quoted.as_str());
        query.append(":\"desc\"}],\"_source\":[");
        query.append(quoted.as_str());
        query.append("]}");
        EsRequest::Search { index: index_schedule.index_name.clone(), query }
    }

    /// The moment at which the newest document of an index was written, read
    /// from the answer to [`EsQueryServicePub::recent_index_datetime_query`]:
    /// the field `timestamp_field` of its first hit, in the layout
    /// `YYYY-MM-DDTHH:MM:SSZ`.
    pub fn get_recent_index_datetime(&self, document: &str, timestamp_field: &str) -> (r: Result<
        NaiveDateTime,
        SyncError,
    >)
        ensures
            r matches Ok(moment) ==> json_first_hit_text(document@, timestamp_field@) matches Some(
                text,
            ) && chrono_parsed_moment(text, "%Y-%m-%dT%H:%M:%SZ"@) == Some(moment@),
            r matches Err(e) ==> match json_first_hit_text(document@, timestamp_field@) {
                Some(text) => chrono_parsed_moment(text, "%Y-%m-%dT%H:%M:%SZ"@) is None
                    && e.is_parse_of("Failed to parse date string: "@ + text),
                None => e.is_parse_of("failed to parse 'timestamp'"@),
            },
    {
        match first_hit_text(document, timestamp_field) {
            Some(timestamp_str) => get_naive_datetime_from_str(
                timestamp_str.as_str(),
                "%Y-%m-%dT%H:%M:%SZ",
            ),
            None => Err(parse_failure("failed to parse 'timestamp'")),
        }
    }

    /// The batches in which `data_len` entities are inserted under the alias
    /// of the definition, without a new index.
    pub fn post_indexing_data_by_bulk_dynamic(
        &self,
        index_schedule: &IndexSchedules,
        data_len: usize,
    ) -> (plan: Vec<EsRequest>)
        requires
            index_schedule.es_batch_size > 0,
        ensures
            plan.len() == chunk_count(data_len as int, index_schedule.es_batch_size as int),
            forall|k: int|
                0 <= k < plan.len() ==> (#[trigger] plan[k])@ == (EsRequestView::Bulk {
                    index: index_schedule.index_name@,
                    start: chunk_start(k, index_schedule.es_batch_size as int),
                    end: chunk_end(k, data_len as int, index_schedule.es_batch_size as int),
                }),
    {
        bulk_batches(index_schedule.index_name.as_str(), data_len, index_schedule.es_batch_size)
    }

    /// The requests that bring the documents of `data` up to date, entity by
    /// entity: the documents with the key of the entity are deleted, then the
    /// entity is inserted anew. The key is read from the field
    /// `unique_field_name`, which must be the whole-number field `seq`.
    pub fn update_index(
        &self,
        index_schedule: &IndexSchedules,
        data: &Vec<DistinctStoreResult>,
        unique_field_name: &str,
    ) -> (r: Result<Vec<EsRequest>, SyncError>)
        requires
            data.len() * 2 <= usize::MAX,
        ensures
            r is Ok <==> data.len() == 0 || unique_field_name@ == "seq"@,
            r matches Ok(plan) ==> plan.len() == 2 * data.len() && forall|i: int|
                0 <= i < data.len() ==> (#[trigger] plan[2 * i])@ == (EsRequestView::DeleteByQuery {
                    index: index_schedule.index_name@,
                    field: unique_field_name@,
                    value: data[i].seq,
                }) && plan[2 * i + 1]@ == (EsRequestView::IndexEntity {
                    index: index_schedule.index_name@,
                    position: i,
                }),
            r matches Err(e) ==> e.is_parse_of("the unique field holds no whole number"@),
    {
        let mut plan: Vec<EsRequest> = Vec::new();
        let mut i: usize = 0;
        while i < data.len()
            invariant
                i <= data.len(),
                data.len() * 2 <= usize::MAX,
                i > 0 ==> unique_field_name@ == "seq"@,
                plan.len() == 2 * i,
                forall|j: int|
                    0 <= j < i ==> (#[trigger] plan[2 * j])@ == (EsRequestView::DeleteByQuery {
                        index: index_schedule.index_name@,
                        field: unique_field_name@,
                        value: data[j].seq,
                    }) && plan[2 * j + 1]@ == (EsRequestView::IndexEntity {
                        index: index_schedule.index_name@,
                        position: j,
                    }),
            decreases data.len() - i,
        {
            let unique_value = match unique_value_of(&data[i], unique_field_name) {
                Some(v) => v,
                None => {
                    return Err(parse_failure("the unique field holds no whole number"));
                },
            };
            plan.push(
                EsRequest::DeleteByQuery {
                    index: index_schedule.index_name.clone(),
                    field: String::from_str(unique_field_name),
                    value: unique_value,
                },
            );
            plan.push(
                EsRequest::IndexEntity { index: index_schedule.index_name.clone(), position: i },
            );
            i += 1;
        }
        Ok(plan)
    }

    /// The requests that delete the documents of the stores with the keys
    /// `seqs`, key by key, by the field `unique_field_name`.
    pub fn delete_documents(
        &self,
        index_schedule: &IndexSchedules,
        seqs: &Vec<i32>,
        unique_field_name: &str,
    ) -> (plan: Vec<EsRequest>)
        ensures
            plan.len() == seqs.len(),
            forall|i: int|
                0 <= i < seqs.len() ==> (#[trigger] plan[i])@ == (EsRequestView::DeleteByQuery {
                    index: index_schedule.index_name@,
                    field: unique_field_name@,
                    value: seqs[i],
                }),
    {
        let mut plan: Vec<EsRequest> = Vec::new();
        let mut i: usize = 0;
        while i < seqs.len()
            invariant
                i <= seqs.len(),
                plan.len() == i,
                forall|j: int|
                    0 <= j < i ==> (#[trigger] plan[j])@ == (EsRequestView::DeleteByQuery {
                        index: index_schedule.index_name@,
                        field: unique_field_name@,
                        value: seqs[j],
                    }),
            decreases seqs.len() - i,
        {
            plan.push(
                EsRequest::DeleteByQuery {
                    index: index_schedule.index_name.clone(),
                    field: String::from_str(unique_field_name),
                    value: seqs[i],
                },
            );
            i += 1;
        }
        plan
    }

    /// The requests that delete the documents of `data`, entity by entity:
    /// the documents with the key of the entity are deleted. The key is read
    /// from the field `unique_field_name`, which must be the whole-number
    /// field `seq`.
    pub fn delete_index(
        &self,
        index_schedule: &IndexSchedules,
        data: &Vec<DistinctStoreResult>,
        unique_field_name: &str,
    ) -> (r: Result<Vec<EsRequest>, SyncError>)
        ensures
            r is Ok <==> data.len() == 0 || unique_field_name@ == "seq"@,
            r matches Ok(plan) ==> plan.len() == data.len() && forall|i: int|
                0 <= i < data.len() ==> (#[trigger] plan[i])@ == (EsRequestView::DeleteByQuery {
                    index: index_schedule.index_name@,
                    field: unique_field_name@,
                    value: data[i].seq,
                }),
            r matches Err(e) ==> e.is_parse_of("the unique field holds no whole number"@),
    {
        let mut plan: Vec<EsRequest> = Vec::new();
        let mut i: usize = 0;
        while i < data.len()
            invariant
                i <= data.len(),
                i > 0 ==> unique_field_name@ == "seq"@,
                plan.len() == i,
                forall|j: int|
                    0 <= j < i ==> (#[trigger] plan[j])@ == (EsRequestView::DeleteByQuery {
                        index: index_schedule.index_name@,
                        field: unique_field_name@,
                        value: data[j].seq,
                    }),
            decreases data.len() - i,
        {
            let unique_value = match unique_value_of(&data[i], unique_field_name) {
                Some(v) => v,
                None => {
                    return Err(parse_failure("the unique field holds no whole number"));
                },
            };
            plan.push(
                EsRequest::DeleteByQuery {
                    index: index_schedule.index_name.clone(),
                    field: String::from_str(unique_field_name),
                    value: unique_value,
                },
            );
            i += 1;
        }
        Ok(plan)
    }
}

/// The whole number that the document of `entity` holds in the field
/// `field_name`: the key of the store for the field `seq`, which is the only
/// field of a document that holds a whole number.
pub fn unique_value_of(entity: &DistinctStoreResult, field_name: &str) -> (value: Option<i32>)
    ensures
        value == if field_name@ == "seq"@ {
            Some(entity.seq)
        } else {
            None
        },
{
    let asked = String::from_str(field_name);
    let key_field = String::from_str("seq");
    if asked == key_field {
        Some(entity.seq)
    } else {
        None
    }
}


/// Where the run of a plan stands.
#[derive(Clone, Copy, Debug, PartialEq, Eq, Structural)]
pub enum PlanPhase {
    /// A request is to be sent, or its answer is awaited.
    Running,
    /// Every request was answered with success.
    Succeeded,
    /// A request failed; the requests behind it are not sent.
    Failed,
}

/// The run of a list of requests, one after the other: the first request
/// that fails ends the run, and the requests behind it are never sent. What
/// was sent before stays as it is.
#[derive(Debug)]
pub struct EsPlan {
    requests: Vec<EsRequest>,
    sent: usize,
    phase: PlanPhase,
}

impl EsPlan {
    #[verifier::type_invariant]
    spec fn within_plan(self) -> bool {
        &&& self.sent <= self.requests.len()
        &&& self.phase == PlanPhase::Running ==> self.sent < self.requests.len()
    }

    /// The requests of the plan.
    pub closed spec fn requests(&self) -> Seq<EsRequest> {
        self.requests@
    }

    /// How many requests were answered with success.
    pub closed spec fn sent(&self) -> int {
        self.sent as int
    }

    /// Where the run stands.
    pub closed spec fn phase(&self) -> PlanPhase {
        self.phase
    }

    /// The run of `requests` before anything was sent. An empty plan has
    /// succeeded at once.
    pub fn new(requests: Vec<EsRequest>) -> (plan: EsPlan)
        ensures
            plan.requests() == requests@,
            plan.sent() == 0,
            plan.phase() == if requests.len() == 0 {
                PlanPhase::Succeeded
            } else {
                PlanPhase::Running
            },
    {
        let phase = if requests.len() == 0 {
            PlanPhase::Succeeded
        } else {
            PlanPhase::Running
        };
        EsPlan { requests, sent: 0, phase }
    }

    /// The request to send now: the first one that was not answered yet,
    /// while the run goes on.
    pub fn current(&self) -> (request: Option<&EsRequest>)
        ensures
            request is Some <==> self.phase() == PlanPhase::Running,
            request matches Some(r) ==> 0 <= self.sent() < self.requests().len() && *r
                == self.requests()[self.sent()],
    {
        proof {
            use_type_invariant(self);
        }
        match self.phase {
            PlanPhase::Running => Some(&self.requests[self.sent]),
            _ => None,
        }
    }

    /// Takes in the answer to the request that was sent, and says whether
    /// the run is over: `None` while a further request is to be sent, the
    /// failure of the request that failed, or success once the last request
    /// was answered with success. A run that is over stays as it is and
    /// answers with a failure.
    pub fn advance(&mut self, answer: Result<Option<String>, SyncError>) -> (done: Option<
        Result<(), SyncError>,
    >)
        ensures
            final(self).requests() == old(self).requests(),
            old(self).phase() != PlanPhase::Running ==> final(self).phase() == old(self).phase()
                && final(self).sent() == old(self).sent() && match answer {
                Ok(_) => done matches Some(Err(e)) && e.is_parse_of("the run is over"@),
                Err(e) => done == Some(Err::<(), SyncError>(e)),
            },
            old(self).phase() == PlanPhase::Running ==> match answer {
                Ok(_) => {
                    &&& final(self).sent() == old(self).sent() + 1
                    &&& if old(self).sent() + 1 < old(self).requests().len() {
                        final(self).phase() == PlanPhase::Running && done is None
                    } else {
                        final(self).phase() == PlanPhase::Succeeded && done == Some(
                            Ok::<(), SyncError>(()),
                        )
                    }
                },
                Err(e) => {
                    &&& final(self).sent() == old(self).sent()
                    &&& final(self).phase() == PlanPhase::Failed
                    &&& done == Some(Err::<(), SyncError>(e))
                },
            },
    {
        proof {
            use_type_invariant(&*self);
        }
        let phase = self.phase;
        match phase {
            PlanPhase::Running => match answer {
                Ok(_) => {
                    let answered = self.sent + 1;
                    if answered < self.requests.len() {
                        self.sent = answered;
                        None
                    } else {
                        self.phase = PlanPhase::Succeeded;
                        self.sent = answered;
                        Some(Ok(()))
                    }
                },
                Err(e) => {
                    self.phase = PlanPhase::Failed;
                    Some(Err(e))
                },
            },
            _ => match answer {
                Err(e) => Some(Err(e)),
                Ok(_) => Some(Err(parse_failure("the run is over"))),
            },
        }
    }
}

} // verus!
