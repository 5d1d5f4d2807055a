//! The requests that the synchroniser sends to the search engine, as plain
//! values, and how an answer to each is read.

use crate::error::SyncError;
use crate::repository::es_repository::EsRepositoryPub;
use crate::repository::node_failover::EsResponse;
use vstd::prelude::*;
use vstd::string::*;

verus! {

/// One entry of an atomic change of aliases.
#[derive(Debug)]
pub enum AliasAction {
    /// The alias no longer points at the index.
    Remove { index: String, alias: String },
    /// The alias points at the index.
    Add { index: String, alias: String },
}

/// What an [`AliasAction`] stands for.
pub enum AliasActionView {
    Remove { index: Seq<char>, alias: Seq<char> },
    Add { index: Seq<char>, alias: Seq<char> },
}

impl View for AliasAction {
    type V = AliasActionView;

    open spec fn view(&self) -> AliasActionView {
        match *self {
            AliasAction::Remove { index, alias } => AliasActionView::Remove {
                index: index@,
                alias: alias@,
            },
            AliasAction::Add { index, alias } => AliasActionView::Add {
                index: index@,
                alias: alias@,
            },
        }
    }
}

/// A request to the search engine.
#[derive(Debug)]
pub enum EsRequest {
    /// Change aliases, all entries at once.
    UpdateAliases { actions: Vec<AliasAction> },
    /// Ask which indices an alias points at.
    GetAlias { name: String },
    /// Create an index with the given settings and mappings.
    CreateIndex { index: String, settings: String },
    /// Insert the entities at the places `start .. end` of a list in one
    /// batch, without document ids.
    Bulk { index: String, start: usize, end: usize },
    /// Close a scroll.
    ClearScroll { scroll_id: String },
    /// Continue a scroll.
    Scroll { scroll_duration: String, scroll_id: String },
    /// Open a scroll with a query.
    ScrollSearch { index: String, scroll_duration: String, query: String },
    /// Search with a query.
    Search { index: String, query: String },
    /// Insert one document.
    IndexDocument { index: String, document: String },
    /// Insert the entity at the place `position` of a list as one document.
    IndexEntity { index: String, position: usize },
    /// Delete an index as a whole.
    DeleteIndex { index: String },
    /// Delete the document with the given id.
    DeleteDocument { index: String, doc_id: String },
    /// Delete the documents whose field has the given value.
    DeleteByQuery { index: String, field: String, value: i32 },
    /// Make what was written searchable at once.
    Refresh { index: String },
    /// Ask for an index, to learn whether it exists.
    GetIndex { index: String },
}

/// What an [`EsRequest`] stands for.
pub enum EsRequestView {
    UpdateAliases { actions: Seq<AliasActionView> },
    GetAlias { name: Seq<char> },
    CreateIndex { index: Seq<char>, settings: Seq<char> },
    Bulk { index: Seq<char>, start: int, end: int },
    ClearScroll { scroll_id: Seq<char> },
    Scroll { scroll_duration: Seq<char>, scroll_id: Seq<char> },
    ScrollSearch { index: Seq<char>, scroll_duration: Seq<char>, query: Seq<char> },
    Search { index: Seq<char>, query: Seq<char> },
    IndexDocument { index: Seq<char>, document: Seq<char> },
    IndexEntity { index: Seq<char>, position: int },
    DeleteIndex { index: Seq<char> },
    DeleteDocument { index: Seq<char>, doc_id: Seq<char> },
    DeleteByQuery { index: Seq<char>, field: Seq<char>, value: i32 },
    Refresh { index: Seq<char> },
    GetIndex { index: Seq<char> },
}

/// What a list of alias actions stands for.
pub open spec fn action_views(actions: Seq<AliasAction>) -> Seq<AliasActionView> {
    Seq::new(actions.len(), |i: int| actions[i]@)
}

impl View for EsRequest {
    type V = EsRequestView;

    open spec fn view(&self) -> EsRequestView {
        match *self {
            EsRequest::UpdateAliases { actions } => EsRequestView::UpdateAliases {
                actions: action_views(actions@),
            },
            EsRequest::GetAlias { name } => EsRequestView::GetAlias { name: name@ },
            EsRequest::CreateIndex { index, settings } => EsRequestView::CreateIndex {
                index: index@,
                settings: settings@,
            },
            EsRequest::Bulk { index, start, end } => EsRequestView::Bulk {
                index: index@,
                start: start as int,
                end: end as int,
            },
            EsRequest::ClearScroll { scroll_id } => EsRequestView::ClearScroll {
                scroll_id: scroll_id@,
            },
            EsRequest::Scroll { scroll_duration, scroll_id } => EsRequestView::Scroll {
                scroll_duration: scroll_duration@,
                scroll_id: scroll_id@,
            },
            EsRequest::ScrollSearch { index, scroll_duration, query } => {
                EsRequestView::ScrollSearch {
                    index: index@,
                    scroll_duration: scroll_duration@,
                    query: query@,
                }
            },
            EsRequest::Search { index, query } => EsRequestView::Search {
                index: index@,
                query: query@,
            },
            EsRequest::IndexDocument { index, document } => EsRequestView::IndexDocument {
                index: index@,
                document: document@,
            },
            EsRequest::IndexEntity { index, position } => EsRequestView::IndexEntity {
                index: index@,
                position: position as int,
            },
            EsRequest::DeleteIndex { index } => EsRequestView::DeleteIndex { index: index@ },
            EsRequest::DeleteDocument { index, doc_id } => EsRequestView::DeleteDocument {
                index: index@,
                doc_id: doc_id@,
            },
            EsRequest::DeleteByQuery { index, field, value } => EsRequestView::DeleteByQuery {
                index: index@,
                field: field@,
                value,
            },
            EsRequest::Refresh { index } => EsRequestView::Refresh { index: index@ },
            EsRequest::GetIndex { index } => EsRequestView::GetIndex { index: index@ },
        }
    }
}

impl EsRequestView {
    /// The answer to the request is a document; the answer to any other
    /// request only says whether it succeeded.
    pub open spec fn answers_with_document(self) -> bool {
        self is GetAlias || self is Scroll || self is ScrollSearch || self is Search
            || self is GetIndex
    }
}

/// A status from 200 to 299.
pub open spec fn is_success_status(status: u16) -> bool {
    200 <= status < 300
}

/// Whether `serde_json::from_str` reads `text` as a JSON value.
pub uninterp spec fn json_accepted(text: Seq<char>) -> bool;

/// `serde_json::from_str` into a `serde_json::Value`: whether it reads the
/// text.
#[verifier::external_body]
fn json_parses(text: &str) -> (accepted: bool)
    ensures
        accepted == json_accepted(text@),
{
    serde_json::from_str::<serde_json::Value>(text).is_ok()
}

/// Whether the status reports success.
pub fn is_success(status: u16) -> (ok: bool)
    ensures
        ok == is_success_status(status),
{
    200 <= status && status < 300
}

/// The failure of an operation to which the search engine answered with a
/// failure status.
fn status_error(function_name: &str, response: EsResponse) -> (e: SyncError)
    ensures
        e matches SyncError::RemoteProtocol { operation, status, body } && operation@
            == function_name@ && status == Some(response.status) && body == response.body,
{
    SyncError::RemoteProtocol {
        operation: String::from_str(function_name),
        status: Some(response.status),
        body: response.body,
    }
}

impl EsRepositoryPub {
    /// Reads the answer to a request that returns nothing: a success status
    /// is success, and any other status is a failure that carries the body
    /// of the answer.
    pub fn process_response_empty(&self, function_name: &str, response: EsResponse) -> (r: Result<
        (),
        SyncError,
    >)
        ensures
            r is Ok <==> is_success_status(response.status),
            r matches Err(e) ==> e matches SyncError::RemoteProtocol { operation, status, body }
                && operation@ == function_name@ && status == Some(response.status) && body
                == response.body,
    {
        if is_success(response.status) {
            Ok(())
        } else {
            Err(status_error(function_name, response))
        }
    }

    /// Reads the answer to a request that returns a document: with a success
    /// status the body is the document, if it is JSON; any other status is a
    /// failure that carries the body of the answer.
    pub fn process_response(&self, function_name: &str, response: EsResponse) -> (r: Result<
        String,
        SyncError,
    >)
        ensures
            r is Ok <==> is_success_status(response.status) && json_accepted(response.body@),
            r matches Ok(document) ==> document == response.body,
            r matches Err(e) ==> if is_success_status(response.status) {
                e.is_parse_of("answer is not JSON"@)
            } else {
                e matches SyncError::RemoteProtocol { operation, status, body } && operation@
                    == function_name@ && status == Some(response.status) && body
                    == response.body
            },
    {
        if is_success(response.status) {
            if json_parses(response.body.as_str()) {
                Ok(response.body)
            } else {
                Err(SyncError::Parse { detail: String::from_str("answer is not JSON") })
            }
        } else {
            Err(status_error(function_name, response))
        }
    }
}

impl EsRequestView {
    /// The name under which a failure of the request is reported.
    pub open spec fn operation_name(self) -> Seq<char> {
        match self {
            EsRequestView::UpdateAliases { actions } => if actions.len() == 1 {
                "create_index_alias()"@
            } else {
                "update_index_alias()"@
            },
            EsRequestView::GetAlias { .. } => "get_indexes_mapping_by_alias()"@,
            EsRequestView::CreateIndex { .. } => "create_index()"@,
            EsRequestView::Bulk { .. } => "bulk_query()"@,
            EsRequestView::ClearScroll { .. } => "clear_scroll_info()"@,
            EsRequestView::Scroll { .. } => "get_scroll_search_query()"@,
            EsRequestView::ScrollSearch { .. } => "get_scroll_initial_search_query()"@,
            EsRequestView::Search { .. } => "get_search_query()"@,
            EsRequestView::IndexDocument { .. } => "post_query()"@,
            EsRequestView::IndexEntity { .. } => "post_query()"@,
            EsRequestView::DeleteIndex { .. } => "delete_query()"@,
            EsRequestView::DeleteDocument { .. } => "delete_query_doc()"@,
            EsRequestView::DeleteByQuery { .. } => "delete_query_where_field()"@,
            EsRequestView::Refresh { .. } => "refresh_index()"@,
            EsRequestView::GetIndex { .. } => "check_index_exist()"@,
        }
    }
}

impl EsRequest {
    /// The name under which a failure of the request is reported.
    pub fn operation_name(&self) -> (name: &'static str)
        ensures
            name@ == self@.operation_name(),
    {
        match self {
            EsRequest::UpdateAliases { actions } => {
                if actions.len() == 1 {
                    "create_index_alias()"
                } else {
                    "update_index_alias()"
                }
            },
            EsRequest::GetAlias { .. } => "get_indexes_mapping_by_alias()",
            EsRequest::CreateIndex { .. } => "create_index()",
            EsRequest::Bulk { .. } => "bulk_query()",
            EsRequest::ClearScroll { .. } => "clear_scroll_info()",
            EsRequest::Scroll { .. } => "get_scroll_search_query()",
            EsRequest::ScrollSearch { .. } => "get_scroll_initial_search_query()",
            EsRequest::Search { .. } => "get_search_query()",
            EsRequest::IndexDocument { .. } => "post_query()",
            EsRequest::IndexEntity { .. } => "post_query()",
            EsRequest::DeleteIndex { .. } => "delete_query()",
            EsRequest::DeleteDocument { .. } => "delete_query_doc()",
            EsRequest::DeleteByQuery { .. } => "delete_query_where_field()",
            EsRequest::Refresh { .. } => "refresh_index()",
            EsRequest::GetIndex { .. } => "check_index_exist()",
        }
    }

    /// Reads the answer to the request: the document where the request
    /// returns one, nothing where it only succeeds, and the failure that the
    /// status of the answer reports.
    pub fn read_answer(&self, es_repo: &EsRepositoryPub, response: EsResponse) -> (r: Result<
        Option<String>,
        SyncError,
    >)
        ensures
            r is Ok <==> is_success_status(response.status) && (self@.answers_with_document()
                ==> json_accepted(response.body@)),
            r matches Ok(document) ==> document == if self@.answers_with_document() {
                Some(response.body)
            } else {
                None
            },
            r matches Err(e) ==> if is_success_status(response.status) {
                e.is_parse_of("answer is not JSON"@)
            } else {
                e matches SyncError::RemoteProtocol { operation, status, body } && operation@
                    == self@.operation_name() && status == Some(response.status) && body
                    == response.body
            },
    {
        if self.answers_with_document() {
            match es_repo.process_response(self.operation_name(), response) {
                Ok(document) => Ok(Some(document)),
                Err(e) => Err(e),
            }
        } else {
            match es_repo.process_response_empty(self.operation_name(), response) {
                Ok(()) => Ok(None),
                Err(e) => Err(e),
            }
        }
    }

    /// Whether the answer to the request is a document.
    pub fn answers_with_document(&self) -> (b: bool)
        ensures
            b == self@.answers_with_document(),
    {
        match self {
            EsRequest::GetAlias { .. } => true,
            EsRequest::Scroll { .. } => true,
            EsRequest::ScrollSearch { .. } => true,
            EsRequest::Search { .. } => true,
            EsRequest::GetIndex { .. } => true,
            _ => false,
        }
    }
}

/// The number of batches into which `len` entities fall, `batch_size` to a
/// batch.
pub open spec fn chunk_count(len: int, batch_size: int) -> int {
    (len + batch_size - 1) / batch_size
}

/// The place at which batch `k` begins.
pub open spec fn chunk_start(k: int, batch_size: int) -> int {
    k * batch_size
}

/// The place before which batch `k` ends.
pub open spec fn chunk_end(k: int, len: int, batch_size: int) -> int {
    if (k + 1) * batch_size < len {
        (k + 1) * batch_size
    } else {
        len
    }
}

/// There is no batch exactly when there is no entity.
pub proof fn lemma_chunk_count(len: int, batch_size: int)
    requires
        0 <= len,
        0 < batch_size,
    ensures
        0 <= chunk_count(len, batch_size) <= len,
        len == 0 <==> chunk_count(len, batch_size) == 0,
{
    let n = chunk_count(len, batch_size);
    assert(n * batch_size <= len + batch_size - 1 < n * batch_size + batch_size
        && (n <= 0 ==> n * batch_size <= 0) && (n > len ==> n * batch_size >= len + batch_size))
        by (nonlinear_arith)
        requires
            n == (len + batch_size - 1) / batch_size,
            0 < batch_size,
            0 <= len,
    ;
}

/// The batches lie one behind the other from the first entity to the last:
/// each holds at least one entity and at most `batch_size`, and each but the
/// last holds exactly `batch_size`.
pub proof fn lemma_chunks_cover(len: int, batch_size: int, k: int)
    requires
        0 <= len,
        0 < batch_size,
        0 <= k < chunk_count(len, batch_size),
    ensures
        chunk_start(0, batch_size) == 0,
        chunk_start(k, batch_size) < chunk_end(k, len, batch_size) <= len,
        chunk_end(k, len, batch_size) - chunk_start(k, batch_size) <= batch_size,
        k + 1 < chunk_count(len, batch_size) ==> chunk_end(k, len, batch_size) == chunk_start(
            k + 1,
            batch_size,
        ) && chunk_end(k, len, batch_size) - chunk_start(k, batch_size) == batch_size,
        k + 1 == chunk_count(len, batch_size) ==> chunk_end(k, len, batch_size) == len,
        (k + 1) * batch_size == k * batch_size + batch_size,
{
    let n = chunk_count(len, batch_size);
    assert(n * batch_size <= len + batch_size - 1 < n * batch_size + batch_size)
        by (nonlinear_arith)
        requires
            n == (len + batch_size - 1) / batch_size,
            0 < batch_size,
            0 <= len,
    ;
    assert((k + 1) * batch_size == k * batch_size + batch_size) by (nonlinear_arith);
    assert(0 * batch_size == 0) by (nonlinear_arith);
    assert(0 <= k * batch_size) by (nonlinear_arith)
        requires
            0 <= k,
            0 < batch_size,
    ;
    if k + 1 < n {
        assert((k + 1) * batch_size + batch_size <= n * batch_size) by (nonlinear_arith)
            requires
                k + 2 <= n,
                0 < batch_size,
        ;
    } else {
        assert((k + 1) * batch_size == n * batch_size);
    }
}

/// The place before which the batch that begins at `start` ends.
pub open spec fn batch_end(start: int, len: int, batch_size: int) -> int {
    if len - start <= batch_size {
        len
    } else {
        start + batch_size
    }
}

/// The request that inserts the batch of entities that begins at `start`.
pub fn batch_from(index_name: &str, start: usize, data_len: usize, batch_size: usize) -> (request:
    EsRequest)
    requires
        start <= data_len,
    ensures
        request@ == (EsRequestView::Bulk {
            index: index_name@,
            start: start as int,
            end: batch_end(start as int, data_len as int, batch_size as int),
        }),
{
    let end: usize = if data_len - start <= batch_size {
        data_len
    } else {
        start + batch_size
    };
    EsRequest::Bulk { index: String::from_str(index_name), start, end }
}

/// The batches in which `data_len` entities are inserted into an index,
/// `batch_size` to a batch, in the order of the entities.
pub fn bulk_batches(index_name: &str, data_len: usize, batch_size: usize) -> (plan: Vec<EsRequest>)
    requires
        batch_size > 0,
    ensures
        plan.len() == chunk_count(data_len as int, batch_size as int),
        forall|k: int|
            0 <= k < plan.len() ==> (#[trigger] plan[k])@ == (EsRequestView::Bulk {
                index: index_name@,
                start: chunk_start(k, batch_size as int),
                end: chunk_end(k, data_len as int, batch_size as int),
            }),
{
    let mut plan: Vec<EsRequest> = Vec::new();
    let mut start: usize = 0;
    proof {
        lemma_chunk_count(data_len as int, batch_size as int);
        if data_len > 0 {
            lemma_chunks_cover(data_len as int, batch_size as int, 0);
        }
    }
    while start < data_len
        invariant
            batch_size > 0,
            start <= data_len,
            plan.len() <= chunk_count(data_len as int, batch_size as int),
            start == if plan.len() < chunk_count(data_len as int, batch_size as int) {
                chunk_start(plan.len() as int, batch_size as int)
            } else {
                data_len as int
            },
            forall|k: int|
                0 <= k < plan.len() ==> (#[trigger] plan[k])@ == (EsRequestView::Bulk {
                    index: index_name@,
                    start: chunk_start(k, batch_size as int),
                    end: chunk_end(k, data_len as int, batch_size as int),
                }),
        decreases data_len - start,
    {
        let ghost k = plan.len() as int;
        proof {
            lemma_chunks_cover(data_len as int, batch_size as int, k);
        }
        let end: usize = if data_len - start <= batch_size {
            data_len
        } else {
            start + batch_size
        };
        plan.push(batch_from(index_name, start, data_len, batch_size));
        start = end;
    }
    proof {
        if plan.len() < chunk_count(data_len as int, batch_size as int) {
            lemma_chunks_cover(data_len as int, batch_size as int, plan.len() as int);
        }
    }
    plan
}


impl EsRepositoryPub {
    /// Moves an alias from one index to another in one atomic change: the
    /// old index is removed from the alias and the new one added.
    pub fn update_index_alias(&self, index_alias: &str, new_index_name: &str, old_index_name: &str)
        -> (request: EsRequest)
        ensures
            request@ == (EsRequestView::UpdateAliases {
                actions: seq![
                    AliasActionView::Remove { index: old_index_name@, alias: index_alias@ },
                    AliasActionView::Add { index: new_index_name@, alias: index_alias@ },
                ],
            }),
    {
        let mut actions: Vec<AliasAction> = Vec::new();
        actions.push(
            AliasAction::Remove {
                index: String::from_str(old_index_name),
                alias: String::from_str(index_alias),
            },
        );
        actions.push(
            AliasAction::Add {
                index: String::from_str(new_index_name),
                alias: String::from_str(index_alias),
            },
        );
        assert(action_views(actions@) =~= seq![
            AliasActionView::Remove { index: old_index_name@, alias: index_alias@ },
            AliasActionView::Add { index: new_index_name@, alias: index_alias@ },
        ]);
        EsRequest::UpdateAliases { actions }
    }

    /// Points a new alias at an index.
    pub fn create_index_alias(&self, index_alias: &str, index_name: &str) -> (request: EsRequest)
        ensures
            request@ == (EsRequestView::UpdateAliases {
                actions: seq![AliasActionView::Add { index: index_name@, alias: index_alias@ }],
            }),
    {
        let mut actions: Vec<AliasAction> = Vec::new();
        actions.push(
            AliasAction::Add {
                index: String::from_str(index_name),
                alias: String::from_str(index_alias),
            },
        );
        assert(action_views(actions@) =~= seq![
            AliasActionView::Add { index: index_name@, alias: index_alias@ },
        ]);
        EsRequest::UpdateAliases { actions }
    }

    /// Asks which indices an alias points at.
    pub fn get_indexes_mapping_by_alias(&self, index_alias_name: &str) -> (request: EsRequest)
        ensures
            request@ == (EsRequestView::GetAlias { name: index_alias_name@ }),
    {
        EsRequest::GetAlias { name: String::from_str(index_alias_name) }
    }

    /// Creates an index with the given settings and mappings.
    pub fn create_index(&self, index_name: &str, index_setting_json: &str) -> (request: EsRequest)
        ensures
            request@ == (EsRequestView::CreateIndex {
                index: index_name@,
                settings: index_setting_json@,
            }),
    {
        EsRequest::CreateIndex {
            index: String::from_str(index_name),
            settings: String::from_str(index_setting_json),
        }
    }

    /// The batches in which `data_len` entities are inserted into an index,
    /// `batch_size` to a batch, in the order of the entities.
    pub fn bulk_indexing_query(&self, index_name: &str, data_len: usize, batch_size: usize) -> (plan:
        Vec<EsRequest>)
        requires
            batch_size > 0,
        ensures
            plan.len() == chunk_count(data_len as int, batch_size as int),
            forall|k: int|
                0 <= k < plan.len() ==> (#[trigger] plan[k])@ == (EsRequestView::Bulk {
                    index: index_name@,
                    start: chunk_start(k, batch_size as int),
                    end: chunk_end(k, data_len as int, batch_size as int),
                }),
    {
        bulk_batches(index_name, data_len, batch_size)
    }

    /// Closes a scroll.
    pub fn clear_scroll_info(&self, scroll_id: &str) -> (request: EsRequest)
        ensures
            request@ == (EsRequestView::ClearScroll { scroll_id: scroll_id@ }),
    {
        EsRequest::ClearScroll { scroll_id: String::from_str(scroll_id) }
    }

    /// Continues a scroll.
    pub fn get_scroll_search_query(&self, scroll_duration: &str, scroll_id: &str) -> (request:
        EsRequest)
        ensures
            request@ == (EsRequestView::Scroll {
                scroll_duration: scroll_duration@,
                scroll_id: scroll_id@,
            }),
    {
        EsRequest::Scroll {
            scroll_duration: String::from_str(scroll_duration),
            scroll_id: String::from_str(scroll_id),
        }
    }

    /// Opens a scroll with a query.
    pub fn get_scroll_initial_search_query(
        &self,
        index_name: &str,
        scroll_duration: &str,
        es_query: &str,
    ) -> (request: EsRequest)
        ensures
            request@ == (EsRequestView::ScrollSearch {
                index: index_name@,
                scroll_duration: scroll_duration@,
                query: es_query@,
            }),
    {
        EsRequest::ScrollSearch {
            index: String::from_str(index_name),
            scroll_duration: String::from_str(scroll_duration),
            query: String::from_str(es_query),
        }
    }

    /// Searches an index with a query.
    pub fn get_search_query(&self, es_query: &str, index_name: &str) -> (request: EsRequest)
        ensures
            request@ == (EsRequestView::Search { index: index_name@, query: es_query@ }),
    {
        EsRequest::Search {
            index: String::from_str(index_name),
            query: String::from_str(es_query),
        }
    }

    /// Inserts one document into an index.
    pub fn post_query(&self, document: &str, index_name: &str) -> (request: EsRequest)
        ensures
            request@ == (EsRequestView::IndexDocument { index: index_name@, document: document@ }),
    {
        EsRequest::IndexDocument {
            index: String::from_str(index_name),
            document: String::from_str(document),
        }
    }

    /// Deletes an index as a whole.
    pub fn delete_query(&self, index_name: &str) -> (request: EsRequest)
        ensures
            request@ == (EsRequestView::DeleteIndex { index: index_name@ }),
    {
        EsRequest::DeleteIndex { index: String::from_str(index_name) }
    }

    /// Deletes the document with the given id.
    pub fn delete_query_doc(&self, doc_id: &str, index_name: &str) -> (request: EsRequest)
        ensures
            request@ == (EsRequestView::DeleteDocument { index: index_name@, doc_id: doc_id@ }),
    {
        EsRequest::DeleteDocument {
            index: String::from_str(index_name),
            doc_id: String::from_str(doc_id),
        }
    }

    /// Deletes the documents of an index whose field has the given value.
    pub fn delete_query_where_field(&self, index_name: &str, field_name: &str, field_value: i32)
        -> (request: EsRequest)
        ensures
            request@ == (EsRequestView::DeleteByQuery {
                index: index_name@,
                field: field_name@,
                value: field_value,
            }),
    {
        EsRequest::DeleteByQuery {
            index: String::from_str(index_name),
            field: String::from_str(field_name),
            value: field_value,
        }
    }

    /// Makes what was written to an index searchable at once.
    pub fn refresh_index(&self, index_name: &str) -> (request: EsRequest)
        ensures
            request@ == (EsRequestView::Refresh { index: index_name@ }),
    {
        EsRequest::Refresh { index: String::from_str(index_name) }
    }

    /// Asks for an index, to learn whether it exists.
    pub fn check_index_exist(&self, index_name: &str) -> (request: EsRequest)
        ensures
            request@ == (EsRequestView::GetIndex { index: index_name@ }),
    {
        EsRequest::GetIndex { index: String::from_str(index_name) }
    }
}

} // verus!
