//! The handles to the search engine: how they are built, pooled, handed out
//! and given back.

use crate::error::SyncError;
use std::collections::VecDeque;
use vstd::prelude::*;
use vstd::string::*;

verus! {

/// How often a checkout looks for an idle handle before it gives up.
pub const CHECKOUT_ATTEMPTS: u32 = 10;

/// How many seconds a checkout waits after it found no idle handle.
pub const CHECKOUT_WAIT_SECS: u64 = 7;

/// Whether `url::Url::parse`, which the `elasticsearch` crate hands on as
/// `elasticsearch::http::Url::parse`, accepts `text` as a URL.
pub uninterp spec fn url_accepted(text: Seq<char>) -> bool;

/// `elasticsearch::http::Url::parse`: whether it accepts the text.
#[verifier::external_body]
fn url_parses(text: &str) -> (accepted: bool)
    ensures
        accepted == url_accepted(text@),
{
    elasticsearch::http::Url::parse(text).is_ok()
}

/// The address of a node with the credentials in it.
pub open spec fn endpoint_text(es_id: Seq<char>, es_pw: Seq<char>, host: Seq<char>) -> Seq<char> {
    "http://"@ + es_id + ":"@ + es_pw + "@"@ + host
}

/// One node of the search engine: its host and the address under which it is
/// called.
#[derive(Debug)]
pub struct EsClient {
    host: String,
    endpoint: String,
}

impl EsClient {
    /// The host as it was configured.
    pub closed spec fn host_text(&self) -> Seq<char> {
        self.host@
    }

    /// The address with the credentials in it.
    pub closed spec fn endpoint_text(&self) -> Seq<char> {
        self.endpoint@
    }

    /// The host as it was configured.
    pub fn host(&self) -> (host: &String)
        ensures
            host@ == self.host_text(),
    {
        &self.host
    }

    /// The address with the credentials in it.
    pub fn endpoint(&self) -> (endpoint: &String)
        ensures
            endpoint@ == self.endpoint_text(),
    {
        &self.endpoint
    }
}

/// One handle to the search engine: all its nodes together. An operation
/// holds a handle for itself from checkout to release.
#[derive(Debug)]
pub struct EsRepositoryPub {
    es_clients: Vec<EsClient>,
}

impl EsRepositoryPub {
    /// The nodes of the handle.
    pub closed spec fn nodes(&self) -> Seq<EsClient> {
        self.es_clients@
    }

    /// A handle to the nodes at `es_url_vec`, called with the given
    /// credentials. It is refused where the address of a node is no URL.
    pub fn new(es_url_vec: Vec<String>, es_id: &str, es_pw: &str) -> (r: Result<
        EsRepositoryPub,
        SyncError,
    >)
        ensures
            r is Ok <==> forall|i: int|
                0 <= i < es_url_vec.len() ==> url_accepted(
                    endpoint_text(es_id@, es_pw@, #[trigger] es_url_vec[i]@),
                ),
            r matches Ok(repo) ==> is_handle_to(repo, es_url_vec@, es_id@, es_pw@),
            r matches Err(e) ==> names_refused_host(e, es_url_vec@, es_id@, es_pw@),
    {
        let mut es_clients: Vec<EsClient> = Vec::new();
        let mut i: usize = 0;
        while i < es_url_vec.len()
            invariant
                i <= es_url_vec.len(),
                es_clients.len() == i,
                forall|j: int|
                    0 <= j < i ==> url_accepted(
                        endpoint_text(es_id@, es_pw@, #[trigger] es_url_vec[j]@),
                    ),
                forall|j: int|
                    0 <= j < i ==> (#[trigger] es_clients[j]).host@ == es_url_vec[j]@
                        && es_clients[j].endpoint@ == endpoint_text(
                        es_id@,
                        es_pw@,
                        es_url_vec[j]@,
                    ),
            decreases es_url_vec.len() - i,
        {
            let url = &es_url_vec[i];
            let mut parse_url: String = String::from_str("http://");
            parse_url.append(es_id);
            parse_url.append(":");
            parse_url.append(es_pw);
            parse_url.append("@");
            parse_url.append(url.as_str());
            if !url_parses(parse_url.as_str()) {
                let mut detail = String::from_str("invalid node address: ");
                detail.append(url.as_str());
                return Err(SyncError::Configuration { detail });
            }
            es_clients.push(EsClient { host: url.clone(), endpoint: parse_url });
            i += 1;
        }
        Ok(EsRepositoryPub { es_clients })
    }

    /// The number of nodes.
    pub fn node_count(&self) -> (n: usize)
        ensures
            n == self.nodes().len(),
    {
        self.es_clients.len()
    }

    /// The node at place `i`.
    pub fn node(&self, i: usize) -> (node: &EsClient)
        requires
            i < self.nodes().len(),
        ensures
            *node == self.nodes()[i as int],
    {
        &self.es_clients[i]
    }
}

/// The failure names the first of the hosts whose address is no URL.
pub open spec fn names_refused_host(
    e: SyncError,
    hosts: Seq<String>,
    es_id: Seq<char>,
    es_pw: Seq<char>,
) -> bool {
    exists|i: int|
        0 <= i < hosts.len() && !url_accepted(endpoint_text(es_id, es_pw, #[trigger] hosts[i]@))
            && e.is_configuration_of("invalid node address: "@ + hosts[i]@) && forall|j: int|
            0 <= j < i ==> url_accepted(endpoint_text(es_id, es_pw, #[trigger] hosts[j]@))
}

/// The handle holds one node for each of the hosts, in their order, each
/// with the address in which the credentials stand.
pub open spec fn is_handle_to(
    repo: EsRepositoryPub,
    hosts: Seq<String>,
    es_id: Seq<char>,
    es_pw: Seq<char>,
) -> bool {
    &&& repo.nodes().len() == hosts.len()
    &&& forall|i: int|
        0 <= i < hosts.len() ==> (#[trigger] repo.nodes()[i]).host_text() == hosts[i]@
            && repo.nodes()[i].endpoint_text() == endpoint_text(es_id, es_pw, hosts[i]@)
}

/// A copy of a list of strings.
fn clone_texts(texts: &Vec<String>) -> (copy: Vec<String>)
    ensures
        copy@ == texts@,
{
    let mut copy: Vec<String> = Vec::new();
    let mut i: usize = 0;
    while i < texts.len()
        invariant
            i <= texts.len(),
            copy@ == texts@.take(i as int),
        decreases texts.len() - i,
    {
        copy.push(texts[i].clone());
        assert(copy@ =~= texts@.take(i + 1));
        i += 1;
    }
    assert(texts@.take(i as int) =~= texts@);
    copy
}

/// The queue of a pool with `pool_cnt` handles, each to all the nodes at
/// `es_host`. It is refused where the address of a node is no URL.
pub fn initialize_elastic_clients(
    pool_cnt: usize,
    es_host: &Vec<String>,
    es_id: &str,
    es_pw: &str,
) -> (r: Result<VecDeque<EsRepositoryPub>, SyncError>)
    ensures
        r is Ok <==> pool_cnt == 0 || forall|i: int|
            0 <= i < es_host.len() ==> url_accepted(
                endpoint_text(es_id@, es_pw@, #[trigger] es_host[i]@),
            ),
        r matches Ok(queue) ==> queue.len() == pool_cnt && forall|k: int|
            0 <= k < pool_cnt ==> is_handle_to(#[trigger] queue@[k], es_host@, es_id@, es_pw@),
        r matches Err(e) ==> names_refused_host(e, es_host@, es_id@, es_pw@),
{
    let mut es_pool_vec: VecDeque<EsRepositoryPub> = VecDeque::new();
    let mut conn_id: usize = 0;
    while conn_id < pool_cnt
        invariant
            conn_id <= pool_cnt,
            es_pool_vec.len() == conn_id,
            conn_id > 0 ==> forall|i: int|
                0 <= i < es_host.len() ==> url_accepted(
                    endpoint_text(es_id@, es_pw@, #[trigger] es_host[i]@),
                ),
            forall|k: int|
                0 <= k < conn_id ==> is_handle_to(#[trigger] es_pool_vec@[k], es_host@, es_id@, es_pw@),
        decreases pool_cnt - conn_id,
    {
        let es_connection = match EsRepositoryPub::new(clone_texts(es_host), es_id, es_pw) {
            Ok(es_client) => es_client,
            Err(err) => {
                return Err(err);
            },
        };
        es_pool_vec.push_back(es_connection);
        conn_id += 1;
    }
    Ok(es_pool_vec)
}

/// A handle that an operation holds. It is given back to the queue it came
/// from by [`ElasticConnGuard::release`], on every path on which the
/// operation ends.
#[derive(Debug)]
pub struct ElasticConnGuard {
    es_repo: Option<EsRepositoryPub>,
}

impl ElasticConnGuard {
    /// The handle that the guard holds; `None` once it was given back.
    pub closed spec fn held(&self) -> Option<EsRepositoryPub> {
        self.es_repo
    }

    /// A guard that holds `es_repo`.
    pub fn new(es_repo: EsRepositoryPub) -> (guard: ElasticConnGuard)
        ensures
            guard.held() == Some(es_repo),
    {
        ElasticConnGuard { es_repo: Some(es_repo) }
    }

    /// The handle, while the guard holds it.
    pub fn handle(&self) -> (es_repo: Option<&EsRepositoryPub>)
        ensures
            es_repo is Some <==> self.held() is Some,
            es_repo matches Some(h) ==> *h == self.held()->0,
    {
        self.es_repo.as_ref()
    }

    /// Gives the handle back to the end of `pool`. A guard that holds none
    /// any more leaves `pool` as it is.
    pub fn release(&mut self, pool: &mut VecDeque<EsRepositoryPub>)
        ensures
            final(self).held() is None,
            final(pool)@ == match old(self).held() {
                Some(es_repo) => old(pool)@.push(es_repo),
                None => old(pool)@,
            },
    {
        if let Some(es_repo) = self.es_repo.take() {
            release_elastic_conn(pool, es_repo);
        }
    }
}

/// What one look into the queue of idle handles gave.
#[derive(Debug)]
pub enum ConnAttempt {
    /// A handle was idle and is now held by the guard.
    Acquired(ElasticConnGuard),
    /// No handle was idle: wait for so many seconds, then look again.
    Wait(u64),
    /// No handle was idle in any of the attempts: the operation fails.
    Exhausted(SyncError),
}

/// Returns a handle to the end of the queue of idle handles.
pub fn release_elastic_conn(pool: &mut VecDeque<EsRepositoryPub>, es_repo: EsRepositoryPub)
    ensures
        final(pool)@ == old(pool)@.push(es_repo),
{
    pool.push_back(es_repo);
}

/// One attempt of a checkout, after `failed_attempts` attempts that found no
/// idle handle. It takes the handle at the front of the queue. Where the
/// queue is empty it asks to wait [`CHECKOUT_WAIT_SECS`] seconds, and after
/// [`CHECKOUT_ATTEMPTS`] such attempts the checkout fails for good.
pub fn get_elastic_conn(pool: &mut VecDeque<EsRepositoryPub>, failed_attempts: u32) -> (step:
    ConnAttempt)
    ensures
        match step {
            ConnAttempt::Acquired(guard) => {
                &&& failed_attempts < CHECKOUT_ATTEMPTS
                &&& old(pool)@.len() > 0
                &&& guard.held() == Some(old(pool)@[0])
                &&& final(pool)@ == old(pool)@.drop_first()
            },
            ConnAttempt::Wait(seconds) => {
                &&& failed_attempts < CHECKOUT_ATTEMPTS
                &&& old(pool)@.len() == 0
                &&& seconds == CHECKOUT_WAIT_SECS
                &&& final(pool)@ == old(pool)@
            },
            ConnAttempt::Exhausted(e) => {
                &&& failed_attempts >= CHECKOUT_ATTEMPTS
                &&& e is ConnectionExhausted
                &&& final(pool)@ == old(pool)@
            },
        },
{
    if failed_attempts >= CHECKOUT_ATTEMPTS {
        return ConnAttempt::Exhausted(SyncError::ConnectionExhausted);
    }
    match pool.pop_front() {
        Some(es_repo) => ConnAttempt::Acquired(ElasticConnGuard::new(es_repo)),
        None => ConnAttempt::Wait(CHECKOUT_WAIT_SECS),
    }
}

/// A handle that was taken from the queue and given back is the last in the
/// queue, behind the handles that were idle meanwhile: no handle is lost and
/// none is there twice.
pub proof fn lemma_checkout_then_release(pool: Seq<EsRepositoryPub>)
    requires
        pool.len() > 0,
    ensures
        pool.drop_first().push(pool[0]).len() == pool.len(),
        pool.drop_first().push(pool[0]).to_multiset() == pool.to_multiset(),
{
    broadcast use vstd::seq_lib::group_to_multiset_ensures;

    let rest = pool.drop_first();
    assert(pool =~= rest.insert(0, pool[0]));
    vstd::seq_lib::to_multiset_insert(rest, 0, pool[0]);
}

} // verus!
