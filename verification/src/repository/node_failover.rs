//! One operation against the nodes of a handle: the nodes are tried in a
//! shuffled order until one answers.

use crate::error::SyncError;
use crate::models::store_to_elastic::clone_opt_text;
use crate::repository::es_repository::{EsClient, EsRepositoryPub};
use vstd::prelude::*;

verus! {

/// What a node answered: the status of the answer and its body as text.
#[derive(Debug)]
pub struct EsResponse {
    pub status: u16,
    pub body: String,
}

/// What to do next for an operation.
#[derive(Debug)]
pub enum NodeStep {
    /// Call the node at this place of the handle.
    Try(usize),
    /// A node answered: the operation ends with its answer.
    Done(EsResponse),
    /// No node answered: the operation fails.
    Failed(SyncError),
}

/// The places `0 .. n`, each once, in some order.
pub open spec fn is_order_of(order: Seq<usize>, n: nat) -> bool {
    &&& order.len() == n
    &&& order.no_duplicates()
    &&& forall|k: int| 0 <= k < order.len() ==> (#[trigger] order[k]) < n
}

/// The step after `tried` nodes failed, the last of them with `last_error`:
/// the next node of the order, or the failure of the operation once the
/// order is used up.
pub open spec fn step_after_failures(order: Seq<usize>, tried: nat, last_error: Option<String>)
    -> NodeStep {
    if tried < order.len() {
        NodeStep::Try(order[tried as int])
    } else {
        NodeStep::Failed(SyncError::AllNodesFailed { last_error })
    }
}

/// How an operation ends when the node tried as number `k` gives
/// `outcomes[k]`, from the attempt `tried` on: with the first answer, or with
/// the failure of the last node. While `outcomes` is shorter than the run
/// needs, the result is the step that waits for the next outcome.
pub open spec fn replay(
    order: Seq<usize>,
    outcomes: Seq<Result<EsResponse, String>>,
    tried: nat,
    last_error: Option<String>,
) -> NodeStep
    decreases order.len() - tried,
{
    if tried >= order.len() || tried >= outcomes.len() {
        step_after_failures(order, tried, last_error)
    } else {
        match outcomes[tried as int] {
            Ok(response) => NodeStep::Done(response),
            Err(e) => replay(order, outcomes, tried + 1, Some(e)),
        }
    }
}

/// `rand::seq::SliceRandom::shuffle` with a generator from
/// `rand::SeedableRng::from_entropy`: the places are swapped among
/// themselves, so the same places are there afterwards, in an order that
/// chance decides. The generator needs the entropy source of the system.
#[verifier::external_body]
fn shuffle_places(places: &mut Vec<usize>)
    ensures
        final(places)@.to_multiset() == old(places)@.to_multiset(),
{
    let mut rng: rand::rngs::StdRng = rand::SeedableRng::from_entropy();
    rand::seq::SliceRandom::shuffle(places.as_mut_slice(), &mut rng);
}

/// The places `0 .. n` in rising order.
fn places_in_line(n: usize) -> (places: Vec<usize>)
    ensures
        is_order_of(places@, n as nat),
        forall|k: int| 0 <= k < n ==> places[k] == k,
{
    let mut places: Vec<usize> = Vec::new();
    let mut k: usize = 0;
    while k < n
        invariant
            k <= n,
            places.len() == k,
            forall|j: int| 0 <= j < k ==> places[j] == j,
        decreases n - k,
    {
        places.push(k);
        k += 1;
    }
    places
}

/// A list with the same members as an order is an order too.
pub proof fn lemma_same_members_same_order(before: Seq<usize>, after: Seq<usize>, n: nat)
    requires
        is_order_of(before, n),
        after.to_multiset() == before.to_multiset(),
    ensures
        is_order_of(after, n),
{
    broadcast use vstd::seq_lib::group_to_multiset_ensures;

    before.lemma_multiset_has_no_duplicates();
    assert(after.len() == after.to_multiset().len());
    assert(before.len() == before.to_multiset().len());
    after.lemma_multiset_has_no_duplicates_conv();
    assert(after.no_duplicates());
    assert forall|k: int| 0 <= k < after.len() implies (#[trigger] after[k]) < n by {
        assert(after.contains(after[k]));
        assert(after.to_multiset().count(after[k]) > 0);
        assert(before.contains(after[k]));
    }
}

/// The run of one operation over the nodes of a handle.
#[derive(Debug)]
pub struct NodeFailover {
    order: Vec<usize>,
    tried: usize,
    last_error: Option<String>,
}

impl NodeFailover {
    #[verifier::type_invariant]
    spec fn within_order(self) -> bool {
        self.tried <= self.order.len()
    }

    /// The places of the nodes in the order in which they are tried.
    pub closed spec fn order(&self) -> Seq<usize> {
        self.order@
    }

    /// How many nodes failed so far.
    pub closed spec fn tried(&self) -> nat {
        self.tried as nat
    }

    /// The failure of the node that failed last.
    pub closed spec fn last_error(&self) -> Option<String> {
        self.last_error
    }

    /// A run that tries the nodes in the given order.
    pub fn in_order(order: Vec<usize>) -> (run: NodeFailover)
        ensures
            run.order() == order@,
            run.tried() == 0,
            run.last_error() is None,
    {
        NodeFailover { order, tried: 0, last_error: None }
    }

    /// A run over the nodes of `es_repo` in an order that chance decides:
    /// each node has its place in it once.
    pub fn begin(es_repo: &EsRepositoryPub) -> (run: NodeFailover)
        ensures
            is_order_of(run.order(), es_repo.nodes().len()),
            run.tried() == 0,
            run.last_error() is None,
    {
        let mut places = places_in_line(es_repo.node_count());
        let ghost before = places@;
        shuffle_places(&mut places);
        proof {
            lemma_same_members_same_order(before, places@, es_repo.nodes().len());
        }
        NodeFailover::in_order(places)
    }

    /// The step that the run is at: the node to call, or the failure of the
    /// operation once every node failed.
    pub fn step(&self) -> (step: NodeStep)
        ensures
            step == step_after_failures(self.order(), self.tried(), self.last_error()),
    {
        proof {
            use_type_invariant(self);
        }
        if self.tried < self.order.len() {
            NodeStep::Try(self.order[self.tried])
        } else {
            NodeStep::Failed(
                SyncError::AllNodesFailed { last_error: clone_opt_text(&self.last_error) },
            )
        }
    }

    /// Takes in what the node that was called gave, and says what to do next:
    /// an answer ends the operation, a failure is kept and leads to the next
    /// node, and the failure of the last node ends the operation with that
    /// failure in it.
    pub fn record(&mut self, outcome: Result<EsResponse, String>) -> (step: NodeStep)
        ensures
            final(self).order() == old(self).order(),
            match outcome {
                Ok(response) => {
                    &&& step == NodeStep::Done(response)
                    &&& final(self).tried() == old(self).tried()
                    &&& final(self).last_error() == old(self).last_error()
                },
                Err(e) => {
                    &&& final(self).tried() == if old(self).tried() < old(self).order().len() {
                        old(self).tried() + 1
                    } else {
                        old(self).tried()
                    }
                    &&& final(self).last_error() == Some(e)
                    &&& step == step_after_failures(
                        old(self).order(),
                        final(self).tried(),
                        Some(e),
                    )
                },
            },
    {
        proof {
            use_type_invariant(&*self);
        }
        match outcome {
            Ok(response) => NodeStep::Done(response),
            Err(e) => {
                if self.tried < self.order.len() {
                    self.tried = self.tried + 1;
                }
                self.last_error = Some(e);
                self.step()
            },
        }
    }
}

impl NodeFailover {
    /// Runs an operation over the nodes in the given order with outcomes
    /// that are known beforehand, `outcomes[k]` for the node tried as number
    /// `k`: each outcome is taken in by [`NodeFailover::record`] until the
    /// operation ends or the outcomes run out. The step it ends with is what
    /// [`replay`] says.
    pub fn run_over(order: Vec<usize>, outcomes: Vec<Result<EsResponse, String>>) -> (step:
        NodeStep)
        ensures
            step == replay(order@, outcomes@, 0, None),
    {
        let ghost places = order@;
        let ghost all = outcomes@;
        let mut run = NodeFailover::in_order(order);
        let mut rest = outcomes;
        let mut taken: usize = 0;
        loop
            invariant
                places == order@,
                all == outcomes@,
                run.order() == places,
                run.tried() == taken,
                taken <= all.len(),
                rest@ == all.skip(taken as int),
                replay(places, all, 0, None) == replay(
                    places,
                    all,
                    taken as nat,
                    run.last_error(),
                ),
            decreases all.len() - taken,
        {
            if rest.len() == 0 {
                return run.step();
            }
            match run.step() {
                NodeStep::Try(_) => {
                    let outcome = rest.remove(0);
                    assert(outcome == all[taken as int]);
                    assert(rest@ =~= all.skip(taken + 1));
                    let ghost given = outcome;
                    match run.record(outcome) {
                        NodeStep::Done(response) => {
                            assert(given is Ok);
                            assert(given matches Ok(answer) ==> answer == response);
                            return NodeStep::Done(response);
                        },
                        _ => {
                            assert(given is Err);
                            taken = taken + 1;
                        },
                    }
                },
                ended => {
                    return ended;
                },
            }
        }
    }
}

/// Where the first nodes of the order fail and the next one answers, the
/// operation ends with that answer, however many nodes failed before it.
pub proof fn lemma_survivor_answers(
    order: Seq<usize>,
    outcomes: Seq<Result<EsResponse, String>>,
    failing: nat,
)
    requires
        failing < order.len(),
        failing < outcomes.len(),
        forall|k: int| 0 <= k < failing ==> (#[trigger] outcomes[k]) is Err,
        outcomes[failing as int] is Ok,
    ensures
        replay(order, outcomes, 0, None) == NodeStep::Done(outcomes[failing as int]->Ok_0),
{
    lemma_replay_skips_failures(order, outcomes, 0, None, failing);
}

/// The run from attempt `tried` on passes over the failures up to the first
/// answer.
proof fn lemma_replay_skips_failures(
    order: Seq<usize>,
    outcomes: Seq<Result<EsResponse, String>>,
    tried: nat,
    last_error: Option<String>,
    failing: nat,
)
    requires
        tried <= failing < order.len(),
        failing < outcomes.len(),
        forall|k: int| tried <= k < failing ==> (#[trigger] outcomes[k]) is Err,
        outcomes[failing as int] is Ok,
    ensures
        replay(order, outcomes, tried, last_error) == NodeStep::Done(
            outcomes[failing as int]->Ok_0,
        ),
    decreases failing - tried,
{
    if tried < failing {
        assert(outcomes[tried as int] is Err);
        lemma_replay_skips_failures(
            order,
            outcomes,
            tried + 1,
            Some(outcomes[tried as int]->Err_0),
            failing,
        );
    }
}

/// With an outcome for every node, the operation fails exactly when every
/// node failed, and then with the failure of the last node in it.
pub proof fn lemma_fails_only_when_all_fail(
    order: Seq<usize>,
    outcomes: Seq<Result<EsResponse, String>>,
)
    requires
        outcomes.len() == order.len(),
    ensures
        replay(order, outcomes, 0, None) is Failed <==> forall|k: int|
            0 <= k < outcomes.len() ==> (#[trigger] outcomes[k]) is Err,
        replay(order, outcomes, 0, None) is Failed && order.len() > 0 ==> replay(
            order,
            outcomes,
            0,
            None,
        ) == NodeStep::Failed(
            SyncError::AllNodesFailed { last_error: Some(outcomes.last()->Err_0) },
        ),
        !(replay(order, outcomes, 0, None) is Try),
{
    lemma_replay_from(order, outcomes, 0, None);
}

/// The same, from attempt `tried` on.
proof fn lemma_replay_from(
    order: Seq<usize>,
    outcomes: Seq<Result<EsResponse, String>>,
    tried: nat,
    last_error: Option<String>,
)
    requires
        outcomes.len() == order.len(),
        tried <= order.len(),
    ensures
        replay(order, outcomes, tried, last_error) is Failed <==> forall|k: int|
            tried <= k < outcomes.len() ==> (#[trigger] outcomes[k]) is Err,
        replay(order, outcomes, tried, last_error) is Failed ==> replay(
            order,
            outcomes,
            tried,
            last_error,
        ) == NodeStep::Failed(
            SyncError::AllNodesFailed {
                last_error: if tried < order.len() {
                    Some(outcomes.last()->Err_0)
                } else {
                    last_error
                },
            },
        ),
        !(replay(order, outcomes, tried, last_error) is Try),
    decreases order.len() - tried,
{
    if tried < order.len() {
        match outcomes[tried as int] {
            Ok(_) => {},
            Err(e) => {
                lemma_replay_from(order, outcomes, tried + 1, Some(e));
            },
        }
    }
}

/// The operation can fail on `node`.
pub open spec fn can_fail_on<F: Fn(&EsClient) -> Result<EsResponse, String>>(
    operation: F,
    node: EsClient,
) -> bool {
    exists|e: String| call_ensures(operation, (&node,), Err::<EsResponse, String>(e))
}

/// The node tried as number `m` can give `response`, and every node tried
/// before it can fail.
pub open spec fn answered_at<F: Fn(&EsClient) -> Result<EsResponse, String>>(
    nodes: Seq<EsClient>,
    order: Seq<usize>,
    operation: F,
    m: int,
    response: EsResponse,
) -> bool {
    &&& 0 <= m < order.len()
    &&& call_ensures(operation, (&nodes[order[m] as int],), Ok::<EsResponse, String>(response))
    &&& forall|k: int| 0 <= k < m ==> can_fail_on(operation, #[trigger] nodes[order[k] as int])
}

/// Every node of the order can fail, and `e` holds a failure that the last
/// of them can give.
pub open spec fn failed_on_all<F: Fn(&EsClient) -> Result<EsResponse, String>>(
    nodes: Seq<EsClient>,
    order: Seq<usize>,
    operation: F,
    e: SyncError,
) -> bool {
    &&& forall|k: int|
        0 <= k < order.len() ==> can_fail_on(operation, #[trigger] nodes[order[k] as int])
    &&& e is AllNodesFailed
    &&& order.len() == 0 ==> e->last_error is None
    &&& order.len() > 0 ==> e->last_error is Some && call_ensures(
        operation,
        (&nodes[order.last() as int],),
        Err::<EsResponse, String>(e->last_error->0),
    )
}

/// `r` is what an operation over `nodes` in the order `order` may end with:
/// the answer of a node before which every node failed, or, after every node
/// failed, the failure of the last one.
pub open spec fn ends_as<F: Fn(&EsClient) -> Result<EsResponse, String>>(
    nodes: Seq<EsClient>,
    order: Seq<usize>,
    operation: F,
    r: Result<EsResponse, SyncError>,
) -> bool {
    &&& r matches Ok(response) ==> exists|m: int| #[trigger]
        answered_at(nodes, order, operation, m, response)
    &&& r matches Err(e) ==> failed_on_all(nodes, order, operation, e)
}

impl EsRepositoryPub {
    /// Runs `operation` against the nodes at the places `order`, one after
    /// the other, until one answers. It fails only after every node of the
    /// order failed.
    pub fn execute_in_order<F: Fn(&EsClient) -> Result<EsResponse, String>>(
        &self,
        order: Vec<usize>,
        operation: F,
    ) -> (r: Result<EsResponse, SyncError>)
        requires
            forall|k: int| 0 <= k < order.len() ==> (#[trigger] order[k]) < self.nodes().len(),
            forall|k: int|
                0 <= k < self.nodes().len() ==> call_requires(
                    operation,
                    (&#[trigger] self.nodes()[k],),
                ),
        ensures
            ends_as(self.nodes(), order@, operation, r),
    {
        let ghost places = order@;
        let ghost nodes = self.nodes();
        let mut run = NodeFailover::in_order(order);
        loop
            invariant
                nodes == self.nodes(),
                places == order@,
                run.order() == places,
                run.tried() <= places.len(),
                forall|k: int| 0 <= k < places.len() ==> (#[trigger] places[k]) < nodes.len(),
                forall|k: int|
                    0 <= k < nodes.len() ==> call_requires(operation, (&#[trigger] nodes[k],)),
                forall|k: int|
                    0 <= k < run.tried() ==> can_fail_on(
                        operation,
                        #[trigger] nodes[places[k] as int],
                    ),
                run.tried() == 0 ==> run.last_error() is None,
                run.tried() > 0 ==> (run.last_error() matches Some(message) && call_ensures(
                    operation,
                    (&nodes[places[run.tried() - 1] as int],),
                    Err::<EsResponse, String>(message),
                )),
            decreases places.len() - run.tried(),
        {
            match run.step() {
                NodeStep::Try(place) => {
                    let ghost at = run.tried() as int;
                    let outcome = operation(self.node(place));
                    let ghost given = outcome;
                    match run.record(outcome) {
                        NodeStep::Done(response) => {
                            assert(given == Ok::<EsResponse, String>(response));
                            assert(call_ensures(
                                operation,
                                (&nodes[places[at] as int],),
                                Ok::<EsResponse, String>(response),
                            ));
                            assert(answered_at(nodes, places, operation, at, response));
                            let ghost r = Ok::<EsResponse, SyncError>(response);
                            assert(r matches Ok(answer) ==> answer == response);

                            return Ok(response);
                        },
                        _ => {
                            assert(given is Err);
                            assert(can_fail_on(operation, nodes[places[at] as int]));
                        },
                    }
                },
                NodeStep::Failed(e) => {
                    assert(run.tried() == places.len());
                    assert(places.len() > 0 ==> places.last() == places[run.tried() - 1]);
                    return Err(e);
                },
                NodeStep::Done(response) => {
                    return Ok(response);
                },
            }
        }
    }

    /// Runs `operation` against the nodes of the handle in an order that
    /// chance decides, until one answers. Whatever the order, the call
    /// succeeds as soon as one node answers, and fails only after every node
    /// failed.
    pub fn execute_on_any_node<F: Fn(&EsClient) -> Result<EsResponse, String>>(
        &self,
        operation: F,
    ) -> (r: Result<EsResponse, SyncError>)
        requires
            forall|k: int|
                0 <= k < self.nodes().len() ==> call_requires(
                    operation,
                    (&#[trigger] self.nodes()[k],),
                ),
        ensures
            exists|order: Seq<usize>|
                is_order_of(order, self.nodes().len()) && #[trigger] ends_as(
                    self.nodes(),
                    order,
                    operation,
                    r,
                ),
    {
        let mut places = places_in_line(self.node_count());
        let ghost before = places@;
        shuffle_places(&mut places);
        proof {
            lemma_same_members_same_order(before, places@, self.nodes().len());
        }
        let ghost order = places@;
        let r = self.execute_in_order(places, operation);
        assert(ends_as(self.nodes(), order, operation, r));
        r
    }
}

} // verus!
