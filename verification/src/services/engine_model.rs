//! The indices and aliases of the search engine as far as a re-index changes
//! them, and what the cut-over of an alias does to them.

use crate::repository::es_request::{AliasActionView, EsRequestView};
use crate::services::es_query_service::{
    alias_request, json_first_key, AnswerView, StaticIndexingView, StaticPhase,
};
use vstd::prelude::*;

verus! {

/// The indices that exist, and for each alias the indices it points at.
pub struct EngineState {
    pub indices: Set<Seq<char>>,
    pub aliases: Map<Seq<char>, Set<Seq<char>>>,
}

impl EngineState {
    /// The indices that `alias` resolves to.
    pub open spec fn resolve(self, alias: Seq<char>) -> Set<Seq<char>> {
        if self.aliases.contains_key(alias) {
            self.aliases[alias]
        } else {
            Set::empty()
        }
    }

    /// The state after one entry of a change of aliases.
    pub open spec fn after_action(self, action: AliasActionView) -> EngineState {
        match action {
            AliasActionView::Remove { index, alias } => EngineState {
                aliases: self.aliases.insert(alias, self.resolve(alias).remove(index)),
                ..self
            },
            AliasActionView::Add { index, alias } => EngineState {
                aliases: self.aliases.insert(alias, self.resolve(alias).insert(index)),
                ..self
            },
        }
    }

    /// The state after all entries of a change of aliases, which the engine
    /// applies as one step.
    pub open spec fn after_actions(self, actions: Seq<AliasActionView>) -> EngineState
        decreases actions.len(),
    {
        if actions.len() == 0 {
            self
        } else {
            self.after_actions(actions.drop_last()).after_action(actions.last())
        }
    }

    /// The state after a request that the engine answered with success. An
    /// index that is deleted leaves every alias that pointed at it.
    pub open spec fn after(self, request: EsRequestView) -> EngineState {
        match request {
            EsRequestView::CreateIndex { index, .. } => EngineState {
                indices: self.indices.insert(index),
                ..self
            },
            EsRequestView::DeleteIndex { index } => EngineState {
                indices: self.indices.remove(index),
                aliases: Map::new(
                    |alias: Seq<char>| self.aliases.contains_key(alias),
                    |alias: Seq<char>| self.aliases[alias].remove(index),
                ),
            },
            EsRequestView::UpdateAliases { actions } => self.after_actions(actions),
            _ => self,
        }
    }
}

/// The cut-over of a full re-index: once the engine has named the old index
/// of the alias, the run moves the alias to the new index in one step and
/// then deletes the old index. After the first step the alias resolves to
/// the new index alone, and after the second the old index exists no more.
/// The two indices must be different ones: with one name for both, the
/// index that the alias points at in the end would be the one deleted.
pub proof fn lemma_cut_over(run: StaticIndexingView, engine: EngineState, document: Seq<char>)
    requires
        run.phase == StaticPhase::Resolving,
        json_first_key(document) is Some,
        engine.resolve(run.alias) == set![
            json_first_key(document)->0,
        ],
        engine.indices.contains(run.new_index),
        run.new_index != json_first_key(document)->0,
    ensures
        ({
            let old_index = json_first_key(document)->0;
            let swapping = run.next(AnswerView::Document(document));
            let dropping = swapping.0.next(AnswerView::Empty);
            let moved = engine.after(swapping.1->0);
            let dropped = moved.after(dropping.1->0);
            &&& swapping.1 is Some
            &&& dropping.1 is Some
            &&& moved.resolve(run.alias) == set![run.new_index]
            &&& dropped.resolve(run.alias) == set![run.new_index]
            &&& !dropped.indices.contains(old_index)
            &&& dropped.indices.contains(run.new_index)
            &&& dropping.0.next(AnswerView::Empty).1 == Some(EsRequestView::Refresh { index: run.alias })
        }),
{
    let old_index = json_first_key(document)->0;
    let swapping = run.next(AnswerView::Document(document));
    let actions = seq![
        AliasActionView::Remove { index: old_index, alias: run.alias },
        AliasActionView::Add { index: run.new_index, alias: run.alias },
    ];
    assert(swapping.1 == Some(EsRequestView::UpdateAliases { actions }));
    let first = actions.drop_last();
    assert(first.drop_last() =~= Seq::<AliasActionView>::empty());
    assert(first.last() == actions[0]);
    assert(engine.after_actions(first.drop_last()) == engine);
    let removed = engine.after_actions(first);
    assert(removed == engine.after_action(actions[0]));
    assert(removed.resolve(run.alias) =~= Set::<Seq<char>>::empty());
    let moved = engine.after_actions(actions);
    assert(moved == removed.after_action(actions[1]));
    assert(moved.resolve(run.alias) =~= set![run.new_index]);
    let dropping = swapping.0.next(AnswerView::Empty);
    assert(dropping.1 == Some(EsRequestView::DeleteIndex { index: old_index }));
    let dropped = moved.after(dropping.1->0);
    assert(dropped.aliases.contains_key(run.alias));
    assert(dropped.resolve(run.alias) =~= set![run.new_index]);
}

/// The question whether the alias is known has one answer that lets the run
/// create the alias: that it does not exist. Then the alias, which resolved
/// to nothing, resolves to the new index alone. Any other failure of the
/// question ends the run, and no change of aliases is sent beside a mapping
/// that may still be there.
pub proof fn lemma_probe(run: StaticIndexingView, engine: EngineState)
    requires
        run.phase == StaticPhase::Probing,
        engine.resolve(run.alias) == Set::<Seq<char>>::empty(),
    ensures
        run.next(AnswerView::Failed) == run.fail(),
        run.next(AnswerView::Failed).1 is None,
        run.next(AnswerView::NotFound).1 == Some(alias_request(run.alias, run.new_index)),
        engine.after(alias_request(run.alias, run.new_index)).resolve(run.alias) == set![
            run.new_index,
        ],
{
    let actions = seq![AliasActionView::Add { index: run.new_index, alias: run.alias }];
    assert(actions.drop_last() =~= Seq::<AliasActionView>::empty());
    assert(engine.after_actions(actions.drop_last()) == engine);
    let added = engine.after_actions(actions);
    assert(added == engine.after_action(actions[0]));
    assert(added.resolve(run.alias) =~= set![run.new_index]);
}

} // verus!
