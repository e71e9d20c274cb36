//! The session context and its aggregation pipeline: gathering the
//! selected gems, dispatching them to the external synthesis service,
//! holding the most recent successful output, and committing parsed ideas
//! back into the store as new gems.
use crate::data::{clone_ids, ClassificationData, ClassificationView, DataGem, GemView};
use crate::selection::{
    lemma_reconciled_contains, lemma_reconciled_of_empty, reconciled, SelectionTracker,
};
use crate::storage::{StorageAdapter, StorageError};
use crate::store::GemStore;
use vstd::prelude::*;

verus! {

/// One idea parsed out of the synthesis service's output: a specification
/// text and a view-model payload.
pub struct MicroAppIdea {
    pub specification: String,
    pub view_model: String,
}

/// The mathematical value of a parsed idea.
pub struct IdeaView {
    pub specification: Seq<char>,
    pub view_model: Seq<char>,
}

impl View for MicroAppIdea {
    type V = IdeaView;

    open spec fn view(&self) -> IdeaView {
        IdeaView { specification: self.specification@, view_model: self.view_model@ }
    }
}

impl DeepView for MicroAppIdea {
    type V = IdeaView;

    open spec fn deep_view(&self) -> IdeaView {
        self@
    }
}

/// The snapshot handed to the synthesis service: the selected gems and the
/// query text as they stood when the combine was triggered. Later edits to
/// the store, the selection or the query do not affect it.
pub struct CombineRequest {
    /// Identifiers of the gathered gems, in store iteration order.
    pub source_ids: Vec<String>,
    /// The gathered gems, in the same order.
    pub gems: Vec<DataGem>,
    /// The query text at invocation time.
    pub query: String,
}

/// The user-visible outcome of the most recently resolved combine call.
#[derive(Clone, Copy, PartialEq, Eq, Structural, Debug)]
pub enum CombineOutcome {
    /// No combine call has resolved yet.
    NotRun,
    /// The most recently resolved call succeeded and filled the holding
    /// slot.
    Succeeded,
    /// The most recently resolved call failed; the holding slot was left
    /// untouched.
    Failed,
}

/// The identifiers of the entries that are selected, in store iteration
/// order.
pub open spec fn gathered_ids(entries: Seq<(String, DataGem)>, sel: Seq<Seq<char>>) -> Seq<
    Seq<char>,
>
    decreases entries.len(),
{
    if entries.len() == 0 {
        Seq::empty()
    } else {
        let rest = gathered_ids(entries.drop_last(), sel);
        if sel.contains(entries.last().0@) {
            rest.push(entries.last().0@)
        } else {
            rest
        }
    }
}

/// The gem values of the entries that are selected, in store iteration
/// order.
pub open spec fn gathered_gems(entries: Seq<(String, DataGem)>, sel: Seq<Seq<char>>) -> Seq<
    GemView,
>
    decreases entries.len(),
{
    if entries.len() == 0 {
        Seq::empty()
    } else {
        let rest = gathered_gems(entries.drop_last(), sel);
        if sel.contains(entries.last().0@) {
            rest.push(entries.last().1@)
        } else {
            rest
        }
    }
}

/// The gem a parsed idea is materialized as: unclassified, the
/// specification as description, the view model as payload, and the
/// gathered identifiers as provenance.
pub open spec fn idea_gem(idea: IdeaView, sources: Seq<Seq<char>>) -> GemView {
    GemView {
        classification: None,
        description: idea.specification,
        json_data: idea.view_model,
        derived_from: sources,
    }
}

/// The store mapping after committing `ideas` in order under the fresh
/// identifiers `ids`.
pub open spec fn committed_map(
    m: Map<Seq<char>, GemView>,
    ideas: Seq<IdeaView>,
    ids: Seq<Seq<char>>,
    sources: Seq<Seq<char>>,
) -> Map<Seq<char>, GemView>
    decreases ideas.len(),
{
    if ideas.len() == 0 {
        m
    } else {
        committed_map(m, ideas.drop_last(), ids.drop_last(), sources).insert(
            ids.last(),
            idea_gem(ideas.last(), sources),
        )
    }
}

/// The single user session: the gem store, the selection, the query text,
/// and the holding slot of the aggregation pipeline.
pub struct Session {
    pub store: GemStore,
    pub selection: SelectionTracker,
    /// The free-text query; a combine call snapshots it at invocation time.
    pub search: String,
    /// The most recent successful synthesis output, pending commit.
    pub holding: Option<String>,
    /// The identifiers that were gathered for the call that produced the
    /// holding slot; committed ideas record them as provenance.
    pub last_sources: Vec<String>,
    /// How many combine calls are currently awaiting resolution.
    pub in_flight: u64,
    pub outcome: CombineOutcome,
}

/// How `trigger_combine` changes the session: one more call is in flight,
/// everything else is untouched.
pub open spec fn combine_triggered(pre: Session, post: Session) -> bool {
    &&& post.store == pre.store
    &&& post.selection == pre.selection
    &&& post.search == pre.search
    &&& post.holding == pre.holding
    &&& post.last_sources == pre.last_sources
    &&& post.in_flight == pre.in_flight + 1
    &&& post.outcome == pre.outcome
}

/// How a successful resolution changes the session: the holding slot now
/// carries exactly this call's output, its gathered identifiers are
/// remembered, everything else is untouched.
pub open spec fn combine_succeeded(
    pre: Session,
    post: Session,
    output: Seq<char>,
    sources: Seq<Seq<char>>,
) -> bool {
    &&& post.store == pre.store
    &&& post.selection == pre.selection
    &&& post.search == pre.search
    &&& post.holding_view() == Some(output)
    &&& post.last_sources.deep_view() == sources
    &&& post.in_flight == pre.in_flight - 1
    &&& post.outcome == CombineOutcome::Succeeded
}

/// How a failed resolution changes the session: an error is surfaced, the
/// holding slot and its provenance are left untouched.
pub open spec fn combine_failed(pre: Session, post: Session) -> bool {
    &&& post.store == pre.store
    &&& post.selection == pre.selection
    &&& post.search == pre.search
    &&& post.holding == pre.holding
    &&& post.last_sources == pre.last_sources
    &&& post.in_flight == pre.in_flight - 1
    &&& post.outcome == CombineOutcome::Failed
}

/// Relies on `uuid::Uuid::new_v4` and its `Display` impl: a freshly drawn
/// random UUID rendered in the 36-character hyphenated form. The value is
/// random, so nothing beyond its length is promised.
#[verifier::external_body]
fn fresh_id() -> (r: String)
    ensures
        r@.len() == 36,
{
    uuid::Uuid::new_v4().to_string()
}

impl Session {
    /// The holding slot's text, if any output has been received yet.
    pub open spec fn holding_view(&self) -> Option<Seq<char>> {
        match self.holding {
            Some(s) => Some(s@),
            None => None,
        }
    }

    /// Whether a combine call is currently awaiting resolution.
    pub open spec fn running(&self) -> bool {
        self.in_flight > 0
    }

    pub open spec fn wf(&self) -> bool {
        &&& self.store.wf()
        &&& self.selection.wf()
    }

    /// Opens a session over the given backing store, loading the persisted
    /// collection.
    pub fn new(storage: StorageAdapter) -> (r: Result<Session, StorageError>)
        requires
            storage.wf(),
        ensures
            storage.spec_failing() ==> r is Err,
            !storage.spec_failing() ==> r is Ok && (r->Ok_0).wf() && (r->Ok_0).store@ == storage@
                && (r->Ok_0).selection.ids() == Seq::<Seq<char>>::empty() && (r->Ok_0).search@
                == Seq::<char>::empty() && (r->Ok_0).holding is None && (r->Ok_0).in_flight == 0
                && (r->Ok_0).outcome == CombineOutcome::NotRun && (
            r->Ok_0).last_sources@ == Seq::<String>::empty(),
    {
        let store = match GemStore::load(storage) {
            Ok(store) => store,
            Err(e) => {
                return Err(e);
            },
        };
        let session = Session {
            store,
            selection: SelectionTracker::new(),
            search: String::new(),
            holding: None,
            last_sources: Vec::new(),
            in_flight: 0,
            outcome: CombineOutcome::NotRun,
        };
        proof {
            assert(session.last_sources@ =~= Seq::<String>::empty());
        }
        Ok(session)
    }

    /// Adds a user-authored gem under a freshly generated identifier and
    /// returns that identifier. The persistence write comes first: on
    /// failure nothing changes.
    pub fn add_gem(&mut self, gem: DataGem) -> (r: Result<String, StorageError>)
        requires
            old(self).wf(),
        ensures
            final(self).wf(),
            old(self).store.spec_failing() ==> r is Err && *final(self) == *old(self),
            !old(self).store.spec_failing() ==> r is Ok && final(self).store@ == old(self).store@.insert((r->Ok_0)@, gem@) && (r->Ok_0)@.len() == 36 && final(self).selection
                == old(self).selection && final(self).search == old(self).search && final(self).holding == old(self).holding && final(self).last_sources == old(self).last_sources
                && final(self).in_flight == old(self).in_flight && final(self).outcome == old(self).outcome,
    {
        let id = fresh_id();
        match self.store.upsert(id.clone(), gem) {
            Ok(()) => Ok(id),
            Err(e) => Err(e),
        }
    }

    /// The classification workflow: atomically replaces the gem's
    /// classification, description and payload, leaving its provenance and
    /// every other gem untouched. Classifying an absent identifier is a
    /// no-op that reports `false`.
    pub fn classify(
        &mut self,
        id: &String,
        classification: ClassificationData,
        description: String,
        json_data: String,
    ) -> (r: Result<bool, StorageError>)
        requires
            old(self).wf(),
        ensures
            final(self).wf(),
            !old(self).store@.contains_key(id@) ==> r is Ok && (r->Ok_0) == false && *final(self)
                == *old(self),
            old(self).store@.contains_key(id@) && old(self).store.spec_failing() ==> r is Err
                && *final(self) == *old(self),
            old(self).store@.contains_key(id@) && !old(self).store.spec_failing() ==> r is Ok && (
            r->Ok_0) == true && final(self).store@ == old(self).store@.insert(
                id@,
                (GemView {
                    classification: Some(classification@),
                    description: description@,
                    json_data: json_data@,
                    derived_from: old(self).store@[id@].derived_from,
                }),
            ) && final(self).store.ids() == old(self).store.ids() && final(self).selection == old(self).selection && final(self).search == old(self).search && final(self).holding == old(self).holding && final(self).last_sources == old(self).last_sources && final(self).in_flight == old(self).in_flight && final(self).outcome == old(self).outcome,
    {
        let derived_from = match self.store.get(id) {
            Some(gem) => clone_ids(&gem.derived_from),
            None => {
                return Ok(false);
            },
        };
        let gem = DataGem {
            classification: Some(classification),
            description,
            json_data,
            derived_from,
        };
        match self.store.upsert(id.clone(), gem) {
            Ok(()) => Ok(true),
            Err(e) => Err(e),
        }
    }

    /// Deletes the gem and its persisted record, then reconciles the
    /// selection so that it no longer points at any absent gem. Deleting an
    /// absent identifier leaves the store unchanged and does not fail.
    pub fn delete_gem(&mut self, id: &String) -> (r: Result<(), StorageError>)
        requires
            old(self).wf(),
        ensures
            final(self).wf(),
            old(self).store@.contains_key(id@) && old(self).store.spec_failing() ==> r is Err
                && *final(self) == *old(self),
            !old(self).store@.contains_key(id@) ==> r is Ok && final(self).store == old(self).store
                && final(self).store@ == old(self).store@,
            old(self).store@.contains_key(id@) && !old(self).store.spec_failing() ==> r is Ok
                && final(self).store@ == old(self).store@.remove(id@),
            r is Ok ==> final(self).selection.ids() == reconciled(
                old(self).selection.ids(),
                final(self).store@,
            ) && !final(self).selection.ids().contains(id@) && final(self).search == old(self).search && final(self).holding == old(self).holding && final(self).last_sources == old(self).last_sources && final(self).in_flight == old(self).in_flight && final(self).outcome
                == old(self).outcome,
    {
        match self.store.delete(id) {
            Ok(()) => (),
            Err(e) => {
                return Err(e);
            },
        }
        self.selection.reconcile(&self.store);
        proof {
            lemma_reconciled_contains(old(self).selection.ids(), self.store@, id@);
        }
        Ok(())
    }

    /// Removes every gem and every persisted record, and clears the
    /// selection with them.
    pub fn clear_all(&mut self) -> (r: Result<(), StorageError>)
        requires
            old(self).wf(),
        ensures
            final(self).wf(),
            old(self).store.spec_failing() ==> r is Err && *final(self) == *old(self),
            !old(self).store.spec_failing() ==> r is Ok && final(self).store@ == Map::<
                Seq<char>,
                GemView,
            >::empty() && final(self).selection.ids() == Seq::<Seq<char>>::empty() && final(self).search == old(self).search && final(self).holding == old(self).holding && final(self).last_sources == old(self).last_sources && final(self).in_flight == old(self).in_flight && final(self).outcome == old(self).outcome,
    {
        match self.store.clear() {
            Ok(()) => (),
            Err(e) => {
                return Err(e);
            },
        }
        self.selection.reconcile(&self.store);
        proof {
            lemma_reconciled_of_empty(old(self).selection.ids());
        }
        Ok(())
    }

    /// Toggles whether the gem is selected for aggregation: selects it when
    /// absent, deselects it when present.
    pub fn toggle_selection(&mut self, id: String)
        requires
            old(self).wf(),
        ensures
            final(self).wf(),
            final(self).store == old(self).store,
            final(self).search == old(self).search,
            final(self).holding == old(self).holding,
            final(self).last_sources == old(self).last_sources,
            final(self).in_flight == old(self).in_flight,
            final(self).outcome == old(self).outcome,
            old(self).selection.ids().contains(id@) ==> exists|i: int|
                0 <= i < old(self).selection.ids().len() && old(self).selection.ids()[i] == id@
                    && final(self).selection.ids() == old(self).selection.ids().remove(i),
            !old(self).selection.ids().contains(id@) ==> final(self).selection.ids() == old(self).selection.ids().push(id@),
            crate::selection::toggled(old(self).selection.ids(), final(self).selection.ids(), id@),
    {
        self.selection.toggle(id);
    }

    /// Replaces the query text.
    pub fn edit_search(&mut self, text: String)
        ensures
            final(self).search == text,
            final(self).store == old(self).store,
            final(self).selection == old(self).selection,
            final(self).holding == old(self).holding,
            final(self).last_sources == old(self).last_sources,
            final(self).in_flight == old(self).in_flight,
            final(self).outcome == old(self).outcome,
    {
        self.search = text;
    }

    /// Starts one combine call: snapshots the selected gems (in store
    /// iteration order) and the query text, and counts the call as in
    /// flight. The snapshot is immutable for the duration of the call;
    /// the caller hands it to the synthesis service and reports the
    /// outcome through `resolve_success` or `resolve_failure`.
    ///
    /// An empty selection and an empty query are valid: the service is
    /// still invoked, with an empty gem list.
    pub fn trigger_combine(&mut self) -> (r: CombineRequest)
        requires
            old(self).wf(),
            old(self).in_flight < u64::MAX,
        ensures
            final(self).wf(),
            combine_triggered(*old(self), *final(self)),
            r.query@ == old(self).search@,
            r.source_ids.deep_view() == gathered_ids(
                old(self).store.entry_seq(),
                old(self).selection.ids(),
            ),
            r.gems.deep_view() == gathered_gems(
                old(self).store.entry_seq(),
                old(self).selection.ids(),
            ),
    {
        let ghost sel = self.selection.ids();
        let mut source_ids: Vec<String> = Vec::new();
        let mut gems: Vec<DataGem> = Vec::new();
        let entries = self.store.list();
        let mut i: usize = 0;
        while i < entries.len()
            invariant
                i <= entries.len(),
                entries@ == old(self).store.entry_seq(),
                sel == old(self).selection.ids(),
                *self == *old(self),
                source_ids.deep_view() == gathered_ids(entries@.take(i as int), sel),
                gems.deep_view() == gathered_gems(entries@.take(i as int), sel),
            decreases entries.len() - i,
        {
            proof {
                assert(entries@.take(i + 1 as int).drop_last() =~= entries@.take(i as int));
                assert(entries@.take(i + 1 as int).last() == entries@[i as int]);
            }
            if self.selection.contains(&entries[i].0) {
                source_ids.push(entries[i].0.clone());
                gems.push(entries[i].1.clone());
                proof {
                    assert(source_ids.deep_view() =~= gathered_ids(
                        entries@.take(i + 1 as int),
                        sel,
                    ));
                    assert(gems.deep_view() =~= gathered_gems(entries@.take(i + 1 as int), sel));
                }
            }
            i = i + 1;
        }
        proof {
            assert(entries@.take(entries@.len() as int) =~= entries@);
        }
        let query = self.search.clone();
        self.in_flight = self.in_flight + 1;
        CombineRequest { source_ids, gems, query }
    }

    /// Reports one in-flight combine call as succeeded: the holding slot
    /// now carries exactly this call's output, and the identifiers that
    /// were gathered for it are remembered as provenance for a later
    /// commit. A call that resolves later overwrites the slot again.
    pub fn resolve_success(&mut self, output: String, source_ids: Vec<String>)
        requires
            old(self).in_flight > 0,
        ensures
            combine_succeeded(*old(self), *final(self), output@, source_ids.deep_view()),
            final(self).wf() == old(self).wf(),
    {
        self.holding = Some(output);
        self.last_sources = source_ids;
        self.in_flight = self.in_flight - 1;
        self.outcome = CombineOutcome::Succeeded;
    }

    /// Reports one in-flight combine call as failed: the failure is
    /// surfaced in the outcome, and the holding slot and its provenance
    /// are left exactly as they were.
    pub fn resolve_failure(&mut self)
        requires
            old(self).in_flight > 0,
        ensures
            combine_failed(*old(self), *final(self)),
            final(self).wf() == old(self).wf(),
    {
        self.in_flight = self.in_flight - 1;
        self.outcome = CombineOutcome::Failed;
    }

    /// Commits the ideas parsed out of the holding slot: each one becomes
    /// a new gem under a freshly generated identifier, unclassified, with
    /// the idea's specification as description, its view model as payload,
    /// and the remembered gathered identifiers as provenance. Returns the
    /// new identifiers in commit order. Zero ideas commit nothing and
    /// never fail.
    pub fn commit_ideas(&mut self, ideas: &Vec<MicroAppIdea>) -> (r: Result<
        Vec<String>,
        StorageError,
    >)
        requires
            old(self).wf(),
        ensures
            final(self).wf(),
            ideas@.len() == 0 ==> r is Ok && (r->Ok_0)@.len() == 0 && *final(self) == *old(self),
            old(self).store.spec_failing() && ideas@.len() > 0 ==> r is Err && *final(self)
                == *old(self),
            !old(self).store.spec_failing() ==> r is Ok && (r->Ok_0)@.len() == ideas@.len()
                && final(self).store@ == committed_map(
                old(self).store@,
                ideas.deep_view(),
                (r->Ok_0).deep_view(),
                old(self).last_sources.deep_view(),
            ) && final(self).selection == old(self).selection && final(self).search == old(self).search && final(self).holding == old(self).holding && final(self).last_sources == old(self).last_sources && final(self).in_flight == old(self).in_flight && final(self).outcome
                == old(self).outcome,
    {
        let ghost sources = self.last_sources.deep_view();
        let mut new_ids: Vec<String> = Vec::new();
        if ideas.len() == 0 {
            return Ok(new_ids);
        }
        let mut i: usize = 0;
        while i < ideas.len()
            invariant
                i <= ideas.len(),
                new_ids@.len() == i,
                self.store.wf(),
                self.selection == old(self).selection,
                self.selection.wf(),
                self.search == old(self).search,
                self.holding == old(self).holding,
                self.last_sources == old(self).last_sources,
                self.in_flight == old(self).in_flight,
                self.outcome == old(self).outcome,
                sources == old(self).last_sources.deep_view(),
                self.store.spec_failing() == old(self).store.spec_failing(),
                old(self).store.spec_failing() ==> i == 0 && *self == *old(self),
                !old(self).store.spec_failing() ==> self.store@ == committed_map(
                    old(self).store@,
                    ideas.deep_view().take(i as int),
                    new_ids.deep_view(),
                    sources,
                ),
            decreases ideas.len() - i,
        {
            let id = fresh_id();
            let ghost prev_ids = new_ids.deep_view();
            let gem = DataGem {
                classification: None,
                description: ideas[i].specification.clone(),
                json_data: ideas[i].view_model.clone(),
                derived_from: clone_ids(&self.last_sources),
            };
            proof {
                assert(gem@ == idea_gem(ideas.deep_view()[i as int], sources));
            }
            match self.store.upsert(id.clone(), gem) {
                Ok(()) => (),
                Err(e) => {
                    return Err(e);
                },
            }
            new_ids.push(id);
            proof {
                assert(ideas.deep_view().take(i + 1 as int).drop_last() =~= ideas.deep_view().take(
                    i as int,
                ));
                assert(ideas.deep_view().take(i + 1 as int).last() == ideas.deep_view()[i as int]);
                assert(new_ids.deep_view().drop_last() =~= prev_ids);
                assert(new_ids.deep_view().last() == id@);
                assert(committed_map(
                    old(self).store@,
                    ideas.deep_view().take(i + 1 as int),
                    new_ids.deep_view(),
                    sources,
                ) == committed_map(
                    old(self).store@,
                    ideas.deep_view().take(i as int),
                    prev_ids,
                    sources,
                ).insert(id@, idea_gem(ideas.deep_view()[i as int], sources)));
            }
            i = i + 1;
        }
        proof {
            assert(ideas.deep_view().take(ideas@.len() as int) =~= ideas.deep_view());
        }
        Ok(new_ids)
    }
}

/// When several combine calls are in flight, each successful resolution
/// overwrites the holding slot, so after the last resolution the slot
/// carries exactly the later-resolving call's output: a stale response
/// never hides a newer one.
pub proof fn lemma_later_resolution_wins(
    s0: Session,
    s1: Session,
    s2: Session,
    s3: Session,
    s4: Session,
    first_output: Seq<char>,
    first_sources: Seq<Seq<char>>,
    second_output: Seq<char>,
    second_sources: Seq<Seq<char>>,
)
    requires
        combine_triggered(s0, s1),
        combine_triggered(s1, s2),
        combine_succeeded(s2, s3, first_output, first_sources),
        combine_succeeded(s3, s4, second_output, second_sources),
    ensures
        s4.holding_view() == Some(second_output),
        s4.last_sources.deep_view() == second_sources,
        s4.store == s0.store,
        s4.selection == s0.selection,
        s4.search == s0.search,
        s4.in_flight == s0.in_flight,
{
}

/// Classifying a gem and reading it back yields exactly the classification,
/// description and payload that were written; the gem's provenance and
/// every other gem are untouched.
pub proof fn lemma_classify_round_trip(
    pre: Map<Seq<char>, GemView>,
    post: Map<Seq<char>, GemView>,
    id: Seq<char>,
    classification: ClassificationView,
    description: Seq<char>,
    json_data: Seq<char>,
)
    requires
        pre.contains_key(id),
        post == pre.insert(
            id,
            (GemView {
                classification: Some(classification),
                description: description,
                json_data: json_data,
                derived_from: pre[id].derived_from,
            }),
        ),
    ensures
        post.contains_key(id),
        post[id].classification == Some(classification),
        post[id].description == description,
        post[id].json_data == json_data,
        post[id].derived_from == pre[id].derived_from,
        forall|k: Seq<char>| k != id && pre.contains_key(k) ==> post.contains_key(k) && post[k] == pre[k],
        forall|k: Seq<char>| #[trigger] post.contains_key(k) <==> pre.contains_key(k),
{
}

} // verus!
