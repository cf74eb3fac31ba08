//! Dispatching a step to the plugins that are mapped to it.

use vstd::prelude::*;
use crate::assoc::{keys_of, lemma_first_index_is, lemma_first_index_none, lookup, names_view};
use crate::config::CfgMap;
use crate::error::{Error, ErrorView};
use crate::plugin::{
    DeclarationView, Plugin, PluginId, PluginInterface, answer_view, call_step, declarations_view,
};
use crate::runtime::{is_touched_at, plugin_outcome};
use crate::step::PluginStep;

verus! {

/// The names of the plugins that ran a step, in the order in which they ran.
pub type DispatchedMultiResult = Result<Vec<String>, Error>;

/// The name of the one plugin that ran a singleton step.
pub type DispatchedSingletonResult = Result<String, Error>;

/// For each step that has plugins, the ids of the plugins mapped to it.
pub type StepMap = Vec<(PluginStep, Vec<PluginId>)>;

/// Calls steps on the plugins that are mapped to them.
pub struct PluginDispatcher {
    pub config: CfgMap,
    pub map: StepMap,
}

/// A step map as pairs of step and plugin ids.
pub open spec fn step_map_view(map: Seq<(PluginStep, Vec<PluginId>)>) -> Seq<
    (PluginStep, Seq<PluginId>),
> {
    Seq::new(map.len(), |i: int| (map[i].0, map[i].1@))
}

/// The names of the plugins with the given ids.
pub open spec fn names_of_ids(plugins: Seq<DeclarationView>, ids: Seq<PluginId>) -> Seq<Seq<char>> {
    Seq::new(ids.len(), |i: int| plugins[ids[i] as int].name)
}

/// Whether the routine of `step` ran on the plugin `id` of the list `before`
/// and left the list `after`, with `answer`: the id names a plugin, no other
/// plugin changed, and the answer and the state of the plugin are those of
/// its routine.
pub open spec fn is_step_call<P: PluginInterface>(
    before: Seq<Plugin<P>>,
    id: PluginId,
    step: PluginStep,
    after: Seq<Plugin<P>>,
    answer: Result<(), Seq<char>>,
) -> bool {
    &&& id < before.len()
    &&& is_touched_at(after, before, id as int)
    &&& before[id as int].handle.answers_step(step, answer)
    &&& after[id as int].handle.is_left_by_step(step, answer)
}

/// Whether `e` is the error with which the routine of `step` failed on the
/// plugin `id` of the list `before`, leaving the list `after`.
pub open spec fn is_failed_call<P: PluginInterface>(
    before: Seq<Plugin<P>>,
    id: PluginId,
    step: PluginStep,
    after: Seq<Plugin<P>>,
    e: Error,
) -> bool {
    exists|cause: Seq<char>|
        #[trigger] is_step_call(before, id, step, after, Err(cause)) && e@
            == ErrorView::PluginError(cause)
}

/// Whether, in the lists that a dispatch passes through, the routine of
/// `step` succeeds on the plugin at position `i` of `ids` and takes list `i`
/// to list `i + 1`.
pub open spec fn is_call_of<P: PluginInterface>(
    lists: Seq<Seq<Plugin<P>>>,
    ids: Seq<PluginId>,
    step: PluginStep,
    i: int,
) -> bool {
    is_step_call(lists[i], ids[i], step, lists[i + 1], Ok(()))
}

/// Whether `lists` are the lists that a dispatch of `step` to the plugins
/// `ids` passes through, from `start` to `end` and with the outcome `r`.
///
/// The routine runs on the plugins in the order of `ids`, each on the list
/// as the call before left it. A dispatch that succeeds ran it on all of
/// them, with success, and names them in order. A dispatch that fails stops
/// at the first id for which there is no success: an id that names no plugin
/// is an invariant violation, and a plugin that fails gives its error.
pub open spec fn is_dispatch_trace<P: PluginInterface>(
    lists: Seq<Seq<Plugin<P>>>,
    start: Seq<Plugin<P>>,
    ids: Seq<PluginId>,
    step: PluginStep,
    end: Seq<Plugin<P>>,
    r: DispatchedMultiResult,
) -> bool {
    &&& 1 <= lists.len() <= ids.len() + 1
    &&& lists[0] == start
    &&& forall|i: int| 0 <= i < lists.len() - 1 ==> #[trigger] is_call_of(lists, ids, step, i)
    &&& match r {
        Ok(names) => {
            &&& lists.len() == ids.len() + 1
            &&& end == lists.last()
            &&& names_view(names@) == names_of_ids(declarations_view(start), ids)
        },
        Err(e) => {
            &&& lists.len() <= ids.len()
            &&& if ids[lists.len() - 1] >= start.len() {
                e == Error::InvariantViolation && end == lists.last()
            } else {
                is_failed_call(lists.last(), ids[lists.len() - 1], step, end, e)
            }
        },
    }
}

/// Whether `r` is an outcome of dispatching `step` to the plugins `ids` of
/// the list `start`, and `end` the list it leaves.
pub open spec fn is_dispatched<P: PluginInterface>(
    start: Seq<Plugin<P>>,
    ids: Seq<PluginId>,
    step: PluginStep,
    end: Seq<Plugin<P>>,
    r: DispatchedMultiResult,
) -> bool {
    exists|lists: Seq<Seq<Plugin<P>>>| is_dispatch_trace(lists, start, ids, step, end, r)
}

impl PluginDispatcher {
    /// A dispatcher for a configuration and a map from steps to plugins.
    pub fn new(config: CfgMap, map: StepMap) -> (r: PluginDispatcher)
        ensures
            r.config == config,
            r.map == map,
    {
        PluginDispatcher { config, map }
    }

    /// The plugins mapped to a step.
    pub open spec fn mapped(&self, step: PluginStep) -> Option<Seq<PluginId>> {
        lookup(step_map_view(self.map@), step)
    }

    /// Whether exactly one plugin is mapped to a step.
    pub open spec fn has_singleton(&self, step: PluginStep) -> bool {
        match self.mapped(step) {
            Some(ids) => ids.len() == 1,
            None => false,
        }
    }

    /// The plugins that a step is dispatched to: those mapped to it, and none
    /// for a step without an entry.
    pub open spec fn mapped_ids(&self, step: PluginStep) -> Seq<PluginId> {
        match self.mapped(step) {
            Some(ids) => ids,
            None => Seq::empty(),
        }
    }

    /// What dispatching a step does to a list of plugins.
    pub open spec fn is_dispatch_outcome<P: PluginInterface>(
        &self,
        before: Seq<Plugin<P>>,
        step: PluginStep,
        after: Seq<Plugin<P>>,
        r: DispatchedMultiResult,
    ) -> bool {
        is_dispatched(before, self.mapped_ids(step), step, after, r)
    }

    /// What dispatching a singleton step does to a list of plugins: a mapped
    /// id that names no plugin is an invariant violation and changes nothing;
    /// otherwise the routine of the step runs on that plugin, the result is
    /// the plugin's name where the routine succeeds, and the plugin's error
    /// where it fails.
    pub open spec fn is_singleton_outcome<P: PluginInterface>(
        &self,
        before: Seq<Plugin<P>>,
        step: PluginStep,
        after: Seq<Plugin<P>>,
        r: DispatchedSingletonResult,
    ) -> bool {
        let id = self.mapped(step)->Some_0[0];
        if id >= before.len() {
            r == Err::<String, Error>(Error::InvariantViolation) && after == before
        } else {
            match r {
                Ok(name) => name@ == before[id as int].name@ && is_step_call(
                    before,
                    id,
                    step,
                    after,
                    Ok(()),
                ),
                Err(e) => is_failed_call(before, id, step, after, e),
            }
        }
    }

    /// The plugins mapped to a step, if the step has an entry.
    pub fn mapped_plugins(&self, step: PluginStep) -> (r: Option<&Vec<PluginId>>)
        ensures
            match r {
                Some(ids) => self.mapped(step) == Some(ids@),
                None => self.mapped(step) is None,
            },
    {
        let ghost keys = keys_of(step_map_view(self.map@));
        let mut i: usize = 0;
        while i < self.map.len()
            invariant
                i <= self.map.len(),
                keys == keys_of(step_map_view(self.map@)),
                keys.len() == self.map@.len(),
                forall|j: int| 0 <= j < i ==> keys[j] != step,
            decreases self.map.len() - i,
        {
            if self.map[i].0 == step {
                proof {
                    assert(keys[i as int] == step);
                    lemma_first_index_is(keys, step, i as int);
                }
                return Some(&self.map[i].1);
            }
            i = i + 1;
        }
        proof {
            lemma_first_index_none(keys, step);
        }
        None
    }

    /// Whether exactly one plugin is mapped to a step.
    pub fn is_singleton_mapped(&self, step: PluginStep) -> (r: bool)
        ensures
            r == self.has_singleton(step),
    {
        match self.mapped_plugins(step) {
            Some(ids) => ids.len() == 1,
            None => false,
        }
    }

    /// The one plugin mapped to a singleton step.
    pub fn mapped_singleton(&self, step: PluginStep) -> (r: PluginId)
        requires
            self.has_singleton(step),
        ensures
            self.mapped(step) == Some(seq![r]),
    {
        match self.mapped_plugins(step) {
            Some(ids) => {
                proof {
                    assert(ids@ =~= seq![ids@[0]]);
                }
                ids[0]
            },
            None => vstd::pervasive::unreached(),
        }
    }

    /// Runs a step on every plugin mapped to it, in order, and stops at the
    /// first plugin that fails.
    ///
    /// A step without an entry runs on no plugin. Whether a plugin succeeds
    /// is the plugin's decision. On success every mapped id named a plugin and
    /// the result holds their names in order. A failure is a plugin's error,
    /// or an invariant violation where a mapped id names no plugin.
    pub fn dispatch<P: PluginInterface>(&self, plugins: &mut Vec<Plugin<P>>, step: PluginStep) -> (r:
        DispatchedMultiResult)
        ensures
            declarations_view(final(plugins)@) == declarations_view(old(plugins)@),
            self.is_dispatch_outcome(old(plugins)@, step, final(plugins)@, r),
    {
        let ghost decls = declarations_view(plugins@);
        let ghost start = plugins@;
        let ghost mut lists: Seq<Seq<Plugin<P>>> = seq![start];
        let mut names: Vec<String> = Vec::new();
        match self.mapped_plugins(step) {
            None => {
                proof {
                    assert(names_view(names@) =~= names_of_ids(decls, Seq::empty()));
                    assert(is_dispatch_trace(
                        lists,
                        start,
                        Seq::<PluginId>::empty(),
                        step,
                        plugins@,
                        Ok::<Vec<String>, Error>(names),
                    ));
                }
            },
            Some(ids) => {
                let mut i: usize = 0;
                while i < ids.len()
                    invariant
                        i <= ids.len(),
                        self.mapped(step) == Some(ids@),
                        start == old(plugins)@,
                        decls == declarations_view(start),
                        declarations_view(plugins@) == decls,
                        plugins@.len() == start.len(),
                        lists.len() == i + 1,
                        lists[0] == start,
                        lists[i as int] == plugins@,
                        forall|j: int| 0 <= j < i ==> #[trigger] is_call_of(lists, ids@, step, j),
                        names@.len() == i,
                        forall|j: int| 0 <= j < i ==> (#[trigger] ids@[j]) < decls.len(),
                        forall|j: int|
                            0 <= j < i ==> (#[trigger] names@[j])@ == decls[ids@[j] as int].name,
                    decreases ids.len() - i,
                {
                    let id = ids[i];
                    let ghost reached = lists;
                    let ghost before = plugins@;
                    if id >= plugins.len() {
                        proof {
                            assert(is_dispatch_trace(
                                lists,
                                start,
                                ids@,
                                step,
                                plugins@,
                                Err::<Vec<String>, Error>(Error::InvariantViolation),
                            ));
                        }
                        return Err(Error::InvariantViolation);
                    }
                    let answer = call_step(&mut plugins[id].handle, step);
                    proof {
                        assert(declarations_view(plugins@) =~= decls);
                        assert(is_step_call(before, id, step, plugins@, answer_view(answer)));
                    }
                    match plugin_outcome(answer) {
                        Ok(()) => {},
                        Err(e) => {
                            proof {
                                assert(is_failed_call(before, id, step, plugins@, e));
                                assert(is_dispatch_trace(
                                    lists,
                                    start,
                                    ids@,
                                    step,
                                    plugins@,
                                    Err::<Vec<String>, Error>(e),
                                ));
                            }
                            return Err(e);
                        },
                    }
                    names.push(plugins[id].name.clone());
                    proof {
                        assert(decls[id as int] == plugins@[id as int].declared());
                        lists = reached.push(plugins@);
                        assert forall|j: int| 0 <= j < i + 1 implies #[trigger] is_call_of(
                            lists,
                            ids@,
                            step,
                            j,
                        ) by {
                            if j < i {
                                assert(is_call_of(reached, ids@, step, j));
                                assert(lists[j] == reached[j]);
                                assert(lists[j + 1] == reached[j + 1]);
                            }
                        }
                    }
                    i = i + 1;
                }
                proof {
                    assert(names_view(names@) =~= names_of_ids(decls, ids@));
                    assert(is_dispatch_trace(
                        lists,
                        start,
                        ids@,
                        step,
                        plugins@,
                        Ok::<Vec<String>, Error>(names),
                    ));
                }
            },
        }
        Ok(names)
    }

    /// Runs a singleton step on the one plugin mapped to it.
    ///
    /// Whether the plugin succeeds is the plugin's decision. On success the
    /// result is the plugin's name. A failure is the plugin's error, or an
    /// invariant violation where the mapped id names no plugin.
    pub fn dispatch_singleton<P: PluginInterface>(
        &self,
        plugins: &mut Vec<Plugin<P>>,
        step: PluginStep,
    ) -> (r: DispatchedSingletonResult)
        requires
            self.has_singleton(step),
        ensures
            declarations_view(final(plugins)@) == declarations_view(old(plugins)@),
            self.is_singleton_outcome(old(plugins)@, step, final(plugins)@, r),
    {
        let ghost decls = declarations_view(plugins@);
        let ghost before = plugins@;
        let id = self.mapped_singleton(step);
        if id >= plugins.len() {
            return Err(Error::InvariantViolation);
        }
        let answer = call_step(&mut plugins[id].handle, step);
        proof {
            assert(declarations_view(plugins@) =~= decls);
            assert(is_step_call(before, id, step, plugins@, answer_view(answer)));
        }
        match plugin_outcome(answer) {
            Ok(()) => Ok(plugins[id].name.clone()),
            Err(e) => {
                proof {
                    assert(is_failed_call(before, id, step, plugins@, e));
                }
                Err(e)
            },
        }
    }

    /// Runs the pre-flight checks on every plugin mapped to that step.
    pub fn pre_flight<P: PluginInterface>(&self, plugins: &mut Vec<Plugin<P>>) -> (r:
        DispatchedMultiResult)
        ensures
            declarations_view(final(plugins)@) == declarations_view(old(plugins)@),
            self.is_dispatch_outcome(old(plugins)@, PluginStep::PreFlight, final(plugins)@, r),
    {
        self.dispatch(plugins, PluginStep::PreFlight)
    }

    /// Runs the derivation of the next version on every plugin mapped to that step.
    pub fn derive_next_version<P: PluginInterface>(&self, plugins: &mut Vec<Plugin<P>>) -> (r:
        DispatchedMultiResult)
        ensures
            declarations_view(final(plugins)@) == declarations_view(old(plugins)@),
            self.is_dispatch_outcome(old(plugins)@, PluginStep::DeriveNextVersion, final(plugins)@, r),
    {
        self.dispatch(plugins, PluginStep::DeriveNextVersion)
    }

    /// Runs the generation of release notes on every plugin mapped to that step.
    pub fn generate_notes<P: PluginInterface>(&self, plugins: &mut Vec<Plugin<P>>) -> (r:
        DispatchedMultiResult)
        ensures
            declarations_view(final(plugins)@) == declarations_view(old(plugins)@),
            self.is_dispatch_outcome(old(plugins)@, PluginStep::GenerateNotes, final(plugins)@, r),
    {
        self.dispatch(plugins, PluginStep::GenerateNotes)
    }

    /// Runs the preparation of the release on every plugin mapped to that step.
    pub fn prepare<P: PluginInterface>(&self, plugins: &mut Vec<Plugin<P>>) -> (r:
        DispatchedMultiResult)
        ensures
            declarations_view(final(plugins)@) == declarations_view(old(plugins)@),
            self.is_dispatch_outcome(old(plugins)@, PluginStep::Prepare, final(plugins)@, r),
    {
        self.dispatch(plugins, PluginStep::Prepare)
    }

    /// Runs the verification of the release on every plugin mapped to that step.
    pub fn verify_release<P: PluginInterface>(&self, plugins: &mut Vec<Plugin<P>>) -> (r:
        DispatchedMultiResult)
        ensures
            declarations_view(final(plugins)@) == declarations_view(old(plugins)@),
            self.is_dispatch_outcome(old(plugins)@, PluginStep::VerifyRelease, final(plugins)@, r),
    {
        self.dispatch(plugins, PluginStep::VerifyRelease)
    }

    /// Runs the commit of the release on every plugin mapped to that step.
    pub fn commit<P: PluginInterface>(&self, plugins: &mut Vec<Plugin<P>>) -> (r:
        DispatchedMultiResult)
        ensures
            declarations_view(final(plugins)@) == declarations_view(old(plugins)@),
            self.is_dispatch_outcome(old(plugins)@, PluginStep::Commit, final(plugins)@, r),
    {
        self.dispatch(plugins, PluginStep::Commit)
    }

    /// Runs the publication of the release on every plugin mapped to that step.
    pub fn publish<P: PluginInterface>(&self, plugins: &mut Vec<Plugin<P>>) -> (r:
        DispatchedMultiResult)
        ensures
            declarations_view(final(plugins)@) == declarations_view(old(plugins)@),
            self.is_dispatch_outcome(old(plugins)@, PluginStep::Publish, final(plugins)@, r),
    {
        self.dispatch(plugins, PluginStep::Publish)
    }

    /// Runs the notification about the release on every plugin mapped to that step.
    pub fn notify<P: PluginInterface>(&self, plugins: &mut Vec<Plugin<P>>) -> (r:
        DispatchedMultiResult)
        ensures
            declarations_view(final(plugins)@) == declarations_view(old(plugins)@),
            self.is_dispatch_outcome(old(plugins)@, PluginStep::Notify, final(plugins)@, r),
    {
        self.dispatch(plugins, PluginStep::Notify)
    }

    /// Asks the one plugin mapped to that step for the last release.
    pub fn get_last_release<P: PluginInterface>(&self, plugins: &mut Vec<Plugin<P>>) -> (r:
        DispatchedSingletonResult)
        requires
            self.has_singleton(PluginStep::GetLastRelease),
        ensures
            declarations_view(final(plugins)@) == declarations_view(old(plugins)@),
            self.is_singleton_outcome(
                old(plugins)@,
                PluginStep::GetLastRelease,
                final(plugins)@,
                r,
            ),
    {
        self.dispatch_singleton(plugins, PluginStep::GetLastRelease)
    }
}

} // verus!
