//! The laws of the kernel, stated over what a sequence is compiled from.

use vstd::prelude::*;
use crate::assoc::{keys_of, lemma_first_index_none, lookup};
use crate::config::ConfigView;
use crate::error::{ConfigurationFaultView, Error, ErrorView};
use crate::graph::{
    ActionKindView, ActionView, PluginSequence, compile_spec, has_source, is_compiled, is_emitted,
    sequence_upto, sink_action,
};
use crate::membership::{
    InjectionTarget, base_members, injections_in_bounds, lemma_membership_faults,
    lemma_membership_in_bounds, lemma_membership_rows, members, membership, singleton_violated,
    with_injections,
};
use crate::plugin::{DeclarationView, PluginId};
use crate::sequence_laws::{
    calls_of, destination, lemma_dry_run_calls_are_safe, lemma_dry_run_is_safe_part,
    lemma_each_publication_precedes_use, lemma_locate, lemma_located_action, lemma_member_shape,
    lemma_provision_precedes_call, lemma_publication_precedes_use, lemma_rest_is_unsafe,
    lemma_sequence_calls, lemma_sequence_is_prefix, lemma_writes_precede_call, safe_steps, whole,
};
use crate::step::{PluginStep, STEP_COUNT, step_at};

verus! {

/// The members of every step, for inputs that have a sequence.
pub open spec fn table_of(
    plugins: Seq<DeclarationView>,
    config: ConfigView,
    injections: Seq<(PluginId, InjectionTarget)>,
) -> Seq<Seq<PluginId>> {
    membership(plugins, config, injections, STEP_COUNT as int)->Ok_0
}

/// Whether an action is no call, or the call of a step that is dry-run safe.
pub open spec fn is_safe_in_dry_run(action: ActionView) -> bool {
    match action.kind {
        ActionKindView::Call(step) => step.dry_run_safe(),
        _ => true,
    }
}

/// Whether an action is no call, or the call of a step that is not dry-run safe.
pub open spec fn is_left_out_of_dry_run(action: ActionView) -> bool {
    match action.kind {
        ActionKindView::Call(step) => !step.dry_run_safe(),
        _ => true,
    }
}

/// A singleton step that does not have exactly one member has no sequence:
/// compiling fails with a configuration error. This holds of every singleton
/// step that the configuration defines, and of one that it does not define
/// as soon as injections give it more than one member.
pub proof fn law_singleton_step_is_enforced(
    plugins: Seq<DeclarationView>,
    config: ConfigView,
    injections: Seq<(PluginId, InjectionTarget)>,
    is_dry_run: bool,
    step: PluginStep,
)
    requires
        injections_in_bounds(injections, plugins.len()),
        step.singleton(),
        base_members(plugins, config, injections, step) matches Ok(base) ==> singleton_violated(
            config,
            step,
            with_injections(injections, step, base).len(),
        ),
    ensures
        compile_spec(plugins, config, injections, is_dry_run) is Err,
        compile_spec(plugins, config, injections, is_dry_run)->Err_0 is ConfigurationError,
{
    assert(step_at(step.position()) == step);
    lemma_membership_faults(plugins, config, injections, STEP_COUNT as int, step.position());
}

/// Compiling is deterministic: two outcomes for the same plugins, the same
/// configuration, the same injections and the same dry-run switch are the
/// same list of actions, in the same order, or the same error.
pub proof fn law_sequences_are_deterministic(
    first: Result<PluginSequence, Error>,
    second: Result<PluginSequence, Error>,
    plugins: Seq<DeclarationView>,
    config: ConfigView,
    injections: Seq<(PluginId, InjectionTarget)>,
    is_dry_run: bool,
)
    requires
        is_compiled(first, plugins, config, injections, is_dry_run),
        is_compiled(second, plugins, config, injections, is_dry_run),
    ensures
        match (first, second) {
            (Ok(a), Ok(b)) => a@ == b@,
            (Err(a), Err(b)) => a@ == b@,
            _ => false,
        },
{
}

/// A sequence is the whole sequence for the membership table of its inputs.
pub proof fn lemma_compiled_is_whole(
    plugins: Seq<DeclarationView>,
    config: ConfigView,
    injections: Seq<(PluginId, InjectionTarget)>,
    is_dry_run: bool,
)
    requires
        compile_spec(plugins, config, injections, is_dry_run) is Ok,
    ensures
        injections_in_bounds(injections, plugins.len()),
        membership(plugins, config, injections, STEP_COUNT as int) is Ok,
        compile_spec(plugins, config, injections, is_dry_run)->Ok_0 == whole(
            plugins,
            config,
            table_of(plugins, config, injections),
            is_dry_run,
        ),
        compile_spec(plugins, config, injections, !is_dry_run) is Ok,
{
}

/// In a dry run no step that is not dry-run safe is called, and nothing else
/// is left out: the sequence of a dry run is the front of the sequence of a
/// full run, and every call behind that front is the call of a step that is
/// not dry-run safe.
pub proof fn law_dry_run_leaves_out_unsafe_steps(
    plugins: Seq<DeclarationView>,
    config: ConfigView,
    injections: Seq<(PluginId, InjectionTarget)>,
)
    requires
        compile_spec(plugins, config, injections, true) is Ok,
    ensures
        compile_spec(plugins, config, injections, false) is Ok,
        ({
            let dry = compile_spec(plugins, config, injections, true)->Ok_0;
            let full = compile_spec(plugins, config, injections, false)->Ok_0;
            &&& forall|j: int| 0 <= j < dry.len() ==> is_safe_in_dry_run(#[trigger] dry[j])
            &&& dry.len() <= full.len()
            &&& full.subrange(0, dry.len() as int) == dry
            &&& forall|j: int|
                dry.len() <= j < full.len() ==> is_left_out_of_dry_run(#[trigger] full[j])
        }),
{
    lemma_compiled_is_whole(plugins, config, injections, true);
    let table = table_of(plugins, config, injections);
    let dry = whole(plugins, config, table, true);
    let full = whole(plugins, config, table, false);
    assert forall|j: int| 0 <= j < dry.len() implies is_safe_in_dry_run(#[trigger] dry[j]) by {
        match dry[j].kind {
            ActionKindView::Call(step) => {
                lemma_dry_run_calls_are_safe(plugins, config, table, j, step);
            },
            _ => {},
        }
    }
    lemma_dry_run_is_safe_part(plugins, config, table, STEP_COUNT as int);
    lemma_sequence_is_prefix(plugins, config, table, false, safe_steps(), STEP_COUNT as int);
    assert forall|j: int| dry.len() <= j < full.len() implies is_left_out_of_dry_run(
        #[trigger] full[j],
    ) by {
        match full[j].kind {
            ActionKindView::Call(step) => {
                lemma_rest_is_unsafe(plugins, config, table, j, step);
            },
            _ => {},
        }
    }
}

/// Provisioning comes first: in front of every call of a step on a plugin
/// stands, for each sink that the plugin declares for that step, the action
/// that fills the sink.
pub proof fn law_provisions_precede_calls(
    plugins: Seq<DeclarationView>,
    config: ConfigView,
    injections: Seq<(PluginId, InjectionTarget)>,
    is_dry_run: bool,
    c: int,
    step: PluginStep,
    a: int,
)
    requires
        compile_spec(plugins, config, injections, is_dry_run) is Ok,
        0 <= c < compile_spec(plugins, config, injections, is_dry_run)->Ok_0.len(),
        compile_spec(plugins, config, injections, is_dry_run)->Ok_0[c].kind
            == ActionKindView::Call(step),
        0 <= a < plugins[compile_spec(
            plugins,
            config,
            injections,
            is_dry_run,
        )->Ok_0[c].id as int].sinks.len(),
        plugins[compile_spec(
            plugins,
            config,
            injections,
            is_dry_run,
        )->Ok_0[c].id as int].sinks[a].step == step,
    ensures
        ({
            let seq = compile_spec(plugins, config, injections, is_dry_run)->Ok_0;
            let id = seq[c].id;
            exists|j: int|
                0 <= j < c && #[trigger] seq[j] == (ActionView {
                    id,
                    kind: sink_action(
                        plugins,
                        config,
                        table_of(plugins, config, injections),
                        id,
                        plugins[id as int].sinks[a],
                    ),
                })
        }),
{
    lemma_compiled_is_whole(plugins, config, injections, is_dry_run);
    let table = table_of(plugins, config, injections);
    let j = lemma_provision_precedes_call(plugins, config, table, is_dry_run, c, step, a);
    let seq = compile_spec(plugins, config, injections, is_dry_run)->Ok_0;
    assert(seq[j] == (ActionView {
        id: seq[c].id,
        kind: sink_action(plugins, config, table, seq[c].id, plugins[seq[c].id as int].sinks[a]),
    }));
}

/// Publication comes first: in front of every action that writes the value
/// published under a key into a plugin stands the action that reads that
/// key from the plugin, another one, that publishes it.
pub proof fn law_publications_precede_uses(
    plugins: Seq<DeclarationView>,
    config: ConfigView,
    injections: Seq<(PluginId, InjectionTarget)>,
    is_dry_run: bool,
    j: int,
    dst: Seq<char>,
    key: Seq<char>,
)
    requires
        compile_spec(plugins, config, injections, is_dry_run) is Ok,
        0 <= j < compile_spec(plugins, config, injections, is_dry_run)->Ok_0.len(),
        compile_spec(plugins, config, injections, is_dry_run)->Ok_0[j].kind
            == ActionKindView::SetFrom(dst, key),
    ensures
        ({
            let seq = compile_spec(plugins, config, injections, is_dry_run)->Ok_0;
            exists|g: int|
                0 <= g < j && (#[trigger] seq[g]).kind == ActionKindView::Get(key) && seq[g].id
                    != seq[j].id
        }),
{
    lemma_compiled_is_whole(plugins, config, injections, is_dry_run);
    let table = table_of(plugins, config, injections);
    let g = lemma_publication_precedes_use(plugins, config, table, is_dry_run, j, dst, key);
    let seq = compile_spec(plugins, config, injections, is_dry_run)->Ok_0;
    assert(seq[g].kind == ActionKindView::Get(key) && seq[g].id != seq[j].id);
}

/// Every action of a sequence names a plugin of the list it was compiled for.
pub proof fn law_actions_name_plugins(
    plugins: Seq<DeclarationView>,
    config: ConfigView,
    injections: Seq<(PluginId, InjectionTarget)>,
    is_dry_run: bool,
)
    requires
        plugins.len() <= usize::MAX,
        compile_spec(plugins, config, injections, is_dry_run) is Ok,
    ensures
        forall|j: int|
            0 <= j < compile_spec(plugins, config, injections, is_dry_run)->Ok_0.len() ==> (
            #[trigger] compile_spec(plugins, config, injections, is_dry_run)->Ok_0[j]).id
                < plugins.len(),
{
    lemma_compiled_is_whole(plugins, config, injections, is_dry_run);
    let table = table_of(plugins, config, injections);
    let seq = whole(plugins, config, table, is_dry_run);
    lemma_membership_in_bounds(plugins, config, injections, STEP_COUNT as int);
    lemma_membership_rows(plugins, config, injections, STEP_COUNT as int);
    assert forall|j: int| 0 <= j < seq.len() implies (#[trigger] seq[j]).id < plugins.len() by {
        let (t, i, o) = lemma_locate(plugins, config, table, is_dry_run, STEP_COUNT as int, j);
        lemma_located_action(plugins, config, table, is_dry_run, j, t, i, o);
        lemma_member_shape(plugins, config, table, step_at(t), i, o);
        assert(table[t][i] < plugins.len());
    }
}

/// Without plugins, injections and step definitions there is nothing to do:
/// the sequence exists and is empty, in a dry run and in a full run.
pub proof fn law_empty_pipeline_has_empty_sequence(config: ConfigView, is_dry_run: bool)
    requires
        config.steps.len() == 0,
    ensures
        compile_spec(Seq::empty(), config, Seq::empty(), is_dry_run) == Ok::<
            Seq<ActionView>,
            ErrorView,
        >(Seq::empty()),
{
    let plugins = Seq::<DeclarationView>::empty();
    let injections = Seq::<(PluginId, InjectionTarget)>::empty();
    lemma_empty_membership(config, STEP_COUNT as int);
    let table = table_of(plugins, config, injections);
    lemma_membership_rows(plugins, config, injections, STEP_COUNT as int);
    lemma_empty_sequence(config, table, is_dry_run, STEP_COUNT as int);
}

/// Without plugins, injections and step definitions no step has a member.
proof fn lemma_empty_membership(config: ConfigView, n: int)
    requires
        config.steps.len() == 0,
        0 <= n <= STEP_COUNT,
    ensures
        membership(Seq::empty(), config, Seq::empty(), n) is Ok,
        forall|t: int|
            0 <= t < n ==> (#[trigger] membership(Seq::empty(), config, Seq::empty(), n)->Ok_0[t]).len()
                == 0,
        membership(Seq::empty(), config, Seq::empty(), n)->Ok_0.len() == n,
    decreases n,
{
    if n > 0 {
        lemma_empty_membership(config, n - 1);
        let step = step_at(n - 1);
        lemma_first_index_none(keys_of(config.steps), step);
        let before = membership(Seq::empty(), config, Seq::empty(), n - 1)->Ok_0;
        let all = membership(Seq::empty(), config, Seq::empty(), n)->Ok_0;
        assert forall|t: int| 0 <= t < n implies (#[trigger] all[t]).len() == 0 by {
            if t < n - 1 {
                assert(all[t] == before[t]);
            }
        }
    }
}

/// Steps without members have no actions.
proof fn lemma_empty_sequence(
    config: ConfigView,
    table: Seq<Seq<PluginId>>,
    is_dry_run: bool,
    n: int,
)
    requires
        0 <= n <= table.len(),
        forall|t: int| 0 <= t < n ==> (#[trigger] table[t]).len() == 0,
    ensures
        sequence_upto(Seq::empty(), config, table, is_dry_run, n) == Seq::<ActionView>::empty(),
    decreases n,
{
    if n > 0 {
        lemma_empty_sequence(config, table, is_dry_run, n - 1);
        assert(table[n - 1].len() == 0);
        assert(sequence_upto(Seq::empty(), config, table, is_dry_run, n) =~= Seq::<
            ActionView,
        >::empty());
    }
}

/// A step that runs is called once for each of its members. So a singleton
/// step that the configuration defines is called exactly once, in a dry run
/// and in a full run.
pub proof fn law_steps_are_called_once_per_member(
    plugins: Seq<DeclarationView>,
    config: ConfigView,
    injections: Seq<(PluginId, InjectionTarget)>,
    is_dry_run: bool,
    step: PluginStep,
)
    requires
        compile_spec(plugins, config, injections, is_dry_run) is Ok,
    ensures
        members(plugins, config, injections, step) is Ok,
        calls_of(compile_spec(plugins, config, injections, is_dry_run)->Ok_0, step) == if is_emitted(
            step,
            is_dry_run,
        ) {
            members(plugins, config, injections, step)->Ok_0.len()
        } else {
            0
        },
        step.singleton() && lookup(config.steps, step) is Some ==> calls_of(
            compile_spec(plugins, config, injections, is_dry_run)->Ok_0,
            step,
        ) == 1,
{
    lemma_compiled_is_whole(plugins, config, injections, is_dry_run);
    let table = table_of(plugins, config, injections);
    lemma_membership_rows(plugins, config, injections, STEP_COUNT as int);
    assert(step_at(step.position()) == step);
    assert(members(plugins, config, injections, step_at(step.position())) == Ok::<
        Seq<PluginId>,
        ConfigurationFaultView,
    >(table[step.position()]));
    lemma_sequence_calls(plugins, config, table, is_dry_run, STEP_COUNT as int, step);
}

/// Provisioning comes first, and only first: no action that writes to a key
/// of a plugin stands behind a call of the step for which the plugin needs
/// that key. This holds where the plugin needs the key for that step alone;
/// a key that it needs for a later step too is written again before that step.
pub proof fn law_writes_precede_calls(
    plugins: Seq<DeclarationView>,
    config: ConfigView,
    injections: Seq<(PluginId, InjectionTarget)>,
    is_dry_run: bool,
    c: int,
    step: PluginStep,
    x: int,
    key: Seq<char>,
)
    requires
        compile_spec(plugins, config, injections, is_dry_run) is Ok,
        0 <= c < compile_spec(plugins, config, injections, is_dry_run)->Ok_0.len(),
        0 <= x < compile_spec(plugins, config, injections, is_dry_run)->Ok_0.len(),
        compile_spec(plugins, config, injections, is_dry_run)->Ok_0[c].kind
            == ActionKindView::Call(step),
        compile_spec(plugins, config, injections, is_dry_run)->Ok_0[x].id == compile_spec(
            plugins,
            config,
            injections,
            is_dry_run,
        )->Ok_0[c].id,
        destination(compile_spec(plugins, config, injections, is_dry_run)->Ok_0[x].kind) == Some(
            key,
        ),
        needs_only_for(
            plugins[compile_spec(plugins, config, injections, is_dry_run)->Ok_0[c].id as int],
            key,
            step,
        ),
    ensures
        x < c,
{
    lemma_compiled_is_whole(plugins, config, injections, is_dry_run);
    let table = table_of(plugins, config, injections);
    lemma_writes_precede_call(plugins, config, table, is_dry_run, c, step, x, key);
}

/// Whether a plugin needs `key` for `step` and for no other step.
pub open spec fn needs_only_for(plugin: DeclarationView, key: Seq<char>, step: PluginStep) -> bool {
    forall|a: int|
        0 <= a < plugin.sinks.len() && (#[trigger] plugin.sinks[a]).key == key
            ==> plugin.sinks[a].step == step
}

/// Whether a plugin needs `key` only for steps behind the step at position `t`.
pub open spec fn needs_only_after(plugin: DeclarationView, key: Seq<char>, t: int) -> bool {
    forall|a: int|
        0 <= a < plugin.sinks.len() && (#[trigger] plugin.sinks[a]).key == key
            ==> plugin.sinks[a].step.position() > t
}

/// Publication comes first, for each publisher: in front of every action
/// that writes the value published under a key into a plugin stands the read
/// of that key from each plugin that publishes it in a prior step. A plugin
/// publishes the key in a step when it declares the key as a source of the
/// step and is a member of the step; the step is prior when the writing
/// plugin needs the key only for later steps.
pub proof fn law_each_publication_precedes_uses(
    plugins: Seq<DeclarationView>,
    config: ConfigView,
    injections: Seq<(PluginId, InjectionTarget)>,
    is_dry_run: bool,
    j: int,
    dst: Seq<char>,
    key: Seq<char>,
    publisher: PluginId,
    prior: PluginStep,
)
    requires
        compile_spec(plugins, config, injections, is_dry_run) is Ok,
        0 <= j < compile_spec(plugins, config, injections, is_dry_run)->Ok_0.len(),
        compile_spec(plugins, config, injections, is_dry_run)->Ok_0[j].kind
            == ActionKindView::SetFrom(dst, key),
        members(plugins, config, injections, prior) matches Ok(ids) && ids.contains(publisher),
        has_source(plugins[publisher as int], key, prior),
        needs_only_after(
            plugins[compile_spec(plugins, config, injections, is_dry_run)->Ok_0[j].id as int],
            key,
            prior.position(),
        ),
    ensures
        ({
            let seq = compile_spec(plugins, config, injections, is_dry_run)->Ok_0;
            exists|g: int|
                0 <= g < j && #[trigger] seq[g] == (ActionView {
                    id: publisher,
                    kind: ActionKindView::Get(key),
                })
        }),
{
    lemma_compiled_is_whole(plugins, config, injections, is_dry_run);
    let table = table_of(plugins, config, injections);
    lemma_membership_rows(plugins, config, injections, STEP_COUNT as int);
    let t = prior.position();
    assert(step_at(t) == prior);
    assert(members(plugins, config, injections, step_at(t)) == Ok::<
        Seq<PluginId>,
        ConfigurationFaultView,
    >(table[t]));
    let g = lemma_each_publication_precedes_use(
        plugins,
        config,
        table,
        is_dry_run,
        j,
        dst,
        key,
        publisher,
        t,
    );
    let seq = compile_spec(plugins, config, injections, is_dry_run)->Ok_0;
    assert(seq[g] == (ActionView { id: publisher, kind: ActionKindView::Get(key) }));
}

} // verus!
