//! Which plugins serve which step.
//!
//! The configuration gives each step a definition. The definition, the list of
//! started plugins and the injections decide the ordered list of plugins that
//! serve the step: its members.

use vstd::prelude::*;
use crate::assoc::{
    first_index, lemma_first_index_is, lemma_first_index_none, lemma_first_index_sound, lookup,
    names_view, position_of,
};
use crate::config::{Config, ConfigView, StepDefinition, StepDefinitionView};
use crate::error::{ConfigurationFault, ConfigurationFaultView};
use crate::plugin::{DeclarationView, Plugin, PluginId, declarations_view};
use crate::step::{PluginStep, STEP_COUNT, step_at};

verus! {

/// Where an injected plugin is placed among the members of a step.
#[derive(Debug, Clone, Copy, PartialEq, Eq, Structural)]
pub enum InjectionTarget {
    /// In front of the members the step has so far.
    BeforeStep(PluginStep),
    /// Behind the members the step has so far.
    AfterStep(PluginStep),
}

/// The names of the plugins of a list, in order.
pub open spec fn plugin_names(plugins: Seq<DeclarationView>) -> Seq<Seq<char>> {
    Seq::new(plugins.len(), |i: int| plugins[i].name)
}

/// The id of the plugin called `name`: the first plugin of that name.
pub open spec fn plugin_index(plugins: Seq<DeclarationView>, name: Seq<char>) -> Option<int> {
    first_index(plugin_names(plugins), name)
}

/// Whether some injection places the plugin `id`.
pub open spec fn is_injected(injections: Seq<(PluginId, InjectionTarget)>, id: PluginId) -> bool {
    exists|k: int| 0 <= k < injections.len() && (#[trigger] injections[k]).0 == id
}

/// Whether every injection places a plugin of the list.
pub open spec fn injections_in_bounds(
    injections: Seq<(PluginId, InjectionTarget)>,
    count: nat,
) -> bool {
    forall|k: int| 0 <= k < injections.len() ==> (#[trigger] injections[k]).0 < count
}

/// The ids of the plugins that `names` names, in the order of `names`; or the
/// first name that names no plugin.
pub open spec fn named_members(plugins: Seq<DeclarationView>, names: Seq<Seq<char>>) -> Result<
    Seq<PluginId>,
    Seq<char>,
>
    decreases names.len(),
{
    if names.len() == 0 {
        Ok(Seq::empty())
    } else {
        match named_members(plugins, names.drop_last()) {
            Err(missing) => Err(missing),
            Ok(ids) => match plugin_index(plugins, names.last()) {
                Some(i) => Ok(ids.push(i as usize)),
                None => Err(names.last()),
            },
        }
    }
}

/// Whether the configured plugin `id` is chosen for `step` by a definition that
/// names no plugin: a shared step takes every configured plugin, a discovered
/// step those that declare the step. Injected plugins are placed by their
/// injection alone.
pub open spec fn is_eligible(
    plugins: Seq<DeclarationView>,
    injections: Seq<(PluginId, InjectionTarget)>,
    step: PluginStep,
    discover: bool,
    id: int,
) -> bool {
    &&& !is_injected(injections, id as usize)
    &&& discover ==> plugins[id].steps.contains(step)
}

/// The eligible plugins among the first `n`, in list order.
pub open spec fn configured_members(
    plugins: Seq<DeclarationView>,
    injections: Seq<(PluginId, InjectionTarget)>,
    step: PluginStep,
    discover: bool,
    n: int,
) -> Seq<PluginId>
    decreases n,
{
    if n <= 0 {
        Seq::empty()
    } else {
        let before = configured_members(plugins, injections, step, discover, n - 1);
        if is_eligible(plugins, injections, step, discover, n - 1) {
            before.push((n - 1) as usize)
        } else {
            before
        }
    }
}

/// The members that the configuration gives a step, before injections; or
/// the first name in the step's definition that names no plugin. A step
/// without a definition has no members.
pub open spec fn base_members(
    plugins: Seq<DeclarationView>,
    config: ConfigView,
    injections: Seq<(PluginId, InjectionTarget)>,
    step: PluginStep,
) -> Result<Seq<PluginId>, Seq<char>> {
    match lookup(config.steps, step) {
        None => Ok(Seq::empty()),
        Some(StepDefinitionView::Shared) => Ok(
            configured_members(plugins, injections, step, false, plugins.len() as int),
        ),
        Some(StepDefinitionView::Discover) => Ok(
            configured_members(plugins, injections, step, true, plugins.len() as int),
        ),
        Some(StepDefinitionView::Singleton(name)) => named_members(plugins, seq![name]),
        Some(StepDefinitionView::Parallel(names)) => named_members(plugins, names),
        Some(StepDefinitionView::Plan(names)) => named_members(plugins, names),
    }
}

/// The members of `step` after the injections have been applied, from first to
/// last, to the members `base`.
pub open spec fn with_injections(
    injections: Seq<(PluginId, InjectionTarget)>,
    step: PluginStep,
    base: Seq<PluginId>,
) -> Seq<PluginId>
    decreases injections.len(),
{
    if injections.len() == 0 {
        base
    } else {
        let before = with_injections(injections.drop_last(), step, base);
        match injections.last().1 {
            InjectionTarget::BeforeStep(s) => if s == step {
                seq![injections.last().0] + before
            } else {
                before
            },
            InjectionTarget::AfterStep(s) => if s == step {
                before.push(injections.last().0)
            } else {
                before
            },
        }
    }
}

/// Whether a step breaks the rule of singleton steps: a singleton step that
/// the configuration defines has exactly one member, and one that it does not
/// define has at most one.
pub open spec fn singleton_violated(config: ConfigView, step: PluginStep, count: nat) -> bool {
    step.singleton() && if lookup(config.steps, step) is Some {
        count != 1
    } else {
        count > 1
    }
}

/// The members of a step, or what is wrong with its configuration.
pub open spec fn members(
    plugins: Seq<DeclarationView>,
    config: ConfigView,
    injections: Seq<(PluginId, InjectionTarget)>,
    step: PluginStep,
) -> Result<Seq<PluginId>, ConfigurationFaultView> {
    match base_members(plugins, config, injections, step) {
        Err(missing) => Err(ConfigurationFaultView::MissingPlugin(step, missing)),
        Ok(base) => {
            let all = with_injections(injections, step, base);
            if singleton_violated(config, step, all.len()) {
                Err(ConfigurationFaultView::SingletonStep(step))
            } else {
                Ok(all)
            }
        },
    }
}

/// The members of the first `n` steps of the pipeline, by step position; or
/// the fault of the first step that has one.
pub open spec fn membership(
    plugins: Seq<DeclarationView>,
    config: ConfigView,
    injections: Seq<(PluginId, InjectionTarget)>,
    n: int,
) -> Result<Seq<Seq<PluginId>>, ConfigurationFaultView>
    decreases n,
{
    if n <= 0 {
        Ok(Seq::empty())
    } else {
        match membership(plugins, config, injections, n - 1) {
            Err(fault) => Err(fault),
            Ok(table) => match members(plugins, config, injections, step_at(n - 1)) {
                Err(fault) => Err(fault),
                Ok(ids) => Ok(table.push(ids)),
            },
        }
    }
}

/// Whether every id of a membership table names a plugin of a list of `count` plugins.
pub open spec fn table_in_bounds(table: Seq<Seq<PluginId>>, count: nat) -> bool {
    forall|t: int, i: int|
        0 <= t < table.len() && 0 <= i < table[t].len() ==> (#[trigger] table[t][i]) < count
}

/// A membership table as a sequence of member lists.
pub open spec fn table_view(table: Seq<Vec<PluginId>>) -> Seq<Seq<PluginId>> {
    Seq::new(table.len(), |t: int| table[t]@)
}

/// Finds the plugin called `name`.
pub fn find_plugin<P>(plugins: &Vec<Plugin<P>>, name: &String) -> (r: Option<PluginId>)
    ensures
        position_of(r) == plugin_index(declarations_view(plugins@), name@),
        r matches Some(i) ==> i < plugins.len(),
{
    let ghost names = plugin_names(declarations_view(plugins@));
    let mut i: usize = 0;
    while i < plugins.len()
        invariant
            i <= plugins.len(),
            names == plugin_names(declarations_view(plugins@)),
            names.len() == plugins.len(),
            forall|j: int| 0 <= j < i ==> names[j] != name@,
        decreases plugins.len() - i,
    {
        if plugins[i].name == *name {
            proof {
                assert(names[i as int] == name@);
                lemma_first_index_is(names, name@, i as int);
            }
            return Some(i);
        }
        i = i + 1;
    }
    proof {
        lemma_first_index_none(names, name@);
    }
    None
}

/// Whether some injection places the plugin `id`.
pub fn placed_by_injection(injections: &Vec<(PluginId, InjectionTarget)>, id: PluginId) -> (r:
    bool)
    ensures
        r == is_injected(injections@, id),
{
    let mut k: usize = 0;
    while k < injections.len()
        invariant
            k <= injections.len(),
            forall|j: int| 0 <= j < k ==> (#[trigger] injections@[j]).0 != id,
        decreases injections.len() - k,
    {
        if injections[k].0 == id {
            return true;
        }
        k = k + 1;
    }
    false
}

/// Whether every injection places a plugin of a list of `count` plugins.
pub fn injections_valid(injections: &Vec<(PluginId, InjectionTarget)>, count: usize) -> (r: bool)
    ensures
        r == injections_in_bounds(injections@, count as nat),
{
    let mut k: usize = 0;
    while k < injections.len()
        invariant
            k <= injections.len(),
            forall|j: int| 0 <= j < k ==> (#[trigger] injections@[j]).0 < count,
        decreases injections.len() - k,
    {
        if injections[k].0 >= count {
            return false;
        }
        k = k + 1;
    }
    true
}

/// Whether a plugin declares a step.
pub fn declares_step<P>(plugin: &Plugin<P>, step: PluginStep) -> (r: bool)
    ensures
        r == plugin.declared().steps.contains(step),
{
    let mut i: usize = 0;
    while i < plugin.declaration.steps.len()
        invariant
            i <= plugin.declaration.steps.len(),
            forall|j: int| 0 <= j < i ==> plugin.declaration.steps@[j] != step,
        decreases plugin.declaration.steps.len() - i,
    {
        if plugin.declaration.steps[i] == step {
            return true;
        }
        i = i + 1;
    }
    false
}

/// The plugins that a list of names names.
pub fn collect_named<P>(plugins: &Vec<Plugin<P>>, names: &Vec<String>) -> (r: Result<
    Vec<PluginId>,
    String,
>)
    ensures
        match r {
            Ok(ids) => named_members(declarations_view(plugins@), names_view(names@)) == Ok::<
                Seq<PluginId>,
                Seq<char>,
            >(ids@) && forall|i: int| 0 <= i < ids@.len() ==> ids@[i] < plugins.len(),
            Err(missing) => named_members(declarations_view(plugins@), names_view(names@)) == Err::<
                Seq<PluginId>,
                Seq<char>,
            >(missing@),
        },
{
    let ghost all = names_view(names@);
    let ghost decls = declarations_view(plugins@);
    let mut ids: Vec<PluginId> = Vec::new();
    let mut i: usize = 0;
    proof {
        assert(all.subrange(0, 0) =~= Seq::<Seq<char>>::empty());
    }
    while i < names.len()
        invariant
            i <= names.len(),
            all == names_view(names@),
            all.len() == names.len(),
            decls == declarations_view(plugins@),
            named_members(decls, all.subrange(0, i as int)) == Ok::<Seq<PluginId>, Seq<char>>(ids@),
            forall|j: int| 0 <= j < ids@.len() ==> ids@[j] < plugins.len(),
        decreases names.len() - i,
    {
        let ghost prefix = all.subrange(0, i as int + 1);
        proof {
            assert(prefix.drop_last() =~= all.subrange(0, i as int));
            assert(prefix.last() == names@[i as int]@);
        }
        match find_plugin(plugins, &names[i]) {
            Some(id) => {
                ids.push(id);
            },
            None => {
                proof {
                    lemma_named_members_stays_missing(decls, all, i as int + 1);
                }
                return Err(names[i].clone());
            },
        }
        i = i + 1;
    }
    proof {
        assert(all.subrange(0, i as int) =~= all);
    }
    Ok(ids)
}

/// Once a prefix of a list of names has a missing plugin, the whole list has the same one.
proof fn lemma_named_members_stays_missing(
    plugins: Seq<DeclarationView>,
    names: Seq<Seq<char>>,
    n: int,
)
    requires
        0 <= n <= names.len(),
        named_members(plugins, names.subrange(0, n)) is Err,
    ensures
        named_members(plugins, names) == named_members(plugins, names.subrange(0, n)),
    decreases names.len() - n,
{
    if n == names.len() {
        assert(names.subrange(0, n) =~= names);
    } else {
        let next = names.subrange(0, n + 1);
        assert(next.drop_last() =~= names.subrange(0, n));
        lemma_named_members_stays_missing(plugins, names, n + 1);
    }
}

/// The configured plugins that a shared or discovered step takes.
pub fn collect_configured<P>(
    plugins: &Vec<Plugin<P>>,
    injections: &Vec<(PluginId, InjectionTarget)>,
    step: PluginStep,
    discover: bool,
) -> (r: Vec<PluginId>)
    ensures
        r@ == configured_members(
            declarations_view(plugins@),
            injections@,
            step,
            discover,
            plugins.len() as int,
        ),
        forall|i: int| 0 <= i < r@.len() ==> r@[i] < plugins.len(),
{
    let ghost decls = declarations_view(plugins@);
    let mut ids: Vec<PluginId> = Vec::new();
    let mut i: usize = 0;
    while i < plugins.len()
        invariant
            i <= plugins.len(),
            decls == declarations_view(plugins@),
            ids@ == configured_members(decls, injections@, step, discover, i as int),
            forall|j: int| 0 <= j < ids@.len() ==> ids@[j] < plugins.len(),
        decreases plugins.len() - i,
    {
        let injected = placed_by_injection(injections, i);
        let eligible = !injected && (!discover || declares_step(&plugins[i], step));
        proof {
            assert(decls[i as int] == plugins@[i as int].declared());
            assert(eligible == is_eligible(decls, injections@, step, discover, i as int));
        }
        if eligible {
            ids.push(i);
        }
        i = i + 1;
    }
    ids
}

/// Applies the injections, from first to last, to the members of a step.
pub fn apply_injections(
    injections: &Vec<(PluginId, InjectionTarget)>,
    step: PluginStep,
    base: Vec<PluginId>,
) -> (r: Vec<PluginId>)
    ensures
        r@ == with_injections(injections@, step, base@),
{
    let mut ids = base;
    let mut k: usize = 0;
    proof {
        assert(injections@.subrange(0, 0) =~= Seq::<(PluginId, InjectionTarget)>::empty());
    }
    while k < injections.len()
        invariant
            k <= injections.len(),
            ids@ == with_injections(injections@.subrange(0, k as int), step, base@),
        decreases injections.len() - k,
    {
        let ghost prefix = injections@.subrange(0, k as int + 1);
        let ghost before = ids@;
        proof {
            assert(prefix.drop_last() =~= injections@.subrange(0, k as int));
            assert(prefix.last() == injections@[k as int]);
        }
        match injections[k].1 {
            InjectionTarget::BeforeStep(s) => {
                if s == step {
                    ids.insert(0, injections[k].0);
                    proof {
                        assert(ids@ =~= seq![injections@[k as int].0] + before);
                    }
                }
            },
            InjectionTarget::AfterStep(s) => {
                if s == step {
                    ids.push(injections[k].0);
                }
            },
        }
        k = k + 1;
    }
    proof {
        assert(injections@.subrange(0, k as int) =~= injections@);
    }
    ids
}

/// The members that the configuration gives a step, before injections.
pub fn step_base_members<P>(
    plugins: &Vec<Plugin<P>>,
    config: &Config,
    injections: &Vec<(PluginId, InjectionTarget)>,
    step: PluginStep,
) -> (r: Result<Vec<PluginId>, String>)
    ensures
        match r {
            Ok(ids) => base_members(declarations_view(plugins@), config@, injections@, step) == Ok::<
                Seq<PluginId>,
                Seq<char>,
            >(ids@) && forall|i: int| 0 <= i < ids@.len() ==> ids@[i] < plugins.len(),
            Err(missing) => base_members(declarations_view(plugins@), config@, injections@, step)
                == Err::<Seq<PluginId>, Seq<char>>(missing@),
        },
{
    let ghost decls = declarations_view(plugins@);
    match config.step_definition(step) {
        None => Ok(Vec::new()),
        Some(StepDefinition::Shared) => Ok(collect_configured(plugins, injections, step, false)),
        Some(StepDefinition::Discover) => Ok(collect_configured(plugins, injections, step, true)),
        Some(StepDefinition::Singleton(name)) => {
            proof {
                let one = seq![name@];
                assert(one.drop_last() =~= Seq::<Seq<char>>::empty());
                assert(one.last() == name@);
                assert(named_members(decls, one.drop_last()) == Ok::<Seq<PluginId>, Seq<char>>(
                    Seq::empty(),
                ));
            }
            match find_plugin(plugins, name) {
                Some(id) => {
                    let mut ids: Vec<PluginId> = Vec::new();
                    ids.push(id);
                    proof {
                        assert(ids@ =~= Seq::<PluginId>::empty().push(id));
                    }
                    Ok(ids)
                },
                None => Err(name.clone()),
            }
        },
        Some(StepDefinition::Parallel(names)) => collect_named(plugins, names),
        Some(StepDefinition::Plan(names)) => collect_named(plugins, names),
    }
}

/// Injections place only plugins of the list, so they keep a member list inside it.
pub proof fn lemma_with_injections_in_bounds(
    injections: Seq<(PluginId, InjectionTarget)>,
    step: PluginStep,
    base: Seq<PluginId>,
    count: nat,
)
    requires
        injections_in_bounds(injections, count),
        forall|i: int| 0 <= i < base.len() ==> base[i] < count,
    ensures
        forall|i: int|
            0 <= i < with_injections(injections, step, base).len() ==> with_injections(
                injections,
                step,
                base,
            )[i] < count,
    decreases injections.len(),
{
    if injections.len() > 0 {
        let rest = injections.drop_last();
        assert forall|k: int| 0 <= k < rest.len() implies (#[trigger] rest[k]).0 < count by {
            assert(rest[k] == injections[k]);
        }
        lemma_with_injections_in_bounds(rest, step, base, count);
        let before = with_injections(rest, step, base);
        let all = with_injections(injections, step, base);
        let placed = injections[injections.len() - 1];
        assert(placed.0 < count);
        assert forall|i: int| 0 <= i < all.len() implies all[i] < count by {
            match placed.1 {
                InjectionTarget::BeforeStep(s) => {
                    if s == step && i > 0 {
                        assert(all[i] == before[i - 1]);
                    }
                },
                InjectionTarget::AfterStep(s) => {
                    if s == step && i < before.len() {
                        assert(all[i] == before[i]);
                    }
                },
            }
        }
    }
}

/// The members of a step, or what is wrong with its configuration.
pub fn step_members<P>(
    plugins: &Vec<Plugin<P>>,
    config: &Config,
    injections: &Vec<(PluginId, InjectionTarget)>,
    step: PluginStep,
) -> (r: Result<Vec<PluginId>, ConfigurationFault>)
    requires
        injections_in_bounds(injections@, plugins@.len()),
    ensures
        match r {
            Ok(ids) => members(declarations_view(plugins@), config@, injections@, step) == Ok::<
                Seq<PluginId>,
                ConfigurationFaultView,
            >(ids@) && forall|i: int| 0 <= i < ids@.len() ==> ids@[i] < plugins.len(),
            Err(fault) => members(declarations_view(plugins@), config@, injections@, step) == Err::<
                Seq<PluginId>,
                ConfigurationFaultView,
            >(fault@),
        },
{
    match step_base_members(plugins, config, injections, step) {
        Err(missing) => Err(ConfigurationFault::MissingPlugin(step, missing)),
        Ok(base) => {
            proof {
                lemma_with_injections_in_bounds(injections@, step, base@, plugins@.len());
            }
            let all = apply_injections(injections, step, base);
            let configured = config.step_definition(step).is_some();
            let violated = step.is_singleton() && if configured {
                all.len() != 1
            } else {
                all.len() > 1
            };
            if violated {
                Err(ConfigurationFault::SingletonStep(step))
            } else {
                Ok(all)
            }
        },
    }
}

/// The members of every step, by step position, or the fault of the first step that has one.
pub fn build_membership<P>(
    plugins: &Vec<Plugin<P>>,
    config: &Config,
    injections: &Vec<(PluginId, InjectionTarget)>,
) -> (r: Result<Vec<Vec<PluginId>>, ConfigurationFault>)
    requires
        injections_in_bounds(injections@, plugins@.len()),
    ensures
        match r {
            Ok(table) => membership(
                declarations_view(plugins@),
                config@,
                injections@,
                STEP_COUNT as int,
            ) == Ok::<Seq<Seq<PluginId>>, ConfigurationFaultView>(table_view(table@))
                && table@.len() == STEP_COUNT && table_in_bounds(
                table_view(table@),
                plugins@.len(),
            ),
            Err(fault) => membership(
                declarations_view(plugins@),
                config@,
                injections@,
                STEP_COUNT as int,
            ) == Err::<Seq<Seq<PluginId>>, ConfigurationFaultView>(fault@),
        },
{
    let ghost decls = declarations_view(plugins@);
    let mut table: Vec<Vec<PluginId>> = Vec::new();
    let mut n: usize = 0;
    proof {
        assert(table_view(table@) =~= Seq::<Seq<PluginId>>::empty());
    }
    while n < STEP_COUNT
        invariant
            n <= STEP_COUNT,
            decls == declarations_view(plugins@),
            injections_in_bounds(injections@, plugins@.len()),
            table@.len() == n,
            membership(decls, config@, injections@, n as int) == Ok::<
                Seq<Seq<PluginId>>,
                ConfigurationFaultView,
            >(table_view(table@)),
            table_in_bounds(table_view(table@), plugins@.len()),
        decreases STEP_COUNT - n,
    {
        let step = match PluginStep::from_index(n) {
            Some(step) => step,
            None => vstd::pervasive::unreached(),
        };
        let ghost before = table_view(table@);
        match step_members(plugins, config, injections, step) {
            Err(fault) => {
                proof {
                    lemma_membership_stays_faulty(decls, config@, injections@, n as int + 1);
                }
                return Err(fault);
            },
            Ok(ids) => {
                let ghost row = ids@;
                table.push(ids);
                proof {
                    assert(table_view(table@) =~= before.push(row));
                    assert forall|t: int, i: int|
                        0 <= t < table_view(table@).len() && 0 <= i < table_view(
                            table@,
                        )[t].len() implies (#[trigger] table_view(table@)[t][i])
                        < plugins@.len() by {
                        if t < n {
                            assert(table_view(table@)[t] == before[t]);
                            assert(before[t][i] < plugins@.len());
                        }
                    }
                }
            },
        }
        n = n + 1;
    }
    Ok(table)
}

/// Once the first steps have a fault, the whole pipeline has the same one.
pub proof fn lemma_membership_stays_faulty(
    plugins: Seq<DeclarationView>,
    config: ConfigView,
    injections: Seq<(PluginId, InjectionTarget)>,
    n: int,
)
    requires
        0 <= n <= STEP_COUNT,
        membership(plugins, config, injections, n) is Err,
    ensures
        membership(plugins, config, injections, STEP_COUNT as int) == membership(
            plugins,
            config,
            injections,
            n,
        ),
    decreases STEP_COUNT - n,
{
    if n < STEP_COUNT {
        lemma_membership_stays_faulty(plugins, config, injections, n + 1);
    }
}

/// A membership table holds the members of each step, in pipeline order.
pub proof fn lemma_membership_rows(
    plugins: Seq<DeclarationView>,
    config: ConfigView,
    injections: Seq<(PluginId, InjectionTarget)>,
    n: int,
)
    requires
        0 <= n,
        membership(plugins, config, injections, n) is Ok,
    ensures
        membership(plugins, config, injections, n)->Ok_0.len() == n,
        forall|t: int|
            0 <= t < n ==> #[trigger] members(plugins, config, injections, step_at(t)) == Ok::<
                Seq<PluginId>,
                ConfigurationFaultView,
            >(membership(plugins, config, injections, n)->Ok_0[t]),
    decreases n,
{
    if n > 0 {
        lemma_membership_rows(plugins, config, injections, n - 1);
    }
}

/// A fault in the membership of a step is a fault of the pipeline.
pub proof fn lemma_membership_faults(
    plugins: Seq<DeclarationView>,
    config: ConfigView,
    injections: Seq<(PluginId, InjectionTarget)>,
    n: int,
    t: int,
)
    requires
        0 <= t < n,
        members(plugins, config, injections, step_at(t)) is Err,
    ensures
        membership(plugins, config, injections, n) is Err,
    decreases n,
{
    if t < n - 1 {
        lemma_membership_faults(plugins, config, injections, n - 1, t);
    }
}

/// Named members are plugins of the list.
pub proof fn lemma_named_members_in_bounds(plugins: Seq<DeclarationView>, names: Seq<Seq<char>>)
    requires
        plugins.len() <= usize::MAX,
        named_members(plugins, names) is Ok,
    ensures
        forall|i: int|
            0 <= i < named_members(plugins, names)->Ok_0.len() ==> (#[trigger] named_members(
                plugins,
                names,
            )->Ok_0[i]) < plugins.len(),
    decreases names.len(),
{
    if names.len() > 0 {
        lemma_named_members_in_bounds(plugins, names.drop_last());
        lemma_first_index_sound(plugin_names(plugins), names.last());
    }
}

/// Configured members are plugins of the list.
pub proof fn lemma_configured_members_in_bounds(
    plugins: Seq<DeclarationView>,
    injections: Seq<(PluginId, InjectionTarget)>,
    step: PluginStep,
    discover: bool,
    n: int,
)
    requires
        n <= plugins.len() <= usize::MAX,
    ensures
        forall|i: int|
            0 <= i < configured_members(plugins, injections, step, discover, n).len() ==> (
            #[trigger] configured_members(plugins, injections, step, discover, n)[i])
                < plugins.len(),
    decreases n,
{
    if n > 0 {
        lemma_configured_members_in_bounds(plugins, injections, step, discover, n - 1);
        let before = configured_members(plugins, injections, step, discover, n - 1);
        let all = configured_members(plugins, injections, step, discover, n);
        assert forall|i: int| 0 <= i < all.len() implies (#[trigger] all[i]) < plugins.len() by {
            if i < before.len() {
                assert(all[i] == before[i]);
            } else {
                assert(all[i] == (n - 1) as usize);
            }
        }
    }
}

/// The members of a step are plugins of the list.
pub proof fn lemma_members_in_bounds(
    plugins: Seq<DeclarationView>,
    config: ConfigView,
    injections: Seq<(PluginId, InjectionTarget)>,
    step: PluginStep,
)
    requires
        plugins.len() <= usize::MAX,
        injections_in_bounds(injections, plugins.len()),
        members(plugins, config, injections, step) is Ok,
    ensures
        forall|i: int|
            0 <= i < members(plugins, config, injections, step)->Ok_0.len() ==> (#[trigger] members(
                plugins,
                config,
                injections,
                step,
            )->Ok_0[i]) < plugins.len(),
{
    let base = base_members(plugins, config, injections, step)->Ok_0;
    match lookup(config.steps, step) {
        None => {},
        Some(StepDefinitionView::Shared) => {
            lemma_configured_members_in_bounds(
                plugins,
                injections,
                step,
                false,
                plugins.len() as int,
            );
        },
        Some(StepDefinitionView::Discover) => {
            lemma_configured_members_in_bounds(
                plugins,
                injections,
                step,
                true,
                plugins.len() as int,
            );
        },
        Some(StepDefinitionView::Singleton(name)) => {
            lemma_named_members_in_bounds(plugins, seq![name]);
        },
        Some(StepDefinitionView::Parallel(names)) => {
            lemma_named_members_in_bounds(plugins, names);
        },
        Some(StepDefinitionView::Plan(names)) => {
            lemma_named_members_in_bounds(plugins, names);
        },
    }
    lemma_with_injections_in_bounds(injections, step, base, plugins.len());
}

/// Every member of a membership table is a plugin of the list.
pub proof fn lemma_membership_in_bounds(
    plugins: Seq<DeclarationView>,
    config: ConfigView,
    injections: Seq<(PluginId, InjectionTarget)>,
    n: int,
)
    requires
        0 <= n,
        plugins.len() <= usize::MAX,
        injections_in_bounds(injections, plugins.len()),
        membership(plugins, config, injections, n) is Ok,
    ensures
        table_in_bounds(membership(plugins, config, injections, n)->Ok_0, plugins.len()),
{
    lemma_membership_rows(plugins, config, injections, n);
    let table = membership(plugins, config, injections, n)->Ok_0;
    assert forall|t: int, i: int| 0 <= t < table.len() && 0 <= i < table[t].len() implies (
    #[trigger] table[t][i]) < plugins.len() by {
        assert(members(plugins, config, injections, step_at(t)) == Ok::<
            Seq<PluginId>,
            ConfigurationFaultView,
        >(table[t]));
        lemma_members_in_bounds(plugins, config, injections, step_at(t));
    }
}

} // verus!
