//! The plugin sequence: the linear list of actions that a run executes.
//!
//! The sequence is compiled from the started plugins, the configuration, the
//! injections and the dry-run switch. Steps run in pipeline order and the
//! members of a step in member order. For each member the sequence holds, in
//! this order: the actions that fill the sinks the plugin needs for the step,
//! the call of the step, and the actions that publish the plugin's sources of
//! the step. In a dry run the steps that are not dry-run safe are left out
//! with everything that belongs to them.

use vstd::prelude::*;
use crate::assoc::{
    find_key, has_key, is_first_index, keys_of, lemma_first_index_none, lookup, string_keys,
};
use crate::config::{Config, ConfigView, PluginDefinition, cfg_view, options_view};
use crate::error::{Error, ErrorView};
use crate::membership::{
    InjectionTarget, build_membership, injections_in_bounds, injections_valid, membership,
    table_in_bounds, table_view,
};
use crate::plugin::{
    DeclarationView, Plugin, PluginId, SinkDeclaration, SinkView, declarations_view,
};
use crate::step::{PluginStep, STEP_COUNT, step_at};

verus! {

/// What an action does to its plugin.
#[derive(Debug, Clone, PartialEq, Eq)]
pub enum ActionKind {
    /// Run a step on the plugin.
    Call(PluginStep),
    /// Read a key from the plugin and publish it under the same key.
    Get(String),
    /// Write into the plugin, at the first key, the value published under the second.
    SetFrom(String, String),
    /// Write a literal into the plugin.
    SetValue(String, serde_json::Value),
    /// Write into the plugin the configuration entry of the same key.
    RequireConfigEntry(String),
    /// Write into the plugin, at the first key, the environment variable named second.
    RequireEnvValue(String, String),
}

/// The mathematical content of an [`ActionKind`].
pub ghost enum ActionKindView {
    Call(PluginStep),
    Get(Seq<char>),
    SetFrom(Seq<char>, Seq<char>),
    SetValue(Seq<char>, serde_json::Value),
    RequireConfigEntry(Seq<char>),
    RequireEnvValue(Seq<char>, Seq<char>),
}

impl View for ActionKind {
    type V = ActionKindView;

    open spec fn view(&self) -> ActionKindView {
        match self {
            ActionKind::Call(step) => ActionKindView::Call(*step),
            ActionKind::Get(key) => ActionKindView::Get(key@),
            ActionKind::SetFrom(dst, src) => ActionKindView::SetFrom(dst@, src@),
            ActionKind::SetValue(dst, json) => ActionKindView::SetValue(dst@, *json),
            ActionKind::RequireConfigEntry(dst) => ActionKindView::RequireConfigEntry(dst@),
            ActionKind::RequireEnvValue(dst, name) => ActionKindView::RequireEnvValue(dst@, name@),
        }
    }
}

/// One unit of work: a plugin and what is done to it.
#[derive(Debug, Clone, PartialEq, Eq)]
pub struct Action {
    pub id: PluginId,
    pub kind: ActionKind,
}

/// The mathematical content of an [`Action`].
pub ghost struct ActionView {
    pub id: PluginId,
    pub kind: ActionKindView,
}

impl View for Action {
    type V = ActionView;

    open spec fn view(&self) -> ActionView {
        ActionView { id: self.id, kind: self.kind@ }
    }
}

impl Action {
    /// An action on the plugin `id`.
    pub fn new(id: PluginId, kind: ActionKind) -> (r: Action)
        ensures
            r.id == id,
            r.kind == kind,
    {
        Action { id, kind }
    }

    /// The plugin that the action works on.
    pub fn id(&self) -> (r: PluginId)
        ensures
            r == self.id,
    {
        self.id
    }

    /// What the action does.
    pub fn kind(&self) -> (r: &ActionKind)
        ensures
            *r == self.kind,
    {
        &self.kind
    }

    /// What the action does, by value.
    pub fn into_kind(self) -> (r: ActionKind)
        ensures
            r == self.kind,
    {
        self.kind
    }
}

/// The actions of a list, as mathematical values.
pub open spec fn actions_view(actions: Seq<Action>) -> Seq<ActionView> {
    Seq::new(actions.len(), |i: int| actions[i]@)
}

/// Whether a plugin declares that `step` publishes `key`.
pub open spec fn has_source(plugin: DeclarationView, key: Seq<char>, step: PluginStep) -> bool {
    exists|k: int|
        0 <= k < plugin.sources.len() && (#[trigger] plugin.sources[k]).key == key
            && plugin.sources[k].step == step
}

/// Whether a member of `step` other than the plugin `id` publishes `key` in that step.
pub open spec fn published_in(
    plugins: Seq<DeclarationView>,
    members: Seq<PluginId>,
    id: PluginId,
    key: Seq<char>,
    step: PluginStep,
) -> bool {
    exists|i: int|
        0 <= i < members.len() && (#[trigger] members[i]) != id && members[i] < plugins.len()
            && has_source(plugins[members[i] as int], key, step)
}

/// Whether another plugin publishes `key` in a step before `step`.
pub open spec fn published_before(
    plugins: Seq<DeclarationView>,
    table: Seq<Seq<PluginId>>,
    id: PluginId,
    key: Seq<char>,
    step: PluginStep,
) -> bool {
    exists|t: int|
        0 <= t < step.position() && t < table.len() && #[trigger] published_in(
            plugins,
            table[t],
            id,
            key,
            step_at(t),
        )
}

/// The literal that the configuration gives the plugin called `name` for `key`.
pub open spec fn literal_for(config: ConfigView, name: Seq<char>, key: Seq<char>) -> Option<
    serde_json::Value,
> {
    match lookup(config.plugins, name) {
        Some(definition) => lookup(definition.options, key),
        None => None,
    }
}

/// How a sink of the plugin `id` is filled. In this order: from the
/// environment, if the sink names a variable; from the configuration entry of
/// the same key, if there is one; from the value that another plugin publishes
/// under the key in an earlier step; from the literal that the plugin's
/// definition gives for the key. A sink that none of these fills is left to
/// the configuration entry of its key, which the run then looks for.
pub open spec fn sink_action(
    plugins: Seq<DeclarationView>,
    config: ConfigView,
    table: Seq<Seq<PluginId>>,
    id: PluginId,
    sink: SinkView,
) -> ActionKindView {
    match sink.env {
        Some(name) => ActionKindView::RequireEnvValue(sink.key, name),
        None => if has_key(config.cfg, sink.key) {
            ActionKindView::RequireConfigEntry(sink.key)
        } else if published_before(plugins, table, id, sink.key, sink.step) {
            ActionKindView::SetFrom(sink.key, sink.key)
        } else {
            match literal_for(config, plugins[id as int].name, sink.key) {
                Some(json) => ActionKindView::SetValue(sink.key, json),
                None => ActionKindView::RequireConfigEntry(sink.key),
            }
        },
    }
}

/// The actions that fill those of the first `n` sinks of the plugin `id`
/// that it needs for `step`, in declaration order.
pub open spec fn provisions(
    plugins: Seq<DeclarationView>,
    config: ConfigView,
    table: Seq<Seq<PluginId>>,
    id: PluginId,
    step: PluginStep,
    n: int,
) -> Seq<ActionView>
    decreases n,
{
    if n <= 0 {
        Seq::empty()
    } else {
        let before = provisions(plugins, config, table, id, step, n - 1);
        let sink = plugins[id as int].sinks[n - 1];
        if sink.step == step {
            before.push(ActionView { id, kind: sink_action(plugins, config, table, id, sink) })
        } else {
            before
        }
    }
}

/// The actions that publish those of the first `n` sources of the plugin
/// `id` that `step` publishes, in declaration order.
pub open spec fn publications(
    plugins: Seq<DeclarationView>,
    id: PluginId,
    step: PluginStep,
    n: int,
) -> Seq<ActionView>
    decreases n,
{
    if n <= 0 {
        Seq::empty()
    } else {
        let before = publications(plugins, id, step, n - 1);
        let source = plugins[id as int].sources[n - 1];
        if source.step == step {
            before.push(ActionView { id, kind: ActionKindView::Get(source.key) })
        } else {
            before
        }
    }
}

/// The actions of the member at position `i` of `step`: its provisions,
/// unless an earlier position of the step holds the same plugin and has
/// them already; the call; its publications.
pub open spec fn member_actions(
    plugins: Seq<DeclarationView>,
    config: ConfigView,
    table: Seq<Seq<PluginId>>,
    step: PluginStep,
    i: int,
) -> Seq<ActionView> {
    let members = table[step.position()];
    let id = members[i];
    let plugin = plugins[id as int];
    let filled = if is_first_index(members, id, i) {
        provisions(plugins, config, table, id, step, plugin.sinks.len() as int)
    } else {
        Seq::empty()
    };
    filled.push(ActionView { id, kind: ActionKindView::Call(step) }) + publications(
        plugins,
        id,
        step,
        plugin.sources.len() as int,
    )
}

/// The actions of the first `n` members of `step`.
pub open spec fn step_actions(
    plugins: Seq<DeclarationView>,
    config: ConfigView,
    table: Seq<Seq<PluginId>>,
    step: PluginStep,
    n: int,
) -> Seq<ActionView>
    decreases n,
{
    if n <= 0 {
        Seq::empty()
    } else {
        step_actions(plugins, config, table, step, n - 1) + member_actions(
            plugins,
            config,
            table,
            step,
            n - 1,
        )
    }
}

/// Whether a step is part of the run.
pub open spec fn is_emitted(step: PluginStep, is_dry_run: bool) -> bool {
    !is_dry_run || step.dry_run_safe()
}

/// The actions of the first `n` steps of the pipeline.
pub open spec fn sequence_upto(
    plugins: Seq<DeclarationView>,
    config: ConfigView,
    table: Seq<Seq<PluginId>>,
    is_dry_run: bool,
    n: int,
) -> Seq<ActionView>
    decreases n,
{
    if n <= 0 {
        Seq::empty()
    } else {
        let before = sequence_upto(plugins, config, table, is_dry_run, n - 1);
        let step = step_at(n - 1);
        if is_emitted(step, is_dry_run) {
            before + step_actions(plugins, config, table, step, table[n - 1].len() as int)
        } else {
            before
        }
    }
}

/// The sequence that a list of started plugins, a configuration, a list of
/// injections and the dry-run switch stand for, or why there is none.
///
/// An injection that places no plugin of the list is an invariant violation.
/// Otherwise a fault in the membership of a step is a configuration error,
/// and without one the sequence holds the actions of all steps.
pub open spec fn compile_spec(
    plugins: Seq<DeclarationView>,
    config: ConfigView,
    injections: Seq<(PluginId, InjectionTarget)>,
    is_dry_run: bool,
) -> Result<Seq<ActionView>, ErrorView> {
    if !injections_in_bounds(injections, plugins.len()) {
        Err(ErrorView::InvariantViolation)
    } else {
        match membership(plugins, config, injections, STEP_COUNT as int) {
            Err(fault) => Err(ErrorView::ConfigurationError(fault)),
            Ok(table) => Ok(sequence_upto(plugins, config, table, is_dry_run, STEP_COUNT as int)),
        }
    }
}

/// Whether a plugin declares that `step` publishes `key`.
pub fn declares_source<P>(plugin: &Plugin<P>, key: &String, step: PluginStep) -> (r: bool)
    ensures
        r == has_source(plugin.declared(), key@, step),
{
    let ghost sources = plugin.declared().sources;
    let mut k: usize = 0;
    while k < plugin.declaration.sources.len()
        invariant
            k <= plugin.declaration.sources.len(),
            sources == plugin.declared().sources,
            sources.len() == plugin.declaration.sources.len(),
            forall|j: int|
                0 <= j < k ==> !((#[trigger] sources[j]).key == key@ && sources[j].step == step),
        decreases plugin.declaration.sources.len() - k,
    {
        if plugin.declaration.sources[k].step == step && plugin.declaration.sources[k].key
            == *key {
            proof {
                assert(sources[k as int] == plugin.declaration.sources@[k as int]@);
                assert(sources[k as int].key == key@ && sources[k as int].step == step);
            }
            return true;
        }
        proof {
            assert(sources[k as int] == plugin.declaration.sources@[k as int]@);
        }
        k = k + 1;
    }
    false
}

/// Whether a member of `step` other than the plugin `id` publishes `key` in that step.
pub fn is_published_in<P>(
    plugins: &Vec<Plugin<P>>,
    members: &Vec<PluginId>,
    id: PluginId,
    key: &String,
    step: PluginStep,
) -> (r: bool)
    ensures
        r == published_in(declarations_view(plugins@), members@, id, key@, step),
{
    let ghost decls = declarations_view(plugins@);
    let mut i: usize = 0;
    while i < members.len()
        invariant
            i <= members.len(),
            decls == declarations_view(plugins@),
            forall|j: int|
                0 <= j < i ==> !((#[trigger] members@[j]) != id && members@[j] < plugins@.len()
                    && has_source(decls[members@[j] as int], key@, step)),
        decreases members.len() - i,
    {
        let other = members[i];
        if other != id && other < plugins.len() {
            proof {
                assert(decls[other as int] == plugins@[other as int].declared());
            }
            if declares_source(&plugins[other], key, step) {
                return true;
            }
        }
        i = i + 1;
    }
    false
}

/// Whether another plugin publishes `key` in a step before `step`.
pub fn is_published_before<P>(
    plugins: &Vec<Plugin<P>>,
    table: &Vec<Vec<PluginId>>,
    id: PluginId,
    key: &String,
    step: PluginStep,
) -> (r: bool)
    ensures
        r == published_before(declarations_view(plugins@), table_view(table@), id, key@, step),
{
    let ghost decls = declarations_view(plugins@);
    let ghost rows = table_view(table@);
    let limit = step.index();
    let mut t: usize = 0;
    while t < limit && t < table.len()
        invariant
            t <= limit,
            limit == step.position(),
            decls == declarations_view(plugins@),
            rows == table_view(table@),
            rows.len() == table@.len(),
            forall|u: int|
                0 <= u < t && u < rows.len() ==> !(#[trigger] published_in(
                    decls,
                    rows[u],
                    id,
                    key@,
                    step_at(u),
                )),
        decreases limit - t,
    {
        let earlier = match PluginStep::from_index(t) {
            Some(earlier) => earlier,
            None => vstd::pervasive::unreached(),
        };
        proof {
            assert(rows[t as int] == table@[t as int]@);
        }
        if is_published_in(plugins, &table[t], id, key, earlier) {
            return true;
        }
        t = t + 1;
    }
    false
}

/// The literal that the configuration gives the plugin called `name` for `key`.
pub fn literal(config: &Config, name: &String, key: &String) -> (r: Option<serde_json::Value>)
    ensures
        r == literal_for(config@, name@, key@),
{
    match config.plugin_definition(name) {
        None => None,
        Some(PluginDefinition::Short(_)) => {
            proof {
                lemma_first_index_none(
                    keys_of(Seq::<(Seq<char>, serde_json::Value)>::empty()),
                    key@,
                );
            }
            None
        },
        Some(PluginDefinition::Full(full)) => {
            proof {
                assert(keys_of(options_view(full.options@)) =~= string_keys(full.options@));
            }
            match find_key(&full.options, key) {
                Some(i) => Some(full.options[i].1.clone()),
                None => None,
            }
        },
    }
}

/// How a sink of the plugin `id` is filled.
pub fn sink_to_action<P>(
    plugins: &Vec<Plugin<P>>,
    config: &Config,
    table: &Vec<Vec<PluginId>>,
    id: PluginId,
    sink: &SinkDeclaration,
) -> (r: ActionKind)
    requires
        id < plugins.len(),
    ensures
        r@ == sink_action(declarations_view(plugins@), config@, table_view(table@), id, sink@),
{
    proof {
        assert(keys_of(cfg_view(config.cfg@)) =~= string_keys(config.cfg@));
        assert(declarations_view(plugins@)[id as int] == plugins@[id as int].declared());
    }
    match &sink.env {
        Some(name) => ActionKind::RequireEnvValue(sink.key.clone(), name.clone()),
        None => {
            if find_key(&config.cfg, &sink.key).is_some() {
                ActionKind::RequireConfigEntry(sink.key.clone())
            } else if is_published_before(plugins, table, id, &sink.key, sink.step) {
                ActionKind::SetFrom(sink.key.clone(), sink.key.clone())
            } else {
                match literal(config, &plugins[id].name, &sink.key) {
                    Some(json) => ActionKind::SetValue(sink.key.clone(), json),
                    None => ActionKind::RequireConfigEntry(sink.key.clone()),
                }
            }
        },
    }
}

/// Appends the actions that fill the sinks that the plugin `id` needs for `step`.
pub fn push_provisions<P>(
    plugins: &Vec<Plugin<P>>,
    config: &Config,
    table: &Vec<Vec<PluginId>>,
    id: PluginId,
    step: PluginStep,
    out: &mut Vec<Action>,
)
    requires
        id < plugins.len(),
    ensures
        actions_view(final(out)@) == actions_view(old(out)@) + provisions(
            declarations_view(plugins@),
            config@,
            table_view(table@),
            id,
            step,
            plugins@[id as int].declared().sinks.len() as int,
        ),
{
    let ghost decls = declarations_view(plugins@);
    let ghost rows = table_view(table@);
    let ghost start = actions_view(out@);
    let plugin = &plugins[id];
    let mut n: usize = 0;
    proof {
        assert(decls[id as int] == plugins@[id as int].declared());
        assert(start + provisions(decls, config@, rows, id, step, 0) =~= start);
    }
    while n < plugin.declaration.sinks.len()
        invariant
            n <= plugin.declaration.sinks.len(),
            id < plugins.len(),
            *plugin == plugins@[id as int],
            decls == declarations_view(plugins@),
            decls[id as int] == plugins@[id as int].declared(),
            rows == table_view(table@),
            actions_view(out@) == start + provisions(decls, config@, rows, id, step, n as int),
        decreases plugin.declaration.sinks.len() - n,
    {
        let sink = &plugin.declaration.sinks[n];
        let ghost before = actions_view(out@);
        proof {
            assert(decls[id as int].sinks[n as int] == sink@);
        }
        if sink.step == step {
            let kind = sink_to_action(plugins, config, table, id, sink);
            out.push(Action { id, kind });
            proof {
                let added = ActionView { id, kind: kind@ };
                assert(actions_view(out@) =~= before.push(added));
                assert(before.push(added) =~= start + provisions(
                    decls,
                    config@,
                    rows,
                    id,
                    step,
                    n as int,
                ).push(added));
            }
        }
        n = n + 1;
    }
}

/// Appends the actions that publish the sources of the plugin `id` that `step` publishes.
pub fn push_publications<P>(
    plugins: &Vec<Plugin<P>>,
    id: PluginId,
    step: PluginStep,
    out: &mut Vec<Action>,
)
    requires
        id < plugins.len(),
    ensures
        actions_view(final(out)@) == actions_view(old(out)@) + publications(
            declarations_view(plugins@),
            id,
            step,
            plugins@[id as int].declared().sources.len() as int,
        ),
{
    let ghost decls = declarations_view(plugins@);
    let ghost start = actions_view(out@);
    let plugin = &plugins[id];
    let mut n: usize = 0;
    proof {
        assert(decls[id as int] == plugins@[id as int].declared());
        assert(start + publications(decls, id, step, 0) =~= start);
    }
    while n < plugin.declaration.sources.len()
        invariant
            n <= plugin.declaration.sources.len(),
            id < plugins.len(),
            *plugin == plugins@[id as int],
            decls == declarations_view(plugins@),
            decls[id as int] == plugins@[id as int].declared(),
            actions_view(out@) == start + publications(decls, id, step, n as int),
        decreases plugin.declaration.sources.len() - n,
    {
        let source = &plugin.declaration.sources[n];
        let ghost before = actions_view(out@);
        proof {
            assert(decls[id as int].sources[n as int] == source@);
        }
        if source.step == step {
            out.push(Action { id, kind: ActionKind::Get(source.key.clone()) });
            proof {
                let added = ActionView { id, kind: ActionKindView::Get(source.key@) };
                assert(actions_view(out@) =~= before.push(added));
                assert(before.push(added) =~= start + publications(decls, id, step, n as int).push(
                    added,
                ));
            }
        }
        n = n + 1;
    }
}

/// Whether position `i` is the first position of a list that holds its plugin.
pub fn is_first_occurrence(members: &Vec<PluginId>, i: usize) -> (r: bool)
    requires
        i < members.len(),
    ensures
        r == is_first_index(members@, members@[i as int], i as int),
{
    let mut j: usize = 0;
    while j < i
        invariant
            j <= i,
            i < members.len(),
            forall|k: int| 0 <= k < j ==> members@[k] != members@[i as int],
        decreases i - j,
    {
        if members[j] == members[i] {
            return false;
        }
        j = j + 1;
    }
    true
}

/// Appends the actions of the member at position `i` of `step`.
pub fn push_member_actions<P>(
    plugins: &Vec<Plugin<P>>,
    config: &Config,
    table: &Vec<Vec<PluginId>>,
    step: PluginStep,
    i: usize,
    out: &mut Vec<Action>,
)
    requires
        table@.len() == STEP_COUNT,
        table_in_bounds(table_view(table@), plugins@.len()),
        i < table@[step.position()]@.len(),
    ensures
        actions_view(final(out)@) == actions_view(old(out)@) + member_actions(
            declarations_view(plugins@),
            config@,
            table_view(table@),
            step,
            i as int,
        ),
{
    let ghost decls = declarations_view(plugins@);
    let ghost rows = table_view(table@);
    let ghost start = actions_view(out@);
    let members = &table[step.index()];
    let id = members[i];
    proof {
        assert(rows[step.position()] == table@[step.position()]@);
        assert(rows[step.position()][i as int] == id);
        assert(id < plugins@.len());
        assert(decls[id as int] == plugins@[id as int].declared());
    }
    if is_first_occurrence(members, i) {
        push_provisions(plugins, config, table, id, step, out);
    }
    let ghost filled = actions_view(out@);
    out.push(Action { id, kind: ActionKind::Call(step) });
    let ghost called = actions_view(out@);
    proof {
        assert(called =~= filled.push(ActionView { id, kind: ActionKindView::Call(step) }));
    }
    push_publications(plugins, id, step, out);
    proof {
        let call = ActionView { id, kind: ActionKindView::Call(step) };
        let gets = publications(decls, id, step, decls[id as int].sources.len() as int);
        if is_first_index(rows[step.position()], id, i as int) {
            let sets = provisions(decls, config@, rows, id, step, decls[id as int].sinks.len() as int);
            assert((start + sets).push(call) + gets =~= start + (sets.push(call) + gets));
        } else {
            assert(start.push(call) + gets =~= start + (Seq::<ActionView>::empty().push(call)
                + gets));
        }
    }
}

/// Appends the actions of all members of `step`.
pub fn push_step_actions<P>(
    plugins: &Vec<Plugin<P>>,
    config: &Config,
    table: &Vec<Vec<PluginId>>,
    step: PluginStep,
    out: &mut Vec<Action>,
)
    requires
        table@.len() == STEP_COUNT,
        table_in_bounds(table_view(table@), plugins@.len()),
    ensures
        actions_view(final(out)@) == actions_view(old(out)@) + step_actions(
            declarations_view(plugins@),
            config@,
            table_view(table@),
            step,
            table@[step.position()]@.len() as int,
        ),
{
    let ghost decls = declarations_view(plugins@);
    let ghost rows = table_view(table@);
    let ghost start = actions_view(out@);
    let count = table[step.index()].len();
    let mut i: usize = 0;
    proof {
        assert(start + step_actions(decls, config@, rows, step, 0) =~= start);
    }
    while i < count
        invariant
            i <= count,
            count == table@[step.position()]@.len(),
            table@.len() == STEP_COUNT,
            table_in_bounds(table_view(table@), plugins@.len()),
            decls == declarations_view(plugins@),
            rows == table_view(table@),
            actions_view(out@) == start + step_actions(decls, config@, rows, step, i as int),
        decreases count - i,
    {
        push_member_actions(plugins, config, table, step, i, out);
        proof {
            let done = step_actions(decls, config@, rows, step, i as int);
            let next = member_actions(decls, config@, rows, step, i as int);
            assert((start + done) + next =~= start + (done + next));
        }
        i = i + 1;
    }
}

/// A compiled sequence of actions.
#[derive(Debug, Clone, PartialEq, Eq)]
pub struct PluginSequence {
    pub seq: Vec<Action>,
}

impl View for PluginSequence {
    type V = Seq<ActionView>;

    open spec fn view(&self) -> Seq<ActionView> {
        actions_view(self.seq@)
    }
}

/// Whether `r` is the outcome of compiling a sequence: the sequence that the
/// inputs stand for, or the reason why they stand for none.
pub open spec fn is_compiled(
    r: Result<PluginSequence, Error>,
    plugins: Seq<DeclarationView>,
    config: ConfigView,
    injections: Seq<(PluginId, InjectionTarget)>,
    is_dry_run: bool,
) -> bool {
    match r {
        Ok(sequence) => compile_spec(plugins, config, injections, is_dry_run) == Ok::<
            Seq<ActionView>,
            ErrorView,
        >(sequence@),
        Err(e) => compile_spec(plugins, config, injections, is_dry_run) == Err::<
            Seq<ActionView>,
            ErrorView,
        >(e@),
    }
}

impl PluginSequence {
    /// Compiles the sequence for a list of started plugins.
    pub fn new<P>(
        plugins: &Vec<Plugin<P>>,
        config: &Config,
        injections: Vec<(PluginId, InjectionTarget)>,
        is_dry_run: bool,
    ) -> (r: Result<PluginSequence, Error>)
        ensures
            is_compiled(r, declarations_view(plugins@), config@, injections@, is_dry_run),
    {
        let ghost decls = declarations_view(plugins@);
        if !injections_valid(&injections, plugins.len()) {
            return Err(Error::InvariantViolation);
        }
        let table = match build_membership(plugins, config, &injections) {
            Ok(table) => table,
            Err(fault) => {
                return Err(Error::ConfigurationError(fault));
            },
        };
        let ghost rows = table_view(table@);
        let mut out: Vec<Action> = Vec::new();
        let mut n: usize = 0;
        proof {
            assert(actions_view(out@) =~= sequence_upto(decls, config@, rows, is_dry_run, 0));
        }
        while n < STEP_COUNT
            invariant
                n <= STEP_COUNT,
                table@.len() == STEP_COUNT,
                table_in_bounds(table_view(table@), plugins@.len()),
                decls == declarations_view(plugins@),
                rows == table_view(table@),
                actions_view(out@) == sequence_upto(decls, config@, rows, is_dry_run, n as int),
            decreases STEP_COUNT - n,
        {
            let step = match PluginStep::from_index(n) {
                Some(step) => step,
                None => vstd::pervasive::unreached(),
            };
            proof {
                assert(rows[n as int] == table@[n as int]@);
            }
            if !is_dry_run || step.is_dry() {
                push_step_actions(plugins, config, &table, step, &mut out);
            }
            n = n + 1;
        }
        Ok(PluginSequence { seq: out })
    }

    /// The number of actions.
    pub fn len(&self) -> (r: usize)
        ensures
            r == self@.len(),
    {
        self.seq.len()
    }

    /// Whether the sequence has no action.
    pub fn is_empty(&self) -> (r: bool)
        ensures
            r == (self@.len() == 0),
    {
        self.seq.len() == 0
    }

    /// The actions, in the order in which they run.
    pub fn actions(&self) -> (r: &Vec<Action>)
        ensures
            actions_view(r@) == self@,
    {
        &self.seq
    }
}

} // verus!
