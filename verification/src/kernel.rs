//! The kernel: building it from a configuration, and running its sequence.

use vstd::prelude::*;
use crate::assoc::{first_index, lemma_first_index_sound, names_view, pairs_view, string_keys};
use crate::config::{
    Config, ConfigView, DefinitionView, PluginDefinitionMap, copy_definitions, definitions_view,
    dry_run_spec,
};
use crate::data_mgr::{DataManager, DataView};
use crate::error::ErrorView;
use crate::graph::{ActionView, PluginSequence, compile_spec};
use crate::lifecycle::{
    answers_start_well, are_started_as, defined_kinds, defined_names, is_first_start_failure,
    is_served, kinds_after, lemma_selected_names_by_flags, lemma_string_keys_remove,
    lemma_unresolved_are_unserved, lemma_unresolved_names_empty, raw_names, selected_names,
    unresolved_flags, unresolved_names, unserved_names, waits_for, wanted_kinds,
};
use crate::membership::plugin_names;
use crate::plugin::{
    DeclarationView, Plugin, PluginId, PluginInterface, PluginResolver, PluginStarter, RawPlugin,
    RawPluginState, declarations_view, is_start_failure_as, is_start_failure_of, is_started_as,
    is_started_from, resolve_all_spec,
};
use crate::runtime::{
    Environment, RunState, blocked_by, is_run, is_run_trace, is_step_of, perform,
};
pub use crate::error::Error;
pub use crate::membership::InjectionTarget;

verus! {

/// Builds a kernel from a configuration, the plugin handles that are
/// available, and the plugins that are injected.
pub struct KernelBuilder<P: PluginInterface> {
    pub config: Config,
    pub injections: Vec<(P, InjectionTarget)>,
    pub resolver: PluginResolver<P>,
}

impl<P: PluginInterface> KernelBuilder<P> {
    /// One unresolved plugin for each definition, under the definition's name
    /// and in the order of the definitions.
    pub fn plugin_def_map_to_vec(plugins: PluginDefinitionMap) -> (r: Vec<RawPlugin<P>>)
        ensures
            raw_names(r@) == defined_names(definitions_view(plugins@)),
            wanted_kinds(r@) == defined_kinds(definitions_view(plugins@)),
            forall|i: int| 0 <= i < r@.len() ==> waits_for(#[trigger] r@[i], plugins@[i].1@),
    {
        let mut out: Vec<RawPlugin<P>> = Vec::new();
        for entry in it: plugins
            invariant
                it.seq() == plugins@,
                out@.len() == it.index(),
                forall|i: int|
                    0 <= i < out@.len() ==> (#[trigger] out@[i]).name@ == plugins@[i].0@
                        && waits_for(out@[i], plugins@[i].1@),
        {
            let (name, definition) = entry;
            out.push(RawPlugin::new(name, RawPluginState::Unresolved(definition.into_full())));
        }
        proof {
            assert(raw_names(out@) =~= defined_names(definitions_view(plugins@)));
            assert(wanted_kinds(out@) =~= defined_kinds(definitions_view(plugins@)));
        }
        out
    }

    /// Resolves the plugins of a list, from first to last, against the handles
    /// of a resolver. Resolving never fails: a plugin for which no handle is
    /// left stays unresolved.
    pub fn resolve_plugins(resolver: &mut PluginResolver<P>, plugins: Vec<RawPlugin<P>>) -> (r:
        Result<Vec<RawPlugin<P>>, Error>)
        ensures
            r is Ok,
            (final(resolver).registry@, r->Ok_0@) == resolve_all_spec(
                old(resolver).registry@,
                plugins@,
            ),
            raw_names(r->Ok_0@) == raw_names(plugins@),
            forall|i: int|
                0 <= i < plugins@.len() ==> ((#[trigger] r->Ok_0@[i]).state is Resolved
                    <==> is_served(
                    string_keys(old(resolver).registry@),
                    wanted_kinds(plugins@),
                    i,
                )),
            forall|i: int|
                0 <= i < plugins@.len() && (#[trigger] r->Ok_0@[i]).state is Unresolved
                    ==> r->Ok_0@[i] == plugins@[i],
            string_keys(final(resolver).registry@) == kinds_after(
                string_keys(old(resolver).registry@),
                wanted_kinds(plugins@),
            ),
    {
        let ghost kinds = string_keys(resolver.registry@);
        let ghost handles = resolver.registry@;
        let ghost wanted = wanted_kinds(plugins@);
        let mut out: Vec<RawPlugin<P>> = Vec::new();
        proof {
            assert(wanted.subrange(0, 0) =~= Seq::<Option<Seq<char>>>::empty());
            assert(out@ =~= resolve_all_spec(handles, plugins@.subrange(0, 0)).1);
        }
        for plugin in it: plugins
            invariant
                it.seq() == plugins@,
                handles == old(resolver).registry@,
                (resolver.registry@, out@) == resolve_all_spec(
                    handles,
                    plugins@.subrange(0, it.index() as int),
                ),
                kinds == string_keys(old(resolver).registry@),
                wanted == wanted_kinds(plugins@),
                out@.len() == it.index(),
                string_keys(resolver.registry@) == kinds_after(
                    kinds,
                    wanted.subrange(0, it.index() as int),
                ),
                forall|i: int|
                    0 <= i < out@.len() ==> (#[trigger] out@[i]).name@ == plugins@[i].name@ && (
                    out@[i].state is Resolved <==> is_served(kinds, wanted, i)) && (
                    out@[i].state is Unresolved ==> out@[i] == plugins@[i]),
        {
            let ghost n = out@.len() as int;
            let ghost registry = resolver.registry@;
            let ghost waiting = plugin;
            proof {
                assert(wanted.subrange(0, n + 1).drop_last() =~= wanted.subrange(0, n));
                assert(wanted.subrange(0, n + 1).last() == wanted[n]);
                assert(plugins@.subrange(0, n + 1).drop_last() =~= plugins@.subrange(0, n));
                assert(plugins@.subrange(0, n + 1).last() == plugins@[n]);
                match waiting.state {
                    RawPluginState::Unresolved(definition) => {
                        match first_index(string_keys(registry), definition.kind@) {
                            Some(i) => {
                                lemma_first_index_sound(string_keys(registry), definition.kind@);
                                lemma_string_keys_remove(registry, i);
                            },
                            None => {},
                        }
                    },
                    RawPluginState::Resolved(_) => {},
                }
            }
            let resolved = resolver.resolve(plugin);
            out.push(resolved);
        }
        proof {
            assert(wanted.subrange(0, plugins@.len() as int) =~= wanted);
            assert(plugins@.subrange(0, plugins@.len() as int) =~= plugins@);
            assert(raw_names(out@) =~= raw_names(plugins@));
        }
        Ok(out)
    }

    /// The names of the plugins for which `filter` says yes, in list order.
    pub fn list_all_plugins_that<F: Fn(&RawPlugin<P>) -> bool>(
        plugins: &[RawPlugin<P>],
        filter: F,
    ) -> (r: Vec<String>)
        requires
            forall|p: &RawPlugin<P>| #[trigger] filter.requires((p,)),
        ensures
            exists|flags: Seq<bool>|
                flags.len() == plugins@.len() && (forall|i: int|
                    0 <= i < plugins@.len() ==> filter.ensures((&plugins@[i],), #[trigger] flags[i]))
                    && names_view(r@) == selected_names(plugins@, flags, plugins@.len() as int),
    {
        let mut names: Vec<String> = Vec::new();
        let ghost mut flags: Seq<bool> = Seq::empty();
        let mut i: usize = 0;
        proof {
            assert(names_view(names@) =~= selected_names(plugins@, flags, 0));
        }
        while i < plugins.len()
            invariant
                i <= plugins.len(),
                flags.len() == i,
                forall|p: &RawPlugin<P>| #[trigger] filter.requires((p,)),
                forall|j: int|
                    0 <= j < i ==> filter.ensures((&plugins@[j],), #[trigger] flags[j]),
                names_view(names@) == selected_names(plugins@, flags, i as int),
            decreases plugins.len() - i,
        {
            let ghost before = flags;
            let ghost listed = names_view(names@);
            let chosen = filter(&plugins[i]);
            proof {
                flags = flags.push(chosen);
                lemma_selected_names_by_flags(plugins@, before, flags, i as int);
                assert forall|j: int| 0 <= j < i + 1 implies filter.ensures(
                    (&plugins@[j],),
                    #[trigger] flags[j],
                ) by {
                    if j < i {
                        assert(flags[j] == before[j]);
                    }
                }
            }
            if chosen {
                names.push(plugins[i].name().clone());
                proof {
                    assert(names_view(names@) =~= listed.push(plugins@[i as int].name@));
                }
            }
            i = i + 1;
        }
        names
    }

    /// The names of the unresolved plugins, in list order.
    pub fn list_not_resolved_plugins(plugins: &[RawPlugin<P>]) -> (r: Vec<String>)
        ensures
            names_view(r@) == unresolved_names(plugins@),
    {
        let is_unresolved = |plugin: &RawPlugin<P>| -> (b: bool)
            ensures
                b == (plugin.state is Unresolved),
            {
                match plugin.state() {
                    RawPluginState::Unresolved(_) => true,
                    RawPluginState::Resolved(_) => false,
                }
            };
        let names = Self::list_all_plugins_that(plugins, is_unresolved);
        proof {
            let flags = choose|flags: Seq<bool>|
                flags.len() == plugins@.len() && (forall|i: int|
                    0 <= i < plugins@.len() ==> is_unresolved.ensures(
                        (&plugins@[i],),
                        #[trigger] flags[i],
                    )) && names_view(names@) == selected_names(
                    plugins@,
                    flags,
                    plugins@.len() as int,
                );
            assert forall|i: int| 0 <= i < plugins@.len() implies flags[i] == unresolved_flags(
                plugins@,
            )[i] by {
                assert(is_unresolved.ensures((&plugins@[i],), flags[i]));
            }
            lemma_selected_names_by_flags(
                plugins@,
                flags,
                unresolved_flags(plugins@),
                plugins@.len() as int,
            );
        }
        names
    }

    /// Succeeds when every plugin is resolved, and otherwise fails with the
    /// names of all unresolved plugins.
    pub fn check_all_resolved(plugins: &[RawPlugin<P>]) -> (r: Result<(), Error>)
        ensures
            match r {
                Ok(()) => forall|i: int|
                    0 <= i < plugins@.len() ==> (#[trigger] plugins@[i]).state is Resolved,
                Err(e) => e@ == ErrorView::FailedToResolvePlugins(unresolved_names(plugins@))
                    && unresolved_names(plugins@).len() > 0,
            },
    {
        let unresolved = Self::list_not_resolved_plugins(plugins);
        proof {
            lemma_unresolved_names_empty(plugins@, plugins@.len() as int);
        }
        if unresolved.is_empty() {
            Ok(())
        } else {
            Err(Error::FailedToResolvePlugins(unresolved))
        }
    }

    /// Starts the plugins of a list, from first to last, and stops at the first that fails.
    ///
    /// Whether a plugin starts is the plugin's decision. On success the
    /// result holds every plugin of the list, started, in the same order. A
    /// failure is that of the first plugin that did not start: an invariant
    /// violation where that plugin is not resolved, and else a startup error
    /// with its name and the cause that its start routine gave.
    pub fn start_plugins(plugins: Vec<RawPlugin<P>>) -> (r: Result<Vec<Plugin<P>>, Error>)
        ensures
            plugins@.len() == 0 ==> r is Ok,
            match r {
                Ok(started) => are_started_as(started@, plugins@),
                Err(e) => is_first_start_failure(e, plugins@),
            },
    {
        let starter = PluginStarter::new();
        let mut out: Vec<Plugin<P>> = Vec::new();
        for plugin in it: plugins
            invariant
                it.seq() == plugins@,
                out@.len() == it.index(),
                forall|i: int|
                    0 <= i < out@.len() ==> is_started_as(#[trigger] out@[i], plugins@[i]),
        {
            let ghost n = out@.len() as int;
            match starter.start(plugin) {
                Ok(started) => {
                    out.push(started);
                },
                Err(e) => {
                    proof {
                        assert(is_start_failure_as(e, plugins@[n]));
                        assert forall|j: int| 0 <= j < n implies answers_start_well(
                            #[trigger] plugins@[j],
                        ) by {
                            assert(is_started_as(out@[j], plugins@[j]));
                        }
                    }
                    return Err(e);
                },
            }
        }
        Ok(out)
    }
}

/// The injections as the sequence builder reads them: the injected plugins
/// stand at the front of the plugin list, in the order of their injection.
pub open spec fn injection_defs<P>(injections: Seq<(P, InjectionTarget)>) -> Seq<
    (PluginId, InjectionTarget),
> {
    Seq::new(injections.len(), |i: int| (i as usize, injections[i].1))
}

/// The names of the configured plugins for which the available handles do
/// not suffice, in configuration order.
pub open spec fn unresolved_in(config: ConfigView, kinds: Seq<Seq<char>>) -> Seq<Seq<char>> {
    unserved_names(
        kinds,
        defined_names(config.plugins),
        defined_kinds(config.plugins),
        config.plugins.len() as int,
    )
}

/// The names of a list of started plugins, by plugin id.
pub fn names_of<P>(plugins: &Vec<Plugin<P>>) -> (r: Vec<String>)
    ensures
        names_view(r@) == plugin_names(declarations_view(plugins@)),
{
    let mut names: Vec<String> = Vec::new();
    let mut i: usize = 0;
    while i < plugins.len()
        invariant
            i <= plugins.len(),
            names@.len() == i,
            forall|j: int| 0 <= j < i ==> names@[j]@ == plugins@[j].name@,
        decreases plugins.len() - i,
    {
        names.push(plugins[i].name.clone());
        i = i + 1;
    }
    assert(names_view(names@) =~= plugin_names(declarations_view(plugins@)));
    names
}

/// A kernel that is ready to run.
pub struct Kernel<P: PluginInterface> {
    /// The started plugins; an action names one by its position.
    pub plugins: Vec<Plugin<P>>,
    pub data_mgr: DataManager,
    pub sequence: PluginSequence,
    /// The environment as it was when the kernel was built.
    pub env: Environment,
    pub is_dry_run: bool,
}

impl<P: PluginInterface> Kernel<P> {
    /// Starts building a kernel for a configuration.
    pub fn builder(config: Config) -> (r: KernelBuilder<P>)
        ensures
            r.config == config,
            r.injections@.len() == 0,
            r.resolver.registry@.len() == 0,
    {
        KernelBuilder::new(config)
    }

    /// Runs the actions of the sequence in order and stops at the first that fails.
    ///
    /// The actions are performed one after the other, each on the plugins
    /// and the store as the one before it left them. The run succeeds when
    /// every action succeeded, and otherwise ends with the error of the first
    /// action that failed, as it is. What a plugin answers is the plugin's
    /// decision; a run without actions succeeds.
    pub fn run(self) -> (r: Result<(), Error>)
        ensures
            is_run(
                RunState { plugins: self.plugins@, data: self.data_mgr@ },
                pairs_view(self.env@),
                self.sequence@,
                r,
            ),
            self.sequence@.len() == 0 ==> r is Ok,
            self.sequence@.len() > 0 ==> match blocked_by(
                self.data_mgr@,
                pairs_view(self.env@),
                self.plugins@.len(),
                self.sequence@[0],
            ) {
                Some(e) => r is Err && r->Err_0@ == e,
                None => true,
            },
    {
        let mut kernel = self;
        let ghost actions = kernel.sequence@;
        let ghost env = pairs_view(kernel.env@);
        let ghost count = kernel.plugins@.len();
        let ghost names = kernel.data_mgr@.names.len();
        let ghost decls = declarations_view(kernel.plugins@);
        let ghost start = RunState { plugins: kernel.plugins@, data: kernel.data_mgr@ };
        let ghost mut states: Seq<RunState<P>> = seq![start];
        let mut i: usize = 0;
        while i < kernel.sequence.seq.len()
            invariant
                i <= kernel.sequence.seq.len(),
                kernel.sequence == self.sequence,
                kernel.env == self.env,
                actions == self.sequence@,
                actions.len() == kernel.sequence.seq@.len(),
                env == pairs_view(self.env@),
                count == self.plugins@.len(),
                names == self.data_mgr@.names.len(),
                decls == declarations_view(self.plugins@),
                declarations_view(kernel.plugins@) == decls,
                kernel.data_mgr@.names.len() == names,
                i == 0 ==> kernel.data_mgr@ == self.data_mgr@,
                i > 0 ==> blocked_by(self.data_mgr@, env, count, actions[0]) is None,
                start == (RunState { plugins: self.plugins@, data: self.data_mgr@ }),
                states.len() == i + 1,
                states[0] == start,
                states[i as int] == (RunState {
                    plugins: kernel.plugins@,
                    data: kernel.data_mgr@,
                }),
                forall|j: int|
                    0 <= j < i ==> #[trigger] is_step_of(states, env, actions, Ok::<(), Error>(()), j),
            decreases kernel.sequence.seq.len() - i,
        {
            let ghost data = kernel.data_mgr@;
            let ghost reached = states;
            proof {
                assert(actions[i as int] == kernel.sequence.seq@[i as int]@);
                assert(kernel.plugins@.len() == decls.len());
            }
            let outcome = perform(
                &mut kernel.plugins,
                &mut kernel.data_mgr,
                &kernel.env,
                &kernel.sequence.seq[i],
            );
            proof {
                states = reached.push(
                    RunState { plugins: kernel.plugins@, data: kernel.data_mgr@ },
                );
                assert forall|j: int| 0 <= j < i + 1 implies #[trigger] is_step_of(
                    states,
                    env,
                    actions,
                    outcome,
                    j,
                ) by {
                    if j < i {
                        assert(is_step_of(reached, env, actions, Ok::<(), Error>(()), j));
                        assert(states[j] == reached[j]);
                        assert(states[j + 1] == reached[j + 1]);
                    }
                }
            }
            match outcome {
                Ok(()) => {
                    proof {
                        assert(outcome->Ok_0 == ());
                        assert(outcome == Ok::<(), Error>(outcome->Ok_0));
                        assert forall|j: int| 0 <= j < i + 1 implies #[trigger] is_step_of(
                            states,
                            env,
                            actions,
                            Ok::<(), Error>(()),
                            j,
                        ) by {
                            assert(is_step_of(states, env, actions, outcome, j));
                        }
                    }
                },
                Err(e) => {
                    proof {
                        assert(is_run_trace(states, start, env, actions, outcome));
                    }
                    return Err(e);
                },
            }
            i = i + 1;
        }
        proof {
            assert(is_run_trace(states, start, env, actions, Ok::<(), Error>(())));
        }
        Ok(())
    }
}

impl<P: PluginInterface> KernelBuilder<P> {
    /// A builder with no injections and no handles.
    pub fn new(config: Config) -> (r: KernelBuilder<P>)
        ensures
            r.config == config,
            r.injections@.len() == 0,
            r.resolver.registry@.len() == 0,
    {
        KernelBuilder { config, injections: Vec::new(), resolver: PluginResolver::new() }
    }

    fn add_injection(&mut self, plugin: P, target: InjectionTarget)
        ensures
            final(self).injections@ == old(self).injections@.push((plugin, target)),
            final(self).config == old(self).config,
            final(self).resolver == old(self).resolver,
    {
        self.injections.push((plugin, target));
    }

    fn add_handle(&mut self, kind: String, plugin: P)
        ensures
            final(self).resolver.registry@ == old(self).resolver.registry@.push((kind, plugin)),
            final(self).config == old(self).config,
            final(self).injections == old(self).injections,
    {
        self.resolver.register(kind, plugin);
    }

    /// Adds a plugin that runs before or after the configured members of a step.
    pub fn inject_plugin(&mut self, plugin: P, target: InjectionTarget) -> (r: &mut Self)
        ensures
            r.injections@ == old(self).injections@.push((plugin, target)),
            r.config == old(self).config,
            r.resolver == old(self).resolver,
            *final(self) == *final(r),
    {
        self.add_injection(plugin, target);
        self
    }

    /// Makes a plugin handle available to configured plugins of a kind.
    pub fn register_plugin(&mut self, kind: String, plugin: P) -> (r: &mut Self)
        ensures
            r.resolver.registry@ == old(self).resolver.registry@.push((kind, plugin)),
            r.config == old(self).config,
            r.injections == old(self).injections,
            *final(self) == *final(r),
    {
        self.add_handle(kind, plugin);
        self
    }
}

/// Whether `raws` are the unresolved plugins that a list of definitions
/// stands for: one for each definition, under its name and in its order.
pub open spec fn is_raw_list_of<P>(
    raws: Seq<RawPlugin<P>>,
    definitions: Seq<(Seq<char>, DefinitionView)>,
) -> bool {
    &&& raws.len() == definitions.len()
    &&& forall|i: int|
        0 <= i < raws.len() ==> (#[trigger] raws[i]).name@ == definitions[i].0 && waits_for(
            raws[i],
            definitions[i].1,
        )
}

/// What a kernel is when it was built from a configuration, a list of
/// injections, the configured plugins as they were resolved, and an
/// environment. It holds the injected plugins first, each started from its
/// injection, and then the configured plugins, each started from its
/// resolved plugin and under its configured name. Its dry-run switch is the
/// configuration's; its sequence is the one that its plugins, the
/// configuration, the injections and the switch stand for; nothing is
/// published yet; and the environment is the one given.
pub open spec fn is_built_from<P: PluginInterface>(
    kernel: Kernel<P>,
    config: ConfigView,
    injections: Seq<(P, InjectionTarget)>,
    resolved: Seq<RawPlugin<P>>,
    env: Environment,
) -> bool {
    let plugins = declarations_view(kernel.plugins@);
    &&& kernel.is_dry_run == dry_run_spec(config.cfg)
    &&& kernel.env == env
    &&& resolved.len() == config.plugins.len()
    &&& plugins.len() == injections.len() + config.plugins.len()
    &&& forall|i: int|
        0 <= i < injections.len() ==> is_started_from(#[trigger] kernel.plugins@[i], injections[i].0)
    &&& forall|i: int|
        0 <= i < resolved.len() ==> is_started_as(
            kernel.plugins@[injections.len() + i],
            #[trigger] resolved[i],
        )
    &&& forall|i: int|
        0 <= i < config.plugins.len() ==> (#[trigger] plugins[injections.len() + i]).name
            == config.plugins[i].0
    &&& kernel.data_mgr@ == (DataView {
        global: Seq::empty(),
        config,
        names: plugin_names(plugins),
    })
    &&& compile_spec(plugins, config, injection_defs(injections), kernel.is_dry_run) == Ok::<
        Seq<ActionView>,
        ErrorView,
    >(kernel.sequence@)
}

/// Whether `e` is the failure of the first injected plugin that does not
/// start: every injected plugin in front of it answered its start with
/// success, and `e` is the failure of that plugin to start.
pub open spec fn is_first_injection_failure<P: PluginInterface>(
    e: Error,
    injections: Seq<(P, InjectionTarget)>,
) -> bool {
    exists|i: int|
        0 <= i < injections.len() && is_start_failure_of(e@, (#[trigger] injections[i]).0)
            && forall|j: int| 0 <= j < i ==> (#[trigger] injections[j]).0.answers_start(Ok(()))
}

/// Whether the sequence cannot be compiled, with the error `e`, for a list
/// of started plugins that holds one plugin for each injection, under a name
/// that the injected plugin gives itself, and then one for each configured
/// plugin, under its configured name.
pub open spec fn is_compile_failure<P: PluginInterface>(
    e: Error,
    config: ConfigView,
    injections: Seq<(P, InjectionTarget)>,
) -> bool {
    exists|plugins: Seq<DeclarationView>|
        plugins.len() == injections.len() + config.plugins.len() && (forall|i: int|
            0 <= i < injections.len() ==> (#[trigger] injections[i]).0.gives_name(plugins[i].name))
            && (forall|i: int|
            0 <= i < config.plugins.len() ==> (#[trigger] plugins[injections.len() + i]).name
                == config.plugins[i].0) && #[trigger] compile_spec(
            plugins,
            config,
            injection_defs(injections),
            dry_run_spec(config.cfg),
        ) == Err::<Seq<ActionView>, ErrorView>(e@)
}

/// Whether `e` is an error that building ends with once every configured
/// plugin is resolved, and `left` the injections that the builder keeps.
///
/// The configured plugins start first: where one does not start, `e` is the
/// failure of the first such plugin and the builder keeps its injections.
/// Then the injected plugins start: where one does not start, `e` is the
/// failure of the first such plugin. Then the sequence is compiled: `e` is
/// the error of that. In both of these the builder keeps no injection.
pub open spec fn is_build_failure<P: PluginInterface>(
    e: Error,
    config: ConfigView,
    injections: Seq<(P, InjectionTarget)>,
    resolved: Seq<RawPlugin<P>>,
    left: Seq<(P, InjectionTarget)>,
) -> bool {
    ||| is_first_start_failure(e, resolved) && left == injections
    ||| is_first_injection_failure(e, injections) && left.len() == 0
    ||| is_compile_failure(e, config, injections) && left.len() == 0
}

/// What building does, seen from the unresolved plugins `raws` that the
/// configuration stands for.
///
/// The plugins are resolved against the handles of the builder, which keeps
/// the handles that are left. Where a plugin stays unresolved, building
/// fails with the names of all unresolved plugins, no plugin is started and
/// the builder keeps its injections. Otherwise the outcome is a kernel built
/// from the resolved plugins, with no injection left in the builder, or a
/// failure to start or to compile.
pub open spec fn is_build_from_raws<P: PluginInterface>(
    before: KernelBuilder<P>,
    after: KernelBuilder<P>,
    raws: Seq<RawPlugin<P>>,
    env: Environment,
    r: Result<Kernel<P>, Error>,
) -> bool {
    let resolution = resolve_all_spec(before.resolver.registry@, raws);
    &&& after.resolver.registry@ == resolution.0
    &&& if unresolved_names(resolution.1).len() > 0 {
        &&& r is Err
        &&& r->Err_0@ == ErrorView::FailedToResolvePlugins(unresolved_names(resolution.1))
        &&& after.injections == before.injections
    } else {
        match r {
            Ok(kernel) => is_built_from(
                kernel,
                before.config@,
                before.injections@,
                resolution.1,
                env,
            ) && after.injections@.len() == 0,
            Err(e) => is_build_failure(
                e,
                before.config@,
                before.injections@,
                resolution.1,
                after.injections@,
            ),
        }
    }
}

/// Whether `r` is an outcome of building from the builder `before`, and
/// `after` the builder as building leaves it.
pub open spec fn is_build_outcome<P: PluginInterface>(
    before: KernelBuilder<P>,
    after: KernelBuilder<P>,
    env: Environment,
    r: Result<Kernel<P>, Error>,
) -> bool {
    exists|raws: Seq<RawPlugin<P>>|
        #[trigger] is_raw_list_of(raws, before.config@.plugins) && is_build_from_raws(
            before,
            after,
            raws,
            env,
            r,
        )
}

impl<P: PluginInterface> KernelBuilder<P> {
    /// Starts the injected plugins, in the order of their injection, and
    /// stops at the first that fails.
    fn start_injected(injections: Vec<(P, InjectionTarget)>) -> (r: Result<
        (Vec<Plugin<P>>, Vec<(PluginId, InjectionTarget)>),
        Error,
    >)
        ensures
            injections@.len() == 0 ==> r is Ok,
            match r {
                Ok(started) => started.0@.len() == injections@.len() && started.1@
                    == injection_defs(injections@) && forall|i: int|
                    0 <= i < injections@.len() ==> is_started_from(
                        #[trigger] started.0@[i],
                        injections@[i].0,
                    ),
                Err(e) => is_first_injection_failure(e, injections@),
            },
    {
        let mut plugins: Vec<Plugin<P>> = Vec::new();
        let mut defs: Vec<(PluginId, InjectionTarget)> = Vec::new();
        for injection in it: injections
            invariant
                it.seq() == injections@,
                plugins@.len() == it.index(),
                defs@.len() == it.index(),
                forall|i: int|
                    0 <= i < defs@.len() ==> (#[trigger] defs@[i]) == (i as usize, injections@[i].1),
                forall|i: int|
                    0 <= i < plugins@.len() ==> is_started_from(
                        #[trigger] plugins@[i],
                        injections@[i].0,
                    ),
        {
            let ghost n = plugins@.len() as int;
            let (handle, target) = injection;
            let id = plugins.len();
            match Plugin::new(handle) {
                Ok(plugin) => {
                    plugins.push(plugin);
                    defs.push((id, target));
                },
                Err(e) => {
                    proof {
                        assert(is_start_failure_of(e@, injections@[n].0));
                        assert forall|j: int| 0 <= j < n implies (
                        #[trigger] injections@[j]).0.answers_start(Ok(())) by {
                            assert(is_started_from(plugins@[j], injections@[j].0));
                        }
                    }
                    return Err(e);
                },
            }
        }
        proof {
            assert(defs@ =~= injection_defs(injections@));
        }
        Ok((plugins, defs))
    }

    /// Builds the kernel: resolves the configured plugins, starts them, starts
    /// the injected plugins and puts them first, compiles the sequence and
    /// captures the environment.
    ///
    /// Where handles are missing, building fails with the names of all
    /// plugins that stay unresolved, and no plugin is started. Otherwise the
    /// plugins decide whether they start and what they declare; where no
    /// plugin is configured or injected the outcome is that of compiling the
    /// sequence for the configuration alone. The builder keeps its
    /// configuration and the handles that no plugin took.
    pub fn build(&mut self, env: Environment) -> (r: Result<Kernel<P>, Error>)
        ensures
            final(self).config@ == old(self).config@,
            is_build_outcome(*old(self), *final(self), env, r),
            unresolved_in(old(self).config@, string_keys(old(self).resolver.registry@)).len() > 0
                ==> r is Err && r->Err_0@ == ErrorView::FailedToResolvePlugins(
                unresolved_in(old(self).config@, string_keys(old(self).resolver.registry@)),
            ),
            unresolved_in(old(self).config@, string_keys(old(self).resolver.registry@)).len() == 0
                ==> r is Ok || !(r->Err_0 is FailedToResolvePlugins),
            old(self).config@.plugins.len() == 0 && old(self).injections@.len() == 0
                ==> match compile_spec(
                Seq::empty(),
                old(self).config@,
                Seq::empty(),
                dry_run_spec(old(self).config@.cfg),
            ) {
                Ok(actions) => r is Ok && r->Ok_0.sequence@ == actions && r->Ok_0.plugins@.len()
                    == 0,
                Err(e) => r is Err && r->Err_0@ == e,
            },
    {
        let ghost before = *self;
        let ghost config = self.config@;
        let ghost kinds = string_keys(self.resolver.registry@);
        let ghost wanted = defined_kinds(config.plugins);
        let ghost names = defined_names(config.plugins);
        let ghost injected = self.injections@;
        let is_dry_run = self.config.is_dry_run();

        let definitions = copy_definitions(&self.config.plugins);
        let raw = Self::plugin_def_map_to_vec(definitions);
        let ghost raws = raw@;
        proof {
            assert(raws.len() == raw_names(raws).len());
            assert(is_raw_list_of(raws, config.plugins)) by {
                assert forall|i: int| 0 <= i < raws.len() implies (#[trigger] raws[i]).name@
                    == config.plugins[i].0 && waits_for(raws[i], config.plugins[i].1) by {
                    assert(raw_names(raws)[i] == names[i]);
                }
            }
        }
        let resolved = match Self::resolve_plugins(&mut self.resolver, raw) {
            Ok(resolved) => resolved,
            Err(e) => {
                return Err(e);
            },
        };
        let ghost resolution = resolved@;
        proof {
            assert(resolved@.len() == raw_names(resolved@).len());
            assert(names.len() == config.plugins.len());
            lemma_unresolved_are_unserved(
                resolved@,
                kinds,
                names,
                wanted,
                resolved@.len() as int,
            );
            lemma_unresolved_names_empty(resolved@, resolved@.len() as int);
        }
        match Self::check_all_resolved(resolved.as_slice()) {
            Ok(()) => {},
            Err(e) => {
                proof {
                    assert(is_build_from_raws(before, *self, raws, env, Err::<Kernel<P>, Error>(e)));
                }
                return Err(e);
            },
        }
        let mut started = match Self::start_plugins(resolved) {
            Ok(started) => started,
            Err(e) => {
                proof {
                    assert(is_build_from_raws(before, *self, raws, env, Err::<Kernel<P>, Error>(e)));
                }
                return Err(e);
            },
        };
        let ghost configured = started@;

        let mut injections: Vec<(P, InjectionTarget)> = Vec::new();
        std::mem::swap(&mut self.injections, &mut injections);
        let (mut plugins, defs) = match Self::start_injected(injections) {
            Ok(pair) => pair,
            Err(e) => {
                proof {
                    assert(is_build_from_raws(before, *self, raws, env, Err::<Kernel<P>, Error>(e)));
                }
                return Err(e);
            },
        };
        let ghost front = plugins@;
        plugins.append(&mut started);
        let ghost decls = declarations_view(plugins@);
        proof {
            assert(plugins@ == front + configured);
            assert forall|i: int| 0 <= i < config.plugins.len() implies (#[trigger] decls[
                injected.len() + i
            ]).name == config.plugins[i].0 by {
                assert(plugins@[injected.len() + i] == configured[i]);
                assert(is_started_as(configured[i], resolution[i]));
                assert(raw_names(resolution)[i] == names[i]);
            }
            assert forall|i: int| 0 <= i < injected.len() implies is_started_from(
                #[trigger] plugins@[i],
                injected[i].0,
            ) by {
                assert(plugins@[i] == front[i]);
            }
            assert forall|i: int| 0 <= i < resolution.len() implies is_started_as(
                plugins@[injected.len() + i],
                #[trigger] resolution[i],
            ) by {
                assert(plugins@[injected.len() + i] == configured[i]);
            }
            assert forall|i: int| 0 <= i < injected.len() implies (
            #[trigger] injected[i]).0.gives_name(decls[i].name) by {
                assert(is_started_from(plugins@[i], injected[i].0));
                assert(decls[i] == plugins@[i].declared());
            }
            if config.plugins.len() == 0 && injected.len() == 0 {
                assert(decls =~= Seq::empty());
                assert(injection_defs(injected) =~= Seq::empty());
            }
        }

        let sequence = match PluginSequence::new(&plugins, &self.config, defs, is_dry_run) {
            Ok(sequence) => sequence,
            Err(e) => {
                proof {
                    assert(is_compile_failure(e, config, injected));
                    assert(is_build_from_raws(before, *self, raws, env, Err::<Kernel<P>, Error>(e)));
                }
                return Err(e);
            },
        };
        let data_mgr = DataManager::new(&self.config, names_of(&plugins));
        let kernel = Kernel { plugins, data_mgr, sequence, env, is_dry_run };
        proof {
            assert(is_built_from(kernel, config, injected, resolution, env));
            assert(is_build_from_raws(before, *self, raws, env, Ok::<Kernel<P>, Error>(kernel)));
        }
        Ok(kernel)
    }
}

} // verus!
