//! Plugins and their life cycle: unresolved, resolved, started.

use vstd::prelude::*;
use crate::assoc::{find_key, first_index, string_keys};
use crate::config::FullPluginDefinition;
use crate::error::{Error, ErrorView, PluginError};
use crate::step::PluginStep;
use crate::value::{KeyValue, KeyValueView};

verus! {

/// A plugin is named by its position in the kernel's plugin list.
pub type PluginId = usize;

/// A key that a plugin publishes once a step has run on it.
#[derive(Debug, Clone, PartialEq, Eq)]
pub struct SourceDeclaration {
    pub key: String,
    pub step: PluginStep,
}

/// A key that a plugin needs before a step runs on it. A sink with an
/// environment variable is filled from that variable.
#[derive(Debug, Clone, PartialEq, Eq)]
pub struct SinkDeclaration {
    pub key: String,
    pub step: PluginStep,
    pub env: Option<String>,
}

/// What a plugin says of itself: the steps it serves, the keys it publishes
/// and the keys it needs.
#[derive(Debug, Clone, PartialEq, Eq)]
pub struct PluginDeclaration {
    pub steps: Vec<PluginStep>,
    pub sources: Vec<SourceDeclaration>,
    pub sinks: Vec<SinkDeclaration>,
}

/// The mathematical content of a [`SourceDeclaration`].
pub ghost struct SourceView {
    pub key: Seq<char>,
    pub step: PluginStep,
}

/// The mathematical content of a [`SinkDeclaration`].
pub ghost struct SinkView {
    pub key: Seq<char>,
    pub step: PluginStep,
    pub env: Option<Seq<char>>,
}

/// The mathematical content of a started plugin, as far as scheduling reads it.
pub ghost struct DeclarationView {
    pub name: Seq<char>,
    pub steps: Seq<PluginStep>,
    pub sources: Seq<SourceView>,
    pub sinks: Seq<SinkView>,
}

impl View for SourceDeclaration {
    type V = SourceView;

    open spec fn view(&self) -> SourceView {
        SourceView { key: self.key@, step: self.step }
    }
}

impl View for SinkDeclaration {
    type V = SinkView;

    open spec fn view(&self) -> SinkView {
        SinkView {
            key: self.key@,
            step: self.step,
            env: match self.env {
                Some(name) => Some(name@),
                None => None,
            },
        }
    }
}

/// The answer of a plugin without the plugin's wording: success, or the
/// message of the failure.
pub open spec fn answer_view(answer: Result<(), PluginError>) -> Result<(), Seq<char>> {
    match answer {
        Ok(()) => Ok(()),
        Err(cause) => Err(cause@),
    }
}

/// What a plugin answers to a read without the plugin's wording: the value,
/// or the message of the failure.
pub open spec fn read_view(answer: Result<serde_json::Value, PluginError>) -> Result<
    serde_json::Value,
    Seq<char>,
> {
    match answer {
        Ok(json) => Ok(json),
        Err(cause) => Err(cause@),
    }
}

/// The capabilities of a plugin. Each step may change the plugin's state; a
/// step that does not apply to a plugin succeeds.
///
/// What a plugin does is its own affair, and may depend on the world around
/// it. The relations of this trait give that behaviour a name, so that the
/// kernel can say which of the plugin's routines it ran and what it made of
/// the answer. They claim nothing of a plugin: a plugin that says nothing of
/// itself accepts every answer and every state.
pub trait PluginInterface {
    /// Whether `name` is a name that the plugin gives itself.
    open spec fn gives_name(&self, name: Seq<char>) -> bool {
        true
    }

    /// Whether `declaration` is what the plugin declares.
    open spec fn gives_declaration(&self, declaration: PluginDeclaration) -> bool {
        true
    }

    /// Whether `answer` is an answer of the start routine to the plugin as it stands.
    open spec fn answers_start(&self, answer: Result<(), Seq<char>>) -> bool {
        true
    }

    /// Whether the plugin stands as its start routine leaves it with `answer`.
    open spec fn is_left_by_start(&self, answer: Result<(), Seq<char>>) -> bool {
        true
    }

    /// Whether `answer` is an answer of the plugin as it stands to a read of `key`.
    open spec fn answers_get(
        &self,
        key: Seq<char>,
        answer: Result<serde_json::Value, Seq<char>>,
    ) -> bool {
        true
    }

    /// Whether `answer` is an answer of the plugin as it stands to a write of `value` at `key`.
    open spec fn answers_set(
        &self,
        key: Seq<char>,
        value: KeyValueView<serde_json::Value>,
        answer: Result<(), Seq<char>>,
    ) -> bool {
        true
    }

    /// Whether the plugin stands as a write of `value` at `key` leaves it with `answer`.
    open spec fn is_left_by_set(
        &self,
        key: Seq<char>,
        value: KeyValueView<serde_json::Value>,
        answer: Result<(), Seq<char>>,
    ) -> bool {
        true
    }

    /// Whether `answer` is an answer of the routine of `step` to the plugin as it stands.
    open spec fn answers_step(&self, step: PluginStep, answer: Result<(), Seq<char>>) -> bool {
        true
    }

    /// Whether the plugin stands as the routine of `step` leaves it with `answer`.
    open spec fn is_left_by_step(&self, step: PluginStep, answer: Result<(), Seq<char>>) -> bool {
        true
    }

    /// The name under which the plugin is known when it is injected.
    fn name(&self) -> (r: String)
        ensures
            self.gives_name(r@),
    ;

    /// One-time initialisation, before anything else is asked of the plugin.
    fn start(&mut self) -> (r: Result<(), PluginError>)
        ensures
            old(self).answers_start(answer_view(r)),
            final(self).is_left_by_start(answer_view(r)),
    ;

    /// The steps, sources and sinks of the plugin.
    fn declaration(&self) -> (r: PluginDeclaration)
        ensures
            self.gives_declaration(r),
    ;

    /// Reads a value that the plugin publishes.
    fn get_value(&self, key: &str) -> (r: Result<serde_json::Value, PluginError>)
        ensures
            self.answers_get(key@, read_view(r)),
    ;

    /// Hands the plugin a value that it needs.
    fn set_value(&mut self, key: &str, value: KeyValue<serde_json::Value>) -> (r: Result<
        (),
        PluginError,
    >)
        ensures
            old(self).answers_set(key@, value@, answer_view(r)),
            final(self).is_left_by_set(key@, value@, answer_view(r)),
    ;

    /// Checks that the release can be made.
    fn pre_flight(&mut self) -> (r: Result<(), PluginError>)
        ensures
            old(self).answers_step(PluginStep::PreFlight, answer_view(r)),
            final(self).is_left_by_step(PluginStep::PreFlight, answer_view(r)),
    ;

    /// Finds the last release.
    fn get_last_release(&mut self) -> (r: Result<(), PluginError>)
        ensures
            old(self).answers_step(PluginStep::GetLastRelease, answer_view(r)),
            final(self).is_left_by_step(PluginStep::GetLastRelease, answer_view(r)),
    ;

    /// Derives the version of the next release.
    fn derive_next_version(&mut self) -> (r: Result<(), PluginError>)
        ensures
            old(self).answers_step(PluginStep::DeriveNextVersion, answer_view(r)),
            final(self).is_left_by_step(PluginStep::DeriveNextVersion, answer_view(r)),
    ;

    /// Generates the release notes.
    fn generate_notes(&mut self) -> (r: Result<(), PluginError>)
        ensures
            old(self).answers_step(PluginStep::GenerateNotes, answer_view(r)),
            final(self).is_left_by_step(PluginStep::GenerateNotes, answer_view(r)),
    ;

    /// Prepares the artifacts of the release.
    fn prepare(&mut self) -> (r: Result<(), PluginError>)
        ensures
            old(self).answers_step(PluginStep::Prepare, answer_view(r)),
            final(self).is_left_by_step(PluginStep::Prepare, answer_view(r)),
    ;

    /// Verifies the prepared release.
    fn verify_release(&mut self) -> (r: Result<(), PluginError>)
        ensures
            old(self).answers_step(PluginStep::VerifyRelease, answer_view(r)),
            final(self).is_left_by_step(PluginStep::VerifyRelease, answer_view(r)),
    ;

    /// Commits the release.
    fn commit(&mut self) -> (r: Result<(), PluginError>)
        ensures
            old(self).answers_step(PluginStep::Commit, answer_view(r)),
            final(self).is_left_by_step(PluginStep::Commit, answer_view(r)),
    ;

    /// Publishes the release.
    fn publish(&mut self) -> (r: Result<(), PluginError>)
        ensures
            old(self).answers_step(PluginStep::Publish, answer_view(r)),
            final(self).is_left_by_step(PluginStep::Publish, answer_view(r)),
    ;

    /// Notifies about the release.
    fn notify(&mut self) -> (r: Result<(), PluginError>)
        ensures
            old(self).answers_step(PluginStep::Notify, answer_view(r)),
            final(self).is_left_by_step(PluginStep::Notify, answer_view(r)),
    ;
}

/// Runs one step on a plugin: the routine that the plugin has for that
/// step, and no other. The plugin is left as that routine leaves it, and the
/// answer is the routine's answer.
pub fn call_step<P: PluginInterface>(plugin: &mut P, step: PluginStep) -> (r: Result<
    (),
    PluginError,
>)
    ensures
        old(plugin).answers_step(step, answer_view(r)),
        final(plugin).is_left_by_step(step, answer_view(r)),
{
    match step {
        PluginStep::PreFlight => plugin.pre_flight(),
        PluginStep::GetLastRelease => plugin.get_last_release(),
        PluginStep::DeriveNextVersion => plugin.derive_next_version(),
        PluginStep::GenerateNotes => plugin.generate_notes(),
        PluginStep::Prepare => plugin.prepare(),
        PluginStep::VerifyRelease => plugin.verify_release(),
        PluginStep::Commit => plugin.commit(),
        PluginStep::Publish => plugin.publish(),
        PluginStep::Notify => plugin.notify(),
    }
}

/// The state of a plugin that has not been started.
pub enum RawPluginState<P> {
    Unresolved(FullPluginDefinition),
    Resolved(P),
}

/// A configured plugin before it is started.
pub struct RawPlugin<P> {
    pub name: String,
    pub state: RawPluginState<P>,
}

impl<P> RawPlugin<P> {
    /// A plugin with a name and a state.
    pub fn new(name: String, state: RawPluginState<P>) -> (r: RawPlugin<P>)
        ensures
            r.name == name,
            r.state == state,
    {
        RawPlugin { name, state }
    }

    /// The configured name of the plugin.
    pub fn name(&self) -> (r: &String)
        ensures
            *r == self.name,
    {
        &self.name
    }

    /// The state of the plugin.
    pub fn state(&self) -> (r: &RawPluginState<P>)
        ensures
            *r == self.state,
    {
        &self.state
    }

    /// Whether the plugin has a handle.
    pub fn is_resolved(&self) -> (r: bool)
        ensures
            r == (self.state is Resolved),
    {
        match self.state {
            RawPluginState::Unresolved(_) => false,
            RawPluginState::Resolved(_) => true,
        }
    }
}

/// A started plugin: its name, its handle, and what it declared when it started.
pub struct Plugin<P> {
    pub name: String,
    pub handle: P,
    pub declaration: PluginDeclaration,
}

/// The sources of a declaration, as mathematical values.
pub open spec fn sources_view(sources: Seq<SourceDeclaration>) -> Seq<SourceView> {
    Seq::new(sources.len(), |i: int| sources[i]@)
}

/// The sinks of a declaration, as mathematical values.
pub open spec fn sinks_view(sinks: Seq<SinkDeclaration>) -> Seq<SinkView> {
    Seq::new(sinks.len(), |i: int| sinks[i]@)
}

impl<P> Plugin<P> {
    /// What the plugin declared when it started, under its name: the part of
    /// a started plugin that scheduling reads. The handle is no part of it.
    pub open spec fn declared(&self) -> DeclarationView {
        DeclarationView {
            name: self.name@,
            steps: self.declaration.steps@,
            sources: sources_view(self.declaration.sources@),
            sinks: sinks_view(self.declaration.sinks@),
        }
    }
}

/// What each plugin of a list declared, under its name.
pub open spec fn declarations_view<P>(plugins: Seq<Plugin<P>>) -> Seq<DeclarationView> {
    Seq::new(plugins.len(), |i: int| plugins[i].declared())
}

/// The outcome of starting the plugin `name`, given what its start routine returned.
pub open spec fn start_outcome_spec(name: Seq<char>, started: Result<(), PluginError>) -> Result<
    (),
    ErrorView,
> {
    match started {
        Ok(()) => Ok(()),
        Err(cause) => Err(ErrorView::StartupError(name, cause@)),
    }
}

/// Turns what a plugin's start routine returned into the kernel's outcome:
/// a failure becomes a startup error that carries the plugin's name and the cause.
pub fn start_outcome(name: &String, started: Result<(), PluginError>) -> (r: Result<(), Error>)
    ensures
        match r {
            Ok(()) => start_outcome_spec(name@, started) == Ok::<(), ErrorView>(()),
            Err(e) => start_outcome_spec(name@, started) == Err::<(), ErrorView>(e@),
        },
{
    match started {
        Ok(()) => Ok(()),
        Err(cause) => Err(Error::StartupError(name.clone(), cause)),
    }
}

/// Whether `plugin` is the injected handle `handle` once it has started: it
/// has the name that the handle gave itself, it holds the handle as a
/// successful start left it, and it records what the started handle declares.
pub open spec fn is_started_from<P: PluginInterface>(plugin: Plugin<P>, handle: P) -> bool {
    &&& handle.gives_name(plugin.name@)
    &&& handle.answers_start(Ok(()))
    &&& plugin.handle.is_left_by_start(Ok(()))
    &&& plugin.handle.gives_declaration(plugin.declaration)
}

/// Whether `e` is the failure of the injected handle `handle` to start: a
/// startup error with a name that the handle gave itself and a cause that
/// its start routine gave.
pub open spec fn is_start_failure_of<P: PluginInterface>(e: ErrorView, handle: P) -> bool {
    exists|name: Seq<char>, cause: Seq<char>|
        #![trigger handle.gives_name(name), handle.answers_start(Err(cause))]
        handle.gives_name(name) && handle.answers_start(Err(cause)) && e
            == ErrorView::StartupError(name, cause)
}

impl<P: PluginInterface> Plugin<P> {
    /// Starts a plugin that was handed to the kernel directly, under the name it gives itself.
    ///
    /// Whether the start succeeds is the plugin's decision. On success the
    /// started plugin has the name that the handle gave itself, holds the
    /// handle as its start routine left it, and records what the started
    /// handle declares. A failure is a startup error that carries that name
    /// and the cause that the start routine gave.
    pub fn new(handle: P) -> (r: Result<Plugin<P>, Error>)
        ensures
            match r {
                Ok(plugin) => is_started_from(plugin, handle),
                Err(e) => is_start_failure_of(e@, handle),
            },
    {
        let ghost given = handle;
        let mut handle = handle;
        let name = handle.name();
        let started = handle.start();
        match start_outcome(&name, started) {
            Ok(()) => {
                let declaration = handle.declaration();
                Ok(Plugin { name, handle, declaration })
            },
            Err(e) => {
                proof {
                    let cause = started->Err_0@;
                    assert(given.gives_name(name@) && given.answers_start(Err(cause)));
                    assert(e@ == ErrorView::StartupError(name@, cause));
                }
                Err(e)
            },
        }
    }
}

/// Binds plugin definitions to plugin handles.
///
/// The resolver holds the handles that are available, each under the kind of
/// plugin it implements. A handle serves one plugin.
pub struct PluginResolver<P> {
    pub registry: Vec<(String, P)>,
}

/// Resolving one plugin against the available handles: an unresolved plugin
/// takes the first handle registered under its kind, which leaves the
/// registry; where there is none, and for a plugin that is resolved already,
/// nothing changes.
pub open spec fn resolve_spec<P>(registry: Seq<(String, P)>, plugin: RawPlugin<P>) -> (
    Seq<(String, P)>,
    RawPlugin<P>,
) {
    match plugin.state {
        RawPluginState::Unresolved(definition) => match first_index(
            string_keys(registry),
            definition.kind@,
        ) {
            Some(i) => (
                registry.remove(i),
                RawPlugin { name: plugin.name, state: RawPluginState::Resolved(registry[i].1) },
            ),
            None => (registry, plugin),
        },
        RawPluginState::Resolved(_) => (registry, plugin),
    }
}

/// Resolving a list of plugins from first to last, each against what the
/// plugins before it left in the registry.
pub open spec fn resolve_all_spec<P>(registry: Seq<(String, P)>, plugins: Seq<RawPlugin<P>>) -> (
    Seq<(String, P)>,
    Seq<RawPlugin<P>>,
)
    decreases plugins.len(),
{
    if plugins.len() == 0 {
        (registry, Seq::empty())
    } else {
        let before = resolve_all_spec(registry, plugins.drop_last());
        let last = resolve_spec(before.0, plugins.last());
        (last.0, before.1.push(last.1))
    }
}

impl<P> PluginResolver<P> {
    /// A resolver with no handles.
    pub fn new() -> (r: PluginResolver<P>)
        ensures
            r.registry@.len() == 0,
    {
        PluginResolver { registry: Vec::new() }
    }

    /// Makes a handle available under a kind. Handles of one kind are given out
    /// in the order in which they were registered.
    pub fn register(&mut self, kind: String, handle: P)
        ensures
            final(self).registry@ == old(self).registry@.push((kind, handle)),
    {
        self.registry.push((kind, handle));
    }

    /// Resolves one plugin.
    pub fn resolve(&mut self, plugin: RawPlugin<P>) -> (r: RawPlugin<P>)
        ensures
            (final(self).registry@, r) == resolve_spec(old(self).registry@, plugin),
    {
        match plugin.state {
            RawPluginState::Unresolved(definition) => {
                match find_key(&self.registry, &definition.kind) {
                    Some(i) => {
                        let entry = self.registry.remove(i);
                        RawPlugin { name: plugin.name, state: RawPluginState::Resolved(entry.1) }
                    },
                    None => RawPlugin {
                        name: plugin.name,
                        state: RawPluginState::Unresolved(definition),
                    },
                }
            },
            RawPluginState::Resolved(handle) => RawPlugin {
                name: plugin.name,
                state: RawPluginState::Resolved(handle),
            },
        }
    }
}

/// Whether `started` is the raw plugin `plugin` once it has started: the
/// plugin was resolved, the started plugin keeps its name, its handle answered
/// the start with success and is held as the start left it, and what the
/// started handle declares is recorded.
pub open spec fn is_started_as<P: PluginInterface>(started: Plugin<P>, plugin: RawPlugin<P>) -> bool {
    match plugin.state {
        RawPluginState::Unresolved(_) => false,
        RawPluginState::Resolved(handle) => {
            &&& started.name == plugin.name
            &&& handle.answers_start(Ok(()))
            &&& started.handle.is_left_by_start(Ok(()))
            &&& started.handle.gives_declaration(started.declaration)
        },
    }
}

/// Whether `e` is the failure of the raw plugin `plugin` to start: an
/// invariant violation for a plugin that is not resolved, and for a resolved
/// one a startup error with the plugin's name and a cause that the start
/// routine of its handle gave.
pub open spec fn is_start_failure_as<P: PluginInterface>(e: Error, plugin: RawPlugin<P>) -> bool {
    match plugin.state {
        RawPluginState::Unresolved(_) => e == Error::InvariantViolation,
        RawPluginState::Resolved(handle) => exists|cause: Seq<char>|
            #[trigger] handle.answers_start(Err(cause)) && e@ == ErrorView::StartupError(
                plugin.name@,
                cause,
            ),
    }
}

/// Starts resolved plugins.
pub struct PluginStarter {}

impl PluginStarter {
    /// A starter.
    pub fn new() -> (r: PluginStarter) {
        PluginStarter {  }
    }

    /// Starts a plugin under its configured name.
    ///
    /// A plugin that is not resolved cannot be started: that is an invariant
    /// violation. Whether a resolved plugin starts is the plugin's decision.
    /// On success the started plugin keeps the name, holds the handle as its
    /// start routine left it, and records what the started handle declares.
    /// A failure is a startup error with the plugin's name and the cause that
    /// the start routine gave.
    pub fn start<P: PluginInterface>(&self, plugin: RawPlugin<P>) -> (r: Result<Plugin<P>, Error>)
        ensures
            match r {
                Ok(started) => is_started_as(started, plugin),
                Err(e) => is_start_failure_as(e, plugin),
            },
    {
        match plugin.state {
            RawPluginState::Unresolved(_) => Err(Error::InvariantViolation),
            RawPluginState::Resolved(handle) => {
                let ghost given = handle;
                let mut handle = handle;
                let started = handle.start();
                match start_outcome(&plugin.name, started) {
                    Ok(()) => {
                        let declaration = handle.declaration();
                        Ok(Plugin { name: plugin.name, handle, declaration })
                    },
                    Err(e) => {
                        proof {
                            assert(given.answers_start(Err(started->Err_0@)));
                        }
                        Err(e)
                    },
                }
            },
        }
    }
}

} // verus!
