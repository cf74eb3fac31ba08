use semantic_rs::config::{FullPluginDefinition, PluginDefinition};
use semantic_rs::error::{Error, PluginError};
use semantic_rs::kernel::KernelBuilder;
use semantic_rs::plugin::{
    call_step, start_outcome, Plugin, PluginDeclaration, PluginInterface, PluginResolver,
    PluginStarter, RawPlugin, RawPluginState, SourceDeclaration,
};
use semantic_rs::step::PluginStep;
use semantic_rs::value::KeyValue;

struct Stub {
    label: String,
    starts: bool,
    calls: Vec<PluginStep>,
}

impl Stub {
    fn new(label: &str) -> Stub {
        Stub { label: label.to_string(), starts: true, calls: vec![] }
    }

    fn broken(label: &str) -> Stub {
        Stub { label: label.to_string(), starts: false, calls: vec![] }
    }

    fn step(&mut self, step: PluginStep) -> Result<(), PluginError> {
        self.calls.push(step);
        Ok(())
    }
}

impl PluginInterface for Stub {
    fn name(&self) -> String {
        self.label.clone()
    }

    fn start(&mut self) -> Result<(), PluginError> {
        if self.starts {
            Ok(())
        } else {
            Err(PluginError { message: format!("{} is broken", self.label) })
        }
    }

    fn declaration(&self) -> PluginDeclaration {
        PluginDeclaration {
            steps: vec![PluginStep::Commit],
            sources: vec![SourceDeclaration { key: "sha".to_string(), step: PluginStep::Commit }],
            sinks: vec![],
        }
    }

    fn get_value(&self, _key: &str) -> Result<serde_json::Value, PluginError> {
        Ok(serde_json::Value::Null)
    }

    fn set_value(
        &mut self,
        _key: &str,
        _value: KeyValue<serde_json::Value>,
    ) -> Result<(), PluginError> {
        Ok(())
    }

    fn pre_flight(&mut self) -> Result<(), PluginError> {
        self.step(PluginStep::PreFlight)
    }

    fn get_last_release(&mut self) -> Result<(), PluginError> {
        self.step(PluginStep::GetLastRelease)
    }

    fn derive_next_version(&mut self) -> Result<(), PluginError> {
        self.step(PluginStep::DeriveNextVersion)
    }

    fn generate_notes(&mut self) -> Result<(), PluginError> {
        self.step(PluginStep::GenerateNotes)
    }

    fn prepare(&mut self) -> Result<(), PluginError> {
        self.step(PluginStep::Prepare)
    }

    fn verify_release(&mut self) -> Result<(), PluginError> {
        self.step(PluginStep::VerifyRelease)
    }

    fn commit(&mut self) -> Result<(), PluginError> {
        self.step(PluginStep::Commit)
    }

    fn publish(&mut self) -> Result<(), PluginError> {
        self.step(PluginStep::Publish)
    }

    fn notify(&mut self) -> Result<(), PluginError> {
        self.step(PluginStep::Notify)
    }
}

fn definition(kind: &str) -> FullPluginDefinition {
    FullPluginDefinition { kind: kind.to_string(), version: None, options: vec![] }
}

fn unresolved(name: &str, kind: &str) -> RawPlugin<Stub> {
    RawPlugin::new(name.to_string(), RawPluginState::Unresolved(definition(kind)))
}

fn resolved(name: &str, label: &str) -> RawPlugin<Stub> {
    RawPlugin::new(name.to_string(), RawPluginState::Resolved(Stub::new(label)))
}

fn label(plugin: &RawPlugin<Stub>) -> Option<String> {
    match plugin.state() {
        RawPluginState::Resolved(handle) => Some(handle.label.clone()),
        RawPluginState::Unresolved(_) => None,
    }
}

fn started(outcome: Result<Plugin<Stub>, Error>) -> Plugin<Stub> {
    match outcome {
        Ok(plugin) => plugin,
        Err(e) => panic!("not started: {:?}", e),
    }
}

fn failure<T>(outcome: Result<T, Error>) -> Error {
    match outcome {
        Ok(_) => panic!("no failure"),
        Err(e) => e,
    }
}

#[test]
fn definitions_become_unresolved_plugins_in_order() {
    let definitions = vec![
        ("one".to_string(), PluginDefinition::Short("git".to_string())),
        (
            "two".to_string(),
            PluginDefinition::Full(FullPluginDefinition {
                kind: "docker".to_string(),
                version: Some("2".to_string()),
                options: vec![("image".to_string(), serde_json::Value::Null)],
            }),
        ),
    ];
    let plugins = KernelBuilder::<Stub>::plugin_def_map_to_vec(definitions);
    assert_eq!(plugins.len(), 2);
    assert_eq!(plugins[0].name(), "one");
    assert_eq!(plugins[1].name(), "two");
    assert!(!plugins[0].is_resolved());
    match plugins[0].state() {
        RawPluginState::Unresolved(d) => assert_eq!(d, &definition("git")),
        RawPluginState::Resolved(_) => panic!("resolved"),
    }
    match plugins[1].state() {
        RawPluginState::Unresolved(d) => {
            assert_eq!(d.kind, "docker");
            assert_eq!(d.version, Some("2".to_string()));
            assert_eq!(d.options, vec![("image".to_string(), serde_json::Value::Null)]);
        }
        RawPluginState::Resolved(_) => panic!("resolved"),
    }
}

#[test]
fn short_definition_is_the_long_one_without_version_and_options() {
    assert_eq!(PluginDefinition::Short("git".to_string()).into_full(), definition("git"));
    let long = FullPluginDefinition {
        kind: "git".to_string(),
        version: Some("1".to_string()),
        options: vec![("k".to_string(), serde_json::Value::Bool(true))],
    };
    assert_eq!(PluginDefinition::Full(long.clone()).into_full(), long);
    assert_eq!(long.duplicate(), long);
}

#[test]
fn resolver_gives_out_handles_of_a_kind_in_registration_order() {
    let mut resolver: PluginResolver<Stub> = PluginResolver::new();
    resolver.register("git".to_string(), Stub::new("first git"));
    resolver.register("docker".to_string(), Stub::new("docker"));
    resolver.register("git".to_string(), Stub::new("second git"));
    let a = resolver.resolve(unresolved("a", "git"));
    let b = resolver.resolve(unresolved("b", "git"));
    let c = resolver.resolve(unresolved("c", "git"));
    assert_eq!((a.name().as_str(), label(&a)), ("a", Some("first git".to_string())));
    assert_eq!((b.name().as_str(), label(&b)), ("b", Some("second git".to_string())));
    assert_eq!((c.name().as_str(), label(&c)), ("c", None));
    assert_eq!(resolver.registry.len(), 1);
    assert_eq!(resolver.registry[0].0, "docker");
}

#[test]
fn resolver_leaves_a_resolved_plugin_alone() {
    let mut resolver: PluginResolver<Stub> = PluginResolver::new();
    resolver.register("git".to_string(), Stub::new("spare"));
    let kept = resolver.resolve(resolved("a", "own"));
    assert_eq!(label(&kept), Some("own".to_string()));
    assert_eq!(resolver.registry.len(), 1);
}

#[test]
fn resolving_a_list_never_fails() {
    let mut resolver: PluginResolver<Stub> = PluginResolver::new();
    resolver.register("git".to_string(), Stub::new("git"));
    let plugins = vec![unresolved("a", "svn"), unresolved("b", "git"), unresolved("c", "git")];
    let out = match KernelBuilder::<Stub>::resolve_plugins(&mut resolver, plugins) {
        Ok(out) => out,
        Err(e) => panic!("resolving failed: {:?}", e),
    };
    let states: Vec<(String, bool)> =
        out.iter().map(|p| (p.name().clone(), p.is_resolved())).collect();
    assert_eq!(
        states,
        vec![("a".to_string(), false), ("b".to_string(), true), ("c".to_string(), false)]
    );
    assert!(resolver.registry.is_empty());
}

#[test]
fn unresolved_plugins_are_listed_in_order() {
    let plugins = vec![
        unresolved("a", "svn"),
        resolved("b", "x"),
        unresolved("c", "git"),
        resolved("d", "y"),
    ];
    assert_eq!(
        KernelBuilder::<Stub>::list_not_resolved_plugins(&plugins),
        vec!["a".to_string(), "c".to_string()]
    );
    assert_eq!(
        KernelBuilder::<Stub>::list_all_plugins_that(&plugins, |p: &RawPlugin<Stub>| p
            .is_resolved()),
        vec!["b".to_string(), "d".to_string()]
    );
    assert_eq!(
        KernelBuilder::<Stub>::list_all_plugins_that(&plugins, |p: &RawPlugin<Stub>| p
            .name()
            .as_str()
            > "b"),
        vec!["c".to_string(), "d".to_string()]
    );
    assert_eq!(
        KernelBuilder::<Stub>::check_all_resolved(&plugins),
        Err(Error::FailedToResolvePlugins(vec!["a".to_string(), "c".to_string()]))
    );
}

#[test]
fn list_of_resolved_plugins_passes_the_check() {
    let plugins = vec![resolved("b", "x"), resolved("d", "y")];
    assert_eq!(KernelBuilder::<Stub>::check_all_resolved(&plugins), Ok(()));
    assert_eq!(KernelBuilder::<Stub>::check_all_resolved(&[]), Ok(()));
    assert_eq!(KernelBuilder::<Stub>::list_not_resolved_plugins(&plugins), Vec::<String>::new());
}

#[test]
fn starting_keeps_the_configured_name_and_records_the_declaration() {
    let plugin = started(PluginStarter::new().start(resolved("configured", "label")));
    assert_eq!(plugin.name, "configured");
    assert_eq!(plugin.handle.label, "label");
    assert_eq!(plugin.declaration.steps, vec![PluginStep::Commit]);
    assert_eq!(
        plugin.declaration.sources,
        vec![SourceDeclaration { key: "sha".to_string(), step: PluginStep::Commit }]
    );
}

#[test]
fn starting_an_unresolved_plugin_is_an_invariant_violation() {
    assert_eq!(
        failure(PluginStarter::new().start(unresolved("a", "git"))),
        Error::InvariantViolation
    );
}

#[test]
fn start_failure_carries_name_and_cause() {
    let raw = RawPlugin::new("a".to_string(), RawPluginState::Resolved(Stub::broken("b")));
    assert_eq!(
        failure(PluginStarter::new().start(raw)),
        Error::StartupError("a".to_string(), PluginError { message: "b is broken".to_string() })
    );
    assert_eq!(
        failure(Plugin::new(Stub::broken("b"))),
        Error::StartupError("b".to_string(), PluginError { message: "b is broken".to_string() })
    );
    assert_eq!(start_outcome(&"a".to_string(), Ok(())), Ok(()));
    assert_eq!(
        start_outcome(&"a".to_string(), Err(PluginError { message: "m".to_string() })),
        Err(Error::StartupError("a".to_string(), PluginError { message: "m".to_string() }))
    );
}

#[test]
fn injected_plugin_starts_under_its_own_name() {
    let plugin = started(Plugin::new(Stub::new("own")));
    assert_eq!(plugin.name, "own");
}

#[test]
fn starting_a_list_stops_at_the_first_failure() {
    let plugins = vec![
        resolved("a", "x"),
        RawPlugin::new("b".to_string(), RawPluginState::Resolved(Stub::broken("y"))),
        RawPlugin::new("c".to_string(), RawPluginState::Resolved(Stub::broken("z"))),
    ];
    assert_eq!(
        failure(KernelBuilder::<Stub>::start_plugins(plugins)),
        Error::StartupError("b".to_string(), PluginError { message: "y is broken".to_string() })
    );
    let all = match KernelBuilder::<Stub>::start_plugins(vec![resolved("a", "x"), resolved("b", "y")])
    {
        Ok(all) => all,
        Err(e) => panic!("not started: {:?}", e),
    };
    let names: Vec<&str> = all.iter().map(|p| p.name.as_str()).collect();
    assert_eq!(names, vec!["a", "b"]);
    assert_eq!(
        failure(KernelBuilder::<Stub>::start_plugins(vec![resolved("a", "x"), unresolved("b", "k")])),
        Error::InvariantViolation
    );
}

#[test]
fn each_step_reaches_its_method() {
    let mut stub = Stub::new("s");
    for step in PluginStep::all() {
        assert_eq!(call_step(&mut stub, step), Ok(()));
    }
    assert_eq!(stub.calls, PluginStep::all());
}
