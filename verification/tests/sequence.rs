use semantic_rs::config::{Config, FullPluginDefinition, PluginDefinition, StepDefinition};
use semantic_rs::error::{ConfigurationFault, Error};
use semantic_rs::graph::{Action, ActionKind, PluginSequence};
use semantic_rs::membership::InjectionTarget;
use semantic_rs::plugin::{Plugin, PluginDeclaration, SinkDeclaration, SourceDeclaration};
use semantic_rs::step::PluginStep;
use semantic_rs::value::KeyValue;

fn plugin(name: &str, steps: &[PluginStep]) -> Plugin<()> {
    Plugin {
        name: name.to_string(),
        handle: (),
        declaration: PluginDeclaration { steps: steps.to_vec(), sources: vec![], sinks: vec![] },
    }
}

fn with_source(mut plugin: Plugin<()>, key: &str, step: PluginStep) -> Plugin<()> {
    plugin.declaration.sources.push(SourceDeclaration { key: key.to_string(), step });
    plugin
}

fn with_sink(mut plugin: Plugin<()>, key: &str, step: PluginStep) -> Plugin<()> {
    plugin.declaration.sinks.push(SinkDeclaration { key: key.to_string(), step, env: None });
    plugin
}

fn with_env_sink(mut plugin: Plugin<()>, key: &str, step: PluginStep, var: &str) -> Plugin<()> {
    plugin.declaration.sinks.push(SinkDeclaration {
        key: key.to_string(),
        step,
        env: Some(var.to_string()),
    });
    plugin
}

fn plan(step: PluginStep, names: &[&str]) -> (PluginStep, StepDefinition) {
    (step, StepDefinition::Plan(names.iter().map(|n| n.to_string()).collect()))
}

fn call(id: usize, step: PluginStep) -> Action {
    Action { id, kind: ActionKind::Call(step) }
}

fn get(id: usize, key: &str) -> Action {
    Action { id, kind: ActionKind::Get(key.to_string()) }
}

fn set_from(id: usize, key: &str) -> Action {
    Action { id, kind: ActionKind::SetFrom(key.to_string(), key.to_string()) }
}

fn require_config(id: usize, key: &str) -> Action {
    Action { id, kind: ActionKind::RequireConfigEntry(key.to_string()) }
}

fn compile(
    plugins: &Vec<Plugin<()>>,
    config: &Config,
    injections: Vec<(usize, InjectionTarget)>,
    is_dry_run: bool,
) -> Vec<Action> {
    match PluginSequence::new(plugins, config, injections, is_dry_run) {
        Ok(sequence) => sequence.seq,
        Err(e) => panic!("no sequence: {:?}", e),
    }
}

fn refusal(
    plugins: &Vec<Plugin<()>>,
    config: &Config,
    injections: Vec<(usize, InjectionTarget)>,
) -> Error {
    match PluginSequence::new(plugins, config, injections, true) {
        Ok(sequence) => panic!("a sequence: {:?}", sequence),
        Err(e) => e,
    }
}

fn position(actions: &[Action], wanted: &Action) -> usize {
    match actions.iter().position(|a| a == wanted) {
        Some(i) => i,
        None => panic!("{:?} is not in the sequence", wanted),
    }
}

#[test]
fn steps_run_in_pipeline_order_whatever_the_order_of_definitions() {
    let plugins = vec![plugin("a", &[])];
    let mut config = Config::new();
    config.steps.push(plan(PluginStep::Notify, &["a"]));
    config.steps.push(plan(PluginStep::Commit, &["a"]));
    config.steps.push(plan(PluginStep::PreFlight, &["a"]));
    assert_eq!(
        compile(&plugins, &config, vec![], false),
        vec![
            call(0, PluginStep::PreFlight),
            call(0, PluginStep::Commit),
            call(0, PluginStep::Notify),
        ]
    );
}

#[test]
fn members_run_in_the_order_of_the_definition() {
    let plugins = vec![plugin("a", &[]), plugin("b", &[]), plugin("c", &[])];
    let mut config = Config::new();
    config.steps.push((
        PluginStep::Prepare,
        StepDefinition::Parallel(vec!["c".to_string(), "a".to_string(), "b".to_string()]),
    ));
    assert_eq!(
        compile(&plugins, &config, vec![], true),
        vec![
            call(2, PluginStep::Prepare),
            call(0, PluginStep::Prepare),
            call(1, PluginStep::Prepare),
        ]
    );
}

#[test]
fn discovered_step_takes_the_plugins_that_declare_it() {
    let plugins = vec![
        plugin("a", &[PluginStep::PreFlight]),
        plugin("b", &[PluginStep::Prepare]),
        plugin("c", &[PluginStep::Prepare, PluginStep::PreFlight]),
    ];
    let mut config = Config::new();
    config.steps.push((PluginStep::PreFlight, StepDefinition::Discover));
    assert_eq!(
        compile(&plugins, &config, vec![], true),
        vec![call(0, PluginStep::PreFlight), call(2, PluginStep::PreFlight)]
    );
}

#[test]
fn shared_step_takes_every_configured_plugin() {
    let plugins = vec![plugin("x", &[]), plugin("a", &[]), plugin("b", &[PluginStep::Prepare])];
    let mut config = Config::new();
    config.steps.push((PluginStep::Prepare, StepDefinition::Shared));
    assert_eq!(
        compile(
            &plugins,
            &config,
            vec![(0, InjectionTarget::AfterStep(PluginStep::Prepare))],
            true
        ),
        vec![
            call(1, PluginStep::Prepare),
            call(2, PluginStep::Prepare),
            call(0, PluginStep::Prepare),
        ]
    );
}

#[test]
fn singleton_definition_names_one_plugin() {
    let plugins = vec![plugin("a", &[]), plugin("b", &[])];
    let mut config = Config::new();
    config.steps.push((PluginStep::GetLastRelease, StepDefinition::Singleton("b".to_string())));
    assert_eq!(
        compile(&plugins, &config, vec![], true),
        vec![call(1, PluginStep::GetLastRelease)]
    );
}

#[test]
fn singleton_step_with_an_injection_has_two_members() {
    let plugins = vec![plugin("x", &[]), plugin("b", &[])];
    let mut config = Config::new();
    config.steps.push((PluginStep::GetLastRelease, StepDefinition::Singleton("b".to_string())));
    assert_eq!(
        refusal(
            &plugins,
            &config,
            vec![(0, InjectionTarget::BeforeStep(PluginStep::GetLastRelease))]
        ),
        Error::ConfigurationError(ConfigurationFault::SingletonStep(PluginStep::GetLastRelease))
    );
}

#[test]
fn injection_alone_may_serve_a_singleton_step() {
    let plugins = vec![plugin("x", &[])];
    let config = Config::new();
    assert_eq!(
        compile(
            &plugins,
            &config,
            vec![(0, InjectionTarget::BeforeStep(PluginStep::GetLastRelease))],
            true
        ),
        vec![call(0, PluginStep::GetLastRelease)]
    );
}

#[test]
fn first_faulty_step_is_reported() {
    let plugins = vec![plugin("a", &[])];
    let mut config = Config::new();
    config.steps.push(plan(PluginStep::Publish, &["nobody"]));
    config.steps.push(plan(PluginStep::GetLastRelease, &[]));
    assert_eq!(
        refusal(&plugins, &config, vec![]),
        Error::ConfigurationError(ConfigurationFault::SingletonStep(PluginStep::GetLastRelease))
    );
}

#[test]
fn first_missing_name_is_reported() {
    let plugins = vec![plugin("a", &[])];
    let mut config = Config::new();
    config.steps.push(plan(PluginStep::Publish, &["a", "nobody", "noone"]));
    assert_eq!(
        refusal(&plugins, &config, vec![]),
        Error::ConfigurationError(ConfigurationFault::MissingPlugin(
            PluginStep::Publish,
            "nobody".to_string()
        ))
    );
}

#[test]
fn injection_of_an_unknown_plugin_is_an_invariant_violation() {
    let plugins = vec![plugin("a", &[])];
    let config = Config::new();
    assert_eq!(
        refusal(&plugins, &config, vec![(1, InjectionTarget::AfterStep(PluginStep::Notify))]),
        Error::InvariantViolation
    );
}

#[test]
fn dry_run_is_the_front_of_the_full_run() {
    let plugins = vec![with_source(
        with_sink(plugin("a", &[]), "tag", PluginStep::Publish),
        "archive",
        PluginStep::Commit,
    )];
    let mut config = Config::new();
    for step in PluginStep::all() {
        if step != PluginStep::GetLastRelease {
            config.steps.push(plan(step, &["a"]));
        }
    }
    let dry = compile(&plugins, &config, vec![], true);
    let full = compile(&plugins, &config, vec![], false);
    assert_eq!(
        dry,
        vec![
            call(0, PluginStep::PreFlight),
            call(0, PluginStep::DeriveNextVersion),
            call(0, PluginStep::GenerateNotes),
            call(0, PluginStep::Prepare),
            call(0, PluginStep::VerifyRelease),
        ]
    );
    assert_eq!(&full[..dry.len()], &dry[..]);
    assert_eq!(
        &full[dry.len()..],
        &[
            call(0, PluginStep::Commit),
            get(0, "archive"),
            require_config(0, "tag"),
            call(0, PluginStep::Publish),
            call(0, PluginStep::Notify),
        ]
    );
    for action in &dry {
        if let ActionKind::Call(step) = &action.kind {
            assert!(step.is_dry());
        }
    }
}

#[test]
fn provisions_stand_in_front_of_the_call_in_declaration_order() {
    let a = with_sink(
        with_env_sink(
            with_sink(plugin("a", &[]), "later", PluginStep::Publish),
            "token",
            PluginStep::Prepare,
            "TOKEN",
        ),
        "project",
        PluginStep::Prepare,
    );
    let plugins = vec![a];
    let mut config = Config::new();
    config.cfg.push((
        "project".to_string(),
        KeyValue { source_key: "project".to_string(), value: Some(serde_json::Value::Null) },
    ));
    config.steps.push(plan(PluginStep::Prepare, &["a"]));
    let actions = compile(&plugins, &config, vec![], true);
    assert_eq!(
        actions,
        vec![
            Action {
                id: 0,
                kind: ActionKind::RequireEnvValue("token".to_string(), "TOKEN".to_string()),
            },
            require_config(0, "project"),
            call(0, PluginStep::Prepare),
        ]
    );
    let called = position(&actions, &call(0, PluginStep::Prepare));
    assert!(position(&actions, &require_config(0, "project")) < called);
}

#[test]
fn publication_stands_in_front_of_its_use() {
    let plugins = vec![
        with_sink(plugin("consumer", &[]), "notes", PluginStep::Publish),
        with_source(plugin("producer", &[]), "notes", PluginStep::GenerateNotes),
    ];
    let mut config = Config::new();
    config.steps.push(plan(PluginStep::GenerateNotes, &["producer"]));
    config.steps.push(plan(PluginStep::Publish, &["consumer"]));
    let actions = compile(&plugins, &config, vec![], false);
    assert_eq!(
        actions,
        vec![
            call(1, PluginStep::GenerateNotes),
            get(1, "notes"),
            set_from(0, "notes"),
            call(0, PluginStep::Publish),
        ]
    );
    assert!(position(&actions, &get(1, "notes")) < position(&actions, &set_from(0, "notes")));
}

#[test]
fn source_of_the_same_step_is_no_publication_for_a_sink() {
    let plugins = vec![
        with_source(plugin("producer", &[]), "notes", PluginStep::Prepare),
        with_sink(plugin("consumer", &[]), "notes", PluginStep::Prepare),
    ];
    let mut config = Config::new();
    config.steps.push(plan(PluginStep::Prepare, &["producer", "consumer"]));
    assert_eq!(
        compile(&plugins, &config, vec![], true),
        vec![
            call(0, PluginStep::Prepare),
            get(0, "notes"),
            require_config(1, "notes"),
            call(1, PluginStep::Prepare),
        ]
    );
}

#[test]
fn own_source_is_no_publication_for_a_sink() {
    let plugins = vec![with_sink(
        with_source(plugin("both", &[]), "notes", PluginStep::PreFlight),
        "notes",
        PluginStep::Prepare,
    )];
    let mut config = Config::new();
    config.steps.push(plan(PluginStep::PreFlight, &["both"]));
    config.steps.push(plan(PluginStep::Prepare, &["both"]));
    assert_eq!(
        compile(&plugins, &config, vec![], true),
        vec![
            call(0, PluginStep::PreFlight),
            get(0, "notes"),
            require_config(0, "notes"),
            call(0, PluginStep::Prepare),
        ]
    );
}

#[test]
fn source_of_a_plugin_that_does_not_serve_the_step_is_no_publication() {
    let plugins = vec![
        with_source(plugin("producer", &[]), "notes", PluginStep::PreFlight),
        with_sink(plugin("consumer", &[]), "notes", PluginStep::Prepare),
    ];
    let mut config = Config::new();
    config.steps.push(plan(PluginStep::Prepare, &["consumer"]));
    assert_eq!(
        compile(&plugins, &config, vec![], true),
        vec![require_config(1, "notes"), call(1, PluginStep::Prepare)]
    );
}

#[test]
fn literal_from_the_plugin_definition_fills_a_sink() {
    let plugins = vec![with_sink(plugin("a", &[]), "branch", PluginStep::PreFlight)];
    let mut config = Config::new();
    config.plugins.push((
        "a".to_string(),
        PluginDefinition::Full(FullPluginDefinition {
            kind: "git".to_string(),
            version: None,
            options: vec![("branch".to_string(), serde_json::Value::String("main".to_string()))],
        }),
    ));
    config.steps.push(plan(PluginStep::PreFlight, &["a"]));
    assert_eq!(
        compile(&plugins, &config, vec![], true),
        vec![
            Action {
                id: 0,
                kind: ActionKind::SetValue(
                    "branch".to_string(),
                    serde_json::Value::String("main".to_string())
                ),
            },
            call(0, PluginStep::PreFlight),
        ]
    );
}

#[test]
fn configuration_entry_comes_before_publication_and_literal() {
    let plugins = vec![
        with_source(plugin("producer", &[]), "branch", PluginStep::PreFlight),
        with_sink(plugin("a", &[]), "branch", PluginStep::Prepare),
    ];
    let mut config = Config::new();
    config.cfg.push((
        "branch".to_string(),
        KeyValue { source_key: "branch".to_string(), value: None },
    ));
    config.plugins.push((
        "a".to_string(),
        PluginDefinition::Full(FullPluginDefinition {
            kind: "git".to_string(),
            version: None,
            options: vec![("branch".to_string(), serde_json::Value::Null)],
        }),
    ));
    config.steps.push(plan(PluginStep::PreFlight, &["producer"]));
    config.steps.push(plan(PluginStep::Prepare, &["a"]));
    assert_eq!(
        compile(&plugins, &config, vec![], true),
        vec![
            call(0, PluginStep::PreFlight),
            get(0, "branch"),
            require_config(1, "branch"),
            call(1, PluginStep::Prepare),
        ]
    );
}

#[test]
fn plugin_named_twice_is_provided_once() {
    let plugins = vec![with_source(
        with_env_sink(plugin("a", &[]), "token", PluginStep::Prepare, "TOKEN"),
        "archive",
        PluginStep::Prepare,
    )];
    let mut config = Config::new();
    config.steps.push(plan(PluginStep::Prepare, &["a", "a"]));
    assert_eq!(
        compile(&plugins, &config, vec![], true),
        vec![
            Action {
                id: 0,
                kind: ActionKind::RequireEnvValue("token".to_string(), "TOKEN".to_string()),
            },
            call(0, PluginStep::Prepare),
            get(0, "archive"),
            call(0, PluginStep::Prepare),
            get(0, "archive"),
        ]
    );
}

#[test]
fn every_action_names_a_plugin() {
    let plugins = vec![plugin("x", &[]), plugin("a", &[PluginStep::Commit]), plugin("b", &[])];
    let mut config = Config::new();
    config.steps.push((PluginStep::Commit, StepDefinition::Discover));
    config.steps.push((PluginStep::Notify, StepDefinition::Shared));
    let actions = compile(
        &plugins,
        &config,
        vec![(0, InjectionTarget::BeforeStep(PluginStep::Commit))],
        false,
    );
    assert_eq!(
        actions,
        vec![
            call(0, PluginStep::Commit),
            call(1, PluginStep::Commit),
            call(1, PluginStep::Notify),
            call(2, PluginStep::Notify),
        ]
    );
    for action in &actions {
        assert!(action.id() < plugins.len());
    }
}

#[test]
fn sequence_reports_its_length() {
    let plugins = vec![plugin("a", &[])];
    let mut config = Config::new();
    config.steps.push(plan(PluginStep::PreFlight, &["a"]));
    let sequence = PluginSequence::new(&plugins, &config, vec![], true).unwrap();
    assert_eq!(sequence.len(), 1);
    assert!(!sequence.is_empty());
    assert_eq!(sequence.actions()[0].kind(), &ActionKind::Call(PluginStep::PreFlight));
    let action = Action::new(4, ActionKind::Get("k".to_string()));
    assert_eq!(action.id(), 4);
    assert_eq!(action.into_kind(), ActionKind::Get("k".to_string()));
}

#[test]
fn every_publisher_is_read_before_the_use() {
    let plugins = vec![
        with_source(plugin("first", &[]), "notes", PluginStep::GenerateNotes),
        with_sink(plugin("consumer", &[]), "notes", PluginStep::Publish),
        with_source(plugin("second", &[]), "notes", PluginStep::Prepare),
    ];
    let mut config = Config::new();
    config.steps.push(plan(PluginStep::GenerateNotes, &["first"]));
    config.steps.push(plan(PluginStep::Prepare, &["second"]));
    config.steps.push(plan(PluginStep::Publish, &["consumer"]));
    let actions = compile(&plugins, &config, vec![], false);
    assert_eq!(
        actions,
        vec![
            call(0, PluginStep::GenerateNotes),
            get(0, "notes"),
            call(2, PluginStep::Prepare),
            get(2, "notes"),
            set_from(1, "notes"),
            call(1, PluginStep::Publish),
        ]
    );
    let used = position(&actions, &set_from(1, "notes"));
    assert!(position(&actions, &get(0, "notes")) < used);
    assert!(position(&actions, &get(2, "notes")) < used);
}

#[test]
fn key_needed_for_two_steps_is_written_before_each() {
    let plugins = vec![with_env_sink(
        with_env_sink(plugin("a", &[]), "token", PluginStep::PreFlight, "TOKEN"),
        "token",
        PluginStep::Publish,
        "TOKEN",
    )];
    let mut config = Config::new();
    config.steps.push(plan(PluginStep::PreFlight, &["a"]));
    config.steps.push(plan(PluginStep::Publish, &["a"]));
    let write =
        Action { id: 0, kind: ActionKind::RequireEnvValue("token".to_string(), "TOKEN".to_string()) };
    assert_eq!(
        compile(&plugins, &config, vec![], false),
        vec![
            write.clone(),
            call(0, PluginStep::PreFlight),
            write.clone(),
            call(0, PluginStep::Publish),
        ]
    );
}

#[test]
fn key_needed_for_one_step_is_written_only_before_its_call() {
    let plugins = vec![with_env_sink(plugin("a", &[]), "token", PluginStep::Prepare, "TOKEN")];
    let mut config = Config::new();
    config.steps.push(plan(PluginStep::PreFlight, &["a"]));
    config.steps.push(plan(PluginStep::Prepare, &["a", "a"]));
    config.steps.push(plan(PluginStep::Publish, &["a"]));
    let actions = compile(&plugins, &config, vec![], false);
    let write =
        Action { id: 0, kind: ActionKind::RequireEnvValue("token".to_string(), "TOKEN".to_string()) };
    let writes: Vec<usize> =
        actions.iter().enumerate().filter(|(_, a)| **a == write).map(|(i, _)| i).collect();
    assert_eq!(writes, vec![1]);
    assert_eq!(position(&actions, &call(0, PluginStep::Prepare)), 2);
}
