use semantic_rs::config::{Config, FullPluginDefinition, PluginDefinition};
use semantic_rs::data_mgr::DataManager;
use semantic_rs::error::{Error, PluginError};
use semantic_rs::graph::{Action, ActionKind};
use semantic_rs::plugin::{Plugin, PluginDeclaration, PluginInterface};
use semantic_rs::runtime::{input_for, perform, plugin_outcome, publish_answer};
use semantic_rs::step::PluginStep;
use semantic_rs::value::KeyValue;

struct Store {
    held: Vec<(String, KeyValue<serde_json::Value>)>,
    published: Option<serde_json::Value>,
    calls: Vec<PluginStep>,
}

impl Store {
    fn step(&mut self, step: PluginStep) -> Result<(), PluginError> {
        self.calls.push(step);
        Ok(())
    }
}

impl PluginInterface for Store {
    fn name(&self) -> String {
        "store".to_string()
    }

    fn start(&mut self) -> Result<(), PluginError> {
        Ok(())
    }

    fn declaration(&self) -> PluginDeclaration {
        PluginDeclaration { steps: vec![], sources: vec![], sinks: vec![] }
    }

    fn get_value(&self, key: &str) -> Result<serde_json::Value, PluginError> {
        match &self.published {
            Some(v) => Ok(v.clone()),
            None => Err(PluginError { message: format!("{} is unknown", key) }),
        }
    }

    fn set_value(
        &mut self,
        key: &str,
        value: KeyValue<serde_json::Value>,
    ) -> Result<(), PluginError> {
        if key == "forbidden" {
            return Err(PluginError { message: "forbidden".to_string() });
        }
        self.held.push((key.to_string(), value));
        Ok(())
    }

    fn pre_flight(&mut self) -> Result<(), PluginError> {
        self.step(PluginStep::PreFlight)
    }

    fn get_last_release(&mut self) -> Result<(), PluginError> {
        self.step(PluginStep::GetLastRelease)
    }

    fn derive_next_version(&mut self) -> Result<(), PluginError> {
        self.step(PluginStep::DeriveNextVersion)
    }

    fn generate_notes(&mut self) -> Result<(), PluginError> {
        self.step(PluginStep::GenerateNotes)
    }

    fn prepare(&mut self) -> Result<(), PluginError> {
        self.step(PluginStep::Prepare)
    }

    fn verify_release(&mut self) -> Result<(), PluginError> {
        self.step(PluginStep::VerifyRelease)
    }

    fn commit(&mut self) -> Result<(), PluginError> {
        self.step(PluginStep::Commit)
    }

    fn publish(&mut self) -> Result<(), PluginError> {
        self.step(PluginStep::Publish)
    }

    fn notify(&mut self) -> Result<(), PluginError> {
        self.step(PluginStep::Notify)
    }
}

fn text(s: &str) -> serde_json::Value {
    serde_json::Value::String(s.to_string())
}

fn value(key: &str, payload: serde_json::Value) -> KeyValue<serde_json::Value> {
    KeyValue { source_key: key.to_string(), value: Some(payload) }
}

fn plugins(published: Option<serde_json::Value>) -> Vec<Plugin<Store>> {
    vec![Plugin {
        name: "git".to_string(),
        handle: Store { held: vec![], published, calls: vec![] },
        declaration: PluginDeclaration { steps: vec![], sources: vec![], sinks: vec![] },
    }]
}

fn manager() -> DataManager {
    let mut config = Config::new();
    config.cfg.push(("project".to_string(), value("project", text("kernel"))));
    config.plugins.push((
        "git".to_string(),
        PluginDefinition::Full(FullPluginDefinition {
            kind: "git".to_string(),
            version: None,
            options: vec![("branch".to_string(), text("main"))],
        }),
    ));
    DataManager::new(&config, vec!["git".to_string()])
}

fn env() -> Vec<(String, String)> {
    vec![
        ("HOME".to_string(), "/root".to_string()),
        ("TOKEN".to_string(), "t0k3n".to_string()),
        ("TOKEN".to_string(), "shadowed".to_string()),
    ]
}

fn action(kind: ActionKind) -> Action {
    Action { id: 0, kind }
}

#[test]
fn calls_and_reads_write_nothing() {
    let data = manager();
    assert_eq!(input_for(&data, &env(), &action(ActionKind::Call(PluginStep::Commit))), None);
    assert_eq!(input_for(&data, &env(), &action(ActionKind::Get("k".to_string()))), None);
}

#[test]
fn literal_is_written_as_it_is() {
    let data = manager();
    assert_eq!(
        input_for(&data, &env(), &action(ActionKind::SetValue("branch".to_string(), text("dev")))),
        Some(Ok(("branch".to_string(), value("branch", text("dev")))))
    );
}

#[test]
fn environment_value_is_written_under_the_sink_key() {
    let data = manager();
    assert_eq!(
        input_for(
            &data,
            &env(),
            &action(ActionKind::RequireEnvValue("token".to_string(), "TOKEN".to_string()))
        ),
        Some(Ok(("token".to_string(), value("TOKEN", text("t0k3n")))))
    );
    assert_eq!(
        input_for(
            &data,
            &env(),
            &action(ActionKind::RequireEnvValue("token".to_string(), "token".to_string()))
        ),
        Some(Err(Error::EnvValueUndefined("token".to_string())))
    );
}

#[test]
fn published_and_configured_values_are_prepared() {
    let mut data = manager();
    data.insert_global("sha".to_string(), value("sha", text("abc")));
    assert_eq!(
        input_for(
            &data,
            &env(),
            &action(ActionKind::SetFrom("commit".to_string(), "sha".to_string()))
        ),
        Some(Ok(("commit".to_string(), value("sha", text("abc")))))
    );
    assert_eq!(
        input_for(
            &data,
            &env(),
            &action(ActionKind::SetFrom("commit".to_string(), "tag".to_string()))
        ),
        Some(Err(Error::ValueNotAvailable("tag".to_string())))
    );
    assert_eq!(
        input_for(&data, &env(), &action(ActionKind::RequireConfigEntry("project".to_string()))),
        Some(Ok(("project".to_string(), value("project", text("kernel")))))
    );
    assert_eq!(
        input_for(&data, &env(), &action(ActionKind::RequireConfigEntry("missing".to_string()))),
        Some(Err(Error::ValueNotAvailable("missing".to_string())))
    );
}

#[test]
fn plugin_answer_is_handed_on() {
    assert_eq!(plugin_outcome(Ok(())), Ok(()));
    assert_eq!(
        plugin_outcome(Err(PluginError { message: "m".to_string() })),
        Err(Error::PluginError(PluginError { message: "m".to_string() }))
    );
}

#[test]
fn call_runs_the_step() {
    let mut list = plugins(None);
    let mut data = manager();
    assert_eq!(
        perform(&mut list, &mut data, &env(), &action(ActionKind::Call(PluginStep::Prepare))),
        Ok(())
    );
    assert_eq!(list[0].handle.calls, vec![PluginStep::Prepare]);
    assert!(data.global.is_empty());
}

#[test]
fn read_publishes_what_the_plugin_returns() {
    let mut list = plugins(Some(text("1.0.0")));
    let mut data = manager();
    assert_eq!(
        perform(&mut list, &mut data, &env(), &action(ActionKind::Get("version".to_string()))),
        Ok(())
    );
    assert_eq!(data.global, vec![("version".to_string(), value("version", text("1.0.0")))]);
}

#[test]
fn failed_read_publishes_nothing() {
    let mut list = plugins(None);
    let mut data = manager();
    assert_eq!(
        perform(&mut list, &mut data, &env(), &action(ActionKind::Get("version".to_string()))),
        Err(Error::PluginError(PluginError { message: "version is unknown".to_string() }))
    );
    assert!(data.global.is_empty());
}

#[test]
fn write_hands_the_prepared_value_to_the_plugin() {
    let mut list = plugins(None);
    let mut data = manager();
    data.insert_global("current".to_string(), value("current", text("develop")));
    assert_eq!(
        perform(
            &mut list,
            &mut data,
            &env(),
            &action(ActionKind::SetFrom("branch".to_string(), "current".to_string()))
        ),
        Ok(())
    );
    assert_eq!(
        perform(
            &mut list,
            &mut data,
            &env(),
            &action(ActionKind::RequireEnvValue("home".to_string(), "HOME".to_string()))
        ),
        Ok(())
    );
    assert_eq!(
        list[0].handle.held,
        vec![
            ("branch".to_string(), value("current", text("main"))),
            ("home".to_string(), value("HOME", text("/root"))),
        ]
    );
}

#[test]
fn stopped_action_leaves_the_plugin_alone() {
    let mut list = plugins(None);
    let mut data = manager();
    assert_eq!(
        perform(
            &mut list,
            &mut data,
            &env(),
            &action(ActionKind::RequireEnvValue("x".to_string(), "UNSET".to_string()))
        ),
        Err(Error::EnvValueUndefined("UNSET".to_string()))
    );
    assert_eq!(
        perform(
            &mut list,
            &mut data,
            &env(),
            &Action { id: 1, kind: ActionKind::Call(PluginStep::Commit) }
        ),
        Err(Error::InvariantViolation)
    );
    assert!(list[0].handle.held.is_empty());
    assert!(list[0].handle.calls.is_empty());
}

#[test]
fn plugin_may_refuse_a_value() {
    let mut list = plugins(None);
    let mut data = manager();
    assert_eq!(
        perform(
            &mut list,
            &mut data,
            &env(),
            &action(ActionKind::SetValue("forbidden".to_string(), text("x")))
        ),
        Err(Error::PluginError(PluginError { message: "forbidden".to_string() }))
    );
}

#[test]
fn answer_to_a_read_is_published_under_the_key() {
    let mut data = manager();
    data.insert_global("version".to_string(), value("version", text("0.9.0")));
    assert_eq!(publish_answer(&mut data, &"version".to_string(), Ok(text("1.0.0"))), Ok(()));
    assert_eq!(publish_answer(&mut data, &"tag".to_string(), Ok(text("v1"))), Ok(()));
    assert_eq!(
        data.global,
        vec![
            ("version".to_string(), value("version", text("1.0.0"))),
            ("tag".to_string(), value("tag", text("v1"))),
        ]
    );
}

#[test]
fn failed_answer_to_a_read_is_handed_on() {
    let mut data = manager();
    data.insert_global("version".to_string(), value("version", text("0.9.0")));
    assert_eq!(
        publish_answer(
            &mut data,
            &"version".to_string(),
            Err(PluginError { message: "no tags".to_string() })
        ),
        Err(Error::PluginError(PluginError { message: "no tags".to_string() }))
    );
    assert_eq!(data.global, vec![("version".to_string(), value("version", text("0.9.0")))]);
}

#[test]
fn value_read_from_one_plugin_is_the_value_written_into_the_next() {
    let mut list = plugins(Some(text("1.2.3")));
    list.push(Plugin {
        name: "docker".to_string(),
        handle: Store { held: vec![], published: None, calls: vec![] },
        declaration: PluginDeclaration { steps: vec![], sources: vec![], sinks: vec![] },
    });
    let mut config = Config::new();
    config.plugins.push(("git".to_string(), PluginDefinition::Short("git".to_string())));
    config.plugins.push(("docker".to_string(), PluginDefinition::Short("docker".to_string())));
    let mut data = DataManager::new(&config, vec!["git".to_string(), "docker".to_string()]);
    assert_eq!(
        perform(&mut list, &mut data, &env(), &action(ActionKind::Get("next_version".to_string()))),
        Ok(())
    );
    assert_eq!(
        perform(
            &mut list,
            &mut data,
            &env(),
            &Action {
                id: 1,
                kind: ActionKind::SetFrom("next_version".to_string(), "next_version".to_string()),
            }
        ),
        Ok(())
    );
    assert!(list[0].handle.held.is_empty());
    assert_eq!(
        list[1].handle.held,
        vec![("next_version".to_string(), value("next_version", text("1.2.3")))]
    );
}
