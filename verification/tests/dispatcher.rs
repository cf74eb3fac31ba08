use semantic_rs::dispatcher::PluginDispatcher;
use semantic_rs::error::{Error, PluginError};
use semantic_rs::plugin::{Plugin, PluginDeclaration, PluginInterface};
use semantic_rs::step::PluginStep;
use semantic_rs::value::KeyValue;

struct Counter {
    calls: Vec<PluginStep>,
    fails: bool,
}

impl Counter {
    fn step(&mut self, step: PluginStep) -> Result<(), PluginError> {
        self.calls.push(step);
        if self.fails {
            Err(PluginError { message: "refused".to_string() })
        } else {
            Ok(())
        }
    }
}

impl PluginInterface for Counter {
    fn name(&self) -> String {
        "counter".to_string()
    }

    fn start(&mut self) -> Result<(), PluginError> {
        Ok(())
    }

    fn declaration(&self) -> PluginDeclaration {
        PluginDeclaration { steps: vec![], sources: vec![], sinks: vec![] }
    }

    fn get_value(&self, _key: &str) -> Result<serde_json::Value, PluginError> {
        Ok(serde_json::Value::Null)
    }

    fn set_value(
        &mut self,
        _key: &str,
        _value: KeyValue<serde_json::Value>,
    ) -> Result<(), PluginError> {
        Ok(())
    }

    fn pre_flight(&mut self) -> Result<(), PluginError> {
        self.step(PluginStep::PreFlight)
    }

    fn get_last_release(&mut self) -> Result<(), PluginError> {
        self.step(PluginStep::GetLastRelease)
    }

    fn derive_next_version(&mut self) -> Result<(), PluginError> {
        self.step(PluginStep::DeriveNextVersion)
    }

    fn generate_notes(&mut self) -> Result<(), PluginError> {
        self.step(PluginStep::GenerateNotes)
    }

    fn prepare(&mut self) -> Result<(), PluginError> {
        self.step(PluginStep::Prepare)
    }

    fn verify_release(&mut self) -> Result<(), PluginError> {
        self.step(PluginStep::VerifyRelease)
    }

    fn commit(&mut self) -> Result<(), PluginError> {
        self.step(PluginStep::Commit)
    }

    fn publish(&mut self) -> Result<(), PluginError> {
        self.step(PluginStep::Publish)
    }

    fn notify(&mut self) -> Result<(), PluginError> {
        self.step(PluginStep::Notify)
    }
}

fn plugin(name: &str, fails: bool) -> Plugin<Counter> {
    Plugin {
        name: name.to_string(),
        handle: Counter { calls: vec![], fails },
        declaration: PluginDeclaration { steps: vec![], sources: vec![], sinks: vec![] },
    }
}

fn plugins() -> Vec<Plugin<Counter>> {
    vec![plugin("a", false), plugin("b", false), plugin("c", false)]
}

fn dispatcher() -> PluginDispatcher {
    PluginDispatcher::new(
        vec![],
        vec![
            (PluginStep::PreFlight, vec![2, 0]),
            (PluginStep::GetLastRelease, vec![1]),
            (PluginStep::Notify, vec![0, 5]),
            (PluginStep::PreFlight, vec![1]),
            (PluginStep::Commit, vec![]),
        ],
    )
}

#[test]
fn mapped_plugins_are_those_of_the_first_entry_of_the_step() {
    let d = dispatcher();
    assert_eq!(d.mapped_plugins(PluginStep::PreFlight), Some(&vec![2, 0]));
    assert_eq!(d.mapped_plugins(PluginStep::Commit), Some(&vec![]));
    assert_eq!(d.mapped_plugins(PluginStep::Publish), None);
}

#[test]
fn singleton_is_the_one_mapped_plugin() {
    let d = dispatcher();
    assert!(d.is_singleton_mapped(PluginStep::GetLastRelease));
    assert!(!d.is_singleton_mapped(PluginStep::PreFlight));
    assert!(!d.is_singleton_mapped(PluginStep::Commit));
    assert!(!d.is_singleton_mapped(PluginStep::Publish));
    assert_eq!(d.mapped_singleton(PluginStep::GetLastRelease), 1);
}

#[test]
fn dispatch_runs_the_step_on_each_mapped_plugin_in_order() {
    let d = dispatcher();
    let mut list = plugins();
    assert_eq!(d.pre_flight(&mut list), Ok(vec!["c".to_string(), "a".to_string()]));
    assert_eq!(list[0].handle.calls, vec![PluginStep::PreFlight]);
    assert_eq!(list[1].handle.calls, vec![]);
    assert_eq!(list[2].handle.calls, vec![PluginStep::PreFlight]);
}

#[test]
fn dispatch_of_a_step_without_plugins_does_nothing() {
    let d = dispatcher();
    let mut list = plugins();
    assert_eq!(d.publish(&mut list), Ok(vec![]));
    assert_eq!(d.commit(&mut list), Ok(vec![]));
    assert_eq!(d.derive_next_version(&mut list), Ok(vec![]));
    assert_eq!(d.generate_notes(&mut list), Ok(vec![]));
    assert_eq!(d.prepare(&mut list), Ok(vec![]));
    assert_eq!(d.verify_release(&mut list), Ok(vec![]));
    for p in &list {
        assert!(p.handle.calls.is_empty());
    }
}

#[test]
fn dispatch_stops_at_the_first_failure() {
    let d = dispatcher();
    let mut list = vec![plugin("a", false), plugin("b", false), plugin("c", true)];
    assert_eq!(
        d.pre_flight(&mut list),
        Err(Error::PluginError(PluginError { message: "refused".to_string() }))
    );
    assert!(list[0].handle.calls.is_empty());
}

#[test]
fn dispatch_to_an_unknown_plugin_is_an_invariant_violation() {
    let d = dispatcher();
    let mut list = plugins();
    assert_eq!(d.notify(&mut list), Err(Error::InvariantViolation));
    assert_eq!(list[0].handle.calls, vec![PluginStep::Notify]);
}

#[test]
fn singleton_dispatch_names_the_plugin() {
    let d = dispatcher();
    let mut list = plugins();
    assert_eq!(d.get_last_release(&mut list), Ok("b".to_string()));
    assert_eq!(list[1].handle.calls, vec![PluginStep::GetLastRelease]);
    let mut short = vec![plugin("a", false)];
    assert_eq!(d.get_last_release(&mut short), Err(Error::InvariantViolation));
    assert_eq!(
        d.dispatch_singleton(&mut vec![plugin("a", false), plugin("b", true)], PluginStep::GetLastRelease),
        Err(Error::PluginError(PluginError { message: "refused".to_string() }))
    );
    assert_eq!(d.dispatch(&mut list, PluginStep::GetLastRelease), Ok(vec!["b".to_string()]));
}
