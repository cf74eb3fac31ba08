//! Running one action.
//!
//! An action first asks the kernel for what it needs: a plugin id inside the
//! plugin list and, for an action that writes into a plugin, the value to
//! write. Where that fails the plugin is not touched. Otherwise the plugin is
//! called, and what it answers is the plugin's decision.

use vstd::prelude::*;
use crate::assoc::{find_key, keys_of, lookup, pairs_view, string_keys};
use crate::data_mgr::{DataManager, DataView, prepare_value_same_key_spec, prepare_value_spec};
use crate::error::{Error, ErrorView, PluginError};
use crate::graph::{Action, ActionKind, ActionKindView, ActionView};
use crate::plugin::{Plugin, PluginInterface, call_step, declarations_view, read_view};
use crate::value::{KeyValue, KeyValueView, env_value, env_value_spec};

verus! {

/// The environment of a run: variables and their text.
pub type Environment = Vec<(String, String)>;

/// A key of a plugin and the value to write there.
pub ghost struct InputView {
    pub key: Seq<char>,
    pub value: KeyValueView<serde_json::Value>,
}

/// The value that an action writes into its plugin, or why there is none.
/// Calls and reads write nothing.
pub open spec fn input_spec(
    data: DataView,
    env: Seq<(Seq<char>, Seq<char>)>,
    action: ActionView,
) -> Option<Result<InputView, ErrorView>> {
    match action.kind {
        ActionKindView::Call(_) => None,
        ActionKindView::Get(_) => None,
        ActionKindView::SetFrom(dst_key, src_key) => Some(
            match prepare_value_spec(data, action.id, dst_key, src_key) {
                Ok(value) => Ok(InputView { key: dst_key, value }),
                Err(e) => Err(e),
            },
        ),
        ActionKindView::SetValue(dst_key, json) => Some(
            Ok(
                InputView {
                    key: dst_key,
                    value: KeyValueView { source_key: dst_key, value: Some(json) },
                },
            ),
        ),
        ActionKindView::RequireConfigEntry(dst_key) => Some(
            match prepare_value_same_key_spec(data, action.id, dst_key) {
                Ok(value) => Ok(InputView { key: dst_key, value }),
                Err(e) => Err(e),
            },
        ),
        ActionKindView::RequireEnvValue(dst_key, name) => Some(
            match lookup(env, name) {
                Some(text) => Ok(InputView { key: dst_key, value: env_value_spec(name, text) }),
                None => Err(ErrorView::EnvValueUndefined(name)),
            },
        ),
    }
}

/// The error that stops an action before its plugin is called, if there is one.
pub open spec fn blocked_by(
    data: DataView,
    env: Seq<(Seq<char>, Seq<char>)>,
    count: nat,
    action: ActionView,
) -> Option<ErrorView> {
    if action.id >= count {
        Some(ErrorView::InvariantViolation)
    } else {
        match input_spec(data, env, action) {
            Some(Err(e)) => Some(e),
            _ => None,
        }
    }
}

/// The value that an action writes into its plugin, or why there is none.
pub fn input_for(data_mgr: &DataManager, env: &Environment, action: &Action) -> (r: Option<
    Result<(String, KeyValue<serde_json::Value>), Error>,
>)
    ensures
        match r {
            None => input_spec(data_mgr@, pairs_view(env@), action@) is None,
            Some(Ok(input)) => input_spec(data_mgr@, pairs_view(env@), action@) == Some(
                Ok::<InputView, ErrorView>(InputView { key: input.0@, value: input.1@ }),
            ),
            Some(Err(e)) => input_spec(data_mgr@, pairs_view(env@), action@) == Some(
                Err::<InputView, ErrorView>(e@),
            ),
        },
{
    match &action.kind {
        ActionKind::Call(_) => None,
        ActionKind::Get(_) => None,
        ActionKind::SetFrom(dst_key, src_key) => Some(
            match data_mgr.prepare_value(action.id, dst_key, src_key) {
                Ok(value) => Ok((dst_key.clone(), value)),
                Err(e) => Err(e),
            },
        ),
        ActionKind::SetValue(dst_key, json) => Some(
            Ok((dst_key.clone(), KeyValue::builder(dst_key.as_str()).value(json.clone()).build())),
        ),
        ActionKind::RequireConfigEntry(dst_key) => Some(
            match data_mgr.prepare_value_same_key(action.id, dst_key) {
                Ok(value) => Ok((dst_key.clone(), value)),
                Err(e) => Err(e),
            },
        ),
        ActionKind::RequireEnvValue(dst_key, name) => {
            proof {
                assert(keys_of(pairs_view(env@)) =~= string_keys(env@));
            }
            Some(
                match find_key(env, name) {
                    Some(i) => Ok((dst_key.clone(), env_value(name.as_str(), &env[i].1))),
                    None => Err(Error::EnvValueUndefined(name.clone())),
                },
            )
        },
    }
}

/// What a plugin's answer to an action means for the run: success goes on, a
/// failure is handed on as the plugin's error.
pub fn plugin_outcome(answer: Result<(), PluginError>) -> (r: Result<(), Error>)
    ensures
        match answer {
            Ok(()) => r is Ok,
            Err(cause) => r == Err::<(), Error>(Error::PluginError(cause)),
        },
{
    match answer {
        Ok(()) => Ok(()),
        Err(cause) => Err(Error::PluginError(cause)),
    }
}

/// The answer of a plugin that the outcome of an action hands on: success,
/// or the message of the plugin's error. Any other error is no answer of a plugin.
pub open spec fn handed_on(r: Result<(), Error>) -> Option<Result<(), Seq<char>>> {
    match r {
        Ok(()) => Some(Ok(())),
        Err(Error::PluginError(cause)) => Some(Err(cause@)),
        Err(_) => None,
    }
}

/// Whether the store `after` is the store `before` with `value` published
/// under `key`: that key holds the value, and every other key what it held.
pub open spec fn is_published(
    after: DataView,
    before: DataView,
    key: Seq<char>,
    value: KeyValueView<serde_json::Value>,
) -> bool {
    &&& after.config == before.config
    &&& after.names == before.names
    &&& forall|k: Seq<char>| #[trigger]
        lookup(after.global, k) == if k == key {
            Some(value)
        } else {
            lookup(before.global, k)
        }
}

/// Whether the plugin list `after` is the list `before` but for the handle
/// of the plugin `id`.
pub open spec fn is_touched_at<P>(after: Seq<Plugin<P>>, before: Seq<Plugin<P>>, id: int) -> bool {
    &&& after.len() == before.len()
    &&& 0 <= id < before.len()
    &&& after[id].name == before[id].name
    &&& after[id].declaration == before[id].declaration
    &&& forall|j: int| 0 <= j < before.len() && j != id ==> #[trigger] after[j] == before[j]
}

/// Whether a read of `key` from `handle` with the outcome `r` takes the store
/// `before` to the store `after`: the plugin answered with a value, which is
/// then published under the key as a value that comes from the key; or the
/// plugin answered with a failure, which is handed on, and nothing is published.
pub open spec fn is_read<P: PluginInterface>(
    handle: P,
    key: Seq<char>,
    before: DataView,
    after: DataView,
    r: Result<(), Error>,
) -> bool {
    match r {
        Ok(()) => exists|json: serde_json::Value|
            #[trigger] handle.answers_get(key, Ok(json)) && is_published(
                after,
                before,
                key,
                KeyValueView { source_key: key, value: Some(json) },
            ),
        Err(e) => after == before && exists|cause: Seq<char>|
            #[trigger] handle.answers_get(key, Err(cause)) && e@ == ErrorView::PluginError(cause),
    }
}

/// What running one action does.
///
/// An action that names no plugin is an invariant violation, and one whose
/// value cannot be had fails with the error of that: both change nothing.
/// Otherwise the plugin that the action names is asked, and no other plugin
/// changes. A write hands the plugin the value that the action stands for, a
/// call runs the routine of the step, and the outcome hands on the plugin's
/// answer; neither changes what is published. A read leaves the plugins as
/// they are and publishes what the plugin answers.
pub open spec fn is_performed<P: PluginInterface>(
    plugins: Seq<Plugin<P>>,
    data: DataView,
    env: Seq<(Seq<char>, Seq<char>)>,
    action: ActionView,
    plugins_after: Seq<Plugin<P>>,
    data_after: DataView,
    r: Result<(), Error>,
) -> bool {
    if action.id >= plugins.len() {
        &&& r is Err
        &&& r->Err_0@ == ErrorView::InvariantViolation
        &&& plugins_after == plugins
        &&& data_after == data
    } else {
        let id = action.id as int;
        let handle = plugins[id].handle;
        let left = plugins_after[id].handle;
        match input_spec(data, env, action) {
            Some(Err(e)) => {
                &&& r is Err
                &&& r->Err_0@ == e
                &&& plugins_after == plugins
                &&& data_after == data
            },
            Some(Ok(input)) => {
                &&& data_after == data
                &&& is_touched_at(plugins_after, plugins, id)
                &&& match handed_on(r) {
                    Some(answer) => handle.answers_set(input.key, input.value, answer)
                        && left.is_left_by_set(input.key, input.value, answer),
                    None => false,
                }
            },
            None => match action.kind {
                ActionKindView::Call(step) => {
                    &&& data_after == data
                    &&& is_touched_at(plugins_after, plugins, id)
                    &&& match handed_on(r) {
                        Some(answer) => handle.answers_step(step, answer) && left.is_left_by_step(
                            step,
                            answer,
                        ),
                        None => false,
                    }
                },
                ActionKindView::Get(key) => {
                    &&& plugins_after == plugins
                    &&& is_read(handle, key, data, data_after, r)
                },
                _ => false,
            },
        }
    }
}

/// Makes of a plugin's answer to a read of `key` what the run needs: a value
/// is published under the key, as a value that comes from the key, and the
/// read succeeds; a failure is handed on as the plugin's error and nothing
/// is published.
pub fn publish_answer(
    data_mgr: &mut DataManager,
    key: &String,
    answer: Result<serde_json::Value, PluginError>,
) -> (r: Result<(), Error>)
    ensures
        match answer {
            Ok(json) => r is Ok && is_published(
                final(data_mgr)@,
                old(data_mgr)@,
                key@,
                KeyValueView { source_key: key@, value: Some(json) },
            ),
            Err(cause) => r == Err::<(), Error>(Error::PluginError(cause)) && final(data_mgr)@
                == old(data_mgr)@,
        },
{
    match answer {
        Ok(json) => {
            let value = KeyValue::builder(key.as_str()).value(json).build();
            let ghost before = *data_mgr;
            data_mgr.insert_global(key.clone(), value);
            proof {
                assert forall|k: Seq<char>| #[trigger]
                    lookup(data_mgr@.global, k) == if k == key@ {
                        Some(value@)
                    } else {
                        lookup(before@.global, k)
                    } by {
                    assert(data_mgr.published(k) == lookup(data_mgr@.global, k));
                    assert(before.published(k) == lookup(before@.global, k));
                }
            }
            Ok(())
        },
        Err(cause) => Err(Error::PluginError(cause)),
    }
}

/// Runs one action.
///
/// An action that is stopped before its plugin is called fails with the
/// error that stops it and changes nothing. Otherwise the plugin that the
/// action names is asked, and what it answers is its decision: a write hands
/// it the value that the action stands for, a call runs the routine of the
/// step, and a read publishes the value that the plugin answers under the
/// key that was read. An error of the plugin is handed on as it is.
pub fn perform<P: PluginInterface>(
    plugins: &mut Vec<Plugin<P>>,
    data_mgr: &mut DataManager,
    env: &Environment,
    action: &Action,
) -> (r: Result<(), Error>)
    ensures
        is_performed(
            old(plugins)@,
            old(data_mgr)@,
            pairs_view(env@),
            action@,
            final(plugins)@,
            final(data_mgr)@,
            r,
        ),
        declarations_view(final(plugins)@) == declarations_view(old(plugins)@),
        final(data_mgr)@.config == old(data_mgr)@.config,
        final(data_mgr)@.names == old(data_mgr)@.names,
        match blocked_by(old(data_mgr)@, pairs_view(env@), old(plugins)@.len(), action@) {
            Some(e) => r is Err && r->Err_0@ == e,
            None => r is Ok || r->Err_0 is PluginError,
        },
{
    let id = action.id;
    if id >= plugins.len() {
        return Err(Error::InvariantViolation);
    }
    let ghost before = declarations_view(plugins@);
    let ghost given = plugins@[id as int].handle;
    match input_for(data_mgr, env, action) {
        Some(Err(e)) => Err(e),
        Some(Ok(input)) => {
            let answer = plugins[id].handle.set_value(input.0.as_str(), input.1);
            proof {
                assert(declarations_view(plugins@) =~= before);
            }
            plugin_outcome(answer)
        },
        None => match &action.kind {
            ActionKind::Call(step) => {
                let answer = call_step(&mut plugins[id].handle, *step);
                proof {
                    assert(declarations_view(plugins@) =~= before);
                }
                plugin_outcome(answer)
            },
            ActionKind::Get(src_key) => {
                let answer = plugins[id].handle.get_value(src_key.as_str());
                proof {
                    assert(given.answers_get(src_key@, read_view(answer)));
                }
                publish_answer(data_mgr, src_key, answer)
            },
            _ => Ok(()),
        },
    }
}

/// What a run has reached: the plugins and the store.
pub ghost struct RunState<P> {
    pub plugins: Seq<Plugin<P>>,
    pub data: DataView,
}

/// The outcome of the action at position `i` in a run of `count` states that
/// ends with `r`: every action but the last succeeded, and the last one ended
/// with `r`.
pub open spec fn outcome_at(count: int, i: int, r: Result<(), Error>) -> Result<(), Error> {
    if r is Err && i == count - 2 {
        r
    } else {
        Ok(())
    }
}

/// Whether, in the states that a run passes through, the action at position
/// `i` takes state `i` to state `i + 1`, with its outcome in that run.
pub open spec fn is_step_of<P: PluginInterface>(
    states: Seq<RunState<P>>,
    env: Seq<(Seq<char>, Seq<char>)>,
    actions: Seq<ActionView>,
    r: Result<(), Error>,
    i: int,
) -> bool {
    is_performed(
        states[i].plugins,
        states[i].data,
        env,
        actions[i],
        states[i + 1].plugins,
        states[i + 1].data,
        outcome_at(states.len() as int, i, r),
    )
}

/// Whether `states` are the states that a run of `actions` from `start`
/// passes through when it ends with `r`: the actions are performed in order,
/// each on the state that the one before it left. A run that succeeds
/// performs every action, with success. A run that fails performs the
/// actions up to the first that fails, and `r` is the outcome of that one.
pub open spec fn is_run_trace<P: PluginInterface>(
    states: Seq<RunState<P>>,
    start: RunState<P>,
    env: Seq<(Seq<char>, Seq<char>)>,
    actions: Seq<ActionView>,
    r: Result<(), Error>,
) -> bool {
    &&& 1 <= states.len() <= actions.len() + 1
    &&& states[0] == start
    &&& forall|i: int| 0 <= i < states.len() - 1 ==> #[trigger] is_step_of(states, env, actions, r, i)
    &&& match r {
        Ok(()) => states.len() == actions.len() + 1,
        Err(_) => states.len() >= 2,
    }
}

/// Whether `r` is an outcome of running `actions` from `start`.
pub open spec fn is_run<P: PluginInterface>(
    start: RunState<P>,
    env: Seq<(Seq<char>, Seq<char>)>,
    actions: Seq<ActionView>,
    r: Result<(), Error>,
) -> bool {
    exists|states: Seq<RunState<P>>| is_run_trace(states, start, env, actions, r)
}

/// A run that succeeds was never stopped: every action named a plugin, and
/// every value that an action writes could be had when the action ran, from
/// what was published by then, from the configuration or from the environment.
pub proof fn law_successful_run_was_never_stopped<P: PluginInterface>(
    states: Seq<RunState<P>>,
    start: RunState<P>,
    env: Seq<(Seq<char>, Seq<char>)>,
    actions: Seq<ActionView>,
)
    requires
        is_run_trace(states, start, env, actions, Ok::<(), Error>(())),
    ensures
        forall|i: int|
            0 <= i < actions.len() ==> blocked_by(
                (#[trigger] states[i]).data,
                env,
                states[i].plugins.len(),
                actions[i],
            ) is None,
{
    assert forall|i: int| 0 <= i < actions.len() implies blocked_by(
        (#[trigger] states[i]).data,
        env,
        states[i].plugins.len(),
        actions[i],
    ) is None by {
        assert(is_step_of(states, env, actions, Ok::<(), Error>(()), i));
    }
}

/// A run that fails ends with the error that stops its first failing action,
/// where that action is stopped before its plugin is called.
pub proof fn law_failed_run_ends_with_first_failure<P: PluginInterface>(
    states: Seq<RunState<P>>,
    start: RunState<P>,
    env: Seq<(Seq<char>, Seq<char>)>,
    actions: Seq<ActionView>,
    e: Error,
)
    requires
        is_run_trace(states, start, env, actions, Err::<(), Error>(e)),
    ensures
        ({
            let failed = states.len() - 2;
            &&& 0 <= failed < actions.len()
            &&& forall|i: int|
                0 <= i < failed ==> blocked_by(
                    (#[trigger] states[i]).data,
                    env,
                    states[i].plugins.len(),
                    actions[i],
                ) is None
            &&& match blocked_by(
                states[failed].data,
                env,
                states[failed].plugins.len(),
                actions[failed],
            ) {
                Some(stop) => e@ == stop,
                None => e is PluginError,
            }
        }),
{
    let r = Err::<(), Error>(e);
    let failed = states.len() - 2;
    assert(is_step_of(states, env, actions, r, failed));
    assert forall|i: int| 0 <= i < failed implies blocked_by(
        (#[trigger] states[i]).data,
        env,
        states[i].plugins.len(),
        actions[i],
    ) is None by {
        assert(is_step_of(states, env, actions, r, i));
    }
}

} // verus!
