//! The data manager: the store of published values, and the values that are
//! prepared for a plugin from the store and the configuration.

use vstd::prelude::*;
use crate::assoc::{
    find_key, first_index, keys_of, lemma_first_index_push, lemma_first_index_sound, lookup,
    names_view, string_keys,
};
use crate::config::{CfgMap, Config, ConfigView, cfg_view};
use crate::error::{Error, ErrorView};
use crate::graph::{literal, literal_for};
use crate::plugin::PluginId;
use crate::value::{KeyValue, KeyValueView};

verus! {

/// Owns the published values of a run and reads the configuration.
pub struct DataManager {
    /// The published values, by key.
    pub global: CfgMap,
    /// The configuration of the run.
    pub config: Config,
    /// The name of each plugin, by plugin id.
    pub names: Vec<String>,
}

/// The mathematical content of a [`DataManager`].
pub ghost struct DataView {
    pub global: Seq<(Seq<char>, KeyValueView<serde_json::Value>)>,
    pub config: ConfigView,
    pub names: Seq<Seq<char>>,
}

impl View for DataManager {
    type V = DataView;

    open spec fn view(&self) -> DataView {
        DataView {
            global: cfg_view(self.global@),
            config: self.config@,
            names: names_view(self.names@),
        }
    }
}

/// A value for a plugin: the override that the plugin's definition gives for
/// the key, and the payload found where there is no override.
pub open spec fn merged(
    over: Option<serde_json::Value>,
    found: Option<serde_json::Value>,
) -> Option<serde_json::Value> {
    match over {
        Some(json) => Some(json),
        None => found,
    }
}

/// The value prepared for the plugin `id` at `dst_key` from what is published
/// under `src_key`.
pub open spec fn prepare_value_spec(
    data: DataView,
    id: PluginId,
    dst_key: Seq<char>,
    src_key: Seq<char>,
) -> Result<KeyValueView<serde_json::Value>, ErrorView> {
    if id >= data.names.len() {
        Err(ErrorView::InvariantViolation)
    } else {
        match lookup(data.global, src_key) {
            None => Err(ErrorView::ValueNotAvailable(src_key)),
            Some(found) => Ok(
                KeyValueView {
                    source_key: src_key,
                    value: merged(
                        literal_for(data.config, data.names[id as int], dst_key),
                        found.value,
                    ),
                },
            ),
        }
    }
}

/// The value prepared for the plugin `id` at `dst_key` from what is published
/// under the same key or, where nothing is, from the configuration entry of that key.
pub open spec fn prepare_value_same_key_spec(data: DataView, id: PluginId, dst_key: Seq<char>) -> Result<
    KeyValueView<serde_json::Value>,
    ErrorView,
> {
    if id >= data.names.len() {
        Err(ErrorView::InvariantViolation)
    } else {
        let found = match lookup(data.global, dst_key) {
            Some(published) => Some(published),
            None => lookup(data.config.cfg, dst_key),
        };
        match found {
            None => Err(ErrorView::ValueNotAvailable(dst_key)),
            Some(base) => Ok(
                KeyValueView {
                    source_key: dst_key,
                    value: merged(
                        literal_for(data.config, data.names[id as int], dst_key),
                        base.value,
                    ),
                },
            ),
        }
    }
}

/// The override where there is one, the payload found otherwise.
pub fn merge(over: Option<serde_json::Value>, found: Option<serde_json::Value>) -> (r: Option<
    serde_json::Value,
>)
    ensures
        r == merged(over, found),
{
    match over {
        Some(json) => Some(json),
        None => found,
    }
}

impl DataManager {
    /// A data manager for a run with the given configuration and plugin names,
    /// with nothing published.
    pub fn new(config: &Config, names: Vec<String>) -> (r: DataManager)
        ensures
            r@ == (DataView {
                global: Seq::empty(),
                config: config@,
                names: names_view(names@),
            }),
    {
        let data = DataManager { global: Vec::new(), config: config.duplicate(), names };
        assert(cfg_view(data.global@) =~= Seq::empty());
        data
    }

    /// What is published under `key`.
    pub open spec fn published(&self, key: Seq<char>) -> Option<KeyValueView<serde_json::Value>> {
        lookup(self@.global, key)
    }

    /// Publishes a value under a key. The last value published under a key is
    /// the one that counts; every other key keeps what it had.
    pub fn insert_global(&mut self, key: String, value: KeyValue<serde_json::Value>)
        ensures
            forall|k: Seq<char>|
                #[trigger] final(self).published(k) == if k == key@ {
                    Some(value@)
                } else {
                    old(self).published(k)
                },
            final(self)@.config == old(self)@.config,
            final(self)@.names == old(self)@.names,
    {
        let ghost before = cfg_view(self.global@);
        let ghost keys = string_keys(self.global@);
        proof {
            assert(keys_of(before) =~= keys);
        }
        match find_key(&self.global, &key) {
            Some(i) => {
                self.global.set(i, (key, value));
                proof {
                    let after = cfg_view(self.global@);
                    assert(keys_of(after) =~= keys);
                    assert forall|k: Seq<char>| #[trigger]
                        lookup(after, k) == if k == key@ {
                            Some(value@)
                        } else {
                            lookup(before, k)
                        } by {
                        lemma_first_index_sound(keys, k);
                        lemma_first_index_sound(keys, key@);
                        match first_index(keys, k) {
                            Some(j) => {
                                if j == i as int {
                                    assert(keys[j] == k);
                                } else {
                                    assert(after[j] == before[j]);
                                }
                            },
                            None => {},
                        }
                    }
                }
            },
            None => {
                self.global.push((key, value));
                proof {
                    let after = cfg_view(self.global@);
                    assert(keys_of(after) =~= keys.push(key@));
                    assert forall|k: Seq<char>| #[trigger]
                        lookup(after, k) == if k == key@ {
                            Some(value@)
                        } else {
                            lookup(before, k)
                        } by {
                        lemma_first_index_push(keys, key@, k);
                        lemma_first_index_sound(keys, k);
                        match first_index(keys, k) {
                            Some(j) => {
                                assert(after[j] == before[j]);
                                assert(keys[j] == k);
                            },
                            None => {},
                        }
                    }
                }
            },
        }
    }

    /// Prepares the value for the plugin `id` at `dst_key` from what is
    /// published under `src_key`.
    pub fn prepare_value(&self, id: PluginId, dst_key: &String, src_key: &String) -> (r: Result<
        KeyValue<serde_json::Value>,
        Error,
    >)
        ensures
            match r {
                Ok(value) => prepare_value_spec(self@, id, dst_key@, src_key@) == Ok::<
                    KeyValueView<serde_json::Value>,
                    ErrorView,
                >(value@),
                Err(e) => prepare_value_spec(self@, id, dst_key@, src_key@) == Err::<
                    KeyValueView<serde_json::Value>,
                    ErrorView,
                >(e@),
            },
    {
        if id >= self.names.len() {
            return Err(Error::InvariantViolation);
        }
        proof {
            assert(keys_of(cfg_view(self.global@)) =~= string_keys(self.global@));
        }
        match find_key(&self.global, src_key) {
            None => Err(Error::ValueNotAvailable(src_key.clone())),
            Some(i) => {
                let found = self.global[i].1.duplicate();
                let over = literal(&self.config, &self.names[id], dst_key);
                Ok(KeyValue { source_key: src_key.clone(), value: merge(over, found.value) })
            },
        }
    }

    /// Prepares the value for the plugin `id` at `dst_key` from what is
    /// published under the same key, or else from the configuration entry of that key.
    pub fn prepare_value_same_key(&self, id: PluginId, dst_key: &String) -> (r: Result<
        KeyValue<serde_json::Value>,
        Error,
    >)
        ensures
            match r {
                Ok(value) => prepare_value_same_key_spec(self@, id, dst_key@) == Ok::<
                    KeyValueView<serde_json::Value>,
                    ErrorView,
                >(value@),
                Err(e) => prepare_value_same_key_spec(self@, id, dst_key@) == Err::<
                    KeyValueView<serde_json::Value>,
                    ErrorView,
                >(e@),
            },
    {
        if id >= self.names.len() {
            return Err(Error::InvariantViolation);
        }
        proof {
            assert(keys_of(cfg_view(self.global@)) =~= string_keys(self.global@));
            assert(keys_of(cfg_view(self.config.cfg@)) =~= string_keys(self.config.cfg@));
        }
        let found = match find_key(&self.global, dst_key) {
            Some(i) => Some(self.global[i].1.duplicate()),
            None => match find_key(&self.config.cfg, dst_key) {
                Some(i) => Some(self.config.cfg[i].1.duplicate()),
                None => None,
            },
        };
        match found {
            None => Err(Error::ValueNotAvailable(dst_key.clone())),
            Some(base) => {
                let over = literal(&self.config, &self.names[id], dst_key);
                Ok(KeyValue { source_key: dst_key.clone(), value: merge(over, base.value) })
            },
        }
    }
}

} // verus!
