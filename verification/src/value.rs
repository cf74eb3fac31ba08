//! The value carrier that moves data between configuration, plugins and the
//! kernel, and the JSON payload it carries.

use vstd::prelude::*;

verus! {

/// A JSON value of `serde_json`. The kernel carries such values from plugin
/// to plugin and does not look inside them.
#[verifier::external_type_specification]
#[verifier::external_body]
pub struct ExJsonValue(serde_json::Value);

/// What `serde_json::Value::as_bool` yields for a JSON value: the boolean a
/// JSON boolean holds, and nothing for any other JSON value.
pub uninterp spec fn json_bool_of(v: serde_json::Value) -> Option<bool>;

/// The JSON value that `serde_json::to_value` builds from a string: the JSON
/// string with the same characters.
pub uninterp spec fn json_of_string(s: Seq<char>) -> serde_json::Value;

/// `Clone::clone` of `serde_json::Value`, which the crate derives: the copy
/// is the same JSON value.
pub assume_specification[ <serde_json::Value as Clone>::clone ](v: &serde_json::Value) -> (r:
    serde_json::Value)
    ensures
        r == *v,
;

/// Calls `serde_json::Value::as_bool`. The result is a function of the JSON
/// value alone and is named `json_bool_of`.
#[verifier::external_body]
pub(crate) fn json_as_bool(v: &serde_json::Value) -> (r: Option<bool>)
    ensures
        r == json_bool_of(*v),
{
    v.as_bool()
}

/// Calls `serde_json::to_value` on a string. The value serializer turns a
/// string into a JSON string and has no failing path for it, so the call
/// succeeds; the result is named `json_of_string`.
#[verifier::external_body]
pub(crate) fn json_from_string(s: &String) -> (r: Option<serde_json::Value>)
    ensures
        r == Some(json_of_string(s@)),
{
    serde_json::to_value(s).ok()
}

/// A value together with the key it came from.
#[derive(Debug, Clone, PartialEq, Eq)]
pub struct KeyValue<T> {
    pub source_key: String,
    pub value: Option<T>,
}

/// The mathematical content of a [`KeyValue`].
pub ghost struct KeyValueView<T> {
    pub source_key: Seq<char>,
    pub value: Option<T>,
}

impl<T> View for KeyValue<T> {
    type V = KeyValueView<T>;

    open spec fn view(&self) -> KeyValueView<T> {
        KeyValueView { source_key: self.source_key@, value: self.value }
    }
}

/// Builds a [`KeyValue`] step by step.
pub struct KeyValueBuilder<T> {
    pub source_key: String,
    pub value: Option<T>,
}

impl<T> View for KeyValueBuilder<T> {
    type V = KeyValueView<T>;

    open spec fn view(&self) -> KeyValueView<T> {
        KeyValueView { source_key: self.source_key@, value: self.value }
    }
}

impl<T> KeyValueBuilder<T> {
    /// Sets the payload.
    pub fn value(self, value: T) -> (r: KeyValueBuilder<T>)
        ensures
            r@ == (KeyValueView { source_key: self@.source_key, value: Some(value) }),
    {
        KeyValueBuilder { source_key: self.source_key, value: Some(value) }
    }

    /// Finishes the value.
    pub fn build(self) -> (r: KeyValue<T>)
        ensures
            r@ == self@,
    {
        KeyValue { source_key: self.source_key, value: self.value }
    }
}

impl<T> KeyValue<T> {
    /// Starts a value that comes from `key` and has no payload yet.
    pub fn builder(key: &str) -> (r: KeyValueBuilder<T>)
        ensures
            r@ == (KeyValueView::<T> { source_key: key@, value: None }),
    {
        KeyValueBuilder { source_key: key.to_owned(), value: None }
    }

    /// The payload.
    pub fn as_value(&self) -> (r: &T)
        requires
            self.value is Some,
        ensures
            *r == self.value->Some_0,
    {
        match &self.value {
            Some(v) => v,
            None => vstd::pervasive::unreached(),
        }
    }
}

impl KeyValue<serde_json::Value> {
    /// A copy with the same key and the same payload.
    pub fn duplicate(&self) -> (r: KeyValue<serde_json::Value>)
        ensures
            r@ == self@,
    {
        let value = match &self.value {
            Some(v) => Some(v.clone()),
            None => None,
        };
        KeyValue { source_key: self.source_key.clone(), value }
    }
}

/// The value that the kernel hands to a plugin for an environment variable:
/// it comes from the variable's name and carries the text as a JSON string.
pub open spec fn env_value_spec(name: Seq<char>, text: Seq<char>) -> KeyValueView<serde_json::Value> {
    KeyValueView { source_key: name, value: Some(json_of_string(text)) }
}

/// Wraps the text of an environment variable as a value that comes from that variable.
pub fn env_value(name: &str, text: &String) -> (r: KeyValue<serde_json::Value>)
    ensures
        r@ == env_value_spec(name@, text@),
{
    match json_from_string(text) {
        Some(json) => KeyValue::builder(name).value(json).build(),
        None => vstd::pervasive::unreached(),
    }
}

} // verus!
