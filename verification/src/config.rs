//! The normalized configuration of a release run.

use vstd::prelude::*;
use crate::assoc::{
    copy_names, find_key, keys_of, lemma_first_index_is, lemma_first_index_none, lookup,
    names_view, string_keys,
};
use crate::step::PluginStep;
use crate::value::{KeyValue, KeyValueView, json_as_bool, json_bool_of};

verus! {

/// Free-form configuration entries, by key.
pub type CfgMap = Vec<(String, KeyValue<serde_json::Value>)>;

/// Plugin definitions, by plugin name.
pub type PluginDefinitionMap = Vec<(String, PluginDefinition)>;

/// Step definitions, by step.
pub type StepDefinitionMap = Vec<(PluginStep, StepDefinition)>;

/// Inline options of a plugin, by key.
pub type PluginOptions = Vec<(String, serde_json::Value)>;

/// The key of the configuration entry that switches dry-run mode.
pub open spec fn dry_run_key() -> Seq<char> {
    "dry_run"@
}

/// The long form of a plugin definition.
#[derive(Debug, Clone, PartialEq, Eq)]
pub struct FullPluginDefinition {
    pub kind: String,
    pub version: Option<String>,
    pub options: PluginOptions,
}

/// A plugin definition as written: the short form names only the kind.
#[derive(Debug, Clone, PartialEq, Eq)]
pub enum PluginDefinition {
    Short(String),
    Full(FullPluginDefinition),
}

/// The mathematical content of a plugin definition.
pub ghost struct DefinitionView {
    pub kind: Seq<char>,
    pub version: Option<Seq<char>>,
    pub options: Seq<(Seq<char>, serde_json::Value)>,
}

/// Inline options as pairs of key and JSON value.
pub open spec fn options_view(options: Seq<(String, serde_json::Value)>) -> Seq<
    (Seq<char>, serde_json::Value),
> {
    Seq::new(options.len(), |i: int| (options[i].0@, options[i].1))
}

/// The characters of an optional string.
pub open spec fn text_view(text: Option<String>) -> Option<Seq<char>> {
    match text {
        Some(t) => Some(t@),
        None => None,
    }
}

impl View for FullPluginDefinition {
    type V = DefinitionView;

    open spec fn view(&self) -> DefinitionView {
        DefinitionView {
            kind: self.kind@,
            version: text_view(self.version),
            options: options_view(self.options@),
        }
    }
}

impl View for PluginDefinition {
    type V = DefinitionView;

    /// A short definition stands for the long one with no version and no options.
    open spec fn view(&self) -> DefinitionView {
        match self {
            PluginDefinition::Short(kind) => DefinitionView {
                kind: kind@,
                version: None,
                options: Seq::empty(),
            },
            PluginDefinition::Full(full) => full@,
        }
    }
}

/// A copy of a list of inline options.
pub fn copy_options(options: &PluginOptions) -> (r: PluginOptions)
    ensures
        options_view(r@) == options_view(options@),
{
    let mut out: PluginOptions = Vec::new();
    let mut i: usize = 0;
    while i < options.len()
        invariant
            i <= options.len(),
            out@.len() == i,
            forall|j: int| 0 <= j < i ==> out@[j].0@ == options@[j].0@ && out@[j].1 == options@[j].1,
        decreases options.len() - i,
    {
        out.push((options[i].0.clone(), options[i].1.clone()));
        i = i + 1;
    }
    assert(options_view(out@) =~= options_view(options@));
    out
}

impl FullPluginDefinition {
    /// A copy of the definition.
    pub fn duplicate(&self) -> (r: FullPluginDefinition)
        ensures
            r@ == self@,
    {
        let version = match &self.version {
            Some(v) => Some(v.clone()),
            None => None,
        };
        FullPluginDefinition {
            kind: self.kind.clone(),
            version,
            options: copy_options(&self.options),
        }
    }
}

impl PluginDefinition {
    /// The long form of the definition.
    pub fn into_full(self) -> (r: FullPluginDefinition)
        ensures
            r@ == self@,
    {
        match self {
            PluginDefinition::Short(kind) => {
                let full = FullPluginDefinition { kind, version: None, options: Vec::new() };
                assert(options_view(full.options@) =~= Seq::empty());
                full
            },
            PluginDefinition::Full(full) => full,
        }
    }

    /// A copy of the definition, in the form in which it was written.
    pub fn duplicate(&self) -> (r: PluginDefinition)
        ensures
            r@ == self@,
            r is Short <==> self is Short,
    {
        match self {
            PluginDefinition::Short(kind) => PluginDefinition::Short(kind.clone()),
            PluginDefinition::Full(full) => PluginDefinition::Full(full.duplicate()),
        }
    }
}

/// How the plugins of a step are chosen.
#[derive(Debug, Clone, PartialEq, Eq)]
pub enum StepDefinition {
    /// Every configured plugin serves the step.
    Shared,
    /// The one named plugin serves the step.
    Singleton(String),
    /// Every configured plugin that declares the step serves it.
    Discover,
    /// The named plugins serve the step, in the order given.
    Parallel(Vec<String>),
    /// The named plugins serve the step, in the order given.
    Plan(Vec<String>),
}

/// The mathematical content of a step definition.
pub ghost enum StepDefinitionView {
    Shared,
    Singleton(Seq<char>),
    Discover,
    Parallel(Seq<Seq<char>>),
    Plan(Seq<Seq<char>>),
}

/// The step definition that a single word stands for: `discover` and
/// `shared` are themselves, and any other word names the one plugin of the step.
pub open spec fn step_definition_of_token(token: Seq<char>) -> StepDefinitionView {
    if token == "discover"@ {
        StepDefinitionView::Discover
    } else if token == "shared"@ {
        StepDefinitionView::Shared
    } else {
        StepDefinitionView::Singleton(token)
    }
}

impl StepDefinition {
    /// The step definition that a single word stands for.
    pub fn from_token(token: String) -> (r: StepDefinition)
        ensures
            r@ == step_definition_of_token(token@),
    {
        let discover: String = "discover".to_owned();
        let shared: String = "shared".to_owned();
        if token == discover {
            StepDefinition::Discover
        } else if token == shared {
            StepDefinition::Shared
        } else {
            StepDefinition::Singleton(token)
        }
    }

    /// The step definition that a list of plugin names stands for: these
    /// plugins, in this order.
    pub fn from_names(names: Vec<String>) -> (r: StepDefinition)
        ensures
            r@ == StepDefinitionView::Plan(names_view(names@)),
    {
        StepDefinition::Plan(names)
    }
}

impl View for StepDefinition {
    type V = StepDefinitionView;

    open spec fn view(&self) -> StepDefinitionView {
        match self {
            StepDefinition::Shared => StepDefinitionView::Shared,
            StepDefinition::Singleton(name) => StepDefinitionView::Singleton(name@),
            StepDefinition::Discover => StepDefinitionView::Discover,
            StepDefinition::Parallel(names) => StepDefinitionView::Parallel(names_view(names@)),
            StepDefinition::Plan(names) => StepDefinitionView::Plan(names_view(names@)),
        }
    }
}

/// The normalized configuration: free-form entries, plugin definitions and step definitions.
#[derive(Debug, Clone, PartialEq, Eq)]
pub struct Config {
    pub cfg: CfgMap,
    pub plugins: PluginDefinitionMap,
    pub steps: StepDefinitionMap,
}

/// The mathematical content of a configuration.
pub ghost struct ConfigView {
    pub cfg: Seq<(Seq<char>, KeyValueView<serde_json::Value>)>,
    pub plugins: Seq<(Seq<char>, DefinitionView)>,
    pub steps: Seq<(PluginStep, StepDefinitionView)>,
}

/// Configuration entries as pairs of key and value content.
pub open spec fn cfg_view(cfg: Seq<(String, KeyValue<serde_json::Value>)>) -> Seq<
    (Seq<char>, KeyValueView<serde_json::Value>),
> {
    Seq::new(cfg.len(), |i: int| (cfg[i].0@, cfg[i].1@))
}

/// Plugin definitions as pairs of name and definition content.
pub open spec fn definitions_view(plugins: Seq<(String, PluginDefinition)>) -> Seq<
    (Seq<char>, DefinitionView),
> {
    Seq::new(plugins.len(), |i: int| (plugins[i].0@, plugins[i].1@))
}

/// Step definitions as pairs of step and definition content.
pub open spec fn step_definitions_view(steps: Seq<(PluginStep, StepDefinition)>) -> Seq<
    (PluginStep, StepDefinitionView),
> {
    Seq::new(steps.len(), |i: int| (steps[i].0, steps[i].1@))
}

impl View for Config {
    type V = ConfigView;

    open spec fn view(&self) -> ConfigView {
        ConfigView {
            cfg: cfg_view(self.cfg@),
            plugins: definitions_view(self.plugins@),
            steps: step_definitions_view(self.steps@),
        }
    }
}

/// The dry-run switch that a boolean reading of the `dry_run` entry stands for:
/// the boolean where there is one, and a dry run where there is none.
pub open spec fn dry_run_or_default_spec(flag: Option<bool>) -> bool {
    match flag {
        Some(b) => b,
        None => true,
    }
}

/// Whether a configuration asks for a dry run: the boolean under the key
/// `dry_run`, and a dry run where that entry is missing, empty or not a boolean.
pub open spec fn dry_run_spec(cfg: Seq<(Seq<char>, KeyValueView<serde_json::Value>)>) -> bool {
    match lookup(cfg, dry_run_key()) {
        Some(entry) => match entry.value {
            Some(json) => dry_run_or_default_spec(json_bool_of(json)),
            None => true,
        },
        None => true,
    }
}

/// The dry-run switch for a boolean reading of the `dry_run` entry.
pub fn dry_run_or_default(flag: Option<bool>) -> (r: bool)
    ensures
        r == dry_run_or_default_spec(flag),
{
    match flag {
        Some(b) => b,
        None => true,
    }
}

/// A copy of a table of configuration entries.
pub fn copy_cfg(cfg: &CfgMap) -> (r: CfgMap)
    ensures
        cfg_view(r@) == cfg_view(cfg@),
{
    let mut out: CfgMap = Vec::new();
    let mut i: usize = 0;
    while i < cfg.len()
        invariant
            i <= cfg.len(),
            out@.len() == i,
            forall|j: int| 0 <= j < i ==> out@[j].0@ == cfg@[j].0@ && out@[j].1@ == cfg@[j].1@,
        decreases cfg.len() - i,
    {
        out.push((cfg[i].0.clone(), cfg[i].1.duplicate()));
        i = i + 1;
    }
    assert(cfg_view(out@) =~= cfg_view(cfg@));
    out
}

/// A copy of a table of plugin definitions.
pub fn copy_definitions(plugins: &PluginDefinitionMap) -> (r: PluginDefinitionMap)
    ensures
        definitions_view(r@) == definitions_view(plugins@),
{
    let mut out: PluginDefinitionMap = Vec::new();
    let mut i: usize = 0;
    while i < plugins.len()
        invariant
            i <= plugins.len(),
            out@.len() == i,
            forall|j: int| 0 <= j < i ==> out@[j].0@ == plugins@[j].0@ && out@[j].1@ == plugins@[j].1@,
        decreases plugins.len() - i,
    {
        out.push((plugins[i].0.clone(), plugins[i].1.duplicate()));
        i = i + 1;
    }
    assert(definitions_view(out@) =~= definitions_view(plugins@));
    out
}

/// A copy of a step definition.
pub fn copy_step_definition(definition: &StepDefinition) -> (r: StepDefinition)
    ensures
        r@ == definition@,
{
    match definition {
        StepDefinition::Shared => StepDefinition::Shared,
        StepDefinition::Singleton(name) => StepDefinition::Singleton(name.clone()),
        StepDefinition::Discover => StepDefinition::Discover,
        StepDefinition::Parallel(names) => StepDefinition::Parallel(copy_names(names)),
        StepDefinition::Plan(names) => StepDefinition::Plan(copy_names(names)),
    }
}

/// A copy of a table of step definitions.
pub fn copy_steps(steps: &StepDefinitionMap) -> (r: StepDefinitionMap)
    ensures
        step_definitions_view(r@) == step_definitions_view(steps@),
{
    let mut out: StepDefinitionMap = Vec::new();
    let mut i: usize = 0;
    while i < steps.len()
        invariant
            i <= steps.len(),
            out@.len() == i,
            forall|j: int| 0 <= j < i ==> out@[j].0 == steps@[j].0 && out@[j].1@ == steps@[j].1@,
        decreases steps.len() - i,
    {
        out.push((steps[i].0, copy_step_definition(&steps[i].1)));
        i = i + 1;
    }
    assert(step_definitions_view(out@) =~= step_definitions_view(steps@));
    out
}

impl Config {
    /// A configuration with no entries, no plugins and no steps.
    pub fn new() -> (r: Config)
        ensures
            r@.cfg.len() == 0,
            r@.plugins.len() == 0,
            r@.steps.len() == 0,
    {
        Config { cfg: Vec::new(), plugins: Vec::new(), steps: Vec::new() }
    }

    /// A copy of the configuration.
    pub fn duplicate(&self) -> (r: Config)
        ensures
            r@ == self@,
    {
        Config {
            cfg: copy_cfg(&self.cfg),
            plugins: copy_definitions(&self.plugins),
            steps: copy_steps(&self.steps),
        }
    }

    /// Whether the configuration asks for a dry run.
    pub fn is_dry_run(&self) -> (r: bool)
        ensures
            r == dry_run_spec(self@.cfg),
    {
        let key: String = "dry_run".to_owned();
        proof {
            assert(keys_of(cfg_view(self.cfg@)) =~= string_keys(self.cfg@));
        }
        match find_key(&self.cfg, &key) {
            Some(i) => match &self.cfg[i].1.value {
                Some(json) => dry_run_or_default(json_as_bool(json)),
                None => true,
            },
            None => true,
        }
    }

    /// The definition of a step, if the configuration has one.
    pub fn step_definition(&self, step: PluginStep) -> (r: Option<&StepDefinition>)
        ensures
            match r {
                Some(d) => lookup(self@.steps, step) == Some(d@),
                None => lookup(self@.steps, step) is None,
            },
    {
        let mut i: usize = 0;
        let ghost keys = keys_of(self@.steps);
        while i < self.steps.len()
            invariant
                i <= self.steps.len(),
                keys == keys_of(self@.steps),
                keys.len() == self.steps.len(),
                forall|j: int| 0 <= j < i ==> keys[j] != step,
            decreases self.steps.len() - i,
        {
            if self.steps[i].0 == step {
                proof {
                    assert(keys[i as int] == step);
                    lemma_first_index_is(keys, step, i as int);
                }
                return Some(&self.steps[i].1);
            }
            i = i + 1;
        }
        proof {
            lemma_first_index_none(keys, step);
        }
        None
    }

    /// The definition of the plugin configured under `name`, if the
    /// configuration defines one.
    pub fn plugin_definition(&self, name: &String) -> (r: Option<&PluginDefinition>)
        ensures
            match r {
                Some(d) => lookup(self@.plugins, name@) == Some(d@),
                None => lookup(self@.plugins, name@) is None,
            },
    {
        proof {
            assert(keys_of(definitions_view(self.plugins@)) =~= string_keys(self.plugins@));
        }
        match find_key(&self.plugins, name) {
            Some(i) => Some(&self.plugins[i].1),
            None => None,
        }
    }
}

} // verus!
