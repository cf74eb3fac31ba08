//! The errors of the kernel.

use vstd::prelude::*;
use crate::assoc::names_view;
use crate::step::PluginStep;

verus! {

/// An error that a plugin reports. The kernel hands it on without reading it.
#[derive(Debug, Clone, PartialEq, Eq)]
pub struct PluginError {
    pub message: String,
}

impl View for PluginError {
    type V = Seq<char>;

    open spec fn view(&self) -> Seq<char> {
        self.message@
    }
}

/// What is wrong with a configuration.
#[derive(Debug, Clone, PartialEq, Eq)]
pub enum ConfigurationFault {
    /// A step that takes exactly one plugin has none or several.
    SingletonStep(PluginStep),
    /// A step names a plugin that is not in the plugin list.
    MissingPlugin(PluginStep, String),
}

/// The mathematical content of a [`ConfigurationFault`].
pub ghost enum ConfigurationFaultView {
    SingletonStep(PluginStep),
    MissingPlugin(PluginStep, Seq<char>),
}

impl View for ConfigurationFault {
    type V = ConfigurationFaultView;

    open spec fn view(&self) -> ConfigurationFaultView {
        match self {
            ConfigurationFault::SingletonStep(step) => ConfigurationFaultView::SingletonStep(*step),
            ConfigurationFault::MissingPlugin(step, name) => ConfigurationFaultView::MissingPlugin(
                *step,
                name@,
            ),
        }
    }
}

/// Why building or running a kernel failed.
#[derive(Debug, Clone, PartialEq, Eq)]
pub enum Error {
    /// Some configured plugins could not be resolved; the names of all of them.
    FailedToResolvePlugins(Vec<String>),
    /// An environment variable that a plugin needs is not set; its name.
    EnvValueUndefined(String),
    /// The configuration cannot be turned into a sequence.
    ConfigurationError(ConfigurationFault),
    /// A resolved plugin failed to start; its name and the cause.
    StartupError(String, PluginError),
    /// No value is published or configured under a key that an action reads.
    ValueNotAvailable(String),
    /// A plugin reported an error.
    PluginError(PluginError),
    /// A plugin that must be resolved is not, or a plugin id is out of bounds.
    InvariantViolation,
}

/// The mathematical content of an [`Error`].
pub ghost enum ErrorView {
    FailedToResolvePlugins(Seq<Seq<char>>),
    EnvValueUndefined(Seq<char>),
    ConfigurationError(ConfigurationFaultView),
    StartupError(Seq<char>, Seq<char>),
    ValueNotAvailable(Seq<char>),
    PluginError(Seq<char>),
    InvariantViolation,
}

impl View for Error {
    type V = ErrorView;

    open spec fn view(&self) -> ErrorView {
        match self {
            Error::FailedToResolvePlugins(names) => ErrorView::FailedToResolvePlugins(
                names_view(names@),
            ),
            Error::EnvValueUndefined(name) => ErrorView::EnvValueUndefined(name@),
            Error::ConfigurationError(fault) => ErrorView::ConfigurationError(fault@),
            Error::StartupError(name, cause) => ErrorView::StartupError(name@, cause@),
            Error::ValueNotAvailable(key) => ErrorView::ValueNotAvailable(key@),
            Error::PluginError(cause) => ErrorView::PluginError(cause@),
            Error::InvariantViolation => ErrorView::InvariantViolation,
        }
    }
}

} // verus!
