//! Release-automation kernel.
//!
//! A release pipeline is a fixed list of steps. Plugins serve steps, publish
//! values and ask for values. The kernel turns a configuration and a set of
//! started plugins into one linear list of actions and then runs that list,
//! threading published values from plugin to plugin.
//!
//! - [`step`]: the steps of the pipeline.
//! - [`value`], [`assoc`], [`config`]: values, ordered tables and the configuration.
//! - [`plugin`], [`lifecycle`]: the plugin interface and the way from a
//!   definition to a started plugin.
//! - [`membership`], [`graph`]: which plugins serve which step, and the
//!   sequence of actions compiled from that.
//! - [`data_mgr`], [`runtime`], [`kernel`]: the store of published values,
//!   running one action, and building and running a kernel.
//! - [`dispatcher`]: calling a step on the plugins mapped to it.
//! - [`sequence_laws`], [`laws`]: what holds of every compiled sequence.

pub mod assoc;
pub mod config;
pub mod data_mgr;
pub mod dispatcher;
pub mod error;
pub mod graph;
pub mod kernel;
pub mod laws;
pub mod lifecycle;
pub mod membership;
pub mod plugin;
pub mod runtime;
pub mod sequence_laws;
pub mod step;
pub mod value;
