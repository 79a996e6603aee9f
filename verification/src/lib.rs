//! Rule-based classification of folders into project types, and the
//! reconciliation of a catalog of tracked folders with what the rules detect.
//!
//! The library never touches the filesystem or the catalog itself. A caller
//! observes a folder, hands the observation over as plain values, and applies
//! the updates that come back.
//!
//! - [`config`] and [`validation`]: the rule model and what makes a
//!   configuration usable.
//! - [`glob`] and [`paths`]: glob patterns and the text of path specs.
//! - [`probe`]: whether a snapshot of a folder satisfies path specs.
//! - [`folder_type`]: the classifier.
//! - [`plan`] and [`survey`]: what to observe of a folder, all at once or
//!   one observation at a time.
//! - [`reconcile`]: the reconciler.
//! - [`actions`], [`crawler`], [`index_sources`]: the decisions of the
//!   launcher, the crawler and the table of indexed sources.
//! - [`text`]: operations on text that the others share.

pub mod actions;
pub mod config;
pub mod crawler;
pub mod folder_type;
pub mod glob;
pub mod index_sources;
pub mod paths;
pub mod plan;
pub mod probe;
pub mod reconcile;
pub mod survey;
pub mod text;
pub mod validation;
