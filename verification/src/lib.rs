//! Reconciliation of exported analytics events that share an insert id.
//!
//! The library holds the rules: how events are grouped, compared, classified
//! and resolved. Reading and writing files, talking to the analytics service
//! and parsing command lines are left to the program that uses it.
//!
//! Every data type has a model, a value of mathematics that says what the
//! type holds apart from how it is stored, and every function says over
//! these models what it returns.
//!
//! - `json`, `time`, `fields`, `names`, `text`, `insert_id`: the values that
//!   events are made of.
//! - `export_event`, `export_json`, `amplitude_types`: events as they are
//!   exported and as they are uploaded.
//! - `transform`: grouping by insert id, the differences between two events,
//!   the finding on a duplicate group and its resolution, the comparison of
//!   two exports, and filters.
//! - `duplicates`, `verification`, `converter`, `filters`: other work on the
//!   events of an export.
//! - `config`, `project`, `amplitude_sdk`, `exporter`: what the program needs
//!   to know to reach the service.

pub mod amplitude_sdk;
pub mod amplitude_types;
pub mod config;
pub mod converter;
pub mod duplicates;
pub mod export_event;
pub mod export_json;
pub mod exporter;
pub mod fields;
pub mod filters;
pub mod insert_id;
pub mod json;
pub mod names;
pub mod project;
pub mod text;
pub mod time;
pub mod transform;
pub mod verification;
