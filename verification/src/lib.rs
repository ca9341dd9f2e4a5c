//! Verified core of a task automation engine.
//!
//! - Texts, maps and JSON values: [`text`], [`text_map`], [`names`], [`json`].
//! - Typed context: [`context`], [`schema`], [`resolve`], [`validate`],
//!   [`subtype`], [`conformance`], [`fitting`], [`store`], [`debug`], [`order`], [`format`].
//! - Expressions: [`expr`], [`outcome`], [`project`], [`numeric`],
//!   [`expression`], [`evaluate`], [`snapshot`], [`soundness`], [`budget`],
//!   [`meaning`], [`typing`], [`visit`].
//! - Bindings: [`bind_error`], [`target`], [`binding`].
//! - Actions and blocks: [`kind`], [`task`], [`contract`], [`block_schema`],
//!   [`block`], [`document`].
//! - Workflow graphs: [`graph_error`], [`graph`], [`upgrade`], [`reach`],
//!   [`pieces`], [`stats`], [`faults`], [`preflight`], [`static_type`],
//!   [`rewrite`], [`graph_flow`], [`graph_check`], [`graph_laws`],
//!   [`acceptance`], [`legacy`].
//! - Task packs, automation packs and the audit log: [`prefix`],
//!   [`load_error`], [`yaml`], [`loader`], [`automation`], [`audit`].
pub mod text;
pub mod text_map;
pub mod names;
pub mod json;
pub mod context;
pub mod schema;
pub mod resolve;
pub mod validate;
pub mod subtype;
pub mod conformance;
pub mod fitting;
pub mod store;
pub mod debug;
pub mod order;
pub mod format;
pub mod expr;
pub mod outcome;
pub mod project;
pub mod numeric;
pub mod expression;
pub mod evaluate;
pub mod snapshot;
pub mod soundness;
pub mod budget;
pub mod meaning;
pub mod typing;
pub mod visit;
pub mod bind_error;
pub mod target;
pub mod binding;
pub mod kind;
pub mod task;
pub mod contract;
pub mod block_schema;
pub mod block;
pub mod document;
pub mod graph_error;
pub mod graph;
pub mod upgrade;
pub mod reach;
pub mod pieces;
pub mod stats;
pub mod faults;
pub mod preflight;
pub mod static_type;
pub mod rewrite;
pub mod graph_flow;
pub mod graph_check;
pub mod graph_laws;
pub mod acceptance;
pub mod legacy;
pub mod prefix;
pub mod load_error;
pub mod yaml;
pub mod loader;
pub mod automation;
pub mod audit;
