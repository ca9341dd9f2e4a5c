//! What validation of a workflow graph reports.
use vstd::prelude::*;

use crate::debug::{show_texts, show_type, texts_debug};
use crate::expr::clone_texts;
use crate::schema::{ContextType, TypeView};
use crate::store::type_view;
use crate::text;
use crate::text::{count_text, decimal_text, joined, owned, quoted, text_views};

verus! {

#[derive(Debug, Clone, Copy, PartialEq, Eq, PartialOrd, Ord, Structural)]
pub enum EdgePort {
    /// The only valid destination port.
    Input,
    /// Atomic action succeeded.
    Success,
    /// Node failed.
    Failure,
    /// Action finished regardless of status.
    Always,
    /// Control node completed normally.
    Completed,
    /// A `for-each` collection contained no items.
    Empty,
}

impl EdgePort {
    pub open spec fn text(self) -> Seq<char> {
        match self {
            EdgePort::Input => "Input"@,
            EdgePort::Success => "Success"@,
            EdgePort::Failure => "Failure"@,
            EdgePort::Always => "Always"@,
            EdgePort::Completed => "Completed"@,
            EdgePort::Empty => "Empty"@,
        }
    }

    pub fn to_text(self) -> (res: String)
        ensures
            res@ == self.text(),
    {
        match self {
            EdgePort::Input => owned("Input"),
            EdgePort::Success => owned("Success"),
            EdgePort::Failure => owned("Failure"),
            EdgePort::Always => owned("Always"),
            EdgePort::Completed => owned("Completed"),
            EdgePort::Empty => owned("Empty"),
        }
    }
}

#[derive(Debug, PartialEq)]
pub struct GraphValidationError {
    pub path: String,
    pub kind: GraphValidationErrorKind,
}

#[derive(Debug, PartialEq)]
pub enum GraphValidationErrorKind {
    UnsupportedVersion { found: u32, supported: u32 },
    EmptyGraphId,
    EmptyGraph,
    EmptyNodeId,
    ReservedNodeId { id: String },
    DuplicateNodeId { id: String, first_path: String },
    EmptyEntries,
    DuplicateEntry { node: String },
    UnknownEntry { node: String },
    EntryHasIncoming { node: String },
    UnknownEndpoint { node: String },
    InvalidSourcePort { node: String, kind: String, port: EdgePort },
    InvalidTargetPort { node: String, port: EdgePort },
    DuplicateEdge,
    Cycle { nodes: Vec<String> },
    UnreachableNode { node: String },
    EmptyExitName,
    DuplicateExitName { name: String },
    UnlistedTerminal { node: String },
    JoinNeedsMultipleInputs { node: String, found: usize },
    ResourceLimitExceeded { resource: String, found: usize, limit: usize },
    ErrorLimitReached { limit: usize },
    InvalidAction { node: String, message: String },
    LegacyControlAction { node: String },
    EmptyBindingName { node: String },
    DuplicateBindingTarget { node: String, first: String, duplicate: String },
    UnknownBindingField { node: String, field: String },
    UnknownContextField { consumer: String, producer: String, field: String },
    OutputSchemaUnavailable { consumer: String, producer: String },
    BindingTypeMismatch { node: String, field: String, expected: ContextType, actual: ContextType },
    BindingMayBeMissing { node: String, field: String },
    BindingMayBeNull { node: String, field: String },
    InvalidBindingValue { node: String, field: String, message: String },
    SecretBindingFlow { node: String, field: String },
    ForEachCollectionNotArray { node: String, actual: Option<ContextType> },
    InterpolatedFieldNotScalar { consumer: String, field: String, actual: ContextType },
    InvalidAlias { node: String, alias: String },
    ShadowedAlias { node: String, alias: String },
    DuplicateAlias { node: String, alias: String },
    InvalidConcurrency { node: String },
    EmptySwitchCases { node: String },
    EmptySwitchCaseId { node: String },
    DuplicateSwitchCaseId { node: String, case: String },
    EmptySwitchCaseValues { node: String, case: String },
    DuplicateSwitchValue { node: String, value: String },
    SwitchCaseTypeMismatch {
        node: String,
        case: String,
        selector: ContextType,
        value: ContextType,
    },
    InvalidExpression { node: String, code: String, location: String, message: String },
    ExitCodeSourceNotRunScript { consumer: String, producer: String },
    ExitCodeNotSuccessful { consumer: String, producer: String, code: u32 },
    UnknownContextStep { consumer: String, producer: String },
    ContextNotVisible { consumer: String, producer: String },
    LoopContextNotVisible { consumer: String, loop_node: String },
    LocalNotVisible { consumer: String, binding: String },
    InvalidLocalPath { consumer: String, binding: String },
}

pub struct GraphErrorView {
    pub path: Seq<char>,
    pub kind: GraphFault,
}

/// What is wrong with a graph.
pub enum GraphFault {
    UnsupportedVersion { found: u32, supported: u32 },
    EmptyGraphId,
    EmptyGraph,
    EmptyNodeId,
    ReservedNodeId { id: Seq<char> },
    DuplicateNodeId { id: Seq<char>, first_path: Seq<char> },
    EmptyEntries,
    DuplicateEntry { node: Seq<char> },
    UnknownEntry { node: Seq<char> },
    EntryHasIncoming { node: Seq<char> },
    UnknownEndpoint { node: Seq<char> },
    InvalidSourcePort { node: Seq<char>, kind: Seq<char>, port: EdgePort },
    InvalidTargetPort { node: Seq<char>, port: EdgePort },
    DuplicateEdge,
    Cycle { nodes: Seq<Seq<char>> },
    UnreachableNode { node: Seq<char> },
    EmptyExitName,
    DuplicateExitName { name: Seq<char> },
    UnlistedTerminal { node: Seq<char> },
    JoinNeedsMultipleInputs { node: Seq<char>, found: usize },
    ResourceLimitExceeded { resource: Seq<char>, found: usize, limit: usize },
    ErrorLimitReached { limit: usize },
    InvalidAction { node: Seq<char>, message: Seq<char> },
    LegacyControlAction { node: Seq<char> },
    EmptyBindingName { node: Seq<char> },
    DuplicateBindingTarget { node: Seq<char>, first: Seq<char>, duplicate: Seq<char> },
    UnknownBindingField { node: Seq<char>, field: Seq<char> },
    UnknownContextField { consumer: Seq<char>, producer: Seq<char>, field: Seq<char> },
    OutputSchemaUnavailable { consumer: Seq<char>, producer: Seq<char> },
    BindingTypeMismatch { node: Seq<char>, field: Seq<char>, expected: TypeView, actual: TypeView },
    BindingMayBeMissing { node: Seq<char>, field: Seq<char> },
    BindingMayBeNull { node: Seq<char>, field: Seq<char> },
    InvalidBindingValue { node: Seq<char>, field: Seq<char>, message: Seq<char> },
    SecretBindingFlow { node: Seq<char>, field: Seq<char> },
    ForEachCollectionNotArray { node: Seq<char>, actual: Option<TypeView> },
    InterpolatedFieldNotScalar { consumer: Seq<char>, field: Seq<char>, actual: TypeView },
    InvalidAlias { node: Seq<char>, alias: Seq<char> },
    ShadowedAlias { node: Seq<char>, alias: Seq<char> },
    DuplicateAlias { node: Seq<char>, alias: Seq<char> },
    InvalidConcurrency { node: Seq<char> },
    EmptySwitchCases { node: Seq<char> },
    EmptySwitchCaseId { node: Seq<char> },
    DuplicateSwitchCaseId { node: Seq<char>, case: Seq<char> },
    EmptySwitchCaseValues { node: Seq<char>, case: Seq<char> },
    DuplicateSwitchValue { node: Seq<char>, value: Seq<char> },
    SwitchCaseTypeMismatch {
        node: Seq<char>,
        case: Seq<char>,
        selector: TypeView,
        value: TypeView,
    },
    InvalidExpression { node: Seq<char>, code: Seq<char>, location: Seq<char>, message: Seq<char> },
    ExitCodeSourceNotRunScript { consumer: Seq<char>, producer: Seq<char> },
    ExitCodeNotSuccessful { consumer: Seq<char>, producer: Seq<char>, code: u32 },
    UnknownContextStep { consumer: Seq<char>, producer: Seq<char> },
    ContextNotVisible { consumer: Seq<char>, producer: Seq<char> },
    LoopContextNotVisible { consumer: Seq<char>, loop_node: Seq<char> },
    LocalNotVisible { consumer: Seq<char>, binding: Seq<char> },
    InvalidLocalPath { consumer: Seq<char>, binding: Seq<char> },
}

pub open spec fn optional_type_debug(t: Option<TypeView>) -> Seq<char> {
    match t {
        Some(t) => "Some("@ + t.debug() + ")"@,
        None => "None"@,
    }
}

fn show_optional_type(t: &Option<ContextType>) -> (res: String)
    ensures
        res@ == optional_type_debug(type_view(*t)),
{
    match t {
        Some(t) => {
            let mut out = joined("Some(", &show_type(t));
            out.append(")");
            out
        },
        None => owned("None"),
    }
}

fn clone_type(t: &Option<ContextType>) -> (res: Option<ContextType>)
    ensures
        type_view(res) == type_view(*t),
{
    match t {
        Some(t) => Some(t.clone()),
        None => None,
    }
}

impl GraphValidationErrorKind {
    pub open spec fn view(&self) -> GraphFault {
        match self {
            GraphValidationErrorKind::UnsupportedVersion { found, supported } =>
                GraphFault::UnsupportedVersion {
                    found: *found,
                    supported: *supported,
                },
            GraphValidationErrorKind::EmptyGraphId => GraphFault::EmptyGraphId,
            GraphValidationErrorKind::EmptyGraph => GraphFault::EmptyGraph,
            GraphValidationErrorKind::EmptyNodeId => GraphFault::EmptyNodeId,
            GraphValidationErrorKind::ReservedNodeId { id } => GraphFault::ReservedNodeId {
                id: id@,
            },
            GraphValidationErrorKind::DuplicateNodeId { id, first_path } =>
                GraphFault::DuplicateNodeId {
                    id: id@,
                    first_path: first_path@,
                },
            GraphValidationErrorKind::EmptyEntries => GraphFault::EmptyEntries,
            GraphValidationErrorKind::DuplicateEntry { node } => GraphFault::DuplicateEntry {
                node: node@,
            },
            GraphValidationErrorKind::UnknownEntry { node } => GraphFault::UnknownEntry {
                node: node@,
            },
            GraphValidationErrorKind::EntryHasIncoming { node } => GraphFault::EntryHasIncoming {
                node: node@,
            },
            GraphValidationErrorKind::UnknownEndpoint { node } => GraphFault::UnknownEndpoint {
                node: node@,
            },
            GraphValidationErrorKind::InvalidSourcePort { node, kind, port } =>
                GraphFault::InvalidSourcePort {
                    node: node@,
                    kind: kind@,
                    port: *port,
                },
            GraphValidationErrorKind::InvalidTargetPort { node, port } =>
                GraphFault::InvalidTargetPort {
                    node: node@,
                    port: *port,
                },
            GraphValidationErrorKind::DuplicateEdge => GraphFault::DuplicateEdge,
            GraphValidationErrorKind::Cycle { nodes } => GraphFault::Cycle {
                nodes: text_views(nodes@),
            },
            GraphValidationErrorKind::UnreachableNode { node } => GraphFault::UnreachableNode {
                node: node@,
            },
            GraphValidationErrorKind::EmptyExitName => GraphFault::EmptyExitName,
            GraphValidationErrorKind::DuplicateExitName { name } => GraphFault::DuplicateExitName {
                name: name@,
            },
            GraphValidationErrorKind::UnlistedTerminal { node } => GraphFault::UnlistedTerminal {
                node: node@,
            },
            GraphValidationErrorKind::JoinNeedsMultipleInputs { node, found } =>
                GraphFault::JoinNeedsMultipleInputs {
                    node: node@,
                    found: *found,
                },
            GraphValidationErrorKind::ResourceLimitExceeded { resource, found, limit } =>
                GraphFault::ResourceLimitExceeded {
                    resource: resource@,
                    found: *found,
                    limit: *limit,
                },
            GraphValidationErrorKind::ErrorLimitReached { limit } => GraphFault::ErrorLimitReached {
                limit: *limit,
            },
            GraphValidationErrorKind::InvalidAction { node, message } => GraphFault::InvalidAction {
                node: node@,
                message: message@,
            },
            GraphValidationErrorKind::LegacyControlAction { node } =>
                GraphFault::LegacyControlAction {
                    node: node@,
                },
            GraphValidationErrorKind::EmptyBindingName { node } => GraphFault::EmptyBindingName {
                node: node@,
            },
            GraphValidationErrorKind::DuplicateBindingTarget { node, first, duplicate } =>
                GraphFault::DuplicateBindingTarget {
                    node: node@,
                    first: first@,
                    duplicate: duplicate@,
                },
            GraphValidationErrorKind::UnknownBindingField { node, field } =>
                GraphFault::UnknownBindingField {
                    node: node@,
                    field: field@,
                },
            GraphValidationErrorKind::UnknownContextField { consumer, producer, field } =>
                GraphFault::UnknownContextField {
                    consumer: consumer@,
                    producer: producer@,
                    field: field@,
                },
            GraphValidationErrorKind::OutputSchemaUnavailable { consumer, producer } =>
                GraphFault::OutputSchemaUnavailable {
                    consumer: consumer@,
                    producer: producer@,
                },
            GraphValidationErrorKind::BindingTypeMismatch { node, field, expected, actual } =>
                GraphFault::BindingTypeMismatch {
                    node: node@,
                    field: field@,
                    expected: expected@,
                    actual: actual@,
                },
            GraphValidationErrorKind::BindingMayBeMissing { node, field } =>
                GraphFault::BindingMayBeMissing {
                    node: node@,
                    field: field@,
                },
            GraphValidationErrorKind::BindingMayBeNull { node, field } =>
                GraphFault::BindingMayBeNull {
                    node: node@,
                    field: field@,
                },
            GraphValidationErrorKind::InvalidBindingValue { node, field, message } =>
                GraphFault::InvalidBindingValue {
                    node: node@,
                    field: field@,
                    message: message@,
                },
            GraphValidationErrorKind::SecretBindingFlow { node, field } =>
                GraphFault::SecretBindingFlow {
                    node: node@,
                    field: field@,
                },
            GraphValidationErrorKind::ForEachCollectionNotArray { node, actual } =>
                GraphFault::ForEachCollectionNotArray {
                    node: node@,
                    actual: type_view(*actual),
                },
            GraphValidationErrorKind::InterpolatedFieldNotScalar { consumer, field, actual } =>
                GraphFault::InterpolatedFieldNotScalar {
                    consumer: consumer@,
                    field: field@,
                    actual: actual@,
                },
            GraphValidationErrorKind::InvalidAlias { node, alias } => GraphFault::InvalidAlias {
                node: node@,
                alias: alias@,
            },
            GraphValidationErrorKind::ShadowedAlias { node, alias } => GraphFault::ShadowedAlias {
                node: node@,
                alias: alias@,
            },
            GraphValidationErrorKind::DuplicateAlias { node, alias } => GraphFault::DuplicateAlias {
                node: node@,
                alias: alias@,
            },
            GraphValidationErrorKind::InvalidConcurrency { node } =>
                GraphFault::InvalidConcurrency {
                    node: node@,
                },
            GraphValidationErrorKind::EmptySwitchCases { node } => GraphFault::EmptySwitchCases {
                node: node@,
            },
            GraphValidationErrorKind::EmptySwitchCaseId { node } => GraphFault::EmptySwitchCaseId {
                node: node@,
            },
            GraphValidationErrorKind::DuplicateSwitchCaseId { node, case } =>
                GraphFault::DuplicateSwitchCaseId {
                    node: node@,
                    case: case@,
                },
            GraphValidationErrorKind::EmptySwitchCaseValues { node, case } =>
                GraphFault::EmptySwitchCaseValues {
                    node: node@,
                    case: case@,
                },
            GraphValidationErrorKind::DuplicateSwitchValue { node, value } =>
                GraphFault::DuplicateSwitchValue {
                    node: node@,
                    value: value@,
                },
            GraphValidationErrorKind::SwitchCaseTypeMismatch { node, case, selector, value } =>
                GraphFault::SwitchCaseTypeMismatch {
                    node: node@,
                    case: case@,
                    selector: selector@,
                    value: value@,
                },
            GraphValidationErrorKind::InvalidExpression { node, code, location, message } =>
                GraphFault::InvalidExpression {
                    node: node@,
                    code: code@,
                    location: location@,
                    message: message@,
                },
            GraphValidationErrorKind::ExitCodeSourceNotRunScript { consumer, producer } =>
                GraphFault::ExitCodeSourceNotRunScript {
                    consumer: consumer@,
                    producer: producer@,
                },
            GraphValidationErrorKind::ExitCodeNotSuccessful { consumer, producer, code } =>
                GraphFault::ExitCodeNotSuccessful {
                    consumer: consumer@,
                    producer: producer@,
                    code: *code,
                },
            GraphValidationErrorKind::UnknownContextStep { consumer, producer } =>
                GraphFault::UnknownContextStep {
                    consumer: consumer@,
                    producer: producer@,
                },
            GraphValidationErrorKind::ContextNotVisible { consumer, producer } =>
                GraphFault::ContextNotVisible {
                    consumer: consumer@,
                    producer: producer@,
                },
            GraphValidationErrorKind::LoopContextNotVisible { consumer, loop_node } =>
                GraphFault::LoopContextNotVisible {
                    consumer: consumer@,
                    loop_node: loop_node@,
                },
            GraphValidationErrorKind::LocalNotVisible { consumer, binding } =>
                GraphFault::LocalNotVisible {
                    consumer: consumer@,
                    binding: binding@,
                },
            GraphValidationErrorKind::InvalidLocalPath { consumer, binding } =>
                GraphFault::InvalidLocalPath {
                    consumer: consumer@,
                    binding: binding@,
                },
        }
    }

    /// The message that a reader is shown.
    pub fn message(&self) -> (res: String)
        ensures
            res@ == self@.message(),
    {
        match self {
            GraphValidationErrorKind::UnsupportedVersion { found, supported } => {
                let mut out = joined("unsupported graph version ", &decimal_text(*found as u64));
                out.append("; supported version is ");
                out.append(&decimal_text(*supported as u64));
                out
            },
            GraphValidationErrorKind::EmptyGraphId => owned("graph id must not be empty"),
            GraphValidationErrorKind::EmptyGraph => owned("graph must contain at least one node"),
            GraphValidationErrorKind::EmptyNodeId => owned("node id must not be empty"),
            GraphValidationErrorKind::ReservedNodeId { id } => {
                let mut out = joined("node id ", &quoted(id));
                out.append(" uses the reserved suffix \"::index\"");
                out
            },
            GraphValidationErrorKind::DuplicateNodeId { id, first_path } => {
                let mut out = joined("duplicate node id ", &quoted(id));
                out.append("; first declared at ");
                out.append(first_path);
                out
            },
            GraphValidationErrorKind::EmptyEntries => owned("graph must declare at least one entry"),
            GraphValidationErrorKind::DuplicateEntry { node } => joined("duplicate entry ", &quoted(node)),
            GraphValidationErrorKind::UnknownEntry { node } => joined("unknown entry node ", &quoted(node)),
            GraphValidationErrorKind::EntryHasIncoming { node } => {
                let mut out = joined("entry node ", &quoted(node));
                out.append(" has an incoming edge");
                out
            },
            GraphValidationErrorKind::UnknownEndpoint { node } => joined("unknown edge endpoint ", &quoted(node)),
            GraphValidationErrorKind::InvalidSourcePort { node, kind, port } => {
                let mut out = joined("node ", &quoted(node));
                out.append(" (");
                out.append(kind);
                out.append(") cannot emit from port ");
                out.append(&port.to_text());
                out
            },
            GraphValidationErrorKind::InvalidTargetPort { node, port } => {
                let mut out = joined("node ", &quoted(node));
                out.append(" cannot receive on port ");
                out.append(&port.to_text());
                out.append("; expected input");
                out
            },
            GraphValidationErrorKind::DuplicateEdge => owned("duplicate graph edge"),
            GraphValidationErrorKind::Cycle { nodes } => joined("graph contains a cycle through ", &show_texts(nodes)),
            GraphValidationErrorKind::UnreachableNode { node } => {
                let mut out = joined("node ", &quoted(node));
                out.append(" is unreachable");
                out
            },
            GraphValidationErrorKind::EmptyExitName => owned("graph exit name must not be empty"),
            GraphValidationErrorKind::DuplicateExitName { name } => joined("duplicate graph exit ", &quoted(name)),
            GraphValidationErrorKind::UnlistedTerminal { node } => {
                let mut out = joined("terminal node ", &quoted(node));
                out.append(" is not represented by a graph exit");
                out
            },
            GraphValidationErrorKind::JoinNeedsMultipleInputs { node, found } => {
                let mut out = joined("join ", &quoted(node));
                out.append(" needs at least two incoming paths, found ");
                out.append(&count_text(*found));
                out
            },
            GraphValidationErrorKind::ResourceLimitExceeded { resource, found, limit } => {
                let mut out = joined("workflow graph ", resource);
                out.append(" exceeds limit ");
                out.append(&count_text(*limit));
                out.append(" (found at least ");
                out.append(&count_text(*found));
                out.append(")");
                out
            },
            GraphValidationErrorKind::ErrorLimitReached { limit } => {
                let mut out = joined("workflow graph validation stopped after ", &count_text(*limit));
                out.append(" errors");
                out
            },
            GraphValidationErrorKind::InvalidAction { node, message } => {
                let mut out = joined("action node ", &quoted(node));
                out.append(" is invalid: ");
                out.append(message);
                out
            },
            GraphValidationErrorKind::LegacyControlAction { node } => {
                let mut out = joined("action node ", &quoted(node));
                out.append(" uses a v1 loop action; use a graph for-each node");
                out
            },
            GraphValidationErrorKind::EmptyBindingName { node } => {
                let mut out = joined("action node ", &quoted(node));
                out.append(" contains an empty binding name");
                out
            },
            GraphValidationErrorKind::DuplicateBindingTarget { node, first, duplicate } => {
                let mut out = joined("action node ", &quoted(node));
                out.append(" binds the same input through ");
                out.append(&quoted(first));
                out.append(" and ");
                out.append(&quoted(duplicate));
                out
            },
            GraphValidationErrorKind::UnknownBindingField { node, field } => {
                let mut out = joined("action node ", &quoted(node));
                out.append(" has no declared input field ");
                out.append(&quoted(field));
                out
            },
            GraphValidationErrorKind::UnknownContextField { consumer, producer, field } => {
                let mut out = joined("node ", &quoted(consumer));
                out.append(" references unknown output field ");
                out.append(&quoted(field));
                out.append(" on ");
                out.append(&quoted(producer));
                out
            },
            GraphValidationErrorKind::OutputSchemaUnavailable { consumer, producer } => {
                let mut out = joined("node ", &quoted(consumer));
                out.append(" cannot statically bind output of ");
                out.append(&quoted(producer));
                out.append(": no output schema");
                out
            },
            GraphValidationErrorKind::BindingTypeMismatch { node, field, expected, actual } => {
                let mut out = joined("binding ", &quoted(node));
                out.append(".");
                out.append(field);
                out.append(" expects ");
                out.append(&show_type(expected));
                out.append(", got ");
                out.append(&show_type(actual));
                out
            },
            GraphValidationErrorKind::BindingMayBeMissing { node, field } => {
                let mut out = joined("binding ", &quoted(node));
                out.append(".");
                out.append(field);
                out.append(" uses an optional source field");
                out
            },
            GraphValidationErrorKind::BindingMayBeNull { node, field } => {
                let mut out = joined("binding ", &quoted(node));
                out.append(".");
                out.append(field);
                out.append(" uses a nullable source field");
                out
            },
            GraphValidationErrorKind::InvalidBindingValue { node, field, message } => {
                let mut out = joined("binding ", &quoted(node));
                out.append(".");
                out.append(field);
                out.append(" violates its declared input contract: ");
                out.append(message);
                out
            },
            GraphValidationErrorKind::SecretBindingFlow { node, field } => {
                let mut out = joined("binding ", &quoted(node));
                out.append(".");
                out.append(field);
                out.append(" sends secret context to a non-secret input");
                out
            },
            GraphValidationErrorKind::ForEachCollectionNotArray { node, actual } => {
                let mut out = joined("for-each ", &quoted(node));
                out.append(" collection must be an array, got ");
                out.append(&show_optional_type(actual));
                out
            },
            GraphValidationErrorKind::InterpolatedFieldNotScalar { consumer, field, actual } => {
                let mut out = joined("interpolated field ", &quoted(field));
                out.append(" in ");
                out.append(&quoted(consumer));
                out.append(" must be scalar, got ");
                out.append(&show_type(actual));
                out
            },
            GraphValidationErrorKind::InvalidAlias { node, alias } => {
                let mut out = joined("node ", &quoted(node));
                out.append(" contains invalid alias ");
                out.append(&quoted(alias));
                out
            },
            GraphValidationErrorKind::ShadowedAlias { node, alias } => {
                let mut out = joined("node ", &quoted(node));
                out.append(" shadows visible alias ");
                out.append(&quoted(alias));
                out
            },
            GraphValidationErrorKind::DuplicateAlias { node, alias } => {
                let mut out = joined("node ", &quoted(node));
                out.append(" declares alias ");
                out.append(&quoted(alias));
                out.append(" twice");
                out
            },
            GraphValidationErrorKind::InvalidConcurrency { node } => {
                let mut out = joined("for-each ", &quoted(node));
                out.append(" concurrency must be greater than zero");
                out
            },
            GraphValidationErrorKind::EmptySwitchCases { node } => {
                let mut out = joined("switch ", &quoted(node));
                out.append(" must define at least one case");
                out
            },
            GraphValidationErrorKind::EmptySwitchCaseId { node } => {
                let mut out = joined("switch ", &quoted(node));
                out.append(" contains an empty case id");
                out
            },
            GraphValidationErrorKind::DuplicateSwitchCaseId { node, case } => {
                let mut out = joined("switch ", &quoted(node));
                out.append(" contains duplicate case ");
                out.append(&quoted(case));
                out
            },
            GraphValidationErrorKind::EmptySwitchCaseValues { node, case } => {
                let mut out = joined("switch ", &quoted(node));
                out.append(" case ");
                out.append(&quoted(case));
                out.append(" must match at least one value");
                out
            },
            GraphValidationErrorKind::DuplicateSwitchValue { node, value } => {
                let mut out = joined("switch ", &quoted(node));
                out.append(" matches value ");
                out.append(value);
                out.append(" in more than one case");
                out
            },
            GraphValidationErrorKind::SwitchCaseTypeMismatch { node, case, selector, value } => {
                let mut out = joined("switch ", &quoted(node));
                out.append(" case ");
                out.append(&quoted(case));
                out.append(" compares selector ");
                out.append(&show_type(selector));
                out.append(" with incompatible value ");
                out.append(&show_type(value));
                out
            },
            GraphValidationErrorKind::InvalidExpression { node, code, location, message } => {
                let mut out = joined("node ", &quoted(node));
                out.append(" has invalid expression (");
                out.append(code);
                out.append(" at ");
                out.append(location);
                out.append("): ");
                out.append(message);
                out
            },
            GraphValidationErrorKind::ExitCodeSourceNotRunScript { consumer, producer } => {
                let mut out = joined("exit-code condition on ", &quoted(consumer));
                out.append(" references ");
                out.append(&quoted(producer));
                out.append(", which is not a run-script action");
                out
            },
            GraphValidationErrorKind::ExitCodeNotSuccessful { consumer, producer, code } => {
                let mut out = joined("exit-code condition on ", &quoted(consumer));
                out.append(" uses code ");
                out.append(&decimal_text(*code as u64));
                out.append(", which is not in ");
                out.append(&quoted(producer));
                out.append(".success_exit_codes");
                out
            },
            GraphValidationErrorKind::UnknownContextStep { consumer, producer } => {
                let mut out = joined("node ", &quoted(consumer));
                out.append(" references unknown context step ");
                out.append(&quoted(producer));
                out
            },
            GraphValidationErrorKind::ContextNotVisible { consumer, producer } => {
                let mut out = joined("context from ", &quoted(producer));
                out.append(" does not dominate consumer ");
                out.append(&quoted(consumer));
                out
            },
            GraphValidationErrorKind::LoopContextNotVisible { consumer, loop_node } => {
                let mut out = joined("loop context ", &quoted(loop_node));
                out.append(" is not visible to ");
                out.append(&quoted(consumer));
                out
            },
            GraphValidationErrorKind::LocalNotVisible { consumer, binding } => {
                let mut out = joined("local binding ", &quoted(binding));
                out.append(" is not visible to ");
                out.append(&quoted(consumer));
                out
            },
            GraphValidationErrorKind::InvalidLocalPath { consumer, binding } => {
                let mut out = joined("local binding ", &quoted(binding));
                out.append(" contains an empty path segment in ");
                out.append(&quoted(consumer));
                out
            },
        }
    }
}

impl GraphFault {
    pub open spec fn message(self) -> Seq<char> {
        match self {
            GraphFault::UnsupportedVersion { found, supported } => "unsupported graph version "@
                + text::decimal(found as nat) + "; supported version is "@
                + text::decimal(supported as nat),
            GraphFault::EmptyGraphId => "graph id must not be empty"@,
            GraphFault::EmptyGraph => "graph must contain at least one node"@,
            GraphFault::EmptyNodeId => "node id must not be empty"@,
            GraphFault::ReservedNodeId { id } => "node id "@ + text::debug_text(id)
                + " uses the reserved suffix \"::index\""@,
            GraphFault::DuplicateNodeId { id, first_path } => "duplicate node id "@
                + text::debug_text(id) + "; first declared at "@ + first_path,
            GraphFault::EmptyEntries => "graph must declare at least one entry"@,
            GraphFault::DuplicateEntry { node } => "duplicate entry "@ + text::debug_text(node),
            GraphFault::UnknownEntry { node } => "unknown entry node "@ + text::debug_text(node),
            GraphFault::EntryHasIncoming { node } => "entry node "@ + text::debug_text(node)
                + " has an incoming edge"@,
            GraphFault::UnknownEndpoint { node } => "unknown edge endpoint "@
                + text::debug_text(node),
            GraphFault::InvalidSourcePort { node, kind, port } => "node "@ + text::debug_text(node)
                + " ("@ + kind + ") cannot emit from port "@ + port.text(),
            GraphFault::InvalidTargetPort { node, port } => "node "@ + text::debug_text(node)
                + " cannot receive on port "@ + port.text() + "; expected input"@,
            GraphFault::DuplicateEdge => "duplicate graph edge"@,
            GraphFault::Cycle { nodes } => "graph contains a cycle through "@
                + ("["@ + texts_debug(nodes) + "]"@),
            GraphFault::UnreachableNode { node } => "node "@ + text::debug_text(node)
                + " is unreachable"@,
            GraphFault::EmptyExitName => "graph exit name must not be empty"@,
            GraphFault::DuplicateExitName { name } => "duplicate graph exit "@
                + text::debug_text(name),
            GraphFault::UnlistedTerminal { node } => "terminal node "@ + text::debug_text(node)
                + " is not represented by a graph exit"@,
            GraphFault::JoinNeedsMultipleInputs { node, found } => "join "@ + text::debug_text(node)
                + " needs at least two incoming paths, found "@ + text::decimal(found as nat),
            GraphFault::ResourceLimitExceeded { resource, found, limit } => "workflow graph "@
                + resource + " exceeds limit "@ + text::decimal(limit as nat) + " (found at least "@
                + text::decimal(found as nat) + ")"@,
            GraphFault::ErrorLimitReached { limit } => "workflow graph validation stopped after "@
                + text::decimal(limit as nat) + " errors"@,
            GraphFault::InvalidAction { node, message } => "action node "@ + text::debug_text(node)
                + " is invalid: "@ + message,
            GraphFault::LegacyControlAction { node } => "action node "@ + text::debug_text(node)
                + " uses a v1 loop action; use a graph for-each node"@,
            GraphFault::EmptyBindingName { node } => "action node "@ + text::debug_text(node)
                + " contains an empty binding name"@,
            GraphFault::DuplicateBindingTarget { node, first, duplicate } => "action node "@
                + text::debug_text(node) + " binds the same input through "@
                + text::debug_text(first) + " and "@ + text::debug_text(duplicate),
            GraphFault::UnknownBindingField { node, field } => "action node "@
                + text::debug_text(node) + " has no declared input field "@
                + text::debug_text(field),
            GraphFault::UnknownContextField { consumer, producer, field } => "node "@
                + text::debug_text(consumer) + " references unknown output field "@
                + text::debug_text(field) + " on "@ + text::debug_text(producer),
            GraphFault::OutputSchemaUnavailable { consumer, producer } => "node "@
                + text::debug_text(consumer) + " cannot statically bind output of "@
                + text::debug_text(producer) + ": no output schema"@,
            GraphFault::BindingTypeMismatch { node, field, expected, actual } => "binding "@
                + text::debug_text(node) + "."@ + field + " expects "@ + expected.debug()
                + ", got "@ + actual.debug(),
            GraphFault::BindingMayBeMissing { node, field } => "binding "@ + text::debug_text(node)
                + "."@ + field + " uses an optional source field"@,
            GraphFault::BindingMayBeNull { node, field } => "binding "@ + text::debug_text(node)
                + "."@ + field + " uses a nullable source field"@,
            GraphFault::InvalidBindingValue { node, field, message } => "binding "@
                + text::debug_text(node) + "."@ + field + " violates its declared input contract: "@
                + message,
            GraphFault::SecretBindingFlow { node, field } => "binding "@ + text::debug_text(node)
                + "."@ + field + " sends secret context to a non-secret input"@,
            GraphFault::ForEachCollectionNotArray { node, actual } => "for-each "@
                + text::debug_text(node) + " collection must be an array, got "@
                + optional_type_debug(actual),
            GraphFault::InterpolatedFieldNotScalar { consumer, field, actual } => "interpolated field "@
                + text::debug_text(field) + " in "@ + text::debug_text(consumer)
                + " must be scalar, got "@ + actual.debug(),
            GraphFault::InvalidAlias { node, alias } => "node "@ + text::debug_text(node)
                + " contains invalid alias "@ + text::debug_text(alias),
            GraphFault::ShadowedAlias { node, alias } => "node "@ + text::debug_text(node)
                + " shadows visible alias "@ + text::debug_text(alias),
            GraphFault::DuplicateAlias { node, alias } => "node "@ + text::debug_text(node)
                + " declares alias "@ + text::debug_text(alias) + " twice"@,
            GraphFault::InvalidConcurrency { node } => "for-each "@ + text::debug_text(node)
                + " concurrency must be greater than zero"@,
            GraphFault::EmptySwitchCases { node } => "switch "@ + text::debug_text(node)
                + " must define at least one case"@,
            GraphFault::EmptySwitchCaseId { node } => "switch "@ + text::debug_text(node)
                + " contains an empty case id"@,
            GraphFault::DuplicateSwitchCaseId { node, case } => "switch "@ + text::debug_text(node)
                + " contains duplicate case "@ + text::debug_text(case),
            GraphFault::EmptySwitchCaseValues { node, case } => "switch "@ + text::debug_text(node)
                + " case "@ + text::debug_text(case) + " must match at least one value"@,
            GraphFault::DuplicateSwitchValue { node, value } => "switch "@ + text::debug_text(node)
                + " matches value "@ + value + " in more than one case"@,
            GraphFault::SwitchCaseTypeMismatch { node, case, selector, value } => "switch "@
                + text::debug_text(node) + " case "@ + text::debug_text(case)
                + " compares selector "@ + selector.debug() + " with incompatible value "@
                + value.debug(),
            GraphFault::InvalidExpression { node, code, location, message } => "node "@
                + text::debug_text(node) + " has invalid expression ("@ + code + " at "@ + location
                + "): "@ + message,
            GraphFault::ExitCodeSourceNotRunScript { consumer, producer } => "exit-code condition on "@
                + text::debug_text(consumer) + " references "@ + text::debug_text(producer)
                + ", which is not a run-script action"@,
            GraphFault::ExitCodeNotSuccessful { consumer, producer, code } => "exit-code condition on "@
                + text::debug_text(consumer) + " uses code "@ + text::decimal(code as nat)
                + ", which is not in "@ + text::debug_text(producer) + ".success_exit_codes"@,
            GraphFault::UnknownContextStep { consumer, producer } => "node "@
                + text::debug_text(consumer) + " references unknown context step "@
                + text::debug_text(producer),
            GraphFault::ContextNotVisible { consumer, producer } => "context from "@
                + text::debug_text(producer) + " does not dominate consumer "@
                + text::debug_text(consumer),
            GraphFault::LoopContextNotVisible { consumer, loop_node } => "loop context "@
                + text::debug_text(loop_node) + " is not visible to "@ + text::debug_text(consumer),
            GraphFault::LocalNotVisible { consumer, binding } => "local binding "@
                + text::debug_text(binding) + " is not visible to "@ + text::debug_text(consumer),
            GraphFault::InvalidLocalPath { consumer, binding } => "local binding "@
                + text::debug_text(binding) + " contains an empty path segment in "@
                + text::debug_text(consumer),
        }
    }
}

impl GraphValidationError {
    pub open spec fn view(&self) -> GraphErrorView {
        GraphErrorView { path: self.path@, kind: self.kind@ }
    }

    pub fn message(&self) -> (res: String)
        ensures
            res@ == self@.message(),
    {
        let mut out = joined(&self.path, ": ");
        out.append(&self.kind.message());
        out
    }
}

impl GraphErrorView {
    pub open spec fn message(self) -> Seq<char> {
        self.path + ": "@ + self.kind.message()
    }
}

impl Clone for GraphValidationErrorKind {
    fn clone(&self) -> (res: Self)
        ensures
            res@ == self@,
    {
        match self {
            GraphValidationErrorKind::UnsupportedVersion { found, supported } =>
                GraphValidationErrorKind::UnsupportedVersion {
                    found: *found,
                    supported: *supported,
                },
            GraphValidationErrorKind::EmptyGraphId => GraphValidationErrorKind::EmptyGraphId,
            GraphValidationErrorKind::EmptyGraph => GraphValidationErrorKind::EmptyGraph,
            GraphValidationErrorKind::EmptyNodeId => GraphValidationErrorKind::EmptyNodeId,
            GraphValidationErrorKind::ReservedNodeId { id } =>
                GraphValidationErrorKind::ReservedNodeId {
                    id: id.clone(),
                },
            GraphValidationErrorKind::DuplicateNodeId { id, first_path } =>
                GraphValidationErrorKind::DuplicateNodeId {
                    id: id.clone(),
                    first_path: first_path.clone(),
                },
            GraphValidationErrorKind::EmptyEntries => GraphValidationErrorKind::EmptyEntries,
            GraphValidationErrorKind::DuplicateEntry { node } =>
                GraphValidationErrorKind::DuplicateEntry {
                    node: node.clone(),
                },
            GraphValidationErrorKind::UnknownEntry { node } =>
                GraphValidationErrorKind::UnknownEntry {
                    node: node.clone(),
                },
            GraphValidationErrorKind::EntryHasIncoming { node } =>
                GraphValidationErrorKind::EntryHasIncoming {
                    node: node.clone(),
                },
            GraphValidationErrorKind::UnknownEndpoint { node } =>
                GraphValidationErrorKind::UnknownEndpoint {
                    node: node.clone(),
                },
            GraphValidationErrorKind::InvalidSourcePort { node, kind, port } =>
                GraphValidationErrorKind::InvalidSourcePort {
                    node: node.clone(),
                    kind: kind.clone(),
                    port: *port,
                },
            GraphValidationErrorKind::InvalidTargetPort { node, port } =>
                GraphValidationErrorKind::InvalidTargetPort {
                    node: node.clone(),
                    port: *port,
                },
            GraphValidationErrorKind::DuplicateEdge => GraphValidationErrorKind::DuplicateEdge,
            GraphValidationErrorKind::Cycle { nodes } => GraphValidationErrorKind::Cycle {
                nodes: clone_texts(nodes),
            },
            GraphValidationErrorKind::UnreachableNode { node } =>
                GraphValidationErrorKind::UnreachableNode {
                    node: node.clone(),
                },
            GraphValidationErrorKind::EmptyExitName => GraphValidationErrorKind::EmptyExitName,
            GraphValidationErrorKind::DuplicateExitName { name } =>
                GraphValidationErrorKind::DuplicateExitName {
                    name: name.clone(),
                },
            GraphValidationErrorKind::UnlistedTerminal { node } =>
                GraphValidationErrorKind::UnlistedTerminal {
                    node: node.clone(),
                },
            GraphValidationErrorKind::JoinNeedsMultipleInputs { node, found } =>
                GraphValidationErrorKind::JoinNeedsMultipleInputs {
                    node: node.clone(),
                    found: *found,
                },
            GraphValidationErrorKind::ResourceLimitExceeded { resource, found, limit } =>
                GraphValidationErrorKind::ResourceLimitExceeded {
                    resource: resource.clone(),
                    found: *found,
                    limit: *limit,
                },
            GraphValidationErrorKind::ErrorLimitReached { limit } =>
                GraphValidationErrorKind::ErrorLimitReached {
                    limit: *limit,
                },
            GraphValidationErrorKind::InvalidAction { node, message } =>
                GraphValidationErrorKind::InvalidAction {
                    node: node.clone(),
                    message: message.clone(),
                },
            GraphValidationErrorKind::LegacyControlAction { node } =>
                GraphValidationErrorKind::LegacyControlAction {
                    node: node.clone(),
                },
            GraphValidationErrorKind::EmptyBindingName { node } =>
                GraphValidationErrorKind::EmptyBindingName {
                    node: node.clone(),
                },
            GraphValidationErrorKind::DuplicateBindingTarget { node, first, duplicate } =>
                GraphValidationErrorKind::DuplicateBindingTarget {
                    node: node.clone(),
                    first: first.clone(),
                    duplicate: duplicate.clone(),
                },
            GraphValidationErrorKind::UnknownBindingField { node, field } =>
                GraphValidationErrorKind::UnknownBindingField {
                    node: node.clone(),
                    field: field.clone(),
                },
            GraphValidationErrorKind::UnknownContextField { consumer, producer, field } =>
                GraphValidationErrorKind::UnknownContextField {
                    consumer: consumer.clone(),
                    producer: producer.clone(),
                    field: field.clone(),
                },
            GraphValidationErrorKind::OutputSchemaUnavailable { consumer, producer } =>
                GraphValidationErrorKind::OutputSchemaUnavailable {
                    consumer: consumer.clone(),
                    producer: producer.clone(),
                },
            GraphValidationErrorKind::BindingTypeMismatch { node, field, expected, actual } =>
                GraphValidationErrorKind::BindingTypeMismatch {
                    node: node.clone(),
                    field: field.clone(),
                    expected: expected.clone(),
                    actual: actual.clone(),
                },
            GraphValidationErrorKind::BindingMayBeMissing { node, field } =>
                GraphValidationErrorKind::BindingMayBeMissing {
                    node: node.clone(),
                    field: field.clone(),
                },
            GraphValidationErrorKind::BindingMayBeNull { node, field } =>
                GraphValidationErrorKind::BindingMayBeNull {
                    node: node.clone(),
                    field: field.clone(),
                },
            GraphValidationErrorKind::InvalidBindingValue { node, field, message } =>
                GraphValidationErrorKind::InvalidBindingValue {
                    node: node.clone(),
                    field: field.clone(),
                    message: message.clone(),
                },
            GraphValidationErrorKind::SecretBindingFlow { node, field } =>
                GraphValidationErrorKind::SecretBindingFlow {
                    node: node.clone(),
                    field: field.clone(),
                },
            GraphValidationErrorKind::ForEachCollectionNotArray { node, actual } =>
                GraphValidationErrorKind::ForEachCollectionNotArray {
                    node: node.clone(),
                    actual: clone_type(actual),
                },
            GraphValidationErrorKind::InterpolatedFieldNotScalar { consumer, field, actual } =>
                GraphValidationErrorKind::InterpolatedFieldNotScalar {
                    consumer: consumer.clone(),
                    field: field.clone(),
                    actual: actual.clone(),
                },
            GraphValidationErrorKind::InvalidAlias { node, alias } =>
                GraphValidationErrorKind::InvalidAlias {
                    node: node.clone(),
                    alias: alias.clone(),
                },
            GraphValidationErrorKind::ShadowedAlias { node, alias } =>
                GraphValidationErrorKind::ShadowedAlias {
                    node: node.clone(),
                    alias: alias.clone(),
                },
            GraphValidationErrorKind::DuplicateAlias { node, alias } =>
                GraphValidationErrorKind::DuplicateAlias {
                    node: node.clone(),
                    alias: alias.clone(),
                },
            GraphValidationErrorKind::InvalidConcurrency { node } =>
                GraphValidationErrorKind::InvalidConcurrency {
                    node: node.clone(),
                },
            GraphValidationErrorKind::EmptySwitchCases { node } =>
                GraphValidationErrorKind::EmptySwitchCases {
                    node: node.clone(),
                },
            GraphValidationErrorKind::EmptySwitchCaseId { node } =>
                GraphValidationErrorKind::EmptySwitchCaseId {
                    node: node.clone(),
                },
            GraphValidationErrorKind::DuplicateSwitchCaseId { node, case } =>
                GraphValidationErrorKind::DuplicateSwitchCaseId {
                    node: node.clone(),
                    case: case.clone(),
                },
            GraphValidationErrorKind::EmptySwitchCaseValues { node, case } =>
                GraphValidationErrorKind::EmptySwitchCaseValues {
                    node: node.clone(),
                    case: case.clone(),
                },
            GraphValidationErrorKind::DuplicateSwitchValue { node, value } =>
                GraphValidationErrorKind::DuplicateSwitchValue {
                    node: node.clone(),
                    value: value.clone(),
                },
            GraphValidationErrorKind::SwitchCaseTypeMismatch { node, case, selector, value } =>
                GraphValidationErrorKind::SwitchCaseTypeMismatch {
                    node: node.clone(),
                    case: case.clone(),
                    selector: selector.clone(),
                    value: value.clone(),
                },
            GraphValidationErrorKind::InvalidExpression { node, code, location, message } =>
                GraphValidationErrorKind::InvalidExpression {
                    node: node.clone(),
                    code: code.clone(),
                    location: location.clone(),
                    message: message.clone(),
                },
            GraphValidationErrorKind::ExitCodeSourceNotRunScript { consumer, producer } =>
                GraphValidationErrorKind::ExitCodeSourceNotRunScript {
                    consumer: consumer.clone(),
                    producer: producer.clone(),
                },
            GraphValidationErrorKind::ExitCodeNotSuccessful { consumer, producer, code } =>
                GraphValidationErrorKind::ExitCodeNotSuccessful {
                    consumer: consumer.clone(),
                    producer: producer.clone(),
                    code: *code,
                },
            GraphValidationErrorKind::UnknownContextStep { consumer, producer } =>
                GraphValidationErrorKind::UnknownContextStep {
                    consumer: consumer.clone(),
                    producer: producer.clone(),
                },
            GraphValidationErrorKind::ContextNotVisible { consumer, producer } =>
                GraphValidationErrorKind::ContextNotVisible {
                    consumer: consumer.clone(),
                    producer: producer.clone(),
                },
            GraphValidationErrorKind::LoopContextNotVisible { consumer, loop_node } =>
                GraphValidationErrorKind::LoopContextNotVisible {
                    consumer: consumer.clone(),
                    loop_node: loop_node.clone(),
                },
            GraphValidationErrorKind::LocalNotVisible { consumer, binding } =>
                GraphValidationErrorKind::LocalNotVisible {
                    consumer: consumer.clone(),
                    binding: binding.clone(),
                },
            GraphValidationErrorKind::InvalidLocalPath { consumer, binding } =>
                GraphValidationErrorKind::InvalidLocalPath {
                    consumer: consumer.clone(),
                    binding: binding.clone(),
                },
        }
    }
}

impl Clone for GraphValidationError {
    fn clone(&self) -> (res: Self)
        ensures
            res@ == self@,
    {
        GraphValidationError { path: self.path.clone(), kind: self.kind.clone() }
    }
}

pub open spec fn error_views(list: Seq<GraphValidationError>) -> Seq<GraphErrorView> {
    list.map_values(|e: GraphValidationError| e.view())
}

} // verus!
