//! What can go wrong when an action input is bound.
use vstd::prelude::*;

use crate::context::{FieldRef, FieldRefView};
use crate::debug::show_type;
use crate::schema::{ContextType, TypeView};
use crate::text;
use crate::text::{count_text, joined, owned, quoted};

verus! {

#[derive(Debug, PartialEq)]
pub enum BindingError {
    EmptyTarget(String),
    InvalidPointer { target: String },
    PathLimit { target: String, limit: usize },
    UnknownInput { action: String, target: String },
    IndexedInputTarget { target: String },
    MissingSourceSchema { reference: FieldRef },
    MissingSource { reference: FieldRef, message: String },
    InvalidSourceValue { reference: FieldRef, message: String },
    TypeMismatch { reference: FieldRef, expected: ContextType, actual: ContextType },
    InvalidValue { target: String, message: String },
    SecretFlow { reference: FieldRef },
    LegacyTemplate,
    TemplatePartLimit { found: usize, limit: usize },
    NonScalarTemplateField { reference: FieldRef },
    RenderedSizeLimit { limit: usize },
    BindingCountLimit { found: usize, limit: usize },
    DuplicateTarget { target: String },
    Patch { target: String, message: String },
    InvalidStep(String),
}

pub enum BindErrView {
    EmptyTarget(Seq<char>),
    InvalidPointer { target: Seq<char> },
    PathLimit { target: Seq<char>, limit: usize },
    UnknownInput { action: Seq<char>, target: Seq<char> },
    IndexedInputTarget { target: Seq<char> },
    MissingSourceSchema { reference: FieldRefView },
    MissingSource { reference: FieldRefView, message: Seq<char> },
    InvalidSourceValue { reference: FieldRefView, message: Seq<char> },
    TypeMismatch { reference: FieldRefView, expected: TypeView, actual: TypeView },
    InvalidValue { target: Seq<char>, message: Seq<char> },
    SecretFlow { reference: FieldRefView },
    LegacyTemplate,
    TemplatePartLimit { found: usize, limit: usize },
    NonScalarTemplateField { reference: FieldRefView },
    RenderedSizeLimit { limit: usize },
    BindingCountLimit { found: usize, limit: usize },
    DuplicateTarget { target: Seq<char> },
    Patch { target: Seq<char>, message: Seq<char> },
    InvalidStep(Seq<char>),
}

impl BindingError {
    pub open spec fn view(&self) -> BindErrView {
        match self {
            BindingError::EmptyTarget(name) => BindErrView::EmptyTarget(name@),
            BindingError::InvalidPointer { target } => BindErrView::InvalidPointer {
                target: target@,
            },
            BindingError::PathLimit { target, limit } => BindErrView::PathLimit {
                target: target@,
                limit: *limit,
            },
            BindingError::UnknownInput { action, target } => BindErrView::UnknownInput {
                action: action@,
                target: target@,
            },
            BindingError::IndexedInputTarget { target } => BindErrView::IndexedInputTarget {
                target: target@,
            },
            BindingError::MissingSourceSchema { reference } => BindErrView::MissingSourceSchema {
                reference: reference@,
            },
            BindingError::MissingSource { reference, message } => BindErrView::MissingSource {
                reference: reference@,
                message: message@,
            },
            BindingError::InvalidSourceValue { reference, message } =>
                BindErrView::InvalidSourceValue {
                    reference: reference@,
                    message: message@,
                },
            BindingError::TypeMismatch { reference, expected, actual } =>
                BindErrView::TypeMismatch {
                    reference: reference@,
                    expected: expected@,
                    actual: actual@,
                },
            BindingError::InvalidValue { target, message } => BindErrView::InvalidValue {
                target: target@,
                message: message@,
            },
            BindingError::SecretFlow { reference } => BindErrView::SecretFlow {
                reference: reference@,
            },
            BindingError::LegacyTemplate => BindErrView::LegacyTemplate,
            BindingError::TemplatePartLimit { found, limit } => BindErrView::TemplatePartLimit {
                found: *found,
                limit: *limit,
            },
            BindingError::NonScalarTemplateField { reference } =>
                BindErrView::NonScalarTemplateField {
                    reference: reference@,
                },
            BindingError::RenderedSizeLimit { limit } => BindErrView::RenderedSizeLimit {
                limit: *limit,
            },
            BindingError::BindingCountLimit { found, limit } => BindErrView::BindingCountLimit {
                found: *found,
                limit: *limit,
            },
            BindingError::DuplicateTarget { target } => BindErrView::DuplicateTarget {
                target: target@,
            },
            BindingError::Patch { target, message } => BindErrView::Patch {
                target: target@,
                message: message@,
            },
            BindingError::InvalidStep(name) => BindErrView::InvalidStep(name@),
        }
    }

    /// The message that a reader is shown.
    pub fn message(&self) -> (res: String)
        ensures
            res@ == self@.message(),
    {
        match self {
            BindingError::EmptyTarget(name) => {
                let mut out = joined("binding target ", &quoted(name));
                out.append(" is empty");
                out
            },
            BindingError::InvalidPointer { target } => {
                let mut out = joined("binding target ", &quoted(target));
                out.append(" has an invalid JSON Pointer escape");
                out
            },
            BindingError::PathLimit { target, limit } => {
                let mut out = joined("binding target ", &quoted(target));
                out.append(" exceeds ");
                out.append(&count_text(*limit));
                out.append(" path segments");
                out
            },
            BindingError::UnknownInput { action, target } => {
                let mut out = joined("action ", action);
                out.append(" has no declared input field at ");
                out.append(target);
                out
            },
            BindingError::IndexedInputTarget { target } => {
                let mut out = joined("binding target ", &quoted(target));
                out.append(" indexes an action input array; bind the whole array instead");
                out
            },
            BindingError::MissingSourceSchema { reference } => {
                let mut out = joined("context reference ", &reference.debug());
                out.append(" has no declared schema");
                out
            },
            BindingError::MissingSource { reference, message } => {
                let mut out = joined("context reference ", &reference.debug());
                out.append(" cannot be resolved: ");
                out.append(message);
                out
            },
            BindingError::InvalidSourceValue { reference, message } => {
                let mut out = joined("context reference ", &reference.debug());
                out.append(" violates its declared contract: ");
                out.append(message);
                out
            },
            BindingError::TypeMismatch { reference, expected, actual } => {
                let mut out = joined("context reference ", &reference.debug());
                out.append(" has incompatible type ");
                out.append(&show_type(actual));
                out.append("; expected ");
                out.append(&show_type(expected));
                out
            },
            BindingError::InvalidValue { target, message } => {
                let mut out = joined("binding value for ", target);
                out.append(" violates its input contract: ");
                out.append(message);
                out
            },
            BindingError::SecretFlow { reference } => {
                let mut out = joined("secret context reference ", &reference.debug());
                out.append(" cannot flow into a non-secret input");
                out
            },
            BindingError::LegacyTemplate => owned("legacy textual template contains placeholders; migrate it to structural parts"),
            BindingError::TemplatePartLimit { found, limit } => {
                let mut out = joined("template has ", &count_text(*found));
                out.append(" parts; limit is ");
                out.append(&count_text(*limit));
                out
            },
            BindingError::NonScalarTemplateField { reference } => {
                let mut out = joined("template field ", &reference.debug());
                out.append(" is null or not a scalar");
                out
            },
            BindingError::RenderedSizeLimit { limit } => {
                let mut out = joined("rendered template exceeds ", &count_text(*limit));
                out.append(" bytes");
                out
            },
            BindingError::BindingCountLimit { found, limit } => {
                let mut out = joined("step contains ", &count_text(*found));
                out.append(" bindings; limit is ");
                out.append(&count_text(*limit));
                out
            },
            BindingError::DuplicateTarget { target } => joined("two binding targets normalize to ", target),
            BindingError::Patch { target, message } => {
                let mut out = joined("cannot write binding target ", target);
                out.append(": ");
                out.append(message);
                out
            },
            BindingError::InvalidStep(name) => joined("bound step is invalid: ", name),
        }
    }
}

impl BindErrView {
    pub open spec fn message(self) -> Seq<char> {
        match self {
            BindErrView::EmptyTarget(name) => "binding target "@ + text::debug_text(name)
                + " is empty"@,
            BindErrView::InvalidPointer { target } => "binding target "@ + text::debug_text(target)
                + " has an invalid JSON Pointer escape"@,
            BindErrView::PathLimit { target, limit } => "binding target "@
                + text::debug_text(target) + " exceeds "@ + text::decimal(limit as nat)
                + " path segments"@,
            BindErrView::UnknownInput { action, target } => "action "@ + action
                + " has no declared input field at "@ + target,
            BindErrView::IndexedInputTarget { target } => "binding target "@
                + text::debug_text(target)
                + " indexes an action input array; bind the whole array instead"@,
            BindErrView::MissingSourceSchema { reference } => "context reference "@
                + reference.debug() + " has no declared schema"@,
            BindErrView::MissingSource { reference, message } => "context reference "@
                + reference.debug() + " cannot be resolved: "@ + message,
            BindErrView::InvalidSourceValue { reference, message } => "context reference "@
                + reference.debug() + " violates its declared contract: "@ + message,
            BindErrView::TypeMismatch { reference, expected, actual } => "context reference "@
                + reference.debug() + " has incompatible type "@ + actual.debug() + "; expected "@
                + expected.debug(),
            BindErrView::InvalidValue { target, message } => "binding value for "@ + target
                + " violates its input contract: "@ + message,
            BindErrView::SecretFlow { reference } => "secret context reference "@
                + reference.debug() + " cannot flow into a non-secret input"@,
            BindErrView::LegacyTemplate => "legacy textual template contains placeholders; migrate it to structural parts"@,
            BindErrView::TemplatePartLimit { found, limit } => "template has "@
                + text::decimal(found as nat) + " parts; limit is "@ + text::decimal(limit as nat),
            BindErrView::NonScalarTemplateField { reference } => "template field "@
                + reference.debug() + " is null or not a scalar"@,
            BindErrView::RenderedSizeLimit { limit } => "rendered template exceeds "@
                + text::decimal(limit as nat) + " bytes"@,
            BindErrView::BindingCountLimit { found, limit } => "step contains "@
                + text::decimal(found as nat) + " bindings; limit is "@
                + text::decimal(limit as nat),
            BindErrView::DuplicateTarget { target } => "two binding targets normalize to "@ + target,
            BindErrView::Patch { target, message } => "cannot write binding target "@ + target
                + ": "@ + message,
            BindErrView::InvalidStep(name) => "bound step is invalid: "@ + name,
        }
    }
}

} // verus!
