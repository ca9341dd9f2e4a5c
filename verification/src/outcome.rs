//! What evaluating an expression or resolving a reference can come to.
use vstd::prelude::*;

use crate::context::{FieldRef, FieldRefView};
use crate::expr::{
    ExprTypeView, ExprValueView, ExpressionLimits, ExpressionType,
    ExpressionValue,
};
use crate::text;
use crate::text::{chars_of, joined, owned, piece, starts_with};

verus! {

#[derive(Debug, PartialEq)]
pub enum EvaluationValue {
    Value(ExpressionValue),
    Missing(EvaluationIssue),
    Unknown(EvaluationIssue),
    Error(EvaluationError),
}

/// Result of evaluating a checked Boolean rule.
///
/// No state is coerced to `false`: an explicit null, a missing optional field,
/// an unavailable upstream value and an evaluation failure stay different, so
/// that a runner can apply an intentional policy.
#[derive(Debug, PartialEq, Eq)]
pub enum RuleEvaluation {
    True,
    False,
    Null,
    Missing(EvaluationIssue),
    Unknown(EvaluationIssue),
    Error(EvaluationError),
}

#[derive(Debug, PartialEq, Eq)]
pub struct EvaluationIssue {
    pub message: String,
}

#[derive(Debug, PartialEq, Eq)]
pub struct EvaluationError {
    pub kind: EvaluationErrorKind,
    pub message: String,
}

#[derive(Debug, Clone, Copy, PartialEq, Eq, Structural)]
pub enum EvaluationErrorKind {
    ContractViolation,
    InvalidOperand,
    LimitExceeded,
    Internal,
}

pub struct EvalErrorView {
    pub kind: EvaluationErrorKind,
    pub message: Seq<char>,
}

pub enum OutcomeView {
    Value(ExprValueView),
    Missing(Seq<char>),
    Unknown(Seq<char>),
    Error(EvalErrorView),
}

pub enum RuleView {
    True,
    False,
    Null,
    Missing(Seq<char>),
    Unknown(Seq<char>),
    Error(EvalErrorView),
}

impl EvaluationIssue {
    pub fn new(message: &str) -> (res: Self)
        ensures
            res.message@ == message@,
    {
        EvaluationIssue { message: owned(message) }
    }
}

impl EvaluationError {
    pub open spec fn view(&self) -> EvalErrorView {
        EvalErrorView { kind: self.kind, message: self.message@ }
    }

    pub fn new(kind: EvaluationErrorKind, message: &str) -> (res: Self)
        ensures
            res@ == (EvalErrorView { kind, message: message@ }),
    {
        EvaluationError { kind, message: owned(message) }
    }
}

impl EvaluationValue {
    pub open spec fn view(&self) -> OutcomeView {
        match self {
            EvaluationValue::Value(value) => OutcomeView::Value(value@),
            EvaluationValue::Missing(issue) => OutcomeView::Missing(issue.message@),
            EvaluationValue::Unknown(issue) => OutcomeView::Unknown(issue.message@),
            EvaluationValue::Error(error) => OutcomeView::Error(error@),
        }
    }

    pub fn value(value: ExpressionValue) -> (res: Self)
        ensures
            res@ == OutcomeView::Value(value@),
    {
        EvaluationValue::Value(value)
    }

    pub fn missing(message: &str) -> (res: Self)
        ensures
            res@ == OutcomeView::Missing(message@),
    {
        EvaluationValue::Missing(EvaluationIssue::new(message))
    }

    pub fn unknown(message: &str) -> (res: Self)
        ensures
            res@ == OutcomeView::Unknown(message@),
    {
        EvaluationValue::Unknown(EvaluationIssue::new(message))
    }

    pub fn error(kind: EvaluationErrorKind, message: &str) -> (res: Self)
        ensures
            res@ == OutcomeView::Error(EvalErrorView { kind, message: message@ }),
    {
        EvaluationValue::Error(EvaluationError::new(kind, message))
    }
}

impl Clone for EvaluationIssue {
    fn clone(&self) -> (res: Self)
        ensures
            res == *self,
    {
        EvaluationIssue { message: self.message.clone() }
    }
}

impl Clone for EvaluationError {
    fn clone(&self) -> (res: Self)
        ensures
            res == *self,
    {
        EvaluationError { kind: self.kind, message: self.message.clone() }
    }
}

impl Clone for EvaluationValue {
    fn clone(&self) -> (res: Self)
        ensures
            res@ == self@,
    {
        match self {
            EvaluationValue::Value(value) => EvaluationValue::Value(value.clone()),
            EvaluationValue::Missing(issue) => EvaluationValue::Missing(issue.clone()),
            EvaluationValue::Unknown(issue) => EvaluationValue::Unknown(issue.clone()),
            EvaluationValue::Error(error) => EvaluationValue::Error(error.clone()),
        }
    }
}

impl RuleEvaluation {
    pub open spec fn view(&self) -> RuleView {
        match self {
            RuleEvaluation::True => RuleView::True,
            RuleEvaluation::False => RuleView::False,
            RuleEvaluation::Null => RuleView::Null,
            RuleEvaluation::Missing(issue) => RuleView::Missing(issue.message@),
            RuleEvaluation::Unknown(issue) => RuleView::Unknown(issue.message@),
            RuleEvaluation::Error(error) => RuleView::Error(error@),
        }
    }
}

// ---------------------------------------------------------------------------
// Resolvers
// ---------------------------------------------------------------------------
#[derive(Debug, PartialEq, Eq)]
pub struct SchemaResolutionError {
    pub message: String,
}

/// The mark of a message that reports an exceeded limit.
pub open spec fn limit_prefix() -> Seq<char> {
    "[limit-exceeded] "@
}

/// A message without its mark.
pub open spec fn unmarked(message: Seq<char>) -> Seq<char> {
    if text::has_prefix(message, limit_prefix()) {
        message.skip(limit_prefix().len() as int)
    } else {
        message
    }
}

impl SchemaResolutionError {
    pub fn new(message: &str) -> (res: Self)
        ensures
            res.message@ == message@,
    {
        SchemaResolutionError { message: owned(message) }
    }

    pub fn limit_exceeded(message: &str) -> (res: Self)
        ensures
            res.message@ == limit_prefix() + message@,
    {
        SchemaResolutionError { message: joined("[limit-exceeded] ", message) }
    }

    pub fn is_limit_exceeded(&self) -> (res: bool)
        ensures
            res == text::has_prefix(self.message@, limit_prefix()),
    {
        starts_with(&self.message, "[limit-exceeded] ")
    }

    /// The message without the mark of an exceeded limit.
    pub fn diagnostic_message(&self) -> (res: String)
        ensures
            res@ == unmarked(self.message@),
    {
        if self.is_limit_exceeded() {
            let chars = chars_of(&self.message);
            proof {
                reveal_strlit("[limit-exceeded] ");
            }
            let res = piece(&chars, 17, chars.len());
            assert(res@ =~= self.message@.skip(17));
            res
        } else {
            self.message.clone()
        }
    }
}

/// A limit error keeps its message, and is told apart from the others.
pub proof fn law_limit_mark(message: Seq<char>)
    ensures
        text::has_prefix(limit_prefix() + message, limit_prefix()),
        unmarked(limit_prefix() + message) == message,
{
    let marked = limit_prefix() + message;
    assert(marked.subrange(0, limit_prefix().len() as int) =~= limit_prefix());
    assert(marked.skip(limit_prefix().len() as int) =~= message);
}

/// What an answer says of a type.
pub open spec fn reported_type(res: Result<ExpressionType, SchemaResolutionError>) -> Result<
    ExprTypeView,
    Seq<char>,
> {
    match res {
        Ok(t) => Ok(t@),
        Err(e) => Err(e.message@),
    }
}

/// What a resolver reports.
pub open spec fn resolves(
    res: Result<ExpressionType, SchemaResolutionError>,
    want: Result<ExprTypeView, Seq<char>>,
) -> bool {
    reported_type(res) == want
}

/// Resolves stable context references to their expression type.
///
/// The context registry owns visibility and schema traversal. The expression
/// layer only consumes the resulting type, and so cannot make a block visible
/// that is not. It asks nothing of a resolver, not even that it answers alike
/// when it is asked again.
pub trait ExpressionSchemaResolver {
    /// What an implementation says of the answers that `resolve` gives: nothing,
    /// unless it states it.
    open spec fn may_resolve_to(
        &self,
        reference: FieldRefView,
        found: Result<ExprTypeView, Seq<char>>,
    ) -> bool {
        true
    }

    fn resolve(&self, reference: &FieldRef) -> (res: Result<ExpressionType, SchemaResolutionError>)
        ensures
            self.may_resolve_to(reference@, reported_type(res)),
    ;

    /// Bounded variant that the checker asks. A resolver of recursively
    /// structured data enforces the limits here; for any other, this is
    /// `resolve`.
    fn resolve_schema_bounded(&self, reference: &FieldRef, limits: ExpressionLimits) -> (res:
        Result<ExpressionType, SchemaResolutionError>)
        default_ensures
            call_ensures(Self::resolve, (self, reference), res),
    {
        self.resolve(reference)
    }
}

/// Supplies one immutable activation value for a checked reference.
pub trait ExpressionValueResolver {
    /// What an implementation says of the answers that `resolve` gives: nothing,
    /// unless it states it.
    open spec fn may_resolve_to(&self, reference: FieldRefView, found: OutcomeView) -> bool {
        true
    }

    fn resolve(&self, reference: &FieldRef) -> (res: EvaluationValue)
        ensures
            self.may_resolve_to(reference@, res@),
    ;

    /// Bounded variant that the evaluator asks. Where a resolver does not have
    /// its own, this is `resolve`.
    fn resolve_value_bounded(&self, reference: &FieldRef, limits: ExpressionLimits) -> (res:
        EvaluationValue)
        default_ensures
            call_ensures(Self::resolve, (self, reference), res),
    {
        self.resolve(reference)
    }
}

} // verus!
