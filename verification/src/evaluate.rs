//! Evaluation of checked expressions.
use vstd::prelude::*;

use crate::context::{FieldRef, FieldRefView};
use crate::expr::{
    entry_views, expr_views, list_views, saturated, type_views, CollectionQuantifier,
    ComparisonOperator, ExprTypeView, ExprValueView, ExprView, ExpressionLimits, ExpressionType,
    ExpressionTypeKind, ExpressionV1, ExpressionValue, KindView, ReferenceV1, ReferenceView,
};
use crate::expression::{local_type, regex_matches, CheckedExpressionV1, ProgramView};
use crate::json::{finite_bits, float_rank, is_finite_bits, rank_of_float};
use crate::numeric::{
    integer_order, integer_rank, integer_text, order_of, rank_of_integer, show_integer,
    text_order, text_order_of, Order,
};
use crate::outcome::{
    EvalErrorView, EvaluationError, EvaluationErrorKind, EvaluationValue,
    ExpressionValueResolver, OutcomeView, RuleEvaluation, RuleView,
};
use crate::text;
use crate::text::{
    contains_text, count_text, ends_with, joined, owned, quoted, same_text, starts_with,
    text_len, text_views,
};
use crate::text_map;
use crate::text_map::TextMap;

verus! {

// ---------------------------------------------------------------------------
// Answers
// ---------------------------------------------------------------------------
/// What is answered of each reference.
pub type ValueSource = spec_fn(FieldRefView) -> OutcomeView;

/// Whether a resolver may give an answer.
pub open spec fn may_answer<R: ExpressionValueResolver>(
    resolver: &R,
    limits: ExpressionLimits,
    reference: FieldRefView,
    found: OutcomeView,
) -> bool {
    exists|field: &FieldRef, res: EvaluationValue|
        field@ == reference && #[trigger] call_ensures(
            R::resolve_value_bounded,
            (resolver, field, limits),
            res,
        ) && res@ == found
}

/// A record of what a resolver answered: each reference once.
pub open spec fn answered<R: ExpressionValueResolver>(
    resolver: &R,
    limits: ExpressionLimits,
    record: Seq<(FieldRefView, OutcomeView)>,
) -> bool {
    &&& forall|i: int|
        0 <= i < record.len() ==> may_answer(
            resolver,
            limits,
            (#[trigger] record[i]).0,
            record[i].1,
        )
    &&& forall|i: int, j: int|
        0 <= i < j < record.len() ==> (#[trigger] record[i]).0 != (#[trigger] record[j]).0
}

/// Whether answers are those of a record, as far as it goes.
#[verifier::opaque]
pub open spec fn agree(answers: ValueSource, record: Seq<(FieldRefView, OutcomeView)>) -> bool {
    forall|i: int|
        0 <= i < record.len() ==> answers((#[trigger] record[i]).0) == record[i].1
}

// ---------------------------------------------------------------------------
// The model
// ---------------------------------------------------------------------------
/// What an evaluation has used so far.
pub struct EvalView {
    pub operations: nat,
    pub visits: nat,
    pub bytes: nat,
}

pub open spec fn unused() -> EvalView {
    EvalView { operations: 0, visits: 0, bytes: 0 }
}

pub open spec fn fault(kind: EvaluationErrorKind, message: Seq<char>) -> EvalErrorView {
    EvalErrorView { kind, message }
}

pub open spec fn over_limit(message: Seq<char>) -> Result<(), EvalErrorView> {
    Err(fault(EvaluationErrorKind::LimitExceeded, message))
}

impl EvalView {
    pub open spec fn operation(self, limits: ExpressionLimits) -> (
        EvalView,
        Result<(), EvalErrorView>,
    ) {
        let st = EvalView { operations: saturated(self.operations + 1), ..self };
        if st.operations > limits.max_operations {
            (
                st,
                over_limit(
                    "expression exceeded operation limit "@ + text::decimal(
                        limits.max_operations as nat,
                    ),
                ),
            )
        } else {
            (st, Ok(()))
        }
    }

    pub open spec fn visit(self, limits: ExpressionLimits) -> (
        EvalView,
        Result<(), EvalErrorView>,
    ) {
        let st = EvalView { visits: saturated(self.visits + 1), ..self };
        if st.visits > limits.max_collection_visits {
            (
                st,
                over_limit(
                    "expression exceeded collection-visit limit "@ + text::decimal(
                        limits.max_collection_visits as nat,
                    ),
                ),
            )
        } else {
            (st, Ok(()))
        }
    }

    pub open spec fn string(self, limits: ExpressionLimits, s: Seq<char>) -> (
        EvalView,
        Result<(), EvalErrorView>,
    ) {
        let n = text::byte_len(s);
        if n > limits.max_string_bytes {
            (
                self,
                over_limit(
                    "string is "@ + text::decimal(n) + " bytes; limit is "@ + text::decimal(
                        limits.max_string_bytes as nat,
                    ),
                ),
            )
        } else if self.bytes + n > usize::MAX {
            (self, over_limit("runtime cumulative string-byte counter overflowed"@))
        } else {
            let st = EvalView { bytes: self.bytes + n, ..self };
            if st.bytes > limits.max_string_bytes {
                (
                    st,
                    over_limit(
                        "runtime value exceeds cumulative string-byte limit "@ + text::decimal(
                            limits.max_string_bytes as nat,
                        ),
                    ),
                )
            } else {
                (st, Ok(()))
            }
        }
    }

    pub open spec fn shallow(self, limits: ExpressionLimits, value: ExprValueView) -> (
        EvalView,
        Result<(), EvalErrorView>,
    ) {
        match value {
            ExprValueView::String(s) => self.string(limits, s),
            ExprValueView::Float(bits) => if finite_bits(bits) {
                (self, Ok(()))
            } else {
                (
                    self,
                    Err(
                        fault(
                            EvaluationErrorKind::ContractViolation,
                            "expression value contains a non-finite float"@,
                        ),
                    ),
                )
            },
            _ => (self, Ok(())),
        }
    }
}

pub open spec fn depth_check(limits: ExpressionLimits, depth: nat) -> Result<(), EvalErrorView> {
    if depth > limits.max_depth {
        over_limit(
            "runtime value exceeds depth limit "@ + text::decimal(limits.max_depth as nat),
        )
    } else {
        Ok(())
    }
}

impl ExprValueView {
    pub open spec fn runtime_type(self) -> Seq<char> {
        match self {
            ExprValueView::Null => "null"@,
            ExprValueView::Bool(_) => "bool"@,
            ExprValueView::Int(_) => "integer"@,
            ExprValueView::UInt(_) => "integer"@,
            ExprValueView::Float(_) => "number"@,
            ExprValueView::String(_) => "string"@,
            ExprValueView::List(_) => "list"@,
            ExprValueView::Object(_) => "object"@,
        }
    }

    pub open spec fn numeric(self) -> bool {
        self is Int || self is UInt || self is Float
    }

    /// The integer that a value is, if it is one.
    pub open spec fn integer(self) -> Option<int> {
        match self {
            ExprValueView::Int(n) => Some(n as int),
            ExprValueView::UInt(n) => Some(n as int),
            _ => None,
        }
    }
}

/// The position of a number among the doubles: that of a finite float, or that
/// of an integer which is exactly one.
pub open spec fn rank(value: ExprValueView) -> Result<int, EvalErrorView> {
    match value {
        ExprValueView::Float(bits) => Ok(float_rank(bits)),
        _ => {
            let n = value.integer()->0;
            match integer_rank(n) {
                Some(r) => Ok(r),
                None => Err(
                    fault(
                        EvaluationErrorKind::InvalidOperand,
                        "integer "@ + integer_text(n)
                            + " cannot be represented exactly as a float"@,
                    ),
                ),
            }
        },
    }
}

pub open spec fn finite(value: ExprValueView) -> bool {
    value matches ExprValueView::Float(bits) ==> finite_bits(bits)
}

/// The order of two numbers: integers compare as integers, and an integer
/// compares with a float where it is exactly one.
pub open spec fn numeric_order(left: ExprValueView, right: ExprValueView) -> Result<
    Order,
    EvalErrorView,
> {
    if !left.numeric() || !right.numeric() {
        Err(
            fault(
                EvaluationErrorKind::InvalidOperand,
                "numeric comparison received a non-numeric value"@,
            ),
        )
    } else {
        match (left.integer(), right.integer()) {
            (Some(a), Some(b)) => Ok(order_of(a, b)),
            _ => match (rank(left), rank(right)) {
                (Err(e), _) => Err(e),
                (_, Err(e)) => Err(e),
                (Ok(a), Ok(b)) => if finite(left) && finite(right) {
                    Ok(order_of(a, b))
                } else {
                    Err(
                        fault(
                            EvaluationErrorKind::InvalidOperand,
                            "numeric comparison requires finite floating-point values"@,
                        ),
                    )
                },
            },
        }
    }
}

pub open spec fn value_order(
    limits: ExpressionLimits,
    st: EvalView,
    left: ExprValueView,
    right: ExprValueView,
) -> (EvalView, Result<Order, EvalErrorView>) {
    match (left, right) {
        (ExprValueView::String(a), ExprValueView::String(b)) => match st.string(limits, a) {
            (st, Err(e)) => (st, Err(e)),
            (st, Ok(_)) => match st.string(limits, b) {
                (st, Err(e)) => (st, Err(e)),
                (st, Ok(_)) => (st, Ok(text_order_of(a, b))),
            },
        },
        _ => if left.numeric() && right.numeric() {
            (st, numeric_order(left, right))
        } else {
            (
                st,
                Err(
                    fault(
                        EvaluationErrorKind::InvalidOperand,
                        "ordering is not defined for "@ + left.runtime_type() + " and "@
                            + right.runtime_type(),
                    ),
                ),
            )
        },
    }
}

/// Whether two values are equal.
pub open spec fn value_equal(
    limits: ExpressionLimits,
    st: EvalView,
    left: ExprValueView,
    right: ExprValueView,
    depth: nat,
) -> (EvalView, Result<bool, EvalErrorView>)
    decreases left, 1int,
{
    match depth_check(limits, depth) {
        Err(e) => (st, Err(e)),
        Ok(_) => match (left, right) {
            (ExprValueView::Null, _) => (st, Ok(right is Null)),
            (_, ExprValueView::Null) => (st, Ok(false)),
            (ExprValueView::Bool(a), ExprValueView::Bool(b)) => (st, Ok(a == b)),
            (ExprValueView::String(a), ExprValueView::String(b)) => match st.string(limits, a) {
                (st, Err(e)) => (st, Err(e)),
                (st, Ok(_)) => match st.string(limits, b) {
                    (st, Err(e)) => (st, Err(e)),
                    (st, Ok(_)) => (st, Ok(a == b)),
                },
            },
            (ExprValueView::List(a), ExprValueView::List(b)) => if a.len() != b.len() {
                (st, Ok(false))
            } else {
                items_equal(limits, st, a, b, depth, 0)
            },
            (ExprValueView::Object(a), ExprValueView::Object(b)) => if a.len() != b.len() {
                (st, Ok(false))
            } else {
                members_equal(limits, st, a, b, depth, 0)
            },
            _ => if left.numeric() && right.numeric() {
                match numeric_order(left, right) {
                    Ok(order) => (st, Ok(order == Order::Equal)),
                    Err(e) => (st, Err(e)),
                }
            } else {
                (
                    st,
                    Err(
                        fault(
                            EvaluationErrorKind::InvalidOperand,
                            "cannot compare "@ + left.runtime_type() + " with "@ + right.runtime_type(),
                        ),
                    ),
                )
            },
        },
    }
}

/// Whether two lists of one length are equal from the `i`-th item on.
pub open spec fn items_equal(
    limits: ExpressionLimits,
    st: EvalView,
    left: Seq<ExprValueView>,
    right: Seq<ExprValueView>,
    depth: nat,
    i: nat,
) -> (EvalView, Result<bool, EvalErrorView>)
    decreases left, left.len() - i,
{
    if i >= left.len() {
        (st, Ok(true))
    } else {
        match st.visit(limits) {
            (st, Err(e)) => (st, Err(e)),
            (st, Ok(_)) => match value_equal(
                limits,
                st,
                left[i as int],
                right[i as int],
                saturated(depth + 1),
            ) {
                (st, Err(e)) => (st, Err(e)),
                (st, Ok(same)) => if same {
                    items_equal(limits, st, left, right, depth, i + 1)
                } else {
                    (st, Ok(false))
                },
            },
        }
    }
}

/// Whether every member of `left` from the `i`-th on equals that of `right`.
pub open spec fn members_equal(
    limits: ExpressionLimits,
    st: EvalView,
    left: Seq<(Seq<char>, ExprValueView)>,
    right: Seq<(Seq<char>, ExprValueView)>,
    depth: nat,
    i: nat,
) -> (EvalView, Result<bool, EvalErrorView>)
    decreases left, left.len() - i,
{
    if i >= left.len() {
        (st, Ok(true))
    } else {
        match st.visit(limits) {
            (st, Err(e)) => (st, Err(e)),
            (st, Ok(_)) => match text_map::lookup(right, left[i as int].0) {
                None => (st, Ok(false)),
                Some(other) => match st.string(limits, left[i as int].0) {
                    (st, Err(e)) => (st, Err(e)),
                    (st, Ok(_)) => match value_equal(
                        limits,
                        st,
                        left[i as int].1,
                        other,
                        saturated(depth + 1),
                    ) {
                        (st, Err(e)) => (st, Err(e)),
                        (st, Ok(same)) => if same {
                            members_equal(limits, st, left, right, depth, i + 1)
                        } else {
                            (st, Ok(false))
                        },
                    },
                },
            },
        }
    }
}

/// Whether a value of no declared type is within bounds.
pub open spec fn untyped(
    limits: ExpressionLimits,
    st: EvalView,
    value: ExprValueView,
    depth: nat,
) -> (EvalView, Result<(), EvalErrorView>)
    decreases value, 1int,
{
    match depth_check(limits, depth) {
        Err(e) => (st, Err(e)),
        Ok(_) => match value {
            ExprValueView::String(s) => st.string(limits, s),
            ExprValueView::Float(bits) => if finite_bits(bits) {
                (st, Ok(()))
            } else {
                (
                    st,
                    Err(
                        fault(
                            EvaluationErrorKind::ContractViolation,
                            "context contains a non-finite float"@,
                        ),
                    ),
                )
            },
            ExprValueView::List(values) => untyped_items(limits, st, values, depth, 0),
            ExprValueView::Object(values) => untyped_members(limits, st, values, depth, 0),
            _ => (st, Ok(())),
        },
    }
}

pub open spec fn untyped_items(
    limits: ExpressionLimits,
    st: EvalView,
    values: Seq<ExprValueView>,
    depth: nat,
    i: nat,
) -> (EvalView, Result<(), EvalErrorView>)
    decreases values, values.len() - i,
{
    if i >= values.len() {
        (st, Ok(()))
    } else {
        match st.visit(limits) {
            (st, Err(e)) => (st, Err(e)),
            (st, Ok(_)) => match untyped(limits, st, values[i as int], saturated(depth + 1)) {
                (st, Err(e)) => (st, Err(e)),
                (st, Ok(_)) => untyped_items(limits, st, values, depth, i + 1),
            },
        }
    }
}

pub open spec fn untyped_members(
    limits: ExpressionLimits,
    st: EvalView,
    values: Seq<(Seq<char>, ExprValueView)>,
    depth: nat,
    i: nat,
) -> (EvalView, Result<(), EvalErrorView>)
    decreases values, values.len() - i,
{
    if i >= values.len() {
        (st, Ok(()))
    } else {
        match st.visit(limits) {
            (st, Err(e)) => (st, Err(e)),
            (st, Ok(_)) => match st.string(limits, values[i as int].0) {
                (st, Err(e)) => (st, Err(e)),
                (st, Ok(_)) => match untyped(limits, st, values[i as int].1, saturated(depth + 1)) {
                    (st, Err(e)) => (st, Err(e)),
                    (st, Ok(_)) => untyped_members(limits, st, values, depth, i + 1),
                },
            },
        }
    }
}

/// The first required field from the `i`-th on that an object lacks.
pub open spec fn absent_field(
    fields: Seq<(Seq<char>, ExprTypeView)>,
    values: Seq<(Seq<char>, ExprValueView)>,
    i: nat,
) -> Option<Seq<char>>
    decreases fields.len() - i,
{
    if i >= fields.len() {
        None
    } else if !fields[i as int].1.optional && !text_map::has_key(values, fields[i as int].0) {
        Some(fields[i as int].0)
    } else {
        absent_field(fields, values, i + 1)
    }
}

/// Whether a value of the context has the type that was declared for it.
pub open spec fn conforms(
    limits: ExpressionLimits,
    st: EvalView,
    value: ExprValueView,
    expected: ExprTypeView,
    depth: nat,
) -> (EvalView, Result<(), EvalErrorView>)
    decreases value, 1int,
{
    match depth_check(limits, depth) {
        Err(e) => (st, Err(e)),
        Ok(_) => if value is Null {
            if expected.nullable || expected.kind is Null || expected.kind is Any {
                (st, Ok(()))
            } else {
                (
                    st,
                    Err(
                        fault(
                            EvaluationErrorKind::ContractViolation,
                            "context produced null for non-nullable "@ + expected.describe(),
                        ),
                    ),
                )
            }
        } else if expected.kind is Any {
            untyped(limits, st, value, depth)
        } else {
            match (expected.kind, value) {
                (KindView::Bool, ExprValueView::Bool(_)) => st.shallow(limits, value),
                (KindView::Integer, ExprValueView::Int(_)) => st.shallow(limits, value),
                (KindView::Integer, ExprValueView::UInt(_)) => st.shallow(limits, value),
                (KindView::Number, ExprValueView::Int(_)) => st.shallow(limits, value),
                (KindView::Number, ExprValueView::UInt(_)) => st.shallow(limits, value),
                (KindView::Number, ExprValueView::Float(_)) => st.shallow(limits, value),
                (KindView::String, ExprValueView::String(s)) => st.string(limits, s),
                (KindView::List(item), ExprValueView::List(values)) => conforming_items(
                    limits,
                    st,
                    values,
                    *item,
                    depth,
                    0,
                ),
                (KindView::Object(fields), ExprValueView::Object(values)) => match absent_field(
                    fields,
                    values,
                    0,
                ) {
                    Some(name) => (
                        st,
                        Err(
                            fault(
                                EvaluationErrorKind::ContractViolation,
                                "context object is missing required field "@ + text::debug_text(
                                    name,
                                ),
                            ),
                        ),
                    ),
                    None => conforming_members(limits, st, values, fields, depth, 0),
                },
                _ => (
                    st,
                    Err(
                        fault(
                            EvaluationErrorKind::ContractViolation,
                            "context produced "@ + value.runtime_type() + " where "@
                                + expected.describe() + " was declared"@,
                        ),
                    ),
                ),
            }
        },
    }
}

pub open spec fn conforming_items(
    limits: ExpressionLimits,
    st: EvalView,
    values: Seq<ExprValueView>,
    item: ExprTypeView,
    depth: nat,
    i: nat,
) -> (EvalView, Result<(), EvalErrorView>)
    decreases values, values.len() - i,
{
    if i >= values.len() {
        (st, Ok(()))
    } else {
        match st.visit(limits) {
            (st, Err(e)) => (st, Err(e)),
            (st, Ok(_)) => match conforms(
                limits,
                st,
                values[i as int],
                item,
                saturated(depth + 1),
            ) {
                (st, Err(e)) => (st, Err(e)),
                (st, Ok(_)) => conforming_items(limits, st, values, item, depth, i + 1),
            },
        }
    }
}

pub open spec fn conforming_members(
    limits: ExpressionLimits,
    st: EvalView,
    values: Seq<(Seq<char>, ExprValueView)>,
    fields: Seq<(Seq<char>, ExprTypeView)>,
    depth: nat,
    i: nat,
) -> (EvalView, Result<(), EvalErrorView>)
    decreases values, values.len() - i,
{
    if i >= values.len() {
        (st, Ok(()))
    } else {
        let (name, value) = values[i as int];
        match st.visit(limits) {
            (st, Err(e)) => (st, Err(e)),
            (st, Ok(_)) => match st.string(limits, name) {
                (st, Err(e)) => (st, Err(e)),
                (st, Ok(_)) => match (match text_map::lookup(fields, name) {
                    Some(expected) => conforms(limits, st, value, expected, saturated(depth + 1)),
                    None => untyped(limits, st, value, saturated(depth + 1)),
                }) {
                    (st, Err(e)) => (st, Err(e)),
                    (st, Ok(_)) => conforming_members(limits, st, values, fields, depth, i + 1),
                },
            },
        }
    }
}

pub open spec fn truth(b: bool) -> OutcomeView {
    OutcomeView::Value(ExprValueView::Bool(b))
}

pub open spec fn invalid(message: Seq<char>) -> OutcomeView {
    OutcomeView::Error(fault(EvaluationErrorKind::InvalidOperand, message))
}

/// The value of a field path below a local, from the `i`-th name on.
pub open spec fn local_value(
    limits: ExpressionLimits,
    st: EvalView,
    binding: Seq<char>,
    path: Seq<Seq<char>>,
    i: nat,
    current: ExprValueView,
) -> (EvalView, OutcomeView)
    decreases path.len() - i,
{
    if i >= path.len() {
        match st.shallow(limits, current) {
            (st, Err(e)) => (st, OutcomeView::Error(e)),
            (st, Ok(_)) => (st, OutcomeView::Value(current)),
        }
    } else {
        let name = path[i as int];
        match st.operation(limits) {
            (st, Err(e)) => (st, OutcomeView::Error(e)),
            (st, Ok(_)) => match current {
                ExprValueView::Object(fields) => match text_map::lookup(fields, name) {
                    Some(value) => local_value(limits, st, binding, path, i + 1, value),
                    None => (
                        st,
                        OutcomeView::Missing(
                            "local binding "@ + text::debug_text(binding) + " has no field "@
                                + text::debug_text(name),
                        ),
                    ),
                },
                ExprValueView::Null => (
                    st,
                    invalid(
                        "cannot select field "@ + text::debug_text(name)
                            + " from null local binding "@ + text::debug_text(binding),
                    ),
                ),
                _ => (
                    st,
                    invalid(
                        "cannot select field "@ + text::debug_text(name) + " from "@
                            + current.runtime_type() + " local binding "@ + text::debug_text(binding),
                    ),
                ),
            },
        }
    }
}

/// What a context reference comes to, given what its resolver returned and the
/// type that the check found for it.
pub open spec fn admitted(
    limits: ExpressionLimits,
    st: EvalView,
    field: FieldRefView,
    found: OutcomeView,
    expected: Option<ExprTypeView>,
) -> (EvalView, OutcomeView) {
    match expected {
        None => (
            st,
            OutcomeView::Error(
                fault(
                    EvaluationErrorKind::Internal,
                    "checked program has no type for reference "@ + field.debug(),
                ),
            ),
        ),
        Some(t) => match found {
            OutcomeView::Value(value) => match conforms(limits, st, value, t, 1) {
                (st, Err(e)) => (st, OutcomeView::Error(e)),
                (st, Ok(_)) => (st, found),
            },
            OutcomeView::Missing(message) => if t.optional {
                (st, found)
            } else {
                (
                    st,
                    OutcomeView::Error(
                        fault(
                            EvaluationErrorKind::ContractViolation,
                            "required context field "@ + field.debug() + " is missing: "@
                                + message,
                        ),
                    ),
                )
            },
            _ => (st, found),
        },
    }
}

/// The value of a reference.
pub open spec fn reference_value(
    program: ProgramView,
    answers: ValueSource,
    locals: Seq<(Seq<char>, ExprValueView)>,
    st: EvalView,
    reference: ReferenceView,
) -> (EvalView, OutcomeView) {
    match reference {
        ReferenceView::Context { field } => admitted(
            program.limits,
            st,
            field,
            answers(field),
            text_map::lookup(program.resolved, field),
        ),
        ReferenceView::Local { binding, path } => match local_type(locals, binding) {
            None => (
                st,
                OutcomeView::Error(
                    fault(
                        EvaluationErrorKind::Internal,
                        "checked local binding "@ + text::debug_text(binding)
                            + " is not available"@,
                    ),
                ),
            ),
            Some(root) => local_value(program.limits, st, binding, path, 0, root),
        },
    }
}

/// An outcome where a Boolean is asked for.
pub open spec fn as_bool(found: (EvalView, OutcomeView)) -> (EvalView, OutcomeView) {
    match found {
        (st, OutcomeView::Value(value)) => if value is Bool {
            found
        } else {
            (st, invalid("Boolean expression produced "@ + value.runtime_type()))
        },
        _ => found,
    }
}

pub open spec fn priority(outcome: OutcomeView) -> nat {
    match outcome {
        OutcomeView::Error(_) => 3,
        OutcomeView::Unknown(_) => 2,
        OutcomeView::Missing(_) => 1,
        OutcomeView::Value(_) => 0,
    }
}

/// The issue to remember: the gravest one, and the first among equals.
pub open spec fn graver(slot: Option<OutcomeView>, candidate: OutcomeView) -> Option<OutcomeView> {
    let current = match slot {
        Some(outcome) => priority(outcome),
        None => 0,
    };
    if priority(candidate) > current {
        Some(candidate)
    } else {
        slot
    }
}

pub open spec fn settled(slot: Option<OutcomeView>, identity: bool) -> OutcomeView {
    match slot {
        Some(outcome) => outcome,
        None => truth(identity),
    }
}

/// The answer that one outcome decides, if it does.
pub open spec fn decided(quantifier: CollectionQuantifier, value: bool) -> Option<bool> {
    match quantifier {
        CollectionQuantifier::Any => if value {
            Some(true)
        } else {
            None
        },
        CollectionQuantifier::All => if value {
            None
        } else {
            Some(false)
        },
        CollectionQuantifier::NoneOf => if value {
            Some(false)
        } else {
            None
        },
    }
}

/// The answer over no outcomes.
pub open spec fn vacuous(quantifier: CollectionQuantifier) -> bool {
    quantifier != CollectionQuantifier::Any
}

pub open spec fn compared(
    limits: ExpressionLimits,
    st: EvalView,
    operator: ComparisonOperator,
    left: ExprValueView,
    right: ExprValueView,
) -> (EvalView, OutcomeView) {
    if operator == ComparisonOperator::Equal || operator == ComparisonOperator::NotEqual {
        match value_equal(limits, st, left, right, 1) {
            (st, Err(e)) => (st, OutcomeView::Error(e)),
            (st, Ok(same)) => (st, truth(same == (operator == ComparisonOperator::Equal))),
        }
    } else {
        match value_order(limits, st, left, right) {
            (st, Err(e)) => (st, OutcomeView::Error(e)),
            (st, Ok(order)) => (
                st,
                truth(
                    match operator {
                        ComparisonOperator::LessThan => order == Order::Less,
                        ComparisonOperator::LessThanOrEqual => order != Order::Greater,
                        ComparisonOperator::GreaterThan => order == Order::Greater,
                        _ => order != Order::Less,
                    },
                ),
            ),
        }
    }
}

#[derive(Debug, Clone, Copy, PartialEq, Eq, Structural)]
pub enum StringTest {
    Contains,
    StartsWith,
    EndsWith,
}

pub open spec fn string_test(test: StringTest, value: Seq<char>, operand: Seq<char>) -> bool {
    match test {
        StringTest::Contains => text::contains(value, operand),
        StringTest::StartsWith => text::has_prefix(value, operand),
        StringTest::EndsWith => text::has_suffix(value, operand),
    }
}

/// The answer of a string predicate on what its operands came to.
pub open spec fn string_answer(
    limits: ExpressionLimits,
    st: EvalView,
    test: StringTest,
    value: Seq<char>,
    operand: Seq<char>,
) -> (EvalView, OutcomeView) {
    match st.string(limits, value) {
        (st, Err(e)) => (st, OutcomeView::Error(e)),
        (st, Ok(_)) => match st.string(limits, operand) {
            (st, Err(e)) => (st, OutcomeView::Error(e)),
            (st, Ok(_)) => (st, truth(string_test(test, value, operand))),
        },
    }
}

pub open spec fn as_string(found: OutcomeView, message: Seq<char>) -> Result<
    Seq<char>,
    OutcomeView,
> {
    match found {
        OutcomeView::Value(ExprValueView::String(s)) => Ok(s),
        OutcomeView::Value(value) => Err(invalid(message + value.runtime_type())),
        _ => Err(found),
    }
}

pub open spec fn as_list(found: OutcomeView, message: Seq<char>) -> Result<
    Seq<ExprValueView>,
    OutcomeView,
> {
    match found {
        OutcomeView::Value(ExprValueView::List(values)) => Ok(values),
        OutcomeView::Value(value) => Err(invalid(message + value.runtime_type())),
        _ => Err(found),
    }
}

pub open spec fn regex_answer(
    program: ProgramView,
    st: EvalView,
    value: Seq<char>,
    pattern: Seq<char>,
) -> (EvalView, OutcomeView) {
    match st.string(program.limits, value) {
        (st, Err(e)) => (st, OutcomeView::Error(e)),
        (st, Ok(_)) => if text::byte_len(value) > program.limits.max_regex_input_bytes {
            (
                st,
                OutcomeView::Error(
                    fault(
                        EvaluationErrorKind::LimitExceeded,
                        "regex input is "@ + text::decimal(text::byte_len(value))
                            + " bytes; limit is "@ + text::decimal(
                            program.limits.max_regex_input_bytes as nat,
                        ),
                    ),
                ),
            )
        } else if program.patterns.contains(pattern) {
            (st, truth(regex_matches(pattern, value)))
        } else {
            (
                st,
                OutcomeView::Error(
                    fault(
                        EvaluationErrorKind::Internal,
                        "checked program is missing a compiled regular expression"@,
                    ),
                ),
            )
        },
    }
}

/// Whether a value is among those of a list from the `i`-th on.
pub open spec fn among(
    limits: ExpressionLimits,
    st: EvalView,
    needle: ExprValueView,
    values: Seq<ExprValueView>,
    i: nat,
) -> (EvalView, OutcomeView)
    decreases values.len() - i,
{
    if i >= values.len() {
        (st, truth(false))
    } else {
        match st.visit(limits) {
            (st, Err(e)) => (st, OutcomeView::Error(e)),
            (st, Ok(_)) => match value_equal(limits, st, needle, values[i as int], 1) {
                (st, Err(e)) => (st, OutcomeView::Error(e)),
                (st, Ok(same)) => if same {
                    (st, truth(true))
                } else {
                    among(limits, st, needle, values, i + 1)
                },
            },
        }
    }
}

pub open spec fn emptiness(value: ExprValueView) -> OutcomeView {
    match value {
        ExprValueView::String(s) => truth(s.len() == 0),
        ExprValueView::List(values) => truth(values.len() == 0),
        ExprValueView::Object(values) => truth(values.len() == 0),
        _ => invalid("is-empty expected string, list, or object; found "@ + value.runtime_type()),
    }
}

/// The value of an expression, and what was used to find it.
pub open spec fn evaluated(
    program: ProgramView,
    answers: ValueSource,
    locals: Seq<(Seq<char>, ExprValueView)>,
    st: EvalView,
    e: ExprView,
) -> (EvalView, OutcomeView)
    decreases e, 2int,
{
    match st.operation(program.limits) {
        (st, Err(error)) => (st, OutcomeView::Error(error)),
        (st, Ok(_)) => evaluated_node(program, answers, locals, st, e),
    }
}

/// The value of an expression whose own operation has been counted.
pub open spec fn evaluated_node(
    program: ProgramView,
    answers: ValueSource,
    locals: Seq<(Seq<char>, ExprValueView)>,
    st: EvalView,
    e: ExprView,
) -> (EvalView, OutcomeView)
    decreases e, 1int,
{
    let limits = program.limits;
    match e {
        ExprView::Literal { value } => match st.shallow(limits, value) {
            (st, Err(error)) => (st, OutcomeView::Error(error)),
            (st, Ok(_)) => (st, OutcomeView::Value(value)),
        },
        ExprView::Ref { reference } => reference_value(program, answers, locals, st, reference),
        ExprView::All { expressions } => logical(
            program,
            answers,
            locals,
            st,
            expressions,
            false,
            0,
            None,
        ),
        ExprView::Any { expressions } => logical(
            program,
            answers,
            locals,
            st,
            expressions,
            true,
            0,
            None,
        ),
        ExprView::Not { expression } => match as_bool(
            evaluated(program, answers, locals, st, *expression),
        ) {
            (st, OutcomeView::Value(ExprValueView::Bool(b))) => (st, truth(!b)),
            (st, other) => (st, other),
        },
        ExprView::Exists { reference } => match reference_value(
            program,
            answers,
            locals,
            st,
            reference,
        ) {
            (st, OutcomeView::Value(_)) => (st, truth(true)),
            (st, OutcomeView::Missing(_)) => (st, truth(false)),
            (st, other) => (st, other),
        },
        ExprView::IsNull { expression } => match evaluated(
            program,
            answers,
            locals,
            st,
            *expression,
        ) {
            (st, OutcomeView::Value(value)) => (st, truth(value is Null)),
            (st, other) => (st, other),
        },
        ExprView::IsEmpty { expression } => match evaluated(
            program,
            answers,
            locals,
            st,
            *expression,
        ) {
            (st, OutcomeView::Value(value)) => (st, emptiness(value)),
            (st, other) => (st, other),
        },
        ExprView::Compare { operator, left, right } => match evaluated(
            program,
            answers,
            locals,
            st,
            *left,
        ) {
            (st, OutcomeView::Value(l)) => match evaluated(
                program,
                answers,
                locals,
                st,
                *right,
            ) {
                (st, OutcomeView::Value(r)) => compared(limits, st, operator, l, r),
                (st, other) => (st, other),
            },
            (st, other) => (st, other),
        },
        ExprView::Contains { value, needle } => {
            let (st, first) = evaluated(program, answers, locals, st, *value);
            match as_string(first, "string predicate expected string; found "@) {
                Err(other) => (st, other),
                Ok(v) => {
                    let (st, second) = evaluated(program, answers, locals, st, *needle);
                    match as_string(second, "string predicate expected string operand; found "@)
                    {
                        Err(other) => (st, other),
                        Ok(o) => string_answer(limits, st, StringTest::Contains, v, o),
                    }
                },
            }
        },
        ExprView::StartsWith { value, prefix } => {
            let (st, first) = evaluated(program, answers, locals, st, *value);
            match as_string(first, "string predicate expected string; found "@) {
                Err(other) => (st, other),
                Ok(v) => {
                    let (st, second) = evaluated(program, answers, locals, st, *prefix);
                    match as_string(second, "string predicate expected string operand; found "@)
                    {
                        Err(other) => (st, other),
                        Ok(o) => string_answer(limits, st, StringTest::StartsWith, v, o),
                    }
                },
            }
        },
        ExprView::EndsWith { value, suffix } => {
            let (st, first) = evaluated(program, answers, locals, st, *value);
            match as_string(first, "string predicate expected string; found "@) {
                Err(other) => (st, other),
                Ok(v) => {
                    let (st, second) = evaluated(program, answers, locals, st, *suffix);
                    match as_string(second, "string predicate expected string operand; found "@)
                    {
                        Err(other) => (st, other),
                        Ok(o) => string_answer(limits, st, StringTest::EndsWith, v, o),
                    }
                },
            }
        },
        ExprView::Matches { value, pattern } => {
            let (st, found) = evaluated(program, answers, locals, st, *value);
            match as_string(found, "matches expected string; found "@) {
                Err(other) => (st, other),
                Ok(v) => regex_answer(program, st, v, pattern),
            }
        },
        ExprView::In { needle, collection } => match evaluated(
            program,
            answers,
            locals,
            st,
            *needle,
        ) {
            (st, OutcomeView::Value(n)) => {
                let (st, found) = evaluated(program, answers, locals, st, *collection);
                match as_list(found, "in expected list; found "@) {
                    Err(other) => (st, other),
                    Ok(values) => among(limits, st, n, values, 0),
                }
            },
            (st, other) => (st, other),
        },
        ExprView::Quantifier { quantifier, collection, binding, predicate } => {
            let (st, found) = evaluated(program, answers, locals, st, *collection);
            match as_list(found, "quantifier expected list; found "@) {
                Err(other) => (st, other),
                Ok(values) => quantified(
                    program,
                    answers,
                    locals,
                    st,
                    quantifier,
                    values,
                    binding,
                    *predicate,
                    0,
                    None,
                ),
            }
        },
    }
}

/// The operands of a logical operator from the `i`-th on.
pub open spec fn logical(
    program: ProgramView,
    answers: ValueSource,
    locals: Seq<(Seq<char>, ExprValueView)>,
    st: EvalView,
    items: Seq<ExprView>,
    any: bool,
    i: nat,
    deferred: Option<OutcomeView>,
) -> (EvalView, OutcomeView)
    decreases items, items.len() - i,
{
    if i >= items.len() {
        (st, settled(deferred, !any))
    } else {
        match as_bool(evaluated(program, answers, locals, st, items[i as int])) {
            (st, OutcomeView::Value(ExprValueView::Bool(b))) => if b == any {
                (st, truth(any))
            } else {
                logical(program, answers, locals, st, items, any, i + 1, deferred)
            },
            (st, issue) => logical(
                program,
                answers,
                locals,
                st,
                items,
                any,
                i + 1,
                graver(deferred, issue),
            ),
        }
    }
}

/// The predicate of a quantifier over the values from the `i`-th on.
pub open spec fn quantified(
    program: ProgramView,
    answers: ValueSource,
    locals: Seq<(Seq<char>, ExprValueView)>,
    st: EvalView,
    quantifier: CollectionQuantifier,
    values: Seq<ExprValueView>,
    binding: Seq<char>,
    predicate: ExprView,
    i: nat,
    deferred: Option<OutcomeView>,
) -> (EvalView, OutcomeView)
    decreases predicate, 3int, values.len() - i,
{
    if i >= values.len() {
        (st, settled(deferred, vacuous(quantifier)))
    } else {
        match st.visit(program.limits) {
            (st, Err(error)) => (st, OutcomeView::Error(error)),
            (st, Ok(_)) => match as_bool(
                evaluated(
                    program,
                    answers,
                    locals.push((binding, values[i as int])),
                    st,
                    predicate,
                ),
            ) {
                (st, OutcomeView::Value(ExprValueView::Bool(b))) => match decided(quantifier, b) {
                    Some(answer) => (st, truth(answer)),
                    None => quantified(
                        program,
                        answers,
                        locals,
                        st,
                        quantifier,
                        values,
                        binding,
                        predicate,
                        i + 1,
                        deferred,
                    ),
                },
                (st, issue) => quantified(
                    program,
                    answers,
                    locals,
                    st,
                    quantifier,
                    values,
                    binding,
                    predicate,
                    i + 1,
                    graver(deferred, issue),
                ),
            },
        }
    }
}

/// The outcome of a rule: no state is collapsed into another.
pub open spec fn rule_outcome(outcome: OutcomeView) -> RuleView {
    match outcome {
        OutcomeView::Value(ExprValueView::Bool(b)) => if b {
            RuleView::True
        } else {
            RuleView::False
        },
        OutcomeView::Value(ExprValueView::Null) => RuleView::Null,
        OutcomeView::Value(value) => RuleView::Error(
            fault(
                EvaluationErrorKind::InvalidOperand,
                "checked rule produced "@ + value.runtime_type() + " instead of bool"@,
            ),
        ),
        OutcomeView::Missing(message) => RuleView::Missing(message),
        OutcomeView::Unknown(message) => RuleView::Unknown(message),
        OutcomeView::Error(error) => RuleView::Error(error),
    }
}

/// The evaluation of a whole program.
pub open spec fn run(program: ProgramView, answers: ValueSource) -> (
    EvalView,
    OutcomeView,
) {
    evaluated(program, answers, Seq::empty(), unused(), program.expression)
}

// ---------------------------------------------------------------------------
// Evaluation
// ---------------------------------------------------------------------------
#[derive(Debug, PartialEq)]
pub struct ExpressionEvaluation {
    pub outcome: EvaluationValue,
    pub operations: usize,
    pub collection_visits: usize,
}

pub open spec fn done(
    res: Result<(), EvaluationError>,
    want: Result<(), EvalErrorView>,
) -> bool {
    match res {
        Ok(_) => want is Ok,
        Err(e) => want == Err::<(), EvalErrorView>(e@),
    }
}

pub open spec fn answers<T>(
    res: Result<T, EvaluationError>,
    want: Result<T, EvalErrorView>,
) -> bool {
    match res {
        Ok(x) => want == Ok::<T, EvalErrorView>(x),
        Err(e) => want == Err::<T, EvalErrorView>(e@),
    }
}

pub open spec fn seen_outcome(slot: Option<EvaluationValue>) -> Option<OutcomeView> {
    match slot {
        Some(outcome) => Some(outcome@),
        None => None,
    }
}

pub fn runtime_type_name(value: &ExpressionValue) -> (res: &'static str)
    ensures
        res@ == value@.runtime_type(),
{
    match value {
        ExpressionValue::Null => "null",
        ExpressionValue::Bool(_) => "bool",
        ExpressionValue::Int(_) | ExpressionValue::UInt(_) => "integer",
        ExpressionValue::Float(_) => "number",
        ExpressionValue::String(_) => "string",
        ExpressionValue::List(_) => "list",
        ExpressionValue::Object(_) => "object",
    }
}

pub fn is_numeric(value: &ExpressionValue) -> (res: bool)
    ensures
        res == value@.numeric(),
{
    matches!(value, ExpressionValue::Int(_) | ExpressionValue::UInt(_) | ExpressionValue::Float(_))
}

fn integer_of(value: &ExpressionValue) -> (res: Option<i128>)
    ensures
        match res {
            Some(n) => value@.integer() == Some(n as int) && -9223372036854775808 <= n
                <= 18446744073709551615,
            None => value@.integer() is None,
        },
{
    match value {
        ExpressionValue::Int(n) => Some(*n as i128),
        ExpressionValue::UInt(n) => Some(*n as i128),
        _ => None,
    }
}

fn is_finite(value: &ExpressionValue) -> (res: bool)
    ensures
        res == finite(value@),
{
    match value {
        ExpressionValue::Float(bits) => is_finite_bits(*bits),
        _ => true,
    }
}

fn rank_of(value: &ExpressionValue) -> (res: Result<i128, EvaluationError>)
    requires
        value@.numeric(),
    ensures
        match res {
            Ok(r) => rank(value@) == Ok::<int, EvalErrorView>(r as int),
            Err(e) => rank(value@) == Err::<int, EvalErrorView>(e@),
        },
{
    match value {
        ExpressionValue::Float(bits) => Ok(rank_of_float(*bits)),
        _ => match integer_of(value) {
            None => Ok(0),
            Some(n) => match rank_of_integer(n) {
                Some(r) => Ok(r),
                None => {
                    let mut message = joined("integer ", &show_integer(n));
                    message.append(" cannot be represented exactly as a float");
                    Err(EvaluationError::new(EvaluationErrorKind::InvalidOperand, &message))
                },
            },
        },
    }
}

/// The order of two numbers.
pub fn numeric_ordering(left: &ExpressionValue, right: &ExpressionValue) -> (res: Result<
    Order,
    EvaluationError,
>)
    ensures
        answers(res, numeric_order(left@, right@)),
{
    if !is_numeric(left) || !is_numeric(right) {
        return Err(
            EvaluationError::new(
                EvaluationErrorKind::InvalidOperand,
                "numeric comparison received a non-numeric value",
            ),
        );
    }
    match (integer_of(left), integer_of(right)) {
        (Some(a), Some(b)) => {
            return Ok(integer_order(a, b));
        },
        _ => {},
    }
    let a = match rank_of(left) {
        Err(e) => {
            return Err(e);
        },
        Ok(r) => r,
    };
    let b = match rank_of(right) {
        Err(e) => {
            return Err(e);
        },
        Ok(r) => r,
    };
    if is_finite(left) && is_finite(right) {
        Ok(integer_order(a, b))
    } else {
        Err(
            EvaluationError::new(
                EvaluationErrorKind::InvalidOperand,
                "numeric comparison requires finite floating-point values",
            ),
        )
    }
}

fn truth_value(b: bool) -> (res: EvaluationValue)
    ensures
        res@ == truth(b),
{
    EvaluationValue::Value(ExpressionValue::Bool(b))
}

fn invalid_operand(message: &str, value: &ExpressionValue) -> (res: EvaluationValue)
    ensures
        res@ == invalid(message@ + value@.runtime_type()),
{
    EvaluationValue::error(
        EvaluationErrorKind::InvalidOperand,
        &joined(message, runtime_type_name(value)),
    )
}

fn deferred_priority(outcome: &EvaluationValue) -> (res: u8)
    ensures
        res == priority(outcome@),
{
    match outcome {
        EvaluationValue::Error(_) => 3,
        EvaluationValue::Unknown(_) => 2,
        EvaluationValue::Missing(_) => 1,
        EvaluationValue::Value(_) => 0,
    }
}

fn merge_deferred(slot: Option<EvaluationValue>, candidate: EvaluationValue) -> (res: Option<
    EvaluationValue,
>)
    ensures
        seen_outcome(res) == graver(seen_outcome(slot), candidate@),
{
    let current: u8 = match &slot {
        Some(outcome) => deferred_priority(outcome),
        None => 0,
    };
    if deferred_priority(&candidate) > current {
        Some(candidate)
    } else {
        slot
    }
}

fn settle(slot: Option<EvaluationValue>, identity: bool) -> (res: EvaluationValue)
    ensures
        res@ == settled(seen_outcome(slot), identity),
{
    match slot {
        Some(outcome) => outcome,
        None => truth_value(identity),
    }
}

fn decide(quantifier: CollectionQuantifier, value: bool) -> (res: Option<bool>)
    ensures
        res == decided(quantifier, value),
{
    match quantifier {
        CollectionQuantifier::Any => if value {
            Some(true)
        } else {
            None
        },
        CollectionQuantifier::All => if value {
            None
        } else {
            Some(false)
        },
        CollectionQuantifier::NoneOf => if value {
            Some(false)
        } else {
            None
        },
    }
}

fn expect_text(found: EvaluationValue, message: &str) -> (res: Result<String, EvaluationValue>)
    ensures
        match res {
            Ok(s) => as_string(found@, message@) == Ok::<Seq<char>, OutcomeView>(s@),
            Err(other) => as_string(found@, message@) == Err::<Seq<char>, OutcomeView>(other@),
        },
{
    match found {
        EvaluationValue::Value(value) => match value {
            ExpressionValue::String(s) => Ok(s),
            _ => Err(invalid_operand(message, &value)),
        },
        other => Err(other),
    }
}

fn expect_list(found: EvaluationValue, message: &str) -> (res: Result<
    Vec<ExpressionValue>,
    EvaluationValue,
>)
    ensures
        match res {
            Ok(values) => as_list(found@, message@) == Ok::<Seq<ExprValueView>, OutcomeView>(
                list_views(values@),
            ),
            Err(other) => as_list(found@, message@) == Err::<Seq<ExprValueView>, OutcomeView>(
                other@,
            ),
        },
{
    match found {
        EvaluationValue::Value(value) => match value {
            ExpressionValue::List(values) => Ok(values),
            _ => Err(invalid_operand(message, &value)),
        },
        other => Err(other),
    }
}

spec fn remembered(values: Seq<(FieldRef, EvaluationValue)>) -> Seq<(FieldRefView, OutcomeView)> {
    values.map_values(|v: (FieldRef, EvaluationValue)| (v.0@, v.1@))
}

struct Evaluator<'a, R: ExpressionValueResolver> {
    program: &'a CheckedExpressionV1,
    resolver: &'a R,
    limits: ExpressionLimits,
    operations: usize,
    collection_visits: usize,
    string_bytes: usize,
    locals: Vec<(String, ExpressionValue)>,
    resolved_values: Vec<(FieldRef, EvaluationValue)>,
}

impl<'a, R: ExpressionValueResolver> Evaluator<'a, R> {
    spec fn used(&self) -> EvalView {
        EvalView {
            operations: self.operations as nat,
            visits: self.collection_visits as nat,
            bytes: self.string_bytes as nat,
        }
    }

    spec fn scope(&self) -> Seq<(Seq<char>, ExprValueView)> {
        entry_views(self.locals@)
    }

    /// What the resolver has answered.
    spec fn record(&self) -> Seq<(FieldRefView, OutcomeView)> {
        remembered(self.resolved_values@)
    }

    /// Every remembered value is one that the resolver supplied.
    spec fn sound(&self) -> bool {
        &&& self.limits == self.program@.limits
        &&& answered(self.resolver, self.limits, self.record())
    }

    /// What no step of an evaluation changes, and what each keeps.
    spec fn follows(&self, before: &Self) -> bool {
        &&& self.program == before.program
        &&& self.resolver == before.resolver
        &&& self.limits == before.limits
        &&& self.scope() == before.scope()
        &&& self.sound()
        &&& forall|answers: ValueSource| #[trigger]
            agree(answers, self.record()) ==> agree(answers, before.record())
    }

    fn new(program: &'a CheckedExpressionV1, resolver: &'a R) -> (res: Self)
        ensures
            res.program == program,
            res.resolver == resolver,
            res.used() == unused(),
            res.scope() == Seq::<(Seq<char>, ExprValueView)>::empty(),
            res.sound(),
            res.record() == Seq::<(FieldRefView, OutcomeView)>::empty(),
    {
        let res = Evaluator {
            program,
            resolver,
            limits: program.limits(),
            operations: 0,
            collection_visits: 0,
            string_bytes: 0,
            locals: Vec::new(),
            resolved_values: Vec::new(),
        };
        assert(res.scope() =~= Seq::empty());
        assert(res.record() =~= Seq::empty());
        res
    }

    fn consume_operation(&mut self) -> (res: Result<(), EvaluationError>)
        requires
            old(self).sound(),
        ensures
            final(self).follows(old(self)),
            final(self).used() == old(self).used().operation(old(self).limits).0,
            done(res, old(self).used().operation(old(self).limits).1),
    {
        self.operations = self.operations.saturating_add(1);
        if self.operations > self.limits.max_operations {
            let message = joined(
                "expression exceeded operation limit ",
                &count_text(self.limits.max_operations),
            );
            return Err(EvaluationError::new(EvaluationErrorKind::LimitExceeded, &message));
        }
        Ok(())
    }

    fn visit_collection(&mut self) -> (res: Result<(), EvaluationError>)
        requires
            old(self).sound(),
        ensures
            final(self).follows(old(self)),
            final(self).used() == old(self).used().visit(old(self).limits).0,
            done(res, old(self).used().visit(old(self).limits).1),
    {
        self.collection_visits = self.collection_visits.saturating_add(1);
        if self.collection_visits > self.limits.max_collection_visits {
            let message = joined(
                "expression exceeded collection-visit limit ",
                &count_text(self.limits.max_collection_visits),
            );
            return Err(EvaluationError::new(EvaluationErrorKind::LimitExceeded, &message));
        }
        Ok(())
    }

    fn check_string(&mut self, value: &str) -> (res: Result<(), EvaluationError>)
        requires
            old(self).sound(),
        ensures
            final(self).follows(old(self)),
            final(self).used() == old(self).used().string(old(self).limits, value@).0,
            done(res, old(self).used().string(old(self).limits, value@).1),
    {
        let n: usize = text_len(value);
        if n > self.limits.max_string_bytes {
            let mut message = joined("string is ", &count_text(n));
            message.append(" bytes; limit is ");
            message.append(&count_text(self.limits.max_string_bytes));
            return Err(EvaluationError::new(EvaluationErrorKind::LimitExceeded, &message));
        }
        match self.string_bytes.checked_add(n) {
            None => {
                return Err(
                    EvaluationError::new(
                        EvaluationErrorKind::LimitExceeded,
                        "runtime cumulative string-byte counter overflowed",
                    ),
                );
            },
            Some(total) => {
                self.string_bytes = total;
            },
        }
        if self.string_bytes > self.limits.max_string_bytes {
            let message = joined(
                "runtime value exceeds cumulative string-byte limit ",
                &count_text(self.limits.max_string_bytes),
            );
            return Err(EvaluationError::new(EvaluationErrorKind::LimitExceeded, &message));
        }
        Ok(())
    }

    fn check_value_shallow(&mut self, value: &ExpressionValue) -> (res: Result<
        (),
        EvaluationError,
    >)
        requires
            old(self).sound(),
        ensures
            final(self).follows(old(self)),
            final(self).used() == old(self).used().shallow(old(self).limits, value@).0,
            done(res, old(self).used().shallow(old(self).limits, value@).1),
    {
        match value {
            ExpressionValue::String(s) => self.check_string(s),
            ExpressionValue::Float(bits) => if is_finite_bits(*bits) {
                Ok(())
            } else {
                Err(
                    EvaluationError::new(
                        EvaluationErrorKind::ContractViolation,
                        "expression value contains a non-finite float",
                    ),
                )
            },
            _ => Ok(()),
        }
    }

    fn check_runtime_depth(&self, depth: usize) -> (res: Result<(), EvaluationError>)
        ensures
            done(res, depth_check(self.limits, depth as nat)),
    {
        if depth > self.limits.max_depth {
            let message = joined(
                "runtime value exceeds depth limit ",
                &count_text(self.limits.max_depth),
            );
            return Err(EvaluationError::new(EvaluationErrorKind::LimitExceeded, &message));
        }
        Ok(())
    }

    fn values_ordering(&mut self, left: &ExpressionValue, right: &ExpressionValue) -> (res: Result<
        Order,
        EvaluationError,
    >)
        requires
            old(self).sound(),
        ensures
            final(self).follows(old(self)),
            ({
                let (st, want) = value_order(
                    old(self).limits,
                    old(self).used(),
                    left@,
                    right@,
                );
                final(self).used() == st && answers(res, want)
            }),
    {
        match (left, right) {
            (ExpressionValue::String(a), ExpressionValue::String(b)) => {
                match self.check_string(a) {
                    Err(e) => {
                        return Err(e);
                    },
                    Ok(_) => {},
                }
                match self.check_string(b) {
                    Err(e) => {
                        return Err(e);
                    },
                    Ok(_) => {},
                }
                Ok(text_order(a, b))
            },
            _ => {
                if is_numeric(left) && is_numeric(right) {
                    numeric_ordering(left, right)
                } else {
                    let mut message = joined(
                        "ordering is not defined for ",
                        runtime_type_name(left),
                    );
                    message.append(" and ");
                    message.append(runtime_type_name(right));
                    Err(EvaluationError::new(EvaluationErrorKind::InvalidOperand, &message))
                }
            },
        }
    }

    fn values_equal_at(
        &mut self,
        left: &ExpressionValue,
        right: &ExpressionValue,
        depth: usize,
    ) -> (res: Result<bool, EvaluationError>)
        requires
            old(self).sound(),
        ensures
            final(self).follows(old(self)),
            ({
                let (st, want) = value_equal(
                    old(self).limits,
                    old(self).used(),
                    left@,
                    right@,
                    depth as nat,
                );
                final(self).used() == st && answers(res, want)
            }),
        decreases left, 1int,
    {
        match self.check_runtime_depth(depth) {
            Err(e) => {
                return Err(e);
            },
            Ok(_) => {},
        }
        match (left, right) {
            (ExpressionValue::Null, ExpressionValue::Null) => Ok(true),
            (ExpressionValue::Null, _) | (_, ExpressionValue::Null) => Ok(false),
            (ExpressionValue::Bool(a), ExpressionValue::Bool(b)) => Ok(*a == *b),
            (ExpressionValue::String(a), ExpressionValue::String(b)) => {
                match self.check_string(a) {
                    Err(e) => {
                        return Err(e);
                    },
                    Ok(_) => {},
                }
                match self.check_string(b) {
                    Err(e) => {
                        return Err(e);
                    },
                    Ok(_) => {},
                }
                Ok(same_text(a, b))
            },
            (ExpressionValue::List(a), ExpressionValue::List(b)) => {
                if a.len() != b.len() {
                    return Ok(false);
                }
                self.items_equal(a, b, depth)
            },
            (ExpressionValue::Object(a), ExpressionValue::Object(b)) => {
                if a.entries.len() != b.entries.len() {
                    return Ok(false);
                }
                self.members_equal(a, b, depth)
            },
            _ => {
                if is_numeric(left) && is_numeric(right) {
                    match numeric_ordering(left, right) {
                        Ok(order) => Ok(order == Order::Equal),
                        Err(e) => Err(e),
                    }
                } else {
                    let mut message = joined("cannot compare ", runtime_type_name(left));
                    message.append(" with ");
                    message.append(runtime_type_name(right));
                    Err(EvaluationError::new(EvaluationErrorKind::InvalidOperand, &message))
                }
            },
        }
    }

    fn items_equal(
        &mut self,
        left: &Vec<ExpressionValue>,
        right: &Vec<ExpressionValue>,
        depth: usize,
    ) -> (res: Result<bool, EvaluationError>)
        requires
            old(self).sound(),
            left@.len() == right@.len(),
        ensures
            final(self).follows(old(self)),
            ({
                let (st, want) = items_equal(
                    old(self).limits,
                    old(self).used(),
                    list_views(left@),
                    list_views(right@),
                    depth as nat,
                    0,
                );
                final(self).used() == st && answers(res, want)
            }),
        decreases left, 0int,
    {
        let ghost limits = self.limits;
        let ghost a = list_views(left@);
        let ghost b = list_views(right@);
        let deeper: usize = depth.saturating_add(1);
        let mut i: usize = 0;
        while i < left.len()
            invariant
                i <= left@.len(),
                left@.len() == right@.len(),
                a == list_views(left@),
                b == list_views(right@),
                deeper == saturated((depth + 1) as nat),
                self.follows(old(self)),
                self.sound(),
                limits == self.limits,
                items_equal(limits, old(self).used(), a, b, depth as nat, 0) == items_equal(
                    limits,
                    self.used(),
                    a,
                    b,
                    depth as nat,
                    i as nat,
                ),
            decreases left@.len() - i,
        {
            assert(decreases_to!(left@ => left@[i as int]));
            assert(a[i as int] == left@[i as int]@);
            assert(b[i as int] == right@[i as int]@);
            match self.visit_collection() {
                Err(e) => {
                    return Err(e);
                },
                Ok(_) => {},
            }
            match self.values_equal_at(&left[i], &right[i], deeper) {
                Err(e) => {
                    return Err(e);
                },
                Ok(same) => {
                    if !same {
                        return Ok(false);
                    }
                },
            }
            i = i + 1;
        }
        Ok(true)
    }

    fn members_equal(
        &mut self,
        left: &TextMap<ExpressionValue>,
        right: &TextMap<ExpressionValue>,
        depth: usize,
    ) -> (res: Result<bool, EvaluationError>)
        requires
            old(self).sound(),
        ensures
            final(self).follows(old(self)),
            ({
                let (st, want) = members_equal(
                    old(self).limits,
                    old(self).used(),
                    entry_views(left.entries@),
                    entry_views(right.entries@),
                    depth as nat,
                    0,
                );
                final(self).used() == st && answers(res, want)
            }),
        decreases left, 0int,
    {
        let ghost limits = self.limits;
        let ghost a = entry_views(left.entries@);
        let ghost b = entry_views(right.entries@);
        let deeper: usize = depth.saturating_add(1);
        let mut i: usize = 0;
        while i < left.entries.len()
            invariant
                i <= left.entries@.len(),
                a == entry_views(left.entries@),
                b == entry_views(right.entries@),
                deeper == saturated((depth + 1) as nat),
                self.follows(old(self)),
                self.sound(),
                limits == self.limits,
                members_equal(limits, old(self).used(), a, b, depth as nat, 0) == members_equal(
                    limits,
                    self.used(),
                    a,
                    b,
                    depth as nat,
                    i as nat,
                ),
            decreases left.entries@.len() - i,
        {
            let name = &left.entries[i].0;
            assert(decreases_to!(left.entries@ => left.entries@[i as int].1));
            assert(a[i as int] == (name@, left.entries@[i as int].1@));
            match self.visit_collection() {
                Err(e) => {
                    return Err(e);
                },
                Ok(_) => {},
            }
            let other = match find_member(right, name) {
                None => {
                    return Ok(false);
                },
                Some(other) => other,
            };
            match self.check_string(name) {
                Err(e) => {
                    return Err(e);
                },
                Ok(_) => {},
            }
            match self.values_equal_at(&left.entries[i].1, other, deeper) {
                Err(e) => {
                    return Err(e);
                },
                Ok(same) => {
                    if !same {
                        return Ok(false);
                    }
                },
            }
            i = i + 1;
        }
        Ok(true)
    }

    fn validate_untyped_value_at(&mut self, value: &ExpressionValue, depth: usize) -> (res: Result<
        (),
        EvaluationError,
    >)
        requires
            old(self).sound(),
        ensures
            final(self).follows(old(self)),
            ({
                let (st, want) = untyped(
                    old(self).limits,
                    old(self).used(),
                    value@,
                    depth as nat,
                );
                final(self).used() == st && done(res, want)
            }),
        decreases value, 1int,
    {
        match self.check_runtime_depth(depth) {
            Err(e) => {
                return Err(e);
            },
            Ok(_) => {},
        }
        match value {
            ExpressionValue::String(s) => self.check_string(s),
            ExpressionValue::Float(bits) => if is_finite_bits(*bits) {
                Ok(())
            } else {
                Err(
                    EvaluationError::new(
                        EvaluationErrorKind::ContractViolation,
                        "context contains a non-finite float",
                    ),
                )
            },
            ExpressionValue::List(values) => self.validate_untyped_items(values, depth),
            ExpressionValue::Object(map) => self.validate_untyped_members(map, depth),
            _ => Ok(()),
        }
    }

    fn validate_untyped_items(&mut self, values: &Vec<ExpressionValue>, depth: usize) -> (res:
        Result<(), EvaluationError>)
        requires
            old(self).sound(),
        ensures
            final(self).follows(old(self)),
            ({
                let (st, want) = untyped_items(
                    old(self).limits,
                    old(self).used(),
                    list_views(values@),
                    depth as nat,
                    0,
                );
                final(self).used() == st && done(res, want)
            }),
        decreases values, 0int,
    {
        let ghost limits = self.limits;
        let ghost views = list_views(values@);
        let deeper: usize = depth.saturating_add(1);
        let mut i: usize = 0;
        while i < values.len()
            invariant
                i <= values@.len(),
                views == list_views(values@),
                deeper == saturated((depth + 1) as nat),
                self.follows(old(self)),
                self.sound(),
                limits == self.limits,
                untyped_items(limits, old(self).used(), views, depth as nat, 0) == untyped_items(
                    limits,
                    self.used(),
                    views,
                    depth as nat,
                    i as nat,
                ),
            decreases values@.len() - i,
        {
            assert(decreases_to!(values@ => values@[i as int]));
            assert(views[i as int] == values@[i as int]@);
            match self.visit_collection() {
                Err(e) => {
                    return Err(e);
                },
                Ok(_) => {},
            }
            match self.validate_untyped_value_at(&values[i], deeper) {
                Err(e) => {
                    return Err(e);
                },
                Ok(_) => {},
            }
            i = i + 1;
        }
        Ok(())
    }

    fn validate_untyped_members(&mut self, map: &TextMap<ExpressionValue>, depth: usize) -> (res:
        Result<(), EvaluationError>)
        requires
            old(self).sound(),
        ensures
            final(self).follows(old(self)),
            ({
                let (st, want) = untyped_members(
                    old(self).limits,
                    old(self).used(),
                    entry_views(map.entries@),
                    depth as nat,
                    0,
                );
                final(self).used() == st && done(res, want)
            }),
        decreases map, 0int,
    {
        let ghost limits = self.limits;
        let ghost views = entry_views(map.entries@);
        let deeper: usize = depth.saturating_add(1);
        let mut i: usize = 0;
        while i < map.entries.len()
            invariant
                i <= map.entries@.len(),
                views == entry_views(map.entries@),
                deeper == saturated((depth + 1) as nat),
                self.follows(old(self)),
                self.sound(),
                limits == self.limits,
                untyped_members(limits, old(self).used(), views, depth as nat, 0)
                    == untyped_members(limits, self.used(), views, depth as nat, i as nat),
            decreases map.entries@.len() - i,
        {
            let name = &map.entries[i].0;
            assert(decreases_to!(map.entries@ => map.entries@[i as int].1));
            assert(views[i as int] == (name@, map.entries@[i as int].1@));
            match self.visit_collection() {
                Err(e) => {
                    return Err(e);
                },
                Ok(_) => {},
            }
            match self.check_string(name) {
                Err(e) => {
                    return Err(e);
                },
                Ok(_) => {},
            }
            match self.validate_untyped_value_at(&map.entries[i].1, deeper) {
                Err(e) => {
                    return Err(e);
                },
                Ok(_) => {},
            }
            i = i + 1;
        }
        Ok(())
    }

    fn validate_runtime_value_at(
        &mut self,
        value: &ExpressionValue,
        expected: &ExpressionType,
        depth: usize,
    ) -> (res: Result<(), EvaluationError>)
        requires
            old(self).sound(),
        ensures
            final(self).follows(old(self)),
            ({
                let (st, want) = conforms(
                    old(self).limits,
                    old(self).used(),
                    value@,
                    expected@,
                    depth as nat,
                );
                final(self).used() == st && done(res, want)
            }),
        decreases value, 1int,
    {
        match self.check_runtime_depth(depth) {
            Err(e) => {
                return Err(e);
            },
            Ok(_) => {},
        }
        if matches!(value, ExpressionValue::Null) {
            if expected.nullable || matches!(
                &expected.kind,
                ExpressionTypeKind::Null | ExpressionTypeKind::Any
            ) {
                return Ok(());
            }
            let message = joined("context produced null for non-nullable ", &expected.describe());
            return Err(EvaluationError::new(EvaluationErrorKind::ContractViolation, &message));
        }
        if matches!(&expected.kind, ExpressionTypeKind::Any) {
            return self.validate_untyped_value_at(value, depth);
        }
        match (&expected.kind, value) {
            (ExpressionTypeKind::Bool, ExpressionValue::Bool(_))
            | (ExpressionTypeKind::Integer, ExpressionValue::Int(_))
            | (ExpressionTypeKind::Integer, ExpressionValue::UInt(_))
            | (ExpressionTypeKind::Number, ExpressionValue::Int(_))
            | (ExpressionTypeKind::Number, ExpressionValue::UInt(_))
            | (ExpressionTypeKind::Number, ExpressionValue::Float(_)) => self.check_value_shallow(
                value,
            ),
            (ExpressionTypeKind::String, ExpressionValue::String(s)) => self.check_string(s),
            (ExpressionTypeKind::List(item), ExpressionValue::List(values)) =>
                self.validate_items(values, item, depth),
            (ExpressionTypeKind::Object(fields), ExpressionValue::Object(values)) => {
                match missing_field(fields, values) {
                    Some(name) => {
                        let message = joined(
                            "context object is missing required field ",
                            &quoted(&name),
                        );
                        return Err(
                            EvaluationError::new(EvaluationErrorKind::ContractViolation, &message),
                        );
                    },
                    None => {},
                }
                self.validate_members(values, fields, depth)
            },
            _ => {
                let mut message = joined("context produced ", runtime_type_name(value));
                message.append(" where ");
                message.append(&expected.describe());
                message.append(" was declared");
                Err(EvaluationError::new(EvaluationErrorKind::ContractViolation, &message))
            },
        }
    }

    fn validate_items(
        &mut self,
        values: &Vec<ExpressionValue>,
        item: &ExpressionType,
        depth: usize,
    ) -> (res: Result<(), EvaluationError>)
        requires
            old(self).sound(),
        ensures
            final(self).follows(old(self)),
            ({
                let (st, want) = conforming_items(
                    old(self).limits,
                    old(self).used(),
                    list_views(values@),
                    item@,
                    depth as nat,
                    0,
                );
                final(self).used() == st && done(res, want)
            }),
        decreases values, 0int,
    {
        let ghost limits = self.limits;
        let ghost views = list_views(values@);
        let deeper: usize = depth.saturating_add(1);
        let mut i: usize = 0;
        while i < values.len()
            invariant
                i <= values@.len(),
                views == list_views(values@),
                deeper == saturated((depth + 1) as nat),
                self.follows(old(self)),
                self.sound(),
                limits == self.limits,
                conforming_items(limits, old(self).used(), views, item@, depth as nat, 0)
                    == conforming_items(
                    limits,
                    self.used(),
                    views,
                    item@,
                    depth as nat,
                    i as nat,
                ),
            decreases values@.len() - i,
        {
            assert(decreases_to!(values@ => values@[i as int]));
            assert(views[i as int] == values@[i as int]@);
            match self.visit_collection() {
                Err(e) => {
                    return Err(e);
                },
                Ok(_) => {},
            }
            match self.validate_runtime_value_at(&values[i], item, deeper) {
                Err(e) => {
                    return Err(e);
                },
                Ok(_) => {},
            }
            i = i + 1;
        }
        Ok(())
    }

    fn validate_members(
        &mut self,
        map: &TextMap<ExpressionValue>,
        fields: &TextMap<ExpressionType>,
        depth: usize,
    ) -> (res: Result<(), EvaluationError>)
        requires
            old(self).sound(),
        ensures
            final(self).follows(old(self)),
            ({
                let (st, want) = conforming_members(
                    old(self).limits,
                    old(self).used(),
                    entry_views(map.entries@),
                    type_views(fields.entries@),
                    depth as nat,
                    0,
                );
                final(self).used() == st && done(res, want)
            }),
        decreases map, 0int,
    {
        let ghost limits = self.limits;
        let ghost views = entry_views(map.entries@);
        let ghost types = type_views(fields.entries@);
        let deeper: usize = depth.saturating_add(1);
        let mut i: usize = 0;
        while i < map.entries.len()
            invariant
                i <= map.entries@.len(),
                views == entry_views(map.entries@),
                types == type_views(fields.entries@),
                deeper == saturated((depth + 1) as nat),
                self.follows(old(self)),
                self.sound(),
                limits == self.limits,
                conforming_members(limits, old(self).used(), views, types, depth as nat, 0)
                    == conforming_members(
                    limits,
                    self.used(),
                    views,
                    types,
                    depth as nat,
                    i as nat,
                ),
            decreases map.entries@.len() - i,
        {
            let name = &map.entries[i].0;
            assert(decreases_to!(map.entries@ => map.entries@[i as int].1));
            assert(views[i as int] == (name@, map.entries@[i as int].1@));
            match self.visit_collection() {
                Err(e) => {
                    return Err(e);
                },
                Ok(_) => {},
            }
            match self.check_string(name) {
                Err(e) => {
                    return Err(e);
                },
                Ok(_) => {},
            }
            let checked = match find_field(fields, name) {
                Some(expected) => self.validate_runtime_value_at(
                    &map.entries[i].1,
                    expected,
                    deeper,
                ),
                None => self.validate_untyped_value_at(&map.entries[i].1, deeper),
            };
            match checked {
                Err(e) => {
                    return Err(e);
                },
                Ok(_) => {},
            }
            i = i + 1;
        }
        Ok(())
    }
}

fn find_member<'b>(map: &'b TextMap<ExpressionValue>, name: &str) -> (res: Option<
    &'b ExpressionValue,
>)
    ensures
        match res {
            Some(value) => text_map::lookup(entry_views(map.entries@), name@) == Some(value@),
            None => text_map::lookup(entry_views(map.entries@), name@) is None,
        },
{
    let ghost views = entry_views(map.entries@);
    let mut i: usize = 0;
    while i < map.entries.len()
        invariant
            i <= map.entries@.len(),
            views == entry_views(map.entries@),
            forall|j: int| 0 <= j < i ==> (#[trigger] views[j]).0 != name@,
        decreases map.entries@.len() - i,
    {
        assert(views[i as int] == (map.entries@[i as int].0@, map.entries@[i as int].1@));
        if same_text(&map.entries[i].0, name) {
            proof {
                text_map::lemma_index_of(views, name@, i as int);
            }
            return Some(&map.entries[i].1);
        }
        i = i + 1;
    }
    proof {
        text_map::lemma_index_of(views, name@, views.len() as int);
    }
    None
}

fn find_field<'b>(map: &'b TextMap<ExpressionType>, name: &str) -> (res: Option<
    &'b ExpressionType,
>)
    ensures
        match res {
            Some(t) => text_map::lookup(type_views(map.entries@), name@) == Some(t@),
            None => text_map::lookup(type_views(map.entries@), name@) is None,
        },
{
    let ghost views = type_views(map.entries@);
    let mut i: usize = 0;
    while i < map.entries.len()
        invariant
            i <= map.entries@.len(),
            views == type_views(map.entries@),
            forall|j: int| 0 <= j < i ==> (#[trigger] views[j]).0 != name@,
        decreases map.entries@.len() - i,
    {
        assert(views[i as int] == (map.entries@[i as int].0@, map.entries@[i as int].1@));
        if same_text(&map.entries[i].0, name) {
            proof {
                text_map::lemma_index_of(views, name@, i as int);
            }
            return Some(&map.entries[i].1);
        }
        i = i + 1;
    }
    proof {
        text_map::lemma_index_of(views, name@, views.len() as int);
    }
    None
}

fn missing_field(fields: &TextMap<ExpressionType>, values: &TextMap<ExpressionValue>) -> (res:
    Option<String>)
    ensures
        match res {
            Some(name) => absent_field(
                type_views(fields.entries@),
                entry_views(values.entries@),
                0,
            ) == Some(name@),
            None => absent_field(type_views(fields.entries@), entry_views(values.entries@), 0) is None,
        },
{
    let ghost types = type_views(fields.entries@);
    let ghost views = entry_views(values.entries@);
    let mut i: usize = 0;
    while i < fields.entries.len()
        invariant
            i <= fields.entries@.len(),
            types == type_views(fields.entries@),
            views == entry_views(values.entries@),
            absent_field(types, views, 0) == absent_field(types, views, i as nat),
        decreases fields.entries@.len() - i,
    {
        assert(types[i as int] == (fields.entries@[i as int].0@, fields.entries@[i as int].1@));
        if !fields.entries[i].1.optional && find_member(values, &fields.entries[i].0).is_none() {
            return Some(fields.entries[i].0.clone());
        }
        i = i + 1;
    }
    None
}


impl<'a, R: ExpressionValueResolver> Evaluator<'a, R> {
    /// The value of a context field, asked of the resolver once.
    fn resolve(&mut self, field: &FieldRef) -> (res: EvaluationValue)
        requires
            old(self).sound(),
        ensures
            final(self).follows(old(self)),
            final(self).used() == old(self).used(),
            forall|answers: ValueSource| #[trigger]
                agree(answers, final(self).record()) ==> answers(field@) == res@,
    {
        reveal(agree);
        let ghost record = self.record();
        let mut i: usize = 0;
        while i < self.resolved_values.len()
            invariant
                i <= self.resolved_values@.len(),
                *self == *old(self),
                self.sound(),
                record == self.record(),
                forall|k: int| 0 <= k < i ==> (#[trigger] record[k]).0 != field@,
            decreases self.resolved_values@.len() - i,
        {
            assert(record[i as int] == (
                self.resolved_values@[i as int].0@,
                self.resolved_values@[i as int].1@,
            ));
            if self.resolved_values[i].0.same(field) {
                let value = self.resolved_values[i].1.clone();
                proof {
                    reveal(agree);
                    assert(record[i as int] == (field@, value@));
                }
                return value;
            }
            i = i + 1;
        }
        let value = self.resolver.resolve_value_bounded(field, self.limits);
        self.resolved_values.push((field.clone(), value.clone()));
        proof {
            let added = (field@, value@);
            assert(self.record() =~= record.push(added));
            assert(may_answer(self.resolver, self.limits, added.0, added.1));
            assert forall|answers: ValueSource| #[trigger] agree(answers, self.record()) implies agree(
                answers,
                record,
            ) && answers(field@) == value@ by {
                assert(self.record()[record.len() as int] == added);
                assert forall|k: int| 0 <= k < record.len() implies answers(
                    (#[trigger] record[k]).0,
                ) == record[k].1 by {
                    assert(self.record()[k] == record[k]);
                }
            }
        }
        value
    }

    fn find_local(&self, binding: &str) -> (res: Option<ExpressionValue>)
        ensures
            match res {
                Some(value) => local_type(self.scope(), binding@) == Some(value@),
                None => local_type(self.scope(), binding@) is None,
            },
    {
        let mut i: usize = self.locals.len();
        assert(self.scope().take(i as int) =~= self.scope());
        while i > 0
            invariant
                i <= self.locals@.len(),
                local_type(self.scope(), binding@) == local_type(
                    self.scope().take(i as int),
                    binding@,
                ),
            decreases i,
        {
            i = i - 1;
            proof {
                let upto = self.scope().take(i + 1);
                assert(upto.drop_last() =~= self.scope().take(i as int));
                assert(upto.last() == (self.locals@[i as int].0@, self.locals@[i as int].1@));
            }
            if same_text(&self.locals[i].0, binding) {
                return Some(self.locals[i].1.clone());
            }
        }
        None
    }

    fn evaluate_local(&mut self, binding: &str, path: &Vec<String>, root: ExpressionValue) -> (res:
        EvaluationValue)
        requires
            old(self).sound(),
        ensures
            final(self).follows(old(self)),
            (final(self).used(), res@) == local_value(
                old(self).limits,
                old(self).used(),
                binding@,
                text_views(path@),
                0,
                root@,
            ),
    {
        let ghost limits = self.limits;
        let ghost names = text_views(path@);
        let mut current = root;
        let mut i: usize = 0;
        while i < path.len()
            invariant
                i <= path@.len(),
                names == text_views(path@),
                self.follows(old(self)),
                self.sound(),
                limits == self.limits,
                local_value(limits, old(self).used(), binding@, names, 0, root@) == local_value(
                    limits,
                    self.used(),
                    binding@,
                    names,
                    i as nat,
                    current@,
                ),
            decreases path@.len() - i,
        {
            let segment = &path[i];
            assert(names[i as int] == segment@);
            match self.consume_operation() {
                Err(e) => {
                    return EvaluationValue::Error(e);
                },
                Ok(_) => {},
            }
            let next = match &current {
                ExpressionValue::Object(fields) => match find_member(fields, segment) {
                    Some(value) => value.clone(),
                    None => {
                        let mut message = joined("local binding ", &quoted(binding));
                        message.append(" has no field ");
                        message.append(&quoted(segment));
                        return EvaluationValue::missing(&message);
                    },
                },
                ExpressionValue::Null => {
                    let mut message = joined("cannot select field ", &quoted(segment));
                    message.append(" from null local binding ");
                    message.append(&quoted(binding));
                    return EvaluationValue::error(EvaluationErrorKind::InvalidOperand, &message);
                },
                _ => {
                    let mut message = joined("cannot select field ", &quoted(segment));
                    message.append(" from ");
                    message.append(runtime_type_name(&current));
                    message.append(" local binding ");
                    message.append(&quoted(binding));
                    return EvaluationValue::error(EvaluationErrorKind::InvalidOperand, &message);
                },
            };
            current = next;
            i = i + 1;
        }
        match self.check_value_shallow(&current) {
            Err(e) => EvaluationValue::Error(e),
            Ok(_) => EvaluationValue::Value(current),
        }
    }

    fn evaluate_reference(&mut self, reference: &ReferenceV1) -> (res: EvaluationValue)
        requires
            old(self).sound(),
        ensures
            final(self).follows(old(self)),
            forall|answers: ValueSource| #[trigger]
                agree(answers, final(self).record()) ==> (final(self).used(), res@)
                    == reference_value(
                    old(self).program@,
                    answers,
                    old(self).scope(),
                    old(self).used(),
                    reference@,
                ),
    {
        match reference {
            ReferenceV1::Context { field } => {
                let outcome = self.resolve(field);
                let expected = match self.program.reference_type(field) {
                    None => {
                        let message = joined(
                            "checked program has no type for reference ",
                            &field.debug(),
                        );
                        return EvaluationValue::error(EvaluationErrorKind::Internal, &message);
                    },
                    Some(t) => t,
                };
                match outcome {
                    EvaluationValue::Value(value) => {
                        match self.validate_runtime_value_at(&value, &expected, 1) {
                            Ok(_) => EvaluationValue::Value(value),
                            Err(e) => EvaluationValue::Error(e),
                        }
                    },
                    EvaluationValue::Missing(issue) => {
                        if expected.optional {
                            return EvaluationValue::Missing(issue);
                        }
                        let mut message = joined("required context field ", &field.debug());
                        message.append(" is missing: ");
                        message.append(&issue.message);
                        EvaluationValue::error(EvaluationErrorKind::ContractViolation, &message)
                    },
                    other => other,
                }
            },
            ReferenceV1::Local { binding, path } => match self.find_local(binding) {
                None => {
                    let mut message = joined("checked local binding ", &quoted(binding));
                    message.append(" is not available");
                    EvaluationValue::error(EvaluationErrorKind::Internal, &message)
                },
                Some(root) => self.evaluate_local(binding, path, root),
            },
        }
    }

    fn evaluate_string_predicate(&mut self, test: StringTest, value: &str, operand: &str) -> (res:
        EvaluationValue)
        requires
            old(self).sound(),
        ensures
            final(self).follows(old(self)),
            (final(self).used(), res@) == string_answer(
                old(self).limits,
                old(self).used(),
                test,
                value@,
                operand@,
            ),
    {
        match self.check_string(value) {
            Err(e) => {
                return EvaluationValue::Error(e);
            },
            Ok(_) => {},
        }
        match self.check_string(operand) {
            Err(e) => {
                return EvaluationValue::Error(e);
            },
            Ok(_) => {},
        }
        let answer = match test {
            StringTest::Contains => contains_text(value, operand),
            StringTest::StartsWith => starts_with(value, operand),
            StringTest::EndsWith => ends_with(value, operand),
        };
        truth_value(answer)
    }

    fn evaluate_regex(&mut self, value: &str, pattern: &str) -> (res: EvaluationValue)
        requires
            old(self).sound(),
        ensures
            final(self).follows(old(self)),
            (final(self).used(), res@) == regex_answer(
                old(self).program@,
                old(self).used(),
                value@,
                pattern@,
            ),
    {
        match self.check_string(value) {
            Err(e) => {
                return EvaluationValue::Error(e);
            },
            Ok(_) => {},
        }
        let n: usize = text_len(value);
        if n > self.limits.max_regex_input_bytes {
            let mut message = joined("regex input is ", &count_text(n));
            message.append(" bytes; limit is ");
            message.append(&count_text(self.limits.max_regex_input_bytes));
            return EvaluationValue::error(EvaluationErrorKind::LimitExceeded, &message);
        }
        match self.program.pattern_matches(pattern, value) {
            None => EvaluationValue::error(
                EvaluationErrorKind::Internal,
                "checked program is missing a compiled regular expression",
            ),
            Some(answer) => truth_value(answer),
        }
    }

    fn evaluate_in(&mut self, needle: &ExpressionValue, values: &Vec<ExpressionValue>) -> (res:
        EvaluationValue)
        requires
            old(self).sound(),
        ensures
            final(self).follows(old(self)),
            (final(self).used(), res@) == among(
                old(self).limits,
                old(self).used(),
                needle@,
                list_views(values@),
                0,
            ),
    {
        let ghost limits = self.limits;
        let ghost views = list_views(values@);
        let mut i: usize = 0;
        while i < values.len()
            invariant
                i <= values@.len(),
                views == list_views(values@),
                self.follows(old(self)),
                self.sound(),
                limits == self.limits,
                among(limits, old(self).used(), needle@, views, 0) == among(
                    limits,
                    self.used(),
                    needle@,
                    views,
                    i as nat,
                ),
            decreases values@.len() - i,
        {
            assert(views[i as int] == values@[i as int]@);
            match self.visit_collection() {
                Err(e) => {
                    return EvaluationValue::Error(e);
                },
                Ok(_) => {},
            }
            match self.values_equal_at(needle, &values[i], 1) {
                Err(e) => {
                    return EvaluationValue::Error(e);
                },
                Ok(same) => {
                    if same {
                        return truth_value(true);
                    }
                },
            }
            i = i + 1;
        }
        truth_value(false)
    }

    fn evaluate_comparison(
        &mut self,
        operator: ComparisonOperator,
        left: &ExpressionValue,
        right: &ExpressionValue,
    ) -> (res: EvaluationValue)
        requires
            old(self).sound(),
        ensures
            final(self).follows(old(self)),
            (final(self).used(), res@) == compared(
                old(self).limits,
                old(self).used(),
                operator,
                left@,
                right@,
            ),
    {
        match operator {
            ComparisonOperator::Equal | ComparisonOperator::NotEqual => {
                match self.values_equal_at(left, right, 1) {
                    Err(e) => EvaluationValue::Error(e),
                    Ok(same) => truth_value(same == (operator == ComparisonOperator::Equal)),
                }
            },
            _ => match self.values_ordering(left, right) {
                Err(e) => EvaluationValue::Error(e),
                Ok(order) => {
                    let answer = match operator {
                        ComparisonOperator::LessThan => order == Order::Less,
                        ComparisonOperator::LessThanOrEqual => order != Order::Greater,
                        ComparisonOperator::GreaterThan => order == Order::Greater,
                        _ => order != Order::Less,
                    };
                    truth_value(answer)
                },
            },
        }
    }

    fn expect_boolean(outcome: EvaluationValue) -> (res: EvaluationValue)
        ensures
            forall|st: EvalView| #[trigger]
                as_bool((st, outcome@)) == (st, res@),
    {
        match outcome {
            EvaluationValue::Value(value) => match value {
                ExpressionValue::Bool(b) => EvaluationValue::Value(ExpressionValue::Bool(b)),
                _ => invalid_operand("Boolean expression produced ", &value),
            },
            other => other,
        }
    }

    fn evaluate(&mut self, expression: &ExpressionV1) -> (res: EvaluationValue)
        requires
            old(self).sound(),
        ensures
            final(self).follows(old(self)),
            forall|answers: ValueSource| #[trigger]
                agree(answers, final(self).record()) ==> (final(self).used(), res@)
                    == evaluated(
                    old(self).program@,
                    answers,
                    old(self).scope(),
                    old(self).used(),
                    expression@,
                ),
        decreases expression, 3int,
    {
        match self.consume_operation() {
            Err(e) => EvaluationValue::Error(e),
            Ok(_) => self.evaluate_node(expression),
        }
    }

    #[verifier::rlimit(60)]
    #[verifier::spinoff_prover]
    fn evaluate_node(&mut self, expression: &ExpressionV1) -> (res: EvaluationValue)
        requires
            old(self).sound(),
        ensures
            final(self).follows(old(self)),
            forall|answers: ValueSource| #[trigger]
                agree(answers, final(self).record()) ==> (final(self).used(), res@)
                    == evaluated_node(
                    old(self).program@,
                    answers,
                    old(self).scope(),
                    old(self).used(),
                    expression@,
                ),
        decreases expression, 2int,
    {
        match expression {
            ExpressionV1::Literal { value } => match self.check_value_shallow(value) {
                Err(e) => EvaluationValue::Error(e),
                Ok(_) => EvaluationValue::Value(value.clone()),
            },
            ExpressionV1::Ref { reference } => self.evaluate_reference(reference),
            ExpressionV1::All { expressions } => self.evaluate_logical(expressions, false),
            ExpressionV1::Any { expressions } => self.evaluate_logical(expressions, true),
            ExpressionV1::Not { expression } => {
                let outcome = self.evaluate(expression);
                match Self::expect_boolean(outcome) {
                    EvaluationValue::Value(value) => match value {
                        ExpressionValue::Bool(b) => truth_value(!b),
                        _ => EvaluationValue::Value(value),
                    },
                    other => other,
                }
            },
            ExpressionV1::Exists { reference } => match self.evaluate_reference(reference) {
                EvaluationValue::Value(_) => truth_value(true),
                EvaluationValue::Missing(_) => truth_value(false),
                other => other,
            },
            ExpressionV1::IsNull { expression } => match self.evaluate(expression) {
                EvaluationValue::Value(value) => truth_value(
                    matches!(value, ExpressionValue::Null),
                ),
                other => other,
            },
            ExpressionV1::IsEmpty { expression } => match self.evaluate(expression) {
                EvaluationValue::Value(value) => match &value {
                    ExpressionValue::String(s) => truth_value(text_len(s) == 0),
                    ExpressionValue::List(values) => truth_value(values.len() == 0),
                    ExpressionValue::Object(map) => truth_value(map.entries.len() == 0),
                    _ => invalid_operand(
                        "is-empty expected string, list, or object; found ",
                        &value,
                    ),
                },
                other => other,
            },
            ExpressionV1::Compare { .. } => self.evaluate_pair(expression),
            ExpressionV1::Contains { .. } => self.evaluate_texts(expression),
            ExpressionV1::StartsWith { .. } => self.evaluate_texts(expression),
            ExpressionV1::EndsWith { .. } => self.evaluate_texts(expression),
            ExpressionV1::Matches { value, pattern } => {
                let found = self.evaluate(value);
                match expect_text(found, "matches expected string; found ") {
                    Err(other) => other,
                    Ok(s) => self.evaluate_regex(&s, pattern),
                }
            },
            ExpressionV1::In { .. } => self.evaluate_pair(expression),
            ExpressionV1::Quantifier { quantifier, collection, binding, predicate } => {
                let found = self.evaluate(collection);
                match expect_list(found, "quantifier expected list; found ") {
                    Err(other) => other,
                    Ok(values) => self.evaluate_quantifier(*quantifier, &values, binding, predicate),
                }
            },
        }
    }

    /// The value of a comparison or of a membership test.
    fn evaluate_pair(&mut self, expression: &ExpressionV1) -> (res: EvaluationValue)
        requires
            old(self).sound(),
            expression@ is Compare || expression@ is In,
        ensures
            final(self).follows(old(self)),
            forall|answers: ValueSource| #[trigger]
                agree(answers, final(self).record()) ==> (final(self).used(), res@)
                    == evaluated_node(
                    old(self).program@,
                    answers,
                    old(self).scope(),
                    old(self).used(),
                    expression@,
                ),
        decreases expression, 1int,
    {
        match expression {
            ExpressionV1::Compare { operator, left, right } => {
                let l = match self.evaluate(left) {
                    EvaluationValue::Value(value) => value,
                    other => {
                        return other;
                    },
                };
                let r = match self.evaluate(right) {
                    EvaluationValue::Value(value) => value,
                    other => {
                        return other;
                    },
                };
                self.evaluate_comparison(*operator, &l, &r)
            },
            ExpressionV1::In { needle, collection } => {
                let n = match self.evaluate(needle) {
                    EvaluationValue::Value(value) => value,
                    other => {
                        return other;
                    },
                };
                let found = self.evaluate(collection);
                match expect_list(found, "in expected list; found ") {
                    Err(other) => other,
                    Ok(values) => self.evaluate_in(&n, &values),
                }
            },
            _ => EvaluationValue::Value(ExpressionValue::Null),
        }
    }

    /// The value of a predicate on two texts.
    fn evaluate_texts(&mut self, expression: &ExpressionV1) -> (res: EvaluationValue)
        requires
            old(self).sound(),
            expression@ is Contains || expression@ is StartsWith || expression@ is EndsWith,
        ensures
            final(self).follows(old(self)),
            forall|answers: ValueSource| #[trigger]
                agree(answers, final(self).record()) ==> (final(self).used(), res@)
                    == evaluated_node(
                    old(self).program@,
                    answers,
                    old(self).scope(),
                    old(self).used(),
                    expression@,
                ),
        decreases expression, 1int,
    {
        match expression {
            ExpressionV1::Contains { value, needle } => {
                let first = self.evaluate(value);
                let left = match expect_text(first, "string predicate expected string; found ") {
                    Err(other) => {
                        return other;
                    },
                    Ok(s) => s,
                };
                let second = self.evaluate(needle);
                let right = match expect_text(
                    second,
                    "string predicate expected string operand; found ",
                ) {
                    Err(other) => {
                        return other;
                    },
                    Ok(s) => s,
                };
                self.evaluate_string_predicate(StringTest::Contains, &left, &right)
            },
            ExpressionV1::StartsWith { value, prefix } => {
                let first = self.evaluate(value);
                let left = match expect_text(first, "string predicate expected string; found ") {
                    Err(other) => {
                        return other;
                    },
                    Ok(s) => s,
                };
                let second = self.evaluate(prefix);
                let right = match expect_text(
                    second,
                    "string predicate expected string operand; found ",
                ) {
                    Err(other) => {
                        return other;
                    },
                    Ok(s) => s,
                };
                self.evaluate_string_predicate(StringTest::StartsWith, &left, &right)
            },
            ExpressionV1::EndsWith { value, suffix } => {
                let first = self.evaluate(value);
                let left = match expect_text(first, "string predicate expected string; found ") {
                    Err(other) => {
                        return other;
                    },
                    Ok(s) => s,
                };
                let second = self.evaluate(suffix);
                let right = match expect_text(
                    second,
                    "string predicate expected string operand; found ",
                ) {
                    Err(other) => {
                        return other;
                    },
                    Ok(s) => s,
                };
                self.evaluate_string_predicate(StringTest::EndsWith, &left, &right)
            },
            _ => EvaluationValue::Value(ExpressionValue::Null),
        }
    }

    fn evaluate_logical(&mut self, expressions: &Vec<ExpressionV1>, is_any: bool) -> (res:
        EvaluationValue)
        requires
            old(self).sound(),
        ensures
            final(self).follows(old(self)),
            forall|answers: ValueSource| #[trigger]
                agree(answers, final(self).record()) ==> (final(self).used(), res@)
                    == logical(
                    old(self).program@,
                    answers,
                    old(self).scope(),
                    old(self).used(),
                    expr_views(expressions@),
                    is_any,
                    0,
                    None,
                ),
        decreases expressions, 0int,
    {
        let ghost program = self.program@;
        let ghost scope = self.scope();
        let ghost views = expr_views(expressions@);
        let mut deferred: Option<EvaluationValue> = None;
        let mut i: usize = 0;
        while i < expressions.len()
            invariant
                i <= expressions@.len(),
                views == expr_views(expressions@),
                self.follows(old(self)),
                self.sound(),
                program == self.program@,
                scope == self.scope(),
                forall|answers: ValueSource| #[trigger]
                    agree(answers, self.record()) ==> logical(
                        program,
                        answers,
                        scope,
                        old(self).used(),
                        views,
                        is_any,
                        0,
                        None,
                    ) == logical(
                        program,
                        answers,
                        scope,
                        self.used(),
                        views,
                        is_any,
                        i as nat,
                        seen_outcome(deferred),
                    ),
            decreases expressions@.len() - i,
        {
            assert(decreases_to!(expressions@ => expressions@[i as int]));
            assert(views[i as int] == expressions@[i as int]@);
            let outcome = self.evaluate(&expressions[i]);
            let outcome = Self::expect_boolean(outcome);
            match outcome {
                EvaluationValue::Value(ExpressionValue::Bool(value)) => {
                    if value == is_any {
                        return truth_value(is_any);
                    }
                },
                issue => {
                    deferred = merge_deferred(deferred, issue);
                },
            }
            i = i + 1;
        }
        settle(deferred, !is_any)
    }

    fn evaluate_quantifier(
        &mut self,
        quantifier: CollectionQuantifier,
        values: &Vec<ExpressionValue>,
        binding: &str,
        predicate: &ExpressionV1,
    ) -> (res: EvaluationValue)
        requires
            old(self).sound(),
        ensures
            final(self).follows(old(self)),
            forall|answers: ValueSource| #[trigger]
                agree(answers, final(self).record()) ==> (final(self).used(), res@)
                    == quantified(
                    old(self).program@,
                    answers,
                    old(self).scope(),
                    old(self).used(),
                    quantifier,
                    list_views(values@),
                    binding@,
                    predicate@,
                    0,
                    None,
                ),
        decreases predicate, 4int,
    {
        let ghost program = self.program@;
        let ghost scope = self.scope();
        let ghost views = list_views(values@);
        let mut deferred: Option<EvaluationValue> = None;
        let mut i: usize = 0;
        while i < values.len()
            invariant
                i <= values@.len(),
                views == list_views(values@),
                self.follows(old(self)),
                self.sound(),
                program == self.program@,
                scope == self.scope(),
                forall|answers: ValueSource| #[trigger]
                    agree(answers, self.record()) ==> quantified(
                        program,
                        answers,
                        scope,
                        old(self).used(),
                        quantifier,
                        views,
                        binding@,
                        predicate@,
                        0,
                        None,
                    ) == quantified(
                        program,
                        answers,
                        scope,
                        self.used(),
                        quantifier,
                        views,
                        binding@,
                        predicate@,
                        i as nat,
                        seen_outcome(deferred),
                    ),
            decreases values@.len() - i,
        {
            assert(views[i as int] == values@[i as int]@);
            match self.visit_collection() {
                Err(e) => {
                    return EvaluationValue::Error(e);
                },
                Ok(_) => {},
            }
            let value = values[i].clone();
            self.locals.push((owned(binding), value));
            assert(self.scope() =~= scope.push((binding@, views[i as int])));
            let outcome = self.evaluate(predicate);
            self.locals.pop();
            assert(self.scope() =~= scope.push((binding@, views[i as int])).drop_last());
            assert(self.scope() =~= scope);
            let outcome = Self::expect_boolean(outcome);
            match outcome {
                EvaluationValue::Value(ExpressionValue::Bool(value)) => {
                    match decide(quantifier, value) {
                        Some(answer) => {
                            return truth_value(answer);
                        },
                        None => {},
                    }
                },
                issue => {
                    deferred = merge_deferred(deferred, issue);
                },
            }
            i = i + 1;
        }
        let identity = match quantifier {
            CollectionQuantifier::Any => false,
            CollectionQuantifier::All | CollectionQuantifier::NoneOf => true,
        };
        settle(deferred, identity)
    }
}

/// What an evaluation is of: there is a record of what the resolver answered, with
/// each reference in it once, and the evaluation is the run of the program over
/// any answers that agree with the record.
pub open spec fn evaluation_of<R: ExpressionValueResolver>(
    program: ProgramView,
    resolver: &R,
    used: EvalView,
    outcome: OutcomeView,
) -> bool {
    exists|record: Seq<(FieldRefView, OutcomeView)>| #[trigger]
        answered(resolver, program.limits, record) && forall|answers: ValueSource| #[trigger]
            agree(answers, record) ==> run(program, answers) == (used, outcome)
}

/// An evaluation that came to an outcome, whatever it used.
pub open spec fn outcome_of<R: ExpressionValueResolver>(
    program: ProgramView,
    resolver: &R,
    outcome: OutcomeView,
) -> bool {
    exists|used: EvalView| #[trigger] evaluation_of(program, resolver, used, outcome)
}

impl CheckedExpressionV1 {
    /// Evaluate using only the supplied immutable activation.
    pub fn evaluate<R: ExpressionValueResolver>(&self, resolver: &R) -> (res: EvaluationValue)
        ensures
            outcome_of(self@, resolver, res@),
    {
        self.evaluate_with_stats(resolver).outcome
    }

    /// Evaluate this checked program as a Boolean rule without collapsing
    /// missing, null, unknown, or error states.
    pub fn evaluate_rule<R: ExpressionValueResolver>(&self, resolver: &R) -> (res: RuleEvaluation)
        ensures
            exists|outcome: OutcomeView| #[trigger]
                outcome_of(self@, resolver, outcome) && res@ == rule_outcome(outcome),
    {
        let outcome = self.evaluate(resolver);
        assert(outcome_of(self@, resolver, outcome@));
        match outcome {
            EvaluationValue::Value(value) => match &value {
                ExpressionValue::Bool(b) => if *b {
                    RuleEvaluation::True
                } else {
                    RuleEvaluation::False
                },
                ExpressionValue::Null => RuleEvaluation::Null,
                _ => {
                    let mut message = joined("checked rule produced ", runtime_type_name(&value));
                    message.append(" instead of bool");
                    RuleEvaluation::Error(
                        EvaluationError::new(EvaluationErrorKind::InvalidOperand, &message),
                    )
                },
            },
            EvaluationValue::Missing(issue) => RuleEvaluation::Missing(issue),
            EvaluationValue::Unknown(issue) => RuleEvaluation::Unknown(issue),
            EvaluationValue::Error(error) => RuleEvaluation::Error(error),
        }
    }

    pub fn evaluate_with_stats<R: ExpressionValueResolver>(&self, resolver: &R) -> (res:
        ExpressionEvaluation)
        ensures
            exists|used: EvalView| #[trigger]
                evaluation_of(self@, resolver, used, res.outcome@) && res.operations
                    == used.operations && res.collection_visits == used.visits,
    {
        let mut evaluator = Evaluator::new(self, resolver);
        let outcome = evaluator.evaluate(self.expression());
        proof {
            let record = evaluator.record();
            assert(answered(resolver, self@.limits, record));
            assert(evaluation_of(self@, resolver, evaluator.used(), outcome@));
        }
        ExpressionEvaluation {
            outcome,
            operations: evaluator.operations,
            collection_visits: evaluator.collection_visits,
        }
    }
}

// ---------------------------------------------------------------------------
// Laws
// ---------------------------------------------------------------------------
/// Distinct outcomes of a rule stay distinct: true, false, null, missing,
/// unknown and error are never turned into one another, and nothing that is not
/// a Boolean passes for one.
pub proof fn law_rule_states_are_kept(outcome: OutcomeView)
    ensures
        rule_outcome(outcome) is True <==> outcome == truth(true),
        rule_outcome(outcome) is False <==> outcome == truth(false),
        rule_outcome(outcome) is Null <==> outcome == OutcomeView::Value(ExprValueView::Null),
        rule_outcome(outcome) is Missing <==> outcome is Missing,
        rule_outcome(outcome) is Unknown <==> outcome is Unknown,
        outcome is Error ==> rule_outcome(outcome) is Error,
        rule_outcome(outcome) is Error ==> outcome is Error || outcome is Value,
{
}

/// A decisive operand settles a logical operator, whatever issues came before it
/// and without a look at what follows.
pub proof fn law_decisive_operand_settles(
    program: ProgramView,
    answers: ValueSource,
    locals: Seq<(Seq<char>, ExprValueView)>,
    st: EvalView,
    items: Seq<ExprView>,
    any: bool,
    i: nat,
    deferred: Option<OutcomeView>,
)
    requires
        i < items.len(),
        evaluated(program, answers, locals, st, items[i as int]).1 == truth(any),
    ensures
        logical(program, answers, locals, st, items, any, i, deferred) == (
            evaluated(program, answers, locals, st, items[i as int]).0,
            truth(any),
        ),
{
}

/// The issue that is remembered is the gravest seen, and the first among equals:
/// an error outweighs an unknown value, which outweighs a missing one.
pub proof fn law_gravest_issue_is_kept(slot: Option<OutcomeView>, candidate: OutcomeView)
    ensures
        match graver(slot, candidate) {
            Some(kept) => {
                &&& priority(kept) >= priority(candidate)
                &&& slot matches Some(before) ==> priority(kept) >= priority(before)
                &&& slot matches Some(before) ==> (kept == before || priority(candidate)
                    > priority(before))
            },
            None => slot is None && candidate is Value,
        },
{
}

} // verus!
