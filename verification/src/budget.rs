//! What the operation limit promises of an evaluation.
use vstd::prelude::*;

use crate::evaluate::{
    among, as_bool, compared, conforming_items, conforming_members, conforms, evaluated,
    evaluated_node, graver, items_equal, local_value, logical, members_equal, quantified,
    reference_value, untyped, untyped_items, untyped_members, value_equal, EvalView,
    ValueSource,
};
use crate::expr::{
    saturated, CollectionQuantifier, ComparisonOperator, ExprTypeView, ExprValueView, ExprView,
    ExpressionLimits, KindView, ReferenceView,
};
use crate::expression::{local_type, ProgramView};
use crate::outcome::OutcomeView;
use crate::text_map;

verus! {

// ---------------------------------------------------------------------------
// What uses no operations
// ---------------------------------------------------------------------------
proof fn lemma_untyped(limits: ExpressionLimits, st: EvalView, value: ExprValueView, depth: nat)
    ensures
        untyped(limits, st, value, depth).0.operations == st.operations,
    decreases value, 1int,
{
    match value {
        ExprValueView::List(values) => lemma_untyped_items(limits, st, values, depth, 0),
        ExprValueView::Object(values) => lemma_untyped_members(limits, st, values, depth, 0),
        _ => {},
    }
}

proof fn lemma_untyped_items(
    limits: ExpressionLimits,
    st: EvalView,
    values: Seq<ExprValueView>,
    depth: nat,
    i: nat,
)
    ensures
        untyped_items(limits, st, values, depth, i).0.operations == st.operations,
    decreases values, values.len() - i,
{
    if i < values.len() {
        let deeper = saturated(depth + 1);
        let visited = st.visit(limits).0;
        lemma_untyped(limits, visited, values[i as int], deeper);
        let after = untyped(limits, visited, values[i as int], deeper).0;
        lemma_untyped_items(limits, after, values, depth, i + 1);
    }
}

proof fn lemma_untyped_members(
    limits: ExpressionLimits,
    st: EvalView,
    values: Seq<(Seq<char>, ExprValueView)>,
    depth: nat,
    i: nat,
)
    ensures
        untyped_members(limits, st, values, depth, i).0.operations == st.operations,
    decreases values, values.len() - i,
{
    if i < values.len() {
        let deeper = saturated(depth + 1);
        let (name, value) = values[i as int];
        let counted = st.visit(limits).0.string(limits, name).0;
        lemma_untyped(limits, counted, value, deeper);
        let after = untyped(limits, counted, value, deeper).0;
        lemma_untyped_members(limits, after, values, depth, i + 1);
    }
}

proof fn lemma_conforms(
    limits: ExpressionLimits,
    st: EvalView,
    value: ExprValueView,
    expected: ExprTypeView,
    depth: nat,
)
    ensures
        conforms(limits, st, value, expected, depth).0.operations == st.operations,
    decreases value, 1int,
{
    lemma_untyped(limits, st, value, depth);
    match (expected.kind, value) {
        (KindView::List(item), ExprValueView::List(values)) => {
            lemma_conforming_items(limits, st, values, *item, depth, 0);
        },
        (KindView::Object(fields), ExprValueView::Object(values)) => {
            lemma_conforming_members(limits, st, values, fields, depth, 0);
        },
        _ => {},
    }
}

proof fn lemma_conforming_items(
    limits: ExpressionLimits,
    st: EvalView,
    values: Seq<ExprValueView>,
    item: ExprTypeView,
    depth: nat,
    i: nat,
)
    ensures
        conforming_items(limits, st, values, item, depth, i).0.operations == st.operations,
    decreases values, values.len() - i,
{
    if i < values.len() {
        let deeper = saturated(depth + 1);
        let visited = st.visit(limits).0;
        lemma_conforms(limits, visited, values[i as int], item, deeper);
        let after = conforms(limits, visited, values[i as int], item, deeper).0;
        lemma_conforming_items(limits, after, values, item, depth, i + 1);
    }
}

proof fn lemma_conforming_members(
    limits: ExpressionLimits,
    st: EvalView,
    values: Seq<(Seq<char>, ExprValueView)>,
    fields: Seq<(Seq<char>, ExprTypeView)>,
    depth: nat,
    i: nat,
)
    ensures
        conforming_members(limits, st, values, fields, depth, i).0.operations == st.operations,
    decreases values, values.len() - i,
{
    if i < values.len() {
        let deeper = saturated(depth + 1);
        let (name, value) = values[i as int];
        let counted = st.visit(limits).0.string(limits, name).0;
        let after = match text_map::lookup(fields, name) {
            Some(expected) => {
                lemma_conforms(limits, counted, value, expected, deeper);
                conforms(limits, counted, value, expected, deeper).0
            },
            None => {
                lemma_untyped(limits, counted, value, deeper);
                untyped(limits, counted, value, deeper).0
            },
        };
        lemma_conforming_members(limits, after, values, fields, depth, i + 1);
    }
}

proof fn lemma_equal(
    limits: ExpressionLimits,
    st: EvalView,
    left: ExprValueView,
    right: ExprValueView,
    depth: nat,
)
    ensures
        value_equal(limits, st, left, right, depth).0.operations == st.operations,
    decreases left, 1int,
{
    match (left, right) {
        (ExprValueView::List(a), ExprValueView::List(b)) => {
            if a.len() == b.len() {
                lemma_items_equal(limits, st, a, b, depth, 0);
            }
        },
        (ExprValueView::Object(a), ExprValueView::Object(b)) => {
            if a.len() == b.len() {
                lemma_members_equal(limits, st, a, b, depth, 0);
            }
        },
        _ => {},
    }
}

proof fn lemma_items_equal(
    limits: ExpressionLimits,
    st: EvalView,
    left: Seq<ExprValueView>,
    right: Seq<ExprValueView>,
    depth: nat,
    i: nat,
)
    ensures
        items_equal(limits, st, left, right, depth, i).0.operations == st.operations,
    decreases left, left.len() - i,
{
    if i < left.len() {
        let deeper = saturated(depth + 1);
        let visited = st.visit(limits).0;
        lemma_equal(limits, visited, left[i as int], right[i as int], deeper);
        let after = value_equal(limits, visited, left[i as int], right[i as int], deeper).0;
        lemma_items_equal(limits, after, left, right, depth, i + 1);
    }
}

proof fn lemma_members_equal(
    limits: ExpressionLimits,
    st: EvalView,
    left: Seq<(Seq<char>, ExprValueView)>,
    right: Seq<(Seq<char>, ExprValueView)>,
    depth: nat,
    i: nat,
)
    ensures
        members_equal(limits, st, left, right, depth, i).0.operations == st.operations,
    decreases left, left.len() - i,
{
    if i < left.len() {
        let deeper = saturated(depth + 1);
        let (name, value) = left[i as int];
        match text_map::lookup(right, name) {
            Some(other) => {
                let counted = st.visit(limits).0.string(limits, name).0;
                lemma_equal(limits, counted, value, other, deeper);
                let after = value_equal(limits, counted, value, other, deeper).0;
                lemma_members_equal(limits, after, left, right, depth, i + 1);
            },
            None => {},
        }
    }
}

proof fn lemma_among(
    limits: ExpressionLimits,
    st: EvalView,
    needle: ExprValueView,
    values: Seq<ExprValueView>,
    i: nat,
)
    ensures
        among(limits, st, needle, values, i).0.operations == st.operations,
    decreases values.len() - i,
{
    if i < values.len() {
        let visited = st.visit(limits).0;
        lemma_equal(limits, visited, needle, values[i as int], 1);
        let after = value_equal(limits, visited, needle, values[i as int], 1).0;
        lemma_among(limits, after, needle, values, i + 1);
    }
}

proof fn lemma_compared(
    limits: ExpressionLimits,
    st: EvalView,
    operator: ComparisonOperator,
    left: ExprValueView,
    right: ExprValueView,
)
    ensures
        compared(limits, st, operator, left, right).0.operations == st.operations,
{
    lemma_equal(limits, st, left, right, 1);
}

// ---------------------------------------------------------------------------
// What uses operations
// ---------------------------------------------------------------------------
/// An evaluation that stayed within the limit, or came to an error.
pub open spec fn bounded(limits: ExpressionLimits, found: (EvalView, OutcomeView)) -> bool {
    found.1 is Error || found.0.operations <= limits.max_operations
}

spec fn bounded_slot(
    limits: ExpressionLimits,
    st: EvalView,
    deferred: Option<OutcomeView>,
) -> bool {
    (deferred matches Some(outcome) && outcome is Error) || st.operations
        <= limits.max_operations
}

proof fn lemma_local_value(
    limits: ExpressionLimits,
    st: EvalView,
    binding: Seq<char>,
    path: Seq<Seq<char>>,
    i: nat,
    current: ExprValueView,
)
    requires
        st.operations <= limits.max_operations,
    ensures
        bounded(limits, local_value(limits, st, binding, path, i, current)),
    decreases path.len() - i,
{
    if i < path.len() {
        match current {
            ExprValueView::Object(fields) => match text_map::lookup(fields, path[i as int]) {
                Some(value) => {
                    let (after, res) = st.operation(limits);
                    if res is Ok {
                        lemma_local_value(limits, after, binding, path, i + 1, value);
                    }
                },
                None => {},
            },
            _ => {},
        }
    }
}

proof fn lemma_reference(
    program: ProgramView,
    answers: ValueSource,
    locals: Seq<(Seq<char>, ExprValueView)>,
    st: EvalView,
    reference: ReferenceView,
)
    requires
        st.operations <= program.limits.max_operations,
    ensures
        bounded(program.limits, reference_value(program, answers, locals, st, reference)),
{
    match reference {
        ReferenceView::Context { field } => {
            match (
                answers(field),
                text_map::lookup(program.resolved, field),
            ) {
                (OutcomeView::Value(value), Some(t)) => {
                    lemma_conforms(program.limits, st, value, t, 1);
                },
                _ => {},
            }
        },
        ReferenceView::Local { binding, path } => match local_type(locals, binding) {
            Some(root) => lemma_local_value(program.limits, st, binding, path, 0, root),
            None => {},
        },
    }
}

/// An evaluation that comes to an answer, or to a missing or unknown value, has
/// stayed within its limit of operations: one that goes beyond it fails.
pub proof fn law_answers_stay_within_operations(
    program: ProgramView,
    answers: ValueSource,
    locals: Seq<(Seq<char>, ExprValueView)>,
    st: EvalView,
    e: ExprView,
)
    ensures
        bounded(program.limits, evaluated(program, answers, locals, st, e)),
    decreases e, 2int,
{
    let (after, res) = st.operation(program.limits);
    if res is Ok {
        lemma_node(program, answers, locals, after, e);
    }
}

proof fn lemma_node(
    program: ProgramView,
    answers: ValueSource,
    locals: Seq<(Seq<char>, ExprValueView)>,
    st: EvalView,
    e: ExprView,
)
    requires
        st.operations <= program.limits.max_operations,
    ensures
        bounded(program.limits, evaluated_node(program, answers, locals, st, e)),
    decreases e, 1int,
{
    match e {
        ExprView::Literal { .. } => {},
        ExprView::Ref { reference } => {
            lemma_reference(program, answers, locals, st, reference);
        },
        ExprView::Exists { reference } => {
            lemma_reference(program, answers, locals, st, reference);
        },
        ExprView::All { expressions } => {
            lemma_logical(program, answers, locals, st, expressions, false, 0, None);
        },
        ExprView::Any { expressions } => {
            lemma_logical(program, answers, locals, st, expressions, true, 0, None);
        },
        ExprView::Not { expression } => {
            law_answers_stay_within_operations(program, answers, locals, st, *expression);
        },
        ExprView::IsNull { expression } => {
            law_answers_stay_within_operations(program, answers, locals, st, *expression);
        },
        ExprView::IsEmpty { expression } => {
            law_answers_stay_within_operations(program, answers, locals, st, *expression);
        },
        ExprView::Compare { operator, left, right } => {
            law_answers_stay_within_operations(program, answers, locals, st, *left);
            let first = evaluated(program, answers, locals, st, *left);
            law_answers_stay_within_operations(program, answers, locals, first.0, *right);
            let second = evaluated(program, answers, locals, first.0, *right);
            match (first.1, second.1) {
                (OutcomeView::Value(l), OutcomeView::Value(r)) => {
                    lemma_compared(program.limits, second.0, operator, l, r);
                },
                _ => {},
            }
        },
        ExprView::Contains { value, needle } => {
            law_answers_stay_within_operations(program, answers, locals, st, *value);
            let first = evaluated(program, answers, locals, st, *value);
            law_answers_stay_within_operations(program, answers, locals, first.0, *needle);
        },
        ExprView::StartsWith { value, prefix } => {
            law_answers_stay_within_operations(program, answers, locals, st, *value);
            let first = evaluated(program, answers, locals, st, *value);
            law_answers_stay_within_operations(program, answers, locals, first.0, *prefix);
        },
        ExprView::EndsWith { value, suffix } => {
            law_answers_stay_within_operations(program, answers, locals, st, *value);
            let first = evaluated(program, answers, locals, st, *value);
            law_answers_stay_within_operations(program, answers, locals, first.0, *suffix);
        },
        ExprView::Matches { value, .. } => {
            law_answers_stay_within_operations(program, answers, locals, st, *value);
        },
        ExprView::In { needle, collection } => {
            law_answers_stay_within_operations(program, answers, locals, st, *needle);
            let first = evaluated(program, answers, locals, st, *needle);
            law_answers_stay_within_operations(program, answers, locals, first.0, *collection);
            let second = evaluated(program, answers, locals, first.0, *collection);
            match (first.1, second.1) {
                (OutcomeView::Value(n), OutcomeView::Value(ExprValueView::List(values))) => {
                    lemma_among(program.limits, second.0, n, values, 0);
                },
                _ => {},
            }
        },
        ExprView::Quantifier { quantifier, collection, binding, predicate } => {
            law_answers_stay_within_operations(program, answers, locals, st, *collection);
            let found = evaluated(program, answers, locals, st, *collection);
            match found.1 {
                OutcomeView::Value(ExprValueView::List(values)) => {
                    lemma_quantified(
                        program,
                        answers,
                        locals,
                        found.0,
                        quantifier,
                        values,
                        binding,
                        *predicate,
                        0,
                        None,
                    );
                },
                _ => {},
            }
        },
    }
}

proof fn lemma_logical(
    program: ProgramView,
    answers: ValueSource,
    locals: Seq<(Seq<char>, ExprValueView)>,
    st: EvalView,
    items: Seq<ExprView>,
    any: bool,
    i: nat,
    deferred: Option<OutcomeView>,
)
    requires
        bounded_slot(program.limits, st, deferred),
    ensures
        bounded(
            program.limits,
            logical(program, answers, locals, st, items, any, i, deferred),
        ),
    decreases items, items.len() - i,
{
    if i < items.len() {
        law_answers_stay_within_operations(program, answers, locals, st, items[i as int]);
        let (after, outcome) = as_bool(evaluated(program, answers, locals, st, items[i as int]));
        let slot = if outcome is Value {
            deferred
        } else {
            graver(deferred, outcome)
        };
        lemma_logical(program, answers, locals, after, items, any, i + 1, slot);
    }
}

proof fn lemma_quantified(
    program: ProgramView,
    answers: ValueSource,
    locals: Seq<(Seq<char>, ExprValueView)>,
    st: EvalView,
    quantifier: CollectionQuantifier,
    values: Seq<ExprValueView>,
    binding: Seq<char>,
    predicate: ExprView,
    i: nat,
    deferred: Option<OutcomeView>,
)
    requires
        bounded_slot(program.limits, st, deferred),
    ensures
        bounded(
            program.limits,
            quantified(
                program,
                answers,
                locals,
                st,
                quantifier,
                values,
                binding,
                predicate,
                i,
                deferred,
            ),
        ),
    decreases predicate, 3int, values.len() - i,
{
    if i < values.len() {
        let inner = locals.push((binding, values[i as int]));
        let visited = st.visit(program.limits).0;
        law_answers_stay_within_operations(program, answers, inner, visited, predicate);
        let (after, outcome) = as_bool(evaluated(program, answers, inner, visited, predicate));
        let slot = if outcome is Value {
            deferred
        } else {
            graver(deferred, outcome)
        };
        lemma_quantified(
            program,
            answers,
            locals,
            after,
            quantifier,
            values,
            binding,
            predicate,
            i + 1,
            slot,
        );
    }
}

} // verus!
