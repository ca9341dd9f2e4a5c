//! What a check promises of an evaluation: a checked program never asks for
//! something that the check did not provide.
use vstd::prelude::*;

use crate::context::FieldRefView;
use crate::evaluate::{
    among, as_bool, compared, conforming_items, conforming_members, conforms, evaluated,
    evaluated_node, graver, items_equal, local_value, logical, members_equal, quantified,
    reference_value, rule_outcome, run, untyped, untyped_items, untyped_members, unused,
    value_equal, EvalView, ValueSource,
};
use crate::expr::{
    common_type, saturated, CollectionQuantifier, ComparisonOperator, ExprTypeView,
    ExprValueView, ExprView, ExpressionLimits, KindView, ReferenceView,
};
use crate::expression::{
    checked_rule, checked_value, enter_quantifier, expect_bool, expect_string, inferred,
    inferred_all, inferred_node, item_location, lemma_known_push, literal_items, literal_members, literal_type, local_path,
    local_type, member_location, quantifier_item, reference_type, unchecked, CheckView,
    ExpressionDiagnosticCode, ProgramView, SchemaSource,
};
use crate::outcome::{EvalErrorView, EvaluationErrorKind, OutcomeView};
use crate::text;
use crate::text_map;

verus! {

// ---------------------------------------------------------------------------
// What an expression needs
// ---------------------------------------------------------------------------
/// Types of context references and patterns that a check has prepared.
pub struct Prepared {
    pub resolved: Seq<(FieldRefView, ExprTypeView)>,
    pub patterns: Seq<Seq<char>>,
}

pub open spec fn prepared(program: ProgramView) -> Prepared {
    Prepared { resolved: program.resolved, patterns: program.patterns }
}

/// Whether all that a reference needs is there: the type of a context reference,
/// or the local binding in scope.
pub open spec fn provided_reference(
    at: Prepared,
    scope: Set<Seq<char>>,
    reference: ReferenceView,
) -> bool {
    match reference {
        ReferenceView::Context { field } => text_map::has_key(at.resolved, field),
        ReferenceView::Local { binding, .. } => scope.contains(binding),
    }
}

/// Whether all that an expression needs is there.
pub open spec fn provided(at: Prepared, scope: Set<Seq<char>>, e: ExprView) -> bool
    decreases e,
{
    match e {
        ExprView::Literal { .. } => true,
        ExprView::Ref { reference } => provided_reference(at, scope, reference),
        ExprView::Exists { reference } => provided_reference(at, scope, reference),
        ExprView::All { expressions } => forall|i: int|
            0 <= i < expressions.len() ==> provided(at, scope, #[trigger] expressions[i]),
        ExprView::Any { expressions } => forall|i: int|
            0 <= i < expressions.len() ==> provided(at, scope, #[trigger] expressions[i]),
        ExprView::Not { expression } => provided(at, scope, *expression),
        ExprView::IsNull { expression } => provided(at, scope, *expression),
        ExprView::IsEmpty { expression } => provided(at, scope, *expression),
        ExprView::Compare { left, right, .. } => provided(at, scope, *left) && provided(
            at,
            scope,
            *right,
        ),
        ExprView::Contains { value, needle } => provided(at, scope, *value) && provided(
            at,
            scope,
            *needle,
        ),
        ExprView::StartsWith { value, prefix } => provided(at, scope, *value) && provided(
            at,
            scope,
            *prefix,
        ),
        ExprView::EndsWith { value, suffix } => provided(at, scope, *value) && provided(
            at,
            scope,
            *suffix,
        ),
        ExprView::Matches { value, pattern } => provided(at, scope, *value)
            && at.patterns.contains(pattern),
        ExprView::In { needle, collection } => provided(at, scope, *needle) && provided(
            at,
            scope,
            *collection,
        ),
        ExprView::Quantifier { collection, binding, predicate, .. } => provided(
            at,
            scope,
            *collection,
        ) && provided(at, scope.insert(binding), *predicate),
    }
}

// ---------------------------------------------------------------------------
// Evaluation
// ---------------------------------------------------------------------------
/// An error that says the program was not checked for what it met.
pub open spec fn unprepared(error: EvalErrorView) -> bool {
    error.kind == EvaluationErrorKind::Internal
}

pub open spec fn fails_unprepared(outcome: OutcomeView) -> bool {
    outcome matches OutcomeView::Error(error) && unprepared(error)
}

spec fn sound<T>(res: Result<T, EvalErrorView>) -> bool {
    res matches Err(error) ==> !unprepared(error)
}

spec fn sound_slot(slot: Option<OutcomeView>) -> bool {
    slot matches Some(outcome) ==> !fails_unprepared(outcome)
}

proof fn lemma_untyped(limits: ExpressionLimits, st: EvalView, value: ExprValueView, depth: nat)
    ensures
        sound(untyped(limits, st, value, depth).1),
    decreases value, 1int,
{
    match value {
        ExprValueView::List(values) => lemma_untyped_items(limits, st, values, depth, 0),
        ExprValueView::Object(values) => lemma_untyped_members(limits, st, values, depth, 0),
        _ => {},
    }
}

proof fn lemma_untyped_items(
    limits: ExpressionLimits,
    st: EvalView,
    values: Seq<ExprValueView>,
    depth: nat,
    i: nat,
)
    ensures
        sound(untyped_items(limits, st, values, depth, i).1),
    decreases values, values.len() - i,
{
    if i < values.len() {
        let deeper = saturated(depth + 1);
        let visited = st.visit(limits).0;
        lemma_untyped(limits, visited, values[i as int], deeper);
        let after = untyped(limits, visited, values[i as int], deeper).0;
        lemma_untyped_items(limits, after, values, depth, i + 1);
    }
}

proof fn lemma_untyped_members(
    limits: ExpressionLimits,
    st: EvalView,
    values: Seq<(Seq<char>, ExprValueView)>,
    depth: nat,
    i: nat,
)
    ensures
        sound(untyped_members(limits, st, values, depth, i).1),
    decreases values, values.len() - i,
{
    if i < values.len() {
        let deeper = saturated(depth + 1);
        let (name, value) = values[i as int];
        let counted = st.visit(limits).0.string(limits, name).0;
        lemma_untyped(limits, counted, value, deeper);
        let after = untyped(limits, counted, value, deeper).0;
        lemma_untyped_members(limits, after, values, depth, i + 1);
    }
}

proof fn lemma_conforms(
    limits: ExpressionLimits,
    st: EvalView,
    value: ExprValueView,
    expected: ExprTypeView,
    depth: nat,
)
    ensures
        sound(conforms(limits, st, value, expected, depth).1),
    decreases value, 1int,
{
    lemma_untyped(limits, st, value, depth);
    match (expected.kind, value) {
        (KindView::List(item), ExprValueView::List(values)) => {
            lemma_conforming_items(limits, st, values, *item, depth, 0);
        },
        (KindView::Object(fields), ExprValueView::Object(values)) => {
            lemma_conforming_members(limits, st, values, fields, depth, 0);
        },
        _ => {},
    }
}

proof fn lemma_conforming_items(
    limits: ExpressionLimits,
    st: EvalView,
    values: Seq<ExprValueView>,
    item: ExprTypeView,
    depth: nat,
    i: nat,
)
    ensures
        sound(conforming_items(limits, st, values, item, depth, i).1),
    decreases values, values.len() - i,
{
    if i < values.len() {
        let deeper = saturated(depth + 1);
        let visited = st.visit(limits).0;
        lemma_conforms(limits, visited, values[i as int], item, deeper);
        let after = conforms(limits, visited, values[i as int], item, deeper).0;
        lemma_conforming_items(limits, after, values, item, depth, i + 1);
    }
}

proof fn lemma_conforming_members(
    limits: ExpressionLimits,
    st: EvalView,
    values: Seq<(Seq<char>, ExprValueView)>,
    fields: Seq<(Seq<char>, ExprTypeView)>,
    depth: nat,
    i: nat,
)
    ensures
        sound(conforming_members(limits, st, values, fields, depth, i).1),
    decreases values, values.len() - i,
{
    if i < values.len() {
        let deeper = saturated(depth + 1);
        let (name, value) = values[i as int];
        let counted = st.visit(limits).0.string(limits, name).0;
        let after = match text_map::lookup(fields, name) {
            Some(expected) => {
                lemma_conforms(limits, counted, value, expected, deeper);
                conforms(limits, counted, value, expected, deeper).0
            },
            None => {
                lemma_untyped(limits, counted, value, deeper);
                untyped(limits, counted, value, deeper).0
            },
        };
        lemma_conforming_members(limits, after, values, fields, depth, i + 1);
    }
}

proof fn lemma_equal(
    limits: ExpressionLimits,
    st: EvalView,
    left: ExprValueView,
    right: ExprValueView,
    depth: nat,
)
    ensures
        sound(value_equal(limits, st, left, right, depth).1),
    decreases left, 1int,
{
    match (left, right) {
        (ExprValueView::List(a), ExprValueView::List(b)) => {
            if a.len() == b.len() {
                lemma_items_equal(limits, st, a, b, depth, 0);
            }
        },
        (ExprValueView::Object(a), ExprValueView::Object(b)) => {
            if a.len() == b.len() {
                lemma_members_equal(limits, st, a, b, depth, 0);
            }
        },
        _ => {},
    }
}

proof fn lemma_items_equal(
    limits: ExpressionLimits,
    st: EvalView,
    left: Seq<ExprValueView>,
    right: Seq<ExprValueView>,
    depth: nat,
    i: nat,
)
    ensures
        sound(items_equal(limits, st, left, right, depth, i).1),
    decreases left, left.len() - i,
{
    if i < left.len() {
        let deeper = saturated(depth + 1);
        let visited = st.visit(limits).0;
        lemma_equal(limits, visited, left[i as int], right[i as int], deeper);
        let after = value_equal(limits, visited, left[i as int], right[i as int], deeper).0;
        lemma_items_equal(limits, after, left, right, depth, i + 1);
    }
}

proof fn lemma_members_equal(
    limits: ExpressionLimits,
    st: EvalView,
    left: Seq<(Seq<char>, ExprValueView)>,
    right: Seq<(Seq<char>, ExprValueView)>,
    depth: nat,
    i: nat,
)
    ensures
        sound(members_equal(limits, st, left, right, depth, i).1),
    decreases left, left.len() - i,
{
    if i < left.len() {
        let deeper = saturated(depth + 1);
        let (name, value) = left[i as int];
        match text_map::lookup(right, name) {
            Some(other) => {
                let counted = st.visit(limits).0.string(limits, name).0;
                lemma_equal(limits, counted, value, other, deeper);
                let after = value_equal(limits, counted, value, other, deeper).0;
                lemma_members_equal(limits, after, left, right, depth, i + 1);
            },
            None => {},
        }
    }
}

proof fn lemma_among(
    limits: ExpressionLimits,
    st: EvalView,
    needle: ExprValueView,
    values: Seq<ExprValueView>,
    i: nat,
)
    ensures
        !fails_unprepared(among(limits, st, needle, values, i).1),
    decreases values.len() - i,
{
    if i < values.len() {
        let visited = st.visit(limits).0;
        lemma_equal(limits, visited, needle, values[i as int], 1);
        let after = value_equal(limits, visited, needle, values[i as int], 1).0;
        lemma_among(limits, after, needle, values, i + 1);
    }
}

proof fn lemma_compared(
    limits: ExpressionLimits,
    st: EvalView,
    operator: ComparisonOperator,
    left: ExprValueView,
    right: ExprValueView,
)
    ensures
        !fails_unprepared(compared(limits, st, operator, left, right).1),
{
    lemma_equal(limits, st, left, right, 1);
}

proof fn lemma_local_value(
    limits: ExpressionLimits,
    st: EvalView,
    binding: Seq<char>,
    path: Seq<Seq<char>>,
    i: nat,
    current: ExprValueView,
)
    ensures
        !fails_unprepared(local_value(limits, st, binding, path, i, current).1),
    decreases path.len() - i,
{
    if i < path.len() {
        match current {
            ExprValueView::Object(fields) => match text_map::lookup(fields, path[i as int]) {
                Some(value) => {
                    let after = st.operation(limits).0;
                    lemma_local_value(limits, after, binding, path, i + 1, value);
                },
                None => {},
            },
            _ => {},
        }
    }
}

/// Every name in scope has a value.
pub open spec fn bound(scope: Set<Seq<char>>, locals: Seq<(Seq<char>, ExprValueView)>) -> bool {
    forall|name: Seq<char>|
        #![trigger scope.contains(name)]
        scope.contains(name) ==> local_type(locals, name) is Some
}

proof fn lemma_bound(
    scope: Set<Seq<char>>,
    locals: Seq<(Seq<char>, ExprValueView)>,
    binding: Seq<char>,
    value: ExprValueView,
)
    requires
        bound(scope, locals),
    ensures
        bound(scope.insert(binding), locals.push((binding, value))),
{
    let more = locals.push((binding, value));
    assert(more.drop_last() =~= locals);
    assert forall|name: Seq<char>|
        #![trigger scope.insert(binding).contains(name)]
        scope.insert(binding).contains(name) implies local_type(more, name) is Some by {
        if name != binding {
            assert(scope.contains(name));
        }
    }
}

/// No answer says that a program was not checked.
pub open spec fn well_behaved(answers: ValueSource) -> bool {
    forall|field: FieldRefView| !fails_unprepared(#[trigger] answers(field))
}

proof fn lemma_reference(
    program: ProgramView,
    answers: ValueSource,
    scope: Set<Seq<char>>,
    locals: Seq<(Seq<char>, ExprValueView)>,
    st: EvalView,
    reference: ReferenceView,
)
    requires
        provided_reference(prepared(program), scope, reference),
        bound(scope, locals),
        well_behaved(answers),
    ensures
        !fails_unprepared(reference_value(program, answers, locals, st, reference).1),
{
    match reference {
        ReferenceView::Context { field } => {
            let found = answers(field);
            let t = text_map::lookup(program.resolved, field)->Some_0;
            match found {
                OutcomeView::Value(value) => {
                    lemma_conforms(program.limits, st, value, t, 1);
                },
                _ => {},
            }
        },
        ReferenceView::Local { binding, path } => {
            assert(scope.contains(binding));
            let root = local_type(locals, binding)->Some_0;
            lemma_local_value(program.limits, st, binding, path, 0, root);
        },
    }
}

proof fn lemma_evaluated(
    program: ProgramView,
    answers: ValueSource,
    scope: Set<Seq<char>>,
    locals: Seq<(Seq<char>, ExprValueView)>,
    st: EvalView,
    e: ExprView,
)
    requires
        provided(prepared(program), scope, e),
        bound(scope, locals),
        well_behaved(answers),
    ensures
        !fails_unprepared(evaluated(program, answers, locals, st, e).1),
    decreases e, 2int,
{
    let after = st.operation(program.limits).0;
    lemma_node(program, answers, scope, locals, after, e);
}

proof fn lemma_node(
    program: ProgramView,
    answers: ValueSource,
    scope: Set<Seq<char>>,
    locals: Seq<(Seq<char>, ExprValueView)>,
    st: EvalView,
    e: ExprView,
)
    requires
        provided(prepared(program), scope, e),
        bound(scope, locals),
        well_behaved(answers),
    ensures
        !fails_unprepared(evaluated_node(program, answers, locals, st, e).1),
    decreases e, 1int,
{
    match e {
        ExprView::Literal { .. } => {},
        ExprView::Ref { reference } => {
            lemma_reference(program, answers, scope, locals, st, reference);
        },
        ExprView::Exists { reference } => {
            lemma_reference(program, answers, scope, locals, st, reference);
        },
        ExprView::All { expressions } => {
            lemma_logical(program, answers, scope, locals, st, expressions, false, 0, None);
        },
        ExprView::Any { expressions } => {
            lemma_logical(program, answers, scope, locals, st, expressions, true, 0, None);
        },
        ExprView::Not { expression } => {
            lemma_evaluated(program, answers, scope, locals, st, *expression);
        },
        ExprView::IsNull { expression } => {
            lemma_evaluated(program, answers, scope, locals, st, *expression);
        },
        ExprView::IsEmpty { expression } => {
            lemma_evaluated(program, answers, scope, locals, st, *expression);
        },
        ExprView::Compare { operator, left, right } => {
            lemma_evaluated(program, answers, scope, locals, st, *left);
            let first = evaluated(program, answers, locals, st, *left);
            lemma_evaluated(program, answers, scope, locals, first.0, *right);
            let second = evaluated(program, answers, locals, first.0, *right);
            match (first.1, second.1) {
                (OutcomeView::Value(l), OutcomeView::Value(r)) => {
                    lemma_compared(program.limits, second.0, operator, l, r);
                },
                _ => {},
            }
        },
        ExprView::Contains { value, needle } => {
            lemma_evaluated(program, answers, scope, locals, st, *value);
            let first = evaluated(program, answers, locals, st, *value);
            lemma_evaluated(program, answers, scope, locals, first.0, *needle);
        },
        ExprView::StartsWith { value, prefix } => {
            lemma_evaluated(program, answers, scope, locals, st, *value);
            let first = evaluated(program, answers, locals, st, *value);
            lemma_evaluated(program, answers, scope, locals, first.0, *prefix);
        },
        ExprView::EndsWith { value, suffix } => {
            lemma_evaluated(program, answers, scope, locals, st, *value);
            let first = evaluated(program, answers, locals, st, *value);
            lemma_evaluated(program, answers, scope, locals, first.0, *suffix);
        },
        ExprView::Matches { value, .. } => {
            lemma_evaluated(program, answers, scope, locals, st, *value);
        },
        ExprView::In { needle, collection } => {
            lemma_evaluated(program, answers, scope, locals, st, *needle);
            let first = evaluated(program, answers, locals, st, *needle);
            lemma_evaluated(program, answers, scope, locals, first.0, *collection);
            let second = evaluated(program, answers, locals, first.0, *collection);
            match (first.1, second.1) {
                (OutcomeView::Value(n), OutcomeView::Value(ExprValueView::List(values))) => {
                    lemma_among(program.limits, second.0, n, values, 0);
                },
                _ => {},
            }
        },
        ExprView::Quantifier { quantifier, collection, binding, predicate } => {
            lemma_evaluated(program, answers, scope, locals, st, *collection);
            let found = evaluated(program, answers, locals, st, *collection);
            match found.1 {
                OutcomeView::Value(ExprValueView::List(values)) => {
                    lemma_quantified(
                        program,
                        answers,
                        scope,
                        locals,
                        found.0,
                        quantifier,
                        values,
                        binding,
                        *predicate,
                        0,
                        None,
                    );
                },
                _ => {},
            }
        },
    }
}

proof fn lemma_logical(
    program: ProgramView,
    answers: ValueSource,
    scope: Set<Seq<char>>,
    locals: Seq<(Seq<char>, ExprValueView)>,
    st: EvalView,
    items: Seq<ExprView>,
    any: bool,
    i: nat,
    deferred: Option<OutcomeView>,
)
    requires
        forall|k: int|
            0 <= k < items.len() ==> provided(prepared(program), scope, #[trigger] items[k]),
        bound(scope, locals),
        well_behaved(answers),
        sound_slot(deferred),
    ensures
        !fails_unprepared(
            logical(program, answers, locals, st, items, any, i, deferred).1,
        ),
    decreases items, items.len() - i,
{
    if i < items.len() {
        lemma_evaluated(program, answers, scope, locals, st, items[i as int]);
        let (after, outcome) = as_bool(evaluated(program, answers, locals, st, items[i as int]));
        lemma_logical(program, answers, scope, locals, after, items, any, i + 1, deferred);
        lemma_logical(
            program,
            answers,
            scope,
            locals,
            after,
            items,
            any,
            i + 1,
            graver(deferred, outcome),
        );
    }
}

proof fn lemma_quantified(
    program: ProgramView,
    answers: ValueSource,
    scope: Set<Seq<char>>,
    locals: Seq<(Seq<char>, ExprValueView)>,
    st: EvalView,
    quantifier: CollectionQuantifier,
    values: Seq<ExprValueView>,
    binding: Seq<char>,
    predicate: ExprView,
    i: nat,
    deferred: Option<OutcomeView>,
)
    requires
        provided(prepared(program), scope.insert(binding), predicate),
        bound(scope, locals),
        well_behaved(answers),
        sound_slot(deferred),
    ensures
        !fails_unprepared(
            quantified(
                program,
                answers,
                locals,
                st,
                quantifier,
                values,
                binding,
                predicate,
                i,
                deferred,
            ).1,
        ),
    decreases predicate, 3int, values.len() - i,
{
    if i < values.len() {
        let inner = locals.push((binding, values[i as int]));
        lemma_bound(scope, locals, binding, values[i as int]);
        let visited = st.visit(program.limits).0;
        lemma_evaluated(program, answers, scope.insert(binding), inner, visited, predicate);
        let (after, outcome) = as_bool(evaluated(program, answers, inner, visited, predicate));
        lemma_quantified(
            program,
            answers,
            scope,
            locals,
            after,
            quantifier,
            values,
            binding,
            predicate,
            i + 1,
            deferred,
        );
        lemma_quantified(
            program,
            answers,
            scope,
            locals,
            after,
            quantifier,
            values,
            binding,
            predicate,
            i + 1,
            graver(deferred, outcome),
        );
    }
}

// ---------------------------------------------------------------------------
// Checking
// ---------------------------------------------------------------------------
/// A check that goes on keeps what it has found, good and bad.
#[verifier::opaque]
spec fn keeps(before: CheckView, after: CheckView) -> bool {
    &&& before.diagnostics.len() <= after.diagnostics.len()
    &&& forall|field: FieldRefView| #[trigger]
        text_map::has_key(before.resolved, field) ==> text_map::has_key(after.resolved, field)
    &&& forall|pattern: Seq<char>| #[trigger]
        before.patterns.contains(pattern) ==> after.patterns.contains(pattern)
}

/// A check that finds no type has found a fault.
spec fn explained(st: CheckView, t: Option<ExprTypeView>) -> bool {
    t is None ==> st.diagnostics.len() > 0
}

proof fn lemma_keeps_same(before: CheckView, after: CheckView)
    requires
        before.diagnostics.len() <= after.diagnostics.len(),
        before.resolved == after.resolved,
        before.patterns == after.patterns,
    ensures
        keeps(before, after),
{
    reveal(keeps);
}

proof fn lemma_keeps_then(a: CheckView, b: CheckView, c: CheckView)
    requires
        keeps(a, b),
        keeps(b, c),
    ensures
        keeps(a, c),
{
    reveal(keeps);
}

/// A check that ends without a fault had none before.
proof fn lemma_clean_before(before: CheckView, after: CheckView)
    requires
        keeps(before, after),
        after.diagnostics.len() == 0,
    ensures
        before.diagnostics.len() == 0,
{
    reveal(keeps);
}

proof fn lemma_visit(st: CheckView, limits: ExpressionLimits, location: Seq<char>, depth: nat)
    ensures
        keeps(st, st.visit(limits, location, depth).0),
        st.visit(limits, location, depth).0.locals == st.locals,
        !st.visit(limits, location, depth).1 ==> st.visit(
            limits,
            location,
            depth,
        ).0.diagnostics.len() > 0,
{
    lemma_keeps_same(st, st.visit(limits, location, depth).0);
}

proof fn lemma_string(st: CheckView, limits: ExpressionLimits, s: Seq<char>, location: Seq<char>)
    ensures
        keeps(st, st.string(limits, s, location)),
        st.string(limits, s, location).locals == st.locals,
{
    lemma_keeps_same(st, st.string(limits, s, location));
}

proof fn lemma_pattern(
    st: CheckView,
    limits: ExpressionLimits,
    pattern: Seq<char>,
    location: Seq<char>,
)
    ensures
        keeps(st, st.pattern(limits, pattern, location)),
        st.pattern(limits, pattern, location).locals == st.locals,
        st.pattern(limits, pattern, location).diagnostics.len() == 0 ==> st.pattern(
            limits,
            pattern,
            location,
        ).patterns.contains(pattern),
{
    let counted = st.string(limits, pattern, location);
    let after = st.pattern(limits, pattern, location);
    lemma_string(st, limits, pattern, location);
    reveal(keeps);
    let pushed = counted.patterns.push(pattern);
    assert(pushed[pushed.len() - 1] == pattern);
    assert forall|p: Seq<char>| #[trigger] counted.patterns.contains(p) implies pushed.contains(
        p,
    ) by {
        let k = choose|k: int| 0 <= k < counted.patterns.len() && counted.patterns[k] == p;
        assert(pushed[k] == p);
    }
    assert(keeps(counted, after));
    lemma_keeps_then(st, counted, after);
}

proof fn lemma_local_path(
    limits: ExpressionLimits,
    st: CheckView,
    binding: Seq<char>,
    path: Seq<Seq<char>>,
    i: nat,
    current: ExprTypeView,
    location: Seq<char>,
)
    ensures
        ({
            let (after, t) = local_path(limits, st, binding, path, i, current, location);
            keeps(st, after) && after.locals == st.locals && explained(after, t)
        }),
    decreases path.len() - i,
{
    let (after, t) = local_path(limits, st, binding, path, i, current, location);
    if i < path.len() && text::byte_len(path[i as int]) <= limits.max_string_bytes {
        match current.kind {
            KindView::Object(fields) => match text_map::lookup(fields, path[i as int]) {
                Some(child) => {
                    let next = ExprTypeView {
                        kind: child.kind,
                        optional: child.optional || current.optional,
                        nullable: child.nullable || current.nullable,
                    };
                    lemma_local_path(limits, st, binding, path, i + 1, next, location);
                },
                None => lemma_keeps_same(st, after),
            },
            KindView::Any => {
                let next = ExprTypeView { kind: KindView::Any, optional: true, nullable: true };
                lemma_local_path(limits, st, binding, path, i + 1, next, location);
            },
            _ => lemma_keeps_same(st, after),
        }
    } else {
        lemma_keeps_same(st, after);
    }
}

/// The names of the locals that a check knows.
pub open spec fn scope_of(locals: Seq<(Seq<char>, ExprTypeView)>) -> Set<Seq<char>>
    decreases locals.len(),
{
    if locals.len() == 0 {
        Set::empty()
    } else {
        scope_of(locals.drop_last()).insert(locals.last().0)
    }
}

proof fn lemma_scope(locals: Seq<(Seq<char>, ExprTypeView)>, name: Seq<char>)
    requires
        local_type(locals, name) is Some,
    ensures
        scope_of(locals).contains(name),
    decreases locals.len(),
{
    if locals.len() > 0 && locals.last().0 != name {
        lemma_scope(locals.drop_last(), name);
    }
}

proof fn lemma_reference_type(
    schemas: SchemaSource,
    limits: ExpressionLimits,
    st: CheckView,
    reference: ReferenceView,
    location: Seq<char>,
)
    ensures
        ({
            let (after, t) = reference_type(schemas, limits, st, reference, location);
            &&& keeps(st, after)
            &&& after.locals == st.locals
            &&& explained(after, t)
            &&& after.diagnostics.len() == 0 ==> provided_reference(
                found_by(after),
                scope_of(st.locals),
                reference,
            )
        }),
{
    let (after, t) = reference_type(schemas, limits, st, reference, location);
    match reference {
        ReferenceView::Context { field } => match text_map::lookup(st.resolved, field) {
            Some(_) => lemma_keeps_same(st, after),
            None => match schemas(field, st.diagnostics.len()) {
                Ok(found) => {
                    assert forall|other: FieldRefView| #[trigger]
                        text_map::has_key(st.resolved, other) implies text_map::has_key(
                        after.resolved,
                        other,
                    ) by {
                        lemma_known_push(st.resolved, (field, found), other);
                    }
                    lemma_known_push(st.resolved, (field, found), field);
                    reveal(keeps);
                },
                Err(_) => lemma_keeps_same(st, after),
            },
        },
        ReferenceView::Local { binding, path } => match local_type(st.locals, binding) {
            None => lemma_keeps_same(st, after),
            Some(root) => {
                lemma_scope(st.locals, binding);
                lemma_local_path(limits, st, binding, path, 0, root, location);
            },
        },
    }
}

proof fn lemma_literal(
    limits: ExpressionLimits,
    st: CheckView,
    value: ExprValueView,
    location: Seq<char>,
    depth: nat,
)
    ensures
        ({
            let (after, t) = literal_type(limits, st, value, location, depth);
            keeps(st, after) && after.locals == st.locals && explained(after, t)
        }),
    decreases value, 1int,
{
    let (after, t) = literal_type(limits, st, value, location, depth);
    match value {
        ExprValueView::String(s) => lemma_string(st, limits, s, location),
        ExprValueView::List(values) => {
            if values.len() == 0 {
                lemma_keeps_same(st, after);
            } else {
                lemma_literal_items(limits, st, values, location, depth, 0, None);
            }
        },
        ExprValueView::Object(values) => {
            lemma_literal_members(limits, st, values, location, depth, 0, Seq::empty());
        },
        _ => lemma_keeps_same(st, after),
    }
}

proof fn lemma_literal_items(
    limits: ExpressionLimits,
    st: CheckView,
    values: Seq<ExprValueView>,
    location: Seq<char>,
    depth: nat,
    i: nat,
    current: Option<ExprTypeView>,
)
    ensures
        ({
            let (after, t) = literal_items(limits, st, values, location, depth, i, current);
            &&& keeps(st, after)
            &&& after.locals == st.locals
            &&& i < values.len() || current is Some ==> explained(after, t)
        }),
    decreases values, values.len() - i,
{
    let (after, t) = literal_items(limits, st, values, location, depth, i, current);
    if i >= values.len() {
        lemma_keeps_same(st, after);
    } else {
        let child = item_location(location, i);
        let deeper = saturated(depth + 1);
        lemma_visit(st, limits, child, deeper);
        let (visited, allowed) = st.visit(limits, child, deeper);
        if !allowed {
            lemma_literal_items(limits, visited, values, location, depth, i + 1, current);
            lemma_keeps_then(st, visited, after);
            lemma_not_clean(visited, after);
        } else {
            lemma_literal(limits, visited, values[i as int], child, deeper);
            let (typed, found) = literal_type(limits, visited, values[i as int], child, deeper);
            lemma_keeps_then(st, visited, typed);
            match found {
                None => {
                    lemma_literal_items(limits, typed, values, location, depth, i + 1, current);
                    lemma_keeps_then(st, typed, after);
                    lemma_not_clean(typed, after);
                },
                Some(next) => match current {
                    None => {
                        lemma_literal_items(
                            limits,
                            typed,
                            values,
                            location,
                            depth,
                            i + 1,
                            Some(next),
                        );
                        lemma_keeps_then(st, typed, after);
                    },
                    Some(seen) => match common_type(seen, next) {
                        Some(common) => {
                            lemma_literal_items(
                                limits,
                                typed,
                                values,
                                location,
                                depth,
                                i + 1,
                                Some(common),
                            );
                            lemma_keeps_then(st, typed, after);
                        },
                        None => {
                            let told = typed.report(
                                ExpressionDiagnosticCode::TypeMismatch,
                                child,
                                "list literal mixes incompatible item types "@ + seen.describe()
                                    + " and "@ + next.describe(),
                            );
                            lemma_keeps_same(typed, told);
                            lemma_keeps_then(st, typed, told);
                            lemma_literal_items(
                                limits,
                                told,
                                values,
                                location,
                                depth,
                                i + 1,
                                Some(seen),
                            );
                            lemma_keeps_then(st, told, after);
                        },
                    },
                },
            }
        }
    }
}

/// A fault stays.
proof fn lemma_not_clean(before: CheckView, after: CheckView)
    requires
        keeps(before, after),
    ensures
        before.diagnostics.len() > 0 ==> after.diagnostics.len() > 0,
{
    reveal(keeps);
}

proof fn lemma_literal_members(
    limits: ExpressionLimits,
    st: CheckView,
    values: Seq<(Seq<char>, ExprValueView)>,
    location: Seq<char>,
    depth: nat,
    i: nat,
    done: Seq<(Seq<char>, ExprTypeView)>,
)
    ensures
        ({
            let (after, fields) = literal_members(limits, st, values, location, depth, i, done);
            keeps(st, after) && after.locals == st.locals
        }),
    decreases values, values.len() - i,
{
    let (after, fields) = literal_members(limits, st, values, location, depth, i, done);
    if i >= values.len() {
        lemma_keeps_same(st, after);
    } else {
        let (name, value) = values[i as int];
        let child = member_location(location, name);
        let deeper = saturated(depth + 1);
        let counted = st.string(limits, name, child);
        lemma_string(st, limits, name, child);
        lemma_visit(counted, limits, child, deeper);
        let (visited, allowed) = counted.visit(limits, child, deeper);
        lemma_keeps_then(st, counted, visited);
        if !allowed {
            lemma_literal_members(limits, visited, values, location, depth, i + 1, done);
            lemma_keeps_then(st, visited, after);
        } else {
            lemma_literal(limits, visited, value, child, deeper);
            let (typed, found) = literal_type(limits, visited, value, child, deeper);
            lemma_keeps_then(st, visited, typed);
            match found {
                None => {
                    lemma_literal_members(limits, typed, values, location, depth, i + 1, done);
                },
                Some(t) => {
                    lemma_literal_members(
                        limits,
                        typed,
                        values,
                        location,
                        depth,
                        i + 1,
                        done.push((name, t)),
                    );
                },
            }
            lemma_keeps_then(st, typed, after);
        }
    }
}

/// What a check has prepared so far.
spec fn found_by(st: CheckView) -> Prepared {
    Prepared { resolved: st.resolved, patterns: st.patterns }
}

/// What was provided stays so while the check goes on.
proof fn lemma_provided_later(
    before: CheckView,
    after: CheckView,
    scope: Set<Seq<char>>,
    e: ExprView,
)
    requires
        keeps(before, after),
        provided(found_by(before), scope, e),
    ensures
        provided(found_by(after), scope, e),
    decreases e,
{
    match e {
        ExprView::Literal { .. } => {},
        ExprView::Ref { .. } => {
            reveal(keeps);
        },
        ExprView::Exists { .. } => {
            reveal(keeps);
        },
        ExprView::All { expressions } => {
            assert forall|i: int| 0 <= i < expressions.len() implies provided(
                found_by(after),
                scope,
                #[trigger] expressions[i],
            ) by {
                lemma_provided_later(before, after, scope, expressions[i]);
            }
        },
        ExprView::Any { expressions } => {
            assert forall|i: int| 0 <= i < expressions.len() implies provided(
                found_by(after),
                scope,
                #[trigger] expressions[i],
            ) by {
                lemma_provided_later(before, after, scope, expressions[i]);
            }
        },
        ExprView::Not { expression } => {
            lemma_provided_later(before, after, scope, *expression);
        },
        ExprView::IsNull { expression } => {
            lemma_provided_later(before, after, scope, *expression);
        },
        ExprView::IsEmpty { expression } => {
            lemma_provided_later(before, after, scope, *expression);
        },
        ExprView::Compare { left, right, .. } => {
            lemma_provided_later(before, after, scope, *left);
            lemma_provided_later(before, after, scope, *right);
        },
        ExprView::Contains { value, needle } => {
            lemma_provided_later(before, after, scope, *value);
            lemma_provided_later(before, after, scope, *needle);
        },
        ExprView::StartsWith { value, prefix } => {
            lemma_provided_later(before, after, scope, *value);
            lemma_provided_later(before, after, scope, *prefix);
        },
        ExprView::EndsWith { value, suffix } => {
            lemma_provided_later(before, after, scope, *value);
            lemma_provided_later(before, after, scope, *suffix);
        },
        ExprView::Matches { value, .. } => {
            reveal(keeps);
            lemma_provided_later(before, after, scope, *value);
        },
        ExprView::In { needle, collection } => {
            lemma_provided_later(before, after, scope, *needle);
            lemma_provided_later(before, after, scope, *collection);
        },
        ExprView::Quantifier { collection, binding, predicate, .. } => {
            lemma_provided_later(before, after, scope, *collection);
            lemma_provided_later(before, after, scope.insert(binding), *predicate);
        },
    }
}

/// What holds of a check of an expression: it keeps what it knew, explains
/// where it finds no type, and provides what the expression needs where it
/// finds no fault.
spec fn thorough(
    st: CheckView,
    after: CheckView,
    t: Option<ExprTypeView>,
    e: ExprView,
) -> bool {
    &&& keeps(st, after)
    &&& after.locals == st.locals
    &&& explained(after, t)
    &&& after.diagnostics.len() == 0 ==> provided(found_by(after), scope_of(st.locals), e)
}

/// A step of a check that looks at no expression.
spec fn follows(before: CheckView, after: CheckView) -> bool {
    keeps(before, after) && after.locals == before.locals
}

/// A thorough look, after one step and before another.
proof fn lemma_thorough_between(
    st: CheckView,
    first: CheckView,
    second: CheckView,
    t: Option<ExprTypeView>,
    last: CheckView,
    e: ExprView,
)
    requires
        follows(st, first),
        thorough(first, second, t, e),
        follows(second, last),
    ensures
        follows(st, last),
        last.diagnostics.len() == 0 ==> provided(found_by(last), scope_of(st.locals), e),
        last.diagnostics.len() == 0 ==> second.diagnostics.len() == 0 && t is Some,
{
    lemma_keeps_then(st, first, second);
    lemma_keeps_then(st, second, last);
    if last.diagnostics.len() == 0 {
        lemma_clean_before(second, last);
        lemma_provided_later(second, last, scope_of(st.locals), e);
    }
}

proof fn lemma_expect(found: (CheckView, Option<ExprTypeView>), location: Seq<char>)
    ensures
        follows(found.0, expect_bool(found, location)),
        follows(found.0, expect_string(found, location)),
{
    lemma_keeps_same(found.0, expect_bool(found, location));
    lemma_keeps_same(found.0, expect_string(found, location));
}

proof fn lemma_same(before: CheckView)
    ensures
        follows(before, before),
{
    lemma_keeps_same(before, before);
}

/// Two operands in a row, and a step after them.
proof fn lemma_operands(
    st: CheckView,
    first: (CheckView, Option<ExprTypeView>),
    between: CheckView,
    second: (CheckView, Option<ExprTypeView>),
    last: CheckView,
    left: ExprView,
    right: ExprView,
)
    requires
        thorough(st, first.0, first.1, left),
        follows(first.0, between),
        thorough(between, second.0, second.1, right),
        follows(second.0, last),
    ensures
        follows(st, last),
        last.diagnostics.len() == 0 ==> provided(found_by(last), scope_of(st.locals), left)
            && provided(found_by(last), scope_of(st.locals), right),
{
    lemma_same(st);
    lemma_keeps_then(between, second.0, last);
    lemma_keeps_then(first.0, between, last);
    lemma_thorough_between(st, st, first.0, first.1, last, left);
    lemma_keeps_then(st, first.0, between);
    lemma_thorough_between(st, between, second.0, second.1, last, right);
}

proof fn lemma_inferred(
    schemas: SchemaSource,
    limits: ExpressionLimits,
    st: CheckView,
    e: ExprView,
    location: Seq<char>,
    depth: nat,
)
    ensures
        ({
            let (after, t) = inferred(schemas, limits, st, e, location, depth);
            thorough(st, after, t, e)
        }),
    decreases e, 2int,
{
    lemma_visit(st, limits, location, depth);
    let (visited, allowed) = st.visit(limits, location, depth);
    let (after, t) = inferred(schemas, limits, st, e, location, depth);
    if allowed {
        lemma_inferred_node(schemas, limits, visited, e, location, depth);
        lemma_keeps_then(st, visited, after);
    }
}

/// The look at an expression that may be looked into.
proof fn lemma_inferred_node(
    schemas: SchemaSource,
    limits: ExpressionLimits,
    st: CheckView,
    e: ExprView,
    location: Seq<char>,
    depth: nat,
)
    ensures
        ({
            let (after, t) = inferred_node(schemas, limits, st, e, location, depth);
            thorough(st, after, t, e)
        }),
    decreases e, 1int,
{
    let deeper = saturated(depth + 1);
    let (after, t) = inferred_node(schemas, limits, st, e, location, depth);
    match e {
        ExprView::Literal { value } => {
            lemma_literal(limits, st, value, location, depth);
        },
        ExprView::Ref { reference } => {
            lemma_reference_type(schemas, limits, st, reference, location);
        },
        ExprView::Exists { reference } => {
            lemma_reference_type(schemas, limits, st, reference, location + ".reference"@);
        },
        ExprView::All { expressions } => {
            lemma_inferred_all(schemas, limits, st, expressions, location, deeper, 0);
        },
        ExprView::Any { expressions } => {
            lemma_inferred_all(schemas, limits, st, expressions, location, deeper, 0);
        },
        ExprView::Not { expression } => {
            let child = location + ".expression"@;
            lemma_inferred(schemas, limits, st, *expression, child, deeper);
            let found = inferred(schemas, limits, st, *expression, child, deeper);
            lemma_expect(found, child);
            lemma_same(st);
            lemma_thorough_between(st, st, found.0, found.1, after, *expression);
        },
        ExprView::IsNull { expression } => {
            let child = location + ".expression"@;
            lemma_inferred(schemas, limits, st, *expression, child, deeper);
        },
        ExprView::IsEmpty { expression } => {
            let child = location + ".expression"@;
            lemma_inferred(schemas, limits, st, *expression, child, deeper);
            let found = inferred(schemas, limits, st, *expression, child, deeper);
            lemma_keeps_same(found.0, after);
            lemma_same(st);
            lemma_thorough_between(st, st, found.0, found.1, after, *expression);
        },
        ExprView::Compare { operator, left, right } => {
            lemma_inferred(schemas, limits, st, *left, location + ".left"@, deeper);
            let first = inferred(schemas, limits, st, *left, location + ".left"@, deeper);
            lemma_inferred(schemas, limits, first.0, *right, location + ".right"@, deeper);
            let second = inferred(schemas, limits, first.0, *right, location + ".right"@, deeper);
            lemma_keeps_same(second.0, after);
            lemma_same(first.0);
            lemma_operands(st, first, first.0, second, after, *left, *right);
        },
        ExprView::Contains { value, needle } => {
            lemma_texts(schemas, limits, st, e, *value, *needle, location, deeper);
        },
        ExprView::StartsWith { value, prefix } => {
            lemma_texts(schemas, limits, st, e, *value, *prefix, location, deeper);
        },
        ExprView::EndsWith { value, suffix } => {
            lemma_texts(schemas, limits, st, e, *value, *suffix, location, deeper);
        },
        ExprView::Matches { value, pattern } => {
            let child = location + ".value"@;
            lemma_inferred(schemas, limits, st, *value, child, deeper);
            let found = inferred(schemas, limits, st, *value, child, deeper);
            lemma_expect(found, child);
            let text = expect_string(found, child);
            lemma_pattern(text, limits, pattern, location + ".pattern"@);
            lemma_keeps_then(found.0, text, after);
            lemma_same(st);
            lemma_thorough_between(st, st, found.0, found.1, after, *value);
        },
        ExprView::In { needle, collection } => {
            lemma_inferred(schemas, limits, st, *needle, location + ".needle"@, deeper);
            let first = inferred(schemas, limits, st, *needle, location + ".needle"@, deeper);
            let child = location + ".collection"@;
            lemma_inferred(schemas, limits, first.0, *collection, child, deeper);
            let second = inferred(schemas, limits, first.0, *collection, child, deeper);
            lemma_keeps_same(second.0, after);
            lemma_same(first.0);
            lemma_operands(st, first, first.0, second, after, *needle, *collection);
        },
        ExprView::Quantifier { collection, binding, predicate, .. } => {
            let child = location + ".collection"@;
            lemma_inferred(schemas, limits, st, *collection, child, deeper);
            let found = inferred(schemas, limits, st, *collection, child, deeper);
            let (ranged, item) = quantifier_item(found.0, found.1, child);
            lemma_keeps_same(found.0, ranged);
            let inner = enter_quantifier(limits, ranged, binding, item, location + ".binding"@);
            lemma_keeps_same(ranged, inner);
            let body = location + ".predicate"@;
            lemma_inferred(schemas, limits, inner, *predicate, body, deeper);
            let answer = inferred(schemas, limits, inner, *predicate, body, deeper);
            lemma_expect(answer, body);
            let told = expect_bool(answer, body);
            lemma_keeps_same(told, after);
            lemma_keeps_then(answer.0, told, after);
            lemma_keeps_then(inner, answer.0, after);
            lemma_keeps_then(ranged, inner, after);
            lemma_keeps_then(found.0, ranged, after);
            lemma_same(st);
            lemma_thorough_between(st, st, found.0, found.1, after, *collection);
            if after.diagnostics.len() == 0 {
                lemma_clean_before(answer.0, after);
                lemma_clean_before(inner, after);
                assert(item is Some);
                assert(inner.locals == ranged.locals.push((binding, item->Some_0)));
                assert(inner.locals.drop_last() =~= st.locals);
                lemma_provided_later(
                    answer.0,
                    after,
                    scope_of(st.locals).insert(binding),
                    *predicate,
                );
            }
        },
    }
}

/// A predicate on two texts.
proof fn lemma_texts(
    schemas: SchemaSource,
    limits: ExpressionLimits,
    st: CheckView,
    e: ExprView,
    left: ExprView,
    right: ExprView,
    location: Seq<char>,
    deeper: nat,
)
    requires
        decreases_to!(e => left),
        decreases_to!(e => right),
    ensures
        ({
            let child = location + ".value"@;
            let other = location + ".operand"@;
            let first = expect_string(inferred(schemas, limits, st, left, child, deeper), child);
            let last = expect_string(inferred(schemas, limits, first, right, other, deeper), other);
            &&& follows(st, last)
            &&& last.diagnostics.len() == 0 ==> provided(found_by(last), scope_of(st.locals), left)
                && provided(found_by(last), scope_of(st.locals), right)
        }),
    decreases e, 0int,
{
    let child = location + ".value"@;
    let other = location + ".operand"@;
    lemma_inferred(schemas, limits, st, left, child, deeper);
    let first = inferred(schemas, limits, st, left, child, deeper);
    lemma_expect(first, child);
    let between = expect_string(first, child);
    lemma_inferred(schemas, limits, between, right, other, deeper);
    let second = inferred(schemas, limits, between, right, other, deeper);
    lemma_expect(second, other);
    lemma_operands(st, first, between, second, expect_string(second, other), left, right);
}

proof fn lemma_inferred_all(
    schemas: SchemaSource,
    limits: ExpressionLimits,
    st: CheckView,
    items: Seq<ExprView>,
    location: Seq<char>,
    deeper: nat,
    i: nat,
)
    ensures
        ({
            let after = inferred_all(schemas, limits, st, items, location, deeper, i);
            &&& follows(st, after)
            &&& after.diagnostics.len() == 0 ==> forall|k: int|
                i <= k < items.len() ==> provided(
                    found_by(after),
                    scope_of(st.locals),
                    #[trigger] items[k],
                )
        }),
    decreases items, items.len() - i,
{
    let after = inferred_all(schemas, limits, st, items, location, deeper, i);
    if i >= items.len() {
        lemma_same(st);
    } else {
        let child = location + ".expressions["@ + text::decimal(i) + "]"@;
        lemma_inferred(schemas, limits, st, items[i as int], child, deeper);
        let found = inferred(schemas, limits, st, items[i as int], child, deeper);
        lemma_expect(found, child);
        let next = expect_bool(found, child);
        lemma_inferred_all(schemas, limits, next, items, location, deeper, i + 1);
        lemma_keeps_then(found.0, next, after);
        lemma_same(st);
        lemma_thorough_between(st, st, found.0, found.1, after, items[i as int]);
    }
}

// ---------------------------------------------------------------------------
// Laws
// ---------------------------------------------------------------------------
/// A check that passes has prepared all that its expression needs: a type for
/// each context reference, each pattern, and each local binding in its scope.
pub proof fn law_checked_is_prepared(
    schemas: SchemaSource,
    limits: ExpressionLimits,
    e: ExprView,
)
    ensures
        checked_value(schemas, limits, e) matches Ok(program) ==> provided(
            prepared(program),
            Set::empty(),
            e,
        ),
        checked_rule(schemas, limits, e) matches Ok(program) ==> provided(
            prepared(program),
            Set::empty(),
            e,
        ),
{
    lemma_inferred(schemas, limits, unchecked(), e, "$"@, 1);
    let (st, t) = inferred(schemas, limits, unchecked(), e, "$"@, 1);
    assert(scope_of(unchecked().locals) == Set::<Seq<char>>::empty());
}

/// A checked program never fails for want of something that the check should
/// have prepared, unless it is answered so of a reference.
pub proof fn law_checked_runs_prepared(
    schemas: SchemaSource,
    limits: ExpressionLimits,
    e: ExprView,
    answers: ValueSource,
)
    requires
        well_behaved(answers),
    ensures
        checked_value(schemas, limits, e) matches Ok(program) ==> !fails_unprepared(
            run(program, answers).1,
        ),
        checked_rule(schemas, limits, e) matches Ok(program) ==> !fails_unprepared(
            run(program, answers).1,
        ),
{
    law_checked_is_prepared(schemas, limits, e);
    let scope = Set::<Seq<char>>::empty();
    let locals = Seq::<(Seq<char>, ExprValueView)>::empty();
    assert(bound(scope, locals));
    match checked_value(schemas, limits, e) {
        Ok(program) => lemma_evaluated(program, answers, scope, locals, unused(), e),
        Err(_) => {},
    }
    match checked_rule(schemas, limits, e) {
        Ok(program) => lemma_evaluated(program, answers, scope, locals, unused(), e),
        Err(_) => {},
    }
}

/// An outcome that is no value, or a Boolean.
pub open spec fn boolean_if_value(outcome: OutcomeView) -> bool {
    outcome matches OutcomeView::Value(value) ==> value is Bool
}

spec fn issue_slot(slot: Option<OutcomeView>) -> bool {
    slot matches Some(outcome) ==> !(outcome is Value)
}

proof fn lemma_logical_boolean(
    program: ProgramView,
    answers: ValueSource,
    locals: Seq<(Seq<char>, ExprValueView)>,
    st: EvalView,
    items: Seq<ExprView>,
    any: bool,
    i: nat,
    deferred: Option<OutcomeView>,
)
    requires
        issue_slot(deferred),
    ensures
        boolean_if_value(logical(program, answers, locals, st, items, any, i, deferred).1),
    decreases items.len() - i,
{
    if i < items.len() {
        let (after, outcome) = as_bool(evaluated(program, answers, locals, st, items[i as int]));
        let slot = if outcome is Value {
            deferred
        } else {
            graver(deferred, outcome)
        };
        lemma_logical_boolean(program, answers, locals, after, items, any, i + 1, slot);
    }
}

proof fn lemma_quantified_boolean(
    program: ProgramView,
    answers: ValueSource,
    locals: Seq<(Seq<char>, ExprValueView)>,
    st: EvalView,
    quantifier: CollectionQuantifier,
    values: Seq<ExprValueView>,
    binding: Seq<char>,
    predicate: ExprView,
    i: nat,
    deferred: Option<OutcomeView>,
)
    requires
        issue_slot(deferred),
    ensures
        boolean_if_value(
            quantified(
                program,
                answers,
                locals,
                st,
                quantifier,
                values,
                binding,
                predicate,
                i,
                deferred,
            ).1,
        ),
    decreases values.len() - i,
{
    if i < values.len() {
        let inner = locals.push((binding, values[i as int]));
        let visited = st.visit(program.limits).0;
        let (after, outcome) = as_bool(evaluated(program, answers, inner, visited, predicate));
        let slot = if outcome is Value {
            deferred
        } else {
            graver(deferred, outcome)
        };
        lemma_quantified_boolean(
            program,
            answers,
            locals,
            after,
            quantifier,
            values,
            binding,
            predicate,
            i + 1,
            slot,
        );
    }
}

proof fn lemma_among_boolean(
    limits: ExpressionLimits,
    st: EvalView,
    needle: ExprValueView,
    values: Seq<ExprValueView>,
    i: nat,
)
    ensures
        boolean_if_value(among(limits, st, needle, values, i).1),
    decreases values.len() - i,
{
    if i < values.len() {
        let visited = st.visit(limits).0;
        let after = value_equal(limits, visited, needle, values[i as int], 1).0;
        lemma_among_boolean(limits, after, needle, values, i + 1);
    }
}

/// An operator answers with a Boolean or not at all: where its operands are
/// missing, unknown or faulty, so is its outcome, and never null or a value of
/// another type.
pub proof fn law_operators_answer_booleans(
    program: ProgramView,
    answers: ValueSource,
    locals: Seq<(Seq<char>, ExprValueView)>,
    st: EvalView,
    e: ExprView,
)
    requires
        !(e is Literal),
        !(e is Ref),
    ensures
        boolean_if_value(evaluated(program, answers, locals, st, e).1),
{
    let st = st.operation(program.limits).0;
    match e {
        ExprView::All { expressions } => {
            lemma_logical_boolean(program, answers, locals, st, expressions, false, 0, None);
        },
        ExprView::Any { expressions } => {
            lemma_logical_boolean(program, answers, locals, st, expressions, true, 0, None);
        },
        ExprView::In { needle, collection } => {
            let first = evaluated(program, answers, locals, st, *needle);
            let second = evaluated(program, answers, locals, first.0, *collection);
            match (first.1, second.1) {
                (OutcomeView::Value(n), OutcomeView::Value(ExprValueView::List(values))) => {
                    lemma_among_boolean(program.limits, second.0, n, values, 0);
                },
                _ => {},
            }
        },
        ExprView::Quantifier { quantifier, collection, binding, predicate } => {
            let found = evaluated(program, answers, locals, st, *collection);
            match found.1 {
                OutcomeView::Value(ExprValueView::List(values)) => {
                    lemma_quantified_boolean(
                        program,
                        answers,
                        locals,
                        found.0,
                        quantifier,
                        values,
                        binding,
                        *predicate,
                        0,
                        None,
                    );
                },
                _ => {},
            }
        },
        _ => {},
    }
}

/// A checked rule comes to true, false, null, missing, unknown or an error: a
/// value of another type never stands where the rule should answer.
pub proof fn law_checked_rule_answers(
    schemas: SchemaSource,
    limits: ExpressionLimits,
    e: ExprView,
    answers: ValueSource,
)
    ensures
        checked_rule(schemas, limits, e) matches Ok(program) ==> {
            let outcome = run(program, answers).1;
            &&& outcome matches OutcomeView::Value(value) ==> value is Bool || value is Null
            &&& rule_outcome(outcome) is Error ==> outcome is Error
        },
{
    match checked_rule(schemas, limits, e) {
        Ok(program) => {
            let locals = Seq::<(Seq<char>, ExprValueView)>::empty();
            let (visited, allowed) = unchecked().visit(limits, "$"@, 1);
            let (st, t) = inferred(schemas, limits, unchecked(), e, "$"@, 1);
            lemma_visit(unchecked(), limits, "$"@, 1);
            match e {
                ExprView::Literal { value } => {
                    lemma_literal(limits, visited, value, "$"@, 1);
                },
                ExprView::Ref { reference } => match reference {
                    ReferenceView::Context { field } => {
                        text_map::lemma_found(visited.resolved, field);
                        text_map::lemma_found(st.resolved, field);
                        assert(text_map::lookup(program.resolved, field) == t);
                    },
                    ReferenceView::Local { .. } => {
                        lemma_reference_type(schemas, limits, visited, reference, "$"@);
                    },
                },
                _ => law_operators_answer_booleans(program, answers, locals, unused(), e),
            }
        },
        Err(_) => {},
    }
}

} // verus!
