//! What the operators of an expression mean, stated of the values of their operands.
use vstd::prelude::*;

use crate::context::FieldRefView;
use crate::evaluate::{
    among, compared, evaluated, evaluated_node, items_equal, logical, members_equal,
    quantified, value_equal, EvalView, ValueSource,
};
use crate::expr::{
    CollectionQuantifier, ComparisonOperator, ExprValueView, ExprView, ExpressionLimits,
    ReferenceView,
};
use crate::expression::{regex_matches, ProgramView};
use crate::json::{finite_bits, float_rank};
use crate::numeric::integer_rank;
use crate::outcome::{EvalErrorView, OutcomeView};
use crate::text;
use crate::text_map;
use crate::text_map::{lemma_before_excludes, lemma_before_total};

verus! {

/// An outcome that is the given Boolean.
pub open spec fn says(outcome: OutcomeView, b: bool) -> bool {
    outcome matches OutcomeView::Value(value) && value matches ExprValueView::Bool(x) && x == b
}

/// An outcome that is a Boolean.
pub open spec fn answers_boolean(outcome: OutcomeView) -> bool {
    says(outcome, true) || says(outcome, false)
}

/// The outcome of a comparison of two expressions.
pub open spec fn comparison(
    program: ProgramView,
    answers: ValueSource,
    locals: Seq<(Seq<char>, ExprValueView)>,
    st: EvalView,
    operator: ComparisonOperator,
    left: ExprView,
    right: ExprView,
) -> OutcomeView {
    evaluated(
        program,
        answers,
        locals,
        st,
        ExprView::Compare { operator, left: Box::new(left), right: Box::new(right) },
    ).1
}

/// Of the same operands, "not equal" answers the contrary of "equal", "at most" the
/// contrary of "greater", and "at least" the contrary of "less"; where one of a pair
/// has no answer, the other has none for the same reason.
pub proof fn law_comparisons_oppose(
    program: ProgramView,
    answers: ValueSource,
    locals: Seq<(Seq<char>, ExprValueView)>,
    st: EvalView,
    left: ExprView,
    right: ExprView,
)
    ensures
        ({
            let of = |operator: ComparisonOperator|
                comparison(program, answers, locals, st, operator, left, right);
            &&& opposed(of(ComparisonOperator::Equal), of(ComparisonOperator::NotEqual))
            &&& opposed(of(ComparisonOperator::GreaterThan), of(ComparisonOperator::LessThanOrEqual))
            &&& opposed(of(ComparisonOperator::LessThan), of(ComparisonOperator::GreaterThanOrEqual))
        }),
{
}

/// Two outcomes of which one denies what the other says; without an answer they are one.
pub open spec fn opposed(a: OutcomeView, b: OutcomeView) -> bool {
    if answers_boolean(a) || answers_boolean(b) {
        &&& says(a, true) <==> says(b, false)
        &&& says(a, false) <==> says(b, true)
    } else {
        a == b
    }
}

/// Of operands that are ordered, exactly one is less, equal or greater.
pub proof fn law_comparisons_decide(
    program: ProgramView,
    answers: ValueSource,
    locals: Seq<(Seq<char>, ExprValueView)>,
    st: EvalView,
    left: ExprView,
    right: ExprView,
)
    ensures
        ({
            let of = |operator: ComparisonOperator|
                comparison(program, answers, locals, st, operator, left, right);
            let less = of(ComparisonOperator::LessThan);
            let equal = of(ComparisonOperator::Equal);
            let greater = of(ComparisonOperator::GreaterThan);
            answers_boolean(less) && answers_boolean(equal) ==> {
                &&& answers_boolean(greater)
                &&& says(less, true) <==> says(equal, false) && says(greater, false)
                &&& says(equal, true) <==> says(less, false) && says(greater, false)
                &&& says(greater, true) <==> says(less, false) && says(equal, false)
            }
        }),
{
}

/// Whether a comparison holds of two integers.
pub open spec fn holds(operator: ComparisonOperator, a: int, b: int) -> bool {
    match operator {
        ComparisonOperator::Equal => a == b,
        ComparisonOperator::NotEqual => a != b,
        ComparisonOperator::LessThan => a < b,
        ComparisonOperator::LessThanOrEqual => a <= b,
        ComparisonOperator::GreaterThan => a > b,
        ComparisonOperator::GreaterThanOrEqual => a >= b,
    }
}

/// Whether a comparison holds of two texts, by their code points.
pub open spec fn holds_of_texts(
    operator: ComparisonOperator,
    a: Seq<char>,
    b: Seq<char>,
) -> bool {
    match operator {
        ComparisonOperator::Equal => a == b,
        ComparisonOperator::NotEqual => a != b,
        ComparisonOperator::LessThan => text::before(a, b),
        ComparisonOperator::LessThanOrEqual => !text::before(b, a),
        ComparisonOperator::GreaterThan => text::before(b, a),
        ComparisonOperator::GreaterThanOrEqual => !text::before(a, b),
    }
}

/// The integer of a signed or unsigned value.
pub open spec fn whole(value: ExprValueView) -> Option<int> {
    match value {
        ExprValueView::Int(n) => Some(n as int),
        ExprValueView::UInt(n) => Some(n as int),
        _ => None,
    }
}

/// A comparison of operands that have values is that of the values: integers compare as
/// integers, whatever their signs and widths; texts by their code points, within the limits
/// on strings; Booleans are equal or not; null equals null alone.
pub proof fn law_comparison_is_of_the_values(
    program: ProgramView,
    answers: ValueSource,
    locals: Seq<(Seq<char>, ExprValueView)>,
    st: EvalView,
    operator: ComparisonOperator,
    left: ExprView,
    right: ExprView,
    l: ExprValueView,
    r: ExprValueView,
)
    requires
        program.limits.max_depth >= 1,
        evaluated(program, answers, locals, st, left).1 == OutcomeView::Value(l),
        evaluated(
            program,
            answers,
            locals,
            evaluated(program, answers, locals, st, left).0,
            right,
        ).1 == OutcomeView::Value(r),
    ensures
        ({
            let before = evaluated(
                program,
                answers,
                locals,
                evaluated(program, answers, locals, st, left).0,
                right,
            ).0;
            let (after, outcome) = evaluated_node(
                program,
                answers,
                locals,
                st,
                ExprView::Compare { operator, left: Box::new(left), right: Box::new(right) },
            );
            let equality = operator == ComparisonOperator::Equal || operator
                == ComparisonOperator::NotEqual;
            &&& whole(l) is Some && whole(r) is Some ==> says(
                outcome,
                holds(operator, whole(l)->0, whole(r)->0),
            )
            &&& l matches ExprValueView::String(a) ==> r matches ExprValueView::String(b)
                ==> before.bytes + text::byte_len(a) + text::byte_len(b)
                <= program.limits.max_string_bytes ==> says(
                outcome,
                holds_of_texts(operator, a, b),
            )
            &&& l matches ExprValueView::String(a) ==> r matches ExprValueView::String(b)
                ==> answers_boolean(outcome) ==> says(outcome, holds_of_texts(operator, a, b))
            &&& l matches ExprValueView::Bool(a) ==> r matches ExprValueView::Bool(b) ==> equality
                ==> says(outcome, (a == b) == (operator == ComparisonOperator::Equal))
            &&& equality && (l is Null || r is Null) ==> says(
                outcome,
                (l is Null && r is Null) == (operator == ComparisonOperator::Equal),
            )
            &&& !equality && !(whole(l) is Some || l is Float || l is String) ==> outcome is Error
        }),
{
    if l is String && r is String {
        let a = l->String_0;
        let b = r->String_0;
        lemma_before_total(a, b);
        if text::before(a, b) {
            lemma_before_excludes(a, b);
        }
        if text::before(b, a) {
            lemma_before_excludes(b, a);
        }
        if a == b && text::before(a, b) {
            lemma_before_excludes(a, b);
        }
    }
}

/// A comparison whose left operand has no value is what that operand is; one whose left
/// operand has a value and whose right operand has none is what the right one is.
pub proof fn law_comparison_keeps_issues(
    program: ProgramView,
    answers: ValueSource,
    locals: Seq<(Seq<char>, ExprValueView)>,
    st: EvalView,
    operator: ComparisonOperator,
    left: ExprView,
    right: ExprView,
)
    ensures
        ({
            let (middle, first) = evaluated(program, answers, locals, st, left);
            let second = evaluated(program, answers, locals, middle, right).1;
            let outcome = evaluated_node(
                program,
                answers,
                locals,
                st,
                ExprView::Compare { operator, left: Box::new(left), right: Box::new(right) },
            ).1;
            &&& !(first is Value) ==> outcome == first
            &&& first is Value && !(second is Value) ==> outcome == second
        }),
{
}

/// An expression costs one operation, and is then what its node is.
pub proof fn law_expression_costs_one_operation(
    program: ProgramView,
    answers: ValueSource,
    locals: Seq<(Seq<char>, ExprValueView)>,
    st: EvalView,
    e: ExprView,
)
    ensures
        st.operations < program.limits.max_operations ==> evaluated(
            program,
            answers,
            locals,
            st,
            e,
        ) == evaluated_node(
            program,
            answers,
            locals,
            EvalView { operations: st.operations + 1, ..st },
            e,
        ),
        st.operations >= program.limits.max_operations && program.limits.max_operations
            < usize::MAX ==> evaluated(program, answers, locals, st, e).1 is Error,
{
}

/// A literal is its own value.
pub proof fn law_literal_is_itself(
    program: ProgramView,
    answers: ValueSource,
    locals: Seq<(Seq<char>, ExprValueView)>,
    st: EvalView,
    value: ExprValueView,
)
    ensures
        ({
            let outcome = evaluated_node(
                program,
                answers,
                locals,
                st,
                ExprView::Literal { value },
            ).1;
            &&& outcome == OutcomeView::Value(value) || outcome is Error
            &&& !(value is String) && !(value is Float) ==> outcome == OutcomeView::Value(value)
            &&& value matches ExprValueView::String(s) ==> st.bytes + text::byte_len(s)
                <= program.limits.max_string_bytes ==> outcome == OutcomeView::Value(value)
        }),
{
}

/// Negation turns an answer into its contrary, and keeps every state that is none.
pub proof fn law_negation(
    program: ProgramView,
    answers: ValueSource,
    locals: Seq<(Seq<char>, ExprValueView)>,
    st: EvalView,
    e: ExprView,
)
    ensures
        ({
            let inner = evaluated(program, answers, locals, st, e).1;
            let outcome = evaluated_node(
                program,
                answers,
                locals,
                st,
                ExprView::Not { expression: Box::new(e) },
            ).1;
            &&& says(outcome, true) <==> says(inner, false)
            &&& says(outcome, false) <==> says(inner, true)
            &&& !(inner is Value) ==> outcome == inner
            &&& inner is Value && !answers_boolean(inner) ==> outcome is Error
        }),
{
}

/// A reference exists if it has a value, be it null, and does not if it is missing; no other
/// state is taken for either.
pub proof fn law_existence(
    program: ProgramView,
    answers: ValueSource,
    locals: Seq<(Seq<char>, ExprValueView)>,
    st: EvalView,
    reference: ReferenceView,
)
    ensures
        ({
            let read = evaluated_node(program, answers, locals, st, ExprView::Ref { reference });
            let exists_ = evaluated_node(
                program,
                answers,
                locals,
                st,
                ExprView::Exists { reference },
            );
            &&& exists_.0 == read.0
            &&& says(exists_.1, true) <==> read.1 is Value
            &&& says(exists_.1, false) <==> read.1 is Missing
            &&& read.1 is Unknown || read.1 is Error ==> exists_.1 == read.1
        }),
{
}

/// What is null, and what is empty: nothing but null is null; a text, a list or an object is
/// empty if it holds nothing, and nothing else has an answer.
pub proof fn law_null_and_empty(
    program: ProgramView,
    answers: ValueSource,
    locals: Seq<(Seq<char>, ExprValueView)>,
    st: EvalView,
    e: ExprView,
)
    ensures
        ({
            let inner = evaluated(program, answers, locals, st, e).1;
            let null = evaluated_node(
                program,
                answers,
                locals,
                st,
                ExprView::IsNull { expression: Box::new(e) },
            ).1;
            let empty = evaluated_node(
                program,
                answers,
                locals,
                st,
                ExprView::IsEmpty { expression: Box::new(e) },
            ).1;
            &&& says(null, true) <==> inner == OutcomeView::Value(ExprValueView::Null)
            &&& says(null, false) <==> inner is Value && inner != OutcomeView::Value(
                ExprValueView::Null,
            )
            &&& !(inner is Value) ==> null == inner && empty == inner
            &&& inner matches OutcomeView::Value(value) ==> match value {
                ExprValueView::String(s) => says(empty, s.len() == 0),
                ExprValueView::List(items) => says(empty, items.len() == 0),
                ExprValueView::Object(members) => says(empty, members.len() == 0),
                _ => empty is Error,
            }
        }),
{
}

/// What two expressions come to, one after the other: the state after both, and their
/// values, if both have one.
pub open spec fn both(
    program: ProgramView,
    answers: ValueSource,
    locals: Seq<(Seq<char>, ExprValueView)>,
    st: EvalView,
    first: ExprView,
    second: ExprView,
    after: EvalView,
    a: ExprValueView,
    b: ExprValueView,
) -> bool {
    let (middle, one) = evaluated(program, answers, locals, st, first);
    &&& one == OutcomeView::Value(a)
    &&& evaluated(program, answers, locals, middle, second) == (after, OutcomeView::Value(b))
}

/// Some text, the other and some text.
#[verifier::opaque]
pub open spec fn holds_inside(v: Seq<char>, o: Seq<char>) -> bool {
    exists|head: Seq<char>, tail: Seq<char>| #[trigger] (head + o + tail) == v
}

/// The other and some text.
#[verifier::opaque]
pub open spec fn begins(v: Seq<char>, o: Seq<char>) -> bool {
    exists|tail: Seq<char>| #[trigger] (o + tail) == v
}

/// Some text and the other.
#[verifier::opaque]
pub open spec fn finishes(v: Seq<char>, o: Seq<char>) -> bool {
    exists|head: Seq<char>| #[trigger] (head + o) == v
}

proof fn lemma_text_splits(v: Seq<char>, o: Seq<char>)
    ensures
        text::contains(v, o) <==> holds_inside(v, o),
        text::has_prefix(v, o) <==> begins(v, o),
        text::has_suffix(v, o) <==> finishes(v, o),
{
    reveal(holds_inside);
    reveal(begins);
    reveal(finishes);
    if text::contains(v, o) {
        let i = choose|i: int| text::occurs(v, o, i);
        assert(v.take(i) + o + v.skip(i + o.len()) =~= v);
    }
    if text::has_prefix(v, o) {
        assert(o + v.skip(o.len() as int) =~= v);
    }
    if text::has_suffix(v, o) {
        assert(v.take(v.len() - o.len()) + o =~= v);
    }
    assert forall|head: Seq<char>, tail: Seq<char>| #[trigger] (head + o + tail) == v implies
        text::contains(v, o) by {
        assert(v.subrange(head.len() as int, (head.len() + o.len()) as int) =~= o);
        assert(text::occurs(v, o, head.len() as int));
    }
    assert forall|tail: Seq<char>| #[trigger] (o + tail) == v implies text::has_prefix(v, o) by {
        assert(v.subrange(0, o.len() as int) =~= o);
    }
    assert forall|head: Seq<char>| #[trigger] (head + o) == v implies text::has_suffix(v, o) by {
        assert(v.subrange(v.len() - o.len(), v.len() as int) =~= o);
    }
}

/// A text contains another if it is some text, the other and some text. Within the limits on
/// strings there is an answer.
pub proof fn law_containment(
    program: ProgramView,
    answers: ValueSource,
    locals: Seq<(Seq<char>, ExprValueView)>,
    st: EvalView,
    value: ExprView,
    operand: ExprView,
    after: EvalView,
    v: Seq<char>,
    o: Seq<char>,
)
    requires
        both(
            program,
            answers,
            locals,
            st,
            value,
            operand,
            after,
            ExprValueView::String(v),
            ExprValueView::String(o),
        ),
    ensures
        ({
            let outcome = evaluated_node(
                program,
                answers,
                locals,
                st,
                ExprView::Contains { value: Box::new(value), needle: Box::new(operand) },
            ).1;
            &&& answers_boolean(outcome) || outcome is Error
            &&& answers_boolean(outcome) ==> (says(outcome, true) <==> holds_inside(v, o))
            &&& after.bytes + text::byte_len(v) + text::byte_len(o)
                <= program.limits.max_string_bytes ==> answers_boolean(outcome)
        }),
{
    lemma_text_splits(v, o);
}

/// A text starts with another if it is the other and some text. Within the limits on strings
/// there is an answer.
pub proof fn law_start(
    program: ProgramView,
    answers: ValueSource,
    locals: Seq<(Seq<char>, ExprValueView)>,
    st: EvalView,
    value: ExprView,
    operand: ExprView,
    after: EvalView,
    v: Seq<char>,
    o: Seq<char>,
)
    requires
        both(
            program,
            answers,
            locals,
            st,
            value,
            operand,
            after,
            ExprValueView::String(v),
            ExprValueView::String(o),
        ),
    ensures
        ({
            let outcome = evaluated_node(
                program,
                answers,
                locals,
                st,
                ExprView::StartsWith { value: Box::new(value), prefix: Box::new(operand) },
            ).1;
            &&& answers_boolean(outcome) || outcome is Error
            &&& answers_boolean(outcome) ==> (says(outcome, true) <==> begins(v, o))
            &&& after.bytes + text::byte_len(v) + text::byte_len(o)
                <= program.limits.max_string_bytes ==> answers_boolean(outcome)
        }),
{
    lemma_text_splits(v, o);
}

/// A text ends with another if it is some text and the other. Within the limits on strings
/// there is an answer.
pub proof fn law_end(
    program: ProgramView,
    answers: ValueSource,
    locals: Seq<(Seq<char>, ExprValueView)>,
    st: EvalView,
    value: ExprView,
    operand: ExprView,
    after: EvalView,
    v: Seq<char>,
    o: Seq<char>,
)
    requires
        both(
            program,
            answers,
            locals,
            st,
            value,
            operand,
            after,
            ExprValueView::String(v),
            ExprValueView::String(o),
        ),
    ensures
        ({
            let outcome = evaluated_node(
                program,
                answers,
                locals,
                st,
                ExprView::EndsWith { value: Box::new(value), suffix: Box::new(operand) },
            ).1;
            &&& answers_boolean(outcome) || outcome is Error
            &&& answers_boolean(outcome) ==> (says(outcome, true) <==> finishes(v, o))
            &&& after.bytes + text::byte_len(v) + text::byte_len(o)
                <= program.limits.max_string_bytes ==> answers_boolean(outcome)
        }),
{
    lemma_text_splits(v, o);
}

// ---------------------------------------------------------------------------
// Equality
// ---------------------------------------------------------------------------
/// Whether two values are equal does not depend on what has been used, on the limits or on
/// the depth: where there are two answers, they are one.
pub proof fn law_equality_is_of_the_values(
    left: ExprValueView,
    right: ExprValueView,
    limits: ExpressionLimits,
    st: EvalView,
    depth: nat,
    other_limits: ExpressionLimits,
    other: EvalView,
    other_depth: nat,
)
    ensures
        value_equal(limits, st, left, right, depth).1 is Ok && value_equal(
            other_limits,
            other,
            left,
            right,
            other_depth,
        ).1 is Ok ==> value_equal(limits, st, left, right, depth).1 == value_equal(
            other_limits,
            other,
            left,
            right,
            other_depth,
        ).1,
    decreases left, 1int,
{
    match (left, right) {
        (ExprValueView::List(a), ExprValueView::List(b)) => if a.len() == b.len() {
            lemma_items_of_the_values(a, b, 0, limits, st, depth, other_limits, other, other_depth);
        },
        (ExprValueView::Object(a), ExprValueView::Object(b)) => if a.len() == b.len() {
            lemma_members_of_the_values(
                a,
                b,
                0,
                limits,
                st,
                depth,
                other_limits,
                other,
                other_depth,
            );
        },
        _ => {},
    }
}

proof fn lemma_items_of_the_values(
    a: Seq<ExprValueView>,
    b: Seq<ExprValueView>,
    i: nat,
    limits: ExpressionLimits,
    st: EvalView,
    depth: nat,
    other_limits: ExpressionLimits,
    other: EvalView,
    other_depth: nat,
)
    ensures
        items_equal(limits, st, a, b, depth, i).1 is Ok && items_equal(
            other_limits,
            other,
            a,
            b,
            other_depth,
            i,
        ).1 is Ok ==> items_equal(limits, st, a, b, depth, i).1 == items_equal(
            other_limits,
            other,
            a,
            b,
            other_depth,
            i,
        ).1,
    decreases a, a.len() - i,
{
    if i < a.len() {
        let d = crate::expr::saturated(depth + 1);
        let d2 = crate::expr::saturated(other_depth + 1);
        let s = st.visit(limits).0;
        let s2 = other.visit(other_limits).0;
        law_equality_is_of_the_values(
            a[i as int],
            b[i as int],
            limits,
            s,
            d,
            other_limits,
            s2,
            d2,
        );
        lemma_items_of_the_values(
            a,
            b,
            i + 1,
            limits,
            value_equal(limits, s, a[i as int], b[i as int], d).0,
            depth,
            other_limits,
            value_equal(other_limits, s2, a[i as int], b[i as int], d2).0,
            other_depth,
        );
    }
}

proof fn lemma_members_of_the_values(
    a: Seq<(Seq<char>, ExprValueView)>,
    b: Seq<(Seq<char>, ExprValueView)>,
    i: nat,
    limits: ExpressionLimits,
    st: EvalView,
    depth: nat,
    other_limits: ExpressionLimits,
    other: EvalView,
    other_depth: nat,
)
    ensures
        members_equal(limits, st, a, b, depth, i).1 is Ok && members_equal(
            other_limits,
            other,
            a,
            b,
            other_depth,
            i,
        ).1 is Ok ==> members_equal(limits, st, a, b, depth, i).1 == members_equal(
            other_limits,
            other,
            a,
            b,
            other_depth,
            i,
        ).1,
    decreases a, a.len() - i,
{
    if i < a.len() && text_map::lookup(b, a[i as int].0) is Some {
        let found = text_map::lookup(b, a[i as int].0)->0;
        let d = crate::expr::saturated(depth + 1);
        let d2 = crate::expr::saturated(other_depth + 1);
        let s = st.visit(limits).0.string(limits, a[i as int].0).0;
        let s2 = other.visit(other_limits).0.string(other_limits, a[i as int].0).0;
        assert(decreases_to!(a => a[i as int]));
        assert(decreases_to!(a[i as int] => a[i as int].1));
        law_equality_is_of_the_values(
            a[i as int].1,
            found,
            limits,
            s,
            d,
            other_limits,
            s2,
            d2,
        );
        lemma_members_of_the_values(
            a,
            b,
            i + 1,
            limits,
            value_equal(limits, s, a[i as int].1, found, d).0,
            depth,
            other_limits,
            value_equal(other_limits, s2, a[i as int].1, found, d2).0,
            other_depth,
        );
    }
}

/// That two values are found to be equal, in some state within some limits.
pub open spec fn found_equal(left: ExprValueView, right: ExprValueView, answer: bool) -> bool {
    exists|limits: ExpressionLimits, st: EvalView, depth: nat| #[trigger]
        value_equal(limits, st, left, right, depth).1 == Ok::<bool, EvalErrorView>(answer)
}

/// Equality is reflexive.
pub proof fn law_equality_is_reflexive(
    value: ExprValueView,
    limits: ExpressionLimits,
    st: EvalView,
    depth: nat,
)
    requires
        keyed_once(value),
    ensures
        value_equal(limits, st, value, value, depth).1 != Ok::<bool, EvalErrorView>(false),
    decreases value, 1int,
{
    match value {
        ExprValueView::List(a) => {
            lemma_items_reflexive(a, 0, limits, st, depth);
        },
        ExprValueView::Object(a) => {
            lemma_members_reflexive(a, 0, limits, st, depth);
        },
        _ => {},
    }
}

/// A value whose objects name each member once.
pub open spec fn keyed_once(value: ExprValueView) -> bool
    decreases value,
{
    match value {
        ExprValueView::List(items) => forall|i: int|
            0 <= i < items.len() ==> keyed_once(#[trigger] items[i]),
        ExprValueView::Object(members) => (forall|i: int|
            0 <= i < members.len() ==> keyed_once((#[trigger] members[i]).1)) && (forall|
            i: int,
            j: int,
        |
            0 <= i < j < members.len() ==> (#[trigger] members[i]).0 != (#[trigger] members[j]).0),
        _ => true,
    }
}

proof fn lemma_items_reflexive(
    a: Seq<ExprValueView>,
    i: nat,
    limits: ExpressionLimits,
    st: EvalView,
    depth: nat,
)
    requires
        forall|k: int| 0 <= k < a.len() ==> keyed_once(#[trigger] a[k]),
    ensures
        items_equal(limits, st, a, a, depth, i).1 != Ok::<bool, EvalErrorView>(false),
    decreases a, a.len() - i,
{
    if i < a.len() {
        let d = crate::expr::saturated(depth + 1);
        let s = st.visit(limits).0;
        law_equality_is_reflexive(a[i as int], limits, s, d);
        lemma_items_reflexive(
            a,
            i + 1,
            limits,
            value_equal(limits, s, a[i as int], a[i as int], d).0,
            depth,
        );
    }
}

proof fn lemma_members_reflexive(
    a: Seq<(Seq<char>, ExprValueView)>,
    i: nat,
    limits: ExpressionLimits,
    st: EvalView,
    depth: nat,
)
    requires
        forall|k: int| 0 <= k < a.len() ==> keyed_once((#[trigger] a[k]).1),
        forall|k: int, j: int|
            0 <= k < j < a.len() ==> (#[trigger] a[k]).0 != (#[trigger] a[j]).0,
    ensures
        members_equal(limits, st, a, a, depth, i).1 != Ok::<bool, EvalErrorView>(false),
    decreases a, a.len() - i,
{
    if i < a.len() {
        let d = crate::expr::saturated(depth + 1);
        let s = st.visit(limits).0.string(limits, a[i as int].0).0;
        text_map::lemma_index_of(a, a[i as int].0, i as int);
        assert(decreases_to!(a => a[i as int]));
        assert(decreases_to!(a[i as int] => a[i as int].1));
        law_equality_is_reflexive(a[i as int].1, limits, s, d);
        lemma_members_reflexive(
            a,
            i + 1,
            limits,
            value_equal(limits, s, a[i as int].1, a[i as int].1, d).0,
            depth,
        );
    }
}

/// Lists are equal if they have one length and their items are equal one by one; where they
/// differ, they differ in length or in some item.
pub proof fn law_lists_are_equal_by_items(
    a: Seq<ExprValueView>,
    b: Seq<ExprValueView>,
    limits: ExpressionLimits,
    st: EvalView,
    depth: nat,
)
    ensures
        value_equal(limits, st, ExprValueView::List(a), ExprValueView::List(b), depth).1 == Ok::<
            bool,
            EvalErrorView,
        >(true) ==> a.len() == b.len() && forall|k: int|
            0 <= k < a.len() ==> found_equal(#[trigger] a[k], b[k], true),
        value_equal(limits, st, ExprValueView::List(a), ExprValueView::List(b), depth).1 == Ok::<
            bool,
            EvalErrorView,
        >(false) ==> a.len() != b.len() || exists|k: int|
            0 <= k < a.len() && found_equal(#[trigger] a[k], b[k], false),
{
    if a.len() == b.len() {
        lemma_items_one_by_one(a, b, 0, limits, st, depth);
    }
}

proof fn lemma_items_one_by_one(
    a: Seq<ExprValueView>,
    b: Seq<ExprValueView>,
    i: nat,
    limits: ExpressionLimits,
    st: EvalView,
    depth: nat,
)
    ensures
        items_equal(limits, st, a, b, depth, i).1 == Ok::<bool, EvalErrorView>(true) ==> forall|
            k: int,
        | i <= k < a.len() ==> found_equal(#[trigger] a[k], b[k], true),
        items_equal(limits, st, a, b, depth, i).1 == Ok::<bool, EvalErrorView>(false) ==> exists|
            k: int,
        | i <= k < a.len() && found_equal(#[trigger] a[k], b[k], false),
    decreases a.len() - i,
{
    if i < a.len() {
        let d = crate::expr::saturated(depth + 1);
        let s = st.visit(limits).0;
        let (next, found) = value_equal(limits, s, a[i as int], b[i as int], d);
        if found is Ok {
            assert(found_equal(a[i as int], b[i as int], found->Ok_0));
        }
        lemma_items_one_by_one(a, b, i + 1, limits, next, depth);
    }
}

/// A value is in a list if it is equal to an item of it, and is not if it differs from all.
pub proof fn law_membership(
    program: ProgramView,
    answers: ValueSource,
    locals: Seq<(Seq<char>, ExprValueView)>,
    st: EvalView,
    needle: ExprView,
    collection: ExprView,
    after: EvalView,
    n: ExprValueView,
    items: Seq<ExprValueView>,
)
    requires
        both(
            program,
            answers,
            locals,
            st,
            needle,
            collection,
            after,
            n,
            ExprValueView::List(items),
        ),
    ensures
        ({
            let outcome = evaluated_node(
                program,
                answers,
                locals,
                st,
                ExprView::In { needle: Box::new(needle), collection: Box::new(collection) },
            ).1;
            &&& answers_boolean(outcome) || outcome is Error
            &&& says(outcome, true) ==> exists|k: int|
                0 <= k < items.len() && found_equal(n, #[trigger] items[k], true)
            &&& says(outcome, false) ==> forall|k: int|
                0 <= k < items.len() ==> found_equal(n, #[trigger] items[k], false)
            &&& items.len() == 0 ==> says(outcome, false)
        }),
{
    lemma_among(program.limits, after, n, items, 0);
}

proof fn lemma_among(
    limits: ExpressionLimits,
    st: EvalView,
    n: ExprValueView,
    items: Seq<ExprValueView>,
    i: nat,
)
    ensures
        ({
            let outcome = among(limits, st, n, items, i).1;
            &&& answers_boolean(outcome) || outcome is Error
            &&& says(outcome, true) ==> exists|k: int|
                i <= k < items.len() && found_equal(n, #[trigger] items[k], true)
            &&& says(outcome, false) ==> forall|k: int|
                i <= k < items.len() ==> found_equal(n, #[trigger] items[k], false)
        }),
    decreases items.len() - i,
{
    if i < items.len() {
        let s = st.visit(limits).0;
        let (next, found) = value_equal(limits, s, n, items[i as int], 1);
        if found is Ok {
            assert(found_equal(n, items[i as int], found->Ok_0));
        }
        lemma_among(limits, next, n, items, i + 1);
    }
}

/// What is found to be equal is not found to differ.
pub proof fn law_equality_is_decided(left: ExprValueView, right: ExprValueView)
    ensures
        !(found_equal(left, right, true) && found_equal(left, right, false)),
{
    if found_equal(left, right, true) && found_equal(left, right, false) {
        let (la, sa, da) = choose|limits: ExpressionLimits, st: EvalView, depth: nat| #[trigger]
            value_equal(limits, st, left, right, depth).1 == Ok::<bool, EvalErrorView>(true);
        let (lb, sb, db) = choose|limits: ExpressionLimits, st: EvalView, depth: nat| #[trigger]
            value_equal(limits, st, left, right, depth).1 == Ok::<bool, EvalErrorView>(false);
        law_equality_is_of_the_values(left, right, la, sa, da, lb, sb, db);
    }
}

// ---------------------------------------------------------------------------
// Logic
// ---------------------------------------------------------------------------
/// What the operands of a logical operator come to, each after the one before it.
pub open spec fn operands(
    program: ProgramView,
    answers: ValueSource,
    locals: Seq<(Seq<char>, ExprValueView)>,
    st: EvalView,
    items: Seq<ExprView>,
    found: Seq<(EvalView, OutcomeView)>,
) -> bool {
    &&& found.len() == items.len()
    &&& forall|k: int|
        0 <= k < items.len() ==> #[trigger] operand_at(
            program,
            answers,
            locals,
            st,
            items,
            found,
            k,
        )
}

/// The state in which the `k`-th operand or round starts.
pub open spec fn state_before(
    st: EvalView,
    found: Seq<(EvalView, OutcomeView)>,
    k: int,
) -> EvalView {
    if k == 0 {
        st
    } else {
        found[k - 1].0
    }
}

pub open spec fn operand_at(
    program: ProgramView,
    answers: ValueSource,
    locals: Seq<(Seq<char>, ExprValueView)>,
    st: EvalView,
    items: Seq<ExprView>,
    found: Seq<(EvalView, OutcomeView)>,
    k: int,
) -> bool {
    found[k] == evaluated(program, answers, locals, state_before(st, found, k), items[k])
}

/// Whether an outcome is an issue that the operands have: one of theirs, or an error for an
/// operand whose value is no Boolean.
pub open spec fn issue_of(found: Seq<(EvalView, OutcomeView)>, outcome: OutcomeView) -> bool {
    exists|k: int|
        0 <= k < found.len() && !answers_boolean((#[trigger] found[k]).1) && (outcome == found[k].1
            || (found[k].1 is Value && outcome is Error))
}

proof fn lemma_logical(
    program: ProgramView,
    answers: ValueSource,
    locals: Seq<(Seq<char>, ExprValueView)>,
    st: EvalView,
    items: Seq<ExprView>,
    found: Seq<(EvalView, OutcomeView)>,
    any: bool,
    i: nat,
    deferred: Option<OutcomeView>,
    k: int,
)
    requires
        operands(program, answers, locals, st, items, found),
        i <= items.len(),
        i <= k <= items.len(),
        forall|j: int| i <= j < k ==> !says((#[trigger] found[j]).1, any),
        k < items.len() ==> says(found[k].1, any),
        deferred matches Some(outcome) ==> !(outcome is Value) && issue_of(found, outcome),
    ensures
        ({
            let (after, outcome) = logical(
                program,
                answers,
                locals,
                state_before(st, found, i as int),
                items,
                any,
                i,
                deferred,
            );
            &&& k < items.len() ==> after == found[k].0 && says(outcome, any)
            &&& k == items.len() && deferred is None && (forall|j: int|
                i <= j < items.len() ==> says((#[trigger] found[j]).1, !any)) ==> says(
                outcome,
                !any,
            )
            &&& k == items.len() && (deferred is Some || exists|j: int|
                i <= j < items.len() && !says((#[trigger] found[j]).1, !any)) ==> issue_of(
                found,
                outcome,
            ) && !(outcome is Value)
        }),
    decreases items.len() - i,
{
    if i < items.len() {
        assert(operand_at(program, answers, locals, st, items, found, i as int));
        let here = found[i as int];
        if i < k {
            let issue = crate::evaluate::as_bool(here).1;
            if !says(here.1, !any) {
                assert(!answers_boolean(here.1));
                assert(issue_of(found, issue));
                lemma_logical(
                    program,
                    answers,
                    locals,
                    st,
                    items,
                    found,
                    any,
                    i + 1,
                    crate::evaluate::graver(deferred, issue),
                    k,
                );
            } else {
                lemma_logical(
                    program,
                    answers,
                    locals,
                    st,
                    items,
                    found,
                    any,
                    i + 1,
                    deferred,
                    k,
                );
            }
        }
    }
}

/// The first operand that is false makes "all" false, and the first that is true makes "any"
/// true; what follows it is not looked at. Where there is none, "all" of operands that are all
/// true is true, and "any" of operands that are all false is false; of others the outcome is
/// an issue of one of them, and never an answer.
pub proof fn law_logic(
    program: ProgramView,
    answers: ValueSource,
    locals: Seq<(Seq<char>, ExprValueView)>,
    st: EvalView,
    items: Seq<ExprView>,
    found: Seq<(EvalView, OutcomeView)>,
    any: bool,
    k: int,
)
    requires
        operands(program, answers, locals, st, items, found),
        0 <= k <= items.len(),
        forall|j: int| 0 <= j < k ==> !says((#[trigger] found[j]).1, any),
        k < items.len() ==> says(found[k].1, any),
    ensures
        ({
            let (after, outcome) = evaluated_node(
                program,
                answers,
                locals,
                st,
                if any {
                    ExprView::Any { expressions: items }
                } else {
                    ExprView::All { expressions: items }
                },
            );
            &&& k < items.len() ==> after == found[k].0 && says(outcome, any)
            &&& k == items.len() && (forall|j: int|
                0 <= j < items.len() ==> says((#[trigger] found[j]).1, !any)) ==> says(
                outcome,
                !any,
            )
            &&& k == items.len() && (exists|j: int|
                0 <= j < items.len() && !says((#[trigger] found[j]).1, !any)) ==> issue_of(
                found,
                outcome,
            ) && !(outcome is Value)
        }),
{
    lemma_logical(program, answers, locals, st, items, found, any, 0, None, k);
}

/// What the predicate of a quantifier comes to for each value, bound to the name, each after
/// the one before it and after a visit.
pub open spec fn rounds(
    program: ProgramView,
    answers: ValueSource,
    locals: Seq<(Seq<char>, ExprValueView)>,
    st: EvalView,
    values: Seq<ExprValueView>,
    binding: Seq<char>,
    predicate: ExprView,
    found: Seq<(EvalView, OutcomeView)>,
) -> bool {
    &&& found.len() == values.len()
    &&& forall|k: int|
        0 <= k < values.len() ==> #[trigger] round_at(
            program,
            answers,
            locals,
            st,
            values,
            binding,
            predicate,
            found,
            k,
        )
}

pub open spec fn round_at(
    program: ProgramView,
    answers: ValueSource,
    locals: Seq<(Seq<char>, ExprValueView)>,
    st: EvalView,
    values: Seq<ExprValueView>,
    binding: Seq<char>,
    predicate: ExprView,
    found: Seq<(EvalView, OutcomeView)>,
    k: int,
) -> bool {
    let before = state_before(st, found, k);
    &&& before.visits < program.limits.max_collection_visits
    &&& found[k] == evaluated(
        program,
        answers,
        locals.push((binding, values[k])),
        EvalView { visits: before.visits + 1, ..before },
        predicate,
    )
}

/// The answer of the predicate that ends a quantifier: an example for "any" and for "none of",
/// a counterexample for "all".
pub open spec fn decisive(quantifier: CollectionQuantifier) -> bool {
    match quantifier {
        CollectionQuantifier::Any => true,
        CollectionQuantifier::NoneOf => true,
        CollectionQuantifier::All => false,
    }
}

/// What a quantifier says once it has found one: "any" holds, "all" and "none of" do not.
pub open spec fn verdict(quantifier: CollectionQuantifier) -> bool {
    match quantifier {
        CollectionQuantifier::Any => true,
        CollectionQuantifier::NoneOf => false,
        CollectionQuantifier::All => false,
    }
}

proof fn lemma_quantified(
    program: ProgramView,
    answers: ValueSource,
    locals: Seq<(Seq<char>, ExprValueView)>,
    st: EvalView,
    quantifier: CollectionQuantifier,
    values: Seq<ExprValueView>,
    binding: Seq<char>,
    predicate: ExprView,
    found: Seq<(EvalView, OutcomeView)>,
    i: nat,
    deferred: Option<OutcomeView>,
    k: int,
)
    requires
        rounds(program, answers, locals, st, values, binding, predicate, found),
        i <= k <= values.len(),
        forall|j: int| i <= j < k ==> !says((#[trigger] found[j]).1, decisive(quantifier)),
        k < values.len() ==> says(found[k].1, decisive(quantifier)),
        deferred matches Some(outcome) ==> !(outcome is Value) && issue_of(found, outcome),
    ensures
        ({
            let (after, outcome) = quantified(
                program,
                answers,
                locals,
                state_before(st, found, i as int),
                quantifier,
                values,
                binding,
                predicate,
                i,
                deferred,
            );
            &&& k < values.len() ==> after == found[k].0 && says(outcome, verdict(quantifier))
            &&& k == values.len() && deferred is None && (forall|j: int|
                i <= j < values.len() ==> says((#[trigger] found[j]).1, !decisive(quantifier)))
                ==> says(outcome, !verdict(quantifier))
            &&& k == values.len() && (deferred is Some || exists|j: int|
                i <= j < values.len() && !says((#[trigger] found[j]).1, !decisive(quantifier)))
                ==> issue_of(found, outcome) && !(outcome is Value)
        }),
    decreases values.len() - i,
{
    if i < values.len() {
        let before = state_before(st, found, i as int);
        assert(round_at(
            program,
            answers,
            locals,
            st,
            values,
            binding,
            predicate,
            found,
            i as int,
        ));
        let here = found[i as int];
        assert(before.visit(program.limits).0 == (EvalView {
            visits: before.visits + 1,
            ..before
        }));
        if i < k {
            let issue = crate::evaluate::as_bool(here).1;
            let slot = if says(here.1, !decisive(quantifier)) {
                deferred
            } else {
                assert(!answers_boolean(here.1));
                assert(issue_of(found, issue));
                crate::evaluate::graver(deferred, issue)
            };
            lemma_quantified(
                program,
                answers,
                locals,
                st,
                quantifier,
                values,
                binding,
                predicate,
                found,
                i + 1,
                slot,
                k,
            );
        }
    }
}

/// A quantifier over a list is decided by the first value for which the predicate is decisive:
/// "any" holds by an example, "none of" fails by one, and "all" fails by a counterexample. With
/// none, and an answer for every value, it is the contrary; "any" of no values does not hold,
/// "all" and "none of" do. Of others the outcome is an issue of one round, never an answer.
pub proof fn law_quantifiers(
    program: ProgramView,
    answers: ValueSource,
    locals: Seq<(Seq<char>, ExprValueView)>,
    st: EvalView,
    quantifier: CollectionQuantifier,
    collection: ExprView,
    binding: Seq<char>,
    predicate: ExprView,
    start: EvalView,
    values: Seq<ExprValueView>,
    found: Seq<(EvalView, OutcomeView)>,
    k: int,
)
    requires
        evaluated(program, answers, locals, st, collection) == (
            start,
            OutcomeView::Value(ExprValueView::List(values)),
        ),
        rounds(program, answers, locals, start, values, binding, predicate, found),
        0 <= k <= values.len(),
        forall|j: int| 0 <= j < k ==> !says((#[trigger] found[j]).1, decisive(quantifier)),
        k < values.len() ==> says(found[k].1, decisive(quantifier)),
    ensures
        ({
            let (after, outcome) = evaluated_node(
                program,
                answers,
                locals,
                st,
                ExprView::Quantifier {
                    quantifier,
                    collection: Box::new(collection),
                    binding,
                    predicate: Box::new(predicate),
                },
            );
            &&& k < values.len() ==> after == found[k].0 && says(outcome, verdict(quantifier))
            &&& k == values.len() && (forall|j: int|
                0 <= j < values.len() ==> says((#[trigger] found[j]).1, !decisive(quantifier)))
                ==> says(outcome, !verdict(quantifier))
            &&& k == values.len() && (exists|j: int|
                0 <= j < values.len() && !says((#[trigger] found[j]).1, !decisive(quantifier)))
                ==> issue_of(found, outcome) && !(outcome is Value)
        }),
{
    lemma_quantified(
        program,
        answers,
        locals,
        start,
        quantifier,
        values,
        binding,
        predicate,
        found,
        0,
        None,
        k,
    );
}

// ---------------------------------------------------------------------------
// References
// ---------------------------------------------------------------------------
/// A context reference is what the context answers, or an error: a value is never altered, a
/// missing value is missing only where its type is optional, and an unknown one stays unknown.
/// Null, Booleans and integers of the type that was found for the reference are read.
pub proof fn law_context_reference(
    program: ProgramView,
    answers: ValueSource,
    locals: Seq<(Seq<char>, ExprValueView)>,
    st: EvalView,
    field: FieldRefView,
)
    ensures
        ({
            let outcome = evaluated_node(
                program,
                answers,
                locals,
                st,
                ExprView::Ref { reference: ReferenceView::Context { field } },
            ).1;
            let given = answers(field);
            &&& outcome == given || outcome is Error
            &&& text_map::lookup(program.resolved, field) matches Some(t) ==> {
                &&& given is Unknown || given is Error ==> outcome == given
                &&& given is Missing ==> (outcome == given <==> t.optional)
                &&& given matches OutcomeView::Value(value) ==> program.limits.max_depth >= 1 ==> {
                    &&& value is Bool && t.kind is Bool ==> outcome == given
                    &&& whole(value) is Some && (t.kind is Integer || t.kind is Number)
                        ==> outcome == given
                    &&& value is Null ==> (outcome == given <==> t.nullable || t.kind is Null
                        || t.kind is Any)
                    &&& value matches ExprValueView::String(s) ==> t.kind is String ==> st.bytes
                        + text::byte_len(s) <= program.limits.max_string_bytes ==> outcome == given
                    &&& value is Bool && !(t.kind is Bool) && !(t.kind is Any) ==> outcome is Error
                    &&& value is String && !(t.kind is String) && !(t.kind is Any)
                        ==> outcome is Error
                    &&& whole(value) is Some && !(t.kind is Integer) && !(t.kind is Number) && !(
                    t.kind is Any) ==> outcome is Error
                }
            }
        }),
{
}

/// A name that was bound last is the one that is read, whole or by one field.
pub proof fn law_local_reference(
    program: ProgramView,
    answers: ValueSource,
    locals: Seq<(Seq<char>, ExprValueView)>,
    st: EvalView,
    binding: Seq<char>,
    value: ExprValueView,
    other: Seq<char>,
)
    ensures
        ({
            let read = |scope: Seq<(Seq<char>, ExprValueView)>, name: Seq<char>| evaluated_node(
                program,
                answers,
                scope,
                st,
                ExprView::Ref {
                    reference: ReferenceView::Local { binding: name, path: Seq::empty() },
                },
            );
            let within = locals.push((binding, value));
            &&& read(within, binding).1 == OutcomeView::Value(value) || read(within, binding).1
                is Error
            &&& !(value is String) && !(value is Float) ==> read(within, binding) == (
                st,
                OutcomeView::Value(value),
            )
            &&& other != binding ==> read(within, other) == read(locals, other)
        }),
{
    let within = locals.push((binding, value));
    assert(within.drop_last() =~= locals);
    assert(within.last() == (binding, value));
}

/// A field of a local object is what the object holds under its name; a field that it does not
/// hold is missing.
pub proof fn law_local_field(
    program: ProgramView,
    answers: ValueSource,
    locals: Seq<(Seq<char>, ExprValueView)>,
    st: EvalView,
    binding: Seq<char>,
    members: Seq<(Seq<char>, ExprValueView)>,
    name: Seq<char>,
)
    requires
        st.operations < program.limits.max_operations,
    ensures
        ({
            let within = locals.push((binding, ExprValueView::Object(members)));
            let outcome = evaluated_node(
                program,
                answers,
                within,
                st,
                ExprView::Ref { reference: ReferenceView::Local { binding, path: seq![name] } },
            ).1;
            match text_map::lookup(members, name) {
                Some(value) => {
                    &&& outcome == OutcomeView::Value(value) || outcome is Error
                    &&& !(value is String) && !(value is Float) ==> outcome == OutcomeView::Value(
                        value,
                    )
                },
                None => outcome is Missing,
            }
        }),
{
    let within = locals.push((binding, ExprValueView::Object(members)));
    assert(within.last() == (binding, ExprValueView::Object(members)));
    reveal_with_fuel(crate::evaluate::local_value, 2);
}

// ---------------------------------------------------------------------------
// Patterns and floating-point numbers
// ---------------------------------------------------------------------------
/// A match answers whether the pattern matches the text, and nothing else; within the limits,
/// and with a pattern that the check has compiled, there is an answer.
pub proof fn law_matching(
    program: ProgramView,
    answers: ValueSource,
    locals: Seq<(Seq<char>, ExprValueView)>,
    st: EvalView,
    value: ExprView,
    pattern: Seq<char>,
    after: EvalView,
    v: Seq<char>,
)
    requires
        evaluated(program, answers, locals, st, value) == (
            after,
            OutcomeView::Value(ExprValueView::String(v)),
        ),
    ensures
        ({
            let outcome = evaluated_node(
                program,
                answers,
                locals,
                st,
                ExprView::Matches { value: Box::new(value), pattern },
            ).1;
            &&& says(outcome, true) ==> regex_matches(pattern, v)
            &&& says(outcome, false) ==> !regex_matches(pattern, v)
            &&& answers_boolean(outcome) || outcome is Error
            &&& after.bytes + text::byte_len(v) <= program.limits.max_string_bytes
                && text::byte_len(v) <= program.limits.max_regex_input_bytes
                && program.patterns.contains(pattern) ==> answers_boolean(outcome)
        }),
{
}

/// Comparing the other way round: where both ways have an answer, "less" one way is "greater"
/// the other, and "equal" is the same both ways.
pub proof fn law_comparison_turned_round(
    limits: ExpressionLimits,
    st: EvalView,
    other: EvalView,
    l: ExprValueView,
    r: ExprValueView,
)
    requires
        whole(l) is Some || l is Float,
        whole(r) is Some || r is Float,
    ensures
        ({
            let one = |operator: ComparisonOperator| compared(limits, st, operator, l, r).1;
            let two = |operator: ComparisonOperator| compared(limits, other, operator, r, l).1;
            &&& answers_boolean(one(ComparisonOperator::LessThan)) <==> answers_boolean(
                two(ComparisonOperator::GreaterThan),
            )
            &&& says(one(ComparisonOperator::LessThan), true) <==> says(
                two(ComparisonOperator::GreaterThan),
                true,
            )
            &&& says(one(ComparisonOperator::Equal), true) <==> says(
                two(ComparisonOperator::Equal),
                true,
            )
        }),
{
}

/// Finite floating-point numbers compare by their bits: positive ones ascend with them,
/// negative ones descend, a negative one is below a positive one, and the two zeros are equal.
pub proof fn law_floats_compare(limits: ExpressionLimits, st: EvalView, a: u64, b: u64)
    requires
        limits.max_depth >= 1,
        finite_bits(a),
        finite_bits(b),
    ensures
        ({
            let of = |operator: ComparisonOperator| compared(
                limits,
                st,
                operator,
                ExprValueView::Float(a),
                ExprValueView::Float(b),
            ).1;
            let sign: u64 = 0x8000_0000_0000_0000;
            &&& a < sign && b < sign ==> says(of(ComparisonOperator::LessThan), a < b) && says(
                of(ComparisonOperator::Equal),
                a == b,
            )
            &&& a >= sign && b >= sign ==> says(of(ComparisonOperator::LessThan), a > b) && says(
                of(ComparisonOperator::Equal),
                a == b,
            )
            &&& a > sign && b < sign ==> says(of(ComparisonOperator::LessThan), true) && says(
                of(ComparisonOperator::Equal),
                false,
            )
            &&& a == sign && b == 0 ==> says(of(ComparisonOperator::Equal), true)
        }),
{
}

/// An integer compares with a finite floating-point number as the number that it exactly is; an
/// integer that is none has no answer.
pub proof fn law_integers_compare_with_floats(
    limits: ExpressionLimits,
    st: EvalView,
    n: ExprValueView,
    same: u64,
    bits: u64,
)
    requires
        limits.max_depth >= 1,
        whole(n) is Some,
        finite_bits(bits),
    ensures
        ({
            let of = |operator: ComparisonOperator| compared(
                limits,
                st,
                operator,
                n,
                ExprValueView::Float(bits),
            ).1;
            &&& finite_bits(same) && integer_rank(whole(n)->0) == Some(float_rank(same)) ==> {
                &&& of(ComparisonOperator::Equal) == compared(
                    limits,
                    st,
                    ComparisonOperator::Equal,
                    ExprValueView::Float(same),
                    ExprValueView::Float(bits),
                ).1
                &&& of(ComparisonOperator::LessThan) == compared(
                    limits,
                    st,
                    ComparisonOperator::LessThan,
                    ExprValueView::Float(same),
                    ExprValueView::Float(bits),
                ).1
            }
            &&& integer_rank(whole(n)->0) is None ==> of(ComparisonOperator::Equal) is Error
        }),
{
}

} // verus!
