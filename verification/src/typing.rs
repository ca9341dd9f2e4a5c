//! What the check of an expression asks of its parts, and what it accepts.
use vstd::prelude::*;

use crate::context::FieldRefView;
use crate::expr::{
    saturated, CollectionQuantifier, ComparisonOperator, ExprTypeView, ExprValueView, ExprView,
    ExpressionLimits, KindView, ReferenceView,
};
use crate::expression::{
    checked_rule, checked_value, inferred, inferred_all, inferred_node, regex_fault, unchecked,
    CheckView, SchemaSource,
};
use crate::text;
use crate::text_map;

verus! {

/// Whether a step of a check found nothing wrong.
pub open spec fn no_fault(before: CheckView, after: CheckView) -> bool {
    after.diagnostics == before.diagnostics
}

/// A Boolean that is always there and never null.
pub open spec fn plain_bool(t: Option<ExprTypeView>) -> bool {
    t matches Some(t) && t.kind is Bool && !t.optional && !t.nullable
}

/// A type that may be used as one of a kind: it is of the kind, or unknown. What has no type
/// has been found wrong already.
pub open spec fn boolean_or_open(t: Option<ExprTypeView>) -> bool {
    t matches Some(t) ==> t.kind is Bool || t.kind is Any
}

pub open spec fn text_or_open(t: Option<ExprTypeView>) -> bool {
    t matches Some(t) ==> t.kind is String || t.kind is Any
}

/// An expression within the limits on nodes and depth is what its node is.
pub proof fn law_visit(
    schemas: SchemaSource,
    limits: ExpressionLimits,
    st: CheckView,
    e: ExprView,
    location: Seq<char>,
    depth: nat,
)
    ensures
        st.nodes < limits.max_nodes && depth <= limits.max_depth ==> inferred(
            schemas,
            limits,
            st,
            e,
            location,
            depth,
        ) == inferred_node(
            schemas,
            limits,
            CheckView { nodes: st.nodes + 1, ..st },
            e,
            location,
            depth,
        ),
        depth > limits.max_depth ==> inferred(schemas, limits, st, e, location, depth).1 is None,
{
}

/// A check accepts an expression if and only if it finds nothing wrong and a type, and a rule
/// only if that type is Boolean. What is accepted is the expression itself, with that type and
/// under those limits.
pub proof fn law_check_accepts(schemas: SchemaSource, limits: ExpressionLimits, e: ExprView)
    ensures
        ({
            let (st, t) = inferred(schemas, limits, unchecked(), e, "$"@, 1);
            let fine = st.diagnostics.len() == 0;
            &&& checked_value(schemas, limits, e) is Ok <==> fine && t is Some
            &&& checked_rule(schemas, limits, e) is Ok <==> fine && (t matches Some(t) && t.kind
                is Bool)
            &&& checked_value(schemas, limits, e) matches Ok(p) ==> p.expression == e && Some(
                p.result_type,
            ) == t && p.limits == limits && p.resolved == st.resolved && p.patterns == st.patterns
            &&& checked_rule(schemas, limits, e) matches Ok(p) ==> p.expression == e && Some(
                p.result_type,
            ) == t && p.limits == limits && p.resolved == st.resolved && p.patterns == st.patterns
            &&& checked_value(schemas, limits, e) matches Err(faults) ==> faults.len() > 0
            &&& checked_rule(schemas, limits, e) matches Err(faults) ==> faults.len() > 0
        }),
{
}

/// A scalar literal has the type of its value: null, Boolean, integer, number or string.
pub proof fn law_literal_types(
    schemas: SchemaSource,
    limits: ExpressionLimits,
    st: CheckView,
    value: ExprValueView,
    location: Seq<char>,
    depth: nat,
)
    ensures
        ({
            let (after, t) = inferred_node(
                schemas,
                limits,
                st,
                ExprView::Literal { value },
                location,
                depth,
            );
            &&& value is Null ==> after == st && (t matches Some(t) && t.kind is Null)
            &&& value is Bool ==> after == st && plain_bool(t)
            &&& value is Int || value is UInt ==> after == st && (t matches Some(t) && t.kind
                is Integer && !t.optional && !t.nullable)
            &&& value is Float ==> (no_fault(st, after) ==> (t matches Some(t) && t.kind is Number))
            &&& value matches ExprValueView::String(s) ==> {
                &&& t matches Some(t) && t.kind is String && !t.optional && !t.nullable
                &&& st.bytes + text::byte_len(s) <= limits.max_string_bytes ==> no_fault(st, after)
            }
            &&& value is List ==> (t matches Some(t) ==> t.kind is List)
            &&& value is Object ==> (t matches Some(t) && t.kind is Object)
        }),
{
}

/// A context reference has the type that the resolver gives, which is kept for the next time;
/// one without a type is a fault.
pub proof fn law_context_reference_types(
    schemas: SchemaSource,
    limits: ExpressionLimits,
    st: CheckView,
    field: FieldRefView,
    location: Seq<char>,
    depth: nat,
)
    ensures
        ({
            let (after, t) = inferred_node(
                schemas,
                limits,
                st,
                ExprView::Ref { reference: ReferenceView::Context { field } },
                location,
                depth,
            );
            match text_map::lookup(st.resolved, field) {
                Some(known) => after == st && t == Some(known),
                None => match schemas(field, st.diagnostics.len()) {
                    Ok(given) => {
                        &&& t == Some(given)
                        &&& no_fault(st, after)
                        &&& after.resolved == st.resolved.push((field, given))
                    },
                    Err(_) => t is None && after.diagnostics.len() == st.diagnostics.len() + 1,
                },
            }
        }),
{
}

/// A name has the type that it was bound with last; a name that is not bound is a fault.
pub proof fn law_local_reference_types(
    schemas: SchemaSource,
    limits: ExpressionLimits,
    st: CheckView,
    binding: Seq<char>,
    t: ExprTypeView,
    location: Seq<char>,
    depth: nat,
)
    ensures
        ({
            let e = ExprView::Ref {
                reference: ReferenceView::Local { binding, path: Seq::empty() },
            };
            let within = CheckView { locals: st.locals.push((binding, t)), ..st };
            let outside = CheckView { locals: Seq::empty(), ..st };
            &&& inferred_node(schemas, limits, within, e, location, depth) == (within, Some(t))
            &&& !no_fault(
                outside,
                inferred_node(schemas, limits, outside, e, location, depth).0,
            )
        }),
{
    let within = CheckView { locals: st.locals.push((binding, t)), ..st };
    assert(within.locals.last() == (binding, t));
    let outside = CheckView { locals: Seq::empty(), ..st };
    let e = ExprView::Ref { reference: ReferenceView::Local { binding, path: Seq::empty() } };
    assert(inferred_node(schemas, limits, outside, e, location, depth).0.diagnostics.len()
        == outside.diagnostics.len() + 1);
}

/// A negation is Boolean, and asks for a Boolean.
pub proof fn law_negation_types(
    schemas: SchemaSource,
    limits: ExpressionLimits,
    st: CheckView,
    e: ExprView,
    location: Seq<char>,
    depth: nat,
)
    ensures
        ({
            let (inner, t) = inferred(
                schemas,
                limits,
                st,
                e,
                location + ".expression"@,
                saturated(depth + 1),
            );
            let (after, whole) = inferred_node(
                schemas,
                limits,
                st,
                ExprView::Not { expression: Box::new(e) },
                location,
                depth,
            );
            &&& plain_bool(whole)
            &&& no_fault(inner, after) <==> boolean_or_open(t)
        }),
{
    let (inner, t) = inferred(
        schemas,
        limits,
        st,
        e,
        location + ".expression"@,
        saturated(depth + 1),
    );
    let after = inferred_node(
        schemas,
        limits,
        st,
        ExprView::Not { expression: Box::new(e) },
        location,
        depth,
    ).0;
    if !boolean_or_open(t) {
        assert(after.diagnostics.len() == inner.diagnostics.len() + 1);
    }
}

/// Tests for existence, for null and for emptiness are Boolean. A test for null takes anything;
/// one for emptiness a text, a list or an object.
pub proof fn law_test_types(
    schemas: SchemaSource,
    limits: ExpressionLimits,
    st: CheckView,
    e: ExprView,
    reference: ReferenceView,
    location: Seq<char>,
    depth: nat,
)
    ensures
        ({
            let (inner, t) = inferred(
                schemas,
                limits,
                st,
                e,
                location + ".expression"@,
                saturated(depth + 1),
            );
            let of = |e: ExprView| inferred_node(schemas, limits, st, e, location, depth);
            let null = of(ExprView::IsNull { expression: Box::new(e) });
            let empty = of(ExprView::IsEmpty { expression: Box::new(e) });
            &&& plain_bool(null.1) && plain_bool(empty.1) && plain_bool(
                of(ExprView::Exists { reference }).1,
            )
            &&& no_fault(inner, null.0)
            &&& no_fault(inner, empty.0) <==> (t matches Some(t) ==> t.kind is String || t.kind
                is List || t.kind is Object || t.kind is Any)
        }),
{
    let (inner, t) = inferred(
        schemas,
        limits,
        st,
        e,
        location + ".expression"@,
        saturated(depth + 1),
    );
    let after = inferred_node(
        schemas,
        limits,
        st,
        ExprView::IsEmpty { expression: Box::new(e) },
        location,
        depth,
    ).0;
    if !(t matches Some(t) ==> t.kind is String || t.kind is List || t.kind is Object || t.kind
        is Any) {
        assert(after.diagnostics.len() == inner.diagnostics.len() + 1);
    }
}

/// A number of either kind.
pub open spec fn number_kind(t: ExprTypeView) -> bool {
    t.kind is Integer || t.kind is Number
}

/// Types whose values can be ordered: two numbers, two texts, or one that is not known.
pub open spec fn can_be_ordered(left: ExprTypeView, right: ExprTypeView) -> bool {
    ||| left.kind is Any
    ||| right.kind is Any
    ||| number_kind(left) && number_kind(right)
    ||| left.kind is String && right.kind is String
}

/// Types whose values can be equal: of one kind, two numbers, null and what may be null, or one
/// that is not known.
pub open spec fn can_be_equal(left: ExprTypeView, right: ExprTypeView) -> bool {
    ||| left.kind is Any || left.kind is Never
    ||| right.kind is Any || right.kind is Never
    ||| left.kind is Null && (right.kind is Null || right.nullable)
    ||| right.kind is Null && left.nullable
    ||| left.kind == right.kind
    ||| number_kind(left) && number_kind(right)
}

/// A comparison is Boolean, and asks for operands that can be compared in its way.
pub proof fn law_comparison_types(
    schemas: SchemaSource,
    limits: ExpressionLimits,
    st: CheckView,
    operator: ComparisonOperator,
    left: ExprView,
    right: ExprView,
    location: Seq<char>,
    depth: nat,
)
    ensures
        ({
            let deeper = saturated(depth + 1);
            let (first, l) = inferred(schemas, limits, st, left, location + ".left"@, deeper);
            let (second, r) = inferred(schemas, limits, first, right, location + ".right"@, deeper);
            let (after, whole) = inferred_node(
                schemas,
                limits,
                st,
                ExprView::Compare { operator, left: Box::new(left), right: Box::new(right) },
                location,
                depth,
            );
            let equality = operator == ComparisonOperator::Equal || operator
                == ComparisonOperator::NotEqual;
            &&& plain_bool(whole)
            &&& no_fault(second, after) <==> (l is Some && r is Some ==> if equality {
                can_be_equal(l->0, r->0)
            } else {
                can_be_ordered(l->0, r->0)
            })
        }),
{
    let deeper = saturated(depth + 1);
    let (first, l) = inferred(schemas, limits, st, left, location + ".left"@, deeper);
    let (second, r) = inferred(schemas, limits, first, right, location + ".right"@, deeper);
    let after = inferred_node(
        schemas,
        limits,
        st,
        ExprView::Compare { operator, left: Box::new(left), right: Box::new(right) },
        location,
        depth,
    ).0;
    assert(after == second || after.diagnostics.len() == second.diagnostics.len() + 1);
}

/// A text predicate is Boolean, and asks for two texts; a match asks for a text and a pattern
/// that compiles.
pub proof fn law_text_predicate_types(
    schemas: SchemaSource,
    limits: ExpressionLimits,
    st: CheckView,
    value: ExprView,
    operand: ExprView,
    pattern: Seq<char>,
    location: Seq<char>,
    depth: nat,
)
    ensures
        ({
            let deeper = saturated(depth + 1);
            let (first, v) = inferred(schemas, limits, st, value, location + ".value"@, deeper);
            let of = |e: ExprView| inferred_node(schemas, limits, st, e, location, depth);
            let (v0, o0) = (Box::new(value), Box::new(operand));
            let contains = of(ExprView::Contains { value: v0, needle: o0 });
            let starts = of(ExprView::StartsWith { value: v0, prefix: o0 });
            let ends = of(ExprView::EndsWith { value: v0, suffix: o0 });
            let matched = of(ExprView::Matches { value: v0, pattern });
            &&& plain_bool(contains.1) && plain_bool(starts.1) && plain_bool(ends.1) && plain_bool(
                matched.1,
            )
            &&& starts == contains && ends == contains
            &&& text_or_open(v) ==> ({
                let (second, o) = inferred(
                    schemas,
                    limits,
                    first,
                    operand,
                    location + ".operand"@,
                    deeper,
                );
                no_fault(second, contains.0) <==> text_or_open(o)
            })
            &&& text_or_open(v) && first.bytes + text::byte_len(pattern) <= limits.max_string_bytes
                && text::byte_len(pattern) <= limits.max_regex_pattern_bytes
                && !first.patterns.contains(pattern) ==> (no_fault(first, matched.0)
                <==> regex_fault(pattern, limits.max_regex_compiled_bytes) is None)
            &&& !text_or_open(v) ==> !no_fault(first, matched.0) || first.diagnostics.len()
                < matched.0.diagnostics.len()
        }),
{
    let deeper = saturated(depth + 1);
    let (first, v) = inferred(schemas, limits, st, value, location + ".value"@, deeper);
    let (v0, o0) = (Box::new(value), Box::new(operand));
    let contains = inferred_node(
        schemas,
        limits,
        st,
        ExprView::Contains { value: v0, needle: o0 },
        location,
        depth,
    ).0;
    let matched = inferred_node(
        schemas,
        limits,
        st,
        ExprView::Matches { value: v0, pattern },
        location,
        depth,
    ).0;
    if text_or_open(v) {
        let second = inferred(
            schemas,
            limits,
            first,
            operand,
            location + ".operand"@,
            deeper,
        ).0;
        assert(contains == second || contains.diagnostics.len() == second.diagnostics.len() + 1);
    } else {
        let told = first.require_string(v->0, location + ".value"@);
        assert(told.diagnostics.len() == first.diagnostics.len() + 1);
        lemma_pattern_keeps(told, limits, pattern, location + ".pattern"@);
    }
    if text_or_open(v) && first.bytes + text::byte_len(pattern) <= limits.max_string_bytes
        && text::byte_len(pattern) <= limits.max_regex_pattern_bytes && !first.patterns.contains(
        pattern,
    ) && regex_fault(pattern, limits.max_regex_compiled_bytes) is Some {
        assert(matched.diagnostics.len() == first.diagnostics.len() + 1);
    }
}

proof fn lemma_pattern_keeps(
    st: CheckView,
    limits: ExpressionLimits,
    pattern: Seq<char>,
    location: Seq<char>,
)
    ensures
        st.pattern(limits, pattern, location).diagnostics.len() >= st.diagnostics.len(),
{
}

/// A membership test is Boolean, and asks for a list of items that the value can be equal to.
pub proof fn law_membership_types(
    schemas: SchemaSource,
    limits: ExpressionLimits,
    st: CheckView,
    needle: ExprView,
    collection: ExprView,
    location: Seq<char>,
    depth: nat,
)
    ensures
        ({
            let deeper = saturated(depth + 1);
            let (first, n) = inferred(schemas, limits, st, needle, location + ".needle"@, deeper);
            let (second, c) = inferred(
                schemas,
                limits,
                first,
                collection,
                location + ".collection"@,
                deeper,
            );
            let (after, whole) = inferred_node(
                schemas,
                limits,
                st,
                ExprView::In { needle: Box::new(needle), collection: Box::new(collection) },
                location,
                depth,
            );
            &&& plain_bool(whole)
            &&& no_fault(second, after) <==> (c matches Some(c) ==> match c.kind {
                KindView::Any => true,
                KindView::List(item) => n matches Some(n) ==> can_be_equal(n, *item),
                _ => false,
            })
        }),
{
    let deeper = saturated(depth + 1);
    let (first, n) = inferred(schemas, limits, st, needle, location + ".needle"@, deeper);
    let (second, c) = inferred(
        schemas,
        limits,
        first,
        collection,
        location + ".collection"@,
        deeper,
    );
    let after = inferred_node(
        schemas,
        limits,
        st,
        ExprView::In { needle: Box::new(needle), collection: Box::new(collection) },
        location,
        depth,
    ).0;
    assert(after == second || after.diagnostics.len() == second.diagnostics.len() + 1);
}

/// "All" and "any" are Boolean, and are checked alike; without operands there is nothing wrong
/// with them.
pub proof fn law_logic_types(
    schemas: SchemaSource,
    limits: ExpressionLimits,
    st: CheckView,
    items: Seq<ExprView>,
    location: Seq<char>,
    depth: nat,
)
    ensures
        ({
            let of = |e: ExprView| inferred_node(schemas, limits, st, e, location, depth);
            let all = of(ExprView::All { expressions: items });
            let any = of(ExprView::Any { expressions: items });
            &&& plain_bool(all.1)
            &&& all == any
            &&& all.0 == inferred_all(
                schemas,
                limits,
                st,
                items,
                location,
                saturated(depth + 1),
                0,
            )
            &&& items.len() == 0 ==> all.0 == st
        }),
{
}

/// Each operand of "all" and "any" must be Boolean: one that is goes unnoticed, and one that is
/// not is one fault more before the next is looked at.
pub proof fn law_logic_operand_types(
    schemas: SchemaSource,
    limits: ExpressionLimits,
    st: CheckView,
    items: Seq<ExprView>,
    location: Seq<char>,
    deeper: nat,
    i: nat,
)
    requires
        i < items.len(),
    ensures
        ({
            let child = location + ".expressions["@ + text::decimal(i) + "]"@;
            let (inner, t) = inferred(schemas, limits, st, items[i as int], child, deeper);
            exists|told: CheckView|
                inferred_all(schemas, limits, st, items, location, deeper, i)
                    == #[trigger] inferred_all(
                    schemas,
                    limits,
                    told,
                    items,
                    location,
                    deeper,
                    i + 1,
                ) && if boolean_or_open(t) {
                    told == inner
                } else {
                    told.diagnostics.len() == inner.diagnostics.len() + 1
                }
        }),
{
    let child = location + ".expressions["@ + text::decimal(i) + "]"@;
    let found = inferred(schemas, limits, st, items[i as int], child, deeper);
    let told = crate::expression::expect_bool(found, child);
    assert(inferred_all(schemas, limits, st, items, location, deeper, i) == inferred_all(
        schemas,
        limits,
        told,
        items,
        location,
        deeper,
        i + 1,
    ));
}

/// A quantifier ranges over a list. Its predicate must be Boolean, and sees the items under the
/// bound name, which is new, not empty and gone behind the quantifier; the whole is Boolean.
pub proof fn law_quantifier_types(
    schemas: SchemaSource,
    limits: ExpressionLimits,
    st: CheckView,
    quantifier: CollectionQuantifier,
    collection: ExprView,
    binding: Seq<char>,
    predicate: ExprView,
    location: Seq<char>,
    depth: nat,
    item: ExprTypeView,
)
    ensures
        ({
            let deeper = saturated(depth + 1);
            let (first, c) = inferred(
                schemas,
                limits,
                st,
                collection,
                location + ".collection"@,
                deeper,
            );
            let (after, whole) = inferred_node(
                schemas,
                limits,
                st,
                ExprView::Quantifier {
                    quantifier,
                    collection: Box::new(collection),
                    binding,
                    predicate: Box::new(predicate),
                },
                location,
                depth,
            );
            let fresh = forall|i: int|
                0 <= i < first.locals.len() ==> (#[trigger] first.locals[i]).0 != binding;
            &&& plain_bool(whole)
            &&& after.locals == first.locals
            &&& after.quantifiers == first.quantifiers
            &&& (c matches Some(c) && c.kind == KindView::List(Box::new(item))) && fresh
                && binding.len() > 0 && text::byte_len(binding) <= limits.max_string_bytes
                && first.quantifiers < limits.max_quantifier_depth ==> ({
                let (inner, p) = inferred(
                    schemas,
                    limits,
                    CheckView {
                        quantifiers: first.quantifiers + 1,
                        locals: first.locals.push((binding, item)),
                        ..first
                    },
                    predicate,
                    location + ".predicate"@,
                    deeper,
                );
                no_fault(inner, after) <==> boolean_or_open(p)
            })
        }),
{
    let deeper = saturated(depth + 1);
    let (first, c) = inferred(schemas, limits, st, collection, location + ".collection"@, deeper);
    let fresh = forall|i: int|
        0 <= i < first.locals.len() ==> (#[trigger] first.locals[i]).0 != binding;
    if (c matches Some(c) && c.kind == KindView::List(Box::new(item))) && fresh && binding.len() > 0
        && text::byte_len(binding) <= limits.max_string_bytes && first.quantifiers
        < limits.max_quantifier_depth {
        let (inner, p) = inferred(
            schemas,
            limits,
            CheckView {
                quantifiers: first.quantifiers + 1,
                locals: first.locals.push((binding, item)),
                ..first
            },
            predicate,
            location + ".predicate"@,
            deeper,
        );
        let after = inferred_node(
            schemas,
            limits,
            st,
            ExprView::Quantifier {
                quantifier,
                collection: Box::new(collection),
                binding,
                predicate: Box::new(predicate),
            },
            location,
            depth,
        ).0;
        assert(after.diagnostics == inner.diagnostics || after.diagnostics.len()
            == inner.diagnostics.len() + 1);
    }
}

} // verus!
