//! Rewriting the context references of an expression.
use vstd::prelude::*;

use crate::context::{FieldRef, FieldRefView};
use crate::expr::{clone_texts, expr_views, references_of, ExpressionV1, ReferenceV1};

verus! {

/// Whether the second reference is the first with its context reference replaced by what the
/// visitor makes of it. A reference to a local binding stays.
pub open spec fn visited_reference<F: Fn(&FieldRef) -> FieldRef>(
    old_reference: ReferenceV1,
    new_reference: ReferenceV1,
    visitor: F,
) -> bool {
    match (old_reference, new_reference) {
        (ReferenceV1::Context { field: a }, ReferenceV1::Context { field: b }) => call_ensures(
            visitor,
            (&a,),
            b,
        ),
        (ReferenceV1::Local { .. }, ReferenceV1::Local { .. }) => new_reference@
            == old_reference@,
        _ => false,
    }
}

/// Whether the second expression is the first with each of its context references replaced by what
/// the visitor makes of it, and all else as it was.
pub open spec fn visited<F: Fn(&FieldRef) -> FieldRef>(
    old_expression: ExpressionV1,
    new_expression: ExpressionV1,
    visitor: F,
) -> bool
    decreases old_expression,
{
    match (old_expression, new_expression) {
        (ExpressionV1::Literal { value: a }, ExpressionV1::Literal { value: b }) => a@ == b@,
        (ExpressionV1::Ref { reference: a }, ExpressionV1::Ref { reference: b }) =>
            visited_reference(a, b, visitor),
        (ExpressionV1::Exists { reference: a }, ExpressionV1::Exists { reference: b }) =>
            visited_reference(a, b, visitor),
        (ExpressionV1::All { expressions: a }, ExpressionV1::All { expressions: b }) =>
            visited_list(a, b, visitor),
        (ExpressionV1::Any { expressions: a }, ExpressionV1::Any { expressions: b }) =>
            visited_list(a, b, visitor),
        (ExpressionV1::Not { expression: a }, ExpressionV1::Not { expression: b }) => visited(
            *a,
            *b,
            visitor,
        ),
        (ExpressionV1::IsNull { expression: a }, ExpressionV1::IsNull { expression: b }) => visited(
            *a,
            *b,
            visitor,
        ),
        (ExpressionV1::IsEmpty { expression: a }, ExpressionV1::IsEmpty { expression: b }) => visited(
            *a,
            *b,
            visitor,
        ),
        (
            ExpressionV1::Compare { operator: p, left: a, right: c },
            ExpressionV1::Compare { operator: q, left: b, right: d },
        ) => p == q && visited(*a, *b, visitor) && visited(*c, *d, visitor),
        (
            ExpressionV1::Contains { value: a, needle: c },
            ExpressionV1::Contains { value: b, needle: d },
        ) => visited(*a, *b, visitor) && visited(*c, *d, visitor),
        (
            ExpressionV1::StartsWith { value: a, prefix: c },
            ExpressionV1::StartsWith { value: b, prefix: d },
        ) => visited(*a, *b, visitor) && visited(*c, *d, visitor),
        (
            ExpressionV1::EndsWith { value: a, suffix: c },
            ExpressionV1::EndsWith { value: b, suffix: d },
        ) => visited(*a, *b, visitor) && visited(*c, *d, visitor),
        (
            ExpressionV1::In { needle: a, collection: c },
            ExpressionV1::In { needle: b, collection: d },
        ) => visited(*a, *b, visitor) && visited(*c, *d, visitor),
        (
            ExpressionV1::Matches { value: a, pattern: p },
            ExpressionV1::Matches { value: b, pattern: q },
        ) => visited(*a, *b, visitor) && p@ == q@,
        (
            ExpressionV1::Quantifier { quantifier: p, collection: a, binding: r, predicate: c },
            ExpressionV1::Quantifier { quantifier: q, collection: b, binding: s, predicate: d },
        ) => p == q && r@ == s@ && visited(*a, *b, visitor) && visited(*c, *d, visitor),
        _ => false,
    }
}

pub open spec fn visited_list<F: Fn(&FieldRef) -> FieldRef>(
    old_list: Vec<ExpressionV1>,
    new_list: Vec<ExpressionV1>,
    visitor: F,
) -> bool
    decreases old_list,
{
    old_list@.len() == new_list@.len() && forall|i: int|
        0 <= i < old_list@.len() ==> visited(#[trigger] old_list@[i], new_list@[i], visitor)
}

impl ReferenceV1 {
    /// The reference, rewritten if it reads the context.
    pub fn visit_context_reference_mut<F: Fn(&FieldRef) -> FieldRef>(&self, visitor: &F) -> (res:
        Self)
        requires
            forall|field: &FieldRef| call_requires(*visitor, (field,)),
        ensures
            visited_reference(*self, res, *visitor),
    {
        match self {
            ReferenceV1::Context { field } => ReferenceV1::Context { field: visitor(field) },
            ReferenceV1::Local { binding, path } => ReferenceV1::Local {
                binding: binding.clone(),
                path: clone_texts(path),
            },
        }
    }
}

impl ExpressionV1 {
    /// The expression with every context reference rewritten. Useful when a reusable
    /// scenario or template is expanded below a unique step-ID prefix.
    pub fn visit_context_references_mut<F: Fn(&FieldRef) -> FieldRef>(&self, visitor: &F) -> (res:
        Self)
        requires
            forall|field: &FieldRef| call_requires(*visitor, (field,)),
        ensures
            visited(*self, res, *visitor),
        decreases self, 1nat,
    {
        match self {
            ExpressionV1::Literal { value } => ExpressionV1::Literal { value: value.clone() },
            ExpressionV1::Ref { reference } => ExpressionV1::Ref {
                reference: reference.visit_context_reference_mut(visitor),
            },
            ExpressionV1::Exists { reference } => ExpressionV1::Exists {
                reference: reference.visit_context_reference_mut(visitor),
            },
            ExpressionV1::All { expressions } => ExpressionV1::All {
                expressions: visit_list(expressions, visitor),
            },
            ExpressionV1::Any { expressions } => ExpressionV1::Any {
                expressions: visit_list(expressions, visitor),
            },
            ExpressionV1::Not { expression } => ExpressionV1::Not {
                expression: Box::new(expression.visit_context_references_mut(visitor)),
            },
            ExpressionV1::IsNull { expression } => ExpressionV1::IsNull {
                expression: Box::new(expression.visit_context_references_mut(visitor)),
            },
            ExpressionV1::IsEmpty { expression } => ExpressionV1::IsEmpty {
                expression: Box::new(expression.visit_context_references_mut(visitor)),
            },
            ExpressionV1::Compare { operator, left, right } => ExpressionV1::Compare {
                operator: *operator,
                left: Box::new(left.visit_context_references_mut(visitor)),
                right: Box::new(right.visit_context_references_mut(visitor)),
            },
            ExpressionV1::Contains { value, needle } => ExpressionV1::Contains {
                value: Box::new(value.visit_context_references_mut(visitor)),
                needle: Box::new(needle.visit_context_references_mut(visitor)),
            },
            ExpressionV1::StartsWith { value, prefix } => ExpressionV1::StartsWith {
                value: Box::new(value.visit_context_references_mut(visitor)),
                prefix: Box::new(prefix.visit_context_references_mut(visitor)),
            },
            ExpressionV1::EndsWith { value, suffix } => ExpressionV1::EndsWith {
                value: Box::new(value.visit_context_references_mut(visitor)),
                suffix: Box::new(suffix.visit_context_references_mut(visitor)),
            },
            ExpressionV1::In { needle, collection } => ExpressionV1::In {
                needle: Box::new(needle.visit_context_references_mut(visitor)),
                collection: Box::new(collection.visit_context_references_mut(visitor)),
            },
            ExpressionV1::Matches { value, pattern } => ExpressionV1::Matches {
                value: Box::new(value.visit_context_references_mut(visitor)),
                pattern: pattern.clone(),
            },
            ExpressionV1::Quantifier { quantifier, collection, binding, predicate } => ExpressionV1::Quantifier {
                quantifier: *quantifier,
                collection: Box::new(collection.visit_context_references_mut(visitor)),
                binding: binding.clone(),
                predicate: Box::new(predicate.visit_context_references_mut(visitor)),
            },
        }
    }
}

fn visit_list<F: Fn(&FieldRef) -> FieldRef>(items: &Vec<ExpressionV1>, visitor: &F) -> (res: Vec<
    ExpressionV1,
>)
    requires
        forall|field: &FieldRef| call_requires(*visitor, (field,)),
    ensures
        visited_list(*items, res, *visitor),
    decreases items, 0nat,
{
    let mut out: Vec<ExpressionV1> = Vec::new();
    let mut i: usize = 0;
    while i < items.len()
        invariant
            i <= items@.len(),
            out@.len() == i,
            forall|field: &FieldRef| call_requires(*visitor, (field,)),
            forall|k: int| 0 <= k < i ==> visited(#[trigger] items@[k], out@[k], *visitor),
        decreases items@.len() - i,
    {
        assert(decreases_to!(items@ => items@[i as int]));
        out.push(items[i].visit_context_references_mut(visitor));
        i = i + 1;
    }
    out
}

// ---------------------------------------------------------------------------
// Laws
// ---------------------------------------------------------------------------
/// Whether the visitor can make the second reference of the first.
pub open spec fn rewritten<F: Fn(&FieldRef) -> FieldRef>(
    visitor: F,
    before: FieldRefView,
    after: FieldRefView,
) -> bool {
    exists|a: FieldRef, b: FieldRef|
        a@ == before && b@ == after && #[trigger] call_ensures(visitor, (&a,), b)
}

/// Whether the second list holds, place by place, what the visitor makes of the first.
pub open spec fn all_rewritten<F: Fn(&FieldRef) -> FieldRef>(
    visitor: F,
    before: Seq<FieldRefView>,
    after: Seq<FieldRefView>,
) -> bool {
    before.len() == after.len() && forall|i: int|
        0 <= i < before.len() ==> rewritten(visitor, #[trigger] before[i], after[i])
}

/// The context references of an expression after a visit are the context references that it had
/// before, in the same order and number, each replaced by what the visitor made of it.
pub proof fn law_visited_references<F: Fn(&FieldRef) -> FieldRef>(
    old_expression: ExpressionV1,
    new_expression: ExpressionV1,
    visitor: F,
)
    requires
        visited(old_expression, new_expression, visitor),
    ensures
        all_rewritten(visitor, old_expression@.references(), new_expression@.references()),
    decreases old_expression, 0int,
{
    match (old_expression, new_expression) {
        (ExpressionV1::Ref { reference: a }, ExpressionV1::Ref { reference: b }) => {
            lemma_visited_reference(a, b, visitor);
        },
        (ExpressionV1::Exists { reference: a }, ExpressionV1::Exists { reference: b }) => {
            lemma_visited_reference(a, b, visitor);
        },
        (ExpressionV1::All { expressions: a }, ExpressionV1::All { expressions: b }) => {
            lemma_visited_list(a, b, visitor, a@.len() as int);
        },
        (ExpressionV1::Any { expressions: a }, ExpressionV1::Any { expressions: b }) => {
            lemma_visited_list(a, b, visitor, a@.len() as int);
        },
        (ExpressionV1::Not { expression: a }, ExpressionV1::Not { expression: b }) => {
            law_visited_references(*a, *b, visitor);
        },
        (ExpressionV1::IsNull { expression: a }, ExpressionV1::IsNull { expression: b }) => {
            law_visited_references(*a, *b, visitor);
        },
        (ExpressionV1::IsEmpty { expression: a }, ExpressionV1::IsEmpty { expression: b }) => {
            law_visited_references(*a, *b, visitor);
        },
        (
            ExpressionV1::Compare { left: a, right: c, .. },
            ExpressionV1::Compare { left: b, right: d, .. },
        ) => {
            law_visited_references(*a, *b, visitor);
            law_visited_references(*c, *d, visitor);
        },
        (
            ExpressionV1::Contains { value: a, needle: c },
            ExpressionV1::Contains { value: b, needle: d },
        ) => {
            law_visited_references(*a, *b, visitor);
            law_visited_references(*c, *d, visitor);
        },
        (
            ExpressionV1::StartsWith { value: a, prefix: c },
            ExpressionV1::StartsWith { value: b, prefix: d },
        ) => {
            law_visited_references(*a, *b, visitor);
            law_visited_references(*c, *d, visitor);
        },
        (
            ExpressionV1::EndsWith { value: a, suffix: c },
            ExpressionV1::EndsWith { value: b, suffix: d },
        ) => {
            law_visited_references(*a, *b, visitor);
            law_visited_references(*c, *d, visitor);
        },
        (
            ExpressionV1::In { needle: a, collection: c },
            ExpressionV1::In { needle: b, collection: d },
        ) => {
            law_visited_references(*a, *b, visitor);
            law_visited_references(*c, *d, visitor);
        },
        (ExpressionV1::Matches { value: a, .. }, ExpressionV1::Matches { value: b, .. }) => {
            law_visited_references(*a, *b, visitor);
        },
        (
            ExpressionV1::Quantifier { collection: a, predicate: c, .. },
            ExpressionV1::Quantifier { collection: b, predicate: d, .. },
        ) => {
            law_visited_references(*a, *b, visitor);
            law_visited_references(*c, *d, visitor);
        },
        _ => {},
    }
}

proof fn lemma_visited_reference<F: Fn(&FieldRef) -> FieldRef>(
    old_reference: ReferenceV1,
    new_reference: ReferenceV1,
    visitor: F,
)
    requires
        visited_reference(old_reference, new_reference, visitor),
    ensures
        all_rewritten(visitor, old_reference@.context(), new_reference@.context()),
{
}

/// The references of the first items of a list of expressions, and of what a visit made of them.
proof fn lemma_visited_list<F: Fn(&FieldRef) -> FieldRef>(
    old_list: Vec<ExpressionV1>,
    new_list: Vec<ExpressionV1>,
    visitor: F,
    count: int,
)
    requires
        visited_list(old_list, new_list, visitor),
        0 <= count <= old_list@.len(),
    ensures
        all_rewritten(
            visitor,
            references_of(expr_views(old_list@).take(count)),
            references_of(expr_views(new_list@).take(count)),
        ),
        count == old_list@.len() ==> expr_views(old_list@).take(count) == expr_views(old_list@),
        count == old_list@.len() ==> expr_views(new_list@).take(count) == expr_views(new_list@),
    decreases old_list, count,
{
    if count > 0 {
        let before = expr_views(old_list@);
        let after = expr_views(new_list@);
        assert(before.take(count).drop_last() =~= before.take(count - 1));
        assert(after.take(count).drop_last() =~= after.take(count - 1));
        assert(before.take(count).last() == old_list@[count - 1]@);
        assert(after.take(count).last() == new_list@[count - 1]@);
        lemma_visited_list(old_list, new_list, visitor, count - 1);
        assert(decreases_to!(old_list => old_list@[count - 1]));
        law_visited_references(old_list@[count - 1], new_list@[count - 1], visitor);
    }
}

} // verus!
