//! Loop aliases in expressions.
use vstd::prelude::*;

use crate::context::{
    clone_path, segment_views, ContextPathSegment, FieldRef, FieldRefView, SegmentView,
};
use crate::expr::{expr_views, saturated, ExprView, ExpressionV1, ReferenceV1, ReferenceView};
use crate::faults::{all_reported, group_reported, fault_if, Faults};
use crate::graph_error::{GraphErrorView, GraphFault, GraphValidationErrorKind};
use crate::names::has_name;
use crate::static_type::{identifier, is_identifier};
use crate::text::{owned, same_text, text_views};
use crate::text_map;
use crate::text_map::TextMap;

verus! {

broadcast use group_reported;

pub open spec fn alias_views(entries: Seq<(String, FieldRef)>) -> Seq<(Seq<char>, FieldRefView)> {
    entries.map_values(|entry: (String, FieldRef)| (entry.0@, entry.1@))
}

// ---------------------------------------------------------------------------
// Rewriting
// ---------------------------------------------------------------------------
/// A path of names.
pub open spec fn named_path(names: Seq<Seq<char>>) -> Seq<SegmentView> {
    names.map_values(|name: Seq<char>| SegmentView::Field { name })
}

/// A reference to a loop alias as the context reference that it stands for; the
/// names that quantifiers bind stay local.
pub open spec fn rewritten_reference(
    reference: ReferenceView,
    aliases: Seq<(Seq<char>, FieldRefView)>,
    bound: Seq<Seq<char>>,
) -> ReferenceView {
    match reference {
        ReferenceView::Local { binding, path } => if bound.contains(binding) {
            reference
        } else {
            match text_map::lookup(aliases, binding) {
                Some(field) => ReferenceView::Context {
                    field: FieldRefView {
                        scope: field.scope,
                        segments: field.segments + named_path(path),
                    },
                },
                None => reference,
            }
        },
        ReferenceView::Context { .. } => reference,
    }
}

/// An expression with its loop aliases replaced, down to a depth.
pub open spec fn rewritten(
    e: ExprView,
    aliases: Seq<(Seq<char>, FieldRefView)>,
    bound: Seq<Seq<char>>,
    depth: nat,
    max_depth: nat,
) -> ExprView
    decreases e,
{
    let below = saturated(depth + 1);
    if depth > max_depth {
        e
    } else {
        match e {
            ExprView::Literal { .. } => e,
            ExprView::Ref { reference } => ExprView::Ref {
                reference: rewritten_reference(reference, aliases, bound),
            },
            ExprView::Exists { reference } => ExprView::Exists {
                reference: rewritten_reference(reference, aliases, bound),
            },
            ExprView::All { expressions } => ExprView::All {
                expressions: rewritten_all(expressions, aliases, bound, below, max_depth),
            },
            ExprView::Any { expressions } => ExprView::Any {
                expressions: rewritten_all(expressions, aliases, bound, below, max_depth),
            },
            ExprView::Not { expression } => ExprView::Not {
                expression: Box::new(rewritten(*expression, aliases, bound, below, max_depth)),
            },
            ExprView::IsNull { expression } => ExprView::IsNull {
                expression: Box::new(rewritten(*expression, aliases, bound, below, max_depth)),
            },
            ExprView::IsEmpty { expression } => ExprView::IsEmpty {
                expression: Box::new(rewritten(*expression, aliases, bound, below, max_depth)),
            },
            ExprView::Compare { operator, left, right } => ExprView::Compare {
                operator,
                left: Box::new(rewritten(*left, aliases, bound, below, max_depth)),
                right: Box::new(rewritten(*right, aliases, bound, below, max_depth)),
            },
            ExprView::Contains { value, needle } => ExprView::Contains {
                value: Box::new(rewritten(*value, aliases, bound, below, max_depth)),
                needle: Box::new(rewritten(*needle, aliases, bound, below, max_depth)),
            },
            ExprView::StartsWith { value, prefix } => ExprView::StartsWith {
                value: Box::new(rewritten(*value, aliases, bound, below, max_depth)),
                prefix: Box::new(rewritten(*prefix, aliases, bound, below, max_depth)),
            },
            ExprView::EndsWith { value, suffix } => ExprView::EndsWith {
                value: Box::new(rewritten(*value, aliases, bound, below, max_depth)),
                suffix: Box::new(rewritten(*suffix, aliases, bound, below, max_depth)),
            },
            ExprView::Matches { value, pattern } => ExprView::Matches {
                value: Box::new(rewritten(*value, aliases, bound, below, max_depth)),
                pattern,
            },
            ExprView::In { needle, collection } => ExprView::In {
                needle: Box::new(rewritten(*needle, aliases, bound, below, max_depth)),
                collection: Box::new(rewritten(*collection, aliases, bound, below, max_depth)),
            },
            ExprView::Quantifier { quantifier, collection, binding, predicate } =>
                ExprView::Quantifier {
                quantifier,
                collection: Box::new(rewritten(*collection, aliases, bound, below, max_depth)),
                binding,
                predicate: Box::new(
                    rewritten(*predicate, aliases, bound.push(binding), below, max_depth),
                ),
            },
        }
    }
}

pub open spec fn rewritten_all(
    items: Seq<ExprView>,
    aliases: Seq<(Seq<char>, FieldRefView)>,
    bound: Seq<Seq<char>>,
    depth: nat,
    max_depth: nat,
) -> Seq<ExprView>
    decreases items,
{
    Seq::new(
        items.len(),
        |i: int|
            if 0 <= i < items.len() {
                rewritten(items[i], aliases, bound, depth, max_depth)
            } else {
                arbitrary()
            },
    )
}

/// The reference that an alias stands for.
pub fn find_alias<'a>(aliases: &'a TextMap<FieldRef>, name: &str) -> (res: Option<&'a FieldRef>)
    ensures
        match res {
            Some(field) => text_map::lookup(alias_views(aliases.entries@), name@) == Some(field@),
            None => text_map::lookup(alias_views(aliases.entries@), name@) is None,
        },
{
    let ghost views = alias_views(aliases.entries@);
    let mut i: usize = 0;
    while i < aliases.entries.len()
        invariant
            i <= aliases.entries@.len(),
            views == alias_views(aliases.entries@),
            forall|j: int| 0 <= j < i ==> (#[trigger] views[j]).0 != name@,
        decreases aliases.entries@.len() - i,
    {
        assert(views[i as int] == (
            aliases.entries@[i as int].0@,
            aliases.entries@[i as int].1@,
        ));
        if same_text(&aliases.entries[i].0, name) {
            proof {
                text_map::lemma_index_of(views, name@, i as int);
            }
            return Some(&aliases.entries[i].1);
        }
        i = i + 1;
    }
    proof {
        text_map::lemma_index_of(views, name@, views.len() as int);
    }
    None
}

fn rewrite_reference(
    reference: &ReferenceV1,
    aliases: &TextMap<FieldRef>,
    bound: &Vec<String>,
) -> (res: ReferenceV1)
    ensures
        res@ == rewritten_reference(
            reference@,
            alias_views(aliases.entries@),
            text_views(bound@),
        ),
{
    match reference {
        ReferenceV1::Context { .. } => reference.clone(),
        ReferenceV1::Local { binding, path } => {
            if has_name(bound, binding) {
                return reference.clone();
            }
            match find_alias(aliases, binding) {
                None => reference.clone(),
                Some(field) => {
                    let mut segments = clone_path(field.segments.as_slice());
                    let ghost start = segment_views(segments@);
                    let ghost names = text_views(path@);
                    let ghost all = named_path(names);
                    let mut i: usize = 0;
                    assert(start + all.take(0) =~= start);
                    while i < path.len()
                        invariant
                            i <= path@.len(),
                            names == text_views(path@),
                            all == named_path(names),
                            segment_views(segments@) == start + all.take(i as int),
                        decreases path@.len() - i,
                    {
                        let ghost was = segment_views(segments@);
                        segments.push(ContextPathSegment::field(&path[i]));
                        proof {
                            assert(names[i as int] == path@[i as int]@);
                            assert(segment_views(segments@) =~= was.push(all[i as int]));
                            assert(was.push(all[i as int]) =~= start + all.take(i + 1));
                        }
                        i = i + 1;
                    }
                    assert(all.take(i as int) =~= all);
                    ReferenceV1::Context {
                        field: FieldRef { scope: field.scope.clone(), segments },
                    }
                },
            }
        },
    }
}

/// Replaces the loop aliases of an expression by the references that they stand
/// for.
pub fn rewrite_graph_aliases(
    e: &ExpressionV1,
    aliases: &TextMap<FieldRef>,
    bound: &mut Vec<String>,
    depth: usize,
    max_depth: usize,
) -> (res: ExpressionV1)
    ensures
        text_views(final(bound)@) == text_views(old(bound)@),
        res@ == rewritten(
            e@,
            alias_views(aliases.entries@),
            text_views(old(bound)@),
            depth as nat,
            max_depth as nat,
        ),
    decreases e, 1int,
{
    if depth > max_depth {
        return e.clone();
    }
    let below: usize = depth.saturating_add(1);
    match e {
        ExpressionV1::Literal { .. } => e.clone(),
        ExpressionV1::Ref { reference } => ExpressionV1::Ref {
            reference: rewrite_reference(reference, aliases, bound),
        },
        ExpressionV1::Exists { reference } => ExpressionV1::Exists {
            reference: rewrite_reference(reference, aliases, bound),
        },
        ExpressionV1::All { expressions } => ExpressionV1::All {
            expressions: rewrite_all(expressions, aliases, bound, below, max_depth),
        },
        ExpressionV1::Any { expressions } => ExpressionV1::Any {
            expressions: rewrite_all(expressions, aliases, bound, below, max_depth),
        },
        ExpressionV1::Not { expression } => ExpressionV1::Not {
            expression: Box::new(
                rewrite_graph_aliases(expression, aliases, bound, below, max_depth),
            ),
        },
        ExpressionV1::IsNull { expression } => ExpressionV1::IsNull {
            expression: Box::new(
                rewrite_graph_aliases(expression, aliases, bound, below, max_depth),
            ),
        },
        ExpressionV1::IsEmpty { expression } => ExpressionV1::IsEmpty {
            expression: Box::new(
                rewrite_graph_aliases(expression, aliases, bound, below, max_depth),
            ),
        },
        ExpressionV1::Compare { operator, left, right } => {
            let l = rewrite_graph_aliases(left, aliases, bound, below, max_depth);
            let r = rewrite_graph_aliases(right, aliases, bound, below, max_depth);
            ExpressionV1::Compare { operator: *operator, left: Box::new(l), right: Box::new(r) }
        },
        ExpressionV1::Contains { value, needle } => {
            let l = rewrite_graph_aliases(value, aliases, bound, below, max_depth);
            let r = rewrite_graph_aliases(needle, aliases, bound, below, max_depth);
            ExpressionV1::Contains { value: Box::new(l), needle: Box::new(r) }
        },
        ExpressionV1::StartsWith { value, prefix } => {
            let l = rewrite_graph_aliases(value, aliases, bound, below, max_depth);
            let r = rewrite_graph_aliases(prefix, aliases, bound, below, max_depth);
            ExpressionV1::StartsWith { value: Box::new(l), prefix: Box::new(r) }
        },
        ExpressionV1::EndsWith { value, suffix } => {
            let l = rewrite_graph_aliases(value, aliases, bound, below, max_depth);
            let r = rewrite_graph_aliases(suffix, aliases, bound, below, max_depth);
            ExpressionV1::EndsWith { value: Box::new(l), suffix: Box::new(r) }
        },
        ExpressionV1::Matches { value, pattern } => ExpressionV1::Matches {
            value: Box::new(rewrite_graph_aliases(value, aliases, bound, below, max_depth)),
            pattern: pattern.clone(),
        },
        ExpressionV1::In { needle, collection } => {
            let l = rewrite_graph_aliases(needle, aliases, bound, below, max_depth);
            let r = rewrite_graph_aliases(collection, aliases, bound, below, max_depth);
            ExpressionV1::In { needle: Box::new(l), collection: Box::new(r) }
        },
        ExpressionV1::Quantifier { quantifier, collection, binding, predicate } => {
            let l = rewrite_graph_aliases(collection, aliases, bound, below, max_depth);
            let ghost before = text_views(bound@);
            bound.push(binding.clone());
            assert(text_views(bound@) =~= before.push(binding@));
            let r = rewrite_graph_aliases(predicate, aliases, bound, below, max_depth);
            let ghost inside = text_views(bound@);
            bound.pop();
            assert(text_views(bound@) =~= inside.drop_last());
            assert(before.push(binding@).drop_last() =~= before);
            ExpressionV1::Quantifier {
                quantifier: *quantifier,
                collection: Box::new(l),
                binding: binding.clone(),
                predicate: Box::new(r),
            }
        },
    }
}

fn rewrite_all(
    items: &Vec<ExpressionV1>,
    aliases: &TextMap<FieldRef>,
    bound: &mut Vec<String>,
    depth: usize,
    max_depth: usize,
) -> (res: Vec<ExpressionV1>)
    ensures
        text_views(final(bound)@) == text_views(old(bound)@),
        expr_views(res@) == rewritten_all(
            expr_views(items@),
            alias_views(aliases.entries@),
            text_views(old(bound)@),
            depth as nat,
            max_depth as nat,
        ),
    decreases items, 0int,
{
    let ghost views = expr_views(items@);
    let ghost names = alias_views(aliases.entries@);
    let ghost start = text_views(bound@);
    let mut res: Vec<ExpressionV1> = Vec::new();
    let mut i: usize = 0;
    while i < items.len()
        invariant
            i <= items@.len(),
            views == expr_views(items@),
            names == alias_views(aliases.entries@),
            start == text_views(bound@),
            start == text_views(old(bound)@),
            res@.len() == i,
            forall|j: int|
                0 <= j < i ==> (#[trigger] res@[j])@ == rewritten(
                    views[j],
                    names,
                    start,
                    depth as nat,
                    max_depth as nat,
                ),
        decreases items@.len() - i,
    {
        assert(decreases_to!(items@ => items@[i as int]));
        assert(views[i as int] == items@[i as int]@);
        let next = rewrite_graph_aliases(&items[i], aliases, bound, depth, max_depth);
        res.push(next);
        i = i + 1;
    }
    assert(expr_views(res@) =~= rewritten_all(
        views,
        names,
        start,
        depth as nat,
        max_depth as nat,
    ));
    res
}

// ---------------------------------------------------------------------------
// Names
// ---------------------------------------------------------------------------
/// What is wrong with a new alias: it is no identifier, or it hides another.
pub open spec fn alias_fault(
    alias: Seq<char>,
    node: Seq<char>,
    path: Seq<char>,
    aliases: Seq<(Seq<char>, FieldRefView)>,
) -> Seq<GraphErrorView> {
    if !identifier(alias) {
        fault_if(true, path, GraphFault::InvalidAlias { node, alias })
    } else {
        fault_if(
            text_map::has_key(aliases, alias),
            path,
            GraphFault::ShadowedAlias { node, alias },
        )
    }
}

pub fn validate_alias(
    alias: &str,
    node: &str,
    path: &str,
    aliases: &TextMap<FieldRef>,
    faults: &mut Faults,
)
    ensures
        final(faults)@ == all_reported(
            old(faults)@,
            alias_fault(alias@, node@, path@, alias_views(aliases.entries@)),
        ),
{
    if !is_identifier(alias) {
        faults.report(
            path,
            GraphValidationErrorKind::InvalidAlias { node: owned(node), alias: owned(alias) },
        );
    } else if find_alias(aliases, alias).is_some() {
        faults.report(
            path,
            GraphValidationErrorKind::ShadowedAlias { node: owned(node), alias: owned(alias) },
        );
    }
}

/// What is wrong with the names that quantifiers bind in an expression, outer
/// ones before inner ones and later operands before earlier ones.
pub open spec fn binding_faults(
    e: ExprView,
    node: Seq<char>,
    path: Seq<char>,
    aliases: Seq<(Seq<char>, FieldRefView)>,
) -> Seq<GraphErrorView>
    decreases e, 1int,
{
    match e {
        ExprView::Literal { .. } => Seq::empty(),
        ExprView::Ref { .. } => Seq::empty(),
        ExprView::Exists { .. } => Seq::empty(),
        ExprView::All { expressions } => binding_faults_of(
            expressions,
            expressions.len(),
            node,
            path,
            aliases,
        ),
        ExprView::Any { expressions } => binding_faults_of(
            expressions,
            expressions.len(),
            node,
            path,
            aliases,
        ),
        ExprView::Not { expression } => binding_faults(*expression, node, path, aliases),
        ExprView::IsNull { expression } => binding_faults(*expression, node, path, aliases),
        ExprView::IsEmpty { expression } => binding_faults(*expression, node, path, aliases),
        ExprView::Matches { value, .. } => binding_faults(*value, node, path, aliases),
        ExprView::Compare { left, right, .. } => binding_faults(*right, node, path, aliases)
            + binding_faults(*left, node, path, aliases),
        ExprView::Contains { value, needle } => binding_faults(*needle, node, path, aliases)
            + binding_faults(*value, node, path, aliases),
        ExprView::StartsWith { value, prefix } => binding_faults(*prefix, node, path, aliases)
            + binding_faults(*value, node, path, aliases),
        ExprView::EndsWith { value, suffix } => binding_faults(*suffix, node, path, aliases)
            + binding_faults(*value, node, path, aliases),
        ExprView::In { needle, collection } => binding_faults(*collection, node, path, aliases)
            + binding_faults(*needle, node, path, aliases),
        ExprView::Quantifier { collection, binding, predicate, .. } => alias_fault(
            binding,
            node,
            path,
            aliases,
        ) + binding_faults(*predicate, node, path, aliases) + binding_faults(
            *collection,
            node,
            path,
            aliases,
        ),
    }
}

/// The same of the first `n` operands.
pub open spec fn binding_faults_of(
    items: Seq<ExprView>,
    n: nat,
    node: Seq<char>,
    path: Seq<char>,
    aliases: Seq<(Seq<char>, FieldRefView)>,
) -> Seq<GraphErrorView>
    decreases items, n,
{
    if n == 0 || n > items.len() {
        Seq::empty()
    } else {
        binding_faults(items[n - 1], node, path, aliases) + binding_faults_of(
            items,
            (n - 1) as nat,
            node,
            path,
            aliases,
        )
    }
}

pub fn validate_quantifier_aliases(
    e: &ExpressionV1,
    node: &str,
    path: &str,
    aliases: &TextMap<FieldRef>,
    faults: &mut Faults,
)
    ensures
        final(faults)@ == all_reported(
            old(faults)@,
            binding_faults(e@, node@, path@, alias_views(aliases.entries@)),
        ),
    decreases e, 1int,
{
    match e {
        ExpressionV1::Literal { .. } | ExpressionV1::Ref { .. } | ExpressionV1::Exists { .. } => {},
        ExpressionV1::All { expressions } | ExpressionV1::Any { expressions } => {
            validate_all_aliases(expressions, node, path, aliases, faults);
        },
        ExpressionV1::Not { expression }
        | ExpressionV1::IsNull { expression }
        | ExpressionV1::IsEmpty { expression } => {
            validate_quantifier_aliases(expression, node, path, aliases, faults);
        },
        ExpressionV1::Matches { value, .. } => {
            validate_quantifier_aliases(value, node, path, aliases, faults);
        },
        ExpressionV1::Compare { left, right, .. } => {
            validate_quantifier_aliases(right, node, path, aliases, faults);
            validate_quantifier_aliases(left, node, path, aliases, faults);
        },
        ExpressionV1::Contains { value, needle } => {
            validate_quantifier_aliases(needle, node, path, aliases, faults);
            validate_quantifier_aliases(value, node, path, aliases, faults);
        },
        ExpressionV1::StartsWith { value, prefix } => {
            validate_quantifier_aliases(prefix, node, path, aliases, faults);
            validate_quantifier_aliases(value, node, path, aliases, faults);
        },
        ExpressionV1::EndsWith { value, suffix } => {
            validate_quantifier_aliases(suffix, node, path, aliases, faults);
            validate_quantifier_aliases(value, node, path, aliases, faults);
        },
        ExpressionV1::In { needle, collection } => {
            validate_quantifier_aliases(collection, node, path, aliases, faults);
            validate_quantifier_aliases(needle, node, path, aliases, faults);
        },
        ExpressionV1::Quantifier { collection, binding, predicate, .. } => {
            validate_alias(binding, node, path, aliases, faults);
            validate_quantifier_aliases(predicate, node, path, aliases, faults);
            validate_quantifier_aliases(collection, node, path, aliases, faults);
        },
    }
}

fn validate_all_aliases(
    items: &Vec<ExpressionV1>,
    node: &str,
    path: &str,
    aliases: &TextMap<FieldRef>,
    faults: &mut Faults,
)
    ensures
        final(faults)@ == all_reported(
            old(faults)@,
            binding_faults_of(
                expr_views(items@),
                items@.len(),
                node@,
                path@,
                alias_views(aliases.entries@),
            ),
        ),
    decreases items, 0int,
{
    let ghost views = expr_views(items@);
    let ghost names = alias_views(aliases.entries@);
    let mut n: usize = items.len();
    while n > 0
        invariant
            n <= items@.len(),
            views == expr_views(items@),
            names == alias_views(aliases.entries@),
            all_reported(
                old(faults)@,
                binding_faults_of(views, items@.len(), node@, path@, names),
            ) == all_reported(
                faults@,
                binding_faults_of(views, n as nat, node@, path@, names),
            ),
        decreases n,
    {
        n = n - 1;
        assert(decreases_to!(items@ => items@[n as int]));
        assert(views[n as int] == items@[n as int]@);
        validate_quantifier_aliases(&items[n], node, path, aliases, faults);
    }
}

/// Rewriting leaves alone what no alias concerns: without aliases an expression
/// stays as it is.
pub proof fn law_no_aliases_no_change(
    e: ExprView,
    bound: Seq<Seq<char>>,
    depth: nat,
    max_depth: nat,
)
    ensures
        rewritten(e, Seq::empty(), bound, depth, max_depth) == e,
    decreases e,
{
    let below = saturated(depth + 1);
    if depth <= max_depth {
        match e {
            ExprView::All { expressions } => {
                lemma_no_aliases_in_list(expressions, bound, below, max_depth);
            },
            ExprView::Any { expressions } => {
                lemma_no_aliases_in_list(expressions, bound, below, max_depth);
            },
            ExprView::Not { expression } => {
                law_no_aliases_no_change(*expression, bound, below, max_depth);
            },
            ExprView::IsNull { expression } => {
                law_no_aliases_no_change(*expression, bound, below, max_depth);
            },
            ExprView::IsEmpty { expression } => {
                law_no_aliases_no_change(*expression, bound, below, max_depth);
            },
            ExprView::Matches { value, .. } => {
                law_no_aliases_no_change(*value, bound, below, max_depth);
            },
            ExprView::Compare { left, right, .. } => {
                law_no_aliases_no_change(*left, bound, below, max_depth);
                law_no_aliases_no_change(*right, bound, below, max_depth);
            },
            ExprView::Contains { value, needle } => {
                law_no_aliases_no_change(*value, bound, below, max_depth);
                law_no_aliases_no_change(*needle, bound, below, max_depth);
            },
            ExprView::StartsWith { value, prefix } => {
                law_no_aliases_no_change(*value, bound, below, max_depth);
                law_no_aliases_no_change(*prefix, bound, below, max_depth);
            },
            ExprView::EndsWith { value, suffix } => {
                law_no_aliases_no_change(*value, bound, below, max_depth);
                law_no_aliases_no_change(*suffix, bound, below, max_depth);
            },
            ExprView::In { needle, collection } => {
                law_no_aliases_no_change(*needle, bound, below, max_depth);
                law_no_aliases_no_change(*collection, bound, below, max_depth);
            },
            ExprView::Quantifier { collection, binding, predicate, .. } => {
                law_no_aliases_no_change(*collection, bound, below, max_depth);
                law_no_aliases_no_change(*predicate, bound.push(binding), below, max_depth);
            },
            _ => {},
        }
    }
}

proof fn lemma_no_aliases_in_list(
    items: Seq<ExprView>,
    bound: Seq<Seq<char>>,
    depth: nat,
    max_depth: nat,
)
    ensures
        rewritten_all(items, Seq::empty(), bound, depth, max_depth) == items,
    decreases items,
{
    let out = rewritten_all(items, Seq::empty(), bound, depth, max_depth);
    assert forall|i: int| 0 <= i < items.len() implies #[trigger] out[i] == items[i] by {
        assert(decreases_to!(items => items[i]));
        law_no_aliases_no_change(items[i], bound, depth, max_depth);
        assert(out[i] == rewritten(items[i], Seq::empty(), bound, depth, max_depth));
    }
    assert(out =~= items);
}

/// A reference to a loop alias becomes the reference that the alias stands for, with the names
/// behind the alias as further fields. A name that a quantifier binds stays, as does a name that
/// is no alias and a reference into the context.
pub proof fn law_aliases_are_replaced(
    aliases: Seq<(Seq<char>, FieldRefView)>,
    bound: Seq<Seq<char>>,
    binding: Seq<char>,
    path: Seq<Seq<char>>,
    field: FieldRefView,
    k: int,
)
    ensures
        ({
            let local = ReferenceView::Local { binding, path };
            let context = ReferenceView::Context { field };
            let out = rewritten_reference(local, aliases, bound);
            &&& rewritten_reference(context, aliases, bound) == context
            &&& bound.contains(binding) ==> out == local
            &&& text_map::lookup(aliases, binding) is None ==> out == local
            &&& !bound.contains(binding) ==> (text_map::lookup(aliases, binding) matches Some(to)
                ==> {
                &&& out matches ReferenceView::Context { field: at }
                &&& at.scope == to.scope
                &&& at.segments.len() == to.segments.len() + path.len()
                &&& 0 <= k < to.segments.len() ==> at.segments[k] == to.segments[k]
                &&& 0 <= k < path.len() ==> at.segments[to.segments.len() + k] == (
                SegmentView::Field { name: path[k] })
            })
        }),
{
}

} // verus!
