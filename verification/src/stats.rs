//! Sizes of expressions, values and references, taken without recursion.
use vstd::prelude::*;

use crate::context::{
    segment_views, ContextPathSegment, ContextScope, FieldRef, FieldRefView, ScopeView,
    SegmentView,
};
use crate::expr::{
    entry_views, expr_views, list_views, saturated, ExprValueView, ExprView, ExpressionLimits,
    ExpressionV1, ExpressionValue, ReferenceV1, ReferenceView,
};
use crate::graph::{
    GRAPH_MAX_LITERAL_STRING_BYTES, GRAPH_MAX_SERIALIZED_COMPONENT_BYTES, GRAPH_MAX_VALUE_DEPTH,
    GRAPH_MAX_VALUE_NODES,
};
use crate::json::{member_views, value_views, Value, ValueView};
use crate::pieces::{tally, value_pieces, ByteCounter};
use crate::target::BindingLimits;
use crate::text;
use crate::text::{owned, text_len, text_views};

verus! {

/// A limit that was exceeded, and what was found against it.
#[derive(Debug, PartialEq, Eq)]
pub struct StaticLimitExceeded {
    pub resource: String,
    pub found: usize,
    pub limit: usize,
}

pub struct LimitView {
    pub resource: Seq<char>,
    pub found: nat,
    pub limit: nat,
}

/// Nodes and bytes of payload.
#[derive(Debug, Clone, Copy, PartialEq, Eq, Structural)]
pub struct StaticTreeStats {
    pub nodes: usize,
    pub payload_bytes: usize,
}

impl StaticLimitExceeded {
    pub open spec fn view(&self) -> LimitView {
        LimitView {
            resource: self.resource@,
            found: self.found as nat,
            limit: self.limit as nat,
        }
    }

    fn new(resource: &str, found: usize, limit: usize) -> (res: Self)
        ensures
            res@ == over(resource@, found as nat, limit as nat),
    {
        StaticLimitExceeded { resource: owned(resource), found, limit }
    }
}

pub open spec fn over(resource: Seq<char>, found: nat, limit: nat) -> LimitView {
    LimitView { resource, found, limit }
}

/// A number of bytes added to what was counted, under a limit on each text.
pub open spec fn charged(
    bytes: nat,
    s: Seq<char>,
    resource: Seq<char>,
    limit: nat,
) -> Result<nat, LimitView> {
    if text::byte_len(s) > limit {
        Err(over(resource, text::byte_len(s), limit))
    } else {
        Ok(saturated(bytes + text::byte_len(s)))
    }
}

fn charge(bytes: usize, s: &str, resource: &str, limit: usize) -> (res: Result<
    usize,
    StaticLimitExceeded,
>)
    ensures
        counts(res, charged(bytes as nat, s@, resource@, limit as nat)),
{
    let n: usize = text_len(s);
    if n > limit {
        Err(StaticLimitExceeded::new(resource, n, limit))
    } else {
        Ok(bytes.saturating_add(n))
    }
}

pub open spec fn counts(
    res: Result<usize, StaticLimitExceeded>,
    want: Result<nat, LimitView>,
) -> bool {
    match res {
        Ok(n) => want == Ok::<nat, LimitView>(n as nat),
        Err(e) => want == Err::<nat, LimitView>(e@),
    }
}

// ---------------------------------------------------------------------------
// References
// ---------------------------------------------------------------------------
/// The bytes of the names on a path from its `i`-th segment on.
pub open spec fn path_bytes(
    path: Seq<SegmentView>,
    resource: Seq<char>,
    limit: nat,
    i: nat,
    bytes: nat,
) -> Result<nat, LimitView>
    decreases path.len() - i,
{
    if i >= path.len() {
        Ok(bytes)
    } else {
        match path[i as int] {
            SegmentView::Field { name } => match charged(bytes, name, resource, limit) {
                Err(e) => Err(e),
                Ok(bytes) => path_bytes(path, resource, limit, i + 1, bytes),
            },
            SegmentView::Index { .. } => path_bytes(path, resource, limit, i + 1, bytes),
        }
    }
}

fn count_path(path: &Vec<ContextPathSegment>, resource: &str, limit: usize, start: usize) -> (res:
    Result<usize, StaticLimitExceeded>)
    ensures
        counts(res, path_bytes(segment_views(path@), resource@, limit as nat, 0, start as nat)),
{
    let ghost views = segment_views(path@);
    let mut bytes: usize = start;
    let mut i: usize = 0;
    while i < path.len()
        invariant
            i <= path@.len(),
            views == segment_views(path@),
            path_bytes(views, resource@, limit as nat, 0, start as nat) == path_bytes(
                views,
                resource@,
                limit as nat,
                i as nat,
                bytes as nat,
            ),
        decreases path@.len() - i,
    {
        assert(views[i as int] == path@[i as int]@);
        match &path[i] {
            ContextPathSegment::Field { name } => match charge(bytes, name, resource, limit) {
                Err(e) => {
                    return Err(e);
                },
                Ok(n) => {
                    bytes = n;
                },
            },
            ContextPathSegment::Index { .. } => {},
        }
        i = i + 1;
    }
    Ok(bytes)
}

/// The bytes of names from the `i`-th on.
pub open spec fn names_bytes(
    names: Seq<Seq<char>>,
    resource: Seq<char>,
    limit: nat,
    i: nat,
    bytes: nat,
) -> Result<nat, LimitView>
    decreases names.len() - i,
{
    if i >= names.len() {
        Ok(bytes)
    } else {
        match charged(bytes, names[i as int], resource, limit) {
            Err(e) => Err(e),
            Ok(bytes) => names_bytes(names, resource, limit, i + 1, bytes),
        }
    }
}

fn count_names(names: &Vec<String>, resource: &str, limit: usize, start: usize) -> (res: Result<
    usize,
    StaticLimitExceeded,
>)
    ensures
        counts(res, names_bytes(text_views(names@), resource@, limit as nat, 0, start as nat)),
{
    let ghost views = text_views(names@);
    let mut bytes: usize = start;
    let mut i: usize = 0;
    while i < names.len()
        invariant
            i <= names@.len(),
            views == text_views(names@),
            names_bytes(views, resource@, limit as nat, 0, start as nat) == names_bytes(
                views,
                resource@,
                limit as nat,
                i as nat,
                bytes as nat,
            ),
        decreases names@.len() - i,
    {
        assert(views[i as int] == names@[i as int]@);
        match charge(bytes, &names[i], resource, limit) {
            Err(e) => {
                return Err(e);
            },
            Ok(n) => {
                bytes = n;
            },
        }
        i = i + 1;
    }
    Ok(bytes)
}

pub open spec fn scope_name(scope: ScopeView) -> Option<Seq<char>> {
    match scope {
        ScopeView::Scenario => None,
        ScopeView::Step { step_id } => Some(step_id),
        ScopeView::LoopItem { step_id } => Some(step_id),
    }
}

pub open spec fn scope_bytes(scope: ScopeView, resource: Seq<char>, limit: nat) -> Result<
    nat,
    LimitView,
> {
    match scope_name(scope) {
        None => Ok(0),
        Some(name) => charged(0, name, resource, limit),
    }
}

fn count_scope(scope: &ContextScope, resource: &str, limit: usize) -> (res: Result<
    usize,
    StaticLimitExceeded,
>)
    ensures
        counts(res, scope_bytes(scope@, resource@, limit as nat)),
{
    match scope {
        ContextScope::Scenario => Ok(0),
        ContextScope::Step { step_id } => charge(0, step_id, resource, limit),
        ContextScope::LoopItem { step_id } => charge(0, step_id, resource, limit),
    }
}

pub open spec fn longest_path() -> nat {
    32
}

/// The bytes of a reference in an expression.
pub open spec fn reference_bytes(reference: ReferenceView, limits: ExpressionLimits) -> Result<
    nat,
    LimitView,
> {
    let limit = limits.max_string_bytes as nat;
    match reference {
        ReferenceView::Context { field } => match scope_bytes(
            field.scope,
            "expression context scope bytes"@,
            limit,
        ) {
            Err(e) => Err(e),
            Ok(bytes) => if field.segments.len() > longest_path() {
                Err(
                    over(
                        "expression context path segments"@,
                        field.segments.len(),
                        longest_path(),
                    ),
                )
            } else {
                path_bytes(field.segments, "expression context path bytes"@, limit, 0, bytes)
            },
        },
        ReferenceView::Local { binding, path } => match charged(
            0,
            binding,
            "expression local binding bytes"@,
            limit,
        ) {
            Err(e) => Err(e),
            Ok(bytes) => if path.len() > longest_path() {
                Err(over("expression local path segments"@, path.len(), longest_path()))
            } else {
                names_bytes(path, "expression local path bytes"@, limit, 0, bytes)
            },
        },
    }
}

fn validate_reference_budget(reference: &ReferenceV1, limits: ExpressionLimits) -> (res: Result<
    usize,
    StaticLimitExceeded,
>)
    ensures
        counts(res, reference_bytes(reference@, limits)),
{
    let limit: usize = limits.max_string_bytes;
    match reference {
        ReferenceV1::Context { field } => {
            let bytes: usize = match count_scope(
                &field.scope,
                "expression context scope bytes",
                limit,
            ) {
                Err(e) => {
                    return Err(e);
                },
                Ok(n) => n,
            };
            let n: usize = field.segments.len();
            let most: usize = BindingLimits::default().max_path_segments;
            if n > most {
                return Err(StaticLimitExceeded::new("expression context path segments", n, most));
            }
            count_path(&field.segments, "expression context path bytes", limit, bytes)
        },
        ReferenceV1::Local { binding, path } => {
            let bytes: usize = match charge(0, binding, "expression local binding bytes", limit) {
                Err(e) => {
                    return Err(e);
                },
                Ok(n) => n,
            };
            let n: usize = path.len();
            let most: usize = BindingLimits::default().max_path_segments;
            if n > most {
                return Err(StaticLimitExceeded::new("expression local path segments", n, most));
            }
            count_names(path, "expression local path bytes", limit, bytes)
        },
    }
}

/// The bytes of a reference in a binding.
pub open spec fn field_bytes(field: FieldRefView) -> Result<nat, LimitView> {
    let limit = GRAPH_MAX_LITERAL_STRING_BYTES as nat;
    match scope_bytes(field.scope, "binding context scope bytes"@, limit) {
        Err(e) => Err(e),
        Ok(bytes) => path_bytes(field.segments, "binding context path bytes"@, limit, 0, bytes),
    }
}

pub fn field_ref_payload_bytes(field: &FieldRef) -> (res: Result<usize, StaticLimitExceeded>)
    ensures
        counts(res, field_bytes(field@)),
{
    let limit: usize = GRAPH_MAX_LITERAL_STRING_BYTES;
    match count_scope(&field.scope, "binding context scope bytes", limit) {
        Err(e) => Err(e),
        Ok(bytes) => count_path(&field.segments, "binding context path bytes", limit, bytes),
    }
}

// ---------------------------------------------------------------------------
// Expressions
// ---------------------------------------------------------------------------
/// What waits to be counted, with its depth.
pub enum WalkItem {
    Expression(ExprView, nat),
    Value(ExprValueView, nat),
}

/// The bytes of the keys of an object from the `i`-th on.
pub open spec fn key_bytes<T>(
    members: Seq<(Seq<char>, T)>,
    resource: Seq<char>,
    limit: nat,
    i: nat,
    bytes: nat,
) -> Result<nat, LimitView>
    decreases members.len() - i,
{
    if i >= members.len() {
        Ok(bytes)
    } else {
        match charged(bytes, members[i as int].0, resource, limit) {
            Err(e) => Err(e),
            Ok(bytes) => key_bytes(members, resource, limit, i + 1, bytes),
        }
    }
}

/// How many nodes there will be at least.
pub open spec fn prospect(visited: nat, pending: nat, adding: nat) -> nat {
    saturated(saturated(visited + pending) + adding)
}

/// What counting one value adds: the parts to count next, and the bytes so far.
pub open spec fn value_opened(
    limits: ExpressionLimits,
    value: ExprValueView,
    depth: nat,
    pending: nat,
    nodes: nat,
    bytes: nat,
) -> Result<(Seq<WalkItem>, nat), LimitView> {
    match value {
        ExprValueView::String(s) => match charged(
            bytes,
            s,
            "expression string bytes"@,
            limits.max_string_bytes as nat,
        ) {
            Err(e) => Err(e),
            Ok(bytes) => Ok((Seq::empty(), bytes)),
        },
        ExprValueView::List(values) => {
            let found = prospect(nodes, pending, values.len());
            if found > limits.max_nodes {
                Err(over("expression nodes"@, found, limits.max_nodes as nat))
            } else {
                Ok((values.map_values(|v: ExprValueView| WalkItem::Value(v, depth + 1)), bytes))
            }
        },
        ExprValueView::Object(values) => {
            let found = prospect(nodes, pending, values.len());
            if found > limits.max_nodes {
                Err(over("expression nodes"@, found, limits.max_nodes as nat))
            } else {
                match key_bytes(
                    values,
                    "expression object key bytes"@,
                    limits.max_string_bytes as nat,
                    0,
                    bytes,
                ) {
                    Err(e) => Err(e),
                    Ok(bytes) => Ok(
                        (
                            values.map_values(
                                |v: (Seq<char>, ExprValueView)| WalkItem::Value(v.1, depth + 1),
                            ),
                            bytes,
                        ),
                    ),
                }
            }
        },
        _ => Ok((Seq::empty(), bytes)),
    }
}

pub open spec fn pair(left: ExprView, right: ExprView, depth: nat) -> Seq<WalkItem> {
    seq![WalkItem::Expression(left, depth), WalkItem::Expression(right, depth)]
}

/// What counting one expression adds.
pub open spec fn expression_opened(
    limits: ExpressionLimits,
    e: ExprView,
    depth: nat,
    pending: nat,
    nodes: nat,
    bytes: nat,
) -> Result<(Seq<WalkItem>, nat), LimitView> {
    let below = depth + 1;
    match e {
        ExprView::Literal { value } => value_opened(limits, value, depth, pending, nodes, bytes),
        ExprView::Ref { reference } => match reference_bytes(reference, limits) {
            Err(e) => Err(e),
            Ok(n) => Ok((Seq::empty(), saturated(bytes + n))),
        },
        ExprView::Exists { reference } => match reference_bytes(reference, limits) {
            Err(e) => Err(e),
            Ok(n) => Ok((Seq::empty(), saturated(bytes + n))),
        },
        ExprView::All { expressions } => children_opened(
            limits,
            expressions,
            below,
            pending,
            nodes,
            bytes,
        ),
        ExprView::Any { expressions } => children_opened(
            limits,
            expressions,
            below,
            pending,
            nodes,
            bytes,
        ),
        ExprView::Not { expression } => Ok((seq![WalkItem::Expression(*expression, below)], bytes)),
        ExprView::IsNull { expression } => Ok(
            (seq![WalkItem::Expression(*expression, below)], bytes),
        ),
        ExprView::IsEmpty { expression } => Ok(
            (seq![WalkItem::Expression(*expression, below)], bytes),
        ),
        ExprView::Compare { left, right, .. } => Ok((pair(*left, *right, below), bytes)),
        ExprView::Contains { value, needle } => Ok((pair(*value, *needle, below), bytes)),
        ExprView::StartsWith { value, prefix } => Ok((pair(*value, *prefix, below), bytes)),
        ExprView::EndsWith { value, suffix } => Ok((pair(*value, *suffix, below), bytes)),
        ExprView::Matches { value, pattern } => match charged(
            bytes,
            pattern,
            "regex pattern bytes"@,
            limits.max_regex_pattern_bytes as nat,
        ) {
            Err(e) => Err(e),
            Ok(bytes) => Ok((seq![WalkItem::Expression(*value, below)], bytes)),
        },
        ExprView::In { needle, collection } => Ok((pair(*needle, *collection, below), bytes)),
        ExprView::Quantifier { collection, binding, predicate, .. } => match charged(
            bytes,
            binding,
            "quantifier binding bytes"@,
            limits.max_string_bytes as nat,
        ) {
            Err(e) => Err(e),
            Ok(bytes) => Ok((pair(*collection, *predicate, below), bytes)),
        },
    }
}

pub open spec fn children_opened(
    limits: ExpressionLimits,
    items: Seq<ExprView>,
    below: nat,
    pending: nat,
    nodes: nat,
    bytes: nat,
) -> Result<(Seq<WalkItem>, nat), LimitView> {
    let found = prospect(nodes, pending, items.len());
    if found > limits.max_nodes {
        Err(over("expression nodes"@, found, limits.max_nodes as nat))
    } else {
        Ok((items.map_values(|e: ExprView| WalkItem::Expression(e, below)), bytes))
    }
}

pub open spec fn item_depth(item: WalkItem) -> nat {
    match item {
        WalkItem::Expression(_, depth) => depth,
        WalkItem::Value(_, depth) => depth,
    }
}

/// The nodes and bytes counted when nothing waits any more: what was put down
/// last is counted first.
pub open spec fn walked(
    limits: ExpressionLimits,
    stack: Seq<WalkItem>,
    nodes: nat,
    bytes: nat,
) -> Result<(nat, nat), LimitView>
    decreases limits.max_nodes + 1 - nodes,
{
    if stack.len() == 0 {
        Ok((nodes, bytes))
    } else {
        let item = stack.last();
        let rest = stack.drop_last();
        let depth = item_depth(item);
        if depth > limits.max_depth {
            Err(over("expression depth"@, depth, limits.max_depth as nat))
        } else if nodes + 1 > limits.max_nodes {
            Err(over("expression nodes"@, nodes + 1, limits.max_nodes as nat))
        } else {
            let opened = match item {
                WalkItem::Expression(e, _) => expression_opened(
                    limits,
                    e,
                    depth,
                    rest.len(),
                    nodes + 1,
                    bytes,
                ),
                WalkItem::Value(v, _) => value_opened(
                    limits,
                    v,
                    depth,
                    rest.len(),
                    nodes + 1,
                    bytes,
                ),
            };
            match opened {
                Err(e) => Err(e),
                Ok((children, bytes)) => walked(limits, rest + children, nodes + 1, bytes),
            }
        }
    }
}

/// The size of an expression, or the first limit that it exceeds.
pub open spec fn expression_size(e: ExprView, limits: ExpressionLimits) -> Result<
    (nat, nat),
    LimitView,
> {
    walked(limits, seq![WalkItem::Expression(e, 1)], 0, 0)
}

enum Item<'a> {
    Expression(&'a ExpressionV1, usize),
    Value(&'a ExpressionValue, usize),
}

impl<'a> Item<'a> {
    spec fn view(&self) -> WalkItem {
        match self {
            Item::Expression(e, depth) => WalkItem::Expression(e@, *depth as nat),
            Item::Value(v, depth) => WalkItem::Value(v@, *depth as nat),
        }
    }
}

spec fn items(stack: Seq<Item>) -> Seq<WalkItem> {
    stack.map_values(|item: Item| item.view())
}

fn ensure_pending_limit(visited: usize, pending: usize, adding: usize, limit: usize, resource: &str)
    -> (res: Result<(), StaticLimitExceeded>)
    ensures
        ({
            let found = prospect(visited as nat, pending as nat, adding as nat);
            match res {
                Ok(_) => found <= limit,
                Err(e) => found > limit && e@ == over(resource@, found, limit as nat),
            }
        }),
{
    let found: usize = visited.saturating_add(pending).saturating_add(adding);
    if found > limit {
        Err(StaticLimitExceeded::new(resource, found, limit))
    } else {
        Ok(())
    }
}

fn open_value<'a>(
    limits: ExpressionLimits,
    value: &'a ExpressionValue,
    depth: usize,
    stack: &mut Vec<Item<'a>>,
    nodes: usize,
    bytes: usize,
) -> (res: Result<usize, StaticLimitExceeded>)
    requires
        depth <= limits.max_depth < usize::MAX,
    ensures
        ({
            let want = value_opened(
                limits,
                value@,
                depth as nat,
                old(stack)@.len(),
                nodes as nat,
                bytes as nat,
            );
            match res {
                Ok(n) => want is Ok && want->Ok_0.1 == n && items(final(stack)@) == items(
                    old(stack)@,
                ) + want->Ok_0.0,
                Err(e) => want == Err::<(Seq<WalkItem>, nat), LimitView>(e@),
            }
        }),
{
    let ghost before = items(stack@);
    match value {
        ExpressionValue::String(s) => {
            assert(before + Seq::<WalkItem>::empty() =~= before);
            charge(bytes, s, "expression string bytes", limits.max_string_bytes)
        },
        ExpressionValue::List(values) => {
            let n: usize = values.len();
            match ensure_pending_limit(
                nodes,
                stack.len(),
                n,
                limits.max_nodes,
                "expression nodes",
            ) {
                Err(e) => {
                    return Err(e);
                },
                Ok(_) => {},
            }
            let ghost views = list_views(values@);
            let ghost all = views.map_values(
                |v: ExprValueView| WalkItem::Value(v, (depth + 1) as nat),
            );
            let mut i: usize = 0;
            assert(before + all.take(0) =~= before);
            while i < n
                invariant
                    n == values@.len(),
                    i <= n,
                    depth < usize::MAX,
                    views == list_views(values@),
                    all == views.map_values(
                        |v: ExprValueView| WalkItem::Value(v, (depth + 1) as nat),
                    ),
                    items(stack@) == before + all.take(i as int),
                decreases n - i,
            {
                let ghost was = items(stack@);
                stack.push(Item::Value(&values[i], depth + 1));
                proof {
                    assert(views[i as int] == values@[i as int]@);
                    assert(items(stack@) =~= was.push(all[i as int]));
                    assert(was.push(all[i as int]) =~= before + all.take(i + 1));
                }
                i = i + 1;
            }
            assert(all.take(i as int) =~= all);
            Ok(bytes)
        },
        ExpressionValue::Object(map) => {
            let n: usize = map.entries.len();
            match ensure_pending_limit(
                nodes,
                stack.len(),
                n,
                limits.max_nodes,
                "expression nodes",
            ) {
                Err(e) => {
                    return Err(e);
                },
                Ok(_) => {},
            }
            let ghost views = entry_views(map.entries@);
            let ghost limit = limits.max_string_bytes as nat;
            let ghost all = views.map_values(
                |v: (Seq<char>, ExprValueView)| WalkItem::Value(v.1, (depth + 1) as nat),
            );
            let mut total: usize = bytes;
            let mut i: usize = 0;
            assert(before + all.take(0) =~= before);
            while i < n
                invariant
                    n == map.entries@.len(),
                    i <= n,
                    depth < usize::MAX,
                    views == entry_views(map.entries@),
                    value@ == ExprValueView::Object(views),
                    prospect(nodes as nat, old(stack)@.len(), n as nat) <= limits.max_nodes,
                    limit == limits.max_string_bytes,
                    all == views.map_values(
                        |v: (Seq<char>, ExprValueView)| WalkItem::Value(v.1, (depth + 1) as nat),
                    ),
                    items(stack@) == before + all.take(i as int),
                    key_bytes(views, "expression object key bytes"@, limit, 0, bytes as nat)
                        == key_bytes(
                        views,
                        "expression object key bytes"@,
                        limit,
                        i as nat,
                        total as nat,
                    ),
                decreases n - i,
            {
                assert(views[i as int] == (
                    map.entries@[i as int].0@,
                    map.entries@[i as int].1@,
                ));
                match charge(
                    total,
                    &map.entries[i].0,
                    "expression object key bytes",
                    limits.max_string_bytes,
                ) {
                    Err(e) => {
                        return Err(e);
                    },
                    Ok(n) => {
                        total = n;
                    },
                }
                let ghost was = items(stack@);
                stack.push(Item::Value(&map.entries[i].1, depth + 1));
                proof {
                    assert(items(stack@) =~= was.push(all[i as int]));
                    assert(was.push(all[i as int]) =~= before + all.take(i + 1));
                }
                i = i + 1;
            }
            assert(all.take(i as int) =~= all);
            Ok(total)
        },
        _ => {
            assert(before + Seq::<WalkItem>::empty() =~= before);
            Ok(bytes)
        },
    }
}

fn push_one<'a>(stack: &mut Vec<Item<'a>>, e: &'a ExpressionV1, depth: usize)
    ensures
        items(final(stack)@) == items(old(stack)@) + seq![
            WalkItem::Expression(e@, depth as nat),
        ],
{
    let ghost before = items(stack@);
    stack.push(Item::Expression(e, depth));
    assert(items(stack@) =~= before + seq![WalkItem::Expression(e@, depth as nat)]);
}

fn push_pair<'a>(
    stack: &mut Vec<Item<'a>>,
    left: &'a ExpressionV1,
    right: &'a ExpressionV1,
    depth: usize,
)
    ensures
        items(final(stack)@) == items(old(stack)@) + pair(left@, right@, depth as nat),
{
    let ghost before = items(stack@);
    stack.push(Item::Expression(left, depth));
    stack.push(Item::Expression(right, depth));
    assert(items(stack@) =~= before + pair(left@, right@, depth as nat));
}

fn push_all<'a>(
    limits: ExpressionLimits,
    stack: &mut Vec<Item<'a>>,
    expressions: &'a Vec<ExpressionV1>,
    below: usize,
    nodes: usize,
    bytes: usize,
) -> (res: Result<usize, StaticLimitExceeded>)
    ensures
        ({
            let want = children_opened(
                limits,
                expr_views(expressions@),
                below as nat,
                old(stack)@.len(),
                nodes as nat,
                bytes as nat,
            );
            match res {
                Ok(n) => want is Ok && want->Ok_0.1 == n && items(final(stack)@) == items(
                    old(stack)@,
                ) + want->Ok_0.0,
                Err(e) => want == Err::<(Seq<WalkItem>, nat), LimitView>(e@),
            }
        }),
{
    let ghost before = items(stack@);
    let n: usize = expressions.len();
    match ensure_pending_limit(nodes, stack.len(), n, limits.max_nodes, "expression nodes") {
        Err(e) => {
            return Err(e);
        },
        Ok(_) => {},
    }
    let ghost views = expr_views(expressions@);
    let ghost all = views.map_values(|e: ExprView| WalkItem::Expression(e, below as nat));
    let mut i: usize = 0;
    assert(before + all.take(0) =~= before);
    while i < n
        invariant
            n == expressions@.len(),
            i <= n,
            views == expr_views(expressions@),
            all == views.map_values(|e: ExprView| WalkItem::Expression(e, below as nat)),
            items(stack@) == before + all.take(i as int),
        decreases n - i,
    {
        let ghost was = items(stack@);
        stack.push(Item::Expression(&expressions[i], below));
        proof {
            assert(views[i as int] == expressions@[i as int]@);
            assert(items(stack@) =~= was.push(all[i as int]));
            assert(was.push(all[i as int]) =~= before + all.take(i + 1));
        }
        i = i + 1;
    }
    assert(all.take(i as int) =~= all);
    Ok(bytes)
}

fn open_expression<'a>(
    limits: ExpressionLimits,
    e: &'a ExpressionV1,
    depth: usize,
    stack: &mut Vec<Item<'a>>,
    nodes: usize,
    bytes: usize,
) -> (res: Result<usize, StaticLimitExceeded>)
    requires
        depth <= limits.max_depth < usize::MAX,
    ensures
        ({
            let want = expression_opened(
                limits,
                e@,
                depth as nat,
                old(stack)@.len(),
                nodes as nat,
                bytes as nat,
            );
            match res {
                Ok(n) => want is Ok && want->Ok_0.1 == n && items(final(stack)@) == items(
                    old(stack)@,
                ) + want->Ok_0.0,
                Err(e) => want == Err::<(Seq<WalkItem>, nat), LimitView>(e@),
            }
        }),
{
    let below: usize = depth + 1;
    match e {
        ExpressionV1::Literal { value } => open_value(limits, value, depth, stack, nodes, bytes),
        ExpressionV1::Ref { reference } | ExpressionV1::Exists { reference } => {
            assert(items(stack@) + Seq::<WalkItem>::empty() =~= items(stack@));
            match validate_reference_budget(reference, limits) {
                Err(e) => Err(e),
                Ok(n) => Ok(bytes.saturating_add(n)),
            }
        },
        ExpressionV1::All { expressions } | ExpressionV1::Any { expressions } => push_all(
            limits,
            stack,
            expressions,
            below,
            nodes,
            bytes,
        ),
        ExpressionV1::Not { expression }
        | ExpressionV1::IsNull { expression }
        | ExpressionV1::IsEmpty { expression } => {
            push_one(stack, expression, below);
            Ok(bytes)
        },
        ExpressionV1::Compare { left, right, .. } => {
            push_pair(stack, left, right, below);
            Ok(bytes)
        },
        ExpressionV1::Contains { value, needle } => {
            push_pair(stack, value, needle, below);
            Ok(bytes)
        },
        ExpressionV1::StartsWith { value, prefix } => {
            push_pair(stack, value, prefix, below);
            Ok(bytes)
        },
        ExpressionV1::EndsWith { value, suffix } => {
            push_pair(stack, value, suffix, below);
            Ok(bytes)
        },
        ExpressionV1::Matches { value, pattern } => {
            match charge(bytes, pattern, "regex pattern bytes", limits.max_regex_pattern_bytes) {
                Err(e) => Err(e),
                Ok(n) => {
                    push_one(stack, value, below);
                    Ok(n)
                },
            }
        },
        ExpressionV1::In { needle, collection } => {
            push_pair(stack, needle, collection, below);
            Ok(bytes)
        },
        ExpressionV1::Quantifier { collection, binding, predicate, .. } => {
            match charge(bytes, binding, "quantifier binding bytes", limits.max_string_bytes) {
                Err(e) => Err(e),
                Ok(n) => {
                    push_pair(stack, collection, predicate, below);
                    Ok(n)
                },
            }
        },
    }
}

pub open spec fn sizes(
    res: Result<StaticTreeStats, StaticLimitExceeded>,
    want: Result<(nat, nat), LimitView>,
) -> bool {
    match res {
        Ok(stats) => want == Ok::<(nat, nat), LimitView>(
            (stats.nodes as nat, stats.payload_bytes as nat),
        ),
        Err(e) => want == Err::<(nat, nat), LimitView>(e@),
    }
}

/// The size of an expression, or the first limit that it exceeds.
pub(crate) fn expression_stats(root: &ExpressionV1, limits: ExpressionLimits) -> (res: Result<
    StaticTreeStats,
    StaticLimitExceeded,
>)
    requires
        limits.max_nodes < usize::MAX,
        limits.max_depth < usize::MAX,
    ensures
        sizes(res, expression_size(root@, limits)),
{
    let mut nodes: usize = 0;
    let mut bytes: usize = 0;
    let mut stack: Vec<Item> = Vec::new();
    stack.push(Item::Expression(root, 1));
    assert(items(stack@) =~= seq![WalkItem::Expression(root@, 1)]);
    while stack.len() > 0
        invariant
            limits.max_nodes < usize::MAX,
            limits.max_depth < usize::MAX,
            nodes <= limits.max_nodes,
            walked(limits, seq![WalkItem::Expression(root@, 1)], 0, 0) == walked(
                limits,
                items(stack@),
                nodes as nat,
                bytes as nat,
            ),
        decreases limits.max_nodes + 1 - nodes,
    {
        let ghost all = items(stack@);
        let item = stack.pop().unwrap();
        assert(all.last() == item@);
        assert(all.drop_last() =~= items(stack@));
        let depth: usize = match &item {
            Item::Expression(_, depth) => *depth,
            Item::Value(_, depth) => *depth,
        };
        if depth > limits.max_depth {
            return Err(StaticLimitExceeded::new("expression depth", depth, limits.max_depth));
        }
        if nodes + 1 > limits.max_nodes {
            return Err(StaticLimitExceeded::new("expression nodes", nodes + 1, limits.max_nodes));
        }
        nodes = nodes + 1;
        let opened = match item {
            Item::Expression(e, _) => open_expression(limits, e, depth, &mut stack, nodes, bytes),
            Item::Value(v, _) => open_value(limits, v, depth, &mut stack, nodes, bytes),
        };
        match opened {
            Err(e) => {
                return Err(e);
            },
            Ok(n) => {
                bytes = n;
            },
        }
    }
    assert(items(stack@) =~= Seq::empty());
    Ok(StaticTreeStats { nodes, payload_bytes: bytes })
}

// ---------------------------------------------------------------------------
// JSON values
// ---------------------------------------------------------------------------
/// What counting one JSON value adds.
pub open spec fn json_opened(
    value: ValueView,
    depth: nat,
    pending: nat,
    nodes: nat,
    bytes: nat,
) -> Result<(Seq<(ValueView, nat)>, nat), LimitView> {
    match value {
        ValueView::String(s) => match charged(
            bytes,
            s,
            "literal string bytes"@,
            GRAPH_MAX_LITERAL_STRING_BYTES as nat,
        ) {
            Err(e) => Err(e),
            Ok(bytes) => Ok((Seq::empty(), bytes)),
        },
        ValueView::Array(values) => {
            let found = prospect(nodes, pending, values.len());
            if found > GRAPH_MAX_VALUE_NODES {
                Err(over("literal value nodes"@, found, GRAPH_MAX_VALUE_NODES as nat))
            } else {
                Ok((values.map_values(|v: ValueView| (v, depth + 1)), bytes))
            }
        },
        ValueView::Object(members) => {
            let found = prospect(nodes, pending, members.len());
            if found > GRAPH_MAX_VALUE_NODES {
                Err(over("literal value nodes"@, found, GRAPH_MAX_VALUE_NODES as nat))
            } else {
                match key_bytes(
                    members,
                    "literal object key bytes"@,
                    GRAPH_MAX_LITERAL_STRING_BYTES as nat,
                    0,
                    bytes,
                ) {
                    Err(e) => Err(e),
                    Ok(bytes) => Ok(
                        (members.map_values(|v: (Seq<char>, ValueView)| (v.1, depth + 1)), bytes),
                    ),
                }
            }
        },
        _ => Ok((Seq::empty(), bytes)),
    }
}

pub open spec fn json_walked(stack: Seq<(ValueView, nat)>, nodes: nat, bytes: nat) -> Result<
    (nat, nat),
    LimitView,
>
    decreases GRAPH_MAX_VALUE_NODES + 1 - nodes,
{
    if stack.len() == 0 {
        Ok((nodes, bytes))
    } else {
        let (value, depth) = stack.last();
        let rest = stack.drop_last();
        if depth > GRAPH_MAX_VALUE_DEPTH {
            Err(over("literal value depth"@, depth, GRAPH_MAX_VALUE_DEPTH as nat))
        } else if nodes + 1 > GRAPH_MAX_VALUE_NODES {
            Err(over("literal value nodes"@, nodes + 1, GRAPH_MAX_VALUE_NODES as nat))
        } else {
            match json_opened(value, depth, rest.len(), nodes + 1, bytes) {
                Err(e) => Err(e),
                Ok((children, bytes)) => json_walked(rest + children, nodes + 1, bytes),
            }
        }
    }
}

/// The size of a JSON value, or the first limit that it exceeds.
pub open spec fn json_size(value: ValueView) -> Result<(nat, nat), LimitView> {
    json_walked(seq![(value, 1nat)], 0, 0)
}

spec fn json_items(stack: Seq<(&Value, usize)>) -> Seq<(ValueView, nat)> {
    stack.map_values(|item: (&Value, usize)| (item.0.view(), item.1 as nat))
}

fn open_json<'a>(
    value: &'a Value,
    depth: usize,
    stack: &mut Vec<(&'a Value, usize)>,
    nodes: usize,
    bytes: usize,
) -> (res: Result<usize, StaticLimitExceeded>)
    requires
        depth <= GRAPH_MAX_VALUE_DEPTH,
    ensures
        ({
            let want = json_opened(
                value@,
                depth as nat,
                old(stack)@.len(),
                nodes as nat,
                bytes as nat,
            );
            match res {
                Ok(n) => want is Ok && want->Ok_0.1 == n && json_items(final(stack)@)
                    == json_items(old(stack)@) + want->Ok_0.0,
                Err(e) => want == Err::<(Seq<(ValueView, nat)>, nat), LimitView>(e@),
            }
        }),
{
    let ghost before = json_items(stack@);
    match value {
        Value::String(s) => {
            assert(before + Seq::<(ValueView, nat)>::empty() =~= before);
            charge(bytes, s, "literal string bytes", GRAPH_MAX_LITERAL_STRING_BYTES)
        },
        Value::Array(values) => {
            let n: usize = values.len();
            match ensure_pending_limit(
                nodes,
                stack.len(),
                n,
                GRAPH_MAX_VALUE_NODES,
                "literal value nodes",
            ) {
                Err(e) => {
                    return Err(e);
                },
                Ok(_) => {},
            }
            let ghost views = value_views(values@);
            let ghost all = views.map_values(|v: ValueView| (v, (depth + 1) as nat));
            let mut i: usize = 0;
            assert(before + all.take(0) =~= before);
            while i < n
                invariant
                    n == values@.len(),
                    i <= n,
                    depth <= GRAPH_MAX_VALUE_DEPTH,
                    views == value_views(values@),
                    all == views.map_values(|v: ValueView| (v, (depth + 1) as nat)),
                    json_items(stack@) == before + all.take(i as int),
                decreases n - i,
            {
                let ghost was = json_items(stack@);
                stack.push((&values[i], depth + 1));
                proof {
                    assert(views[i as int] == values@[i as int]@);
                    assert(json_items(stack@) =~= was.push(all[i as int]));
                    assert(was.push(all[i as int]) =~= before + all.take(i + 1));
                }
                i = i + 1;
            }
            assert(all.take(i as int) =~= all);
            Ok(bytes)
        },
        Value::Object(map) => {
            let n: usize = map.entries.len();
            match ensure_pending_limit(
                nodes,
                stack.len(),
                n,
                GRAPH_MAX_VALUE_NODES,
                "literal value nodes",
            ) {
                Err(e) => {
                    return Err(e);
                },
                Ok(_) => {},
            }
            let ghost views = member_views(map.entries@);
            let ghost limit = GRAPH_MAX_LITERAL_STRING_BYTES as nat;
            let ghost all = views.map_values(
                |v: (Seq<char>, ValueView)| (v.1, (depth + 1) as nat),
            );
            let mut total: usize = bytes;
            let mut i: usize = 0;
            assert(before + all.take(0) =~= before);
            while i < n
                invariant
                    n == map.entries@.len(),
                    i <= n,
                    depth <= GRAPH_MAX_VALUE_DEPTH,
                    views == member_views(map.entries@),
                    value@ == ValueView::Object(views),
                    prospect(nodes as nat, old(stack)@.len(), n as nat) <= GRAPH_MAX_VALUE_NODES,
                    limit == GRAPH_MAX_LITERAL_STRING_BYTES,
                    all == views.map_values(
                        |v: (Seq<char>, ValueView)| (v.1, (depth + 1) as nat),
                    ),
                    json_items(stack@) == before + all.take(i as int),
                    key_bytes(views, "literal object key bytes"@, limit, 0, bytes as nat)
                        == key_bytes(
                        views,
                        "literal object key bytes"@,
                        limit,
                        i as nat,
                        total as nat,
                    ),
                decreases n - i,
            {
                assert(views[i as int] == (
                    map.entries@[i as int].0@,
                    map.entries@[i as int].1@,
                ));
                match charge(
                    total,
                    &map.entries[i].0,
                    "literal object key bytes",
                    GRAPH_MAX_LITERAL_STRING_BYTES,
                ) {
                    Err(e) => {
                        return Err(e);
                    },
                    Ok(n) => {
                        total = n;
                    },
                }
                let ghost was = json_items(stack@);
                stack.push((&map.entries[i].1, depth + 1));
                proof {
                    assert(json_items(stack@) =~= was.push(all[i as int]));
                    assert(was.push(all[i as int]) =~= before + all.take(i + 1));
                }
                i = i + 1;
            }
            assert(all.take(i as int) =~= all);
            Ok(total)
        },
        _ => {
            assert(before + Seq::<(ValueView, nat)>::empty() =~= before);
            Ok(bytes)
        },
    }
}

/// The size of a JSON value, or the first limit that it exceeds.
pub fn json_value_stats(root: &Value) -> (res: Result<StaticTreeStats, StaticLimitExceeded>)
    ensures
        sizes(res, json_size(root@)),
{
    let mut nodes: usize = 0;
    let mut bytes: usize = 0;
    let mut stack: Vec<(&Value, usize)> = Vec::new();
    stack.push((root, 1));
    assert(json_items(stack@) =~= seq![(root@, 1nat)]);
    while stack.len() > 0
        invariant
            nodes <= GRAPH_MAX_VALUE_NODES,
            json_walked(seq![(root@, 1nat)], 0, 0) == json_walked(
                json_items(stack@),
                nodes as nat,
                bytes as nat,
            ),
        decreases GRAPH_MAX_VALUE_NODES + 1 - nodes,
    {
        let ghost all = json_items(stack@);
        let (value, depth) = stack.pop().unwrap();
        assert(all.last() == (value@, depth as nat));
        assert(all.drop_last() =~= json_items(stack@));
        if depth > GRAPH_MAX_VALUE_DEPTH {
            return Err(
                StaticLimitExceeded::new("literal value depth", depth, GRAPH_MAX_VALUE_DEPTH),
            );
        }
        if nodes + 1 > GRAPH_MAX_VALUE_NODES {
            return Err(
                StaticLimitExceeded::new("literal value nodes", nodes + 1, GRAPH_MAX_VALUE_NODES),
            );
        }
        nodes = nodes + 1;
        match open_json(value, depth, &mut stack, nodes, bytes) {
            Err(e) => {
                return Err(e);
            },
            Ok(n) => {
                bytes = n;
            },
        }
    }
    assert(json_items(stack@) =~= Seq::empty());
    Ok(StaticTreeStats { nodes, payload_bytes: bytes })
}

// ---------------------------------------------------------------------------
// Serialized components
// ---------------------------------------------------------------------------
/// The bytes of a document, or the count at the piece of it that passed the limit
/// of one.
pub open spec fn document_bytes(value: ValueView) -> Result<nat, LimitView> {
    let limit = GRAPH_MAX_SERIALIZED_COMPONENT_BYTES as nat;
    match tally(Ok(0), value_pieces(value), limit) {
        Ok(n) => Ok(n),
        Err(n) => Err(over("serialized component bytes"@, n, limit)),
    }
}

pub fn serialized_payload_bytes(value: &Value) -> (res: Result<usize, StaticLimitExceeded>)
    ensures
        counts(res, document_bytes(value@)),
{
    let mut counter = ByteCounter::new(GRAPH_MAX_SERIALIZED_COMPONENT_BYTES);
    counter.write_value(value);
    match counter.count {
        Ok(n) => Ok(n),
        Err(n) => Err(
            StaticLimitExceeded::new(
                "serialized component bytes",
                n,
                GRAPH_MAX_SERIALIZED_COMPONENT_BYTES,
            ),
        ),
    }
}

// ---------------------------------------------------------------------------
// What the sizes are
// ---------------------------------------------------------------------------
/// How many values a literal holds, itself among them.
pub open spec fn value_nodes(value: ExprValueView) -> nat
    decreases value, 1nat,
{
    match value {
        ExprValueView::List(values) => 1 + values_nodes(values),
        ExprValueView::Object(members) => 1 + members_nodes(members),
        _ => 1,
    }
}

pub open spec fn values_nodes(values: Seq<ExprValueView>) -> nat
    decreases values, 0nat,
{
    if values.len() == 0 {
        0
    } else {
        values_nodes(values.drop_last()) + value_nodes(values.last())
    }
}

pub open spec fn members_nodes(members: Seq<(Seq<char>, ExprValueView)>) -> nat
    decreases members, 0nat,
{
    if members.len() == 0 {
        0
    } else {
        members_nodes(members.drop_last()) + value_nodes(members.last().1)
    }
}

/// How many nodes an expression has, the parts of its literals among them.
pub open spec fn expression_nodes(e: ExprView) -> nat
    decreases e, 1nat,
{
    match e {
        ExprView::Literal { value } => value_nodes(value),
        ExprView::Ref { .. } => 1,
        ExprView::Exists { .. } => 1,
        ExprView::All { expressions } => 1 + all_nodes(expressions),
        ExprView::Any { expressions } => 1 + all_nodes(expressions),
        ExprView::Not { expression } => 1 + expression_nodes(*expression),
        ExprView::IsNull { expression } => 1 + expression_nodes(*expression),
        ExprView::IsEmpty { expression } => 1 + expression_nodes(*expression),
        ExprView::Compare { left, right, .. } => 1 + expression_nodes(*left) + expression_nodes(
            *right,
        ),
        ExprView::Contains { value, needle } => 1 + expression_nodes(*value) + expression_nodes(
            *needle,
        ),
        ExprView::StartsWith { value, prefix } => 1 + expression_nodes(*value) + expression_nodes(
            *prefix,
        ),
        ExprView::EndsWith { value, suffix } => 1 + expression_nodes(*value) + expression_nodes(
            *suffix,
        ),
        ExprView::Matches { value, .. } => 1 + expression_nodes(*value),
        ExprView::In { needle, collection } => 1 + expression_nodes(*needle) + expression_nodes(
            *collection,
        ),
        ExprView::Quantifier { collection, predicate, .. } => 1 + expression_nodes(*collection)
            + expression_nodes(*predicate),
    }
}

pub open spec fn all_nodes(expressions: Seq<ExprView>) -> nat
    decreases expressions, 0nat,
{
    if expressions.len() == 0 {
        0
    } else {
        all_nodes(expressions.drop_last()) + expression_nodes(expressions.last())
    }
}

spec fn item_nodes(item: WalkItem) -> nat {
    match item {
        WalkItem::Expression(e, _) => expression_nodes(e),
        WalkItem::Value(v, _) => value_nodes(v),
    }
}

spec fn waiting_nodes(stack: Seq<WalkItem>) -> nat
    decreases stack.len(),
{
    if stack.len() == 0 {
        0
    } else {
        waiting_nodes(stack.drop_last()) + item_nodes(stack.last())
    }
}

proof fn lemma_waiting_both(a: Seq<WalkItem>, b: Seq<WalkItem>)
    ensures
        waiting_nodes(a + b) == waiting_nodes(a) + waiting_nodes(b),
    decreases b.len(),
{
    if b.len() == 0 {
        assert(a + b =~= a);
    } else {
        lemma_waiting_both(a, b.drop_last());
        assert((a + b).drop_last() =~= a + b.drop_last());
        assert((a + b).last() == b.last());
    }
}

proof fn lemma_waiting_expressions(list: Seq<ExprView>, depth: nat)
    ensures
        waiting_nodes(list.map_values(|e: ExprView| WalkItem::Expression(e, depth))) == all_nodes(
            list,
        ),
    decreases list.len(),
{
    let stack = list.map_values(|e: ExprView| WalkItem::Expression(e, depth));
    if list.len() > 0 {
        lemma_waiting_expressions(list.drop_last(), depth);
        assert(stack.drop_last() =~= list.drop_last().map_values(
            |e: ExprView| WalkItem::Expression(e, depth),
        ));
    }
}

proof fn lemma_waiting_values(list: Seq<ExprValueView>, depth: nat)
    ensures
        waiting_nodes(list.map_values(|v: ExprValueView| WalkItem::Value(v, depth)))
            == values_nodes(list),
    decreases list.len(),
{
    let stack = list.map_values(|v: ExprValueView| WalkItem::Value(v, depth));
    if list.len() > 0 {
        lemma_waiting_values(list.drop_last(), depth);
        assert(stack.drop_last() =~= list.drop_last().map_values(
            |v: ExprValueView| WalkItem::Value(v, depth),
        ));
    }
}

proof fn lemma_waiting_members(list: Seq<(Seq<char>, ExprValueView)>, depth: nat)
    ensures
        waiting_nodes(
            list.map_values(|v: (Seq<char>, ExprValueView)| WalkItem::Value(v.1, depth)),
        ) == members_nodes(list),
    decreases list.len(),
{
    let stack = list.map_values(|v: (Seq<char>, ExprValueView)| WalkItem::Value(v.1, depth));
    if list.len() > 0 {
        lemma_waiting_members(list.drop_last(), depth);
        assert(stack.drop_last() =~= list.drop_last().map_values(
            |v: (Seq<char>, ExprValueView)| WalkItem::Value(v.1, depth),
        ));
    }
}

proof fn lemma_waiting_few(a: WalkItem, b: WalkItem)
    ensures
        waiting_nodes(Seq::<WalkItem>::empty()) == 0,
        waiting_nodes(seq![a]) == item_nodes(a),
        waiting_nodes(seq![a, b]) == item_nodes(a) + item_nodes(b),
{
    assert(seq![a].drop_last() =~= Seq::<WalkItem>::empty());
    assert(waiting_nodes(seq![a].drop_last()) == 0);
    assert(waiting_nodes(seq![a]) == item_nodes(a));
    assert(seq![a, b].drop_last() =~= seq![a]);
}

proof fn lemma_value_opened(
    limits: ExpressionLimits,
    value: ExprValueView,
    depth: nat,
    pending: nat,
    nodes: nat,
    bytes: nat,
)
    ensures
        value_opened(limits, value, depth, pending, nodes, bytes) matches Ok((children, _))
            ==> waiting_nodes(children) + 1 == value_nodes(value),
{
    match value {
        ExprValueView::List(values) => lemma_waiting_values(values, depth + 1),
        ExprValueView::Object(members) => lemma_waiting_members(members, depth + 1),
        _ => {},
    }
}

proof fn lemma_expression_opened(
    limits: ExpressionLimits,
    e: ExprView,
    depth: nat,
    pending: nat,
    nodes: nat,
    bytes: nat,
)
    ensures
        expression_opened(limits, e, depth, pending, nodes, bytes) matches Ok((children, _))
            ==> waiting_nodes(children) + 1 == expression_nodes(e),
{
    let below = depth + 1;
    match e {
        ExprView::Literal { value } => lemma_value_opened(
            limits,
            value,
            depth,
            pending,
            nodes,
            bytes,
        ),
        ExprView::All { expressions } => lemma_waiting_expressions(expressions, below),
        ExprView::Any { expressions } => lemma_waiting_expressions(expressions, below),
        ExprView::Not { expression } => lemma_one_opened(*expression, below),
        ExprView::IsNull { expression } => lemma_one_opened(*expression, below),
        ExprView::IsEmpty { expression } => lemma_one_opened(*expression, below),
        ExprView::Compare { left, right, .. } => lemma_pair_opened(*left, *right, below),
        ExprView::Contains { value, needle } => lemma_pair_opened(*value, *needle, below),
        ExprView::StartsWith { value, prefix } => lemma_pair_opened(*value, *prefix, below),
        ExprView::EndsWith { value, suffix } => lemma_pair_opened(*value, *suffix, below),
        ExprView::Matches { value, .. } => lemma_one_opened(*value, below),
        ExprView::In { needle, collection } => lemma_pair_opened(*needle, *collection, below),
        ExprView::Quantifier { collection, predicate, .. } => lemma_pair_opened(
            *collection,
            *predicate,
            below,
        ),
        _ => {},
    }
}

proof fn lemma_one_opened(e: ExprView, depth: nat)
    ensures
        waiting_nodes(seq![WalkItem::Expression(e, depth)]) == expression_nodes(e),
{
    lemma_waiting_few(WalkItem::Expression(e, depth), WalkItem::Expression(e, depth));
}

proof fn lemma_pair_opened(left: ExprView, right: ExprView, depth: nat)
    ensures
        waiting_nodes(pair(left, right, depth)) == expression_nodes(left) + expression_nodes(right),
{
    lemma_waiting_few(WalkItem::Expression(left, depth), WalkItem::Expression(right, depth));
}

proof fn lemma_walked(limits: ExpressionLimits, stack: Seq<WalkItem>, nodes: nat, bytes: nat)
    ensures
        walked(limits, stack, nodes, bytes) matches Ok((n, _)) ==> n == nodes + waiting_nodes(
            stack,
        ) && (stack.len() > 0 ==> n <= limits.max_nodes),
    decreases limits.max_nodes + 1 - nodes,
{
    if stack.len() > 0 {
        let item = stack.last();
        let rest = stack.drop_last();
        let depth = item_depth(item);
        if depth <= limits.max_depth && nodes + 1 <= limits.max_nodes {
            let opened = match item {
                WalkItem::Expression(e, _) => expression_opened(
                    limits,
                    e,
                    depth,
                    rest.len(),
                    nodes + 1,
                    bytes,
                ),
                WalkItem::Value(v, _) => value_opened(
                    limits,
                    v,
                    depth,
                    rest.len(),
                    nodes + 1,
                    bytes,
                ),
            };
            match item {
                WalkItem::Expression(e, _) => lemma_expression_opened(
                    limits,
                    e,
                    depth,
                    rest.len(),
                    nodes + 1,
                    bytes,
                ),
                WalkItem::Value(v, _) => lemma_value_opened(
                    limits,
                    v,
                    depth,
                    rest.len(),
                    nodes + 1,
                    bytes,
                ),
            }
            match opened {
                Ok((children, after)) => {
                    lemma_waiting_both(rest, children);
                    lemma_walked(limits, rest + children, nodes + 1, after);
                },
                Err(_) => {},
            }
        }
    }
}

/// The size of an expression counts each of its nodes once, and an expression with more nodes
/// than the limit has none.
pub proof fn law_expression_size(e: ExprView, limits: ExpressionLimits)
    ensures
        expression_size(e, limits) matches Ok((nodes, _)) ==> nodes == expression_nodes(e),
        expression_nodes(e) > limits.max_nodes ==> expression_size(e, limits) is Err,
{
    lemma_walked(limits, seq![WalkItem::Expression(e, 1)], 0, 0);
    lemma_one_opened(e, 1);
}

/// How many values a JSON value holds, itself among them.
pub open spec fn json_nodes(value: ValueView) -> nat
    decreases value, 1nat,
{
    match value {
        ValueView::Array(values) => 1 + json_items_nodes(values),
        ValueView::Object(members) => 1 + json_members_nodes(members),
        _ => 1,
    }
}

pub open spec fn json_items_nodes(values: Seq<ValueView>) -> nat
    decreases values, 0nat,
{
    if values.len() == 0 {
        0
    } else {
        json_items_nodes(values.drop_last()) + json_nodes(values.last())
    }
}

pub open spec fn json_members_nodes(members: Seq<(Seq<char>, ValueView)>) -> nat
    decreases members, 0nat,
{
    if members.len() == 0 {
        0
    } else {
        json_members_nodes(members.drop_last()) + json_nodes(members.last().1)
    }
}

spec fn waiting_json(stack: Seq<(ValueView, nat)>) -> nat
    decreases stack.len(),
{
    if stack.len() == 0 {
        0
    } else {
        waiting_json(stack.drop_last()) + json_nodes(stack.last().0)
    }
}

proof fn lemma_waiting_json_both(a: Seq<(ValueView, nat)>, b: Seq<(ValueView, nat)>)
    ensures
        waiting_json(a + b) == waiting_json(a) + waiting_json(b),
    decreases b.len(),
{
    if b.len() == 0 {
        assert(a + b =~= a);
    } else {
        lemma_waiting_json_both(a, b.drop_last());
        assert((a + b).drop_last() =~= a + b.drop_last());
        assert((a + b).last() == b.last());
    }
}

proof fn lemma_waiting_json_items(list: Seq<ValueView>, depth: nat)
    ensures
        waiting_json(list.map_values(|v: ValueView| (v, depth))) == json_items_nodes(list),
    decreases list.len(),
{
    let stack = list.map_values(|v: ValueView| (v, depth));
    if list.len() > 0 {
        lemma_waiting_json_items(list.drop_last(), depth);
        assert(stack.drop_last() =~= list.drop_last().map_values(|v: ValueView| (v, depth)));
    }
}

proof fn lemma_waiting_json_members(list: Seq<(Seq<char>, ValueView)>, depth: nat)
    ensures
        waiting_json(list.map_values(|v: (Seq<char>, ValueView)| (v.1, depth)))
            == json_members_nodes(list),
    decreases list.len(),
{
    let stack = list.map_values(|v: (Seq<char>, ValueView)| (v.1, depth));
    if list.len() > 0 {
        lemma_waiting_json_members(list.drop_last(), depth);
        assert(stack.drop_last() =~= list.drop_last().map_values(
            |v: (Seq<char>, ValueView)| (v.1, depth),
        ));
    }
}

proof fn lemma_json_walked(stack: Seq<(ValueView, nat)>, nodes: nat, bytes: nat)
    ensures
        json_walked(stack, nodes, bytes) matches Ok((n, _)) ==> n == nodes + waiting_json(stack)
            && (stack.len() > 0 ==> n <= GRAPH_MAX_VALUE_NODES),
    decreases GRAPH_MAX_VALUE_NODES + 1 - nodes,
{
    if stack.len() > 0 {
        let (value, depth) = stack.last();
        let rest = stack.drop_last();
        if depth <= GRAPH_MAX_VALUE_DEPTH && nodes + 1 <= GRAPH_MAX_VALUE_NODES {
            match value {
                ValueView::Array(values) => lemma_waiting_json_items(values, depth + 1),
                ValueView::Object(members) => lemma_waiting_json_members(members, depth + 1),
                _ => {},
            }
            match json_opened(value, depth, rest.len(), nodes + 1, bytes) {
                Ok((children, after)) => {
                    lemma_waiting_json_both(rest, children);
                    lemma_json_walked(rest + children, nodes + 1, after);
                },
                Err(_) => {},
            }
        }
    }
}

/// The size of a JSON value counts each value in it once, and a value that holds more than the
/// limit has none.
pub proof fn law_json_size(value: ValueView)
    ensures
        json_size(value) matches Ok((nodes, _)) ==> nodes == json_nodes(value),
        json_nodes(value) > GRAPH_MAX_VALUE_NODES ==> json_size(value) is Err,
{
    let stack = seq![(value, 1nat)];
    lemma_json_walked(stack, 0, 0);
    assert(stack.drop_last() =~= Seq::<(ValueView, nat)>::empty());
    assert(waiting_json(stack.drop_last()) == 0);
}

} // verus!
