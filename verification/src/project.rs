//! A context store as a source of expression types and values, within limits.
use vstd::prelude::*;

use crate::context::{
    ContextPathSegment, ContextScope, FieldRef, FieldRefView, ScopeView, SegmentView,
};
use crate::expr::{
    default_limits, entry_views, list_views, saturated, type_views, ExprTypeView, ExprValueView,
    ExpressionLimits, ExpressionType, ExpressionTypeKind, ExpressionValue, KindView,
};
use crate::json;
use crate::json::{is_finite_bits, member_views, value_views, Number, NumberView, Value, ValueView};
use crate::outcome::{
    limit_prefix, reported_type, resolves, unmarked, EvalErrorView, EvaluationError, EvaluationErrorKind,
    EvaluationValue, ExpressionSchemaResolver, ExpressionValueResolver, OutcomeView,
    SchemaResolutionError,
};
use crate::schema::{
    AdditionalProperties, AdditionalView, ContextType, ObjectSchema, SchemaView, Sensitivity,
    TypeView, CONTEXT_SCHEMA_VERSION,
};
use crate::store;
use crate::store::{version_supported, walk, ContextStore, ContextValue, ContextView, StoreView};
use crate::text;
use crate::text::{count_text, joined, owned, text_len};
use crate::text_map;
use crate::text_map::TextMap;

verus! {

/// What has been used up while a context subtree is traversed. The string
/// limit is both a per-string and a cumulative one.
pub struct Used {
    pub nodes: nat,
    pub visits: nat,
    pub bytes: nat,
}

pub open spec fn unused() -> Used {
    Used { nodes: 0, visits: 0, bytes: 0 }
}

/// Work done so far, and the limit that it hit, if any.
pub type Charge = (Used, Option<Seq<char>>);

pub open spec fn charge_node(limits: ExpressionLimits, used: Used, depth: nat) -> Charge {
    if depth > limits.max_depth {
        (
            used,
            Some(
                "context traversal exceeds depth limit "@ + text::decimal(limits.max_depth as nat),
            ),
        )
    } else {
        let after = Used { nodes: saturated(used.nodes + 1), ..used };
        if after.nodes > limits.max_nodes {
            (
                after,
                Some(
                    "context traversal exceeds node limit "@ + text::decimal(
                        limits.max_nodes as nat,
                    ),
                ),
            )
        } else {
            (after, None)
        }
    }
}

pub open spec fn charge_visit(limits: ExpressionLimits, used: Used) -> Charge {
    let after = Used { visits: saturated(used.visits + 1), ..used };
    if after.visits > limits.max_collection_visits {
        (
            after,
            Some(
                "context traversal exceeds collection-visit limit "@ + text::decimal(
                    limits.max_collection_visits as nat,
                ),
            ),
        )
    } else {
        (after, None)
    }
}

pub open spec fn charge_string(limits: ExpressionLimits, used: Used, s: Seq<char>) -> Charge {
    let n = text::byte_len(s);
    if n > limits.max_string_bytes {
        (
            used,
            Some(
                "context string is "@ + text::decimal(n) + " bytes; limit is "@ + text::decimal(
                    limits.max_string_bytes as nat,
                ),
            ),
        )
    } else if used.bytes + n > usize::MAX {
        (used, Some("context cumulative string-byte counter overflowed"@))
    } else {
        let after = Used { bytes: used.bytes + n, ..used };
        if after.bytes > limits.max_string_bytes {
            (
                after,
                Some(
                    "context traversal exceeds cumulative string-byte limit "@ + text::decimal(
                        limits.max_string_bytes as nat,
                    ),
                ),
            )
        } else {
            (after, None)
        }
    }
}

/// The cost of the segments of a reference from the `i`-th on.
pub open spec fn charge_path(
    limits: ExpressionLimits,
    used: Used,
    path: Seq<SegmentView>,
    i: nat,
) -> Charge
    decreases path.len() - i,
{
    if i >= path.len() {
        (used, None)
    } else {
        match charge_visit(limits, used) {
            (used, Some(m)) => (used, Some(m)),
            (used, None) => match path[i as int] {
                SegmentView::Index { .. } => charge_path(limits, used, path, i + 1),
                SegmentView::Field { name } => match charge_string(limits, used, name) {
                    (used, Some(m)) => (used, Some(m)),
                    (used, None) => charge_path(limits, used, path, i + 1),
                },
            },
        }
    }
}

pub open spec fn charge_reference(
    limits: ExpressionLimits,
    used: Used,
    reference: FieldRefView,
) -> Charge {
    let scope = match reference.scope {
        ScopeView::Scenario => (used, None),
        ScopeView::Step { step_id } => charge_string(limits, used, step_id),
        ScopeView::LoopItem { step_id } => charge_string(limits, used, step_id),
    };
    match scope {
        (used, Some(m)) => (used, Some(m)),
        (used, None) => charge_path(limits, used, reference.segments, 0),
    }
}

/// A limit that a traversal hit.
pub struct TraversalLimit {
    pub message: String,
}

impl TraversalLimit {
    pub fn new(message: String) -> (res: Self)
        ensures
            res.message == message,
    {
        TraversalLimit { message }
    }

    pub fn evaluation_error(self) -> (res: EvaluationError)
        ensures
            res@ == limit_error(self.message@),
    {
        EvaluationError::new(EvaluationErrorKind::LimitExceeded, &self.message)
    }

    pub fn schema_error(self) -> (res: SchemaResolutionError)
        ensures
            res.message@ == limit_prefix() + self.message@,
    {
        SchemaResolutionError::limit_exceeded(&self.message)
    }
}

pub open spec fn limit_error(message: Seq<char>) -> EvalErrorView {
    EvalErrorView { kind: EvaluationErrorKind::LimitExceeded, message }
}

/// Budget applied before any recursive schema or JSON subtree is copied.
pub struct TraversalBudget {
    pub limits: ExpressionLimits,
    pub nodes: usize,
    pub collection_visits: usize,
    pub string_bytes: usize,
}

/// What a charge reports.
pub open spec fn charged(
    before: &TraversalBudget,
    after: &TraversalBudget,
    res: Result<(), TraversalLimit>,
    charge: Charge,
) -> bool {
    &&& after.limits == before.limits
    &&& after@ == charge.0
    &&& match res {
        Ok(_) => charge.1 is None,
        Err(limit) => charge.1 == Some(limit.message@),
    }
}

fn limit_message(prefix: &str, limit: usize) -> (res: TraversalLimit)
    ensures
        res.message@ == prefix@ + text::decimal(limit as nat),
{
    TraversalLimit::new(joined(prefix, &count_text(limit)))
}

impl TraversalBudget {
    pub open spec fn view(&self) -> Used {
        Used {
            nodes: self.nodes as nat,
            visits: self.collection_visits as nat,
            bytes: self.string_bytes as nat,
        }
    }

    pub fn new(limits: ExpressionLimits) -> (res: Self)
        ensures
            res.limits == limits,
            res@ == unused(),
    {
        TraversalBudget { limits, nodes: 0, collection_visits: 0, string_bytes: 0 }
    }

    pub fn visit_node(&mut self, depth: usize) -> (res: Result<(), TraversalLimit>)
        ensures
            charged(
                old(self),
                final(self),
                res,
                charge_node(old(self).limits, old(self)@, depth as nat),
            ),
    {
        if depth > self.limits.max_depth {
            return Err(
                limit_message("context traversal exceeds depth limit ", self.limits.max_depth),
            );
        }
        self.nodes = self.nodes.saturating_add(1);
        if self.nodes > self.limits.max_nodes {
            return Err(
                limit_message("context traversal exceeds node limit ", self.limits.max_nodes),
            );
        }
        Ok(())
    }

    pub fn visit_collection(&mut self) -> (res: Result<(), TraversalLimit>)
        ensures
            charged(old(self), final(self), res, charge_visit(old(self).limits, old(self)@)),
    {
        self.collection_visits = self.collection_visits.saturating_add(1);
        if self.collection_visits > self.limits.max_collection_visits {
            return Err(
                limit_message(
                    "context traversal exceeds collection-visit limit ",
                    self.limits.max_collection_visits,
                ),
            );
        }
        Ok(())
    }

    pub fn visit_string(&mut self, value: &str) -> (res: Result<(), TraversalLimit>)
        ensures
            charged(
                old(self),
                final(self),
                res,
                charge_string(old(self).limits, old(self)@, value@),
            ),
    {
        let n: usize = text_len(value);
        if n > self.limits.max_string_bytes {
            let mut message = joined("context string is ", &count_text(n));
            message.append(" bytes; limit is ");
            message.append(&count_text(self.limits.max_string_bytes));
            return Err(TraversalLimit::new(message));
        }
        match self.string_bytes.checked_add(n) {
            None => {
                return Err(
                    TraversalLimit::new(owned("context cumulative string-byte counter overflowed")),
                );
            },
            Some(total) => {
                self.string_bytes = total;
            },
        }
        if self.string_bytes > self.limits.max_string_bytes {
            return Err(
                limit_message(
                    "context traversal exceeds cumulative string-byte limit ",
                    self.limits.max_string_bytes,
                ),
            );
        }
        Ok(())
    }

    pub fn visit_reference(&mut self, reference: &FieldRef) -> (res: Result<(), TraversalLimit>)
        ensures
            charged(
                old(self),
                final(self),
                res,
                charge_reference(old(self).limits, old(self)@, reference@),
            ),
    {
        match &reference.scope {
            ContextScope::Scenario => {},
            ContextScope::Step { step_id } => {
                let visited = self.visit_string(step_id);
                if visited.is_err() {
                    return visited;
                }
            },
            ContextScope::LoopItem { step_id } => {
                let visited = self.visit_string(step_id);
                if visited.is_err() {
                    return visited;
                }
            },
        }
        let ghost limits = self.limits;
        let ghost path = reference@.segments;
        let mut i: usize = 0;
        while i < reference.segments.len()
            invariant
                i <= reference.segments@.len(),
                path == reference@.segments,
                self.limits == limits,
                limits == old(self).limits,
                charge_reference(limits, old(self)@, reference@) == charge_path(
                    limits,
                    self@,
                    path,
                    i as nat,
                ),
            decreases reference.segments@.len() - i,
        {
            assert(path[i as int] == reference.segments@[i as int]@);
            let visited = self.visit_collection();
            if visited.is_err() {
                return visited;
            }
            match &reference.segments[i] {
                ContextPathSegment::Field { name } => {
                    let named = self.visit_string(name);
                    if named.is_err() {
                        return named;
                    }
                },
                ContextPathSegment::Index { .. } => {},
            }
            i = i + 1;
        }
        Ok(())
    }
}

// ---------------------------------------------------------------------------
// Types
// ---------------------------------------------------------------------------
/// The context of a scope among the entries from the `i`-th on.
pub open spec fn find_context(
    limits: ExpressionLimits,
    used: Used,
    entries: Seq<(ScopeView, ContextView)>,
    scope: ScopeView,
    i: nat,
) -> (Used, Result<Option<ContextView>, Seq<char>>)
    decreases entries.len() - i,
{
    if i >= entries.len() {
        (used, Ok(None))
    } else {
        match charge_visit(limits, used) {
            (used, Some(m)) => (used, Err(m)),
            (used, None) => if entries[i as int].0 == scope {
                (used, Ok(Some(entries[i as int].1)))
            } else {
                find_context(limits, used, entries, scope, i + 1)
            },
        }
    }
}

pub open spec fn unsupported_version(version: u32) -> Seq<char> {
    "context version "@ + text::decimal(version as nat) + " is not supported (supported: 1..="@
        + text::decimal(CONTEXT_SCHEMA_VERSION as nat) + ")"@
}

pub open spec fn no_such_reference(reference: FieldRefView) -> Seq<char> {
    "context schema does not contain reference "@ + reference.debug()
}

/// A place in a schema, and what the way to it says of it.
pub struct PlaceView {
    pub target: TypeView,
    pub required: bool,
    pub nullable: bool,
    pub sensitivity: Sensitivity,
}

/// The place that a path leads to from the `i`-th segment on.
pub open spec fn place(at: PlaceView, path: Seq<SegmentView>, i: nat) -> Option<PlaceView>
    decreases path.len() - i,
{
    if i >= path.len() {
        Some(at)
    } else {
        match (at.target, path[i as int]) {
            (TypeView::Object { schema }, SegmentView::Field { name }) => match text_map::lookup(
                schema.fields,
                name,
            ) {
                Some(field) => place(
                    PlaceView {
                        target: field.value_type,
                        required: at.required && field.required,
                        nullable: at.nullable || field.nullable,
                        sensitivity: at.sensitivity.max(field.sensitivity),
                    },
                    path,
                    i + 1,
                ),
                None => match schema.additional_fields.value_type() {
                    Some(extra) => place(
                        PlaceView { target: extra, required: false, ..at },
                        path,
                        i + 1,
                    ),
                    None => None,
                },
            },
            (TypeView::Array { items }, SegmentView::Index { .. }) => place(
                PlaceView { target: *items, required: false, ..at },
                path,
                i + 1,
            ),
            _ => None,
        }
    }
}

/// The place in the store that a reference leads to.
pub open spec fn referenced_place(
    limits: ExpressionLimits,
    used: Used,
    store: StoreView,
    reference: FieldRefView,
) -> (Used, Result<PlaceView, Seq<char>>) {
    if !version_supported(store.version) {
        (used, Err(unsupported_version(store.version)))
    } else {
        match find_context(limits, used, store.entries, reference.scope, 0) {
            (used, Err(m)) => (used, Err(limit_prefix() + m)),
            (used, Ok(None)) => (used, Err(no_such_reference(reference))),
            (used, Ok(Some(context))) => (
                used,
                if !version_supported(context.version) {
                    Err(unsupported_version(context.version))
                } else if context.ambiguous() {
                    Err(
                        "context schema for "@ + reference.debug()
                            + " has conflicting root declarations"@,
                    )
                } else {
                    match declared_root(context) {
                        None => Err(no_such_reference(reference)),
                        Some(root) => match place(
                            PlaceView {
                                target: root,
                                required: true,
                                nullable: false,
                                sensitivity: context.sensitivity,
                            },
                            reference.segments,
                            0,
                        ) {
                            Some(found) => Ok(found),
                            None => Err(no_such_reference(reference)),
                        },
                    }
                },
            ),
        }
    }
}

/// The declared type of a context root.
pub open spec fn declared_root(context: ContextView) -> Option<TypeView> {
    match context.root_type {
        Some(t) => Some(t),
        None => match context.schema {
            Some(schema) => Some(TypeView::Object { schema: Box::new(schema) }),
            None => None,
        },
    }
}

/// Entering a type: one more node, and nothing secret.
pub open spec fn enter(
    limits: ExpressionLimits,
    used: Used,
    sensitivity: Sensitivity,
    depth: nat,
    reference: FieldRefView,
) -> Charge {
    match charge_node(limits, used, depth) {
        (used, Some(m)) => (used, Some(limit_prefix() + m)),
        (used, None) => (used, secret_rejection(sensitivity, reference)),
    }
}

pub open spec fn secret_rejection(
    sensitivity: Sensitivity,
    reference: FieldRefView,
) -> Option<Seq<char>> {
    if sensitivity == Sensitivity::Secret {
        Some(
            "secret context field or subtree "@ + reference.debug()
                + " cannot be used in an expression"@,
        )
    } else {
        None
    }
}

/// The expression type of a context type.
pub open spec fn projected(
    limits: ExpressionLimits,
    used: Used,
    t: TypeView,
    optional: bool,
    nullable: bool,
    sensitivity: Sensitivity,
    depth: nat,
    reference: FieldRefView,
) -> (Used, Result<ExprTypeView, Seq<char>>)
    decreases t, 1int,
{
    match enter(limits, used, sensitivity, depth, reference) {
        (used, Some(m)) => (used, Err(m)),
        (used, None) => {
            let (used, kind) = match t {
                TypeView::Any => (used, Ok(KindView::Any)),
                TypeView::Null => (used, Ok(KindView::Null)),
                TypeView::Boolean => (used, Ok(KindView::Bool)),
                TypeView::Integer => (used, Ok(KindView::Integer)),
                TypeView::Number => (used, Ok(KindView::Number)),
                TypeView::String { .. } => (used, Ok(KindView::String)),
                TypeView::Array { items } => match projected(
                    limits,
                    used,
                    *items,
                    false,
                    false,
                    sensitivity,
                    saturated(depth + 1),
                    reference,
                ) {
                    (used, Ok(item)) => (used, Ok(KindView::List(Box::new(item)))),
                    (used, Err(m)) => (used, Err(m)),
                },
                TypeView::Object { schema } => projected_fields(
                    limits,
                    used,
                    *schema,
                    sensitivity,
                    depth,
                    reference,
                    0,
                    Seq::empty(),
                ),
            };
            (
                used,
                match kind {
                    Ok(kind) => Ok(ExprTypeView { kind, optional, nullable }),
                    Err(m) => Err(m),
                },
            )
        },
    }
}

/// The expression types of the fields of an object from the `i`-th on. Keys
/// that are not listed stay untyped, but their declared type takes part in the
/// limits and in the secrecy check.
pub open spec fn projected_fields(
    limits: ExpressionLimits,
    used: Used,
    schema: SchemaView,
    inherited: Sensitivity,
    depth: nat,
    reference: FieldRefView,
    i: nat,
    done: Seq<(Seq<char>, ExprTypeView)>,
) -> (Used, Result<KindView, Seq<char>>)
    decreases schema, schema.fields.len() - i + 2,
{
    if i < schema.fields.len() {
        let (name, field) = schema.fields[i as int];
        match charge_visit(limits, used) {
            (used, Some(m)) => (used, Err(limit_prefix() + m)),
            (used, None) => match charge_string(limits, used, name) {
                (used, Some(m)) => (used, Err(limit_prefix() + m)),
                (used, None) => match projected(
                    limits,
                    used,
                    field.value_type,
                    !field.required,
                    field.nullable,
                    inherited.max(field.sensitivity),
                    saturated(depth + 1),
                    reference,
                ) {
                    (used, Err(m)) => (used, Err(m)),
                    (used, Ok(t)) => projected_fields(
                        limits,
                        used,
                        schema,
                        inherited,
                        depth,
                        reference,
                        i + 1,
                        done.push((name, t)),
                    ),
                },
            },
        }
    } else {
        match schema.additional_fields {
            AdditionalView::Forbidden => (used, Ok(KindView::Object(done))),
            AdditionalView::Any => match charge_visit(limits, used) {
                (used, Some(m)) => (used, Err(limit_prefix() + m)),
                (used, None) => match enter(
                    limits,
                    used,
                    inherited,
                    saturated(depth + 1),
                    reference,
                ) {
                    (used, Some(m)) => (used, Err(m)),
                    (used, None) => (used, Ok(KindView::Object(done))),
                },
            },
            AdditionalView::Typed(extra) => match charge_visit(limits, used) {
                (used, Some(m)) => (used, Err(limit_prefix() + m)),
                (used, None) => match projected(
                    limits,
                    used,
                    extra,
                    true,
                    false,
                    inherited,
                    saturated(depth + 1),
                    reference,
                ) {
                    (used, Err(m)) => (used, Err(m)),
                    (used, Ok(_)) => (used, Ok(KindView::Object(done))),
                },
            },
        }
    }
}

/// The expression type of a reference into a store.
pub open spec fn store_schema(
    store: StoreView,
    reference: FieldRefView,
    limits: ExpressionLimits,
) -> Result<ExprTypeView, Seq<char>> {
    match charge_reference(limits, unused(), reference) {
        (_, Some(m)) => Err(limit_prefix() + m),
        (used, None) => match referenced_place(limits, used, store, reference) {
            (_, Err(m)) => Err(m),
            (used, Ok(at)) => projected(
                limits,
                used,
                at.target,
                !at.required,
                at.nullable,
                at.sensitivity,
                1,
                reference,
            ).1,
        },
    }
}

#[derive(Clone, Copy)]
enum ProjectionTarget<'a> {
    Type(&'a ContextType),
    Object(&'a ObjectSchema),
}

impl<'a> ProjectionTarget<'a> {
    spec fn view(&self) -> TypeView {
        match self {
            ProjectionTarget::Type(t) => t@,
            ProjectionTarget::Object(schema) => TypeView::Object { schema: Box::new(schema@) },
        }
    }
}

struct ResolvedProjection<'a> {
    target: ProjectionTarget<'a>,
    required: bool,
    nullable: bool,
    sensitivity: Sensitivity,
}

impl<'a> ResolvedProjection<'a> {
    spec fn view(&self) -> PlaceView {
        PlaceView {
            target: self.target@,
            required: self.required,
            nullable: self.nullable,
            sensitivity: self.sensitivity,
        }
    }
}

fn version_error(version: u32) -> (res: SchemaResolutionError)
    ensures
        res.message@ == unsupported_version(version),
{
    let mut message = joined("context version ", &text::decimal_text(version as u64));
    message.append(" is not supported (supported: 1..=");
    message.append(&text::decimal_text(CONTEXT_SCHEMA_VERSION as u64));
    message.append(")");
    SchemaResolutionError { message }
}

fn reference_error(reference: &FieldRef) -> (res: SchemaResolutionError)
    ensures
        res.message@ == no_such_reference(reference@),
{
    SchemaResolutionError {
        message: joined("context schema does not contain reference ", &reference.debug()),
    }
}

fn find_context_bounded<'a>(
    store: &'a ContextStore,
    scope: &ContextScope,
    budget: &mut TraversalBudget,
) -> (res: Result<Option<&'a ContextValue>, TraversalLimit>)
    ensures
        final(budget).limits == old(budget).limits,
        ({
            let (used, found) = find_context(
                old(budget).limits,
                old(budget)@,
                store@.entries,
                scope@,
                0,
            );
            &&& final(budget)@ == used
            &&& match res {
                Ok(Some(context)) => found == Ok::<_, Seq<char>>(Some(context@)),
                Ok(None) => found == Ok::<Option<ContextView>, Seq<char>>(None),
                Err(limit) => found == Err::<Option<ContextView>, _>(limit.message@),
            }
        }),
{
    let ghost limits = budget.limits;
    let mut i: usize = 0;
    while i < store.entries.len()
        invariant
            i <= store.entries@.len(),
            budget.limits == limits,
            limits == old(budget).limits,
            find_context(limits, old(budget)@, store@.entries, scope@, 0) == find_context(
                limits,
                budget@,
                store@.entries,
                scope@,
                i as nat,
            ),
        decreases store.entries@.len() - i,
    {
        match budget.visit_collection() {
            Err(limit) => {
                return Err(limit);
            },
            Ok(_) => {},
        }
        if store.entries[i].scope.same(scope) {
            return Ok(Some(&store.entries[i].context));
        }
        i = i + 1;
    }
    Ok(None)
}

fn resolve_projection_target<'a>(
    store: &'a ContextStore,
    reference: &FieldRef,
    budget: &mut TraversalBudget,
) -> (res: Result<ResolvedProjection<'a>, SchemaResolutionError>)
    ensures
        final(budget).limits == old(budget).limits,
        ({
            let (used, found) = referenced_place(
                old(budget).limits,
                old(budget)@,
                store@,
                reference@,
            );
            &&& final(budget)@ == used
            &&& match res {
                Ok(at) => found == Ok::<PlaceView, Seq<char>>(at@),
                Err(e) => found == Err::<PlaceView, Seq<char>>(e.message@),
            }
        }),
{
    if store.version == 0 || store.version > CONTEXT_SCHEMA_VERSION {
        return Err(version_error(store.version));
    }
    let context = match find_context_bounded(store, &reference.scope, budget) {
        Err(limit) => {
            return Err(limit.schema_error());
        },
        Ok(None) => {
            return Err(reference_error(reference));
        },
        Ok(Some(context)) => context,
    };
    if context.version == 0 || context.version > CONTEXT_SCHEMA_VERSION {
        return Err(version_error(context.version));
    }
    if context.has_ambiguous_type_declaration() {
        let mut message = joined("context schema for ", &reference.debug());
        message.append(" has conflicting root declarations");
        return Err(SchemaResolutionError { message });
    }
    let mut target = match &context.root_type {
        Some(value_type) => ProjectionTarget::Type(value_type),
        None => match &context.schema {
            Some(schema) => ProjectionTarget::Object(schema),
            None => {
                return Err(reference_error(reference));
            },
        },
    };
    let mut required = true;
    let mut nullable = false;
    let mut sensitivity = context.sensitivity;
    let ghost path = reference@.segments;
    let ghost start = PlaceView {
        target: target@,
        required: true,
        nullable: false,
        sensitivity: context.sensitivity,
    };
    let ghost limits = budget.limits;
    let ghost used = budget@;
    let ghost want = referenced_place(old(budget).limits, old(budget)@, store@, reference@);
    assert(want == (
        used,
        (match place(start, path, 0) {
            Some(found) => Ok(found),
            None => Err(no_such_reference(reference@)),
        }),
    ));
    let mut i: usize = 0;
    while i < reference.segments.len()
        invariant
            i <= reference.segments@.len(),
            path == reference@.segments,
            budget@ == used,
            budget.limits == limits,
            limits == old(budget).limits,
            want == referenced_place(old(budget).limits, old(budget)@, store@, reference@),
            want == (
                used,
                (match place(start, path, 0) {
                    Some(found) => Ok(found),
                    None => Err(no_such_reference(reference@)),
                }),
            ),
            place(start, path, 0) == place(
                (PlaceView { target: target@, required, nullable, sensitivity }),
                path,
                i as nat,
            ),
        decreases reference.segments@.len() - i,
    {
        assert(path[i as int] == reference.segments@[i as int]@);
        let next = match (target, &reference.segments[i]) {
            (ProjectionTarget::Object(schema), ContextPathSegment::Field { name }) => {
                step_into(schema, name)
            },
            (ProjectionTarget::Type(t), ContextPathSegment::Field { name }) => match t {
                ContextType::Object { schema } => step_into(schema, name),
                _ => None,
            },
            (ProjectionTarget::Type(t), ContextPathSegment::Index { .. }) => match t {
                ContextType::Array { items } => Some(
                    (&**items, false, false, Sensitivity::Public),
                ),
                _ => None,
            },
            _ => None,
        };
        match next {
            Some((value_type, field_required, field_nullable, field_sensitivity)) => {
                required = required && field_required;
                nullable = nullable || field_nullable;
                sensitivity = sensitivity.combine(field_sensitivity);
                target = ProjectionTarget::Type(value_type);
            },
            None => {
                return Err(reference_error(reference));
            },
        }
        i = i + 1;
    }
    Ok(ResolvedProjection { target, required, nullable, sensitivity })
}

/// The type of a field of an object and what it says of the field.
fn step_into<'a>(schema: &'a ObjectSchema, name: &str) -> (res: Option<
    (&'a ContextType, bool, bool, Sensitivity),
>)
    ensures
        match text_map::lookup(schema@.fields, name@) {
            Some(field) => res matches Some((t, r, n, s)) && t@ == field.value_type && r
                == field.required && n == field.nullable && s == field.sensitivity,
            None => match schema@.additional_fields.value_type() {
                Some(extra) => res matches Some((t, r, n, s)) && t@ == extra && !r && !n && s
                    == Sensitivity::Public,
                None => res is None,
            },
        },
{
    match schema.field(name) {
        Some(field) => Some(
            (&field.value_type, field.required, field.nullable, field.sensitivity),
        ),
        None => match schema.additional_fields.value_type() {
            Some(extra) => Some((extra, false, false, Sensitivity::Public)),
            None => None,
        },
    }
}

pub fn reject_secret_sensitivity(sensitivity: Sensitivity, reference: &FieldRef) -> (res: Result<
    (),
    SchemaResolutionError,
>)
    ensures
        match res {
            Ok(_) => secret_rejection(sensitivity, reference@) is None,
            Err(e) => secret_rejection(sensitivity, reference@) == Some(e.message@),
        },
{
    if sensitivity.is_secret() {
        let mut message = joined("secret context field or subtree ", &reference.debug());
        message.append(" cannot be used in an expression");
        Err(SchemaResolutionError { message })
    } else {
        Ok(())
    }
}

fn enter_type(
    sensitivity: Sensitivity,
    depth: usize,
    reference: &FieldRef,
    budget: &mut TraversalBudget,
) -> (res: Result<(), SchemaResolutionError>)
    ensures
        final(budget).limits == old(budget).limits,
        ({
            let (used, hit) = enter(
                old(budget).limits,
                old(budget)@,
                sensitivity,
                depth as nat,
                reference@,
            );
            &&& final(budget)@ == used
            &&& match res {
                Ok(_) => hit is None,
                Err(e) => hit == Some(e.message@),
            }
        }),
{
    match budget.visit_node(depth) {
        Err(limit) => {
            return Err(limit.schema_error());
        },
        Ok(_) => {},
    }
    reject_secret_sensitivity(sensitivity, reference)
}

fn project_target(
    target: ProjectionTarget<'_>,
    optional: bool,
    nullable: bool,
    sensitivity: Sensitivity,
    depth: usize,
    reference: &FieldRef,
    budget: &mut TraversalBudget,
) -> (res: Result<ExpressionType, SchemaResolutionError>)
    ensures
        resolves(
            res,
            projected(
                old(budget).limits,
                old(budget)@,
                target@,
                optional,
                nullable,
                sensitivity,
                depth as nat,
                reference@,
            ).1,
        ),
{
    match target {
        ProjectionTarget::Type(value_type) => project_context_type(
            value_type,
            optional,
            nullable,
            sensitivity,
            depth,
            reference,
            budget,
        ),
        ProjectionTarget::Object(schema) => {
            match enter_type(sensitivity, depth, reference, budget) {
                Err(e) => {
                    return Err(e);
                },
                Ok(_) => {},
            }
            match project_object_fields(schema, sensitivity, depth, reference, budget) {
                Ok(kind) => Ok(ExpressionType { kind, optional, nullable }),
                Err(e) => Err(e),
            }
        },
    }
}

fn project_context_type(
    value_type: &ContextType,
    optional: bool,
    nullable: bool,
    sensitivity: Sensitivity,
    depth: usize,
    reference: &FieldRef,
    budget: &mut TraversalBudget,
) -> (res: Result<ExpressionType, SchemaResolutionError>)
    ensures
        final(budget).limits == old(budget).limits,
        ({
            let (used, want) = projected(
                old(budget).limits,
                old(budget)@,
                value_type@,
                optional,
                nullable,
                sensitivity,
                depth as nat,
                reference@,
            );
            &&& final(budget)@ == used
            &&& resolves(res, want)
        }),
    decreases value_type,
{
    match enter_type(sensitivity, depth, reference, budget) {
        Err(e) => {
            return Err(e);
        },
        Ok(_) => {},
    }
    let kind = match value_type {
        ContextType::Any => ExpressionTypeKind::Any,
        ContextType::Null => ExpressionTypeKind::Null,
        ContextType::Boolean => ExpressionTypeKind::Bool,
        ContextType::Integer => ExpressionTypeKind::Integer,
        ContextType::Number => ExpressionTypeKind::Number,
        ContextType::String { .. } => ExpressionTypeKind::String,
        ContextType::Array { items } => {
            match project_context_type(
                items,
                false,
                false,
                sensitivity,
                depth.saturating_add(1),
                reference,
                budget,
            ) {
                Ok(item) => ExpressionTypeKind::List(Box::new(item)),
                Err(e) => {
                    return Err(e);
                },
            }
        },
        ContextType::Object { schema } => {
            match project_object_fields(schema, sensitivity, depth, reference, budget) {
                Ok(kind) => kind,
                Err(e) => {
                    return Err(e);
                },
            }
        },
    };
    Ok(ExpressionType { kind, optional, nullable })
}

fn project_object_fields(
    schema: &ObjectSchema,
    inherited: Sensitivity,
    depth: usize,
    reference: &FieldRef,
    budget: &mut TraversalBudget,
) -> (res: Result<ExpressionTypeKind, SchemaResolutionError>)
    ensures
        final(budget).limits == old(budget).limits,
        ({
            let (used, want) = projected_fields(
                old(budget).limits,
                old(budget)@,
                schema@,
                inherited,
                depth as nat,
                reference@,
                0,
                Seq::empty(),
            );
            &&& final(budget)@ == used
            &&& match res {
                Ok(kind) => want == Ok::<KindView, Seq<char>>(kind@),
                Err(e) => want == Err::<KindView, Seq<char>>(e.message@),
            }
        }),
    decreases schema,
{
    let mut done: Vec<(String, ExpressionType)> = Vec::new();
    let ghost limits = budget.limits;
    let mut i: usize = 0;
    assert(type_views(done@) =~= Seq::empty());
    while i < schema.fields.entries.len()
        invariant
            i <= schema.fields.entries@.len(),
            budget.limits == limits,
            limits == old(budget).limits,
            projected_fields(
                limits,
                old(budget)@,
                schema@,
                inherited,
                depth as nat,
                reference@,
                0,
                Seq::empty(),
            ) == projected_fields(
                limits,
                budget@,
                schema@,
                inherited,
                depth as nat,
                reference@,
                i as nat,
                type_views(done@),
            ),
        decreases schema.fields.entries@.len() - i,
    {
        let name = &schema.fields.entries[i].0;
        let field = &schema.fields.entries[i].1;
        proof {
            assert(decreases_to!(*schema => schema.fields));
            assert(decreases_to!(schema.fields.entries@ => schema.fields.entries@[i as int].1));
            assert(schema@.fields[i as int] == (name@, field@));
        }
        match budget.visit_collection() {
            Err(limit) => {
                return Err(limit.schema_error());
            },
            Ok(_) => {},
        }
        match budget.visit_string(name) {
            Err(limit) => {
                return Err(limit.schema_error());
            },
            Ok(_) => {},
        }
        let field_type = match project_context_type(
            &field.value_type,
            !field.required,
            field.nullable,
            inherited.combine(field.sensitivity),
            depth.saturating_add(1),
            reference,
            budget,
        ) {
            Ok(t) => t,
            Err(e) => {
                return Err(e);
            },
        };
        let ghost before = type_views(done@);
        let ghost added = (name@, field_type@);
        done.push((name.clone(), field_type));
        assert(type_views(done@) =~= before.push(added));
        i = i + 1;
    }
    match &schema.additional_fields {
        AdditionalProperties::Forbidden => {},
        AdditionalProperties::Any => {
            match budget.visit_collection() {
                Err(limit) => {
                    return Err(limit.schema_error());
                },
                Ok(_) => {},
            }
            match enter_type(inherited, depth.saturating_add(1), reference, budget) {
                Err(e) => {
                    return Err(e);
                },
                Ok(_) => {},
            }
        },
        AdditionalProperties::Typed(extra) => {
            match budget.visit_collection() {
                Err(limit) => {
                    return Err(limit.schema_error());
                },
                Ok(_) => {},
            }
            match project_context_type(
                extra,
                true,
                false,
                inherited,
                depth.saturating_add(1),
                reference,
                budget,
            ) {
                Err(e) => {
                    return Err(e);
                },
                Ok(_) => {},
            }
        },
    }
    Ok(ExpressionTypeKind::Object(TextMap { entries: done }))
}

fn resolve_context_schema_bounded(
    store: &ContextStore,
    reference: &FieldRef,
    limits: ExpressionLimits,
) -> (res: Result<ExpressionType, SchemaResolutionError>)
    ensures
        resolves(res, store_schema(store@, reference@, limits)),
{
    let mut budget = TraversalBudget::new(limits);
    match budget.visit_reference(reference) {
        Err(limit) => {
            return Err(limit.schema_error());
        },
        Ok(_) => {},
    }
    match resolve_projection_target(store, reference, &mut budget) {
        Err(e) => Err(e),
        Ok(at) => project_target(
            at.target,
            !at.required,
            at.nullable,
            at.sensitivity,
            1,
            reference,
            &mut budget,
        ),
    }
}

impl ExpressionSchemaResolver for ContextStore {
    open spec fn may_resolve_to(
        &self,
        reference: FieldRefView,
        found: Result<ExprTypeView, Seq<char>>,
    ) -> bool {
        found == store_schema(self@, reference, default_limits())
    }

    fn resolve(&self, reference: &FieldRef) -> (res: Result<
        ExpressionType,
        SchemaResolutionError,
    >) {
        resolve_context_schema_bounded(self, reference, ExpressionLimits::default())
    }

    fn resolve_schema_bounded(&self, reference: &FieldRef, limits: ExpressionLimits) -> (res:
        Result<ExpressionType, SchemaResolutionError>)
        ensures
            reported_type(res) == store_schema(self@, reference@, limits),
    {
        resolve_context_schema_bounded(self, reference, limits)
    }
}

// ---------------------------------------------------------------------------
// Values
// ---------------------------------------------------------------------------
/// The expression value of a JSON number.
pub open spec fn number_value(n: NumberView) -> Result<ExprValueView, EvalErrorView> {
    match n {
        NumberView::PosInt(n) => if n <= i64::MAX {
            Ok(ExprValueView::Int(n as i64))
        } else {
            Ok(ExprValueView::UInt(n))
        },
        NumberView::NegInt(n) => Ok(ExprValueView::Int(n)),
        NumberView::Float { bits, .. } => if json::finite_bits(bits) {
            Ok(ExprValueView::Float(bits))
        } else {
            Err(
                EvalErrorView {
                    kind: EvaluationErrorKind::ContractViolation,
                    message: "context contains a non-finite or unsupported JSON number"@,
                },
            )
        },
    }
}

/// The expression value of a JSON value, within limits.
pub open spec fn converted(
    limits: ExpressionLimits,
    used: Used,
    value: ValueView,
    depth: nat,
) -> (Used, Result<ExprValueView, EvalErrorView>)
    decreases value, 1int,
{
    match charge_node(limits, used, depth) {
        (used, Some(m)) => (used, Err(limit_error(m))),
        (used, None) => match value {
            ValueView::Null => (used, Ok(ExprValueView::Null)),
            ValueView::Bool(b) => (used, Ok(ExprValueView::Bool(b))),
            ValueView::Number(n) => (used, number_value(n)),
            ValueView::String(s) => match charge_string(limits, used, s) {
                (used, Some(m)) => (used, Err(limit_error(m))),
                (used, None) => (used, Ok(ExprValueView::String(s))),
            },
            ValueView::Array(items) => converted_items(limits, used, items, depth, 0, Seq::empty()),
            ValueView::Object(members) => converted_members(
                limits,
                used,
                members,
                depth,
                0,
                Seq::empty(),
            ),
        },
    }
}

pub open spec fn converted_items(
    limits: ExpressionLimits,
    used: Used,
    items: Seq<ValueView>,
    depth: nat,
    i: nat,
    done: Seq<ExprValueView>,
) -> (Used, Result<ExprValueView, EvalErrorView>)
    decreases items, items.len() - i,
{
    if i >= items.len() {
        (used, Ok(ExprValueView::List(done)))
    } else {
        match charge_visit(limits, used) {
            (used, Some(m)) => (used, Err(limit_error(m))),
            (used, None) => match converted(limits, used, items[i as int], saturated(depth + 1)) {
                (used, Err(e)) => (used, Err(e)),
                (used, Ok(v)) => converted_items(limits, used, items, depth, i + 1, done.push(v)),
            },
        }
    }
}

pub open spec fn converted_members(
    limits: ExpressionLimits,
    used: Used,
    members: Seq<(Seq<char>, ValueView)>,
    depth: nat,
    i: nat,
    done: Seq<(Seq<char>, ExprValueView)>,
) -> (Used, Result<ExprValueView, EvalErrorView>)
    decreases members, members.len() - i,
{
    if i >= members.len() {
        (used, Ok(ExprValueView::Object(done)))
    } else {
        let (name, value) = members[i as int];
        match charge_visit(limits, used) {
            (used, Some(m)) => (used, Err(limit_error(m))),
            (used, None) => match charge_string(limits, used, name) {
                (used, Some(m)) => (used, Err(limit_error(m))),
                (used, None) => match converted(limits, used, value, saturated(depth + 1)) {
                    (used, Err(e)) => (used, Err(e)),
                    (used, Ok(v)) => converted_members(
                        limits,
                        used,
                        members,
                        depth,
                        i + 1,
                        done.push((name, v)),
                    ),
                },
            },
        }
    }
}

/// What a conversion reports.
pub open spec fn converts(
    res: Result<ExpressionValue, EvaluationError>,
    want: Result<ExprValueView, EvalErrorView>,
) -> bool {
    match res {
        Ok(v) => want == Ok::<ExprValueView, EvalErrorView>(v@),
        Err(e) => want == Err::<ExprValueView, EvalErrorView>(e@),
    }
}

fn expression_value_from_json_with_budget(
    value: &Value,
    depth: usize,
    budget: &mut TraversalBudget,
) -> (res: Result<ExpressionValue, EvaluationError>)
    ensures
        final(budget).limits == old(budget).limits,
        final(budget)@ == converted(old(budget).limits, old(budget)@, value@, depth as nat).0,
        converts(res, converted(old(budget).limits, old(budget)@, value@, depth as nat).1),
    decreases value, 1int,
{
    match budget.visit_node(depth) {
        Err(limit) => {
            return Err(limit.evaluation_error());
        },
        Ok(_) => {},
    }
    match value {
        Value::Null => Ok(ExpressionValue::Null),
        Value::Bool(b) => Ok(ExpressionValue::Bool(*b)),
        Value::Number(number) => match number {
            Number::PosInt(n) => {
                if *n <= i64::MAX as u64 {
                    Ok(ExpressionValue::Int(*n as i64))
                } else {
                    Ok(ExpressionValue::UInt(*n))
                }
            },
            Number::NegInt(n) => Ok(ExpressionValue::Int(*n)),
            Number::Float(f) => {
                if is_finite_bits(f.bits) {
                    Ok(ExpressionValue::Float(f.bits))
                } else {
                    Err(
                        EvaluationError::new(
                            EvaluationErrorKind::ContractViolation,
                            "context contains a non-finite or unsupported JSON number",
                        ),
                    )
                }
            },
        },
        Value::String(s) => match budget.visit_string(s) {
            Err(limit) => Err(limit.evaluation_error()),
            Ok(_) => Ok(ExpressionValue::String(s.clone())),
        },
        Value::Array(items) => convert_items(items, depth, budget),
        Value::Object(map) => convert_members(map, depth, budget),
    }
}

fn convert_items(items: &Vec<Value>, depth: usize, budget: &mut TraversalBudget) -> (res: Result<
    ExpressionValue,
    EvaluationError,
>)
    ensures
        final(budget).limits == old(budget).limits,
        final(budget)@ == converted_items(
            old(budget).limits,
            old(budget)@,
            value_views(items@),
            depth as nat,
            0,
            Seq::empty(),
        ).0,
        converts(
            res,
            converted_items(
                old(budget).limits,
                old(budget)@,
                value_views(items@),
                depth as nat,
                0,
                Seq::empty(),
            ).1,
        ),
    decreases items, 0int,
{
    let mut done: Vec<ExpressionValue> = Vec::new();
    let ghost limits = budget.limits;
    let ghost views = value_views(items@);
    let mut i: usize = 0;
    assert(list_views(done@) =~= Seq::empty());
    while i < items.len()
        invariant
            i <= items@.len(),
            views == value_views(items@),
            budget.limits == limits,
            limits == old(budget).limits,
            converted_items(limits, old(budget)@, views, depth as nat, 0, Seq::empty())
                == converted_items(
                limits,
                budget@,
                views,
                depth as nat,
                i as nat,
                list_views(done@),
            ),
        decreases items@.len() - i,
    {
        assert(decreases_to!(items@ => items@[i as int]));
        assert(views[i as int] == items@[i as int]@);
        match budget.visit_collection() {
            Err(limit) => {
                return Err(limit.evaluation_error());
            },
            Ok(_) => {},
        }
        let item = match expression_value_from_json_with_budget(
            &items[i],
            depth.saturating_add(1),
            budget,
        ) {
            Ok(v) => v,
            Err(e) => {
                return Err(e);
            },
        };
        let ghost before = list_views(done@);
        let ghost added = item@;
        done.push(item);
        assert(list_views(done@) =~= before.push(added));
        i = i + 1;
    }
    Ok(ExpressionValue::List(done))
}

fn convert_members(map: &TextMap<Value>, depth: usize, budget: &mut TraversalBudget) -> (res:
    Result<ExpressionValue, EvaluationError>)
    ensures
        final(budget).limits == old(budget).limits,
        final(budget)@ == converted_members(
            old(budget).limits,
            old(budget)@,
            member_views(map.entries@),
            depth as nat,
            0,
            Seq::empty(),
        ).0,
        converts(
            res,
            converted_members(
                old(budget).limits,
                old(budget)@,
                member_views(map.entries@),
                depth as nat,
                0,
                Seq::empty(),
            ).1,
        ),
    decreases map, 0int,
{
    let mut done: Vec<(String, ExpressionValue)> = Vec::new();
    let ghost limits = budget.limits;
    let ghost views = member_views(map.entries@);
    let mut i: usize = 0;
    assert(entry_views(done@) =~= Seq::empty());
    while i < map.entries.len()
        invariant
            i <= map.entries@.len(),
            views == member_views(map.entries@),
            budget.limits == limits,
            limits == old(budget).limits,
            converted_members(limits, old(budget)@, views, depth as nat, 0, Seq::empty())
                == converted_members(
                limits,
                budget@,
                views,
                depth as nat,
                i as nat,
                entry_views(done@),
            ),
        decreases map.entries@.len() - i,
    {
        let name = &map.entries[i].0;
        assert(decreases_to!(map.entries@ => map.entries@[i as int].1));
        assert(views[i as int] == (name@, map.entries@[i as int].1@));
        match budget.visit_collection() {
            Err(limit) => {
                return Err(limit.evaluation_error());
            },
            Ok(_) => {},
        }
        match budget.visit_string(name) {
            Err(limit) => {
                return Err(limit.evaluation_error());
            },
            Ok(_) => {},
        }
        let item = match expression_value_from_json_with_budget(
            &map.entries[i].1,
            depth.saturating_add(1),
            budget,
        ) {
            Ok(v) => v,
            Err(e) => {
                return Err(e);
            },
        };
        let ghost before = entry_views(done@);
        let ghost added = (name@, item@);
        done.push((name.clone(), item));
        assert(entry_views(done@) =~= before.push(added));
        i = i + 1;
    }
    Ok(ExpressionValue::Object(TextMap { entries: done }))
}

/// The expression value of a JSON value, within the default limits.
pub fn expression_value_from_json(value: &Value) -> (res: Result<ExpressionValue, EvaluationError>)
    ensures
        converts(res, converted(default_limits(), unused(), value@, 1).1),
{
    expression_value_from_json_bounded(value, ExpressionLimits::default())
}

/// The expression value of a JSON value, within limits.
pub fn expression_value_from_json_bounded(value: &Value, limits: ExpressionLimits) -> (res: Result<
    ExpressionValue,
    EvaluationError,
>)
    ensures
        converts(res, converted(limits, unused(), value@, 1).1),
{
    let mut budget = TraversalBudget::new(limits);
    expression_value_from_json_with_budget(value, 1, &mut budget)
}

/// The value of a reference into a store: an error where a limit is hit or the
/// reference has no type, unknown where its scope is not there, missing where
/// the path leads nowhere.
pub open spec fn store_value(
    store: StoreView,
    reference: FieldRefView,
    limits: ExpressionLimits,
) -> OutcomeView {
    match charge_reference(limits, unused(), reference) {
        (_, Some(m)) => OutcomeView::Error(limit_error(m)),
        (used, None) => match find_context(limits, used, store.entries, reference.scope, 0) {
            (_, Err(m)) => OutcomeView::Error(limit_error(m)),
            (_, Ok(None)) => OutcomeView::Unknown(
                "context scope for "@ + reference.debug() + " is not available"@,
            ),
            (used, Ok(Some(context))) => match store_schema(store, reference, limits) {
                Err(m) => OutcomeView::Error(
                    EvalErrorView {
                        kind: if text::has_prefix(m, limit_prefix()) {
                            EvaluationErrorKind::LimitExceeded
                        } else {
                            EvaluationErrorKind::ContractViolation
                        },
                        message: unmarked(m),
                    },
                ),
                Ok(_) => match walk(context.value, reference.segments, 0) {
                    Err(_) => OutcomeView::Missing(
                        "context field "@ + reference.debug() + " is missing"@,
                    ),
                    Ok(value) => match converted(limits, used, value, 1).1 {
                        Ok(v) => OutcomeView::Value(v),
                        Err(e) => OutcomeView::Error(e),
                    },
                },
            },
        },
    }
}

fn resolve_context_value_bounded(
    store: &ContextStore,
    reference: &FieldRef,
    limits: ExpressionLimits,
) -> (res: EvaluationValue)
    ensures
        res@ == store_value(store@, reference@, limits),
{
    let mut budget = TraversalBudget::new(limits);
    match budget.visit_reference(reference) {
        Err(limit) => {
            return EvaluationValue::Error(limit.evaluation_error());
        },
        Ok(_) => {},
    }
    let context = match find_context_bounded(store, &reference.scope, &mut budget) {
        Ok(Some(context)) => context,
        Ok(None) => {
            let mut message = joined("context scope for ", &reference.debug());
            message.append(" is not available");
            return EvaluationValue::unknown(&message);
        },
        Err(limit) => {
            return EvaluationValue::Error(limit.evaluation_error());
        },
    };
    match resolve_context_schema_bounded(store, reference, limits) {
        Err(error) => {
            let kind = if error.is_limit_exceeded() {
                EvaluationErrorKind::LimitExceeded
            } else {
                EvaluationErrorKind::ContractViolation
            };
            return EvaluationValue::error(kind, &error.diagnostic_message());
        },
        Ok(_) => {},
    }
    let mut value = &context.value;
    let ghost path = reference@.segments;
    let ghost used = budget@;
    let mut i: usize = 0;
    while i < reference.segments.len()
        invariant
            i <= reference.segments@.len(),
            path == reference@.segments,
            budget@ == used,
            budget.limits == limits,
            walk(context@.value, path, 0) == walk(value@, path, i as nat),
            store_value(store@, reference@, limits) == (match walk(context@.value, path, 0) {
                Err(_) => OutcomeView::Missing(
                    "context field "@ + reference@.debug() + " is missing"@,
                ),
                Ok(value) => match converted(limits, used, value, 1).1 {
                    Ok(v) => OutcomeView::Value(v),
                    Err(e) => OutcomeView::Error(e),
                },
            }),
        decreases reference.segments@.len() - i,
    {
        assert(path[i as int] == reference.segments@[i as int]@);
        let next = match &reference.segments[i] {
            ContextPathSegment::Field { name } => value.member(name),
            ContextPathSegment::Index { index } => value.item(*index),
        };
        match next {
            Some(next) => {
                value = next;
            },
            None => {
                let mut message = joined("context field ", &reference.debug());
                message.append(" is missing");
                return EvaluationValue::missing(&message);
            },
        }
        i = i + 1;
    }
    match expression_value_from_json_with_budget(value, 1, &mut budget) {
        Ok(v) => EvaluationValue::Value(v),
        Err(e) => EvaluationValue::Error(e),
    }
}

impl ExpressionValueResolver for ContextStore {
    open spec fn may_resolve_to(&self, reference: FieldRefView, found: OutcomeView) -> bool {
        found == store_value(self@, reference, default_limits())
    }

    fn resolve(&self, reference: &FieldRef) -> (res: EvaluationValue) {
        resolve_context_value_bounded(self, reference, ExpressionLimits::default())
    }

    fn resolve_value_bounded(&self, reference: &FieldRef, limits: ExpressionLimits) -> (res:
        EvaluationValue)
        ensures
            res@ == store_value(self@, reference@, limits),
    {
        resolve_context_value_bounded(self, reference, limits)
    }
}

// ---------------------------------------------------------------------------
// Laws
// ---------------------------------------------------------------------------
/// Whether an expression value is a JSON value: scalars of the same kind and content, lists item
/// by item, and objects member by member.
pub open spec fn mirrors(v: ExprValueView, value: ValueView) -> bool
    decreases value,
{
    match value {
        ValueView::Null => v is Null,
        ValueView::Bool(b) => v == ExprValueView::Bool(b),
        ValueView::String(s) => v == ExprValueView::String(s),
        ValueView::Number(n) => match n {
            NumberView::PosInt(n) => (v matches ExprValueView::Int(m) && m == n) || (
            v matches ExprValueView::UInt(m) && m == n),
            NumberView::NegInt(n) => v matches ExprValueView::Int(m) && m == n,
            NumberView::Float { bits, .. } => v == ExprValueView::Float(bits),
        },
        ValueView::Array(items) => v matches ExprValueView::List(list) && list.len() == items.len()
            && forall|i: int| 0 <= i < items.len() ==> mirrors(list[i], #[trigger] items[i]),
        ValueView::Object(members) => v matches ExprValueView::Object(list) && list.len()
            == members.len() && forall|i: int|
            0 <= i < members.len() ==> list[i].0 == (#[trigger] members[i]).0 && mirrors(
                list[i].1,
                members[i].1,
            ),
    }
}

/// A value of the context is handed to an expression as it is.
pub proof fn law_values_are_mirrored(
    limits: ExpressionLimits,
    used: Used,
    value: ValueView,
    depth: nat,
)
    ensures
        converted(limits, used, value, depth).1 matches Ok(v) ==> mirrors(v, value),
        depth <= limits.max_depth && used.nodes < limits.max_nodes && (value is Null || value
            is Bool || (value matches ValueView::Number(n) && n.integer())) ==> converted(
            limits,
            used,
            value,
            depth,
        ).1 is Ok,
    decreases value, 0int,
{
    let used = charge_node(limits, used, depth).0;
    match value {
        ValueView::Array(items) => {
            lemma_items_mirrored(limits, used, items, depth, 0, Seq::empty());
        },
        ValueView::Object(members) => {
            lemma_members_mirrored(limits, used, members, depth, 0, Seq::empty());
        },
        _ => {},
    }
}

proof fn lemma_items_mirrored(
    limits: ExpressionLimits,
    used: Used,
    items: Seq<ValueView>,
    depth: nat,
    i: nat,
    done: Seq<ExprValueView>,
)
    requires
        i <= items.len(),
        done.len() == i,
        forall|k: int| 0 <= k < i ==> mirrors(done[k], #[trigger] items[k]),
    ensures
        converted_items(limits, used, items, depth, i, done).1 matches Ok(v) ==> (
        v matches ExprValueView::List(list) && list.len() == items.len() && forall|k: int|
            0 <= k < items.len() ==> mirrors(list[k], #[trigger] items[k])),
    decreases items, items.len() - i,
{
    if i < items.len() {
        let used = charge_visit(limits, used).0;
        let d = saturated(depth + 1);
        law_values_are_mirrored(limits, used, items[i as int], d);
        let (after, found) = converted(limits, used, items[i as int], d);
        if found is Ok {
            lemma_items_mirrored(limits, after, items, depth, i + 1, done.push(found->Ok_0));
        }
    }
}

proof fn lemma_members_mirrored(
    limits: ExpressionLimits,
    used: Used,
    members: Seq<(Seq<char>, ValueView)>,
    depth: nat,
    i: nat,
    done: Seq<(Seq<char>, ExprValueView)>,
)
    requires
        i <= members.len(),
        done.len() == i,
        forall|k: int|
            0 <= k < i ==> done[k].0 == (#[trigger] members[k]).0 && mirrors(
                done[k].1,
                members[k].1,
            ),
    ensures
        converted_members(limits, used, members, depth, i, done).1 matches Ok(v) ==> (
        v matches ExprValueView::Object(list) && list.len() == members.len() && forall|k: int|
            0 <= k < members.len() ==> list[k].0 == (#[trigger] members[k]).0 && mirrors(
                list[k].1,
                members[k].1,
            )),
    decreases members, members.len() - i,
{
    if i < members.len() {
        let (name, value) = members[i as int];
        let used = charge_string(limits, charge_visit(limits, used).0, name).0;
        let d = saturated(depth + 1);
        assert(decreases_to!(members => members[i as int]));
        assert(decreases_to!(members[i as int] => members[i as int].1));
        law_values_are_mirrored(limits, used, value, d);
        let (after, found) = converted(limits, used, value, d);
        if found is Ok {
            lemma_members_mirrored(
                limits,
                after,
                members,
                depth,
                i + 1,
                done.push((name, found->Ok_0)),
            );
        }
    }
}

/// What an expression reads of a store is what the store holds at the place; what the store does
/// not hold there is missing, and nothing else is.
pub proof fn law_store_value_is_read(
    store: StoreView,
    reference: FieldRefView,
    limits: ExpressionLimits,
)
    ensures
        store_value(store, reference, limits) matches OutcomeView::Value(v) ==> exists|
            context: ContextView,
            value: ValueView,
        | #[trigger]
            walk(context.value, reference.segments, 0) == Ok::<ValueView, nat>(value) && #[trigger]
            mirrors(v, value) && exists|i: int|
                0 <= i < store.entries.len() && #[trigger] store.entries[i] == (
                    reference.scope,
                    context,
                ),
        store_value(store, reference, limits) is Missing ==> exists|context: ContextView|
            walk((#[trigger] context.value), reference.segments, 0) is Err && exists|i: int|
                0 <= i < store.entries.len() && #[trigger] store.entries[i] == (
                    reference.scope,
                    context,
                ),
{
    let (_, fault) = charge_reference(limits, unused(), reference);
    if fault is None {
        let used = charge_reference(limits, unused(), reference).0;
        lemma_found_context(limits, used, store.entries, reference.scope, 0);
        let (after, found) = find_context(limits, used, store.entries, reference.scope, 0);
        match found {
            Ok(Some(context)) => {
                match walk(context.value, reference.segments, 0) {
                    Ok(value) => law_values_are_mirrored(limits, after, value, 1),
                    Err(_) => {},
                }
            },
            _ => {},
        }
    }
}

proof fn lemma_found_context(
    limits: ExpressionLimits,
    used: Used,
    entries: Seq<(ScopeView, ContextView)>,
    scope: ScopeView,
    i: nat,
)
    ensures
        find_context(limits, used, entries, scope, i).1 matches Ok(Some(context)) ==> exists|k: int|
            i <= k < entries.len() && #[trigger] entries[k] == (scope, context),
    decreases entries.len() - i,
{
    if i < entries.len() {
        let used = charge_visit(limits, used).0;
        lemma_found_context(limits, used, entries, scope, i + 1);
    }
}

/// A type of the context is handed to the check as it is: Booleans, integers, numbers and texts
/// by kind, lists by their items, objects as objects; optional and nullable as declared. What is
/// secret has no type for an expression.
pub proof fn law_types_are_mirrored(
    limits: ExpressionLimits,
    used: Used,
    t: TypeView,
    optional: bool,
    nullable: bool,
    sensitivity: Sensitivity,
    depth: nat,
    reference: FieldRefView,
)
    ensures
        ({
            let found = projected(
                limits,
                used,
                t,
                optional,
                nullable,
                sensitivity,
                depth,
                reference,
            ).1;
            &&& sensitivity == Sensitivity::Secret ==> found is Err
            &&& found matches Ok(e) ==> {
                &&& e.optional == optional
                &&& e.nullable == nullable
                &&& t is Any <==> e.kind is Any
                &&& t is Null <==> e.kind is Null
                &&& t is Boolean <==> e.kind is Bool
                &&& t is Integer <==> e.kind is Integer
                &&& t is Number <==> e.kind is Number
                &&& t is String <==> e.kind is String
                &&& t is Array <==> e.kind is List
                &&& t is Object <==> e.kind is Object
            }
            &&& sensitivity != Sensitivity::Secret && depth <= limits.max_depth && used.nodes
                < limits.max_nodes && !(t is Array) && !(t is Object) ==> found is Ok
        }),
{
    match t {
        TypeView::Object { schema } => {
            let used = charge_node(limits, used, depth).0;
            lemma_fields_mirrored(
                limits,
                used,
                *schema,
                sensitivity,
                depth,
                reference,
                0,
                Seq::empty(),
            );
        },
        _ => {},
    }
}

proof fn lemma_fields_mirrored(
    limits: ExpressionLimits,
    used: Used,
    schema: SchemaView,
    inherited: Sensitivity,
    depth: nat,
    reference: FieldRefView,
    i: nat,
    done: Seq<(Seq<char>, ExprTypeView)>,
)
    ensures
        projected_fields(limits, used, schema, inherited, depth, reference, i, done).1 matches Ok(
            kind,
        ) ==> kind is Object,
    decreases schema.fields.len() - i,
{
    if i < schema.fields.len() {
        let (name, field) = schema.fields[i as int];
        let used = charge_string(limits, charge_visit(limits, used).0, name).0;
        let (after, found) = projected(
            limits,
            used,
            field.value_type,
            !field.required,
            field.nullable,
            inherited.max(field.sensitivity),
            saturated(depth + 1),
            reference,
        );
        if found is Ok {
            lemma_fields_mirrored(
                limits,
                after,
                schema,
                inherited,
                depth,
                reference,
                i + 1,
                done.push((name, found->Ok_0)),
            );
        }
    }
}

} // verus!
