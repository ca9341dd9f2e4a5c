//! What a node of a graph may refer to: checks of its bindings, expressions and
//! conditions.
use vstd::prelude::*;

use crate::binding::{bound, resolve_binding};
use crate::context::{
    part_views, Binding, BindingView, ContextScope, FieldRef, FieldRefView, PartView, ScopeView,
    SegmentView, TemplatePart,
};
use crate::expr::{default_limits, ExprView, ExpressionLimits, ExpressionV1};
use crate::expression::{
    check_rule, check_view, checked_rule, diag_views, DiagView, ExpressionDiagnostic,
    ExpressionDiagnosticCode,
};
use crate::faults::{all_reported, fault, fault_if, group_reported, Faults};
use crate::graph_error::{GraphErrorView, GraphFault, GraphValidationErrorKind};
use crate::json::{clone_values, value_text, value_views, Value, ValueView};
use crate::names::has_name;
use crate::preflight::limit_fault;
use crate::resolve::{ResolvedSchemaOwned, ResolvedView};
use crate::rewrite::{
    alias_views, binding_faults, rewrite_graph_aliases, rewritten, validate_quantifier_aliases,
};
use crate::schema::{
    allowed_accept, allowed_values_accept, inferred, ContextType, ObjectSchema, SchemaView,
    Sensitivity, TypeView,
};
use crate::snapshot::{law_store_check, store_schemas};
use crate::static_type::{
    default_binding_limits, display_segments, followed, optional_by_index, present,
    resolve_static_type, segments_text, source_is_optional_only_by_index, static_view,
    StaticBindingType, StaticView,
};
use crate::stats::{expression_size, expression_stats};
use crate::store::{
    ref_views, ContextOrigin, ContextProvenance, ContextStore, ContextValue, ContextView,
    OriginView, ProvenanceView, StoreView,
};
use crate::target::BindingLimits;
use crate::task::{condition_views, ConditionView, StepCondition};
use crate::text;
use crate::text::{joined, owned, same_text, text_views};
use crate::text_map;
use crate::text_map::TextMap;

verus! {

broadcast use group_reported;

// ---------------------------------------------------------------------------
// The model
// ---------------------------------------------------------------------------
/// What is known of all nodes of a graph and of those nested in it: where each
/// stands, what it yields, and which exit codes of a script count as success.
pub struct EnvView {
    pub ids: Seq<(Seq<char>, Seq<char>)>,
    pub schemas: Seq<(Seq<char>, SchemaView)>,
    pub codes: Seq<(Seq<char>, Option<Seq<u32>>)>,
}

/// What one node can see.
pub struct ScopeOf {
    pub env: EnvView,
    pub consumer: Seq<char>,
    pub path: Seq<char>,
    pub visible: Seq<Seq<char>>,
    pub loops: Seq<(Seq<char>, StaticView)>,
    pub aliases: Seq<(Seq<char>, FieldRefView)>,
}

pub open spec fn reference_faults(s: ScopeOf, field: FieldRefView) -> Seq<GraphErrorView> {
    match field.scope {
        ScopeView::Scenario => fault_if(
            true,
            s.path,
            GraphFault::UnknownContextField {
                consumer: s.consumer,
                producer: "scenario input"@,
                field: segments_text(field.segments),
            },
        ),
        ScopeView::LoopItem { step_id } => fault_if(
            !text_map::has_key(s.loops, step_id),
            s.path,
            GraphFault::LoopContextNotVisible { consumer: s.consumer, loop_node: step_id },
        ),
        ScopeView::Step { step_id } => fault_if(
            !s.visible.contains(step_id),
            s.path,
            if text_map::has_key(s.env.ids, step_id) {
                GraphFault::ContextNotVisible { consumer: s.consumer, producer: step_id }
            } else {
                GraphFault::UnknownContextStep { consumer: s.consumer, producer: step_id }
            },
        ),
    }
}

/// Whether a node can see what a reference points into.
pub open spec fn sees(s: ScopeOf, field: FieldRefView) -> bool {
    match field.scope {
        ScopeView::Scenario => false,
        ScopeView::LoopItem { step_id } => text_map::has_key(s.loops, step_id),
        ScopeView::Step { step_id } => s.visible.contains(step_id),
    }
}

pub open spec fn unknown_field(s: ScopeOf, producer: Seq<char>, field: FieldRefView) -> Seq<
    GraphErrorView,
> {
    fault_if(
        true,
        s.path,
        GraphFault::UnknownContextField {
            consumer: s.consumer,
            producer,
            field: segments_text(field.segments),
        },
    )
}

pub open spec fn resolved_static(r: ResolvedView, positionally_optional: bool) -> StaticView {
    StaticView {
        value_type: r.value_type,
        required: r.required,
        nullable: r.nullable,
        sensitivity: r.sensitivity,
        allowed_values: r.allowed_values,
        positionally_optional,
    }
}

/// The type of a reference as far as it is known, and why it is not.
pub open spec fn reference_type(s: ScopeOf, field: FieldRefView) -> (
    Option<StaticView>,
    Seq<GraphErrorView>,
) {
    if !sees(s, field) {
        (None, Seq::empty())
    } else {
        match field.scope {
            ScopeView::Scenario => (None, Seq::empty()),
            ScopeView::LoopItem { step_id } => match followed(
                text_map::lookup(s.loops, step_id)->0,
                field.segments,
                0,
            ) {
                Some(t) => (Some(t), Seq::empty()),
                None => (None, unknown_field(s, step_id, field)),
            },
            ScopeView::Step { step_id } => match text_map::lookup(s.env.schemas, step_id) {
                None => (
                    None,
                    fault_if(
                        true,
                        s.path,
                        GraphFault::OutputSchemaUnavailable {
                            consumer: s.consumer,
                            producer: step_id,
                        },
                    ),
                ),
                Some(schema) => match schema.resolve(field.segments) {
                    Some(r) => (
                        Some(
                            resolved_static(
                                r,
                                optional_by_index(
                                    TypeView::Object { schema: Box::new(schema) },
                                    field.segments,
                                    0,
                                    false,
                                ),
                            ),
                        ),
                        Seq::empty(),
                    ),
                    None => (None, unknown_field(s, step_id, field)),
                },
            },
        }
    }
}

pub open spec fn scalar(t: TypeView) -> bool {
    t is String || t is Boolean || t is Integer || t is Number
}

/// What is wrong with a field in a template.
pub open spec fn part_faults(s: ScopeOf, field: FieldRefView) -> Seq<GraphErrorView> {
    let (t, errors) = reference_type(s, field);
    reference_faults(s, field) + errors + match t {
        None => Seq::empty(),
        Some(t) => fault_if(
            !scalar(t.value_type),
            s.path,
            GraphFault::InterpolatedFieldNotScalar {
                consumer: s.consumer,
                field: segments_text(field.segments),
                actual: t.value_type,
            },
        ) + fault_if(
            !t.required && !t.positionally_optional,
            s.path,
            GraphFault::BindingMayBeMissing {
                node: s.consumer,
                field: "template:"@ + segments_text(field.segments),
            },
        ) + fault_if(
            t.nullable,
            s.path,
            GraphFault::BindingMayBeNull {
                node: s.consumer,
                field: "template:"@ + segments_text(field.segments),
            },
        ),
    }
}

/// What is wrong with the parts of a template from the `i`-th on.
pub open spec fn template_faults(s: ScopeOf, parts: Seq<PartView>, i: nat) -> Seq<GraphErrorView>
    decreases parts.len() - i,
{
    if i >= parts.len() {
        Seq::empty()
    } else {
        match parts[i as int] {
            PartView::Field { field } => part_faults(s, field) + template_faults(s, parts, i + 1),
            PartView::Literal { .. } => template_faults(s, parts, i + 1),
        }
    }
}

/// What is wrong with the references of a binding.
pub open spec fn source_faults(s: ScopeOf, binding: BindingView) -> Seq<GraphErrorView> {
    match binding {
        BindingView::Field { field } => reference_faults(s, field),
        BindingView::Interpolated { parts } => template_faults(s, parts, 0),
        _ => Seq::empty(),
    }
}

/// How sensitive a template is from its `i`-th part on.
pub open spec fn template_sensitivity(
    s: ScopeOf,
    parts: Seq<PartView>,
    i: nat,
    current: Sensitivity,
) -> (Sensitivity, Seq<GraphErrorView>)
    decreases parts.len() - i,
{
    if i >= parts.len() {
        (current, Seq::empty())
    } else {
        match parts[i as int] {
            PartView::Literal { .. } => template_sensitivity(s, parts, i + 1, current),
            PartView::Field { field } => {
                let (t, errors) = reference_type(s, field);
                let next = match t {
                    Some(t) => current.max(t.sensitivity),
                    None => current,
                };
                let (whole, more) = template_sensitivity(s, parts, i + 1, next);
                (whole, errors + more)
            },
        }
    }
}

/// The type of what a binding yields.
pub open spec fn binding_type(s: ScopeOf, binding: BindingView) -> (
    Option<StaticView>,
    Seq<GraphErrorView>,
) {
    let text_type = TypeView::String { format: None };
    match binding {
        BindingView::Literal { value } => (
            Some(
                StaticView {
                    value_type: inferred(value),
                    required: true,
                    nullable: value is Null,
                    sensitivity: Sensitivity::Public,
                    allowed_values: seq![value],
                    positionally_optional: false,
                },
            ),
            Seq::empty(),
        ),
        BindingView::Template { .. } => (
            Some(present(text_type, Sensitivity::Public)),
            Seq::empty(),
        ),
        BindingView::Interpolated { parts } => {
            let (sensitivity, errors) = template_sensitivity(s, parts, 0, Sensitivity::Public);
            (Some(present(text_type, sensitivity)), errors)
        },
        BindingView::Field { field } => reference_type(s, field),
    }
}

pub open spec fn has_field_part(parts: Seq<PartView>) -> bool {
    exists|i: int| 0 <= i < parts.len() && #[trigger] parts[i] is Field
}

/// A binding that reads nothing: it can be checked by value.
pub open spec fn reads_nothing(binding: BindingView) -> bool {
    match binding {
        BindingView::Literal { .. } => true,
        BindingView::Template { .. } => true,
        BindingView::Interpolated { parts } => !has_field_part(parts),
        BindingView::Field { .. } => false,
    }
}

pub open spec fn list_text(values: Seq<ValueView>) -> Seq<char> {
    ValueView::Array(values).text()
}

/// What is wrong with the type of a binding for an input.
pub open spec fn type_faults(
    s: ScopeOf,
    name: Seq<char>,
    binding: BindingView,
    expected: ResolvedView,
    actual: StaticView,
) -> Seq<GraphErrorView> {
    let compatible = (actual.value_type is Null && expected.nullable)
        || expected.value_type.assignable_from(actual.value_type) || (
    binding is Interpolated && (expected.value_type is Any || expected.value_type is String));
    fault_if(
        !compatible,
        s.path,
        GraphFault::BindingTypeMismatch {
            node: s.consumer,
            field: name,
            expected: expected.value_type,
            actual: actual.value_type,
        },
    ) + fault_if(
        !allowed_accept(expected.allowed_values, actual.allowed_values),
        s.path,
        GraphFault::InvalidBindingValue {
            node: s.consumer,
            field: name,
            message: if actual.allowed_values.len() == 0 {
                "source field is not constrained to the consumer's allowed values"@
            } else {
                "source allowed values "@ + list_text(actual.allowed_values)
                    + " are not a subset of "@ + list_text(expected.allowed_values)
            },
        },
    ) + fault_if(
        actual.sensitivity == Sensitivity::Secret && expected.sensitivity != Sensitivity::Secret,
        s.path,
        GraphFault::SecretBindingFlow { node: s.consumer, field: name },
    ) + fault_if(
        expected.required && !actual.required && !actual.positionally_optional,
        s.path,
        GraphFault::BindingMayBeMissing { node: s.consumer, field: name },
    ) + fault_if(
        !expected.nullable && actual.nullable,
        s.path,
        GraphFault::BindingMayBeNull { node: s.consumer, field: name },
    )
}

/// What is wrong with a binding for a declared input.
pub open spec fn input_faults(
    s: ScopeOf,
    name: Seq<char>,
    binding: BindingView,
    expected: ResolvedView,
) -> Seq<GraphErrorView> {
    source_faults(s, binding) + if reads_nothing(binding) {
        match bound(binding, expected, StoreView::empty(), default_binding_limits()) {
            Ok(_) => Seq::empty(),
            Err(e) => fault_if(
                true,
                s.path,
                GraphFault::InvalidBindingValue {
                    node: s.consumer,
                    field: name,
                    message: e.message(),
                },
            ),
        }
    } else {
        let (t, errors) = binding_type(s, binding);
        errors + match t {
            None => Seq::empty(),
            Some(actual) => type_faults(s, name, binding, expected, actual),
        }
    }
}

pub open spec fn code_text(code: ExpressionDiagnosticCode) -> Seq<char> {
    match code {
        ExpressionDiagnosticCode::UnknownReference => "UnknownReference"@,
        ExpressionDiagnosticCode::UnknownLocal => "UnknownLocal"@,
        ExpressionDiagnosticCode::UnknownField => "UnknownField"@,
        ExpressionDiagnosticCode::TypeMismatch => "TypeMismatch"@,
        ExpressionDiagnosticCode::ExpectedBoolean => "ExpectedBoolean"@,
        ExpressionDiagnosticCode::InvalidLiteral => "InvalidLiteral"@,
        ExpressionDiagnosticCode::InvalidRegex => "InvalidRegex"@,
        ExpressionDiagnosticCode::InvalidBinding => "InvalidBinding"@,
        ExpressionDiagnosticCode::LimitExceeded => "LimitExceeded"@,
    }
}

pub open spec fn asked(refs: Seq<FieldRefView>, scope: ScopeView) -> bool {
    exists|i: int| 0 <= i < refs.len() && (#[trigger] refs[i]).scope == scope
}

/// The context of a step whose values are not known yet.
pub open spec fn step_context(step_id: Seq<char>, schema: SchemaView) -> ContextView {
    ContextView {
        schema: Some(schema),
        ..ContextView::new(
            ValueView::Null,
            ProvenanceView {
                origin: OriginView::Step { step_id },
                inputs: Seq::empty(),
                operation: None,
            },
        )
    }
}

/// The context of a loop item whose value is not known yet.
pub open spec fn item_context(step_id: Seq<char>, t: StaticView) -> ContextView {
    ContextView {
        root_type: Some(t.value_type),
        sensitivity: t.sensitivity,
        ..ContextView::new(
            ValueView::Null,
            ProvenanceView {
                origin: OriginView::LoopItem { step_id, index: 0 },
                inputs: Seq::empty(),
                operation: Some("graph-static-schema"@),
            },
        )
    }
}

/// A store with the contexts of the visible steps from the `i`-th on that are
/// asked for.
pub open spec fn with_steps(s: ScopeOf, refs: Seq<FieldRefView>, i: nat, store: StoreView) -> StoreView
    decreases s.visible.len() - i,
{
    if i >= s.visible.len() {
        store
    } else {
        let step_id = s.visible[i as int];
        let scope = ScopeView::Step { step_id };
        let next = match text_map::lookup(s.env.schemas, step_id) {
            Some(schema) => if asked(refs, scope) {
                store.insert(scope, step_context(step_id, schema))
            } else {
                store
            },
            None => store,
        };
        with_steps(s, refs, i + 1, next)
    }
}

pub open spec fn with_loops(s: ScopeOf, refs: Seq<FieldRefView>, i: nat, store: StoreView) -> StoreView
    decreases s.loops.len() - i,
{
    if i >= s.loops.len() {
        store
    } else {
        let (step_id, t) = s.loops[i as int];
        let scope = ScopeView::LoopItem { step_id };
        let next = if asked(refs, scope) {
            store.insert(scope, item_context(step_id, t))
        } else {
            store
        };
        with_loops(s, refs, i + 1, next)
    }
}

/// What an expression at a node can be checked against.
pub open spec fn static_store(s: ScopeOf, refs: Seq<FieldRefView>) -> StoreView {
    with_loops(s, refs, 0, with_steps(s, refs, 0, StoreView::empty()))
}


pub open spec fn diagnostic_faults(s: ScopeOf, list: Seq<DiagView>) -> Seq<GraphErrorView> {
    list.map_values(
        |d: DiagView|
            fault(
                s.path,
                GraphFault::InvalidExpression {
                    node: s.consumer,
                    code: code_text(d.code),
                    location: d.location,
                    message: d.message,
                },
            ),
    )
}

/// What is wrong with a rule at a node.
pub open spec fn rule_faults(s: ScopeOf, e: ExprView) -> Seq<GraphErrorView> {
    match expression_size(e, default_limits()) {
        Err(l) => seq![limit_fault(s.path, l.resource, l.found, l.limit)],
        Ok(_) => {
            let plain = rewritten(
                e,
                s.aliases,
                Seq::empty(),
                1,
                default_limits().max_depth as nat,
            );
            let store = static_store(s, plain.references());
            binding_faults(e, s.consumer, s.path, s.aliases) + match checked_rule(
                store_schemas(store, default_limits()),
                default_limits(),
                plain,
            ) {
                Ok(_) => Seq::empty(),
                Err(list) => diagnostic_faults(s, list),
            }
        },
    }
}

/// The codes from the `i`-th on that do not count as success.
pub open spec fn code_faults(
    s: ScopeOf,
    step: Seq<char>,
    codes: Seq<u32>,
    success: Seq<u32>,
    i: nat,
) -> Seq<GraphErrorView>
    decreases codes.len() - i,
{
    if i >= codes.len() {
        Seq::empty()
    } else {
        fault_if(
            !success.contains(codes[i as int]),
            s.path,
            GraphFault::ExitCodeNotSuccessful {
                consumer: s.consumer,
                producer: step,
                code: codes[i as int],
            },
        ) + code_faults(s, step, codes, success, i + 1)
    }
}

/// What is wrong with a condition on an exit code.
pub open spec fn exit_faults(s: ScopeOf, step: Seq<char>, codes: Seq<u32>) -> Seq<GraphErrorView> {
    let field = FieldRefView {
        scope: ScopeView::Step { step_id: step },
        segments: Seq::empty(),
    };
    reference_faults(s, field) + match text_map::lookup(s.env.codes, step) {
        Some(Some(success)) => code_faults(s, step, codes, success, 0),
        _ => fault_if(
            text_map::has_key(s.env.ids, step),
            s.path,
            GraphFault::ExitCodeSourceNotRunScript { consumer: s.consumer, producer: step },
        ),
    }
}

/// What is wrong with a condition, later parts before earlier ones.
pub open spec fn condition_faults(s: ScopeOf, c: ConditionView) -> Seq<GraphErrorView>
    decreases c, 1int,
{
    match c {
        ConditionView::Expression { rule, .. } => rule_faults(s, rule),
        ConditionView::All { conditions } => conditions_faults(s, conditions, conditions.len()),
        ConditionView::Any { conditions } => conditions_faults(s, conditions, conditions.len()),
        ConditionView::Not { condition } => condition_faults(s, *condition),
        ConditionView::ExitCode { step, codes } => exit_faults(s, step, codes),
        ConditionView::Path { .. } => Seq::empty(),
    }
}

/// The same of the first `n` conditions.
pub open spec fn conditions_faults(s: ScopeOf, list: Seq<ConditionView>, n: nat) -> Seq<
    GraphErrorView,
>
    decreases list, n,
{
    if n == 0 || n > list.len() {
        Seq::empty()
    } else {
        condition_faults(s, list[n - 1]) + conditions_faults(s, list, (n - 1) as nat)
    }
}

// ---------------------------------------------------------------------------
// The checks
// ---------------------------------------------------------------------------
/// What is known of all nodes.
pub struct Env {
    pub ids: Vec<(String, String)>,
    pub schemas: Vec<(String, ObjectSchema)>,
    pub codes: Vec<(String, Option<Vec<u32>>)>,
}

pub open spec fn id_views(list: Seq<(String, String)>) -> Seq<(Seq<char>, Seq<char>)> {
    list.map_values(|x: (String, String)| (x.0@, x.1@))
}

pub open spec fn schema_views(list: Seq<(String, ObjectSchema)>) -> Seq<(Seq<char>, SchemaView)> {
    list.map_values(|x: (String, ObjectSchema)| (x.0@, x.1@))
}

pub open spec fn optional_codes(codes: Option<Vec<u32>>) -> Option<Seq<u32>> {
    match codes {
        Some(codes) => Some(codes@),
        None => None,
    }
}

pub open spec fn code_views(list: Seq<(String, Option<Vec<u32>>)>) -> Seq<
    (Seq<char>, Option<Seq<u32>>),
> {
    list.map_values(|x: (String, Option<Vec<u32>>)| (x.0@, optional_codes(x.1)))
}

pub open spec fn loop_views(list: Seq<(String, StaticBindingType)>) -> Seq<
    (Seq<char>, StaticView),
> {
    list.map_values(|x: (String, StaticBindingType)| (x.0@, x.1@))
}

impl Env {
    pub open spec fn view(&self) -> EnvView {
        EnvView {
            ids: id_views(self.ids@),
            schemas: schema_views(self.schemas@),
            codes: code_views(self.codes@),
        }
    }

    pub fn find_id(&self, id: &str) -> (res: Option<String>)
        ensures
            match res {
                Some(path) => text_map::lookup(self@.ids, id@) == Some(path@),
                None => text_map::lookup(self@.ids, id@) is None,
            },
    {
        let ghost views = id_views(self.ids@);
        let mut i: usize = 0;
        while i < self.ids.len()
            invariant
                i <= self.ids@.len(),
                views == id_views(self.ids@),
                forall|j: int| 0 <= j < i ==> (#[trigger] views[j]).0 != id@,
            decreases self.ids@.len() - i,
        {
            assert(views[i as int] == (self.ids@[i as int].0@, self.ids@[i as int].1@));
            if same_text(&self.ids[i].0, id) {
                proof {
                    text_map::lemma_index_of(views, id@, i as int);
                }
                return Some(self.ids[i].1.clone());
            }
            i = i + 1;
        }
        proof {
            text_map::lemma_index_of(views, id@, views.len() as int);
        }
        None
    }

    pub fn find_schema(&self, id: &str) -> (res: Option<&ObjectSchema>)
        ensures
            match res {
                Some(schema) => text_map::lookup(self@.schemas, id@) == Some(schema@),
                None => text_map::lookup(self@.schemas, id@) is None,
            },
    {
        let ghost views = schema_views(self.schemas@);
        let mut i: usize = 0;
        while i < self.schemas.len()
            invariant
                i <= self.schemas@.len(),
                views == schema_views(self.schemas@),
                forall|j: int| 0 <= j < i ==> (#[trigger] views[j]).0 != id@,
            decreases self.schemas@.len() - i,
        {
            assert(views[i as int] == (self.schemas@[i as int].0@, self.schemas@[i as int].1@));
            if same_text(&self.schemas[i].0, id) {
                proof {
                    text_map::lemma_index_of(views, id@, i as int);
                }
                return Some(&self.schemas[i].1);
            }
            i = i + 1;
        }
        proof {
            text_map::lemma_index_of(views, id@, views.len() as int);
        }
        None
    }

    pub fn find_codes(&self, id: &str) -> (res: Option<&Option<Vec<u32>>>)
        ensures
            match res {
                Some(codes) => text_map::lookup(self@.codes, id@) == Some(optional_codes(*codes)),
                None => text_map::lookup(self@.codes, id@) is None,
            },
    {
        let ghost views = code_views(self.codes@);
        let mut i: usize = 0;
        while i < self.codes.len()
            invariant
                i <= self.codes@.len(),
                views == code_views(self.codes@),
                forall|j: int| 0 <= j < i ==> (#[trigger] views[j]).0 != id@,
            decreases self.codes@.len() - i,
        {
            assert(views[i as int] == (
                self.codes@[i as int].0@,
                optional_codes(self.codes@[i as int].1),
            ));
            if same_text(&self.codes[i].0, id) {
                proof {
                    text_map::lemma_index_of(views, id@, i as int);
                }
                return Some(&self.codes[i].1);
            }
            i = i + 1;
        }
        proof {
            text_map::lemma_index_of(views, id@, views.len() as int);
        }
        None
    }
}

/// What one node can see.
pub struct Scope<'a> {
    pub env: &'a Env,
    pub consumer: &'a str,
    pub path: &'a str,
    pub visible: &'a Vec<String>,
    pub loops: &'a TextMap<StaticBindingType>,
    pub aliases: &'a TextMap<FieldRef>,
}

fn find_loop<'a>(loops: &'a TextMap<StaticBindingType>, id: &str) -> (res: Option<
    &'a StaticBindingType,
>)
    ensures
        match res {
            Some(t) => text_map::lookup(loop_views(loops.entries@), id@) == Some(t@),
            None => text_map::lookup(loop_views(loops.entries@), id@) is None,
        },
{
    let ghost views = loop_views(loops.entries@);
    let mut i: usize = 0;
    while i < loops.entries.len()
        invariant
            i <= loops.entries@.len(),
            views == loop_views(loops.entries@),
            forall|j: int| 0 <= j < i ==> (#[trigger] views[j]).0 != id@,
        decreases loops.entries@.len() - i,
    {
        assert(views[i as int] == (loops.entries@[i as int].0@, loops.entries@[i as int].1@));
        if same_text(&loops.entries[i].0, id) {
            proof {
                text_map::lemma_index_of(views, id@, i as int);
            }
            return Some(&loops.entries[i].1);
        }
        i = i + 1;
    }
    proof {
        text_map::lemma_index_of(views, id@, views.len() as int);
    }
    None
}

impl<'a> Scope<'a> {
    pub open spec fn view(&self) -> ScopeOf {
        ScopeOf {
            env: self.env@,
            consumer: self.consumer@,
            path: self.path@,
            visible: text_views(self.visible@),
            loops: loop_views(self.loops.entries@),
            aliases: alias_views(self.aliases.entries@),
        }
    }

    fn validate_field_ref(&self, field: &FieldRef, faults: &mut Faults)
        ensures
            final(faults)@ == all_reported(old(faults)@, reference_faults(self@, field@)),
    {
        match &field.scope {
            ContextScope::Scenario => {
                faults.report(
                    self.path,
                    GraphValidationErrorKind::UnknownContextField {
                        consumer: owned(self.consumer),
                        producer: owned("scenario input"),
                        field: display_segments(&field.segments),
                    },
                );
            },
            ContextScope::LoopItem { step_id } => {
                if find_loop(self.loops, step_id).is_none() {
                    faults.report(
                        self.path,
                        GraphValidationErrorKind::LoopContextNotVisible {
                            consumer: owned(self.consumer),
                            loop_node: step_id.clone(),
                        },
                    );
                }
            },
            ContextScope::Step { step_id } => {
                if !has_name(self.visible, step_id) {
                    if self.env.find_id(step_id).is_some() {
                        faults.report(
                            self.path,
                            GraphValidationErrorKind::ContextNotVisible {
                                consumer: owned(self.consumer),
                                producer: step_id.clone(),
                            },
                        );
                    } else {
                        faults.report(
                            self.path,
                            GraphValidationErrorKind::UnknownContextStep {
                                consumer: owned(self.consumer),
                                producer: step_id.clone(),
                            },
                        );
                    }
                }
            },
        }
    }

    fn report_unknown_field(&self, producer: &str, field: &FieldRef, faults: &mut Faults)
        ensures
            final(faults)@ == all_reported(old(faults)@, unknown_field(self@, producer@, field@)),
    {
        faults.report(
            self.path,
            GraphValidationErrorKind::UnknownContextField {
                consumer: owned(self.consumer),
                producer: owned(producer),
                field: display_segments(&field.segments),
            },
        );
    }

    fn field_static_type(&self, field: &FieldRef, faults: &mut Faults) -> (res: Option<
        StaticBindingType,
    >)
        ensures
            ({
                let (t, errors) = reference_type(self@, field@);
                static_view(res) == t && final(faults)@ == all_reported(old(faults)@, errors)
            }),
    {
        match &field.scope {
            ContextScope::Scenario => None,
            ContextScope::LoopItem { step_id } => match find_loop(self.loops, step_id) {
                None => None,
                Some(root) => match resolve_static_type(root, &field.segments) {
                    Some(t) => Some(t),
                    None => {
                        self.report_unknown_field(step_id, field, faults);
                        None
                    },
                },
            },
            ContextScope::Step { step_id } => {
                if !has_name(self.visible, step_id) {
                    return None;
                }
                match self.env.find_schema(step_id) {
                    None => {
                        faults.report(
                            self.path,
                            GraphValidationErrorKind::OutputSchemaUnavailable {
                                consumer: owned(self.consumer),
                                producer: step_id.clone(),
                            },
                        );
                        None
                    },
                    Some(schema) => match schema.resolve_owned(field.segments.as_slice()) {
                        Some(r) => Some(
                            StaticBindingType {
                                value_type: r.value_type,
                                required: r.required,
                                nullable: r.nullable,
                                sensitivity: r.sensitivity,
                                allowed_values: r.allowed_values,
                                positionally_optional: source_is_optional_only_by_index(
                                    schema,
                                    &field.segments,
                                ),
                            },
                        ),
                        None => {
                            self.report_unknown_field(step_id, field, faults);
                            None
                        },
                    },
                }
            },
        }
    }

    fn validate_part(&self, field: &FieldRef, faults: &mut Faults)
        ensures
            final(faults)@ == all_reported(old(faults)@, part_faults(self@, field@)),
    {
        self.validate_field_ref(field, faults);
        match self.field_static_type(field, faults) {
            None => {},
            Some(actual) => {
                let is_scalar = matches!(
                    actual.value_type,
                    ContextType::String { .. }
                    | ContextType::Boolean
                    | ContextType::Integer
                    | ContextType::Number
                );
                if !is_scalar {
                    faults.report(
                        self.path,
                        GraphValidationErrorKind::InterpolatedFieldNotScalar {
                            consumer: owned(self.consumer),
                            field: display_segments(&field.segments),
                            actual: actual.value_type,
                        },
                    );
                }
                if !actual.required && !actual.positionally_optional {
                    faults.report(
                        self.path,
                        GraphValidationErrorKind::BindingMayBeMissing {
                            node: owned(self.consumer),
                            field: joined("template:", &display_segments(&field.segments)),
                        },
                    );
                }
                if actual.nullable {
                    faults.report(
                        self.path,
                        GraphValidationErrorKind::BindingMayBeNull {
                            node: owned(self.consumer),
                            field: joined("template:", &display_segments(&field.segments)),
                        },
                    );
                }
            },
        }
    }

    /// Checks the references of a binding.
    pub fn validate_binding(&self, binding: &Binding, faults: &mut Faults)
        ensures
            final(faults)@ == all_reported(old(faults)@, source_faults(self@, binding@)),
    {
        match binding {
            Binding::Field { field } => {
                self.validate_field_ref(field, faults);
            },
            Binding::Interpolated { parts } => {
                let ghost s = self@;
                let ghost views = part_views(parts@);
                let mut i: usize = 0;
                while i < parts.len()
                    invariant
                        i <= parts@.len(),
                        s == self@,
                        views == part_views(parts@),
                        all_reported(old(faults)@, template_faults(s, views, 0)) == all_reported(
                            faults@,
                            template_faults(s, views, i as nat),
                        ),
                    decreases parts@.len() - i,
                {
                    assert(views[i as int] == parts@[i as int]@);
                    match &parts[i] {
                        TemplatePart::Field { field } => {
                            self.validate_part(field, faults);
                        },
                        TemplatePart::Literal { .. } => {},
                    }
                    i = i + 1;
                }
            },
            _ => {},
        }
    }

    fn interpolated_sensitivity(&self, parts: &Vec<TemplatePart>, faults: &mut Faults) -> (res:
        Sensitivity)
        ensures
            ({
                let (sensitivity, errors) = template_sensitivity(
                    self@,
                    part_views(parts@),
                    0,
                    Sensitivity::Public,
                );
                res == sensitivity && final(faults)@ == all_reported(old(faults)@, errors)
            }),
    {
        let ghost s = self@;
        let ghost views = part_views(parts@);
        let ghost whole = template_sensitivity(s, views, 0, Sensitivity::Public);
        let mut current = Sensitivity::Public;
        let mut i: usize = 0;
        while i < parts.len()
            invariant
                i <= parts@.len(),
                s == self@,
                views == part_views(parts@),
                whole.0 == template_sensitivity(s, views, i as nat, current).0,
                all_reported(old(faults)@, whole.1) == all_reported(
                    faults@,
                    template_sensitivity(s, views, i as nat, current).1,
                ),
            decreases parts@.len() - i,
        {
            assert(views[i as int] == parts@[i as int]@);
            match &parts[i] {
                TemplatePart::Field { field } => {
                    match self.field_static_type(field, faults) {
                        Some(t) => {
                            current = current.combine(t.sensitivity);
                        },
                        None => {},
                    }
                },
                TemplatePart::Literal { .. } => {},
            }
            i = i + 1;
        }
        current
    }

    /// The type of what a binding yields, as far as it is known.
    pub fn binding_static_type(&self, binding: &Binding, faults: &mut Faults) -> (res: Option<
        StaticBindingType,
    >)
        ensures
            ({
                let (t, errors) = binding_type(self@, binding@);
                static_view(res) == t && final(faults)@ == all_reported(old(faults)@, errors)
            }),
    {
        match binding {
            Binding::Literal { value } => {
                let mut allowed_values: Vec<Value> = Vec::new();
                allowed_values.push(value.clone());
                assert(value_views(allowed_values@) =~= seq![value@]);
                Some(
                    StaticBindingType {
                        value_type: ContextType::infer(value),
                        required: true,
                        nullable: value.is_null(),
                        sensitivity: Sensitivity::Public,
                        allowed_values,
                        positionally_optional: false,
                    },
                )
            },
            Binding::Template { .. } => Some(
                StaticBindingType::present(ContextType::plain_string(), Sensitivity::Public),
            ),
            Binding::Interpolated { parts } => {
                let sensitivity = self.interpolated_sensitivity(parts, faults);
                Some(StaticBindingType::present(ContextType::plain_string(), sensitivity))
            },
            Binding::Field { field } => self.field_static_type(field, faults),
        }
    }

    fn validate_input_type(
        &self,
        name: &str,
        binding: &Binding,
        expected: &ResolvedSchemaOwned,
        actual: StaticBindingType,
        faults: &mut Faults,
    )
        ensures
            final(faults)@ == all_reported(
                old(faults)@,
                type_faults(self@, name@, binding@, expected@, actual@),
            ),
    {
        let interpolated = matches!(binding, Binding::Interpolated { .. });
        let compatible = (matches!(actual.value_type, ContextType::Null) && expected.nullable)
            || expected.value_type.is_assignable_from(&actual.value_type) || (interpolated
            && matches!(expected.value_type, ContextType::Any | ContextType::String { .. }));
        if !compatible {
            faults.report(
                self.path,
                GraphValidationErrorKind::BindingTypeMismatch {
                    node: owned(self.consumer),
                    field: owned(name),
                    expected: expected.value_type.clone(),
                    actual: actual.value_type,
                },
            );
        }
        if !allowed_values_accept(&expected.allowed_values, &actual.allowed_values) {
            let message = if actual.allowed_values.len() == 0 {
                owned("source field is not constrained to the consumer's allowed values")
            } else {
                let mut out = joined(
                    "source allowed values ",
                    &value_text(&Value::Array(clone_values(&actual.allowed_values))),
                );
                out.append(" are not a subset of ");
                out.append(&value_text(&Value::Array(clone_values(&expected.allowed_values))));
                out
            };
            faults.report(
                self.path,
                GraphValidationErrorKind::InvalidBindingValue {
                    node: owned(self.consumer),
                    field: owned(name),
                    message,
                },
            );
        }
        if actual.sensitivity.is_secret() && expected.sensitivity != Sensitivity::Secret {
            faults.report(
                self.path,
                GraphValidationErrorKind::SecretBindingFlow {
                    node: owned(self.consumer),
                    field: owned(name),
                },
            );
        }
        if expected.required && !actual.required && !actual.positionally_optional {
            faults.report(
                self.path,
                GraphValidationErrorKind::BindingMayBeMissing {
                    node: owned(self.consumer),
                    field: owned(name),
                },
            );
        }
        if !expected.nullable && actual.nullable {
            faults.report(
                self.path,
                GraphValidationErrorKind::BindingMayBeNull {
                    node: owned(self.consumer),
                    field: owned(name),
                },
            );
        }
    }

    /// Checks a binding for a declared input.
    pub fn validate_typed_action_binding(
        &self,
        name: &str,
        binding: &Binding,
        expected: &ResolvedSchemaOwned,
        faults: &mut Faults,
    )
        ensures
            final(faults)@ == all_reported(
                old(faults)@,
                input_faults(self@, name@, binding@, expected@),
            ),
    {
        self.validate_binding(binding, faults);
        if binding_reads_nothing(binding) {
            let store = ContextStore::default();
            match resolve_binding(binding, expected, &store, BindingLimits::default()) {
                Ok(_) => {},
                Err(error) => {
                    faults.report(
                        self.path,
                        GraphValidationErrorKind::InvalidBindingValue {
                            node: owned(self.consumer),
                            field: owned(name),
                            message: error.message(),
                        },
                    );
                },
            }
            return ;
        }
        match self.binding_static_type(binding, faults) {
            None => {},
            Some(actual) => {
                self.validate_input_type(name, binding, expected, actual, faults);
            },
        }
    }

    /// The context that an expression at this node can be checked against.
    fn expression_context_store(&self, refs: &Vec<FieldRef>) -> (res: ContextStore)
        ensures
            res@ == static_store(self@, ref_views(refs@)),
    {
        let ghost s = self@;
        let ghost wanted = ref_views(refs@);
        let mut store = ContextStore::default();
        let mut i: usize = 0;
        while i < self.visible.len()
            invariant
                i <= self.visible@.len(),
                s == self@,
                wanted == ref_views(refs@),
                with_steps(s, wanted, 0, StoreView::empty()) == with_steps(
                    s,
                    wanted,
                    i as nat,
                    store@,
                ),
            decreases self.visible@.len() - i,
        {
            let step_id = &self.visible[i];
            assert(s.visible[i as int] == step_id@);
            match self.env.find_schema(step_id) {
                Some(schema) => {
                    let scope = ContextScope::Step { step_id: step_id.clone() };
                    if is_asked(refs, &scope) {
                        let context = ContextValue::new(
                            Value::Null,
                            ContextProvenance::step(step_id),
                        ).with_schema(schema.clone());
                        store.insert(scope, context);
                    }
                },
                None => {},
            }
            i = i + 1;
        }
        let ghost steps = store@;
        let mut k: usize = 0;
        while k < self.loops.entries.len()
            invariant
                k <= self.loops.entries@.len(),
                s == self@,
                wanted == ref_views(refs@),
                steps == with_steps(s, wanted, 0, StoreView::empty()),
                with_loops(s, wanted, 0, steps) == with_loops(s, wanted, k as nat, store@),
            decreases self.loops.entries@.len() - k,
        {
            let step_id = &self.loops.entries[k].0;
            let t = &self.loops.entries[k].1;
            assert(s.loops[k as int] == (step_id@, t@));
            let scope = ContextScope::LoopItem { step_id: step_id.clone() };
            if is_asked(refs, &scope) {
                let inputs: Vec<FieldRef> = Vec::new();
                assert(ref_views(inputs@) =~= Seq::empty());
                let provenance = ContextProvenance {
                    origin: ContextOrigin::LoopItem { step_id: step_id.clone(), index: 0 },
                    inputs,
                    operation: Some(owned("graph-static-schema")),
                };
                let context = ContextValue::new(Value::Null, provenance).with_type(
                    t.value_type.clone(),
                ).sensitive(t.sensitivity);
                store.insert(scope, context);
            }
            k = k + 1;
        }
        store
    }

    /// Checks a rule at this node.
    pub fn validate_checked_expression(&self, e: &ExpressionV1, faults: &mut Faults)
        ensures
            final(faults)@ == all_reported(old(faults)@, rule_faults(self@, e@)),
    {
        let limits = ExpressionLimits::default();
        match expression_stats(e, limits) {
            Err(l) => {
                faults.report(
                    self.path,
                    GraphValidationErrorKind::ResourceLimitExceeded {
                        resource: l.resource,
                        found: l.found,
                        limit: l.limit,
                    },
                );
                return ;
            },
            Ok(_) => {},
        }
        validate_quantifier_aliases(e, self.consumer, self.path, self.aliases, faults);
        let mut bound: Vec<String> = Vec::new();
        assert(text_views(bound@) =~= Seq::empty());
        let plain = rewrite_graph_aliases(e, self.aliases, &mut bound, 1, limits.max_depth);
        let refs = plain.visit_context_references();
        let store = self.expression_context_store(&refs);
        let ghost view = plain@;
        let checked = check_rule(plain, &store, limits);
        proof {
            law_store_check(&store, limits, view, check_view(checked));
        }
        match checked {
            Ok(_) => {},
            Err(list) => {
                self.report_diagnostics(&list, faults);
            },
        }
    }

    fn report_diagnostics(&self, list: &Vec<ExpressionDiagnostic>, faults: &mut Faults)
        ensures
            final(faults)@ == all_reported(
                old(faults)@,
                diagnostic_faults(self@, diag_views(list@)),
            ),
    {
        let ghost all = diagnostic_faults(self@, diag_views(list@));
        let mut i: usize = 0;
        assert(all.take(0) =~= Seq::empty());
        while i < list.len()
            invariant
                i <= list@.len(),
                all == diagnostic_faults(self@, diag_views(list@)),
                faults@ == all_reported(old(faults)@, all.take(i as int)),
            decreases list@.len() - i,
        {
            let d = &list[i];
            faults.report(
                self.path,
                GraphValidationErrorKind::InvalidExpression {
                    node: owned(self.consumer),
                    code: show_code(d.code),
                    location: d.location.clone(),
                    message: d.message.clone(),
                },
            );
            proof {
                assert(diag_views(list@)[i as int] == d@);
                assert(all.take(i + 1) =~= all.take(i as int) + seq![all[i as int]]);
            }
            i = i + 1;
        }
        assert(all.take(i as int) =~= all);
    }

    fn validate_exit_codes(
        &self,
        step: &str,
        codes: &Vec<u32>,
        success: &Vec<u32>,
        faults: &mut Faults,
    )
        ensures
            final(faults)@ == all_reported(
                old(faults)@,
                code_faults(self@, step@, codes@, success@, 0),
            ),
    {
        let ghost s = self@;
        let mut i: usize = 0;
        while i < codes.len()
            invariant
                i <= codes@.len(),
                s == self@,
                all_reported(old(faults)@, code_faults(s, step@, codes@, success@, 0))
                    == all_reported(
                    faults@,
                    code_faults(s, step@, codes@, success@, i as nat),
                ),
            decreases codes@.len() - i,
        {
            if !has_code(success, codes[i]) {
                faults.report(
                    self.path,
                    GraphValidationErrorKind::ExitCodeNotSuccessful {
                        consumer: owned(self.consumer),
                        producer: owned(step),
                        code: codes[i],
                    },
                );
            }
            i = i + 1;
        }
    }

    /// Checks a condition at this node.
    pub fn validate_step_condition(&self, condition: &StepCondition, faults: &mut Faults)
        ensures
            final(faults)@ == all_reported(old(faults)@, condition_faults(self@, condition@)),
        decreases condition, 1int,
    {
        match condition {
            StepCondition::Expression { rule, .. } => {
                self.validate_checked_expression(rule, faults);
            },
            StepCondition::All { conditions } | StepCondition::Any { conditions } => {
                self.validate_conditions(conditions, faults);
            },
            StepCondition::Not { condition } => {
                self.validate_step_condition(condition, faults);
            },
            StepCondition::ExitCode { step, codes } => {
                let field = FieldRef::step(step);
                self.validate_field_ref(&field, faults);
                match self.env.find_codes(step) {
                    Some(Some(success)) => {
                        self.validate_exit_codes(step, codes, success, faults);
                    },
                    _ => {
                        if self.env.find_id(step).is_some() {
                            faults.report(
                                self.path,
                                GraphValidationErrorKind::ExitCodeSourceNotRunScript {
                                    consumer: owned(self.consumer),
                                    producer: step.clone(),
                                },
                            );
                        }
                    },
                }
            },
            StepCondition::Path { .. } => {},
        }
    }

    fn validate_conditions(&self, list: &Vec<StepCondition>, faults: &mut Faults)
        ensures
            final(faults)@ == all_reported(
                old(faults)@,
                conditions_faults(self@, condition_views(list@), list@.len()),
            ),
        decreases list, 0int,
    {
        let ghost s = self@;
        let ghost views = condition_views(list@);
        let mut n: usize = list.len();
        while n > 0
            invariant
                n <= list@.len(),
                s == self@,
                views == condition_views(list@),
                all_reported(old(faults)@, conditions_faults(s, views, list@.len()))
                    == all_reported(faults@, conditions_faults(s, views, n as nat)),
            decreases n,
        {
            n = n - 1;
            assert(decreases_to!(list@ => list@[n as int]));
            assert(views[n as int] == list@[n as int]@);
            self.validate_step_condition(&list[n], faults);
        }
    }
}

fn has_code(list: &Vec<u32>, code: u32) -> (res: bool)
    ensures
        res == list@.contains(code),
{
    let mut i: usize = 0;
    while i < list.len()
        invariant
            i <= list@.len(),
            forall|j: int| 0 <= j < i ==> list@[j] != code,
        decreases list@.len() - i,
    {
        if list[i] == code {
            return true;
        }
        i = i + 1;
    }
    false
}

fn is_asked(refs: &Vec<FieldRef>, scope: &ContextScope) -> (res: bool)
    ensures
        res == asked(ref_views(refs@), scope@),
{
    let ghost views = ref_views(refs@);
    let mut i: usize = 0;
    while i < refs.len()
        invariant
            i <= refs@.len(),
            views == ref_views(refs@),
            forall|j: int| 0 <= j < i ==> (#[trigger] views[j]).scope != scope@,
        decreases refs@.len() - i,
    {
        assert(views[i as int] == refs@[i as int]@);
        if refs[i].scope.same(scope) {
            return true;
        }
        i = i + 1;
    }
    false
}

fn binding_reads_nothing(binding: &Binding) -> (res: bool)
    ensures
        res == reads_nothing(binding@),
{
    match binding {
        Binding::Literal { .. } | Binding::Template { .. } => true,
        Binding::Field { .. } => false,
        Binding::Interpolated { parts } => {
            let ghost views = part_views(parts@);
            let mut i: usize = 0;
            while i < parts.len()
                invariant
                    i <= parts@.len(),
                    views == part_views(parts@),
                    binding@ == (BindingView::Interpolated { parts: views }),
                    forall|j: int| 0 <= j < i ==> !(#[trigger] views[j] is Field),
                decreases parts@.len() - i,
            {
                assert(views[i as int] == parts@[i as int]@);
                if matches!(&parts[i], TemplatePart::Field { .. }) {
                    assert(has_field_part(views));
                    return false;
                }
                i = i + 1;
            }
            assert(!has_field_part(views));
            true
        },
    }
}

fn show_code(code: ExpressionDiagnosticCode) -> (res: String)
    ensures
        res@ == code_text(code),
{
    match code {
        ExpressionDiagnosticCode::UnknownReference => owned("UnknownReference"),
        ExpressionDiagnosticCode::UnknownLocal => owned("UnknownLocal"),
        ExpressionDiagnosticCode::UnknownField => owned("UnknownField"),
        ExpressionDiagnosticCode::TypeMismatch => owned("TypeMismatch"),
        ExpressionDiagnosticCode::ExpectedBoolean => owned("ExpectedBoolean"),
        ExpressionDiagnosticCode::InvalidLiteral => owned("InvalidLiteral"),
        ExpressionDiagnosticCode::InvalidRegex => owned("InvalidRegex"),
        ExpressionDiagnosticCode::InvalidBinding => owned("InvalidBinding"),
        ExpressionDiagnosticCode::LimitExceeded => owned("LimitExceeded"),
    }
}

// ---------------------------------------------------------------------------
// Laws
// ---------------------------------------------------------------------------
/// Whether a node can see what a reference points into: a step that always runs before it, or
/// the item of a loop that it is in. The scenario itself gives nothing.
pub open spec fn in_sight(s: ScopeOf, field: FieldRefView) -> bool {
    match field.scope {
        ScopeView::Scenario => false,
        ScopeView::Step { step_id } => s.visible.contains(step_id),
        ScopeView::LoopItem { step_id } => exists|i: int|
            0 <= i < s.loops.len() && (#[trigger] s.loops[i]).0 == step_id,
    }
}

/// Whether a source of a declared type can serve an input: its type can be assigned, or it is
/// null for a nullable input; its values are among those that the input lists; it is secret
/// only if the input is; it is there whenever the input needs it; and it is null only where the
/// input may be.
pub open spec fn serves(actual: StaticView, expected: ResolvedView) -> bool {
    &&& expected.value_type.assignable_from(actual.value_type) || (actual.value_type is Null
        && expected.nullable)
    &&& allowed_accept(expected.allowed_values, actual.allowed_values)
    &&& actual.sensitivity == Sensitivity::Secret ==> expected.sensitivity == Sensitivity::Secret
    &&& expected.required ==> actual.required || actual.positionally_optional
    &&& actual.nullable ==> expected.nullable
}

/// A reference is refused if and only if it points into what its node does not see.
pub proof fn law_reference_in_sight(s: ScopeOf, field: FieldRefView)
    ensures
        reference_faults(s, field).len() == 0 <==> in_sight(s, field),
{
    match field.scope {
        ScopeView::LoopItem { step_id } => {
            text_map::lemma_found(s.loops, step_id);
            if in_sight(s, field) {
                let i = choose|i: int|
                    0 <= i < s.loops.len() && (#[trigger] s.loops[i]).0 == step_id;
                assert(text_map::index_of(s.loops, step_id) <= i);
            }
            if text_map::has_key(s.loops, step_id) {
                assert(s.loops[text_map::index_of(s.loops, step_id) as int].0 == step_id);
            }
        },
        _ => {},
    }
}

/// A direct binding is accepted if and only if its source is in sight, has a type, and can
/// serve the input.
pub proof fn law_field_binding_is_accepted(
    s: ScopeOf,
    name: Seq<char>,
    field: FieldRefView,
    expected: ResolvedView,
)
    ensures
        input_faults(s, name, BindingView::Field { field }, expected).len() == 0 <==> {
            &&& in_sight(s, field)
            &&& reference_type(s, field).0 matches Some(actual) && serves(actual, expected)
        },
{
    law_reference_in_sight(s, field);
}

/// A reference to a field that the schema of a step in sight declares has that type; one to a
/// field that it does not declare has none.
pub proof fn law_step_reference_type(s: ScopeOf, step_id: Seq<char>, path: Seq<SegmentView>)
    requires
        s.visible.contains(step_id),
        text_map::lookup(s.env.schemas, step_id) is Some,
    ensures
        ({
            let field = FieldRefView { scope: ScopeView::Step { step_id }, segments: path };
            let declared = text_map::lookup(s.env.schemas, step_id)->0.resolve(path);
            let (found, errors) = reference_type(s, field);
            match declared {
                Some(r) => {
                    &&& errors.len() == 0
                    &&& found matches Some(t)
                    &&& t.value_type == r.value_type
                    &&& t.required == r.required
                    &&& t.nullable == r.nullable
                    &&& t.sensitivity == r.sensitivity
                    &&& t.allowed_values == r.allowed_values
                },
                None => errors.len() > 0 && found is None,
            }
        }),
{
}

/// A field can stand in a template if and only if it is in sight, has a scalar type, and is
/// there and not null.
pub proof fn law_template_field_is_accepted(s: ScopeOf, field: FieldRefView)
    ensures
        part_faults(s, field).len() == 0 <==> {
            &&& in_sight(s, field)
            &&& reference_type(s, field).0 matches Some(t) && {
                &&& t.value_type is String || t.value_type is Boolean || t.value_type is Integer
                    || t.value_type is Number
                &&& t.required || t.positionally_optional
                &&& !t.nullable
            }
        },
{
    law_reference_in_sight(s, field);
}

/// A literal is accepted for an input if and only if it meets the input's contract.
pub proof fn law_literal_binding_is_accepted(
    s: ScopeOf,
    name: Seq<char>,
    value: ValueView,
    expected: ResolvedView,
)
    ensures
        input_faults(s, name, BindingView::Literal { value }, expected).len() == 0
            <==> crate::binding::value_fault(value, expected) is None,
{
}

/// A rule is accepted if and only if it is within the limits on size, its quantifiers bind no
/// alias of a loop, and it passes the check as a Boolean rule over the types that its node can
/// see, with the aliases replaced.
pub proof fn law_rule_is_accepted(s: ScopeOf, e: ExprView)
    ensures
        rule_faults(s, e).len() == 0 <==> {
            let limits = default_limits();
            let plain = rewritten(e, s.aliases, Seq::empty(), 1, limits.max_depth as nat);
            let store = static_store(s, plain.references());
            &&& expression_size(e, limits) is Ok
            &&& binding_faults(e, s.consumer, s.path, s.aliases).len() == 0
            &&& checked_rule(store_schemas(store, limits), limits, plain) is Ok
        },
{
    let limits = default_limits();
    let plain = rewritten(e, s.aliases, Seq::empty(), 1, limits.max_depth as nat);
    let store = static_store(s, plain.references());
    crate::typing::law_check_accepts(store_schemas(store, limits), limits, plain);
    match checked_rule(store_schemas(store, limits), limits, plain) {
        Err(list) => {
            assert(diagnostic_faults(s, list).len() == list.len());
        },
        Ok(_) => {},
    }
}

/// A condition of several is accepted if and only if each of them is; a negation if what it
/// negates is; a condition on a path always.
pub proof fn law_conditions_are_accepted(
    s: ScopeOf,
    list: Seq<ConditionView>,
    inner: ConditionView,
)
    ensures
        condition_faults(s, ConditionView::All { conditions: list }).len() == 0 <==> forall|k: int|
            0 <= k < list.len() ==> condition_faults(s, #[trigger] list[k]).len() == 0,
        condition_faults(s, ConditionView::Any { conditions: list }).len() == 0 <==> forall|k: int|
            0 <= k < list.len() ==> condition_faults(s, #[trigger] list[k]).len() == 0,
        condition_faults(s, ConditionView::Not { condition: Box::new(inner) }).len() == 0
            <==> condition_faults(s, inner).len() == 0,
        inner is Path ==> condition_faults(s, inner).len() == 0,
        inner matches ConditionView::Expression { rule, .. } ==> (condition_faults(s, inner).len()
            == 0 <==> rule_faults(s, rule).len() == 0),
{
    lemma_conditions(s, list, list.len());
}

proof fn lemma_conditions(s: ScopeOf, list: Seq<ConditionView>, n: nat)
    requires
        n <= list.len(),
    ensures
        conditions_faults(s, list, n).len() == 0 <==> forall|k: int|
            0 <= k < n ==> condition_faults(s, #[trigger] list[k]).len() == 0,
    decreases n,
{
    if n > 0 {
        lemma_conditions(s, list, (n - 1) as nat);
        if condition_faults(s, list[n - 1]).len() == 0 && conditions_faults(
            s,
            list,
            (n - 1) as nat,
        ).len() == 0 {
            assert forall|k: int| 0 <= k < n implies condition_faults(
                s,
                #[trigger] list[k],
            ).len() == 0 by {
                if k < n - 1 {
                    assert(0 <= k < (n - 1) as nat);
                }
            }
        }
    }
}

/// A condition on exit codes is accepted if and only if it asks a script that always runs before
/// its node, for codes that count as success there.
pub proof fn law_exit_condition_is_accepted(s: ScopeOf, step: Seq<char>, codes: Seq<u32>)
    requires
        text_map::has_key(s.env.ids, step),
    ensures
        condition_faults(s, ConditionView::ExitCode { step, codes }).len() == 0 <==> {
            &&& s.visible.contains(step)
            &&& text_map::lookup(s.env.codes, step) matches Some(Some(success)) && forall|k: int|
                0 <= k < codes.len() ==> success.contains(#[trigger] codes[k])
        },
{
    match text_map::lookup(s.env.codes, step) {
        Some(Some(success)) => lemma_codes(s, step, codes, success, 0),
        _ => {},
    }
}

proof fn lemma_codes(
    s: ScopeOf,
    step: Seq<char>,
    codes: Seq<u32>,
    success: Seq<u32>,
    i: nat,
)
    ensures
        code_faults(s, step, codes, success, i).len() == 0 <==> forall|k: int|
            i <= k < codes.len() ==> success.contains(#[trigger] codes[k]),
    decreases codes.len() - i,
{
    if i < codes.len() {
        lemma_codes(s, step, codes, success, i + 1);
        if success.contains(codes[i as int]) && code_faults(
            s,
            step,
            codes,
            success,
            i + 1,
        ).len() == 0 {
            assert forall|k: int| i <= k < codes.len() implies success.contains(
                #[trigger] codes[k],
            ) by {
                if k > i {
                    assert(i + 1 <= k);
                }
            }
        }
    }
}

} // verus!
