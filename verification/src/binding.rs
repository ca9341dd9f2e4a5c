//! Resolution and application of typed action-input bindings.
//!
//! Bindings are data, not executable source. The resolver can read only the
//! supplied [`ContextStore`], enforces the consumer's input schema, propagates
//! sensitivity, and applies bounded structural templates without shell or I/O.
use vstd::prelude::*;

use crate::bind_error::{BindErrView, BindingError};
use crate::block::{action_definition, definition_for_action};
use crate::context::{
    part_views, segment_views, Binding, BindingView, ContextPathSegment, FieldRef, FieldRefView,
    PartView, SegmentView, TemplatePart,
};
use crate::debug::{bool_text, show_bool};
use crate::format::{format_admits, format_error, validate_string_format};
use crate::json::{clone_values, value_views, Value, ValueView};
use crate::order::{sort_refs, sorted_refs};
use crate::resolve::{ResolvedSchemaOwned, ResolvedView};
use crate::schema::{
    ContextType, FieldSchema, FieldView, ObjectSchema, SchemaView, SemanticFormat, Sensitivity,
    TypeView,
};
use crate::store;
use crate::store::{ref_views, ContextStore, StoreView};
use crate::task::{Action, Step};
use crate::target::{
    display_target, parse_binding_target, pointer, set_value_at_path, target_path, written,
    BindingLimits,
};
use crate::text;
use crate::text::{contains_text, owned, same_text, text_len};
use crate::text_map::TextMap;
use crate::validate::{field_violation, validate_field_value};

verus! {

#[derive(Debug, PartialEq)]
pub struct ResolvedBinding {
    pub value: Value,
    pub sources: Vec<FieldRef>,
    pub sensitivity: Sensitivity,
}

pub struct BoundView {
    pub value: ValueView,
    pub sources: Seq<FieldRefView>,
    pub sensitivity: Sensitivity,
}

impl ResolvedBinding {
    pub open spec fn view(&self) -> BoundView {
        BoundView {
            value: self.value@,
            sources: ref_views(self.sources@),
            sensitivity: self.sensitivity,
        }
    }
}

// ---------------------------------------------------------------------------
// Values against contracts
// ---------------------------------------------------------------------------
/// What the semantic format of a type, or of a part of it, objects to.
pub open spec fn semantic_fault(value: ValueView, expected: TypeView) -> Option<Seq<char>>
    decreases expected, 1int,
{
    match (value, expected) {
        (ValueView::String(s), TypeView::String { format: Some(format) }) => if format_admits(
            s,
            format,
        ) {
            None
        } else {
            Some(format_error(s, format))
        },
        (ValueView::Array(values), TypeView::Array { items }) => semantic_items(
            values,
            *items,
            0,
        ),
        (ValueView::Object(_), TypeView::Object { schema }) => semantic_fields(
            value,
            schema.fields,
            0,
        ),
        _ => None,
    }
}

/// The first fault among the items of an array from the `i`-th on.
pub open spec fn semantic_items(values: Seq<ValueView>, items: TypeView, i: nat) -> Option<
    Seq<char>,
>
    decreases items, 2int, values.len() - i,
{
    if i >= values.len() {
        None
    } else {
        match semantic_fault(values[i as int], items) {
            Some(message) => Some(message),
            None => semantic_items(values, items, i + 1),
        }
    }
}

/// The first fault among the declared fields of an object from the `i`-th on.
pub open spec fn semantic_fields(
    value: ValueView,
    fields: Seq<(Seq<char>, FieldView)>,
    i: nat,
) -> Option<Seq<char>>
    decreases fields, 0int, fields.len() - i,
{
    if i >= fields.len() {
        None
    } else {
        let found = match value.member(fields[i as int].0) {
            Some(child) => semantic_fault(child, fields[i as int].1.value_type),
            None => None,
        };
        match found {
            Some(message) => Some(message),
            None => semantic_fields(value, fields, i + 1),
        }
    }
}

fn validate_semantic_value(value: &Value, expected: &ContextType) -> (res: Result<(), String>)
    ensures
        match res {
            Ok(_) => semantic_fault(value@, expected@) is None,
            Err(message) => semantic_fault(value@, expected@) == Some(message@),
        },
    decreases expected, 1int,
{
    match (value, expected) {
        (Value::String(s), ContextType::String { format: Some(format) }) => validate_string_format(
            s,
            *format,
        ),
        (Value::Array(values), ContextType::Array { items }) => validate_semantic_items(
            values,
            items,
        ),
        (Value::Object(_), ContextType::Object { schema }) => validate_semantic_fields(
            value,
            schema,
        ),
        _ => Ok(()),
    }
}

fn validate_semantic_items(values: &Vec<Value>, items: &ContextType) -> (res: Result<(), String>)
    ensures
        match res {
            Ok(_) => semantic_items(value_views(values@), items@, 0) is None,
            Err(message) => semantic_items(value_views(values@), items@, 0) == Some(message@),
        },
    decreases items, 2int,
{
    let ghost views = value_views(values@);
    let mut i: usize = 0;
    while i < values.len()
        invariant
            i <= values@.len(),
            views == value_views(values@),
            semantic_items(views, items@, 0) == semantic_items(views, items@, i as nat),
        decreases values@.len() - i,
    {
        assert(views[i as int] == values@[i as int]@);
        match validate_semantic_value(&values[i], items) {
            Err(message) => {
                return Err(message);
            },
            Ok(_) => {},
        }
        i = i + 1;
    }
    Ok(())
}

fn validate_semantic_fields(value: &Value, schema: &ObjectSchema) -> (res: Result<(), String>)
    ensures
        match res {
            Ok(_) => semantic_fields(value@, schema@.fields, 0) is None,
            Err(message) => semantic_fields(value@, schema@.fields, 0) == Some(message@),
        },
    decreases schema, 0int,
{
    let ghost fields = schema@.fields;
    let mut i: usize = 0;
    while i < schema.fields.entries.len()
        invariant
            i <= schema.fields.entries@.len(),
            fields == schema@.fields,
            semantic_fields(value@, fields, 0) == semantic_fields(value@, fields, i as nat),
        decreases schema.fields.entries@.len() - i,
    {
        let name = &schema.fields.entries[i].0;
        let field = &schema.fields.entries[i].1;
        assert(decreases_to!(schema.fields.entries@ => schema.fields.entries@[i as int].1));
        assert(fields[i as int] == (name@, field@));
        match value.member(name) {
            Some(child) => match validate_semantic_value(child, &field.value_type) {
                Err(message) => {
                    return Err(message);
                },
                Ok(_) => {},
            },
            None => {},
        }
        i = i + 1;
    }
    Ok(())
}

/// The field that a resolved schema describes, when a value is given for it.
pub open spec fn given_field(expected: ResolvedView) -> FieldView {
    FieldView {
        value_type: expected.value_type,
        required: true,
        nullable: expected.nullable,
        description: None,
        sensitivity: expected.sensitivity,
        allowed_values: expected.allowed_values,
    }
}

/// The place that a value is reported at.
pub open spec fn value_place() -> Seq<SegmentView> {
    seq![SegmentView::Field { name: "value"@ }]
}

/// What a contract objects to in a value: first its structure, then the
/// semantic formats.
pub open spec fn value_fault(value: ValueView, expected: ResolvedView) -> Option<Seq<char>> {
    match field_violation(given_field(expected), value, value_place()) {
        Some(violation) => Some(violation.message()),
        None => semantic_fault(value, expected.value_type),
    }
}

fn validate_value_for_schema(value: &Value, expected: &ResolvedSchemaOwned) -> (res: Result<
    (),
    String,
>)
    ensures
        match res {
            Ok(_) => value_fault(value@, expected@) is None,
            Err(message) => value_fault(value@, expected@) == Some(message@),
        },
{
    let field = FieldSchema {
        value_type: expected.value_type.clone(),
        required: true,
        nullable: expected.nullable,
        description: None,
        sensitivity: expected.sensitivity,
        allowed_values: clone_values(&expected.allowed_values),
    };
    let mut path: Vec<ContextPathSegment> = Vec::new();
    path.push(ContextPathSegment::field("value"));
    assert(segment_views(path@) =~= value_place());
    assert(field@ == given_field(expected@));
    match validate_field_value(&field, value, &mut path) {
        Err(e) => Err(e.message()),
        Ok(_) => validate_semantic_value(value, &expected.value_type),
    }
}

/// Validate a literal editor value against one declared action-input field.
///
/// This is the side-effect-free validation entry point used by schema-driven
/// editors before they persist a `Binding::Literal`. It applies the same
/// structural, nullable, and semantic-format rules as runtime materialization.
pub fn validate_literal_binding(value: &Value, expected: &FieldSchema) -> (res: Result<(), String>)
    ensures
        ({
            let contract = ResolvedView {
                value_type: expected@.value_type,
                required: true,
                nullable: expected@.nullable,
                sensitivity: expected@.sensitivity,
                allowed_values: expected@.allowed_values,
            };
            match res {
                Ok(_) => value_fault(value@, contract) is None,
                Err(message) => value_fault(value@, contract) == Some(message@),
            }
        }),
{
    let contract = ResolvedSchemaOwned {
        value_type: expected.value_type.clone(),
        required: true,
        nullable: expected.nullable,
        sensitivity: expected.sensitivity,
        allowed_values: clone_values(&expected.allowed_values),
    };
    validate_value_for_schema(value, &contract)
}

// ---------------------------------------------------------------------------
// Resolution
// ---------------------------------------------------------------------------
/// Whether a value may flow into an input: a secret only into a secret one.
pub open spec fn flow_allowed(sensitivity: Sensitivity, expected: ResolvedView) -> bool {
    sensitivity == Sensitivity::Secret ==> expected.sensitivity == Sensitivity::Secret
}

/// A context value that may flow into an input and satisfies its own contract,
/// with that contract.
pub open spec fn source(
    field: FieldRefView,
    expected: ResolvedView,
    context: StoreView,
) -> Result<(ValueView, Sensitivity, ResolvedView), BindErrView> {
    match context.resolve_type(field) {
        None => Err(BindErrView::MissingSourceSchema { reference: field }),
        Some(declared) => match context.resolve(field) {
            Err(e) => Err(BindErrView::MissingSource { reference: field, message: e.message() }),
            Ok(found) => if !flow_allowed(found.sensitivity, expected) {
                Err(BindErrView::SecretFlow { reference: field })
            } else {
                match value_fault(found.value, declared) {
                    Some(message) => Err(
                        BindErrView::InvalidSourceValue {
                            reference: field,
                            message: if found.sensitivity == Sensitivity::Secret {
                                "secret context value does not satisfy its declared contract"@
                            } else {
                                message
                            },
                        },
                    ),
                    None => Ok((found.value, found.sensitivity, declared)),
                }
            },
        },
    }
}

fn resolve_source(field: &FieldRef, expected: &ResolvedSchemaOwned, context: &ContextStore) -> (res:
    Result<(Value, Sensitivity, ResolvedSchemaOwned), BindingError>)
    ensures
        match res {
            Ok((value, sensitivity, declared)) => source(field@, expected@, context@) == Ok::<
                (ValueView, Sensitivity, ResolvedView),
                BindErrView,
            >((value@, sensitivity, declared@)),
            Err(e) => source(field@, expected@, context@) == Err::<
                (ValueView, Sensitivity, ResolvedView),
                BindErrView,
            >(e@),
        },
{
    let declared = match context.resolve_type_owned(field) {
        None => {
            return Err(BindingError::MissingSourceSchema { reference: field.clone() });
        },
        Some(declared) => declared,
    };
    let found = match context.resolve(field) {
        Err(e) => {
            return Err(
                BindingError::MissingSource { reference: field.clone(), message: e.message() },
            );
        },
        Ok(found) => found,
    };
    if found.sensitivity.is_secret() && expected.sensitivity != Sensitivity::Secret {
        return Err(BindingError::SecretFlow { reference: field.clone() });
    }
    match validate_value_for_schema(found.value, &declared) {
        Err(message) => {
            let message = if found.sensitivity.is_secret() {
                owned("secret context value does not satisfy its declared contract")
            } else {
                message
            };
            return Err(BindingError::InvalidSourceValue { reference: field.clone(), message });
        },
        Ok(_) => {},
    }
    Ok((found.value.clone(), found.sensitivity, declared))
}

pub open spec fn field_binding(
    field: FieldRefView,
    expected: ResolvedView,
    context: StoreView,
) -> Result<BoundView, BindErrView> {
    match source(field, expected, context) {
        Err(e) => Err(e),
        Ok((value, sensitivity, declared)) => if expected.value_type.assignable_from(
            declared.value_type,
        ) {
            Ok(BoundView { value, sources: seq![field], sensitivity })
        } else {
            Err(
                BindErrView::TypeMismatch {
                    reference: field,
                    expected: expected.value_type,
                    actual: declared.value_type,
                },
            )
        },
    }
}

fn resolve_field(field: &FieldRef, expected: &ResolvedSchemaOwned, context: &ContextStore) -> (res:
    Result<ResolvedBinding, BindingError>)
    ensures
        match res {
            Ok(b) => field_binding(field@, expected@, context@) == Ok::<BoundView, BindErrView>(b@),
            Err(e) => field_binding(field@, expected@, context@) == Err::<BoundView, BindErrView>(
                e@,
            ),
        },
{
    match resolve_source(field, expected, context) {
        Err(e) => Err(e),
        Ok((value, sensitivity, declared)) => {
            if !expected.value_type.is_assignable_from(&declared.value_type) {
                return Err(
                    BindingError::TypeMismatch {
                        reference: field.clone(),
                        expected: expected.value_type.clone(),
                        actual: declared.value_type,
                    },
                );
            }
            let mut sources: Vec<FieldRef> = Vec::new();
            sources.push(field.clone());
            assert(ref_views(sources@) =~= seq![field@]);
            Ok(ResolvedBinding { value, sources, sensitivity })
        },
    }
}

/// The text of a scalar in a template.
pub open spec fn scalar_text(value: ValueView) -> Option<Seq<char>> {
    match value {
        ValueView::String(s) => Some(s),
        ValueView::Bool(b) => Some(bool_text(b)),
        ValueView::Number(n) => Some(n.text()),
        _ => None,
    }
}

pub open spec fn appended(rendered: Seq<char>, s: Seq<char>, limits: BindingLimits) -> Result<
    Seq<char>,
    BindErrView,
> {
    if text::byte_len(rendered) + text::byte_len(s) > limits.max_rendered_bytes {
        Err(BindErrView::RenderedSizeLimit { limit: limits.max_rendered_bytes })
    } else {
        Ok(rendered + s)
    }
}

/// A template rendered from its `i`-th part on.
pub open spec fn rendered(
    parts: Seq<PartView>,
    expected: ResolvedView,
    context: StoreView,
    limits: BindingLimits,
    i: nat,
    done: Seq<char>,
    sources: Seq<FieldRefView>,
    sensitivity: Sensitivity,
) -> Result<BoundView, BindErrView>
    decreases parts.len() - i,
{
    if i >= parts.len() {
        Ok(BoundView { value: ValueView::String(done), sources, sensitivity })
    } else {
        match parts[i as int] {
            PartView::Literal { value } => match appended(done, value, limits) {
                Err(e) => Err(e),
                Ok(done) => rendered(
                    parts,
                    expected,
                    context,
                    limits,
                    i + 1,
                    done,
                    sources,
                    sensitivity,
                ),
            },
            PartView::Field { field } => match source(field, expected, context) {
                Err(e) => Err(e),
                Ok((value, level, _)) => match scalar_text(value) {
                    None => Err(BindErrView::NonScalarTemplateField { reference: field }),
                    Some(s) => match appended(done, s, limits) {
                        Err(e) => Err(e),
                        Ok(done) => rendered(
                            parts,
                            expected,
                            context,
                            limits,
                            i + 1,
                            done,
                            sources.push(field),
                            sensitivity.max(level),
                        ),
                    },
                },
            },
        }
    }
}

pub open spec fn interpolated(
    parts: Seq<PartView>,
    expected: ResolvedView,
    context: StoreView,
    limits: BindingLimits,
) -> Result<BoundView, BindErrView> {
    if parts.len() > limits.max_template_parts {
        Err(
            BindErrView::TemplatePartLimit {
                found: parts.len() as usize,
                limit: limits.max_template_parts,
            },
        )
    } else {
        rendered(
            parts,
            expected,
            context,
            limits,
            0,
            Seq::empty(),
            Seq::empty(),
            Sensitivity::Public,
        )
    }
}

fn append_bounded(rendered: &mut String, value: &str, limits: BindingLimits) -> (res: Result<
    (),
    BindingError,
>)
    ensures
        match res {
            Ok(_) => appended(old(rendered)@, value@, limits) == Ok::<Seq<char>, BindErrView>(
                final(rendered)@,
            ),
            Err(e) => appended(old(rendered)@, value@, limits) == Err::<Seq<char>, BindErrView>(e@)
                && final(rendered)@ == old(rendered)@,
        },
{
    let used: usize = text_len(rendered);
    let more: usize = text_len(value);
    if used > limits.max_rendered_bytes || more > limits.max_rendered_bytes - used {
        return Err(BindingError::RenderedSizeLimit { limit: limits.max_rendered_bytes });
    }
    rendered.append(value);
    Ok(())
}

fn show_scalar(value: &Value) -> (res: Option<String>)
    ensures
        match res {
            Some(s) => scalar_text(value@) == Some(s@),
            None => scalar_text(value@) is None,
        },
{
    match value {
        Value::String(s) => Some(s.clone()),
        Value::Bool(b) => Some(show_bool(*b)),
        Value::Number(n) => Some(n.to_text()),
        _ => None,
    }
}

fn resolve_interpolated(
    parts: &Vec<TemplatePart>,
    expected: &ResolvedSchemaOwned,
    context: &ContextStore,
    limits: BindingLimits,
) -> (res: Result<ResolvedBinding, BindingError>)
    ensures
        match res {
            Ok(b) => interpolated(part_views(parts@), expected@, context@, limits) == Ok::<
                BoundView,
                BindErrView,
            >(b@),
            Err(e) => interpolated(part_views(parts@), expected@, context@, limits) == Err::<
                BoundView,
                BindErrView,
            >(e@),
        },
{
    let n: usize = parts.len();
    if n > limits.max_template_parts {
        return Err(
            BindingError::TemplatePartLimit { found: n, limit: limits.max_template_parts },
        );
    }
    let ghost views = part_views(parts@);
    let mut text = String::new();
    let mut sources: Vec<FieldRef> = Vec::new();
    let mut sensitivity = Sensitivity::Public;
    let mut i: usize = 0;
    assert(ref_views(sources@) =~= Seq::empty());
    assert(text@ =~= Seq::empty());
    while i < n
        invariant
            n == parts@.len(),
            n <= limits.max_template_parts,
            i <= n,
            views == part_views(parts@),
            rendered(
                views,
                expected@,
                context@,
                limits,
                0,
                Seq::empty(),
                Seq::empty(),
                Sensitivity::Public,
            ) == rendered(
                views,
                expected@,
                context@,
                limits,
                i as nat,
                text@,
                ref_views(sources@),
                sensitivity,
            ),
        decreases n - i,
    {
        assert(views[i as int] == parts@[i as int]@);
        match &parts[i] {
            TemplatePart::Literal { value } => match append_bounded(&mut text, value, limits) {
                Err(e) => {
                    return Err(e);
                },
                Ok(_) => {},
            },
            TemplatePart::Field { field } => {
                let (value, level, _) = match resolve_source(field, expected, context) {
                    Err(e) => {
                        return Err(e);
                    },
                    Ok(found) => found,
                };
                let scalar = match show_scalar(&value) {
                    None => {
                        return Err(
                            BindingError::NonScalarTemplateField { reference: field.clone() },
                        );
                    },
                    Some(scalar) => scalar,
                };
                match append_bounded(&mut text, &scalar, limits) {
                    Err(e) => {
                        return Err(e);
                    },
                    Ok(_) => {},
                }
                let ghost before = ref_views(sources@);
                sources.push(field.clone());
                assert(ref_views(sources@) =~= before.push(field@));
                sensitivity = sensitivity.combine(level);
            },
        }
        i = i + 1;
    }
    Ok(ResolvedBinding { value: Value::String(text), sources, sensitivity })
}

/// What a binding produces, before it is held against the input's contract.
pub open spec fn produced(
    binding: BindingView,
    expected: ResolvedView,
    context: StoreView,
    limits: BindingLimits,
) -> Result<BoundView, BindErrView> {
    match binding {
        BindingView::Literal { value } => Ok(
            BoundView { value, sources: Seq::empty(), sensitivity: Sensitivity::Public },
        ),
        BindingView::Field { field } => field_binding(field, expected, context),
        BindingView::Template { template } => if text::contains(template, "{{"@) || text::contains(
            template,
            "}}"@,
        ) {
            Err(BindErrView::LegacyTemplate)
        } else {
            Ok(
                BoundView {
                    value: ValueView::String(template),
                    sources: Seq::empty(),
                    sensitivity: Sensitivity::Public,
                },
            )
        },
        BindingView::Interpolated { parts } => interpolated(parts, expected, context, limits),
    }
}

/// What a binding comes to against the contract of an input.
pub open spec fn bound(
    binding: BindingView,
    expected: ResolvedView,
    context: StoreView,
    limits: BindingLimits,
) -> Result<BoundView, BindErrView> {
    match produced(binding, expected, context, limits) {
        Err(e) => Err(e),
        Ok(b) => if !flow_allowed(b.sensitivity, expected) {
            Err(
                BindErrView::SecretFlow {
                    reference: if b.sources.len() > 0 {
                        b.sources[0]
                    } else {
                        FieldRefView {
                            scope: crate::context::ScopeView::Scenario,
                            segments: Seq::empty(),
                        }
                    },
                },
            )
        } else {
            match value_fault(b.value, expected) {
                Some(message) => Err(
                    BindErrView::InvalidValue {
                        target: "$binding"@,
                        message: if b.sensitivity == Sensitivity::Secret || expected.sensitivity
                            == Sensitivity::Secret {
                            "secret binding value does not satisfy its input contract"@
                        } else {
                            message
                        },
                    },
                ),
                None => Ok(BoundView { sources: sorted_refs(b.sources), ..b }),
            }
        },
    }
}

/// Resolve one binding against a consumer field contract.
pub fn resolve_binding(
    binding: &Binding,
    expected: &ResolvedSchemaOwned,
    context: &ContextStore,
    limits: BindingLimits,
) -> (res: Result<ResolvedBinding, BindingError>)
    ensures
        match res {
            Ok(b) => bound(binding@, expected@, context@, limits) == Ok::<BoundView, BindErrView>(
                b@,
            ),
            Err(e) => bound(binding@, expected@, context@, limits) == Err::<BoundView, BindErrView>(
                e@,
            ),
        },
{
    let found = match binding {
        Binding::Literal { value } => {
            let sources: Vec<FieldRef> = Vec::new();
            assert(ref_views(sources@) =~= Seq::empty());
            Ok(
                ResolvedBinding {
                    value: value.clone(),
                    sources,
                    sensitivity: Sensitivity::Public,
                },
            )
        },
        Binding::Field { field } => resolve_field(field, expected, context),
        Binding::Template { template } => {
            if contains_text(template, "{{") || contains_text(template, "}}") {
                return Err(BindingError::LegacyTemplate);
            }
            let sources: Vec<FieldRef> = Vec::new();
            assert(ref_views(sources@) =~= Seq::empty());
            Ok(
                ResolvedBinding {
                    value: Value::String(template.clone()),
                    sources,
                    sensitivity: Sensitivity::Public,
                },
            )
        },
        Binding::Interpolated { parts } => resolve_interpolated(parts, expected, context, limits),
    };
    let resolved = match found {
        Err(e) => {
            return Err(e);
        },
        Ok(resolved) => resolved,
    };
    // Information flow comes before any value validation: a message may hold
    // the rejected scalar, so a secret must never reach the validators when the
    // target cannot hold one.
    if resolved.sensitivity.is_secret() && expected.sensitivity != Sensitivity::Secret {
        let reference = if resolved.sources.len() > 0 {
            assert(resolved@.sources[0] == resolved.sources@[0]@);
            resolved.sources[0].clone()
        } else {
            FieldRef::scenario()
        };
        return Err(BindingError::SecretFlow { reference });
    }
    match validate_value_for_schema(&resolved.value, expected) {
        Err(message) => {
            let message = if resolved.sensitivity.is_secret() || expected.sensitivity
                == Sensitivity::Secret {
                owned("secret binding value does not satisfy its input contract")
            } else {
                message
            };
            return Err(BindingError::InvalidValue { target: owned("$binding"), message });
        },
        Ok(_) => {},
    }
    let sources = sort_refs(&resolved.sources);
    Ok(ResolvedBinding { value: resolved.value, sources, sensitivity: resolved.sensitivity })
}

// ---------------------------------------------------------------------------
// Application
// ---------------------------------------------------------------------------
pub open spec fn binding_views(entries: Seq<(String, Binding)>) -> Seq<(Seq<char>, BindingView)> {
    entries.map_values(|entry: (String, Binding)| (entry.0@, entry.1@))
}

pub open spec fn indexed(path: Seq<SegmentView>) -> bool {
    exists|i: int| 0 <= i < path.len() && #[trigger] path[i] is Index
}

/// The serialized step with one binding written into it, and the target that was
/// written.
#[verifier::opaque]
pub open spec fn patched_once(
    step: ValueView,
    action: Seq<char>,
    inputs: SchemaView,
    entry: (Seq<char>, BindingView),
    context: StoreView,
    limits: BindingLimits,
    seen: Seq<Seq<char>>,
) -> Result<(ValueView, Seq<char>), BindErrView> {
    let (target, binding) = entry;
    match target_path(target, limits) {
        Err(e) => Err(e),
        Ok(path) => {
            let canonical = pointer(path);
            if indexed(path) {
                Err(BindErrView::IndexedInputTarget { target: canonical })
            } else if seen.contains(canonical) {
                Err(BindErrView::DuplicateTarget { target: canonical })
            } else {
                match inputs.resolve_target(path) {
                    None => Err(BindErrView::UnknownInput { action, target: canonical }),
                    Some(expected) => match bound(binding, expected, context, limits) {
                        Ok(b) => match written(step, path, 0, b.value) {
                            Err(message) => Err(BindErrView::Patch { target: canonical, message }),
                            Ok(step) => Ok((step, canonical)),
                        },
                        Err(BindErrView::InvalidValue { message, .. }) => Err(
                            BindErrView::InvalidValue { target: canonical, message },
                        ),
                        Err(e) => if e is MissingSource && !expected.required {
                            Ok((step, canonical))
                        } else {
                            Err(e)
                        },
                    },
                }
            }
        },
    }
}

/// The serialized step with the bindings from the `i`-th on written into it.
pub open spec fn patched(
    step: ValueView,
    action: Seq<char>,
    inputs: SchemaView,
    bindings: Seq<(Seq<char>, BindingView)>,
    context: StoreView,
    limits: BindingLimits,
    i: nat,
    seen: Seq<Seq<char>>,
) -> Result<ValueView, BindErrView>
    decreases bindings.len() - i,
{
    if i >= bindings.len() {
        Ok(step)
    } else {
        match patched_once(step, action, inputs, bindings[i as int], context, limits, seen) {
            Err(e) => Err(e),
            Ok((step, target)) => patched(
                step,
                action,
                inputs,
                bindings,
                context,
                limits,
                i + 1,
                seen.push(target),
            ),
        }
    }
}

/// The serialized step with all its bindings written into it.
pub open spec fn materialized(
    step: ValueView,
    action: Seq<char>,
    inputs: SchemaView,
    bindings: Seq<(Seq<char>, BindingView)>,
    context: StoreView,
    limits: BindingLimits,
) -> Result<ValueView, BindErrView> {
    if bindings.len() > limits.max_bindings {
        Err(
            BindErrView::BindingCountLimit {
                found: bindings.len() as usize,
                limit: limits.max_bindings,
            },
        )
    } else {
        patched(step, action, inputs, bindings, context, limits, 0, Seq::empty())
    }
}

pub fn has_index(path: &Vec<ContextPathSegment>) -> (res: bool)
    ensures
        res == indexed(segment_views(path@)),
{
    let ghost views = segment_views(path@);
    let mut i: usize = 0;
    while i < path.len()
        invariant
            i <= path@.len(),
            views == segment_views(path@),
            forall|j: int| 0 <= j < i ==> !(#[trigger] views[j] is Index),
        decreases path@.len() - i,
    {
        assert(views[i as int] == path@[i as int]@);
        match &path[i] {
            ContextPathSegment::Index { .. } => {
                return true;
            },
            _ => {},
        }
        i = i + 1;
    }
    false
}

fn has_text(list: &Vec<String>, text: &str) -> (res: bool)
    ensures
        res == text::text_views(list@).contains(text@),
{
    let ghost views = text::text_views(list@);
    let mut i: usize = 0;
    while i < list.len()
        invariant
            i <= list@.len(),
            views == text::text_views(list@),
            forall|j: int| 0 <= j < i ==> #[trigger] views[j] != text@,
        decreases list@.len() - i,
    {
        assert(views[i as int] == list@[i as int]@);
        if same_text(&list[i], text) {
            return true;
        }
        i = i + 1;
    }
    false
}

fn patch_once(
    step: Value,
    action: &str,
    inputs: &ObjectSchema,
    target: &str,
    binding: &Binding,
    context: &ContextStore,
    limits: BindingLimits,
    seen: &Vec<String>,
) -> (res: Result<(Value, String), BindingError>)
    ensures
        ({
            let want = patched_once(
                step@,
                action@,
                inputs@,
                (target@, binding@),
                context@,
                limits,
                text::text_views(seen@),
            );
            match res {
                Ok((step, target)) => want == Ok::<(ValueView, Seq<char>), BindErrView>(
                    (step@, target@),
                ),
                Err(e) => want == Err::<(ValueView, Seq<char>), BindErrView>(e@),
            }
        }),
{
    reveal(patched_once);
    let path = match parse_binding_target(target, limits) {
        Err(e) => {
            return Err(e);
        },
        Ok(path) => path,
    };
    let canonical = display_target(&path);
    if has_index(&path) {
        return Err(BindingError::IndexedInputTarget { target: canonical });
    }
    if has_text(seen, &canonical) {
        return Err(BindingError::DuplicateTarget { target: canonical });
    }
    let expected = match inputs.resolve_input_target_owned(path.as_slice()) {
        None => {
            return Err(BindingError::UnknownInput { action: owned(action), target: canonical });
        },
        Some(expected) => expected,
    };
    match resolve_binding(binding, &expected, context, limits) {
        Ok(resolved) => match set_value_at_path(step, &path, resolved.value) {
            Err(message) => Err(BindingError::Patch { target: canonical, message }),
            Ok(next) => Ok((next, canonical)),
        },
        Err(error) => match error {
            BindingError::MissingSource { reference, message } => {
                if expected.required {
                    Err(BindingError::MissingSource { reference, message })
                } else {
                    Ok((step, canonical))
                }
            },
            BindingError::InvalidValue { message, .. } => Err(
                BindingError::InvalidValue { target: canonical, message },
            ),
            other => Err(other),
        },
    }
}

/// Resolve all bindings of a step and write them into its serialized form.
/// Binding keys are JSON Pointers (`/checksum/sha256`) or dotted paths
/// (`checksum.sha256`).
///
/// Only paths that the action's input schema declares can be written. An
/// optional input whose source is missing is left as it stands, which keeps
/// missing apart from null.
pub fn materialize_step(
    step: &Value,
    action: &Action,
    bindings: &TextMap<Binding>,
    context: &ContextStore,
    limits: BindingLimits,
) -> (res: Result<Value, BindingError>)
    ensures
        ({
            let want = materialized(
                step@,
                action@.kind().name(),
                action_definition(action@).input_schema,
                binding_views(bindings.entries@),
                context@,
                limits,
            );
            match res {
                Ok(v) => want == Ok::<ValueView, BindErrView>(v@),
                Err(e) => want == Err::<ValueView, BindErrView>(e@),
            }
        }),
{
    let definition = definition_for_action(action);
    let id = definition.kind.id();
    let inputs = &definition.input_schema;
    let n: usize = bindings.entries.len();
    if n > limits.max_bindings {
        return Err(BindingError::BindingCountLimit { found: n, limit: limits.max_bindings });
    }
    let ghost views = binding_views(bindings.entries@);
    let mut current = step.clone();
    let mut seen: Vec<String> = Vec::new();
    let mut i: usize = 0;
    assert(text::text_views(seen@) =~= Seq::empty());
    while i < n
        invariant
            n == bindings.entries@.len(),
            n <= limits.max_bindings,
            inputs@ == action_definition(action@).input_schema,
            id@ == action@.kind().name(),
            i <= n,
            views == binding_views(bindings.entries@),
            patched(step@, id@, inputs@, views, context@, limits, 0, Seq::empty()) == patched(
                current@,
                id@,
                inputs@,
                views,
                context@,
                limits,
                i as nat,
                text::text_views(seen@),
            ),
        decreases n - i,
    {
        let target = &bindings.entries[i].0;
        let binding = &bindings.entries[i].1;
        assert(views[i as int] == (target@, binding@));
        let (next, canonical) = match patch_once(
            current,
            id,
            inputs,
            target,
            binding,
            context,
            limits,
            &seen,
        ) {
            Err(e) => {
                return Err(e);
            },
            Ok(done) => done,
        };
        current = next;
        let ghost before = text::text_views(seen@);
        let ghost added = canonical@;
        seen.push(canonical);
        assert(text::text_views(seen@) =~= before.push(added));
        i = i + 1;
    }
    Ok(current)
}

/// Accepts a step that was read back from the document that
/// [`materialize_step`] made: it has to be well-formed, and within the policies
/// of its action.
pub fn accept_materialized_step(parsed: Result<Step, String>) -> (res: Result<Step, BindingError>)
    ensures
        match res {
            Ok(step) => parsed == Ok::<Step, String>(step) && step@.policy_accepted(),
            Err(e) => match parsed {
                Ok(step) => !step@.policy_accepted() && e@ == BindErrView::InvalidStep(
                    "step policy is not available for this action"@,
                ),
                Err(message) => e@ == BindErrView::InvalidStep(message@),
            },
        },
{
    match parsed {
        Err(message) => Err(BindingError::InvalidStep(message)),
        Ok(step) => match step.validate() {
            Ok(_) => Ok(step),
            Err(message) => Err(BindingError::InvalidStep(message)),
        },
    }
}

// ---------------------------------------------------------------------------
// Laws
// ---------------------------------------------------------------------------
/// A secret never flows into an input that is not secret: where a binding to
/// such an input succeeds, what it yields is not secret.
pub proof fn law_no_secret_flow(
    binding: BindingView,
    expected: ResolvedView,
    context: StoreView,
    limits: BindingLimits,
)
    requires
        expected.sensitivity != Sensitivity::Secret,
    ensures
        bound(binding, expected, context, limits) matches Ok(b) ==> b.sensitivity
            != Sensitivity::Secret,
{
}

/// A direct binding to a secret context value is refused by every input that is
/// not secret, whatever the value is and whatever the input's type.
pub proof fn law_secret_field_is_refused(
    field: FieldRefView,
    expected: ResolvedView,
    context: StoreView,
    limits: BindingLimits,
)
    requires
        expected.sensitivity != Sensitivity::Secret,
        context.resolve_type(field) is Some,
        context.resolve(field) matches Ok(found) && found.sensitivity == Sensitivity::Secret,
    ensures
        bound(BindingView::Field { field }, expected, context, limits) == Err::<
            BoundView,
            BindErrView,
        >(BindErrView::SecretFlow { reference: field }),
{
}

/// A rendered template is at least as sensitive as each field that it reads,
/// and names every such field among its sources.
pub proof fn law_template_keeps_sensitivity(
    parts: Seq<PartView>,
    expected: ResolvedView,
    context: StoreView,
    limits: BindingLimits,
    k: int,
)
    requires
        0 <= k < parts.len(),
        parts[k] is Field,
    ensures
        interpolated(parts, expected, context, limits) matches Ok(b) ==> {
            &&& b.sources.contains(parts[k]->field)
            &&& source(parts[k]->field, expected, context) matches Ok((_, level, _))
            &&& b.sensitivity.rank() >= level.rank()
        },
{
    if interpolated(parts, expected, context, limits) is Ok {
        lemma_template_source(
            parts,
            expected,
            context,
            limits,
            0,
            Seq::empty(),
            Seq::empty(),
            Sensitivity::Public,
            k,
        );
    }
}

proof fn lemma_template_source(
    parts: Seq<PartView>,
    expected: ResolvedView,
    context: StoreView,
    limits: BindingLimits,
    i: nat,
    done: Seq<char>,
    sources: Seq<FieldRefView>,
    sensitivity: Sensitivity,
    k: int,
)
    requires
        0 <= k < parts.len(),
        parts[k] is Field,
        rendered(parts, expected, context, limits, i, done, sources, sensitivity) is Ok,
        k < i ==> sources.contains(parts[k]->field) && (source(parts[k]->field, expected, context)
            matches Ok((_, level, _)) && sensitivity.rank() >= level.rank()),
    ensures
        ({
            let b = rendered(parts, expected, context, limits, i, done, sources, sensitivity)->Ok_0;
            &&& b.sources.contains(parts[k]->field)
            &&& source(parts[k]->field, expected, context) matches Ok((_, level, _))
            &&& b.sensitivity.rank() >= level.rank()
        }),
    decreases parts.len() - i,
{
    if i < parts.len() {
        match parts[i as int] {
            PartView::Literal { value } => {
                lemma_template_source(
                    parts,
                    expected,
                    context,
                    limits,
                    i + 1,
                    appended(done, value, limits)->Ok_0,
                    sources,
                    sensitivity,
                    k,
                );
            },
            PartView::Field { field } => {
                let (value, level, _) = source(field, expected, context)->Ok_0;
                let more = sources.push(field);
                assert(more[sources.len() as int] == field);
                if k < i {
                    let at = choose|at: int|
                        0 <= at < sources.len() && sources[at] == parts[k]->field;
                    assert(more[at] == parts[k]->field);
                }
                lemma_template_source(
                    parts,
                    expected,
                    context,
                    limits,
                    i + 1,
                    appended(done, scalar_text(value)->0, limits)->Ok_0,
                    more,
                    sensitivity.max(level),
                    k,
                );
            },
        }
    }
}

/// A binding that a step can take: its target is an input that the action
/// declares and no item of a list, and its value fits that input, or is missing
/// where the input may be left out.
pub open spec fn fits_action(
    inputs: SchemaView,
    binding: (Seq<char>, BindingView),
    context: StoreView,
    limits: BindingLimits,
) -> bool {
    &&& target_path(binding.0, limits) matches Ok(path)
    &&& !indexed(path)
    &&& inputs.resolve_target(path) matches Some(expected)
    &&& match bound(binding.1, expected, context, limits) {
        Ok(value) => value.sensitivity == Sensitivity::Secret ==> expected.sensitivity
            == Sensitivity::Secret,
        Err(e) => e is MissingSource && !expected.required,
    }
}

proof fn lemma_patched_fits(
    step: ValueView,
    action: Seq<char>,
    inputs: SchemaView,
    bindings: Seq<(Seq<char>, BindingView)>,
    context: StoreView,
    limits: BindingLimits,
    i: nat,
    seen: Seq<Seq<char>>,
    k: int,
)
    requires
        patched(step, action, inputs, bindings, context, limits, i, seen) is Ok,
        i <= k < bindings.len(),
    ensures
        fits_action(inputs, bindings[k], context, limits),
    decreases bindings.len() - i,
{
    let (target, binding) = bindings[i as int];
    if i < k {
        let (after, written) = patched_once(
            step,
            action,
            inputs,
            bindings[i as int],
            context,
            limits,
            seen,
        )->Ok_0;
        lemma_patched_fits(
            after,
            action,
            inputs,
            bindings,
            context,
            limits,
            i + 1,
            seen.push(written),
            k,
        );
    } else {
        reveal(patched_once);
        let path = target_path(target, limits)->Ok_0;
        let expected = inputs.resolve_target(path)->Some_0;
        if expected.sensitivity != Sensitivity::Secret {
            law_no_secret_flow(binding, expected, context, limits);
        }
    }
}

/// A step is materialized only from bindings that fit its action, all of them:
/// none writes anything that the action does not declare, and no secret reaches
/// an input that is not secret.
pub proof fn law_materialized_fits(
    step: ValueView,
    action: Seq<char>,
    inputs: SchemaView,
    bindings: Seq<(Seq<char>, BindingView)>,
    context: StoreView,
    limits: BindingLimits,
    k: int,
)
    requires
        materialized(step, action, inputs, bindings, context, limits) is Ok,
        0 <= k < bindings.len(),
    ensures
        fits_action(inputs, bindings[k], context, limits),
{
    lemma_patched_fits(step, action, inputs, bindings, context, limits, 0, Seq::empty(), k);
}

/// A value of the context that an input may take: it is declared, it is there, it meets its own
/// declaration, and it is secret only if the input is.
pub open spec fn readable(
    field: FieldRefView,
    value: ValueView,
    expected: ResolvedView,
    context: StoreView,
) -> bool {
    &&& context.resolve_type(field) matches Some(declared)
    &&& context.resolve(field) matches Ok(found)
    &&& found.value == value
    &&& found.sensitivity == Sensitivity::Secret ==> expected.sensitivity == Sensitivity::Secret
    &&& value_fault(value, declared) is None
}

/// The text that a value has in a template: a string is itself, a Boolean is `true` or
/// `false`, and a number is its JSON text.
pub open spec fn reads_as(value: ValueView, written: Seq<char>) -> bool {
    ||| value == ValueView::String(written)
    ||| value == ValueView::Bool(true) && written == "true"@
    ||| value == ValueView::Bool(false) && written == "false"@
    ||| value is Number && written == value.text()
}

/// The text of one part of a template.
pub open spec fn part_reads(
    part: PartView,
    written: Seq<char>,
    expected: ResolvedView,
    context: StoreView,
) -> bool {
    match part {
        PartView::Literal { value } => written == value,
        PartView::Field { field } => exists|value: ValueView| #[trigger]
            readable(field, value, expected, context) && reads_as(value, written),
    }
}

proof fn lemma_flatten_take<T>(list: Seq<Seq<T>>, i: nat)
    requires
        i < list.len(),
    ensures
        list.skip(i as int).flatten() == list[i as int] + list.skip(i as int + 1).flatten(),
{
    assert(list.skip(i as int).drop_first() =~= list.skip(i as int + 1));
}

proof fn lemma_template_renders(
    parts: Seq<PartView>,
    written: Seq<Seq<char>>,
    expected: ResolvedView,
    context: StoreView,
    limits: BindingLimits,
    i: nat,
    done: Seq<char>,
    sources: Seq<FieldRefView>,
    sensitivity: Sensitivity,
)
    requires
        i <= parts.len(),
        written.len() == parts.len(),
        forall|k: int|
            0 <= k < parts.len() ==> part_reads(#[trigger] parts[k], written[k], expected, context),
        text::byte_len(done + written.skip(i as int).flatten()) <= limits.max_rendered_bytes,
        sensitivity == Sensitivity::Secret ==> expected.sensitivity == Sensitivity::Secret,
    ensures
        rendered(parts, expected, context, limits, i, done, sources, sensitivity) matches Ok(b)
            && b.value == ValueView::String(done + written.skip(i as int).flatten()) && (
        b.sensitivity == Sensitivity::Secret ==> expected.sensitivity == Sensitivity::Secret),
    decreases parts.len() - i,
{
    if i < parts.len() {
        let rest = written.skip(i as int + 1).flatten();
        lemma_flatten_take(written, i);
        let more = done + written[i as int];
        assert(done + written.skip(i as int).flatten() =~= more + rest);
        crate::pieces::lemma_bytes_both(more, rest);
        crate::pieces::lemma_bytes_both(done, written[i as int]);
        assert(part_reads(parts[i as int], written[i as int], expected, context));
        match parts[i as int] {
            PartView::Literal { value } => {
                lemma_template_renders(
                    parts,
                    written,
                    expected,
                    context,
                    limits,
                    i + 1,
                    more,
                    sources,
                    sensitivity,
                );
            },
            PartView::Field { field } => {
                let (value, level, _) = source(field, expected, context)->Ok_0;
                assert(scalar_text(value) == Some(written[i as int]));
                lemma_template_renders(
                    parts,
                    written,
                    expected,
                    context,
                    limits,
                    i + 1,
                    more,
                    sources.push(field),
                    sensitivity.max(level),
                );
            },
        }
    } else {
        assert(written.skip(i as int).flatten() =~= Seq::empty());
        assert(done + Seq::<char>::empty() =~= done);
    }
}

/// A template whose parts are all literals and readable strings, Booleans and numbers renders
/// within the limits, and its value is the texts of its parts, one after the other. For a
/// plain string input that lists no values the binding succeeds.
pub proof fn law_template_renders(
    parts: Seq<PartView>,
    written: Seq<Seq<char>>,
    expected: ResolvedView,
    context: StoreView,
    limits: BindingLimits,
)
    requires
        written.len() == parts.len(),
        forall|k: int|
            0 <= k < parts.len() ==> part_reads(#[trigger] parts[k], written[k], expected, context),
        parts.len() <= limits.max_template_parts,
        text::byte_len(written.flatten()) <= limits.max_rendered_bytes,
    ensures
        produced(BindingView::Interpolated { parts }, expected, context, limits) matches Ok(b)
            && b.value == ValueView::String(written.flatten()),
        expected.value_type == (TypeView::String { format: None }) && expected.allowed_values.len()
            == 0 ==> (bound(BindingView::Interpolated { parts }, expected, context, limits)
            matches Ok(b) && b.value == ValueView::String(written.flatten())),
{
    assert(written.skip(0) =~= written);
    assert(Seq::<char>::empty() + written.flatten() =~= written.flatten());
    lemma_template_renders(
        parts,
        written,
        expected,
        context,
        limits,
        0,
        Seq::empty(),
        Seq::empty(),
        Sensitivity::Public,
    );
}

proof fn lemma_template_is_its_parts(
    parts: Seq<PartView>,
    expected: ResolvedView,
    context: StoreView,
    limits: BindingLimits,
    i: nat,
    done: Seq<char>,
    sources: Seq<FieldRefView>,
    sensitivity: Sensitivity,
) -> (written: Seq<Seq<char>>)
    requires
        i <= parts.len(),
        rendered(parts, expected, context, limits, i, done, sources, sensitivity) is Ok,
    ensures
        written.len() == parts.len() - i,
        forall|k: int|
            0 <= k < written.len() ==> part_reads(
                parts[i + k],
                #[trigger] written[k],
                expected,
                context,
            ),
        rendered(parts, expected, context, limits, i, done, sources, sensitivity)->Ok_0.value
            == ValueView::String(done + written.flatten()),
    decreases parts.len() - i,
{
    if i < parts.len() {
        let (text, more_sources, level) = match parts[i as int] {
            PartView::Literal { value } => (value, sources, sensitivity),
            PartView::Field { field } => {
                let (value, level, _) = source(field, expected, context)->Ok_0;
                assert(readable(field, value, expected, context));
                (scalar_text(value)->0, sources.push(field), sensitivity.max(level))
            },
        };
        let rest = lemma_template_is_its_parts(
            parts,
            expected,
            context,
            limits,
            i + 1,
            done + text,
            more_sources,
            level,
        );
        let written = seq![text] + rest;
        assert(written.drop_first() =~= rest);
        assert(done + text + rest.flatten() =~= done + written.flatten());
        assert forall|k: int| 0 <= k < written.len() implies part_reads(
            parts[i + k],
            #[trigger] written[k],
            expected,
            context,
        ) by {
            if k > 0 {
                assert(written[k] == rest[k - 1]);
                assert(parts[i + k] == parts[i + 1 + (k - 1)]);
            }
        }
        written
    } else {
        assert(done + Seq::<Seq<char>>::empty().flatten() =~= done);
        Seq::empty()
    }
}

/// What a template renders to is the texts of its parts, one after the other, and nothing else
/// renders: a part that has no text, or cannot be read, is refused.
pub proof fn law_template_is_its_parts(
    parts: Seq<PartView>,
    expected: ResolvedView,
    context: StoreView,
    limits: BindingLimits,
)
    ensures
        bound(BindingView::Interpolated { parts }, expected, context, limits) matches Ok(b)
            ==> exists|written: Seq<Seq<char>>|
            written.len() == parts.len() && b.value == ValueView::String(
                #[trigger] written.flatten(),
            ) && forall|k: int|
                0 <= k < parts.len() ==> part_reads(
                    #[trigger] parts[k],
                    written[k],
                    expected,
                    context,
                ),
{
    if bound(BindingView::Interpolated { parts }, expected, context, limits) is Ok {
        let written = lemma_template_is_its_parts(
            parts,
            expected,
            context,
            limits,
            0,
            Seq::empty(),
            Seq::empty(),
            Sensitivity::Public,
        );
        assert(Seq::<char>::empty() + written.flatten() =~= written.flatten());
        assert forall|k: int| 0 <= k < parts.len() implies part_reads(
            #[trigger] parts[k],
            written[k],
            expected,
            context,
        ) by {
            assert(part_reads(parts[0 + k], written[k], expected, context));
        }
    }
}

/// A direct binding hands on the value of its field, as it is, and names that field as its
/// only source; it succeeds if and only if the value can be read, its type can be assigned to
/// the input and it meets the input's contract. A literal is itself, and reads nothing.
pub proof fn law_binding_hands_on_its_value(
    field: FieldRefView,
    value: ValueView,
    expected: ResolvedView,
    context: StoreView,
    limits: BindingLimits,
)
    ensures
        readable(field, value, expected, context) ==> {
            let res = bound(BindingView::Field { field }, expected, context, limits);
            &&& res is Ok <==> expected.value_type.assignable_from(
                context.resolve_type(field)->0.value_type,
            ) && value_fault(value, expected) is None
            &&& res matches Ok(b) ==> b.value == value && b.sources == seq![field]
                && b.sensitivity == context.resolve(field)->Ok_0.sensitivity
        },
        bound(BindingView::Field { field }, expected, context, limits) is Ok ==> exists|
            found: ValueView,
        | #[trigger] readable(field, found, expected, context),
        ({
            let res = bound(BindingView::Literal { value }, expected, context, limits);
            &&& res is Ok <==> value_fault(value, expected) is None
            &&& res matches Ok(b) ==> b.value == value && b.sources.len() == 0 && b.sensitivity
                == Sensitivity::Public
        }),
{
    let one = seq![field];
    assert(one.drop_last() =~= Seq::<FieldRefView>::empty());
    assert(sorted_refs(Seq::<FieldRefView>::empty()) =~= Seq::<FieldRefView>::empty());
    assert(sorted_refs(one) =~= one);
    if bound(BindingView::Field { field }, expected, context, limits) is Ok {
        let (found, _, _) = source(field, expected, context)->Ok_0;
        assert(readable(field, found, expected, context));
    }
}

/// Two paths that go apart: alike up to some place, where both go on and differ.
pub open spec fn apart(a: Seq<SegmentView>, b: Seq<SegmentView>) -> bool {
    exists|j: nat| #[trigger] apart_at(a, b, j)
}

pub open spec fn apart_at(a: Seq<SegmentView>, b: Seq<SegmentView>, j: nat) -> bool {
    &&& j < a.len()
    &&& j < b.len()
    &&& a[j as int] != b[j as int]
    &&& forall|k: int| 0 <= k < j ==> a[k] == #[trigger] b[k]
}

/// Whether a binding writes apart from a path.
pub open spec fn writes_apart(
    binding: (Seq<char>, BindingView),
    path: Seq<SegmentView>,
    limits: BindingLimits,
) -> bool {
    target_path(binding.0, limits) matches Ok(target) ==> apart(target, path)
}

proof fn lemma_patched_keeps(
    step: ValueView,
    action: Seq<char>,
    inputs: SchemaView,
    bindings: Seq<(Seq<char>, BindingView)>,
    context: StoreView,
    limits: BindingLimits,
    i: nat,
    seen: Seq<Seq<char>>,
    path: Seq<SegmentView>,
)
    requires
        patched(step, action, inputs, bindings, context, limits, i, seen) is Ok,
        store::walk(step, path, 0) is Ok,
        forall|m: int|
            i <= m < bindings.len() ==> writes_apart(#[trigger] bindings[m], path, limits),
    ensures
        store::walk(
            patched(step, action, inputs, bindings, context, limits, i, seen)->Ok_0,
            path,
            0,
        ) == store::walk(step, path, 0),
    decreases bindings.len() - i,
{
    if i < bindings.len() {
        reveal(patched_once);
        let (after, target) = patched_once(
            step,
            action,
            inputs,
            bindings[i as int],
            context,
            limits,
            seen,
        )->Ok_0;
        assert(writes_apart(bindings[i as int], path, limits));
        let at = target_path(bindings[i as int].0, limits)->Ok_0;
        let j = choose|j: nat| #[trigger] apart_at(at, path, j);
        if after != step {
            let expected = inputs.resolve_target(at)->0;
            let b = bound(bindings[i as int].1, expected, context, limits)->Ok_0;
            crate::target::law_write_keeps_the_rest(step, at, path, 0, j, b.value);
        }
        lemma_patched_keeps(
            after,
            action,
            inputs,
            bindings,
            context,
            limits,
            i + 1,
            seen.push(target),
            path,
        );
    }
}

/// Materializing a step leaves alone all that stands apart from the targets of its bindings.
pub proof fn law_materialized_keeps_the_rest(
    step: ValueView,
    action: Seq<char>,
    inputs: SchemaView,
    bindings: Seq<(Seq<char>, BindingView)>,
    context: StoreView,
    limits: BindingLimits,
    path: Seq<SegmentView>,
)
    requires
        materialized(step, action, inputs, bindings, context, limits) is Ok,
        store::walk(step, path, 0) is Ok,
        forall|m: int|
            0 <= m < bindings.len() ==> writes_apart(#[trigger] bindings[m], path, limits),
    ensures
        store::walk(
            materialized(step, action, inputs, bindings, context, limits)->Ok_0,
            path,
            0,
        ) == store::walk(step, path, 0),
        bindings.len() == 0 ==> materialized(step, action, inputs, bindings, context, limits)
            == Ok::<ValueView, BindErrView>(step),
{
    lemma_patched_keeps(step, action, inputs, bindings, context, limits, 0, Seq::empty(), path);
}

proof fn lemma_patched_writes(
    step: ValueView,
    action: Seq<char>,
    inputs: SchemaView,
    bindings: Seq<(Seq<char>, BindingView)>,
    context: StoreView,
    limits: BindingLimits,
    i: nat,
    seen: Seq<Seq<char>>,
    k: int,
)
    requires
        patched(step, action, inputs, bindings, context, limits, i, seen) is Ok,
        i <= k < bindings.len(),
        ({
            let path = target_path(bindings[k].0, limits)->Ok_0;
            &&& inputs.resolve_target(path) matches Some(expected)
            &&& bound(bindings[k].1, expected, context, limits) is Ok
            &&& forall|m: int|
                k < m < bindings.len() ==> writes_apart(#[trigger] bindings[m], path, limits)
        }),
    ensures
        ({
            let path = target_path(bindings[k].0, limits)->Ok_0;
            let expected = inputs.resolve_target(path)->0;
            store::walk(
                patched(step, action, inputs, bindings, context, limits, i, seen)->Ok_0,
                path,
                0,
            ) == Ok::<ValueView, nat>(
                bound(bindings[k].1, expected, context, limits)->Ok_0.value,
            )
        }),
    decreases bindings.len() - i,
{
    reveal(patched_once);
    let (after, target) = patched_once(
        step,
        action,
        inputs,
        bindings[i as int],
        context,
        limits,
        seen,
    )->Ok_0;
    let path = target_path(bindings[k].0, limits)->Ok_0;
    if i == k {
        let expected = inputs.resolve_target(path)->0;
        let b = bound(bindings[k].1, expected, context, limits)->Ok_0;
        crate::target::law_read_after_write(step, path, 0, b.value);
        lemma_patched_keeps(
            after,
            action,
            inputs,
            bindings,
            context,
            limits,
            i + 1,
            seen.push(target),
            path,
        );
    } else {
        lemma_patched_writes(
            after,
            action,
            inputs,
            bindings,
            context,
            limits,
            i + 1,
            seen.push(target),
            k,
        );
    }
}

/// A materialized step holds, at the target of each binding, the value that the binding
/// resolved to, unless a later binding writes there or above it.
pub proof fn law_materialized_holds_the_values(
    step: ValueView,
    action: Seq<char>,
    inputs: SchemaView,
    bindings: Seq<(Seq<char>, BindingView)>,
    context: StoreView,
    limits: BindingLimits,
    k: int,
    path: Seq<SegmentView>,
    b: BoundView,
)
    requires
        materialized(step, action, inputs, bindings, context, limits) is Ok,
        0 <= k < bindings.len(),
        target_path(bindings[k].0, limits) == Ok::<Seq<SegmentView>, BindErrView>(path),
        inputs.resolve_target(path) is Some,
        bound(bindings[k].1, inputs.resolve_target(path)->0, context, limits) == Ok::<
            BoundView,
            BindErrView,
        >(b),
        forall|m: int|
            k < m < bindings.len() ==> writes_apart(#[trigger] bindings[m], path, limits),
    ensures
        store::walk(
            materialized(step, action, inputs, bindings, context, limits)->Ok_0,
            path,
            0,
        ) == Ok::<ValueView, nat>(b.value),
{
    lemma_patched_writes(step, action, inputs, bindings, context, limits, 0, Seq::empty(), k);
}

/// A binding whose source is missing leaves an optional input as it is, and a step with no
/// other binding is then unchanged; a required input is refused.
pub proof fn law_missing_source_leaves_optional_inputs(
    step: ValueView,
    action: Seq<char>,
    inputs: SchemaView,
    binding: (Seq<char>, BindingView),
    context: StoreView,
    limits: BindingLimits,
    path: Seq<SegmentView>,
)
    requires
        limits.max_bindings >= 1,
        target_path(binding.0, limits) == Ok::<Seq<SegmentView>, BindErrView>(path),
        forall|k: int| 0 <= k < path.len() ==> !(#[trigger] path[k] is Index),
        inputs.resolve_target(path) matches Some(expected) && (bound(
            binding.1,
            expected,
            context,
            limits,
        ) matches Err(e) && e is MissingSource),
    ensures
        ({
            let res = materialized(step, action, inputs, seq![binding], context, limits);
            if inputs.resolve_target(path)->0.required {
                res is Err
            } else {
                res == Ok::<ValueView, BindErrView>(step)
            }
        }),
{
    reveal(patched_once);
    reveal_with_fuel(patched, 2);
    assert(seq![binding][0] == binding);
}

/// The formats of the texts in a value are asked one by one: of a text its own, of an array those
/// of its items, of an object those of the listed fields that it has.
pub proof fn law_formats_are_asked(
    s: Seq<char>,
    format: SemanticFormat,
    values: Seq<ValueView>,
    items: TypeView,
)
    ensures
        semantic_fault(
            ValueView::String(s),
            TypeView::String { format: Some(format) },
        ) is None <==> format_admits(s, format),
        semantic_fault(ValueView::String(s), TypeView::String { format: None }) is None,
        semantic_fault(
            ValueView::Array(values),
            TypeView::Array { items: Box::new(items) },
        ) is None <==> forall|k: int|
            0 <= k < values.len() ==> semantic_fault(#[trigger] values[k], items) is None,
{
    lemma_formats_of_items(values, items, 0);
}

proof fn lemma_formats_of_items(values: Seq<ValueView>, items: TypeView, i: nat)
    ensures
        semantic_items(values, items, i) is None <==> forall|k: int|
            i <= k < values.len() ==> semantic_fault(#[trigger] values[k], items) is None,
    decreases values.len() - i,
{
    if i < values.len() {
        lemma_formats_of_items(values, items, i + 1);
        if semantic_fault(values[i as int], items) is None && semantic_items(
            values,
            items,
            i + 1,
        ) is None {
            assert forall|k: int| i <= k < values.len() implies semantic_fault(
                #[trigger] values[k],
                items,
            ) is None by {
                if k > i {
                    assert(i + 1 <= k);
                }
            }
        }
    }
}

} // verus!
