//! Whether a JSON value conforms to a schema, and where it first fails to.
use vstd::prelude::*;

use crate::context::{clone_path, segment_views, ContextPathSegment, SegmentView};
use crate::json::{clone_values, is_listed, value_text, value_views, Value, ValueView};
use crate::schema::{
    AdditionalProperties, AdditionalView, ContextType, ContextTypeName, FieldSchema, FieldView,
    ObjectSchema, SchemaView, TypeView, CONTEXT_SCHEMA_VERSION,
};
use crate::schema;
use crate::json;
use crate::text;
use crate::text_map;

verus! {

#[derive(Debug, PartialEq)]
pub enum SchemaValidationErrorKind {
    UnsupportedVersion { found: u32, supported: u32 },
    ExpectedObject,
    MissingRequiredField { field: String },
    UnexpectedField { field: String },
    NullNotAllowed,
    ValueNotAllowed { allowed: Vec<Value> },
    TypeMismatch { expected: ContextTypeName, actual: ContextTypeName },
}

#[derive(Debug, PartialEq)]
pub struct SchemaValidationError {
    pub path: Vec<ContextPathSegment>,
    pub kind: SchemaValidationErrorKind,
}

pub enum ViolationKind {
    UnsupportedVersion { found: u32, supported: u32 },
    ExpectedObject,
    MissingRequiredField { field: Seq<char> },
    UnexpectedField { field: Seq<char> },
    NullNotAllowed,
    ValueNotAllowed { allowed: Seq<ValueView> },
    TypeMismatch { expected: ContextTypeName, actual: ContextTypeName },
}

pub struct Violation {
    pub path: Seq<SegmentView>,
    pub kind: ViolationKind,
}

impl SchemaValidationErrorKind {
    pub open spec fn view(&self) -> ViolationKind {
        match self {
            SchemaValidationErrorKind::UnsupportedVersion { found, supported } =>
                ViolationKind::UnsupportedVersion { found: *found, supported: *supported },
            SchemaValidationErrorKind::ExpectedObject => ViolationKind::ExpectedObject,
            SchemaValidationErrorKind::MissingRequiredField { field } =>
                ViolationKind::MissingRequiredField { field: field@ },
            SchemaValidationErrorKind::UnexpectedField { field } => ViolationKind::UnexpectedField {
                field: field@,
            },
            SchemaValidationErrorKind::NullNotAllowed => ViolationKind::NullNotAllowed,
            SchemaValidationErrorKind::ValueNotAllowed { allowed } =>
                ViolationKind::ValueNotAllowed { allowed: value_views(allowed@) },
            SchemaValidationErrorKind::TypeMismatch { expected, actual } =>
                ViolationKind::TypeMismatch { expected: *expected, actual: *actual },
        }
    }
}

impl SchemaValidationError {
    pub open spec fn view(&self) -> Violation {
        Violation { path: segment_views(self.path@), kind: self.kind@ }
    }

    /// The message that describes the violation.
    pub fn message(&self) -> (res: String)
        ensures
            res@ == self@.message(),
    {
        let path = display_context_path(&self.path);
        match &self.kind {
            SchemaValidationErrorKind::UnsupportedVersion { found, supported } => {
                let mut out = text::joined("schema at ", &path);
                out.append(" uses version ");
                out.append(&text::decimal_text(*found as u64));
                out.append(", but supported versions are 1..=");
                out.append(&text::decimal_text(*supported as u64));
                out
            },
            SchemaValidationErrorKind::ExpectedObject => {
                let mut out = text::joined("context value at ", &path);
                out.append(" must be an object");
                out
            },
            SchemaValidationErrorKind::MissingRequiredField { field } => {
                let mut out = text::joined("context value at ", &path);
                out.append(" is missing required field ");
                out.append(field);
                out
            },
            SchemaValidationErrorKind::UnexpectedField { field } => {
                let mut out = text::joined("context value at ", &path);
                out.append(" contains unknown field ");
                out.append(field);
                out
            },
            SchemaValidationErrorKind::NullNotAllowed => {
                let mut out = text::joined("context value at ", &path);
                out.append(" must not be null");
                out
            },
            SchemaValidationErrorKind::ValueNotAllowed { allowed } => {
                let mut out = text::joined("context value at ", &path);
                out.append(" must be one of ");
                let list = Value::Array(clone_values(allowed));
                out.append(&value_text(&list));
                out
            },
            SchemaValidationErrorKind::TypeMismatch { expected, actual } => {
                let mut out = text::joined("context value at ", &path);
                out.append(" has type ");
                out.append(&actual.to_text());
                out.append(", expected ");
                out.append(&expected.to_text());
                out
            },
        }
    }
}

impl Violation {
    pub open spec fn message(self) -> Seq<char> {
        let path = path_text(self.path);
        match self.kind {
            ViolationKind::UnsupportedVersion { found, supported } => "schema at "@ + path
                + " uses version "@ + text::decimal(found as nat)
                + ", but supported versions are 1..="@ + text::decimal(supported as nat),
            ViolationKind::ExpectedObject => "context value at "@ + path + " must be an object"@,
            ViolationKind::MissingRequiredField { field } => "context value at "@ + path
                + " is missing required field "@ + field,
            ViolationKind::UnexpectedField { field } => "context value at "@ + path
                + " contains unknown field "@ + field,
            ViolationKind::NullNotAllowed => "context value at "@ + path + " must not be null"@,
            ViolationKind::ValueNotAllowed { allowed } => "context value at "@ + path
                + " must be one of "@ + ValueView::Array(allowed).text(),
            ViolationKind::TypeMismatch { expected, actual } => "context value at "@ + path
                + " has type "@ + actual.text() + ", expected "@ + expected.text(),
        }
    }
}

/// A path from the root `$`, fields after dots, indices in brackets.
pub open spec fn path_text(path: Seq<SegmentView>) -> Seq<char>
    decreases path.len(),
{
    if path.len() == 0 {
        "$"@
    } else {
        match path.last() {
            SegmentView::Field { name } => path_text(path.drop_last()).push('.') + name,
            SegmentView::Index { index } => (path_text(path.drop_last()).push('[') + text::decimal(
                index,
            )).push(']'),
        }
    }
}

pub fn display_context_path(path: &[ContextPathSegment]) -> (res: String)
    ensures
        res@ == path_text(segment_views(path@)),
{
    let mut rendered = text::owned("$");
    let mut i: usize = 0;
    while i < path.len()
        invariant
            i <= path@.len(),
            rendered@ == path_text(segment_views(path@).take(i as int)),
        decreases path@.len() - i,
    {
        let ghost views = segment_views(path@);
        proof {
            assert(views.take(i + 1).drop_last() =~= views.take(i as int));
            assert(views.take(i + 1).last() == views[i as int]);
        }
        match &path[i] {
            ContextPathSegment::Field { name } => {
                rendered.push('.');
                rendered.append(name);
            },
            ContextPathSegment::Index { index } => {
                rendered.push('[');
                rendered.append(&text::count_text(*index));
                rendered.push(']');
            },
        }
        i = i + 1;
    }
    assert(segment_views(path@).take(i as int) =~= segment_views(path@));
    rendered
}

// ---------------------------------------------------------------------------
// Conformance
// ---------------------------------------------------------------------------
/// The version of a schema, if it is one that is understood.
pub open spec fn version_check(version: u32, path: Seq<SegmentView>) -> Option<Violation> {
    if version == 0 || version > CONTEXT_SCHEMA_VERSION {
        Some(
            Violation {
                path,
                kind: ViolationKind::UnsupportedVersion {
                    found: version,
                    supported: CONTEXT_SCHEMA_VERSION,
                },
            },
        )
    } else {
        None
    }
}

/// The first violation of an object schema: the version, the shape, the listed
/// fields in order, then the other members in order.
pub open spec fn object_violation(
    schema: SchemaView,
    value: ValueView,
    path: Seq<SegmentView>,
) -> Option<Violation>
    decreases schema, schema.fields.len() + 1,
{
    match version_check(schema.version, path) {
        Some(v) => Some(v),
        None => match value {
            ValueView::Object(members) => match field_violation_from(schema, members, path, 0) {
                Some(v) => Some(v),
                None => extra_violation_from(schema, members, path, 0),
            },
            _ => Some(Violation { path, kind: ViolationKind::ExpectedObject }),
        },
    }
}

/// The first violation among the listed fields from the `i`-th on.
pub open spec fn field_violation_from(
    schema: SchemaView,
    members: Seq<(Seq<char>, ValueView)>,
    path: Seq<SegmentView>,
    i: nat,
) -> Option<Violation>
    decreases schema, schema.fields.len() - i,
{
    if i >= schema.fields.len() {
        None
    } else {
        let (name, field) = schema.fields[i as int];
        let here = match text_map::lookup(members, name) {
            Some(value) => field_violation(field, value, path.push(SegmentView::Field { name })),
            None => if field.required {
                Some(Violation { path, kind: ViolationKind::MissingRequiredField { field: name } })
            } else {
                None
            },
        };
        match here {
            Some(v) => Some(v),
            None => field_violation_from(schema, members, path, i + 1),
        }
    }
}

/// The first violation among the members that the schema does not list, from
/// the `i`-th member on.
pub open spec fn extra_violation_from(
    schema: SchemaView,
    members: Seq<(Seq<char>, ValueView)>,
    path: Seq<SegmentView>,
    i: nat,
) -> Option<Violation>
    decreases schema.additional_fields, members.len() - i,
{
    if i >= members.len() {
        None
    } else {
        let (name, value) = members[i as int];
        let here = if text_map::has_key(schema.fields, name) {
            None
        } else {
            match schema.additional_fields {
                AdditionalView::Forbidden => Some(
                    Violation { path, kind: ViolationKind::UnexpectedField { field: name } },
                ),
                AdditionalView::Any => None,
                AdditionalView::Typed(t) => type_violation(
                    t,
                    value,
                    path.push(SegmentView::Field { name }),
                ),
            }
        };
        match here {
            Some(v) => Some(v),
            None => extra_violation_from(schema, members, path, i + 1),
        }
    }
}

/// The first violation of a field by a value that is present.
pub open spec fn field_violation(
    field: FieldView,
    value: ValueView,
    path: Seq<SegmentView>,
) -> Option<Violation>
    decreases field, 0int,
{
    if value is Null {
        if field.admits_null() {
            None
        } else {
            Some(Violation { path, kind: ViolationKind::NullNotAllowed })
        }
    } else {
        match type_violation(field.value_type, value, path) {
            Some(v) => Some(v),
            None => if field.allowed_values.len() > 0 && !json::listed(
                field.allowed_values,
                value,
            ) {
                Some(
                    Violation {
                        path,
                        kind: ViolationKind::ValueNotAllowed { allowed: field.allowed_values },
                    },
                )
            } else {
                None
            },
        }
    }
}

/// The first violation of a type.
pub open spec fn type_violation(
    t: TypeView,
    value: ValueView,
    path: Seq<SegmentView>,
) -> Option<Violation>
    decreases t, 0int,
{
    match t {
        TypeView::Array { items } => match value {
            ValueView::Array(values) => item_violation_from(*items, values, path, 0),
            _ => Some(mismatch(t, value, path)),
        },
        TypeView::Object { schema } => object_violation(*schema, value, path),
        _ => if scalar_fits(t, value) {
            None
        } else {
            Some(mismatch(t, value, path))
        },
    }
}

/// The first violation among the items of an array from the `i`-th on.
pub open spec fn item_violation_from(
    t: TypeView,
    values: Seq<ValueView>,
    path: Seq<SegmentView>,
    i: nat,
) -> Option<Violation>
    decreases t, values.len() - i + 1,
{
    if i >= values.len() {
        None
    } else {
        match type_violation(t, values[i as int], path.push(SegmentView::Index { index: i })) {
            Some(v) => Some(v),
            None => item_violation_from(t, values, path, i + 1),
        }
    }
}

/// Whether a value has a type that is neither an array nor an object type.
pub open spec fn scalar_fits(t: TypeView, value: ValueView) -> bool {
    match t {
        TypeView::Any => true,
        TypeView::Null => value is Null,
        TypeView::Boolean => value is Bool,
        TypeView::Integer => value matches ValueView::Number(n) && n.integer(),
        TypeView::Number => value is Number,
        TypeView::String { .. } => value is String,
        _ => false,
    }
}

pub open spec fn mismatch(t: TypeView, value: ValueView, path: Seq<SegmentView>) -> Violation {
    Violation {
        path,
        kind: ViolationKind::TypeMismatch {
            expected: t.name(),
            actual: schema::inferred(value).name(),
        },
    }
}

/// What a check reports.
pub open spec fn reports(res: Result<(), SchemaValidationError>, v: Option<Violation>) -> bool {
    match res {
        Ok(_) => v is None,
        Err(e) => v == Some(e@),
    }
}

fn violation(path: &Vec<ContextPathSegment>, kind: SchemaValidationErrorKind) -> (res: Result<
    (),
    SchemaValidationError,
>)
    ensures
        reports(res, Some(Violation { path: segment_views(path@), kind: kind@ })),
{
    Err(SchemaValidationError { path: clone_path(path), kind })
}

pub fn validate_schema_version(version: u32, path: &Vec<ContextPathSegment>) -> (res: Result<
    (),
    SchemaValidationError,
>)
    ensures
        reports(res, version_check(version, segment_views(path@))),
{
    if version == 0 || version > CONTEXT_SCHEMA_VERSION {
        violation(
            path,
            SchemaValidationErrorKind::UnsupportedVersion {
                found: version,
                supported: CONTEXT_SCHEMA_VERSION,
            },
        )
    } else {
        Ok(())
    }
}

proof fn lemma_push_segment(path: Seq<ContextPathSegment>, segment: ContextPathSegment)
    ensures
        segment_views(path.push(segment)) == segment_views(path).push(segment@),
        path.push(segment).drop_last() == path,
{
    assert(segment_views(path.push(segment)) =~= segment_views(path).push(segment@));
    assert(path.push(segment).drop_last() =~= path);
}

fn validate_object_value(
    schema: &ObjectSchema,
    value: &Value,
    path: &mut Vec<ContextPathSegment>,
) -> (res: Result<(), SchemaValidationError>)
    ensures
        reports(res, object_violation(schema@, value@, segment_views(old(path)@))),
        final(path)@ == old(path)@,
    decreases schema, 1int,
{
    let version = validate_schema_version(schema.version, path);
    if version.is_err() {
        return version;
    }
    match value {
        Value::Object(object) => {
            let ghost members = json::member_views(object.entries@);
            let ghost views = segment_views(path@);
            let ghost start = path@;
            let mut i: usize = 0;
            while i < schema.fields.entries.len()
                invariant
                    i <= schema.fields.entries@.len(),
                    path@ == start,
                    views == segment_views(start),
                    *value == Value::Object(*object),
                    value@ == ValueView::Object(members),
                    members == json::member_views(object.entries@),
                    field_violation_from(schema@, members, views, 0) == field_violation_from(
                        schema@,
                        members,
                        views,
                        i as nat,
                    ),
                    object_violation(schema@, value@, views) == (match field_violation_from(
                        schema@,
                        members,
                        views,
                        0,
                    ) {
                        Some(v) => Some(v),
                        None => extra_violation_from(schema@, members, views, 0),
                    }),
                    old(path)@ == start,
                decreases schema.fields.entries@.len() - i,
            {
                let name = &schema.fields.entries[i].0;
                let field = &schema.fields.entries[i].1;
                proof {
                    assert(decreases_to!(*schema => schema.fields));
                    assert(decreases_to!(schema.fields.entries@ => schema.fields.entries@[i as int].1));
                    assert(schema@.fields[i as int] == (name@, field@));
                }
                match value.member(name) {
                    Some(member) => {
                        let segment = ContextPathSegment::field(name);
                        proof {
                            lemma_push_segment(path@, segment);
                        }
                        path.push(segment);
                        let result = validate_field_value(field, member, path);
                        path.pop();
                        if result.is_err() {
                            return result;
                        }
                    },
                    None => {
                        if field.required {
                            return violation(
                                path,
                                SchemaValidationErrorKind::MissingRequiredField {
                                    field: name.clone(),
                                },
                            );
                        }
                    },
                }
                i = i + 1;
            }
            let mut k: usize = 0;
            while k < object.entries.len()
                invariant
                    k <= object.entries@.len(),
                    path@ == start,
                    views == segment_views(start),
                    members == json::member_views(object.entries@),
                    object_violation(schema@, value@, views) == extra_violation_from(
                        schema@,
                        members,
                        views,
                        k as nat,
                    ),
                    old(path)@ == start,
                decreases object.entries@.len() - k,
            {
                let name = &object.entries[k].0;
                assert(members[k as int] == (name@, object.entries@[k as int].1@));
                if schema.field(name).is_none() {
                    match &schema.additional_fields {
                        AdditionalProperties::Forbidden => {
                            return violation(
                                path,
                                SchemaValidationErrorKind::UnexpectedField { field: name.clone() },
                            );
                        },
                        AdditionalProperties::Any => {},
                        AdditionalProperties::Typed(value_type) => {
                            let segment = ContextPathSegment::field(name);
                            proof {
                                lemma_push_segment(path@, segment);
                            }
                            path.push(segment);
                            let result = validate_type_value(
                                value_type,
                                &object.entries[k].1,
                                path,
                            );
                            path.pop();
                            if result.is_err() {
                                return result;
                            }
                        },
                    }
                }
                k = k + 1;
            }
            Ok(())
        },
        _ => violation(path, SchemaValidationErrorKind::ExpectedObject),
    }
}

pub fn validate_field_value(
    field: &FieldSchema,
    value: &Value,
    path: &mut Vec<ContextPathSegment>,
) -> (res: Result<(), SchemaValidationError>)
    ensures
        reports(res, field_violation(field@, value@, segment_views(old(path)@))),
        final(path)@ == old(path)@,
    decreases field, 1int,
{
    if value.is_null() {
        return if schema::field_accepts_null(field) {
            Ok(())
        } else {
            violation(path, SchemaValidationErrorKind::NullNotAllowed)
        };
    }
    let result = validate_type_value(&field.value_type, value, path);
    if result.is_err() {
        return result;
    }
    if field.allowed_values.len() > 0 && !is_listed(&field.allowed_values, value) {
        return violation(
            path,
            SchemaValidationErrorKind::ValueNotAllowed {
                allowed: clone_values(&field.allowed_values),
            },
        );
    }
    Ok(())
}

fn validate_type_value(
    expected: &ContextType,
    value: &Value,
    path: &mut Vec<ContextPathSegment>,
) -> (res: Result<(), SchemaValidationError>)
    ensures
        reports(res, type_violation(expected@, value@, segment_views(old(path)@))),
        final(path)@ == old(path)@,
    decreases expected, 1int,
{
    match expected {
        ContextType::Array { items } => match value {
            Value::Array(values) => {
                let ghost views = segment_views(path@);
                let ghost start = path@;
                let ghost list = value_views(values@);
                let mut i: usize = 0;
                while i < values.len()
                    invariant
                        i <= values@.len(),
                        path@ == start,
                        views == segment_views(start),
                        list == value_views(values@),
                        type_violation(expected@, value@, views) == item_violation_from(
                            items@,
                            list,
                            views,
                            i as nat,
                        ),
                        *expected == (ContextType::Array { items: *items }),
                        old(path)@ == start,
                    decreases values@.len() - i,
                {
                    let segment = ContextPathSegment::index(i);
                    proof {
                        lemma_push_segment(path@, segment);
                        assert(decreases_to!(*expected => expected->items));
                    }
                    path.push(segment);
                    let result = validate_type_value(items, &values[i], path);
                    path.pop();
                    if result.is_err() {
                        return result;
                    }
                    i = i + 1;
                }
                Ok(())
            },
            _ => type_mismatch(expected, value, path),
        },
        ContextType::Object { schema } => validate_object_value(schema, value, path),
        ContextType::Any => Ok(()),
        ContextType::Null => match value {
            Value::Null => Ok(()),
            _ => type_mismatch(expected, value, path),
        },
        ContextType::Boolean => match value {
            Value::Bool(_) => Ok(()),
            _ => type_mismatch(expected, value, path),
        },
        ContextType::Integer => match value {
            Value::Number(n) => {
                if n.is_integer() {
                    Ok(())
                } else {
                    type_mismatch(expected, value, path)
                }
            },
            _ => type_mismatch(expected, value, path),
        },
        ContextType::Number => match value {
            Value::Number(_) => Ok(()),
            _ => type_mismatch(expected, value, path),
        },
        ContextType::String { .. } => match value {
            Value::String(_) => Ok(()),
            _ => type_mismatch(expected, value, path),
        },
    }
}

fn type_mismatch(expected: &ContextType, value: &Value, path: &Vec<ContextPathSegment>) -> (res:
    Result<(), SchemaValidationError>)
    ensures
        reports(res, Some(mismatch(expected@, value@, segment_views(path@)))),
{
    violation(
        path,
        SchemaValidationErrorKind::TypeMismatch {
            expected: expected.name(),
            actual: ContextType::infer(value).name(),
        },
    )
}

impl ObjectSchema {
    /// Validate a JSON object against this versioned schema.
    pub fn validate_value(&self, value: &Value) -> (res: Result<(), SchemaValidationError>)
        ensures
            reports(res, object_violation(self@, value@, Seq::empty())),
    {
        let mut path: Vec<ContextPathSegment> = Vec::new();
        assert(segment_views(path@) =~= Seq::empty());
        validate_object_value(self, value, &mut path)
    }
}

} // verus!
