//! What a path through a schema leads to: its type, whether it is sure to be
//! there, and how sensitive it is.
use vstd::prelude::*;

use crate::context::{segment_views, ContextPathSegment, SegmentView};
use crate::json::{clone_values, value_views, Value, ValueView};
use crate::schema::{
    type_accepts_null, AdditionalProperties, AdditionalView, ContextType, FieldSchema,
    FieldView, ObjectSchema, SchemaView, Sensitivity, TypeView,
};
use crate::text_map;

verus! {

/// Type information that a path resolves to, borrowed from the schema.
#[derive(Debug)]
pub struct ResolvedSchema<'a> {
    pub value_type: &'a ContextType,
    pub required: bool,
    pub nullable: bool,
    pub sensitivity: Sensitivity,
    /// The closed set of values of the field, where the path ends at one.
    pub allowed_values: Option<&'a Vec<Value>>,
}

/// Type information that a path resolves to.
#[derive(Debug, PartialEq)]
pub struct ResolvedSchemaOwned {
    pub value_type: ContextType,
    pub required: bool,
    pub nullable: bool,
    pub sensitivity: Sensitivity,
    pub allowed_values: Vec<Value>,
}

pub struct ResolvedView {
    pub value_type: TypeView,
    pub required: bool,
    pub nullable: bool,
    pub sensitivity: Sensitivity,
    pub allowed_values: Seq<ValueView>,
}

impl<'a> ResolvedSchema<'a> {
    pub open spec fn view(&self) -> ResolvedView {
        ResolvedView {
            value_type: self.value_type@,
            required: self.required,
            nullable: self.nullable,
            sensitivity: self.sensitivity,
            allowed_values: match self.allowed_values {
                Some(values) => value_views(values@),
                None => Seq::empty(),
            },
        }
    }

    /// The same information, detached from the schema.
    pub fn to_owned(&self) -> (res: ResolvedSchemaOwned)
        ensures
            res@ == self@,
    {
        let allowed_values = match self.allowed_values {
            Some(values) => clone_values(values),
            None => {
                let none: Vec<Value> = Vec::new();
                assert(value_views(none@) =~= Seq::empty());
                none
            },
        };
        ResolvedSchemaOwned {
            value_type: self.value_type.clone(),
            required: self.required,
            nullable: self.nullable,
            sensitivity: self.sensitivity,
            allowed_values,
        }
    }
}

impl ResolvedSchemaOwned {
    pub open spec fn view(&self) -> ResolvedView {
        ResolvedView {
            value_type: self.value_type@,
            required: self.required,
            nullable: self.nullable,
            sensitivity: self.sensitivity,
            allowed_values: value_views(self.allowed_values@),
        }
    }
}

impl Clone for ResolvedSchemaOwned {
    fn clone(&self) -> (res: Self)
        ensures
            res@ == self@,
    {
        ResolvedSchemaOwned {
            value_type: self.value_type.clone(),
            required: self.required,
            nullable: self.nullable,
            sensitivity: self.sensitivity,
            allowed_values: clone_values(&self.allowed_values),
        }
    }
}

// ---------------------------------------------------------------------------
// Sensitivity of a subtree
// ---------------------------------------------------------------------------
impl TypeView {
    /// The highest sensitivity declared anywhere below a type.
    pub open spec fn sensitivity(self) -> Sensitivity
        decreases self, 1nat,
    {
        match self {
            TypeView::Array { items } => items.sensitivity(),
            TypeView::Object { schema } => schema.sensitivity(),
            _ => Sensitivity::Public,
        }
    }
}

impl SchemaView {
    /// The highest sensitivity declared anywhere in a schema.
    pub open spec fn sensitivity(self) -> Sensitivity
        decreases self, 1nat,
    {
        match self.additional_fields {
            AdditionalView::Typed(t) => fields_sensitivity(self.fields).max(t.sensitivity()),
            _ => fields_sensitivity(self.fields),
        }
    }
}

pub open spec fn fields_sensitivity(fields: Seq<(Seq<char>, FieldView)>) -> Sensitivity
    decreases fields, 0nat,
{
    if fields.len() == 0 {
        Sensitivity::Public
    } else {
        fields_sensitivity(fields.drop_last()).max(
            fields.last().1.sensitivity.max(fields.last().1.value_type.sensitivity()),
        )
    }
}

pub fn aggregate_type_sensitivity(value_type: &ContextType) -> (res: Sensitivity)
    ensures
        res == value_type@.sensitivity(),
    decreases value_type,
{
    match value_type {
        ContextType::Array { items } => aggregate_type_sensitivity(items),
        ContextType::Object { schema } => aggregate_object_sensitivity(schema),
        _ => Sensitivity::Public,
    }
}

pub fn aggregate_object_sensitivity(schema: &ObjectSchema) -> (res: Sensitivity)
    ensures
        res == schema@.sensitivity(),
    decreases schema,
{
    let mut declared = Sensitivity::Public;
    let mut i: usize = 0;
    while i < schema.fields.entries.len()
        invariant
            i <= schema.fields.entries@.len(),
            declared == fields_sensitivity(schema@.fields.take(i as int)),
        decreases schema.fields.entries@.len() - i,
    {
        let field = &schema.fields.entries[i].1;
        let ghost views = schema@.fields;
        proof {
            assert(decreases_to!(*schema => schema.fields));
            assert(decreases_to!(schema.fields.entries@ => schema.fields.entries@[i as int].1));
            assert(views.take(i + 1).drop_last() =~= views.take(i as int));
            assert(views.take(i + 1).last().1 == field@);
        }
        declared = declared.combine(
            field.sensitivity.combine(aggregate_type_sensitivity(&field.value_type)),
        );
        i = i + 1;
    }
    assert(schema@.fields.take(i as int) =~= schema@.fields);
    match &schema.additional_fields {
        AdditionalProperties::Typed(value_type) => declared.combine(
            aggregate_type_sensitivity(value_type),
        ),
        AdditionalProperties::Any => {
            assert(declared.max(Sensitivity::Public) == declared);
            declared
        },
        AdditionalProperties::Forbidden => declared,
    }
}

// ---------------------------------------------------------------------------
// Paths
// ---------------------------------------------------------------------------
/// What a path leads to from a value of type `t` with the closed set of values
/// `allowed`. A field is sure to be there only if every step to it is; it may
/// be null if some step to it may be; an array position and an unlisted key
/// are never sure to be there. A whole subtree is as sensitive as its most
/// sensitive part, so that binding a parent does not reveal a nested secret.
pub open spec fn resolved(
    t: TypeView,
    allowed: Seq<ValueView>,
    path: Seq<SegmentView>,
    required: bool,
    nullable: bool,
    sensitivity: Sensitivity,
) -> Option<ResolvedView>
    decreases path.len(),
{
    if path.len() == 0 {
        Some(
            ResolvedView {
                value_type: t,
                required,
                nullable,
                sensitivity: sensitivity.max(t.sensitivity()),
                allowed_values: allowed,
            },
        )
    } else {
        match (path[0], t) {
            (SegmentView::Field { name }, TypeView::Object { schema }) => match text_map::lookup(
                schema.fields,
                name,
            ) {
                Some(field) => resolved(
                    field.value_type,
                    field.allowed_values,
                    path.skip(1),
                    required && field.required,
                    nullable || field.nullable,
                    sensitivity.max(field.sensitivity),
                ),
                None => match schema.additional_fields.value_type() {
                    Some(extra) => resolved(
                        extra,
                        Seq::empty(),
                        path.skip(1),
                        false,
                        nullable,
                        sensitivity,
                    ),
                    None => None,
                },
            },
            (SegmentView::Index { .. }, TypeView::Array { items }) => resolved(
                *items,
                Seq::empty(),
                path.skip(1),
                false,
                nullable,
                sensitivity,
            ),
            _ => None,
        }
    }
}

impl SchemaView {
    /// What a path into an object of this schema leads to; the root itself for
    /// the empty path.
    pub open spec fn resolve(self, path: Seq<SegmentView>) -> Option<ResolvedView> {
        resolved(
            TypeView::Object { schema: Box::new(self) },
            Seq::empty(),
            path,
            true,
            false,
            Sensitivity::Public,
        )
    }

    /// Whether null may be written to the place that a path names. Only the
    /// last step decides: writing a nested field brings its parents into being.
    pub open spec fn target_nullable(self, path: Seq<SegmentView>) -> Option<bool> {
        type_target_nullable(TypeView::Object { schema: Box::new(self) }, path)
    }

    /// What may be written to the place that a path names.
    pub open spec fn resolve_target(self, path: Seq<SegmentView>) -> Option<ResolvedView> {
        match (self.resolve(path), self.target_nullable(path)) {
            (Some(found), Some(nullable)) => Some(ResolvedView { nullable, ..found }),
            _ => None,
        }
    }
}

pub open spec fn type_target_nullable(t: TypeView, path: Seq<SegmentView>) -> Option<bool>
    decreases path.len(),
{
    if path.len() == 0 {
        None
    } else {
        match (path[0], t) {
            (SegmentView::Field { name }, TypeView::Object { schema }) => match text_map::lookup(
                schema.fields,
                name,
            ) {
                Some(field) => if path.len() == 1 {
                    Some(field.nullable)
                } else {
                    type_target_nullable(field.value_type, path.skip(1))
                },
                None => match schema.additional_fields.value_type() {
                    Some(extra) => if path.len() == 1 {
                        Some(extra.admits_null())
                    } else {
                        type_target_nullable(extra, path.skip(1))
                    },
                    None => None,
                },
            },
            (SegmentView::Index { .. }, TypeView::Array { items }) => if path.len() == 1 {
                Some(items.admits_null())
            } else {
                type_target_nullable(*items, path.skip(1))
            },
            _ => None,
        }
    }
}

/// The view of the rest of a path.
pub open spec fn path_from(segments: Seq<ContextPathSegment>, at: int) -> Seq<SegmentView> {
    segment_views(segments).skip(at)
}

proof fn lemma_path_step(segments: Seq<ContextPathSegment>, at: int)
    requires
        0 <= at < segments.len(),
    ensures
        path_from(segments, at).len() == segments.len() - at,
        path_from(segments, at)[0] == segments[at]@,
        path_from(segments, at).skip(1) == path_from(segments, at + 1),
{
    assert(path_from(segments, at).skip(1) =~= path_from(segments, at + 1));
}

fn resolve_field_schema<'a>(
    field: &'a FieldSchema,
    segments: &[ContextPathSegment],
    at: usize,
    required: bool,
    nullable: bool,
    sensitivity: Sensitivity,
) -> (res: Option<ResolvedSchema<'a>>)
    requires
        at <= segments@.len(),
    ensures
        res is Some == resolved(
            field@.value_type,
            field@.allowed_values,
            path_from(segments@, at as int),
            required,
            nullable,
            sensitivity,
        ) is Some,
        res matches Some(r) ==> Some(r@) == resolved(
            field@.value_type,
            field@.allowed_values,
            path_from(segments@, at as int),
            required,
            nullable,
            sensitivity,
        ),
    decreases segments@.len() - at, 1nat,
{
    if at == segments.len() {
        Some(
            ResolvedSchema {
                value_type: &field.value_type,
                required,
                nullable,
                sensitivity: sensitivity.combine(aggregate_type_sensitivity(&field.value_type)),
                allowed_values: Some(&field.allowed_values),
            },
        )
    } else {
        resolve_segment(&field.value_type, segments, at, required, nullable, sensitivity)
    }
}

pub fn resolve_type_schema<'a>(
    value_type: &'a ContextType,
    segments: &[ContextPathSegment],
    at: usize,
    required: bool,
    nullable: bool,
    sensitivity: Sensitivity,
) -> (res: Option<ResolvedSchema<'a>>)
    requires
        at <= segments@.len(),
    ensures
        res is Some == resolved(
            value_type@,
            Seq::empty(),
            path_from(segments@, at as int),
            required,
            nullable,
            sensitivity,
        ) is Some,
        res matches Some(r) ==> Some(r@) == resolved(
            value_type@,
            Seq::empty(),
            path_from(segments@, at as int),
            required,
            nullable,
            sensitivity,
        ),
    decreases segments@.len() - at, 1nat,
{
    if at == segments.len() {
        Some(
            ResolvedSchema {
                value_type,
                required,
                nullable,
                sensitivity: sensitivity.combine(aggregate_type_sensitivity(value_type)),
                allowed_values: None,
            },
        )
    } else {
        resolve_segment(value_type, segments, at, required, nullable, sensitivity)
    }
}

fn resolve_segment<'a>(
    value_type: &'a ContextType,
    segments: &[ContextPathSegment],
    at: usize,
    required: bool,
    nullable: bool,
    sensitivity: Sensitivity,
) -> (res: Option<ResolvedSchema<'a>>)
    requires
        at < segments@.len(),
    ensures
        forall|allowed: Seq<ValueView>|
            (res is Some) == (#[trigger] resolved(
                value_type@,
                allowed,
                path_from(segments@, at as int),
                required,
                nullable,
                sensitivity,
            ) is Some),
        forall|allowed: Seq<ValueView>|
            res matches Some(r) ==> Some(r@) == #[trigger] resolved(
                value_type@,
                allowed,
                path_from(segments@, at as int),
                required,
                nullable,
                sensitivity,
            ),
    decreases segments@.len() - at, 0nat,
{
    proof {
        lemma_path_step(segments@, at as int);
    }
    match (&segments[at], value_type) {
        (ContextPathSegment::Field { name }, ContextType::Object { schema }) => {
            match schema.field(name) {
                Some(child) => resolve_field_schema(
                    child,
                    segments,
                    at + 1,
                    required && child.required,
                    nullable || child.nullable,
                    sensitivity.combine(child.sensitivity),
                ),
                None => match schema.additional_fields.value_type() {
                    Some(extra) => resolve_type_schema(
                        extra,
                        segments,
                        at + 1,
                        false,
                        nullable,
                        sensitivity,
                    ),
                    None => None,
                },
            }
        },
        (ContextPathSegment::Index { .. }, ContextType::Array { items }) => resolve_type_schema(
            items,
            segments,
            at + 1,
            false,
            nullable,
            sensitivity,
        ),
        _ => None,
    }
}

fn input_type_target_nullable(
    value_type: &ContextType,
    segments: &[ContextPathSegment],
    at: usize,
) -> (res: Option<bool>)
    requires
        at <= segments@.len(),
    ensures
        res == type_target_nullable(value_type@, path_from(segments@, at as int)),
    decreases segments@.len() - at,
{
    if at == segments.len() {
        return None;
    }
    proof {
        lemma_path_step(segments@, at as int);
    }
    let last = at + 1 == segments.len();
    match (&segments[at], value_type) {
        (ContextPathSegment::Field { name }, ContextType::Object { schema }) => {
            match schema.field(name) {
                Some(field) => {
                    if last {
                        Some(field.nullable)
                    } else {
                        input_type_target_nullable(&field.value_type, segments, at + 1)
                    }
                },
                None => match schema.additional_fields.value_type() {
                    Some(extra) => {
                        if last {
                            Some(type_accepts_null(extra))
                        } else {
                            input_type_target_nullable(extra, segments, at + 1)
                        }
                    },
                    None => None,
                },
            }
        },
        (ContextPathSegment::Index { .. }, ContextType::Array { items }) => {
            if last {
                Some(type_accepts_null(items))
            } else {
                input_type_target_nullable(items, segments, at + 1)
            }
        },
        _ => None,
    }
}

fn input_target_nullable(schema: &ObjectSchema, segments: &[ContextPathSegment]) -> (res: Option<
    bool,
>)
    ensures
        res == schema@.target_nullable(segment_views(segments@)),
{
    if segments.len() == 0 {
        return None;
    }
    proof {
        assert(path_from(segments@, 0) =~= segment_views(segments@));
        lemma_path_step(segments@, 0);
    }
    let last = segments.len() == 1;
    match &segments[0] {
        ContextPathSegment::Field { name } => match schema.field(name) {
            Some(field) => {
                if last {
                    Some(field.nullable)
                } else {
                    input_type_target_nullable(&field.value_type, segments, 1)
                }
            },
            None => match schema.additional_fields.value_type() {
                Some(extra) => {
                    if last {
                        Some(type_accepts_null(extra))
                    } else {
                        input_type_target_nullable(extra, segments, 1)
                    }
                },
                None => None,
            },
        },
        ContextPathSegment::Index { .. } => None,
    }
}

impl ObjectSchema {
    /// Resolve a non-empty path.
    pub fn resolve(&self, segments: &[ContextPathSegment]) -> (res: Option<ResolvedSchema<'_>>)
        ensures
            segments@.len() == 0 ==> res is None,
            segments@.len() > 0 ==> (res is Some) == (self@.resolve(
                segment_views(segments@),
            ) is Some),
            res matches Some(r) ==> self@.resolve(segment_views(segments@)) == Some(r@),
    {
        if segments.len() == 0 {
            return None;
        }
        proof {
            assert(path_from(segments@, 0) =~= segment_views(segments@));
            lemma_path_step(segments@, 0);
        }
        match &segments[0] {
            ContextPathSegment::Field { name } => match self.field(name) {
                Some(field) => {
                    assert(Sensitivity::Public.max(field.sensitivity) == field.sensitivity);
                    resolve_field_schema(
                        field,
                        segments,
                        1,
                        field.required,
                        field.nullable,
                        field.sensitivity,
                    )
                },
                None => match self.additional_fields.value_type() {
                    Some(extra) => resolve_type_schema(
                        extra,
                        segments,
                        1,
                        false,
                        false,
                        Sensitivity::Public,
                    ),
                    None => None,
                },
            },
            ContextPathSegment::Index { .. } => None,
        }
    }

    /// Resolve a path to owned type information. Unlike the borrowed resolver,
    /// this also represents the object root when `segments` is empty.
    pub fn resolve_owned(&self, segments: &[ContextPathSegment]) -> (res: Option<
        ResolvedSchemaOwned,
    >)
        ensures
            (res is Some) == (self@.resolve(segment_views(segments@)) is Some),
            res matches Some(r) ==> self@.resolve(segment_views(segments@)) == Some(r@),
    {
        if segments.len() == 0 {
            let sensitivity = aggregate_object_sensitivity(self);
            let none: Vec<Value> = Vec::new();
            assert(value_views(none@) =~= Seq::empty());
            assert(Sensitivity::Public.max(sensitivity) == sensitivity);
            return Some(
                ResolvedSchemaOwned {
                    value_type: ContextType::object(self.clone()),
                    required: true,
                    nullable: false,
                    sensitivity,
                    allowed_values: none,
                },
            );
        }
        match self.resolve(segments) {
            Some(found) => Some(found.to_owned()),
            None => None,
        }
    }

    /// Resolve an explicitly configured action-input target.
    ///
    /// This differs from resolving an output reference. A nullable or optional
    /// ancestor may make reading `parent.child` indeterminate, but writing a
    /// binding to that child materializes the ancestor object. So ancestor
    /// nullability does not make the child nullable; only the leaf field
    /// controls whether a written value may be null. Optionality is kept, so
    /// that a missing source can mean "omit this optional override".
    pub fn resolve_input_target_owned(&self, segments: &[ContextPathSegment]) -> (res: Option<
        ResolvedSchemaOwned,
    >)
        ensures
            (res is Some) == (self@.resolve_target(segment_views(segments@)) is Some),
            res matches Some(r) ==> self@.resolve_target(segment_views(segments@)) == Some(r@),
    {
        match self.resolve_owned(segments) {
            Some(found) => match input_target_nullable(self, segments) {
                Some(nullable) => {
                    let mut found = found;
                    found.nullable = nullable;
                    Some(found)
                },
                None => None,
            },
            None => None,
        }
    }
}

/// The sensitivity of a path never falls below what was inherited on the way,
/// and a path to a whole subtree is at least as sensitive as that subtree.
pub proof fn law_resolved_sensitivity(
    t: TypeView,
    allowed: Seq<ValueView>,
    path: Seq<SegmentView>,
    required: bool,
    nullable: bool,
    sensitivity: Sensitivity,
)
    ensures
        resolved(t, allowed, path, required, nullable, sensitivity) matches Some(r) ==> {
            &&& r.sensitivity.rank() >= sensitivity.rank()
            &&& r.sensitivity.rank() >= r.value_type.sensitivity().rank()
            &&& r.required ==> required
            &&& nullable ==> r.nullable
        },
    decreases path.len(),
{
    if path.len() > 0 {
        match (path[0], t) {
            (SegmentView::Field { name }, TypeView::Object { schema }) => {
                match text_map::lookup(schema.fields, name) {
                    Some(field) => {
                        law_resolved_sensitivity(
                            field.value_type,
                            field.allowed_values,
                            path.skip(1),
                            required && field.required,
                            nullable || field.nullable,
                            sensitivity.max(field.sensitivity),
                        );
                    },
                    None => match schema.additional_fields.value_type() {
                        Some(extra) => {
                            law_resolved_sensitivity(
                                extra,
                                Seq::empty(),
                                path.skip(1),
                                false,
                                nullable,
                                sensitivity,
                            );
                        },
                        None => {},
                    },
                }
            },
            (SegmentView::Index { .. }, TypeView::Array { items }) => {
                law_resolved_sensitivity(
                    *items,
                    Seq::empty(),
                    path.skip(1),
                    false,
                    nullable,
                    sensitivity,
                );
            },
            _ => {},
        }
    }
}

pub proof fn lemma_field_within(fields: Seq<(Seq<char>, FieldView)>, i: int)
    requires
        0 <= i < fields.len(),
    ensures
        fields_sensitivity(fields).rank() >= fields[i].1.sensitivity.rank(),
        fields_sensitivity(fields).rank() >= fields[i].1.value_type.sensitivity().rank(),
    decreases fields.len(),
{
    if i < fields.len() - 1 {
        lemma_field_within(fields.drop_last(), i);
    }
}

/// Nothing below a type is more sensitive than the type as a whole.
pub proof fn law_whole_covers_parts(
    t: TypeView,
    allowed: Seq<ValueView>,
    path: Seq<SegmentView>,
    required: bool,
    nullable: bool,
    sensitivity: Sensitivity,
)
    ensures
        resolved(t, allowed, path, required, nullable, sensitivity) matches Some(r) ==> sensitivity.max(
            t.sensitivity(),
        ).rank() >= r.sensitivity.rank(),
    decreases path.len(),
{
    if path.len() > 0 {
        match (path[0], t) {
            (SegmentView::Field { name }, TypeView::Object { schema }) => {
                assert(t.sensitivity() == schema.sensitivity());
                assert(schema.sensitivity().rank() >= fields_sensitivity(schema.fields).rank());
                match text_map::lookup(schema.fields, name) {
                    Some(field) => {
                        text_map::lemma_found(schema.fields, name);
                        lemma_field_within(
                            schema.fields,
                            text_map::index_of(schema.fields, name) as int,
                        );
                        law_whole_covers_parts(
                            field.value_type,
                            field.allowed_values,
                            path.skip(1),
                            required && field.required,
                            nullable || field.nullable,
                            sensitivity.max(field.sensitivity),
                        );
                    },
                    None => match schema.additional_fields.value_type() {
                        Some(extra) => {
                            assert(schema.sensitivity().rank() >= extra.sensitivity().rank());
                            law_whole_covers_parts(
                                extra,
                                Seq::empty(),
                                path.skip(1),
                                false,
                                nullable,
                                sensitivity,
                            );
                        },
                        None => {},
                    },
                }
            },
            (SegmentView::Index { .. }, TypeView::Array { items }) => {
                assert(t.sensitivity() == items.sensitivity());
                law_whole_covers_parts(
                    *items,
                    Seq::empty(),
                    path.skip(1),
                    false,
                    nullable,
                    sensitivity,
                );
            },
            _ => {},
        }
    }
}

/// A reference to a parent is at least as sensitive as a reference to anything
/// below it: no path launders a nested secret.
pub proof fn law_parent_covers_child(
    t: TypeView,
    allowed: Seq<ValueView>,
    path: Seq<SegmentView>,
    n: int,
    required: bool,
    nullable: bool,
    sensitivity: Sensitivity,
)
    requires
        0 <= n <= path.len(),
        resolved(t, allowed, path, required, nullable, sensitivity) is Some,
    ensures
        resolved(t, allowed, path.take(n), required, nullable, sensitivity) is Some,
        resolved(t, allowed, path.take(n), required, nullable, sensitivity)->0.sensitivity.rank()
            >= resolved(t, allowed, path, required, nullable, sensitivity)->0.sensitivity.rank(),
    decreases path.len(),
{
    if n == 0 {
        law_whole_covers_parts(t, allowed, path, required, nullable, sensitivity);
    } else {
        assert(path.take(n).skip(1) =~= path.skip(1).take(n - 1));
        match (path[0], t) {
            (SegmentView::Field { name }, TypeView::Object { schema }) => {
                match text_map::lookup(schema.fields, name) {
                    Some(field) => {
                        law_parent_covers_child(
                            field.value_type,
                            field.allowed_values,
                            path.skip(1),
                            n - 1,
                            required && field.required,
                            nullable || field.nullable,
                            sensitivity.max(field.sensitivity),
                        );
                    },
                    None => {
                        law_parent_covers_child(
                            schema.additional_fields.value_type()->0,
                            Seq::empty(),
                            path.skip(1),
                            n - 1,
                            false,
                            nullable,
                            sensitivity,
                        );
                    },
                }
            },
            (SegmentView::Index { .. }, TypeView::Array { items }) => {
                law_parent_covers_child(
                    *items,
                    Seq::empty(),
                    path.skip(1),
                    n - 1,
                    false,
                    nullable,
                    sensitivity,
                );
            },
            _ => {},
        }
    }
}

} // verus!
