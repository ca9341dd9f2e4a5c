//! Types of bindings that are known before anything runs.
use vstd::prelude::*;

use crate::binding::{has_index, indexed};
use crate::context::{segment_views, ContextPathSegment, SegmentView};
use crate::json::{clone_values, value_views, Value, ValueView};
use crate::resolve::{ResolvedSchemaOwned, ResolvedView};
use crate::schema::{ContextType, FieldView, ObjectSchema, SchemaView, Sensitivity, TypeView};
use crate::target::{parse_binding_target, target_path, BindingLimits};
use crate::text;
use crate::text::{
    chars_of, count_text, is_alphabetic, is_alphanumeric, owned, text_len, unicode_alphabetic,
    unicode_alphanumeric,
};
use crate::text_map;

verus! {

#[derive(Debug, PartialEq)]
pub struct StaticBindingType {
    pub value_type: ContextType,
    pub required: bool,
    pub nullable: bool,
    pub sensitivity: Sensitivity,
    pub allowed_values: Vec<Value>,
    /// The structural type is optional only because a concrete array index may
    /// be out of bounds. Runtime resolution remains fail-closed before the
    /// consumer action; named optional fields never set this flag.
    pub positionally_optional: bool,
}

pub struct StaticView {
    pub value_type: TypeView,
    pub required: bool,
    pub nullable: bool,
    pub sensitivity: Sensitivity,
    pub allowed_values: Seq<ValueView>,
    pub positionally_optional: bool,
}

impl StaticBindingType {
    pub open spec fn view(&self) -> StaticView {
        StaticView {
            value_type: self.value_type@,
            required: self.required,
            nullable: self.nullable,
            sensitivity: self.sensitivity,
            allowed_values: value_views(self.allowed_values@),
            positionally_optional: self.positionally_optional,
        }
    }

    /// A value that is always there and never null.
    pub fn present(value_type: ContextType, sensitivity: Sensitivity) -> (res: Self)
        ensures
            res@ == present(value_type@, sensitivity),
    {
        let allowed_values: Vec<Value> = Vec::new();
        assert(value_views(allowed_values@) =~= Seq::empty());
        StaticBindingType {
            value_type,
            required: true,
            nullable: false,
            sensitivity,
            allowed_values,
            positionally_optional: false,
        }
    }
}

pub open spec fn present(value_type: TypeView, sensitivity: Sensitivity) -> StaticView {
    StaticView {
        value_type,
        required: true,
        nullable: false,
        sensitivity,
        allowed_values: Seq::empty(),
        positionally_optional: false,
    }
}

impl Clone for StaticBindingType {
    fn clone(&self) -> (res: Self)
        ensures
            res@ == self@,
    {
        StaticBindingType {
            value_type: self.value_type.clone(),
            required: self.required,
            nullable: self.nullable,
            sensitivity: self.sensitivity,
            allowed_values: clone_values(&self.allowed_values),
            positionally_optional: self.positionally_optional,
        }
    }
}

/// The highest sensitivity among the declared fields below a type.
pub open spec fn declared_sensitivity(t: TypeView) -> Sensitivity
    decreases t, 1int,
{
    match t {
        TypeView::Array { items } => declared_sensitivity(*items),
        TypeView::Object { schema } => declared_fields_sensitivity(schema.fields),
        _ => Sensitivity::Public,
    }
}

pub open spec fn declared_fields_sensitivity(fields: Seq<(Seq<char>, FieldView)>) -> Sensitivity
    decreases fields, 0int,
{
    if fields.len() == 0 {
        Sensitivity::Public
    } else {
        declared_fields_sensitivity(fields.drop_last()).max(fields.last().1.sensitivity).max(
            declared_sensitivity(fields.last().1.value_type),
        )
    }
}

fn context_type_sensitivity(value_type: &ContextType) -> (res: Sensitivity)
    ensures
        res == declared_sensitivity(value_type@),
    decreases value_type, 1int,
{
    match value_type {
        ContextType::Array { items } => context_type_sensitivity(items),
        ContextType::Object { schema } => context_fields_sensitivity(schema),
        _ => Sensitivity::Public,
    }
}

fn context_fields_sensitivity(schema: &ObjectSchema) -> (res: Sensitivity)
    ensures
        res == declared_fields_sensitivity(schema@.fields),
    decreases schema, 0int,
{
    let ghost fields = schema@.fields;
    let mut current = Sensitivity::Public;
    let mut i: usize = 0;
    while i < schema.fields.entries.len()
        invariant
            i <= schema.fields.entries@.len(),
            fields == schema@.fields,
            current == declared_fields_sensitivity(fields.take(i as int)),
        decreases schema.fields.entries@.len() - i,
    {
        let field = &schema.fields.entries[i].1;
        proof {
            assert(decreases_to!(*schema => schema.fields));
            assert(decreases_to!(schema.fields.entries@ => schema.fields.entries@[i as int].1));
            assert(fields.take(i + 1).drop_last() =~= fields.take(i as int));
            assert(fields.take(i + 1).last() == (schema.fields.entries@[i as int].0@, field@));
        }
        current = current.combine(field.sensitivity).combine(
            context_type_sensitivity(&field.value_type),
        );
        i = i + 1;
    }
    assert(fields.take(i as int) =~= fields);
    current
}

/// A static type followed along a path from its `i`-th segment on.
pub open spec fn followed(at: StaticView, path: Seq<SegmentView>, i: nat) -> Option<StaticView>
    decreases path.len() - i,
{
    if i >= path.len() {
        Some(
            StaticView {
                sensitivity: at.sensitivity.max(declared_sensitivity(at.value_type)),
                ..at
            },
        )
    } else {
        match (path[i as int], at.value_type) {
            (SegmentView::Field { name }, TypeView::Object { schema }) => match text_map::lookup(
                schema.fields,
                name,
            ) {
                None => None,
                Some(field) => followed(
                    StaticView {
                        value_type: field.value_type,
                        required: at.required && field.required,
                        nullable: at.nullable || field.nullable,
                        sensitivity: at.sensitivity.max(field.sensitivity),
                        allowed_values: field.allowed_values,
                        positionally_optional: at.positionally_optional && field.required,
                    },
                    path,
                    i + 1,
                ),
            },
            (SegmentView::Index { .. }, TypeView::Array { items }) => followed(
                StaticView {
                    value_type: *items,
                    required: false,
                    allowed_values: Seq::empty(),
                    positionally_optional: at.positionally_optional || at.required,
                    ..at
                },
                path,
                i + 1,
            ),
            _ => None,
        }
    }
}

pub open spec fn static_view(t: Option<StaticBindingType>) -> Option<StaticView> {
    match t {
        Some(t) => Some(t@),
        None => None,
    }
}

/// The type of a part of a value whose type is known.
pub fn resolve_static_type(root: &StaticBindingType, segments: &Vec<ContextPathSegment>) -> (res:
    Option<StaticBindingType>)
    ensures
        static_view(res) == followed(root@, segment_views(segments@), 0),
{
    let ghost path = segment_views(segments@);
    let mut current = root.clone();
    let mut i: usize = 0;
    while i < segments.len()
        invariant
            i <= segments@.len(),
            path == segment_views(segments@),
            followed(root@, path, 0) == followed(current@, path, i as nat),
        decreases segments@.len() - i,
    {
        assert(path[i as int] == segments@[i as int]@);
        let next = match (&segments[i], &current.value_type) {
            (ContextPathSegment::Field { name }, ContextType::Object { schema }) => {
                match schema.field(name) {
                    None => {
                        return None;
                    },
                    Some(field) => StaticBindingType {
                        value_type: field.value_type.clone(),
                        required: current.required && field.required,
                        nullable: current.nullable || field.nullable,
                        sensitivity: current.sensitivity.combine(field.sensitivity),
                        allowed_values: clone_values(&field.allowed_values),
                        positionally_optional: current.positionally_optional && field.required,
                    },
                }
            },
            (ContextPathSegment::Index { .. }, ContextType::Array { items }) => {
                let allowed_values: Vec<Value> = Vec::new();
                assert(value_views(allowed_values@) =~= Seq::empty());
                StaticBindingType {
                    value_type: (**items).clone(),
                    required: false,
                    nullable: current.nullable,
                    sensitivity: current.sensitivity,
                    allowed_values,
                    positionally_optional: current.positionally_optional || current.required,
                }
            },
            _ => {
                return None;
            },
        };
        current = next;
        i = i + 1;
    }
    current.sensitivity = current.sensitivity.combine(
        context_type_sensitivity(&current.value_type),
    );
    Some(current)
}

/// Whether a path below a type passes only through required fields that are not
/// nullable, and through an index somewhere; `seen` tells of an index before the
/// `i`-th segment.
pub open spec fn optional_by_index(t: TypeView, path: Seq<SegmentView>, i: nat, seen: bool) -> bool
    decreases path.len() - i,
{
    if i >= path.len() {
        seen
    } else {
        match (path[i as int], t) {
            (SegmentView::Field { name }, TypeView::Object { schema }) => match text_map::lookup(
                schema.fields,
                name,
            ) {
                None => false,
                Some(field) => field.required && !field.nullable && optional_by_index(
                    field.value_type,
                    path,
                    i + 1,
                    seen,
                ),
            },
            (SegmentView::Index { .. }, TypeView::Array { items }) => optional_by_index(
                *items,
                path,
                i + 1,
                true,
            ),
            _ => false,
        }
    }
}

pub fn source_is_optional_only_by_index(
    schema: &ObjectSchema,
    segments: &Vec<ContextPathSegment>,
) -> (res: bool)
    ensures
        res == optional_by_index(
            TypeView::Object { schema: Box::new(schema@) },
            segment_views(segments@),
            0,
            false,
        ),
{
    let ghost path = segment_views(segments@);
    let mut current = ContextType::object(schema.clone());
    let ghost start = current@;
    let mut saw_index = false;
    let mut i: usize = 0;
    while i < segments.len()
        invariant
            i <= segments@.len(),
            path == segment_views(segments@),
            start == (TypeView::Object { schema: Box::new(schema@) }),
            optional_by_index(start, path, 0, false) == optional_by_index(
                current@,
                path,
                i as nat,
                saw_index,
            ),
        decreases segments@.len() - i,
    {
        assert(path[i as int] == segments@[i as int]@);
        let next = match (&segments[i], &current) {
            (ContextPathSegment::Field { name }, ContextType::Object { schema }) => {
                match schema.field(name) {
                    None => {
                        return false;
                    },
                    Some(field) => {
                        if !field.required || field.nullable {
                            return false;
                        }
                        field.value_type.clone()
                    },
                }
            },
            (ContextPathSegment::Index { .. }, ContextType::Array { items }) => {
                saw_index = true;
                (**items).clone()
            },
            _ => {
                return false;
            },
        };
        current = next;
        i = i + 1;
    }
    saw_index
}

/// A path in words: names with dots between them, indexes in brackets.
pub open spec fn dotted(path: Seq<SegmentView>) -> Seq<char>
    decreases path.len(),
{
    if path.len() == 0 {
        Seq::empty()
    } else {
        let init = dotted(path.drop_last());
        match path.last() {
            SegmentView::Field { name } => if init.len() == 0 {
                init + name
            } else {
                init + "."@ + name
            },
            SegmentView::Index { index } => init + "["@ + text::decimal(index) + "]"@,
        }
    }
}

pub open spec fn segments_text(path: Seq<SegmentView>) -> Seq<char> {
    if dotted(path).len() == 0 {
        "<root>"@
    } else {
        dotted(path)
    }
}

pub fn display_segments(segments: &Vec<ContextPathSegment>) -> (res: String)
    ensures
        res@ == segments_text(segment_views(segments@)),
{
    let ghost path = segment_views(segments@);
    let mut out = String::new();
    let mut i: usize = 0;
    assert(out@ =~= dotted(path.take(0)));
    while i < segments.len()
        invariant
            i <= segments@.len(),
            path == segment_views(segments@),
            out@ == dotted(path.take(i as int)),
        decreases segments@.len() - i,
    {
        proof {
            assert(path.take(i + 1).drop_last() =~= path.take(i as int));
            assert(path.take(i + 1).last() == segments@[i as int]@);
        }
        match &segments[i] {
            ContextPathSegment::Field { name } => {
                if text_len(&out) > 0 {
                    out.append(".");
                }
                out.append(name);
            },
            ContextPathSegment::Index { index } => {
                out.append("[");
                out.append(&count_text(*index));
                out.append("]");
            },
        }
        i = i + 1;
    }
    assert(path.take(i as int) =~= path);
    if text_len(&out) == 0 {
        owned("<root>")
    } else {
        out
    }
}

/// A name for a loop variable or a quantifier: a letter or an underscore, then
/// letters, digits and underscores.
pub open spec fn identifier(s: Seq<char>) -> bool {
    &&& s.len() > 0
    &&& s[0] == '_' || unicode_alphabetic(s[0])
    &&& forall|i: int| 1 <= i < s.len() ==> (#[trigger] s[i]) == '_' || unicode_alphanumeric(s[i])
}

pub fn is_identifier(value: &str) -> (res: bool)
    ensures
        res == identifier(value@),
{
    let chars = chars_of(value);
    if chars.len() == 0 {
        return false;
    }
    if chars[0] != '_' && !is_alphabetic(chars[0]) {
        return false;
    }
    let mut i: usize = 1;
    while i < chars.len()
        invariant
            chars@ == value@,
            1 <= i <= chars@.len(),
            forall|j: int|
                1 <= j < i ==> (#[trigger] value@[j]) == '_' || unicode_alphanumeric(value@[j]),
        decreases chars@.len() - i,
    {
        if chars[i] != '_' && !is_alphanumeric(chars[i]) {
            assert(!(value@[i as int] == '_' || unicode_alphanumeric(value@[i as int])));
            return false;
        }
        i = i + 1;
    }
    true
}

/// Whether a selector can take a literal of a type.
pub open spec fn selects(selector: StaticView, value: TypeView) -> bool {
    if value is Null {
        selector.nullable || selector.value_type is Any
    } else {
        selector.value_type.assignable_from(value) || value.assignable_from(selector.value_type)
    }
}

pub fn switch_types_compatible(selector: &StaticBindingType, value: &ContextType) -> (res: bool)
    ensures
        res == selects(selector@, value@),
{
    if matches!(value, ContextType::Null) {
        return selector.nullable || matches!(selector.value_type, ContextType::Any);
    }
    selector.value_type.is_assignable_from(value) || value.is_assignable_from(&selector.value_type)
}

/// The input field that a binding target names.
pub open spec fn input_field(schema: SchemaView, target: Seq<char>) -> Option<ResolvedView> {
    match target_path(target, default_binding_limits()) {
        Err(_) => None,
        Ok(path) => if indexed(path) {
            None
        } else {
            schema.resolve_target(path)
        },
    }
}

pub open spec fn resolved_view(r: Option<ResolvedSchemaOwned>) -> Option<ResolvedView> {
    match r {
        Some(r) => Some(r@),
        None => None,
    }
}

pub fn resolve_input_field(schema: &ObjectSchema, target: &str) -> (res: Option<
    ResolvedSchemaOwned,
>)
    ensures
        resolved_view(res) == input_field(schema@, target@),
{
    match parse_binding_target(target, BindingLimits::default()) {
        Err(_) => None,
        Ok(path) => {
            if has_index(&path) {
                return None;
            }
            schema.resolve_input_target_owned(path.as_slice())
        },
    }
}

pub open spec fn default_binding_limits() -> BindingLimits {
    BindingLimits {
        max_bindings: 128,
        max_path_segments: 32,
        max_template_parts: 256,
        max_rendered_bytes: 65536,
    }
}

/// A field that an object declares has the type that it is declared with: it is sure to be there
/// only where the object is, may be null where either may, and is at least as sensitive as both.
/// A field that is not declared, and one of what is no object, has no type.
pub proof fn law_field_type(at: StaticView, name: Seq<char>)
    ensures
        match at.value_type {
            TypeView::Object { schema } => match text_map::lookup(schema.fields, name) {
                Some(field) => {
                    &&& followed(at, seq![SegmentView::Field { name }], 0) matches Some(found)
                    &&& found.value_type == field.value_type
                    &&& found.required <==> at.required && field.required
                    &&& found.nullable <==> at.nullable || field.nullable
                    &&& found.allowed_values == field.allowed_values
                    &&& found.sensitivity.rank() >= at.sensitivity.rank()
                    &&& found.sensitivity.rank() >= field.sensitivity.rank()
                    &&& found.sensitivity.rank() >= declared_sensitivity(field.value_type).rank()
                },
                None => followed(at, seq![SegmentView::Field { name }], 0) is None,
            },
            _ => followed(at, seq![SegmentView::Field { name }], 0) is None,
        },
{
    reveal_with_fuel(followed, 3);
}

/// An item of an array has the type of the items, is never sure to be there, and may be null
/// where the array may. What is no array has no items.
pub proof fn law_item_type(at: StaticView, index: usize)
    ensures
        match at.value_type {
            TypeView::Array { items } => {
                &&& followed(at, seq![SegmentView::Index { index: index as nat }], 0) matches Some(
                    found,
                )
                &&& found.value_type == *items
                &&& !found.required
                &&& found.positionally_optional <==> at.required || at.positionally_optional
                &&& found.nullable == at.nullable
                &&& found.allowed_values.len() == 0
                &&& found.sensitivity.rank() >= at.sensitivity.rank()
            },
            _ => followed(at, seq![SegmentView::Index { index: index as nat }], 0) is None,
        },
{
    reveal_with_fuel(followed, 3);
}

/// A path is followed part by part.
pub proof fn law_path_is_followed(at: StaticView, path: Seq<SegmentView>)
    requires
        path.len() > 0,
        followed(at, path, 0) is Some,
    ensures
        followed(at, path.take(1), 0) is Some,
        at.value_type is Object || at.value_type is Array,
{
    reveal_with_fuel(followed, 3);
    assert(path.take(1)[0] == path[0]);
}

/// An object is as sensitive as the most sensitive of its fields: at least as much as each of
/// them and as what lies inside it, and an array as much as its items.
pub proof fn law_sensitivity_of_the_parts(fields: Seq<(Seq<char>, FieldView)>, items: TypeView)
    ensures
        forall|k: int|
            0 <= k < fields.len() ==> declared_fields_sensitivity(fields).rank() >= (
            #[trigger] fields[k]).1.sensitivity.rank() && declared_fields_sensitivity(fields).rank()
                >= declared_sensitivity(fields[k].1.value_type).rank(),
        declared_fields_sensitivity(fields) != Sensitivity::Public ==> exists|k: int|
            0 <= k < fields.len() && (declared_fields_sensitivity(fields) == (
            #[trigger] fields[k]).1.sensitivity || declared_fields_sensitivity(fields)
                == declared_sensitivity(fields[k].1.value_type)),
        declared_sensitivity(TypeView::Array { items: Box::new(items) }) == declared_sensitivity(
            items,
        ),
    decreases fields.len(),
{
    if fields.len() > 0 {
        let init = fields.drop_last();
        law_sensitivity_of_the_parts(init, items);
        let all = declared_fields_sensitivity(fields);
        assert forall|k: int| 0 <= k < fields.len() implies all.rank() >= (
        #[trigger] fields[k]).1.sensitivity.rank() && all.rank() >= declared_sensitivity(
            fields[k].1.value_type,
        ).rank() by {
            if k < init.len() {
                assert(init[k] == fields[k]);
            }
        }
        if all != Sensitivity::Public {
            if all == declared_fields_sensitivity(init) {
                let k = choose|k: int|
                    0 <= k < init.len() && (all == (#[trigger] init[k]).1.sensitivity || all
                        == declared_sensitivity(init[k].1.value_type));
                assert(init[k] == fields[k]);
            } else {
                assert(fields[fields.len() - 1] == fields.last());
            }
        }
    }
}

} // verus!
