//! What inference promises: a value has the type that is inferred for it.
use vstd::prelude::*;

use crate::context::SegmentView;
use crate::json;
use crate::json::ValueView;
use crate::schema::{
    common, inferred, inferred_items, AdditionalView, FieldView, SchemaView, TypeView,
    CONTEXT_SCHEMA_VERSION,
};
use crate::subtype::{lemma_equals_transitive, lemma_member_found, well_formed};
use crate::text_map;
use crate::text_map::{has_key, index_of, lemma_found, lemma_index_of, lookup};
use crate::validate::{
    extra_violation_from, field_violation, field_violation_from, item_violation_from,
    object_violation, type_violation,
};

verus! {

proof fn lemma_same_keys(
    a: Seq<(Seq<char>, FieldView)>,
    b: Seq<(Seq<char>, FieldView)>,
    name: Seq<char>,
)
    requires
        a.len() == b.len(),
        forall|i: int| 0 <= i < a.len() ==> (#[trigger] a[i]).0 == b[i].0,
    ensures
        has_key(a, name) == has_key(b, name),
{
    lemma_found(b, name);
    let k = index_of(b, name) as int;
    assert forall|j: int| 0 <= j < k implies (#[trigger] a[j]).0 != name by {
        assert(b[j].0 != name);
    }
    lemma_index_of(a, name, k);
}

/// A value of a type is one of every equal type.
proof fn lemma_equal_types(
    a: TypeView,
    b: TypeView,
    value: ValueView,
    path: Seq<SegmentView>,
    other: Seq<SegmentView>,
)
    requires
        a.equals(b),
        type_violation(b, value, path) is None,
    ensures
        type_violation(a, value, other) is None,
    decreases a, 1int,
{
    match (a, b) {
        (TypeView::Array { items: x }, TypeView::Array { items: y }) => {
            lemma_equal_items(*x, *y, value->Array_0, path, other, 0);
        },
        (TypeView::Object { schema: x }, TypeView::Object { schema: y }) => {
            let members = value->Object_0;
            assert(x.equals(*y));
            assert(object_violation(*y, value, path) is None);
            lemma_equal_fields(*x, *y, members, path, other, 0);
            lemma_equal_extras(*x, *y, members, path, other, 0);
            assert(object_violation(*x, value, other) is None);
        },
        _ => {},
    }
}

proof fn lemma_equal_items(
    a: TypeView,
    b: TypeView,
    values: Seq<ValueView>,
    path: Seq<SegmentView>,
    other: Seq<SegmentView>,
    i: nat,
)
    requires
        a.equals(b),
        item_violation_from(b, values, path, i) is None,
    ensures
        item_violation_from(a, values, other, i) is None,
    decreases a, values.len() - i + 2,
{
    if i < values.len() {
        lemma_equal_types(
            a,
            b,
            values[i as int],
            path.push(SegmentView::Index { index: i }),
            other.push(SegmentView::Index { index: i }),
        );
        lemma_equal_items(a, b, values, path, other, i + 1);
    }
}

proof fn lemma_equal_fields(
    a: SchemaView,
    b: SchemaView,
    members: Seq<(Seq<char>, ValueView)>,
    path: Seq<SegmentView>,
    other: Seq<SegmentView>,
    i: nat,
)
    requires
        a.equals(b),
        field_violation_from(b, members, path, i) is None,
    ensures
        field_violation_from(a, members, other, i) is None,
    decreases a, a.fields.len() - i,
{
    if i < a.fields.len() {
        let (name, field) = a.fields[i as int];
        assert(b.fields[i as int].0 == name);
        let twin = b.fields[i as int].1;
        assert(field.equals(twin));
        match lookup(members, name) {
            Some(value) => {
                let from = path.push(SegmentView::Field { name });
                let at = other.push(SegmentView::Field { name });
                assert(field_violation(twin, value, from) is None);
                assert(field.value_type.equals(twin.value_type));
                if value is Null {
                    assert(field.admits_null() == twin.admits_null());
                } else {
                    lemma_equal_types(field.value_type, twin.value_type, value, from, at);
                    if twin.allowed_values.len() > 0 {
                        let k = choose|k: int|
                            0 <= k < twin.allowed_values.len() && (
                            #[trigger] twin.allowed_values[k]).equals(value);
                        assert(field.allowed_values[k].equals(twin.allowed_values[k]));
                        lemma_equals_transitive(
                            field.allowed_values[k],
                            twin.allowed_values[k],
                            value,
                        );
                        assert(json::listed(field.allowed_values, value));
                    }
                }
                assert(field_violation(field, value, at) is None);
            },
            None => {
                assert(!twin.required);
            },
        }
        lemma_equal_fields(a, b, members, path, other, i + 1);
    }
}

proof fn lemma_equal_extras(
    a: SchemaView,
    b: SchemaView,
    members: Seq<(Seq<char>, ValueView)>,
    path: Seq<SegmentView>,
    other: Seq<SegmentView>,
    i: nat,
)
    requires
        a.equals(b),
        extra_violation_from(b, members, path, i) is None,
    ensures
        extra_violation_from(a, members, other, i) is None,
    decreases a, members.len() - i,
{
    if i < members.len() {
        let (name, value) = members[i as int];
        lemma_same_keys(a.fields, b.fields, name);
        match (a.additional_fields, b.additional_fields) {
            (AdditionalView::Typed(x), AdditionalView::Typed(y)) => {
                if !has_key(a.fields, name) {
                    lemma_equal_types(
                        x,
                        y,
                        value,
                        path.push(SegmentView::Field { name }),
                        other.push(SegmentView::Field { name }),
                    );
                }
            },
            _ => {},
        }
        lemma_equal_extras(a, b, members, path, other, i + 1);
    }
}

/// A value of either type is one of the common type.
proof fn lemma_common(
    left: TypeView,
    right: TypeView,
    value: ValueView,
    path: Seq<SegmentView>,
)
    requires
        type_violation(left, value, path) is None || type_violation(right, value, path) is None,
    ensures
        type_violation(common(left, right), value, path) is None,
{
    if left.equals(right) && type_violation(left, value, path) is Some {
        lemma_equal_types(left, right, value, path, path);
    }
}

/// The items of an array have the type that is inferred for them.
proof fn lemma_inferred_items(items: Seq<ValueView>, k: int, path: Seq<SegmentView>)
    requires
        0 <= k < items.len(),
        forall|i: int| 0 <= i < items.len() ==> well_formed(#[trigger] items[i]),
    ensures
        type_violation(inferred_items(items), items[k], path) is None,
    decreases items, items.len(),
{
    if items.len() == 1 {
        law_inferred_type_fits(items[0], path);
    } else {
        let rest = items.drop_last();
        if k < rest.len() {
            assert(rest[k] == items[k]);
            lemma_inferred_items(rest, k, path);
        } else {
            law_inferred_type_fits(items.last(), path);
        }
        lemma_common(inferred_items(rest), inferred(items.last()), items[k], path);
    }
}

proof fn lemma_items_fit(t: TypeView, values: Seq<ValueView>, path: Seq<SegmentView>, i: nat)
    requires
        forall|k: int, p: Seq<SegmentView>|
            0 <= k < values.len() ==> #[trigger] type_violation(t, values[k], p) is None,
    ensures
        item_violation_from(t, values, path, i) is None,
    decreases values.len() - i,
{
    if i < values.len() {
        assert(type_violation(t, values[i as int], path.push(SegmentView::Index { index: i }))
            is None);
        lemma_items_fit(t, values, path, i + 1);
    }
}

proof fn lemma_fields_fit(
    schema: SchemaView,
    members: Seq<(Seq<char>, ValueView)>,
    path: Seq<SegmentView>,
    i: nat,
)
    requires
        forall|k: int, p: Seq<SegmentView>|
            0 <= k < schema.fields.len() ==> #[trigger] field_violation(
                schema.fields[k].1,
                lookup(members, schema.fields[k].0)->Some_0,
                p,
            ) is None,
        forall|k: int|
            0 <= k < schema.fields.len() ==> has_key(members, (#[trigger] schema.fields[k]).0),
    ensures
        field_violation_from(schema, members, path, i) is None,
    decreases schema.fields.len() - i,
{
    if i < schema.fields.len() {
        let (name, field) = schema.fields[i as int];
        assert(has_key(members, name));
        let value = lookup(members, name)->Some_0;
        assert(field_violation(field, value, path.push(SegmentView::Field { name })) is None);
        lemma_fields_fit(schema, members, path, i + 1);
    }
}

proof fn lemma_no_extras(
    schema: SchemaView,
    members: Seq<(Seq<char>, ValueView)>,
    path: Seq<SegmentView>,
    i: nat,
)
    requires
        forall|k: int|
            0 <= k < members.len() ==> has_key(schema.fields, (#[trigger] members[k]).0),
    ensures
        extra_violation_from(schema, members, path, i) is None,
    decreases members.len() - i,
{
    if i < members.len() {
        lemma_no_extras(schema, members, path, i + 1);
    }
}

proof fn lemma_formed_items(value: ValueView)
    requires
        well_formed(value),
        value is Array,
    ensures
        forall|i: int|
            0 <= i < value->Array_0.len() ==> well_formed(#[trigger] value->Array_0[i]),
{
    reveal(well_formed);
}

proof fn lemma_formed_members(members: Seq<(Seq<char>, ValueView)>)
    requires
        well_formed(ValueView::Object(members)),
    ensures
        text_map::ascending(members),
        forall|i: int| 0 <= i < members.len() ==> well_formed((#[trigger] members[i]).1),
{
    reveal(well_formed);
}

/// The schema that is inferred for an object.
spec fn object_schema(members: Seq<(Seq<char>, ValueView)>) -> SchemaView {
    *inferred(ValueView::Object(members))->Object_schema
}

proof fn lemma_object_schema(members: Seq<(Seq<char>, ValueView)>)
    ensures
        inferred(ValueView::Object(members)) == (TypeView::Object {
            schema: Box::new(object_schema(members)),
        }),
        object_schema(members).version == CONTEXT_SCHEMA_VERSION,
        object_schema(members).fields.len() == members.len(),
        forall|k: int|
            0 <= k < members.len() ==> #[trigger] object_schema(members).fields[k] == (
                members[k].0,
                FieldView::required(inferred(members[k].1)),
            ),
{
}

proof fn lemma_inferred_member(
    members: Seq<(Seq<char>, ValueView)>,
    k: int,
    path: Seq<SegmentView>,
)
    requires
        0 <= k < members.len(),
        well_formed(members[k].1),
    ensures
        field_violation(FieldView::required(inferred(members[k].1)), members[k].1, path) is None,
    decreases members, 0nat,
{
    law_inferred_type_fits(members[k].1, path);
}

/// Every value has the type that is inferred for it.
pub proof fn law_inferred_type_fits(value: ValueView, path: Seq<SegmentView>)
    requires
        well_formed(value),
    ensures
        type_violation(inferred(value), value, path) is None,
    decreases value, 0nat,
{
    match value {
        ValueView::Array(items) => {
            lemma_formed_items(value);
            let t = inferred_items(items);
            assert forall|k: int, p: Seq<SegmentView>| 0 <= k < items.len() implies #[trigger]
                type_violation(t, items[k], p) is None by {
                lemma_inferred_items(items, k, p);
            }
            lemma_items_fit(t, items, path, 0);
        },
        ValueView::Object(members) => {
            lemma_formed_members(members);
            lemma_object_schema(members);
            let schema = object_schema(members);
            assert forall|k: int| 0 <= k < members.len() implies has_key(
                members,
                (#[trigger] schema.fields[k]).0,
            ) by {
                lemma_member_found(members, k);
            }
            assert forall|k: int, p: Seq<SegmentView>|
                0 <= k < schema.fields.len() implies #[trigger] field_violation(
                schema.fields[k].1,
                lookup(members, schema.fields[k].0)->Some_0,
                p,
            ) is None by {
                lemma_member_found(members, k);
                lemma_inferred_member(members, k, p);
            }
            lemma_fields_fit(schema, members, path, 0);
            assert forall|k: int| 0 <= k < members.len() implies has_key(
                schema.fields,
                (#[trigger] members[k]).0,
            ) by {
                lemma_found(schema.fields, members[k].0);
                assert(schema.fields[k].0 == members[k].0);
            }
            lemma_no_extras(schema, members, path, 0);
            assert(object_violation(schema, value, path) is None);
        },
        _ => {},
    }
}

} // verus!
