//! What assignability promises: a value of one type is a value of every type
//! that the first is assignable to.
use vstd::prelude::*;

use crate::context::SegmentView;
use crate::json;
use crate::json::ValueView;
use crate::schema::{AdditionalView, FieldView, SchemaView, TypeView, CONTEXT_SCHEMA_VERSION};
use crate::text_map;
use crate::text_map::{has_key, index_of, lemma_found, lemma_index_of, lookup};
use crate::validate::{
    extra_violation_from, field_violation, field_violation_from, item_violation_from,
    object_violation, type_violation,
};

verus! {

/// No object in the value has a name twice.
#[verifier::opaque]
pub open spec fn well_formed(value: ValueView) -> bool
    decreases value,
{
    match value {
        ValueView::Array(items) => forall|i: int|
            0 <= i < items.len() ==> well_formed(#[trigger] items[i]),
        ValueView::Object(members) => text_map::ascending(members) && forall|i: int|
            0 <= i < members.len() ==> well_formed((#[trigger] members[i]).1),
        _ => true,
    }
}

/// What assignability leaves unchecked: the schemas asked for have a version
/// that is understood, and no input that takes a closed set of values is met by
/// a contract for extra fields, which cannot name such a set.
pub open spec fn checkable(expected: TypeView, actual: TypeView) -> bool
    decreases expected,
{
    match (expected, actual) {
        (TypeView::Array { items: e }, TypeView::Array { items: a }) => checkable(*e, *a),
        (TypeView::Object { schema: e }, TypeView::Object { schema: a }) => checkable_schema(
            *e,
            *a,
        ),
        _ => true,
    }
}

#[verifier::opaque]
pub open spec fn checkable_schema(expected: SchemaView, actual: SchemaView) -> bool
    decreases expected,
{
    &&& 0 < expected.version <= CONTEXT_SCHEMA_VERSION
    &&& forall|i: int|
        0 <= i < expected.fields.len() ==> match lookup(
            actual.fields,
            (#[trigger] expected.fields[i]).0,
        ) {
            Some(field) => checkable(expected.fields[i].1.value_type, field.value_type),
            None => match actual.additional_fields.value_type() {
                Some(extra) => expected.fields[i].1.allowed_values.len() == 0 && checkable(
                    expected.fields[i].1.value_type,
                    extra,
                ),
                None => true,
            },
        }
    &&& forall|i: int|
        0 <= i < actual.fields.len() && !has_key(
            expected.fields,
            (#[trigger] actual.fields[i]).0,
        ) ==> match expected.additional_fields {
            AdditionalView::Typed(t) => checkable(t, actual.fields[i].1.value_type),
            _ => true,
        }
    &&& match (actual.additional_fields.value_type(), expected.additional_fields) {
        (Some(extra), AdditionalView::Typed(t)) => checkable(t, extra),
        _ => true,
    }
}

pub proof fn lemma_equals_transitive(a: ValueView, b: ValueView, c: ValueView)
    requires
        a.equals(b),
        b.equals(c),
    ensures
        a.equals(c),
    decreases a,
{
    match (a, b, c) {
        (ValueView::Array(x), ValueView::Array(y), ValueView::Array(z)) => {
            assert forall|i: int| 0 <= i < x.len() implies (#[trigger] x[i]).equals(z[i]) by {
                assert(y[i].equals(z[i]));
                lemma_equals_transitive(x[i], y[i], z[i]);
            }
        },
        (ValueView::Object(x), ValueView::Object(y), ValueView::Object(z)) => {
            assert forall|i: int| 0 <= i < x.len() implies (#[trigger] x[i]).0 == z[i].0
                && x[i].1.equals(z[i].1) by {
                assert(y[i].0 == z[i].0);
                lemma_equals_transitive(x[i].1, y[i].1, z[i].1);
            }
        },
        _ => {},
    }
}

/// A member is the one that its name finds.
pub proof fn lemma_member_found(members: Seq<(Seq<char>, ValueView)>, k: int)
    requires
        text_map::ascending(members),
        0 <= k < members.len(),
    ensures
        lookup(members, members[k].0) == Some(members[k].1),
{
    assert forall|j: int| 0 <= j < k implies (#[trigger] members[j]).0 != members[k].0 by {
        text_map::lemma_before_excludes(members[j].0, members[k].0);
    }
    lemma_index_of(members, members[k].0, k);
}

/// Where no listed field is violated, the `k`-th is not.
proof fn lemma_field_holds(
    schema: SchemaView,
    members: Seq<(Seq<char>, ValueView)>,
    path: Seq<SegmentView>,
    i: nat,
    k: int,
)
    requires
        field_violation_from(schema, members, path, i) is None,
        i <= k < schema.fields.len(),
    ensures
        match lookup(members, schema.fields[k].0) {
            Some(value) => field_violation(
                schema.fields[k].1,
                value,
                path.push(SegmentView::Field { name: schema.fields[k].0 }),
            ) is None,
            None => !schema.fields[k].1.required,
        },
    decreases k - i,
{
    if i < k {
        lemma_field_holds(schema, members, path, i + 1, k);
    }
}

/// Where no extra member is a violation, the `k`-th member is none.
proof fn lemma_extra_holds(
    schema: SchemaView,
    members: Seq<(Seq<char>, ValueView)>,
    path: Seq<SegmentView>,
    i: nat,
    k: int,
)
    requires
        extra_violation_from(schema, members, path, i) is None,
        i <= k < members.len(),
        !has_key(schema.fields, members[k].0),
    ensures
        match schema.additional_fields {
            AdditionalView::Forbidden => false,
            AdditionalView::Any => true,
            AdditionalView::Typed(t) => type_violation(
                t,
                members[k].1,
                path.push(SegmentView::Field { name: members[k].0 }),
            ) is None,
        },
    decreases k - i,
{
    if i < k {
        lemma_extra_holds(schema, members, path, i + 1, k);
    }
}

/// The type of an extra member of a valid object, and that its value has it.
proof fn lemma_extra_type(
    schema: SchemaView,
    members: Seq<(Seq<char>, ValueView)>,
    path: Seq<SegmentView>,
    k: int,
) -> (extra: TypeView)
    requires
        extra_violation_from(schema, members, path, 0) is None,
        0 <= k < members.len(),
        !has_key(schema.fields, members[k].0),
    ensures
        schema.additional_fields.value_type() == Some(extra),
        type_violation(
            extra,
            members[k].1,
            path.push(SegmentView::Field { name: members[k].0 }),
        ) is None,
{
    lemma_extra_holds(schema, members, path, 0, k);
    schema.additional_fields.value_type()->Some_0
}

proof fn lemma_types(
    expected: TypeView,
    actual: TypeView,
    value: ValueView,
    path: Seq<SegmentView>,
    other: Seq<SegmentView>,
)
    requires
        expected.assignable_from(actual),
        checkable(expected, actual),
        well_formed(value),
        type_violation(actual, value, path) is None,
    ensures
        type_violation(expected, value, other) is None,
    decreases expected, 1int,
{
    reveal(well_formed);
    match (expected, actual) {
        (TypeView::Array { items: e }, TypeView::Array { items: a }) => {
            lemma_items(*e, *a, value->Array_0, path, other, 0);
        },
        (TypeView::Object { schema: e }, TypeView::Object { schema: a }) => {
            assert(checkable_schema(*e, *a)) by {
                reveal(checkable_schema);
            }
            lemma_objects(*e, *a, value, path, other);
        },
        _ => {},
    }
}

proof fn lemma_items(
    expected: TypeView,
    actual: TypeView,
    values: Seq<ValueView>,
    path: Seq<SegmentView>,
    other: Seq<SegmentView>,
    i: nat,
)
    requires
        expected.assignable_from(actual),
        checkable(expected, actual),
        forall|k: int| 0 <= k < values.len() ==> well_formed(#[trigger] values[k]),
        item_violation_from(actual, values, path, i) is None,
    ensures
        item_violation_from(expected, values, other, i) is None,
    decreases expected, values.len() - i + 2,
{
    if i < values.len() {
        lemma_types(
            expected,
            actual,
            values[i as int],
            path.push(SegmentView::Index { index: i }),
            other.push(SegmentView::Index { index: i }),
        );
        lemma_items(expected, actual, values, path, other, i + 1);
    }
}

/// A value of a field is one of every field that accepts the first.
proof fn lemma_fields(
    expected: FieldView,
    actual: FieldView,
    value: ValueView,
    path: Seq<SegmentView>,
    other: Seq<SegmentView>,
)
    requires
        expected.accepts(actual),
        checkable(expected.value_type, actual.value_type),
        well_formed(value),
        field_violation(actual, value, path) is None,
    ensures
        field_violation(expected, value, other) is None,
    decreases expected,
{
    if !(value is Null) {
        lemma_types(expected.value_type, actual.value_type, value, path, other);
        if expected.allowed_values.len() > 0 {
            let k = choose|k: int|
                0 <= k < actual.allowed_values.len() && (#[trigger] actual.allowed_values[k]).equals(
                    value,
                );
            assert(json::listed(expected.allowed_values, actual.allowed_values[k]));
            let j = choose|j: int|
                0 <= j < expected.allowed_values.len() && (
                #[trigger] expected.allowed_values[j]).equals(actual.allowed_values[k]);
            lemma_equals_transitive(
                expected.allowed_values[j],
                actual.allowed_values[k],
                value,
            );
        }
    }
}

proof fn lemma_listed(
    expected: SchemaView,
    actual: SchemaView,
    members: Seq<(Seq<char>, ValueView)>,
    path: Seq<SegmentView>,
    other: Seq<SegmentView>,
    i: nat,
)
    requires
        expected.assignable_from(actual),
        checkable_schema(expected, actual),
        well_formed(ValueView::Object(members)),
        field_violation_from(actual, members, path, 0) is None,
        extra_violation_from(actual, members, path, 0) is None,
    ensures
        field_violation_from(expected, members, other, i) is None,
    decreases expected, expected.fields.len() - i,
{
    reveal(well_formed);
    reveal(checkable_schema);
    if i < expected.fields.len() {
        let (name, field) = expected.fields[i as int];
        let at = other.push(SegmentView::Field { name });
        lemma_found(actual.fields, name);
        lemma_found(members, name);
        let g = index_of(actual.fields, name) as int;
        let k = index_of(members, name) as int;
        if g < actual.fields.len() {
            lemma_field_holds(actual, members, path, 0, g);
        }
        if k < members.len() {
            let value = members[k].1;
            let from = path.push(SegmentView::Field { name });
            assert(well_formed(value));
            if g < actual.fields.len() {
                assert(lookup(actual.fields, name) == Some(actual.fields[g].1));
                assert(lookup(members, name) == Some(value));
                lemma_fields(field, actual.fields[g].1, value, from, at);
            } else {
                let extra = lemma_extra_type(actual, members, path, k);
                assert(field.value_type.assignable_from(extra));
                assert(field.allowed_values.len() == 0);
                if value is Null {
                    assert(extra.admits_null());
                } else {
                    lemma_types(field.value_type, extra, value, from, at);
                }
            }
            assert(field_violation(field, value, at) is None);
        } else {
            assert(!field.required);
        }
        lemma_listed(expected, actual, members, path, other, i + 1);
    }
}

proof fn lemma_extras(
    expected: SchemaView,
    actual: SchemaView,
    members: Seq<(Seq<char>, ValueView)>,
    path: Seq<SegmentView>,
    other: Seq<SegmentView>,
    i: nat,
)
    requires
        expected.assignable_from(actual),
        checkable_schema(expected, actual),
        well_formed(ValueView::Object(members)),
        field_violation_from(actual, members, path, 0) is None,
        extra_violation_from(actual, members, path, 0) is None,
    ensures
        extra_violation_from(expected, members, other, i) is None,
    decreases expected, members.len() - i,
{
    reveal(well_formed);
    reveal(checkable_schema);
    if i < members.len() {
        let (name, value) = members[i as int];
        if !has_key(expected.fields, name) {
            let from = path.push(SegmentView::Field { name });
            let at = other.push(SegmentView::Field { name });
            lemma_found(actual.fields, name);
            let g = index_of(actual.fields, name) as int;
            if g < actual.fields.len() {
                lemma_member_found(members, i as int);
                lemma_field_holds(actual, members, path, 0, g);
                assert(actual.fields[g].0 == name);
                match expected.additional_fields {
                    AdditionalView::Typed(t) => {
                        assert(t.assignable_from(actual.fields[g].1.value_type));
                        assert(checkable(t, actual.fields[g].1.value_type));
                        if value is Null {
                            assert(t.admits_null());
                        } else {
                            lemma_types(t, actual.fields[g].1.value_type, value, from, at);
                        }
                        assert(type_violation(t, value, at) is None);
                    },
                    AdditionalView::Forbidden => {
                        assert(false);
                    },
                    AdditionalView::Any => {},
                }
            } else {
                let extra = lemma_extra_type(actual, members, path, i as int);
                match expected.additional_fields {
                    AdditionalView::Typed(t) => {
                        lemma_types(t, extra, value, from, at);
                    },
                    _ => {},
                }
            }
        }
        lemma_extras(expected, actual, members, path, other, i + 1);
    }
}

proof fn lemma_objects(
    expected: SchemaView,
    actual: SchemaView,
    value: ValueView,
    path: Seq<SegmentView>,
    other: Seq<SegmentView>,
)
    requires
        expected.assignable_from(actual),
        checkable_schema(expected, actual),
        well_formed(value),
        object_violation(actual, value, path) is None,
    ensures
        object_violation(expected, value, other) is None,
    decreases expected, value->Object_0.len() + expected.fields.len() + 1,
{
    reveal(checkable_schema);
    let members = value->Object_0;
    lemma_listed(expected, actual, members, path, other, 0);
    lemma_extras(expected, actual, members, path, other, 0);
}

// ---------------------------------------------------------------------------
// Laws
// ---------------------------------------------------------------------------
/// Every value of a type is one of each type that it is assignable to. So a
/// binding whose types fit cannot hand its consumer a value of another shape.
pub proof fn law_assignable_values_conform(
    expected: TypeView,
    actual: TypeView,
    value: ValueView,
    path: Seq<SegmentView>,
)
    requires
        expected.assignable_from(actual),
        checkable(expected, actual),
        well_formed(value),
        type_violation(actual, value, path) is None,
    ensures
        type_violation(expected, value, path) is None,
{
    lemma_types(expected, actual, value, path, path);
}

/// Every object of a schema is one of each schema that it is assignable to.
pub proof fn law_assignable_objects_conform(
    expected: SchemaView,
    actual: SchemaView,
    value: ValueView,
)
    requires
        expected.assignable_from(actual),
        checkable_schema(expected, actual),
        well_formed(value),
        object_violation(actual, value, Seq::empty()) is None,
    ensures
        object_violation(expected, value, Seq::empty()) is None,
{
    lemma_objects(expected, actual, value, Seq::empty(), Seq::empty());
}

} // verus!
