//! Which values have which types, and which types can be given for which.
use vstd::prelude::*;

use crate::context::SegmentView;
use crate::json;
use crate::json::{NumberView, ValueView};
use crate::resolve::resolved;
use crate::schema::{
    allowed_accept, common, inferred, inferred_items, AdditionalView, FieldView, SchemaView, Sensitivity, TypeView,
    CONTEXT_SCHEMA_VERSION,
};
use crate::store::walk;
use crate::text_map;
use crate::text_map::lookup;
use crate::validate::{
    extra_violation_from, field_violation, field_violation_from, item_violation_from,
    object_violation, type_violation,
};

verus! {

// ---------------------------------------------------------------------------
// Values
// ---------------------------------------------------------------------------
/// Whether a value has a type.
pub open spec fn has_type(t: TypeView, value: ValueView) -> bool {
    type_violation(t, value, Seq::empty()) is None
}

/// Whether a value can stand in a field.
pub open spec fn stands_in(field: FieldView, value: ValueView) -> bool {
    field_violation(field, value, Seq::empty()) is None
}

/// Whether a value has a type does not depend on where it stands.
pub proof fn law_type_regardless_of_place(
    t: TypeView,
    value: ValueView,
    a: Seq<SegmentView>,
    b: Seq<SegmentView>,
)
    ensures
        type_violation(t, value, a) is None <==> type_violation(t, value, b) is None,
    decreases t, 0int,
{
    match (t, value) {
        (TypeView::Array { items }, ValueView::Array(values)) => {
            lemma_items_regardless(*items, values, a, b, 0);
        },
        (TypeView::Object { schema }, ValueView::Object(members)) => {
            lemma_object_regardless(*schema, value, a, b);
        },
        _ => {},
    }
}

proof fn lemma_items_regardless(
    t: TypeView,
    values: Seq<ValueView>,
    a: Seq<SegmentView>,
    b: Seq<SegmentView>,
    i: nat,
)
    ensures
        item_violation_from(t, values, a, i) is None <==> item_violation_from(t, values, b, i)
            is None,
    decreases t, values.len() - i + 1,
{
    if i < values.len() {
        law_type_regardless_of_place(
            t,
            values[i as int],
            a.push(SegmentView::Index { index: i }),
            b.push(SegmentView::Index { index: i }),
        );
        lemma_items_regardless(t, values, a, b, i + 1);
    }
}

proof fn lemma_object_regardless(
    schema: SchemaView,
    value: ValueView,
    a: Seq<SegmentView>,
    b: Seq<SegmentView>,
)
    ensures
        object_violation(schema, value, a) is None <==> object_violation(schema, value, b) is None,
    decreases schema, schema.fields.len() + 1,
{
    match value {
        ValueView::Object(members) => {
            lemma_fields_regardless(schema, members, a, b, 0);
            lemma_extras_regardless(schema, members, a, b, 0);
        },
        _ => {},
    }
}

proof fn lemma_fields_regardless(
    schema: SchemaView,
    members: Seq<(Seq<char>, ValueView)>,
    a: Seq<SegmentView>,
    b: Seq<SegmentView>,
    i: nat,
)
    ensures
        field_violation_from(schema, members, a, i) is None <==> field_violation_from(
            schema,
            members,
            b,
            i,
        ) is None,
    decreases schema, schema.fields.len() - i,
{
    if i < schema.fields.len() {
        let (name, field) = schema.fields[i as int];
        match lookup(members, name) {
            Some(value) => {
                assert(decreases_to!(schema => schema.fields));
                assert(decreases_to!(schema.fields => schema.fields[i as int]));
                law_field_regardless_of_place(
                    field,
                    value,
                    a.push(SegmentView::Field { name }),
                    b.push(SegmentView::Field { name }),
                );
            },
            None => {},
        }
        lemma_fields_regardless(schema, members, a, b, i + 1);
    }
}

/// Whether a value can stand in a field does not depend on where the field is.
pub proof fn law_field_regardless_of_place(
    field: FieldView,
    value: ValueView,
    a: Seq<SegmentView>,
    b: Seq<SegmentView>,
)
    ensures
        field_violation(field, value, a) is None <==> field_violation(field, value, b) is None,
    decreases field, 0int,
{
    law_type_regardless_of_place(field.value_type, value, a, b);
}

proof fn lemma_extras_regardless(
    schema: SchemaView,
    members: Seq<(Seq<char>, ValueView)>,
    a: Seq<SegmentView>,
    b: Seq<SegmentView>,
    i: nat,
)
    ensures
        extra_violation_from(schema, members, a, i) is None <==> extra_violation_from(
            schema,
            members,
            b,
            i,
        ) is None,
    decreases schema.additional_fields, members.len() - i,
{
    if i < members.len() {
        let (name, value) = members[i as int];
        match schema.additional_fields {
            AdditionalView::Typed(t) => {
                law_type_regardless_of_place(
                    t,
                    value,
                    a.push(SegmentView::Field { name }),
                    b.push(SegmentView::Field { name }),
                );
            },
            _ => {},
        }
        lemma_extras_regardless(schema, members, a, b, i + 1);
    }
}

/// Every value is of any type; null, Booleans, numbers and texts are of their types, and an
/// integer is a number without a fraction.
pub proof fn law_scalars(t: TypeView, value: ValueView)
    ensures
        t is Any ==> has_type(t, value),
        t is Null ==> (has_type(t, value) <==> value is Null),
        t is Boolean ==> (has_type(t, value) <==> value is Bool),
        t is Number ==> (has_type(t, value) <==> value is Number),
        t is String ==> (has_type(t, value) <==> value is String),
        t is Integer ==> (has_type(t, value) ==> value is Number),
        t is Integer && value is Number ==> (has_type(t, value) <==> value->Number_0 is PosInt
            || value->Number_0 is NegInt),
        t is Array ==> (has_type(t, value) ==> value is Array),
        t is Object ==> (has_type(t, value) ==> value is Object),
{
}

/// An array has an array type if and only if each of its items has the type of the items.
pub proof fn law_arrays(items: TypeView, values: Seq<ValueView>)
    ensures
        has_type(TypeView::Array { items: Box::new(items) }, ValueView::Array(values)) <==> forall|
            i: int,
        | 0 <= i < values.len() ==> has_type(items, #[trigger] values[i]),
{
    lemma_items(items, values, Seq::empty(), 0);
}

proof fn lemma_items(t: TypeView, values: Seq<ValueView>, path: Seq<SegmentView>, i: nat)
    ensures
        item_violation_from(t, values, path, i) is None <==> forall|k: int|
            i <= k < values.len() ==> has_type(t, #[trigger] values[k]),
    decreases values.len() - i,
{
    if i < values.len() {
        law_type_regardless_of_place(
            t,
            values[i as int],
            path.push(SegmentView::Index { index: i }),
            Seq::empty(),
        );
        lemma_items(t, values, path, i + 1);
        if has_type(t, values[i as int]) && item_violation_from(t, values, path, i + 1) is None {
            assert forall|k: int| i <= k < values.len() implies has_type(t, #[trigger] values[k]) by {
                if k > i {
                    assert(i + 1 <= k);
                }
            }
        }
    }
}

/// What stands in a listed field of an object, or does not.
pub open spec fn listed_field_holds(
    field: (Seq<char>, FieldView),
    members: Seq<(Seq<char>, ValueView)>,
) -> bool {
    match lookup(members, field.0) {
        Some(value) => stands_in(field.1, value),
        None => !field.1.required,
    }
}

/// What may stand in an object besides the listed fields.
pub open spec fn extra_holds(schema: SchemaView, member: (Seq<char>, ValueView)) -> bool {
    text_map::has_key(schema.fields, member.0) || match schema.additional_fields {
        AdditionalView::Forbidden => false,
        AdditionalView::Any => true,
        AdditionalView::Typed(t) => has_type(t, member.1),
    }
}

/// An object meets a schema of a version that is understood if and only if every listed field
/// holds a value that can stand in it, or is absent and not required, and every other member is
/// one that the schema lets in.
pub proof fn law_objects(schema: SchemaView, members: Seq<(Seq<char>, ValueView)>)
    ensures
        has_type(
            TypeView::Object { schema: Box::new(schema) },
            ValueView::Object(members),
        ) <==> {
            &&& 0 < schema.version <= CONTEXT_SCHEMA_VERSION
            &&& forall|i: int|
                0 <= i < schema.fields.len() ==> listed_field_holds(
                    #[trigger] schema.fields[i],
                    members,
                )
            &&& forall|i: int|
                0 <= i < members.len() ==> extra_holds(schema, #[trigger] members[i])
        },
{
    lemma_fields(schema, members, Seq::empty(), 0);
    lemma_extras(schema, members, Seq::empty(), 0);
}

proof fn lemma_fields(
    schema: SchemaView,
    members: Seq<(Seq<char>, ValueView)>,
    path: Seq<SegmentView>,
    i: nat,
)
    ensures
        field_violation_from(schema, members, path, i) is None <==> forall|k: int|
            i <= k < schema.fields.len() ==> listed_field_holds(
                #[trigger] schema.fields[k],
                members,
            ),
    decreases schema.fields.len() - i,
{
    if i < schema.fields.len() {
        let (name, field) = schema.fields[i as int];
        match lookup(members, name) {
            Some(value) => {
                law_field_regardless_of_place(
                    field,
                    value,
                    path.push(SegmentView::Field { name }),
                    Seq::empty(),
                );
            },
            None => {},
        }
        lemma_fields(schema, members, path, i + 1);
        let here = listed_field_holds(schema.fields[i as int], members);
        if here && field_violation_from(schema, members, path, i + 1) is None {
            assert forall|k: int| i <= k < schema.fields.len() implies listed_field_holds(
                #[trigger] schema.fields[k],
                members,
            ) by {
                if k > i {
                    assert(i + 1 <= k);
                }
            }
        }
    }
}

proof fn lemma_extras(
    schema: SchemaView,
    members: Seq<(Seq<char>, ValueView)>,
    path: Seq<SegmentView>,
    i: nat,
)
    ensures
        extra_violation_from(schema, members, path, i) is None <==> forall|k: int|
            i <= k < members.len() ==> extra_holds(schema, #[trigger] members[k]),
    decreases members.len() - i,
{
    if i < members.len() {
        let (name, value) = members[i as int];
        match schema.additional_fields {
            AdditionalView::Typed(t) => {
                law_type_regardless_of_place(
                    t,
                    value,
                    path.push(SegmentView::Field { name }),
                    Seq::empty(),
                );
            },
            _ => {},
        }
        lemma_extras(schema, members, path, i + 1);
        let here = extra_holds(schema, members[i as int]);
        if here && extra_violation_from(schema, members, path, i + 1) is None {
            assert forall|k: int| i <= k < members.len() implies extra_holds(
                schema,
                #[trigger] members[k],
            ) by {
                if k > i {
                    assert(i + 1 <= k);
                }
            }
        }
    }
}

/// Null stands in a field that is nullable, or whose type has it; any other value if it has the
/// type of the field and is, where the field lists values, equal to one of them.
pub proof fn law_fields(field: FieldView, value: ValueView)
    ensures
        value is Null ==> (stands_in(field, value) <==> field.nullable || field.value_type is Any
            || field.value_type is Null),
        !(value is Null) ==> (stands_in(field, value) <==> has_type(field.value_type, value) && (
        field.allowed_values.len() == 0 || exists|i: int|
            0 <= i < field.allowed_values.len() && (#[trigger] field.allowed_values[i]).equals(
                value,
            ))),
{
}

/// A scalar equals itself and no other: Booleans, texts and integers are equal if they are the
/// same, and nothing equals what is of another kind.
pub proof fn law_json_equality(a: ValueView, b: ValueView)
    ensures
        a is Null && b is Null ==> a.equals(b),
        a is Bool && b is Bool ==> (a.equals(b) <==> a->Bool_0 == b->Bool_0),
        a is String && b is String ==> (a.equals(b) <==> a->String_0 == b->String_0),
        a matches ValueView::Number(x) ==> b matches ValueView::Number(y)
            ==> x matches NumberView::PosInt(m) ==> y matches NumberView::PosInt(n) ==> (a.equals(
            b,
        ) <==> m == n),
        a matches ValueView::Array(x) ==> b matches ValueView::Array(y) ==> (a.equals(b) ==> x.len()
            == y.len()),
        a.equals(b) ==> {
            &&& a is Null <==> b is Null
            &&& a is Bool <==> b is Bool
            &&& a is Number <==> b is Number
            &&& a is String <==> b is String
            &&& a is Array <==> b is Array
            &&& a is Object <==> b is Object
        },
{
}

// ---------------------------------------------------------------------------
// Types
// ---------------------------------------------------------------------------
/// Any type can be given where any is asked for, and a type for itself. An integer can be given
/// for a number and not the other way round; otherwise types of different kinds cannot be given
/// for one another.
pub proof fn law_assignable_kinds(expected: TypeView, actual: TypeView)
    ensures
        expected is Any ==> expected.assignable_from(actual),
        actual is Any && !(expected is Any) ==> !expected.assignable_from(actual),
        expected is Number && actual is Integer ==> expected.assignable_from(actual),
        expected is Integer && actual is Number ==> !expected.assignable_from(actual),
        expected is Null && actual is Null ==> expected.assignable_from(actual),
        expected is Boolean && actual is Boolean ==> expected.assignable_from(actual),
        expected is Integer && actual is Integer ==> expected.assignable_from(actual),
        expected is Number && actual is Number ==> expected.assignable_from(actual),
        expected == (TypeView::String { format: None }) && actual is String
            ==> expected.assignable_from(actual),
        expected is String && actual is String && expected == actual ==> expected.assignable_from(
            actual,
        ),
        expected.assignable_from(actual) && !(expected is Any) ==> {
            &&& actual is Null <==> expected is Null
            &&& actual is Boolean <==> expected is Boolean
            &&& actual is String <==> expected is String
            &&& actual is Array <==> expected is Array
            &&& actual is Object <==> expected is Object
            &&& actual is Integer || actual is Number <==> expected is Integer || expected is Number
        },
{
}

/// A list can be given for another if its items can.
pub proof fn law_assignable_lists(expected: TypeView, actual: TypeView)
    ensures
        (TypeView::Array { items: Box::new(expected) }).assignable_from(
            TypeView::Array { items: Box::new(actual) },
        ) <==> expected.assignable_from(actual),
{
}

/// A type whose schemas name each field once and list only values that equal themselves.
pub open spec fn regular(t: TypeView) -> bool
    decreases t,
{
    match t {
        TypeView::Array { items } => regular(*items),
        TypeView::Object { schema } => regular_schema(*schema),
        _ => true,
    }
}

pub open spec fn regular_schema(schema: SchemaView) -> bool
    decreases schema,
{
    &&& forall|i: int, j: int|
        0 <= i < j < schema.fields.len() ==> (#[trigger] schema.fields[i]).0 != (
        #[trigger] schema.fields[j]).0
    &&& forall|i: int| 0 <= i < schema.fields.len() ==> regular_field(#[trigger] schema.fields[i].1)
    &&& match schema.additional_fields {
        AdditionalView::Typed(t) => regular(t),
        _ => true,
    }
}

pub open spec fn regular_field(field: FieldView) -> bool
    decreases field,
{
    &&& regular(field.value_type)
    &&& forall|i: int|
        0 <= i < field.allowed_values.len() ==> (#[trigger] field.allowed_values[i]).equals(
            field.allowed_values[i],
        )
}

/// A type can be given for itself.
pub proof fn law_assignable_is_reflexive(t: TypeView)
    requires
        regular(t),
    ensures
        t.assignable_from(t),
    decreases t,
{
    match t {
        TypeView::Array { items } => law_assignable_is_reflexive(*items),
        TypeView::Object { schema } => lemma_schema_reflexive(*schema),
        _ => {},
    }
}

proof fn lemma_schema_reflexive(schema: SchemaView)
    requires
        regular_schema(schema),
    ensures
        schema.assignable_from(schema),
    decreases schema,
{
    assert forall|i: int| 0 <= i < schema.fields.len() implies lookup(
        schema.fields,
        (#[trigger] schema.fields[i]).0,
    ) == Some(schema.fields[i].1) && schema.fields[i].1.accepts(schema.fields[i].1) by {
        text_map::lemma_index_of(schema.fields, schema.fields[i].0, i);
        let field = schema.fields[i].1;
        assert(regular_field(field));
        assert(decreases_to!(schema => schema.fields));
        assert(decreases_to!(schema.fields => schema.fields[i]));
        law_assignable_is_reflexive(field.value_type);
        assert(allowed_accept(field.allowed_values, field.allowed_values)) by {
            assert forall|k: int| 0 <= k < field.allowed_values.len() implies json::listed(
                field.allowed_values,
                #[trigger] field.allowed_values[k],
            ) by {
                assert(field.allowed_values[k].equals(field.allowed_values[k]));
            }
        }
    }
    assert forall|i: int| 0 <= i < schema.fields.len() implies text_map::has_key(
        schema.fields,
        (#[trigger] schema.fields[i]).0,
    ) by {
        text_map::lemma_index_of(schema.fields, schema.fields[i].0, i);
    }
    match schema.additional_fields {
        AdditionalView::Typed(t) => {
            assert(decreases_to!(schema => schema.additional_fields));
            law_assignable_is_reflexive(t);
        },
        _ => {},
    }
}

/// A required field is not met by one that may be absent, nor one without null by one that may
/// be null, nor a closed set of values by an open one.
pub proof fn law_field_acceptance(expected: FieldView, actual: FieldView)
    ensures
        expected.accepts(actual) ==> {
            &&& expected.required ==> actual.required
            &&& actual.nullable ==> expected.nullable || expected.value_type is Any
                || expected.value_type is Null
            &&& expected.value_type.assignable_from(actual.value_type)
            &&& expected.allowed_values.len() > 0 ==> actual.allowed_values.len() > 0
        },
        !expected.required && expected.nullable && expected.allowed_values.len() == 0
            && expected.value_type.assignable_from(actual.value_type) ==> expected.accepts(actual),
{
}

// ---------------------------------------------------------------------------
// Places
// ---------------------------------------------------------------------------
proof fn lemma_walk_from(value: ValueView, path: Seq<SegmentView>, i: nat)
    requires
        i <= path.len(),
    ensures
        walk(value, path, i) is Ok <==> walk(value, path.skip(i as int), 0) is Ok,
        walk(value, path, i) matches Ok(found) ==> walk(value, path.skip(i as int), 0) == Ok::<
            ValueView,
            nat,
        >(found),
    decreases path.len() - i,
{
    let rest = path.skip(i as int);
    if i < path.len() {
        assert(rest[0] == path[i as int]);
        let next = match path[i as int] {
            SegmentView::Field { name } => value.member(name),
            SegmentView::Index { index } => value.item(index),
        };
        match next {
            Some(next) => {
                lemma_walk_from(next, path, i + 1);
                lemma_walk_from(next, rest, 1);
                assert(rest.skip(1) =~= path.skip(i as int + 1));
            },
            None => {},
        }
    }
}

/// What stands at a place of a value that has a type has the type which is declared for the
/// place, or is null where that is declared nullable. A place that is declared required, and is
/// not behind what may be null, is there.
pub proof fn law_places_have_their_types(
    t: TypeView,
    allowed: Seq<ValueView>,
    path: Seq<SegmentView>,
    required: bool,
    nullable: bool,
    sensitivity: Sensitivity,
    value: ValueView,
)
    requires
        has_type(t, value) || (value is Null && nullable),
    ensures
        resolved(t, allowed, path, required, nullable, sensitivity) matches Some(r) ==> {
            &&& walk(value, path, 0) matches Ok(found) ==> has_type(r.value_type, found) || (found
                is Null && r.nullable)
            &&& r.required && !r.nullable ==> walk(value, path, 0) is Ok
        },
    decreases path.len(),
{
    if path.len() > 0 {
        let rest = path.skip(1);
        match (path[0], t) {
            (SegmentView::Field { name }, TypeView::Object { schema }) => {
                match value {
                    ValueView::Object(members) => {
                        law_objects(*schema, members);
                        let found = lookup(members, name);
                        text_map::lemma_found(members, name);
                        text_map::lemma_found(schema.fields, name);
                        match lookup(schema.fields, name) {
                            Some(field) => {
                                let i = text_map::index_of(schema.fields, name) as int;
                                assert(listed_field_holds(schema.fields[i], members));
                                match found {
                                    Some(child) => {
                                        law_fields(field, child);
                                        law_scalars(field.value_type, child);
                                        lemma_walk_from(child, path, 1);
                                        law_places_have_their_types(
                                            field.value_type,
                                            field.allowed_values,
                                            rest,
                                            required && field.required,
                                            nullable || field.nullable,
                                            sensitivity.max(field.sensitivity),
                                            child,
                                        );
                                    },
                                    None => {
                                        lemma_required_stays(
                                            field.value_type,
                                            field.allowed_values,
                                            rest,
                                            nullable || field.nullable,
                                            sensitivity.max(field.sensitivity),
                                        );
                                    },
                                }
                            },
                            None => match schema.additional_fields.value_type() {
                                Some(extra) => {
                                    lemma_required_stays(
                                        extra,
                                        Seq::empty(),
                                        rest,
                                        nullable,
                                        sensitivity,
                                    );
                                    match found {
                                        Some(child) => {
                                            let j = text_map::index_of(members, name) as int;
                                            assert(extra_holds(*schema, members[j]));
                                            law_scalars(extra, child);
                                            lemma_walk_from(child, path, 1);
                                            law_places_have_their_types(
                                                extra,
                                                Seq::empty(),
                                                rest,
                                                false,
                                                nullable,
                                                sensitivity,
                                                child,
                                            );
                                        },
                                        None => {},
                                    }
                                },
                                None => {},
                            },
                        }
                    },
                    _ => {
                        law_scalars(t, value);
                        lemma_nullable_stays(t, allowed, path, required, sensitivity);
                    },
                }
            },
            (SegmentView::Index { index }, TypeView::Array { items }) => {
                lemma_required_stays(*items, Seq::empty(), rest, nullable, sensitivity);
                match value {
                    ValueView::Array(values) => {
                        law_arrays(*items, values);
                        if index < values.len() {
                            let child = values[index as int];
                            lemma_walk_from(child, path, 1);
                            law_places_have_their_types(
                                *items,
                                Seq::empty(),
                                rest,
                                false,
                                nullable,
                                sensitivity,
                                child,
                            );
                        }
                    },
                    _ => {
                        law_scalars(t, value);
                    },
                }
            },
            _ => {},
        }
    }
}

/// What is below something that may be absent may be absent.
proof fn lemma_required_stays(
    t: TypeView,
    allowed: Seq<ValueView>,
    path: Seq<SegmentView>,
    nullable: bool,
    sensitivity: Sensitivity,
)
    ensures
        resolved(t, allowed, path, false, nullable, sensitivity) matches Some(r) ==> !r.required,
    decreases path.len(),
{
    if path.len() > 0 {
        let rest = path.skip(1);
        match (path[0], t) {
            (SegmentView::Field { name }, TypeView::Object { schema }) => match lookup(
                schema.fields,
                name,
            ) {
                Some(field) => lemma_required_stays(
                    field.value_type,
                    field.allowed_values,
                    rest,
                    nullable || field.nullable,
                    sensitivity.max(field.sensitivity),
                ),
                None => match schema.additional_fields.value_type() {
                    Some(extra) => lemma_required_stays(
                        extra,
                        Seq::empty(),
                        rest,
                        nullable,
                        sensitivity,
                    ),
                    None => {},
                },
            },
            (SegmentView::Index { .. }, TypeView::Array { items }) => lemma_required_stays(
                *items,
                Seq::empty(),
                rest,
                nullable,
                sensitivity,
            ),
            _ => {},
        }
    }
}

/// What is below something that may be null may be null.
proof fn lemma_nullable_stays(
    t: TypeView,
    allowed: Seq<ValueView>,
    path: Seq<SegmentView>,
    required: bool,
    sensitivity: Sensitivity,
)
    ensures
        resolved(t, allowed, path, required, true, sensitivity) matches Some(r) ==> r.nullable,
    decreases path.len(),
{
    if path.len() > 0 {
        let rest = path.skip(1);
        match (path[0], t) {
            (SegmentView::Field { name }, TypeView::Object { schema }) => match lookup(
                schema.fields,
                name,
            ) {
                Some(field) => lemma_nullable_stays(
                    field.value_type,
                    field.allowed_values,
                    rest,
                    required && field.required,
                    sensitivity.max(field.sensitivity),
                ),
                None => match schema.additional_fields.value_type() {
                    Some(extra) => lemma_nullable_stays(
                        extra,
                        Seq::empty(),
                        rest,
                        false,
                        sensitivity,
                    ),
                    None => {},
                },
            },
            (SegmentView::Index { .. }, TypeView::Array { items }) => lemma_nullable_stays(
                *items,
                Seq::empty(),
                rest,
                false,
                sensitivity,
            ),
            _ => {},
        }
    }
}

/// The declared type of a listed field is that of the field; a field that is not listed has the
/// type of the extra fields, where those are let in, and no type otherwise.
pub proof fn law_declared_fields(schema: SchemaView, name: Seq<char>)
    ensures
        ({
            let found = schema.resolve(seq![SegmentView::Field { name }]);
            match lookup(schema.fields, name) {
                Some(field) => found matches Some(r) && r.value_type == field.value_type
                    && r.required == field.required && r.nullable == field.nullable
                    && r.allowed_values == field.allowed_values && r.sensitivity.rank()
                    >= field.sensitivity.rank(),
                None => match schema.additional_fields {
                    AdditionalView::Forbidden => found is None,
                    AdditionalView::Any => found matches Some(r) && r.value_type is Any
                        && !r.required,
                    AdditionalView::Typed(t) => found matches Some(r) && r.value_type == t
                        && !r.required,
                },
            }
        }),
{
    let path = seq![SegmentView::Field { name }];
    assert(path.skip(1) =~= Seq::<SegmentView>::empty());
    reveal_with_fuel(resolved, 2);
}

// ---------------------------------------------------------------------------
// Types of values
// ---------------------------------------------------------------------------
/// A JSON value whose objects name each member once.
pub open spec fn named_once(value: ValueView) -> bool
    decreases value,
{
    match value {
        ValueView::Array(items) => forall|i: int|
            0 <= i < items.len() ==> named_once(#[trigger] items[i]),
        ValueView::Object(members) => (forall|i: int|
            0 <= i < members.len() ==> named_once((#[trigger] members[i]).1)) && (forall|
            i: int,
            j: int,
        |
            0 <= i < j < members.len() ==> (#[trigger] members[i]).0 != (#[trigger] members[j]).0),
        _ => true,
    }
}

/// A type that lists no allowed values and types no further members.
spec fn unlisted(t: TypeView) -> bool
    decreases t,
{
    match t {
        TypeView::Array { items } => unlisted(*items),
        TypeView::Object { schema } => !(schema.additional_fields is Typed) && forall|i: int|
            0 <= i < schema.fields.len() ==> unlisted((#[trigger] schema.fields[i]).1.value_type)
                && schema.fields[i].1.allowed_values.len() == 0,
        _ => true,
    }
}

proof fn lemma_unlisted_equal(a: TypeView, b: TypeView)
    requires
        unlisted(a),
        unlisted(b),
        a.equals(b),
    ensures
        a == b,
    decreases a,
{
    match (a, b) {
        (TypeView::Array { items: x }, TypeView::Array { items: y }) => {
            lemma_unlisted_equal(*x, *y);
        },
        (TypeView::Object { schema: x }, TypeView::Object { schema: y }) => {
            assert((*x).equals(*y));
            assert(x.additional_fields.equals(y.additional_fields));
            assert forall|i: int| 0 <= i < x.fields.len() implies #[trigger] x.fields[i]
                == y.fields[i] by {
                assert(x.fields[i].1.equals(y.fields[i].1));
                assert(unlisted(y.fields[i].1.value_type));
                assert(decreases_to!(x.fields => x.fields[i]));
                lemma_unlisted_equal(x.fields[i].1.value_type, y.fields[i].1.value_type);
                assert(x.fields[i].1.allowed_values =~= y.fields[i].1.allowed_values);
            }
            assert(x.fields =~= y.fields);
            assert(*x == *y);
        },
        _ => {},
    }
}

proof fn lemma_common(a: TypeView, b: TypeView, value: ValueView)
    requires
        unlisted(a),
        unlisted(b),
    ensures
        unlisted(common(a, b)),
        has_type(a, value) || has_type(b, value) ==> has_type(common(a, b), value),
{
    if a.equals(b) {
        lemma_unlisted_equal(a, b);
    }
}

proof fn lemma_inferred_unlisted(value: ValueView)
    ensures
        unlisted(inferred(value)),
    decreases value, 1int,
{
    match value {
        ValueView::Array(items) => lemma_inferred_items_unlisted(items),
        ValueView::Object(members) => {
            let schema = inferred(value)->schema;
            assert forall|i: int| 0 <= i < schema.fields.len() implies unlisted(
                (#[trigger] schema.fields[i]).1.value_type,
            ) && schema.fields[i].1.allowed_values.len() == 0 by {
                assert(decreases_to!(members => members[i]));
                lemma_inferred_unlisted(members[i].1);
            }
        },
        _ => {},
    }
}

proof fn lemma_inferred_items_unlisted(items: Seq<ValueView>)
    ensures
        unlisted(inferred_items(items)),
    decreases items, 0int,
{
    if items.len() == 1 {
        assert(decreases_to!(items => items[0]));
        lemma_inferred_unlisted(items[0]);
    } else if items.len() > 1 {
        assert(decreases_to!(items => items[items.len() - 1]));
        assert(decreases_to!(items => items.drop_last()));
        lemma_inferred_items_unlisted(items.drop_last());
        lemma_inferred_unlisted(items.last());
        lemma_common(inferred_items(items.drop_last()), inferred(items.last()), ValueView::Null);
    }
}

proof fn lemma_items_have_the_common_type(items: Seq<ValueView>, k: int)
    requires
        0 <= k < items.len(),
        has_type(inferred(items[k]), items[k]),
    ensures
        has_type(inferred_items(items), items[k]),
    decreases items.len(),
{
    if items.len() > 1 {
        let init = items.drop_last();
        lemma_inferred_items_unlisted(init);
        lemma_inferred_unlisted(items.last());
        if k < init.len() {
            assert(init[k] == items[k]);
            lemma_items_have_the_common_type(init, k);
        }
        lemma_common(inferred_items(init), inferred(items.last()), items[k]);
    }
}

/// A value has the type that is inferred from it.
pub proof fn law_inferred_type(value: ValueView)
    requires
        named_once(value),
    ensures
        has_type(inferred(value), value),
    decreases value,
{
    match value {
        ValueView::Array(items) => {
            assert forall|k: int| 0 <= k < items.len() implies has_type(
                inferred_items(items),
                #[trigger] items[k],
            ) by {
                assert(decreases_to!(items => items[k]));
                law_inferred_type(items[k]);
                lemma_items_have_the_common_type(items, k);
            }
            law_arrays(inferred_items(items), items);
        },
        ValueView::Object(members) => {
            let schema = *inferred(value)->schema;
            assert forall|i: int| 0 <= i < schema.fields.len() implies listed_field_holds(
                #[trigger] schema.fields[i],
                members,
            ) by {
                assert(decreases_to!(members => members[i]));
                law_inferred_type(members[i].1);
                text_map::lemma_index_of(members, members[i].0, i);
            }
            assert forall|i: int| 0 <= i < members.len() implies extra_holds(
                schema,
                #[trigger] members[i],
            ) by {
                assert(schema.fields[i].0 == members[i].0);
                assert forall|j: int| 0 <= j < i implies (#[trigger] schema.fields[j]).0
                    != members[i].0 by {
                    assert(schema.fields[j].0 == members[j].0);
                }
                text_map::lemma_index_of(schema.fields, members[i].0, i);
            }
            law_objects(schema, members);
        },
        _ => {},
    }
}

/// The type that is inferred says what a value is: whole numbers are integers and others
/// numbers, the items of an array have the type of the items that is inferred of them all, and
/// an object has just the members that it has.
pub proof fn law_inferred_kind(value: ValueView)
    ensures
        value is Null <==> inferred(value) is Null,
        value is Bool <==> inferred(value) is Boolean,
        value is String <==> inferred(value) is String,
        value is Array <==> inferred(value) is Array,
        value is Object <==> inferred(value) is Object,
        value is Number <==> inferred(value) is Integer || inferred(value) is Number,
        value is Number ==> (inferred(value) is Number <==> value->Number_0 is Float),
        value matches ValueView::Object(members) ==> (inferred(value)->schema.fields.len()
            == members.len() && inferred(value)->schema.additional_fields is Forbidden),
        value matches ValueView::Array(items) ==> (items.len() == 1 ==> *inferred(value)->items
            == inferred(items[0])),
{
    match value {
        ValueView::Array(items) => {
            assert(items.len() == 1 ==> inferred_items(items) == inferred(items[0]));
        },
        _ => {},
    }
}

} // verus!
