//! How values and types are shown in messages.
use vstd::prelude::*;

use crate::json::{member_views, value_views, Number, Value, ValueView};
use crate::schema::{
    optional_text, AdditionalProperties, AdditionalView, ContextType, FieldSchema, FieldView,
    ObjectSchema, SchemaView, SemanticFormat, Sensitivity, TypeView,
};
use crate::text;
use crate::text::{debug_text, joined, owned, quoted, text_views};
use crate::text_map::TextMap;

verus! {

pub open spec fn bool_text(b: bool) -> Seq<char> {
    if b {
        "true"@
    } else {
        "false"@
    }
}

pub fn show_bool(b: bool) -> (res: String)
    ensures
        res@ == bool_text(b),
{
    if b {
        owned("true")
    } else {
        owned("false")
    }
}

pub open spec fn optional_debug(s: Option<Seq<char>>) -> Seq<char> {
    match s {
        Some(s) => "Some("@ + debug_text(s) + ")"@,
        None => "None"@,
    }
}

fn show_optional(s: &Option<String>) -> (res: String)
    ensures
        res@ == optional_debug(optional_text(*s)),
{
    match s {
        Some(s) => {
            let mut out = joined("Some(", &quoted(s));
            out.append(")");
            out
        },
        None => owned("None"),
    }
}

/// Texts in quotes, separated by commas.
pub open spec fn texts_debug(texts: Seq<Seq<char>>) -> Seq<char>
    decreases texts.len(),
{
    if texts.len() == 0 {
        Seq::empty()
    } else if texts.len() == 1 {
        debug_text(texts[0])
    } else {
        texts_debug(texts.drop_last()) + ", "@ + debug_text(texts.last())
    }
}

/// A list of texts, in brackets.
pub fn show_texts(texts: &Vec<String>) -> (res: String)
    ensures
        res@ == "["@ + texts_debug(text_views(texts@)) + "]"@,
{
    let mut list = String::new();
    let mut i: usize = 0;
    while i < texts.len()
        invariant
            i <= texts@.len(),
            list@ == texts_debug(text_views(texts@).take(i as int)),
        decreases texts@.len() - i,
    {
        let ghost views = text_views(texts@);
        proof {
            assert(views.take(i + 1).drop_last() =~= views.take(i as int));
            assert(views.take(i + 1).last() == texts@[i as int]@);
        }
        if i > 0 {
            list.append(", ");
            list.append(&quoted(&texts[i]));
        } else {
            list.append(&quoted(&texts[i]));
            assert(list@ =~= debug_text(texts@[i as int]@));
        }
        i = i + 1;
    }
    assert(text_views(texts@).take(i as int) =~= text_views(texts@));
    let mut out = joined("[", &list);
    out.append("]");
    out
}

impl ValueView {
    pub open spec fn debug(self) -> Seq<char>
        decreases self, 1nat,
    {
        match self {
            ValueView::Null => "Null"@,
            ValueView::Bool(b) => "Bool("@ + bool_text(b) + ")"@,
            ValueView::Number(n) => "Number("@ + n.text() + ")"@,
            ValueView::String(s) => "String("@ + debug_text(s) + ")"@,
            ValueView::Array(items) => "Array ["@ + items_debug(items) + "]"@,
            ValueView::Object(members) => "Object {"@ + members_debug(members) + "}"@,
        }
    }
}

pub open spec fn items_debug(items: Seq<ValueView>) -> Seq<char>
    decreases items, 0nat,
{
    if items.len() == 0 {
        Seq::empty()
    } else if items.len() == 1 {
        items[0].debug()
    } else {
        items_debug(items.drop_last()) + ", "@ + items.last().debug()
    }
}

pub open spec fn members_debug(members: Seq<(Seq<char>, ValueView)>) -> Seq<char>
    decreases members, 0nat,
{
    if members.len() == 0 {
        Seq::empty()
    } else if members.len() == 1 {
        debug_text(members[0].0) + ": "@ + members[0].1.debug()
    } else {
        members_debug(members.drop_last()) + ", "@ + debug_text(members.last().0) + ": "@
            + members.last().1.debug()
    }
}

fn show_value(value: &Value) -> (res: String)
    ensures
        res@ == value@.debug(),
    decreases value, 1nat,
{
    match value {
        Value::Null => owned("Null"),
        Value::Bool(b) => {
            let mut out = joined("Bool(", &show_bool(*b));
            out.append(")");
            out
        },
        Value::Number(n) => {
            let mut out = joined("Number(", &n.to_text());
            out.append(")");
            out
        },
        Value::String(s) => {
            let mut out = joined("String(", &quoted(s));
            out.append(")");
            out
        },
        Value::Array(items) => {
            let list = show_items(items);
            let mut out = joined("Array [", &list);
            out.append("]");
            out
        },
        Value::Object(map) => {
            let list = show_members(map);
            let mut out = joined("Object {", &list);
            out.append("}");
            out
        },
    }
}

fn show_items(items: &Vec<Value>) -> (res: String)
    ensures
        res@ == items_debug(value_views(items@)),
    decreases items, 0nat,
{
    let mut out = String::new();
    let mut i: usize = 0;
    while i < items.len()
        invariant
            i <= items@.len(),
            out@ == items_debug(value_views(items@).take(i as int)),
        decreases items@.len() - i,
    {
        let ghost views = value_views(items@);
        proof {
            assert(decreases_to!(items@ => items@[i as int]));
            assert(views.take(i + 1).drop_last() =~= views.take(i as int));
            assert(views.take(i + 1).last() == items@[i as int]@);
        }
        let item = show_value(&items[i]);
        if i > 0 {
            out.append(", ");
            out.append(&item);
        } else {
            out.append(&item);
            assert(out@ =~= item@);
        }
        i = i + 1;
    }
    assert(value_views(items@).take(i as int) =~= value_views(items@));
    out
}

fn show_members(map: &TextMap<Value>) -> (res: String)
    ensures
        res@ == members_debug(member_views(map.entries@)),
    decreases map, 0nat,
{
    let mut out = String::new();
    let mut i: usize = 0;
    while i < map.entries.len()
        invariant
            i <= map.entries@.len(),
            out@ == members_debug(member_views(map.entries@).take(i as int)),
        decreases map.entries@.len() - i,
    {
        let ghost views = member_views(map.entries@);
        proof {
            assert(decreases_to!(map.entries@ => map.entries@[i as int].1));
            assert(views.take(i + 1).drop_last() =~= views.take(i as int));
            assert(views.take(i + 1).last() == views[i as int]);
        }
        let name = quoted(&map.entries[i].0);
        let item = show_value(&map.entries[i].1);
        if i > 0 {
            out.append(", ");
        }
        let ghost start = out@;
        out.append(&name);
        out.append(": ");
        out.append(&item);
        proof {
            if i == 0 {
                assert(start + name@ =~= name@);
            }
        }
        i = i + 1;
    }
    assert(member_views(map.entries@).take(i as int) =~= member_views(map.entries@));
    out
}

impl Sensitivity {
    pub open spec fn text(self) -> Seq<char> {
        match self {
            Sensitivity::Public => "Public"@,
            Sensitivity::Internal => "Internal"@,
            Sensitivity::Confidential => "Confidential"@,
            Sensitivity::Secret => "Secret"@,
        }
    }

    pub fn to_text(self) -> (res: String)
        ensures
            res@ == self.text(),
    {
        match self {
            Sensitivity::Public => owned("Public"),
            Sensitivity::Internal => owned("Internal"),
            Sensitivity::Confidential => owned("Confidential"),
            Sensitivity::Secret => owned("Secret"),
        }
    }
}

pub open spec fn format_debug(format: Option<SemanticFormat>) -> Seq<char> {
    match format {
        Some(format) => "Some("@ + format.text() + ")"@,
        None => "None"@,
    }
}

impl TypeView {
    pub open spec fn debug(self) -> Seq<char>
        decreases self, 1nat,
    {
        match self {
            TypeView::Any => "Any"@,
            TypeView::Null => "Null"@,
            TypeView::Boolean => "Boolean"@,
            TypeView::Integer => "Integer"@,
            TypeView::Number => "Number"@,
            TypeView::String { format } => "String { format: "@ + format_debug(format) + " }"@,
            TypeView::Array { items } => "Array { items: "@ + items.debug() + " }"@,
            TypeView::Object { schema } => "Object { schema: "@ + schema.debug() + " }"@,
        }
    }
}

impl AdditionalView {
    pub open spec fn debug(self) -> Seq<char>
        decreases self, 1nat,
    {
        match self {
            AdditionalView::Forbidden => "Forbidden"@,
            AdditionalView::Any => "Any"@,
            AdditionalView::Typed(t) => "Typed("@ + t.debug() + ")"@,
        }
    }
}

impl FieldView {
    pub open spec fn debug(self) -> Seq<char>
        decreases self, 1nat,
    {
        "FieldSchema { value_type: "@ + self.value_type.debug() + ", required: "@ + bool_text(
            self.required,
        ) + ", nullable: "@ + bool_text(self.nullable) + ", description: "@ + optional_debug(
            self.description,
        ) + ", sensitivity: "@ + self.sensitivity.text() + ", allowed_values: ["@ + items_debug(
            self.allowed_values,
        ) + "] }"@
    }
}

impl SchemaView {
    pub open spec fn debug(self) -> Seq<char>
        decreases self, 1nat,
    {
        "ObjectSchema { version: "@ + text::decimal(self.version as nat) + ", id: "@
            + optional_debug(self.id) + ", fields: {"@ + fields_debug(self.fields)
            + "}, additional_fields: "@ + self.additional_fields.debug() + " }"@
    }
}

pub open spec fn fields_debug(fields: Seq<(Seq<char>, FieldView)>) -> Seq<char>
    decreases fields, 0nat,
{
    if fields.len() == 0 {
        Seq::empty()
    } else if fields.len() == 1 {
        debug_text(fields[0].0) + ": "@ + fields[0].1.debug()
    } else {
        fields_debug(fields.drop_last()) + ", "@ + debug_text(fields.last().0) + ": "@
            + fields.last().1.debug()
    }
}

/// The type as it is shown in messages.
pub fn show_type(t: &ContextType) -> (res: String)
    ensures
        res@ == t@.debug(),
    decreases t, 1nat,
{
    match t {
        ContextType::Any => owned("Any"),
        ContextType::Null => owned("Null"),
        ContextType::Boolean => owned("Boolean"),
        ContextType::Integer => owned("Integer"),
        ContextType::Number => owned("Number"),
        ContextType::String { format } => {
            let shown = match format {
                Some(format) => {
                    let mut some = joined("Some(", &format.to_text());
                    some.append(")");
                    some
                },
                None => owned("None"),
            };
            let mut out = joined("String { format: ", &shown);
            out.append(" }");
            out
        },
        ContextType::Array { items } => {
            let mut out = joined("Array { items: ", &show_type(items));
            out.append(" }");
            out
        },
        ContextType::Object { schema } => {
            let mut out = joined("Object { schema: ", &show_schema(schema));
            out.append(" }");
            out
        },
    }
}

fn show_additional(additional: &AdditionalProperties) -> (res: String)
    ensures
        res@ == additional@.debug(),
    decreases additional, 1nat,
{
    match additional {
        AdditionalProperties::Forbidden => owned("Forbidden"),
        AdditionalProperties::Any => owned("Any"),
        AdditionalProperties::Typed(t) => {
            let mut out = joined("Typed(", &show_type(t));
            out.append(")");
            out
        },
    }
}

fn show_field(field: &FieldSchema) -> (res: String)
    ensures
        res@ == field@.debug(),
    decreases field, 1nat,
{
    let mut out = joined("FieldSchema { value_type: ", &show_type(&field.value_type));
    out.append(", required: ");
    out.append(&show_bool(field.required));
    out.append(", nullable: ");
    out.append(&show_bool(field.nullable));
    out.append(", description: ");
    out.append(&show_optional(&field.description));
    out.append(", sensitivity: ");
    out.append(&field.sensitivity.to_text());
    out.append(", allowed_values: [");
    out.append(&show_items(&field.allowed_values));
    out.append("] }");
    out
}

fn show_schema(schema: &ObjectSchema) -> (res: String)
    ensures
        res@ == schema@.debug(),
    decreases schema, 1nat,
{
    let mut list = String::new();
    let mut i: usize = 0;
    while i < schema.fields.entries.len()
        invariant
            i <= schema.fields.entries@.len(),
            list@ == fields_debug(schema@.fields.take(i as int)),
        decreases schema.fields.entries@.len() - i,
    {
        let ghost views = schema@.fields;
        proof {
            assert(decreases_to!(*schema => schema.fields));
            assert(decreases_to!(schema.fields.entries@ => schema.fields.entries@[i as int].1));
            assert(views.take(i + 1).drop_last() =~= views.take(i as int));
            assert(views.take(i + 1).last() == views[i as int]);
        }
        let name = quoted(&schema.fields.entries[i].0);
        let item = show_field(&schema.fields.entries[i].1);
        if i > 0 {
            list.append(", ");
        }
        let ghost start = list@;
        list.append(&name);
        list.append(": ");
        list.append(&item);
        proof {
            if i == 0 {
                assert(start + name@ =~= name@);
            }
        }
        i = i + 1;
    }
    assert(schema@.fields.take(i as int) =~= schema@.fields);
    let mut out = joined("ObjectSchema { version: ", &text::decimal_text(schema.version as u64));
    out.append(", id: ");
    out.append(&show_optional(&schema.id));
    out.append(", fields: {");
    out.append(&list);
    out.append("}, additional_fields: ");
    out.append(&show_additional(&schema.additional_fields));
    out.append(" }");
    out
}

} // verus!
