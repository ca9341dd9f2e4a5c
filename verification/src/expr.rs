//! Expressions, their values and their types.
use vstd::prelude::*;

use crate::context::{FieldRef, FieldRefView};
use crate::store::ref_views;
use crate::text;
use crate::text::{owned, same_text, text_views};
use crate::text_map;
use crate::text_map::TextMap;

verus! {

/// Expression tree used by both value expressions and Boolean rules. A rule is
/// an expression whose checked root type is Boolean.
#[derive(Debug, PartialEq)]
pub enum ExpressionV1 {
    Literal { value: ExpressionValue },
    Ref { reference: ReferenceV1 },
    All { expressions: Vec<ExpressionV1> },
    Any { expressions: Vec<ExpressionV1> },
    Not { expression: Box<ExpressionV1> },
    Exists { reference: ReferenceV1 },
    IsNull { expression: Box<ExpressionV1> },
    IsEmpty { expression: Box<ExpressionV1> },
    Compare { operator: ComparisonOperator, left: Box<ExpressionV1>, right: Box<ExpressionV1> },
    Contains { value: Box<ExpressionV1>, needle: Box<ExpressionV1> },
    StartsWith { value: Box<ExpressionV1>, prefix: Box<ExpressionV1> },
    EndsWith { value: Box<ExpressionV1>, suffix: Box<ExpressionV1> },
    Matches { value: Box<ExpressionV1>, pattern: String },
    In { needle: Box<ExpressionV1>, collection: Box<ExpressionV1> },
    Quantifier {
        quantifier: CollectionQuantifier,
        collection: Box<ExpressionV1>,
        binding: String,
        predicate: Box<ExpressionV1>,
    },
}

/// A Boolean rule is a value expression whose checked root type is Boolean.
pub type RuleExprV1 = ExpressionV1;

/// An expression for a value of any type.
pub type ValueExprV1 = ExpressionV1;

#[derive(Debug, PartialEq, Eq)]
pub enum ReferenceV1 {
    Context { field: FieldRef },
    Local { binding: String, path: Vec<String> },
}

#[derive(Debug, Clone, Copy, PartialEq, Eq, Structural)]
pub enum ComparisonOperator {
    Equal,
    NotEqual,
    LessThan,
    LessThanOrEqual,
    GreaterThan,
    GreaterThanOrEqual,
}

#[derive(Debug, Clone, Copy, PartialEq, Eq, Structural)]
pub enum CollectionQuantifier {
    Any,
    All,
    NoneOf,
}

/// Runtime and literal values. Numeric variants are distinct: expressions
/// never coerce strings, nor mix signed, unsigned and floating-point values
/// implicitly. A floating-point value is held by its IEEE 754 bits.
#[derive(Debug, PartialEq)]
pub enum ExpressionValue {
    Null,
    Bool(bool),
    Int(i64),
    UInt(u64),
    Float(u64),
    String(String),
    List(Vec<ExpressionValue>),
    Object(TextMap<ExpressionValue>),
}

/// Static type used by the expression checker. `optional` describes field
/// presence; `nullable` describes an explicitly present null. They are separate
/// so that a missing value can never be mistaken for `null`.
#[derive(Debug, PartialEq)]
pub struct ExpressionType {
    pub kind: ExpressionTypeKind,
    pub optional: bool,
    pub nullable: bool,
}

#[derive(Debug, PartialEq)]
pub enum ExpressionTypeKind {
    Never,
    Any,
    Null,
    Bool,
    Integer,
    Number,
    String,
    List(Box<ExpressionType>),
    Object(TextMap<ExpressionType>),
}

// ---------------------------------------------------------------------------
// Views
// ---------------------------------------------------------------------------
pub enum ExprValueView {
    Null,
    Bool(bool),
    Int(i64),
    UInt(u64),
    Float(u64),
    String(Seq<char>),
    List(Seq<ExprValueView>),
    Object(Seq<(Seq<char>, ExprValueView)>),
}

pub enum ReferenceView {
    Context { field: FieldRefView },
    Local { binding: Seq<char>, path: Seq<Seq<char>> },
}

pub enum ExprView {
    Literal { value: ExprValueView },
    Ref { reference: ReferenceView },
    All { expressions: Seq<ExprView> },
    Any { expressions: Seq<ExprView> },
    Not { expression: Box<ExprView> },
    Exists { reference: ReferenceView },
    IsNull { expression: Box<ExprView> },
    IsEmpty { expression: Box<ExprView> },
    Compare { operator: ComparisonOperator, left: Box<ExprView>, right: Box<ExprView> },
    Contains { value: Box<ExprView>, needle: Box<ExprView> },
    StartsWith { value: Box<ExprView>, prefix: Box<ExprView> },
    EndsWith { value: Box<ExprView>, suffix: Box<ExprView> },
    Matches { value: Box<ExprView>, pattern: Seq<char> },
    In { needle: Box<ExprView>, collection: Box<ExprView> },
    Quantifier {
        quantifier: CollectionQuantifier,
        collection: Box<ExprView>,
        binding: Seq<char>,
        predicate: Box<ExprView>,
    },
}

pub struct ExprTypeView {
    pub kind: KindView,
    pub optional: bool,
    pub nullable: bool,
}

pub enum KindView {
    Never,
    Any,
    Null,
    Bool,
    Integer,
    Number,
    String,
    List(Box<ExprTypeView>),
    Object(Seq<(Seq<char>, ExprTypeView)>),
}

impl ExpressionValue {
    pub open spec fn view(&self) -> ExprValueView
        decreases self,
    {
        match self {
            ExpressionValue::Null => ExprValueView::Null,
            ExpressionValue::Bool(b) => ExprValueView::Bool(*b),
            ExpressionValue::Int(n) => ExprValueView::Int(*n),
            ExpressionValue::UInt(n) => ExprValueView::UInt(*n),
            ExpressionValue::Float(bits) => ExprValueView::Float(*bits),
            ExpressionValue::String(s) => ExprValueView::String(s@),
            ExpressionValue::List(items) => ExprValueView::List(list_views(items@)),
            ExpressionValue::Object(map) => ExprValueView::Object(entry_views(map.entries@)),
        }
    }
}

pub open spec fn list_views(items: Seq<ExpressionValue>) -> Seq<ExprValueView>
    decreases items,
{
    Seq::new(
        items.len(),
        |i: int|
            if 0 <= i < items.len() {
                items[i].view()
            } else {
                ExprValueView::Null
            },
    )
}

pub open spec fn entry_views(entries: Seq<(String, ExpressionValue)>) -> Seq<
    (Seq<char>, ExprValueView),
>
    decreases entries,
{
    Seq::new(
        entries.len(),
        |i: int|
            if 0 <= i < entries.len() {
                (entries[i].0@, entries[i].1.view())
            } else {
                arbitrary()
            },
    )
}

impl ReferenceV1 {
    pub open spec fn view(&self) -> ReferenceView {
        match self {
            ReferenceV1::Context { field } => ReferenceView::Context { field: field@ },
            ReferenceV1::Local { binding, path } => ReferenceView::Local {
                binding: binding@,
                path: text_views(path@),
            },
        }
    }
}

impl ExpressionV1 {
    pub open spec fn view(&self) -> ExprView
        decreases self,
    {
        match self {
            ExpressionV1::Literal { value } => ExprView::Literal { value: value@ },
            ExpressionV1::Ref { reference } => ExprView::Ref { reference: reference@ },
            ExpressionV1::All { expressions } => ExprView::All {
                expressions: expr_views(expressions@),
            },
            ExpressionV1::Any { expressions } => ExprView::Any {
                expressions: expr_views(expressions@),
            },
            ExpressionV1::Not { expression } => ExprView::Not {
                expression: Box::new(expression.view()),
            },
            ExpressionV1::Exists { reference } => ExprView::Exists { reference: reference@ },
            ExpressionV1::IsNull { expression } => ExprView::IsNull {
                expression: Box::new(expression.view()),
            },
            ExpressionV1::IsEmpty { expression } => ExprView::IsEmpty {
                expression: Box::new(expression.view()),
            },
            ExpressionV1::Compare { operator, left, right } => ExprView::Compare {
                operator: *operator,
                left: Box::new(left.view()),
                right: Box::new(right.view()),
            },
            ExpressionV1::Contains { value, needle } => ExprView::Contains {
                value: Box::new(value.view()),
                needle: Box::new(needle.view()),
            },
            ExpressionV1::StartsWith { value, prefix } => ExprView::StartsWith {
                value: Box::new(value.view()),
                prefix: Box::new(prefix.view()),
            },
            ExpressionV1::EndsWith { value, suffix } => ExprView::EndsWith {
                value: Box::new(value.view()),
                suffix: Box::new(suffix.view()),
            },
            ExpressionV1::Matches { value, pattern } => ExprView::Matches {
                value: Box::new(value.view()),
                pattern: pattern@,
            },
            ExpressionV1::In { needle, collection } => ExprView::In {
                needle: Box::new(needle.view()),
                collection: Box::new(collection.view()),
            },
            ExpressionV1::Quantifier { quantifier, collection, binding, predicate } =>
                ExprView::Quantifier {
                quantifier: *quantifier,
                collection: Box::new(collection.view()),
                binding: binding@,
                predicate: Box::new(predicate.view()),
            },
        }
    }
}

pub open spec fn expr_views(items: Seq<ExpressionV1>) -> Seq<ExprView>
    decreases items,
{
    Seq::new(
        items.len(),
        |i: int|
            if 0 <= i < items.len() {
                items[i].view()
            } else {
                arbitrary()
            },
    )
}

impl ExpressionType {
    pub open spec fn view(&self) -> ExprTypeView
        decreases self,
    {
        ExprTypeView { kind: self.kind.view(), optional: self.optional, nullable: self.nullable }
    }
}

impl ExpressionTypeKind {
    pub open spec fn view(&self) -> KindView
        decreases self,
    {
        match self {
            ExpressionTypeKind::Never => KindView::Never,
            ExpressionTypeKind::Any => KindView::Any,
            ExpressionTypeKind::Null => KindView::Null,
            ExpressionTypeKind::Bool => KindView::Bool,
            ExpressionTypeKind::Integer => KindView::Integer,
            ExpressionTypeKind::Number => KindView::Number,
            ExpressionTypeKind::String => KindView::String,
            ExpressionTypeKind::List(item) => KindView::List(Box::new(item.view())),
            ExpressionTypeKind::Object(map) => KindView::Object(type_views(map.entries@)),
        }
    }
}

pub open spec fn type_views(entries: Seq<(String, ExpressionType)>) -> Seq<
    (Seq<char>, ExprTypeView),
>
    decreases entries,
{
    Seq::new(
        entries.len(),
        |i: int|
            if 0 <= i < entries.len() {
                (entries[i].0@, entries[i].1.view())
            } else {
                arbitrary()
            },
    )
}

// ---------------------------------------------------------------------------
// Copies
// ---------------------------------------------------------------------------
impl Clone for ExpressionValue {
    fn clone(&self) -> (res: Self)
        ensures
            res@ == self@,
        decreases self,
    {
        match self {
            ExpressionValue::Null => ExpressionValue::Null,
            ExpressionValue::Bool(b) => ExpressionValue::Bool(*b),
            ExpressionValue::Int(n) => ExpressionValue::Int(*n),
            ExpressionValue::UInt(n) => ExpressionValue::UInt(*n),
            ExpressionValue::Float(bits) => ExpressionValue::Float(*bits),
            ExpressionValue::String(s) => ExpressionValue::String(s.clone()),
            ExpressionValue::List(items) => ExpressionValue::List(clone_list(items)),
            ExpressionValue::Object(map) => ExpressionValue::Object(clone_entries(map)),
        }
    }
}

fn clone_list(items: &Vec<ExpressionValue>) -> (res: Vec<ExpressionValue>)
    ensures
        list_views(res@) == list_views(items@),
    decreases items,
{
    let mut out: Vec<ExpressionValue> = Vec::new();
    let mut i: usize = 0;
    while i < items.len()
        invariant
            i <= items@.len(),
            out@.len() == i,
            forall|j: int| 0 <= j < i ==> out@[j]@ == items@[j]@,
        decreases items@.len() - i,
    {
        out.push(items[i].clone());
        i = i + 1;
    }
    assert(list_views(out@) =~= list_views(items@));
    out
}

fn clone_entries(map: &TextMap<ExpressionValue>) -> (res: TextMap<ExpressionValue>)
    ensures
        entry_views(res.entries@) == entry_views(map.entries@),
    decreases map,
{
    let mut out: Vec<(String, ExpressionValue)> = Vec::new();
    let mut i: usize = 0;
    while i < map.entries.len()
        invariant
            i <= map.entries@.len(),
            out@.len() == i,
            forall|j: int|
                0 <= j < i ==> out@[j].0@ == map.entries@[j].0@ && out@[j].1@
                    == map.entries@[j].1@,
        decreases map.entries@.len() - i,
    {
        out.push((map.entries[i].0.clone(), map.entries[i].1.clone()));
        i = i + 1;
    }
    assert(entry_views(out@) =~= entry_views(map.entries@));
    TextMap { entries: out }
}

/// A copy of several texts.
pub fn clone_texts(texts: &Vec<String>) -> (res: Vec<String>)
    ensures
        text_views(res@) == text_views(texts@),
{
    let mut out: Vec<String> = Vec::new();
    let mut i: usize = 0;
    while i < texts.len()
        invariant
            i <= texts@.len(),
            out@.len() == i,
            forall|j: int| 0 <= j < i ==> out@[j]@ == texts@[j]@,
        decreases texts@.len() - i,
    {
        out.push(texts[i].clone());
        i = i + 1;
    }
    assert(text_views(out@) =~= text_views(texts@));
    out
}

impl Clone for ReferenceV1 {
    fn clone(&self) -> (res: Self)
        ensures
            res@ == self@,
    {
        match self {
            ReferenceV1::Context { field } => ReferenceV1::Context { field: field.clone() },
            ReferenceV1::Local { binding, path } => ReferenceV1::Local {
                binding: binding.clone(),
                path: clone_texts(path),
            },
        }
    }
}

impl Clone for ExpressionV1 {
    fn clone(&self) -> (res: Self)
        ensures
            res@ == self@,
        decreases self,
    {
        match self {
            ExpressionV1::Literal { value } => ExpressionV1::Literal { value: value.clone() },
            ExpressionV1::Ref { reference } => ExpressionV1::Ref { reference: reference.clone() },
            ExpressionV1::All { expressions } => ExpressionV1::All {
                expressions: clone_exprs(expressions),
            },
            ExpressionV1::Any { expressions } => ExpressionV1::Any {
                expressions: clone_exprs(expressions),
            },
            ExpressionV1::Not { expression } => ExpressionV1::Not {
                expression: Box::new((&**expression).clone()),
            },
            ExpressionV1::Exists { reference } => ExpressionV1::Exists {
                reference: reference.clone(),
            },
            ExpressionV1::IsNull { expression } => ExpressionV1::IsNull {
                expression: Box::new((&**expression).clone()),
            },
            ExpressionV1::IsEmpty { expression } => ExpressionV1::IsEmpty {
                expression: Box::new((&**expression).clone()),
            },
            ExpressionV1::Compare { operator, left, right } => ExpressionV1::Compare {
                operator: *operator,
                left: Box::new((&**left).clone()),
                right: Box::new((&**right).clone()),
            },
            ExpressionV1::Contains { value, needle } => ExpressionV1::Contains {
                value: Box::new((&**value).clone()),
                needle: Box::new((&**needle).clone()),
            },
            ExpressionV1::StartsWith { value, prefix } => ExpressionV1::StartsWith {
                value: Box::new((&**value).clone()),
                prefix: Box::new((&**prefix).clone()),
            },
            ExpressionV1::EndsWith { value, suffix } => ExpressionV1::EndsWith {
                value: Box::new((&**value).clone()),
                suffix: Box::new((&**suffix).clone()),
            },
            ExpressionV1::Matches { value, pattern } => ExpressionV1::Matches {
                value: Box::new((&**value).clone()),
                pattern: pattern.clone(),
            },
            ExpressionV1::In { needle, collection } => ExpressionV1::In {
                needle: Box::new((&**needle).clone()),
                collection: Box::new((&**collection).clone()),
            },
            ExpressionV1::Quantifier { quantifier, collection, binding, predicate } =>
                ExpressionV1::Quantifier {
                quantifier: *quantifier,
                collection: Box::new((&**collection).clone()),
                binding: binding.clone(),
                predicate: Box::new((&**predicate).clone()),
            },
        }
    }
}

fn clone_exprs(items: &Vec<ExpressionV1>) -> (res: Vec<ExpressionV1>)
    ensures
        expr_views(res@) == expr_views(items@),
    decreases items,
{
    let mut out: Vec<ExpressionV1> = Vec::new();
    let mut i: usize = 0;
    while i < items.len()
        invariant
            i <= items@.len(),
            out@.len() == i,
            forall|j: int| 0 <= j < i ==> out@[j]@ == items@[j]@,
        decreases items@.len() - i,
    {
        out.push(items[i].clone());
        i = i + 1;
    }
    assert(expr_views(out@) =~= expr_views(items@));
    out
}

impl Clone for ExpressionType {
    fn clone(&self) -> (res: Self)
        ensures
            res@ == self@,
        decreases self,
    {
        ExpressionType {
            kind: self.kind.clone(),
            optional: self.optional,
            nullable: self.nullable,
        }
    }
}

impl Clone for ExpressionTypeKind {
    fn clone(&self) -> (res: Self)
        ensures
            res@ == self@,
        decreases self,
    {
        match self {
            ExpressionTypeKind::Never => ExpressionTypeKind::Never,
            ExpressionTypeKind::Any => ExpressionTypeKind::Any,
            ExpressionTypeKind::Null => ExpressionTypeKind::Null,
            ExpressionTypeKind::Bool => ExpressionTypeKind::Bool,
            ExpressionTypeKind::Integer => ExpressionTypeKind::Integer,
            ExpressionTypeKind::Number => ExpressionTypeKind::Number,
            ExpressionTypeKind::String => ExpressionTypeKind::String,
            ExpressionTypeKind::List(item) => ExpressionTypeKind::List(
                Box::new((&**item).clone()),
            ),
            ExpressionTypeKind::Object(map) => ExpressionTypeKind::Object(clone_types(map)),
        }
    }
}

fn clone_types(map: &TextMap<ExpressionType>) -> (res: TextMap<ExpressionType>)
    ensures
        type_views(res.entries@) == type_views(map.entries@),
    decreases map,
{
    let mut out: Vec<(String, ExpressionType)> = Vec::new();
    let mut i: usize = 0;
    while i < map.entries.len()
        invariant
            i <= map.entries@.len(),
            out@.len() == i,
            forall|j: int|
                0 <= j < i ==> out@[j].0@ == map.entries@[j].0@ && out@[j].1@
                    == map.entries@[j].1@,
        decreases map.entries@.len() - i,
    {
        out.push((map.entries[i].0.clone(), map.entries[i].1.clone()));
        i = i + 1;
    }
    assert(type_views(out@) =~= type_views(map.entries@));
    TextMap { entries: out }
}

// ---------------------------------------------------------------------------
// Types
// ---------------------------------------------------------------------------
impl ExprTypeView {
    pub open spec fn required(kind: KindView) -> ExprTypeView {
        ExprTypeView { kind, optional: false, nullable: false }
    }

    /// The type as it is described in messages.
    pub open spec fn describe(self) -> Seq<char>
        decreases self,
    {
        let base = self.kind.describe();
        match (self.optional, self.nullable) {
            (false, false) => base,
            (true, false) => "optional "@ + base,
            (false, true) => "nullable "@ + base,
            (true, true) => "optional nullable "@ + base,
        }
    }
}

impl KindView {
    pub open spec fn describe(self) -> Seq<char>
        decreases self,
    {
        match self {
            KindView::Never => "never"@,
            KindView::Any => "any"@,
            KindView::Null => "null"@,
            KindView::Bool => "bool"@,
            KindView::Integer => "integer"@,
            KindView::Number => "number"@,
            KindView::String => "string"@,
            KindView::List(item) => "list<"@ + item.describe() + ">"@,
            KindView::Object(_) => "object"@,
        }
    }
}

impl ExpressionType {
    pub fn required(kind: ExpressionTypeKind) -> (res: Self)
        ensures
            res@ == (ExprTypeView { kind: kind@, optional: false, nullable: false }),
    {
        ExpressionType { kind, optional: false, nullable: false }
    }

    pub fn optional(kind: ExpressionTypeKind) -> (res: Self)
        ensures
            res@ == (ExprTypeView { kind: kind@, optional: true, nullable: false }),
    {
        ExpressionType { kind, optional: true, nullable: false }
    }

    pub fn nullable(kind: ExpressionTypeKind) -> (res: Self)
        ensures
            res@ == (ExprTypeView { kind: kind@, optional: false, nullable: true }),
    {
        ExpressionType { kind, optional: false, nullable: true }
    }

    pub fn optional_nullable(kind: ExpressionTypeKind) -> (res: Self)
        ensures
            res@ == (ExprTypeView { kind: kind@, optional: true, nullable: true }),
    {
        ExpressionType { kind, optional: true, nullable: true }
    }

    pub fn bool() -> (res: Self)
        ensures
            res@ == ExprTypeView::required(KindView::Bool),
    {
        ExpressionType::required(ExpressionTypeKind::Bool)
    }

    pub fn null() -> (res: Self)
        ensures
            res@ == ExprTypeView::required(KindView::Null),
    {
        ExpressionType::required(ExpressionTypeKind::Null)
    }

    pub fn list(item: ExpressionType) -> (res: Self)
        ensures
            res@ == ExprTypeView::required(KindView::List(Box::new(item@))),
    {
        ExpressionType::required(ExpressionTypeKind::List(Box::new(item)))
    }

    pub fn object(fields: TextMap<ExpressionType>) -> (res: Self)
        ensures
            res@ == ExprTypeView::required(KindView::Object(type_views(fields.entries@))),
    {
        ExpressionType::required(ExpressionTypeKind::Object(fields))
    }

    /// The type as it is described in messages.
    pub fn describe(&self) -> (res: String)
        ensures
            res@ == self@.describe(),
        decreases self,
    {
        let base = self.kind.describe();
        match (self.optional, self.nullable) {
            (false, false) => base,
            (true, false) => text::joined("optional ", &base),
            (false, true) => text::joined("nullable ", &base),
            (true, true) => text::joined("optional nullable ", &base),
        }
    }
}

impl ExpressionTypeKind {
    pub fn describe(&self) -> (res: String)
        ensures
            res@ == self@.describe(),
        decreases self,
    {
        match self {
            ExpressionTypeKind::Never => owned("never"),
            ExpressionTypeKind::Any => owned("any"),
            ExpressionTypeKind::Null => owned("null"),
            ExpressionTypeKind::Bool => owned("bool"),
            ExpressionTypeKind::Integer => owned("integer"),
            ExpressionTypeKind::Number => owned("number"),
            ExpressionTypeKind::String => owned("string"),
            ExpressionTypeKind::List(item) => {
                let mut out = text::joined("list<", &item.describe());
                out.append(">");
                out
            },
            ExpressionTypeKind::Object(_) => owned("object"),
        }
    }

    /// The type of a member of an object type.
    pub fn member(&self, name: &str) -> (found: Option<&ExpressionType>)
        ensures
            match found {
                Some(t) => self@ is Object && text_map::lookup(self@->Object_0, name@) == Some(t@),
                None => self@ is Object ==> text_map::lookup(self@->Object_0, name@) is None,
            },
            found matches Some(t) ==> decreases_to!(*self => *t),
    {
        match self {
            ExpressionTypeKind::Object(map) => {
                let at: usize = map.position(name);
                proof {
                    text_map::lemma_index_of(type_views(map.entries@), name@, at as int);
                }
                if at < map.entries.len() {
                    let t = &map.entries[at].1;
                    proof {
                        assert(decreases_to!(map.entries@ => map.entries@[at as int].1));
                        assert(decreases_to!(*self => self->Object_0));
                    }
                    Some(t)
                } else {
                    None
                }
            },
            _ => None,
        }
    }
}

/// Whether a flag need not be written down.
pub fn is_false(value: &bool) -> (res: bool)
    ensures
        res == !*value,
{
    !*value
}

/// Whether two types are the same.
pub fn same_expression_type(a: &ExpressionType, b: &ExpressionType) -> (same: bool)
    ensures
        same == (a@ == b@),
    decreases a,
{
    a.optional == b.optional && a.nullable == b.nullable && same_kind(&a.kind, &b.kind)
}

pub fn same_kind(a: &ExpressionTypeKind, b: &ExpressionTypeKind) -> (same: bool)
    ensures
        same == (a@ == b@),
    decreases a,
{
    match (a, b) {
        (ExpressionTypeKind::Never, ExpressionTypeKind::Never) => true,
        (ExpressionTypeKind::Any, ExpressionTypeKind::Any) => true,
        (ExpressionTypeKind::Null, ExpressionTypeKind::Null) => true,
        (ExpressionTypeKind::Bool, ExpressionTypeKind::Bool) => true,
        (ExpressionTypeKind::Integer, ExpressionTypeKind::Integer) => true,
        (ExpressionTypeKind::Number, ExpressionTypeKind::Number) => true,
        (ExpressionTypeKind::String, ExpressionTypeKind::String) => true,
        (ExpressionTypeKind::List(x), ExpressionTypeKind::List(y)) => same_expression_type(x, y),
        (ExpressionTypeKind::Object(x), ExpressionTypeKind::Object(y)) => {
            if x.entries.len() != y.entries.len() {
                assert(type_views(x.entries@).len() != type_views(y.entries@).len());
                return false;
            }
            let mut i: usize = 0;
            while i < x.entries.len()
                invariant
                    i <= x.entries@.len(),
                    x.entries@.len() == y.entries@.len(),
                    *a == ExpressionTypeKind::Object(*x),
                    a@ == KindView::Object(type_views(x.entries@)),
                    b@ == KindView::Object(type_views(y.entries@)),
                    forall|j: int|
                        0 <= j < i ==> (#[trigger] type_views(x.entries@)[j]) == type_views(
                            y.entries@,
                        )[j],
                decreases x.entries@.len() - i,
            {
                proof {
                    assert(decreases_to!(*a => a->Object_0));
                    assert(decreases_to!(x.entries@ => x.entries@[i as int].1));
                }
                if !same_text(&x.entries[i].0, &y.entries[i].0) || !same_expression_type(
                    &x.entries[i].1,
                    &y.entries[i].1,
                ) {
                    assert(type_views(x.entries@)[i as int] != type_views(y.entries@)[i as int]);
                    return false;
                }
                i = i + 1;
            }
            assert(type_views(x.entries@) =~= type_views(y.entries@));
            true
        },
        _ => false,
    }
}

impl KindView {
    pub open spec fn is_any(self) -> bool {
        self is Any
    }
}

/// The type that covers both of two types, if there is one.
pub open spec fn common_type(left: ExprTypeView, right: ExprTypeView) -> Option<ExprTypeView> {
    if left.kind is Never {
        Some(right)
    } else if right.kind is Never {
        Some(left)
    } else if left.kind is Null {
        Some(ExprTypeView { nullable: true, ..right })
    } else if right.kind is Null {
        Some(ExprTypeView { nullable: true, ..left })
    } else {
        let both = |kind: KindView|
            Some(
                ExprTypeView {
                    kind,
                    optional: left.optional || right.optional,
                    nullable: left.nullable || right.nullable,
                },
            );
        if left.kind is Any || right.kind is Any {
            both(KindView::Any)
        } else if (left.kind is Integer && right.kind is Number) || (left.kind is Number
            && right.kind is Integer) {
            both(KindView::Number)
        } else if left.kind == right.kind {
            both(left.kind)
        } else {
            None
        }
    }
}

pub fn common_expression_type(left: &ExpressionType, right: &ExpressionType) -> (res: Option<
    ExpressionType,
>)
    ensures
        match res {
            Some(t) => common_type(left@, right@) == Some(t@),
            None => common_type(left@, right@) is None,
        },
{
    match &left.kind {
        ExpressionTypeKind::Never => {
            return Some(right.clone());
        },
        _ => {},
    }
    match &right.kind {
        ExpressionTypeKind::Never => {
            return Some(left.clone());
        },
        _ => {},
    }
    match &left.kind {
        ExpressionTypeKind::Null => {
            let mut common = right.clone();
            common.nullable = true;
            return Some(common);
        },
        _ => {},
    }
    match &right.kind {
        ExpressionTypeKind::Null => {
            let mut common = left.clone();
            common.nullable = true;
            return Some(common);
        },
        _ => {},
    }
    let kind = match (&left.kind, &right.kind) {
        (ExpressionTypeKind::Any, _) => ExpressionTypeKind::Any,
        (_, ExpressionTypeKind::Any) => ExpressionTypeKind::Any,
        (ExpressionTypeKind::Integer, ExpressionTypeKind::Number) => ExpressionTypeKind::Number,
        (ExpressionTypeKind::Number, ExpressionTypeKind::Integer) => ExpressionTypeKind::Number,
        _ => {
            if same_kind(&left.kind, &right.kind) {
                left.kind.clone()
            } else {
                return None;
            }
        },
    };
    Some(
        ExpressionType {
            kind,
            optional: left.optional || right.optional,
            nullable: left.nullable || right.nullable,
        },
    )
}

/// Whether values of two types can be tested for equality.
pub open spec fn equality_compatible(left: ExprTypeView, right: ExprTypeView) -> bool {
    if left.kind is Any || left.kind is Never || right.kind is Any || right.kind is Never {
        true
    } else if left.kind is Null {
        right.kind is Null || right.nullable
    } else if right.kind is Null {
        left.nullable
    } else {
        common_type(left, right) is Some
    }
}

pub fn equality_types_compatible(left: &ExpressionType, right: &ExpressionType) -> (res: bool)
    ensures
        res == equality_compatible(left@, right@),
{
    match (&left.kind, &right.kind) {
        (ExpressionTypeKind::Any, _) => true,
        (ExpressionTypeKind::Never, _) => true,
        (_, ExpressionTypeKind::Any) => true,
        (_, ExpressionTypeKind::Never) => true,
        (ExpressionTypeKind::Null, ExpressionTypeKind::Null) => true,
        (ExpressionTypeKind::Null, _) => right.nullable,
        (_, ExpressionTypeKind::Null) => left.nullable,
        _ => common_expression_type(left, right).is_some(),
    }
}

/// Whether values of two types can be ordered.
pub open spec fn ordering_compatible(left: ExprTypeView, right: ExprTypeView) -> bool {
    left.kind is Any || right.kind is Any || ((left.kind is Integer || left.kind is Number) && (
    right.kind is Integer || right.kind is Number)) || (left.kind is String && right.kind is String)
}

pub fn ordering_types_compatible(left: &ExpressionType, right: &ExpressionType) -> (res: bool)
    ensures
        res == ordering_compatible(left@, right@),
{
    match (&left.kind, &right.kind) {
        (ExpressionTypeKind::Any, _) => true,
        (_, ExpressionTypeKind::Any) => true,
        (ExpressionTypeKind::Integer, ExpressionTypeKind::Integer) => true,
        (ExpressionTypeKind::Integer, ExpressionTypeKind::Number) => true,
        (ExpressionTypeKind::Number, ExpressionTypeKind::Integer) => true,
        (ExpressionTypeKind::Number, ExpressionTypeKind::Number) => true,
        (ExpressionTypeKind::String, ExpressionTypeKind::String) => true,
        _ => false,
    }
}

/// Equality and ordering compatibility do not depend on the order of the
/// operands.
pub proof fn law_compatibility_is_symmetric(left: ExprTypeView, right: ExprTypeView)
    ensures
        equality_compatible(left, right) == equality_compatible(right, left),
        ordering_compatible(left, right) == ordering_compatible(right, left),
        (common_type(left, right) is Some) == (common_type(right, left) is Some),
{
}

// ---------------------------------------------------------------------------
// References
// ---------------------------------------------------------------------------
impl ReferenceView {
    /// The context reference, if it is one.
    pub open spec fn context(self) -> Seq<FieldRefView> {
        match self {
            ReferenceView::Context { field } => seq![field],
            ReferenceView::Local { .. } => Seq::empty(),
        }
    }
}

impl ExprView {
    /// The context references of an expression, in order. Local references are
    /// scoped names, not stable references, and are left out.
    pub open spec fn references(self) -> Seq<FieldRefView>
        decreases self, 1nat,
    {
        match self {
            ExprView::Literal { .. } => Seq::empty(),
            ExprView::Ref { reference } => reference.context(),
            ExprView::Exists { reference } => reference.context(),
            ExprView::All { expressions } => references_of(expressions),
            ExprView::Any { expressions } => references_of(expressions),
            ExprView::Not { expression } => expression.references(),
            ExprView::IsNull { expression } => expression.references(),
            ExprView::IsEmpty { expression } => expression.references(),
            ExprView::Compare { left, right, .. } => left.references() + right.references(),
            ExprView::Contains { value, needle } => value.references() + needle.references(),
            ExprView::StartsWith { value, prefix } => value.references() + prefix.references(),
            ExprView::EndsWith { value, suffix } => value.references() + suffix.references(),
            ExprView::Matches { value, .. } => value.references(),
            ExprView::In { needle, collection } => needle.references() + collection.references(),
            ExprView::Quantifier { collection, predicate, .. } => collection.references()
                + predicate.references(),
        }
    }
}

pub open spec fn references_of(items: Seq<ExprView>) -> Seq<FieldRefView>
    decreases items, 0nat,
{
    if items.len() == 0 {
        Seq::empty()
    } else {
        references_of(items.drop_last()) + items.last().references()
    }
}

fn append_refs(list: &mut Vec<FieldRef>, more: Vec<FieldRef>)
    ensures
        ref_views(final(list)@) == ref_views(old(list)@) + ref_views(more@),
{
    let mut more = more;
    let ghost a = list@;
    let ghost b = more@;
    list.append(&mut more);
    assert(ref_views(list@) =~= ref_views(a) + ref_views(b));
}

impl ReferenceV1 {
    pub fn visit_context_reference(&self) -> (res: Vec<FieldRef>)
        ensures
            ref_views(res@) == self@.context(),
    {
        let mut out: Vec<FieldRef> = Vec::new();
        match self {
            ReferenceV1::Context { field } => {
                out.push(field.clone());
            },
            ReferenceV1::Local { .. } => {},
        }
        assert(ref_views(out@) =~= self@.context());
        out
    }
}

impl ExpressionV1 {
    /// Every context reference contained in this expression, in order.
    pub fn visit_context_references(&self) -> (res: Vec<FieldRef>)
        ensures
            ref_views(res@) == self@.references(),
        decreases self, 1nat,
    {
        match self {
            ExpressionV1::Literal { .. } => {
                let out: Vec<FieldRef> = Vec::new();
                assert(ref_views(out@) =~= Seq::empty());
                out
            },
            ExpressionV1::Ref { reference } => reference.visit_context_reference(),
            ExpressionV1::Exists { reference } => reference.visit_context_reference(),
            ExpressionV1::All { expressions } => visit_all(expressions),
            ExpressionV1::Any { expressions } => visit_all(expressions),
            ExpressionV1::Not { expression } => expression.visit_context_references(),
            ExpressionV1::IsNull { expression } => expression.visit_context_references(),
            ExpressionV1::IsEmpty { expression } => expression.visit_context_references(),
            ExpressionV1::Compare { left, right, .. } => {
                let mut out = left.visit_context_references();
                append_refs(&mut out, right.visit_context_references());
                out
            },
            ExpressionV1::Contains { value, needle } => {
                let mut out = value.visit_context_references();
                append_refs(&mut out, needle.visit_context_references());
                out
            },
            ExpressionV1::StartsWith { value, prefix } => {
                let mut out = value.visit_context_references();
                append_refs(&mut out, prefix.visit_context_references());
                out
            },
            ExpressionV1::EndsWith { value, suffix } => {
                let mut out = value.visit_context_references();
                append_refs(&mut out, suffix.visit_context_references());
                out
            },
            ExpressionV1::Matches { value, .. } => value.visit_context_references(),
            ExpressionV1::In { needle, collection } => {
                let mut out = needle.visit_context_references();
                append_refs(&mut out, collection.visit_context_references());
                out
            },
            ExpressionV1::Quantifier { collection, predicate, .. } => {
                let mut out = collection.visit_context_references();
                append_refs(&mut out, predicate.visit_context_references());
                out
            },
        }
    }
}

fn visit_all(items: &Vec<ExpressionV1>) -> (res: Vec<FieldRef>)
    ensures
        ref_views(res@) == references_of(expr_views(items@)),
    decreases items, 0nat,
{
    let mut out: Vec<FieldRef> = Vec::new();
    let mut i: usize = 0;
    assert(ref_views(out@) =~= references_of(expr_views(items@).take(0)));
    while i < items.len()
        invariant
            i <= items@.len(),
            ref_views(out@) == references_of(expr_views(items@).take(i as int)),
        decreases items@.len() - i,
    {
        let ghost views = expr_views(items@);
        proof {
            assert(decreases_to!(items@ => items@[i as int]));
            assert(views.take(i + 1).drop_last() =~= views.take(i as int));
            assert(views.take(i + 1).last() == items@[i as int]@);
        }
        append_refs(&mut out, items[i].visit_context_references());
        i = i + 1;
    }
    assert(expr_views(items@).take(i as int) =~= expr_views(items@));
    out
}

// ---------------------------------------------------------------------------
// Limits
// ---------------------------------------------------------------------------
#[derive(Debug, Clone, Copy, PartialEq, Eq, Structural)]
pub struct ExpressionLimits {
    pub max_depth: usize,
    pub max_nodes: usize,
    pub max_operations: usize,
    pub max_collection_visits: usize,
    pub max_string_bytes: usize,
    pub max_regex_pattern_bytes: usize,
    pub max_regex_input_bytes: usize,
    pub max_regex_compiled_bytes: usize,
    pub max_quantifier_depth: usize,
}

pub open spec fn default_limits() -> ExpressionLimits {
    ExpressionLimits {
        max_depth: 32,
        max_nodes: 256,
        max_operations: 4096,
        max_collection_visits: 10000,
        max_string_bytes: 65536,
        max_regex_pattern_bytes: 4096,
        max_regex_input_bytes: 65536,
        max_regex_compiled_bytes: 1048576,
        max_quantifier_depth: 4,
    }
}

impl Default for ExpressionLimits {
    fn default() -> (res: Self)
        ensures
            res == default_limits(),
    {
        ExpressionLimits {
            max_depth: 32,
            max_nodes: 256,
            max_operations: 4096,
            max_collection_visits: 10000,
            max_string_bytes: 65536,
            max_regex_pattern_bytes: 4096,
            max_regex_input_bytes: 65536,
            max_regex_compiled_bytes: 1048576,
            max_quantifier_depth: 4,
        }
    }
}

/// A count that stays at the largest machine number once it gets there.
pub open spec fn saturated(n: nat) -> nat {
    if n > usize::MAX {
        usize::MAX as nat
    } else {
        n
    }
}

} // verus!
