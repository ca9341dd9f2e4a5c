//! Structural types of context values: which type fits where, what a path
//! resolves to, how sensitive it is, and whether a JSON value conforms.
use vstd::prelude::*;

use crate::json;
use crate::json::{clone_values, is_listed, same_value, value_views, Value, ValueView};
use crate::text;
use crate::text::same_text;
use crate::text_map;
use crate::text_map::TextMap;

verus! {

/// Current version of context schemas and stored context values.
pub const CONTEXT_SCHEMA_VERSION: u32 = 1;

/// The version a schema has where none is written down.
pub fn context_schema_version() -> (version: u32)
    ensures
        version == CONTEXT_SCHEMA_VERSION,
{
    CONTEXT_SCHEMA_VERSION
}

/// A semantic refinement for a scalar context value.
///
/// Formats do not change the JSON representation. They let an editor offer
/// compatible bindings (for example, a Git URL for a repository input) while
/// the runtime value stays a normal string.
#[derive(Debug, Clone, Copy, PartialEq, Eq, PartialOrd, Ord, Structural)]
pub enum SemanticFormat {
    Path,
    FilePath,
    DirectoryPath,
    Url,
    GitUrl,
    SecretRef,
    Sha256,
    DateTime,
    Duration,
    Email,
    Hostname,
    IpAddress,
    Uuid,
    GitRef,
    RepositoryName,
    Identifier,
    PackageName,
    OpaqueId,
}

/// Structural type information shared by the runner, the expression checker
/// and the context picker.
#[derive(Debug, PartialEq)]
pub enum ContextType {
    Any,
    Null,
    Boolean,
    Integer,
    Number,
    String { format: Option<SemanticFormat> },
    Array { items: Box<ContextType> },
    Object { schema: Box<ObjectSchema> },
}

#[derive(Debug, Clone, Copy, Default, PartialEq, Eq, PartialOrd, Ord, Structural)]
pub enum Sensitivity {
    #[default]
    Public,
    Internal,
    Confidential,
    Secret,
}

/// Schema for one named object field.
#[derive(Debug, PartialEq)]
pub struct FieldSchema {
    pub value_type: ContextType,
    pub required: bool,
    pub nullable: bool,
    pub description: Option<String>,
    pub sensitivity: Sensitivity,
    /// Closed set of literal values accepted by this field. An empty set
    /// means that every value of the type is allowed.
    pub allowed_values: Vec<Value>,
}

/// Contract for object keys not listed in [`ObjectSchema::fields`].
#[derive(Debug, PartialEq)]
pub enum AdditionalProperties {
    Forbidden,
    Any,
    Typed(ContextType),
}

/// Versioned structural schema for an object-shaped context value.
#[derive(Debug, PartialEq)]
pub struct ObjectSchema {
    pub version: u32,
    pub id: Option<String>,
    pub fields: TextMap<FieldSchema>,
    pub additional_fields: AdditionalProperties,
}

pub enum TypeView {
    Any,
    Null,
    Boolean,
    Integer,
    Number,
    String { format: Option<SemanticFormat> },
    Array { items: Box<TypeView> },
    Object { schema: Box<SchemaView> },
}

pub struct FieldView {
    pub value_type: TypeView,
    pub required: bool,
    pub nullable: bool,
    pub description: Option<Seq<char>>,
    pub sensitivity: Sensitivity,
    pub allowed_values: Seq<ValueView>,
}

pub enum AdditionalView {
    Forbidden,
    Any,
    Typed(TypeView),
}

pub struct SchemaView {
    pub version: u32,
    pub id: Option<Seq<char>>,
    pub fields: Seq<(Seq<char>, FieldView)>,
    pub additional_fields: AdditionalView,
}

pub open spec fn optional_text(s: Option<String>) -> Option<Seq<char>> {
    match s {
        Some(s) => Some(s@),
        None => None,
    }
}

pub fn clone_optional(s: &Option<String>) -> (res: Option<String>)
    ensures
        res == *s,
{
    match s {
        Some(s) => Some(s.clone()),
        None => None,
    }
}

pub fn same_optional(a: &Option<String>, b: &Option<String>) -> (same: bool)
    ensures
        same == (optional_text(*a) == optional_text(*b)),
{
    match (a, b) {
        (Some(a), Some(b)) => same_text(a, b),
        (None, None) => true,
        _ => false,
    }
}

impl ContextType {
    pub open spec fn view(&self) -> TypeView
        decreases self,
    {
        match self {
            ContextType::Any => TypeView::Any,
            ContextType::Null => TypeView::Null,
            ContextType::Boolean => TypeView::Boolean,
            ContextType::Integer => TypeView::Integer,
            ContextType::Number => TypeView::Number,
            ContextType::String { format } => TypeView::String { format: *format },
            ContextType::Array { items } => TypeView::Array { items: Box::new(items.view()) },
            ContextType::Object { schema } => TypeView::Object { schema: Box::new(schema.view()) },
        }
    }
}

impl FieldSchema {
    pub open spec fn view(&self) -> FieldView
        decreases self,
    {
        FieldView {
            value_type: self.value_type.view(),
            required: self.required,
            nullable: self.nullable,
            description: optional_text(self.description),
            sensitivity: self.sensitivity,
            allowed_values: value_views(self.allowed_values@),
        }
    }
}

impl AdditionalProperties {
    pub open spec fn view(&self) -> AdditionalView
        decreases self,
    {
        match self {
            AdditionalProperties::Forbidden => AdditionalView::Forbidden,
            AdditionalProperties::Any => AdditionalView::Any,
            AdditionalProperties::Typed(t) => AdditionalView::Typed(t.view()),
        }
    }
}

impl ObjectSchema {
    pub open spec fn view(&self) -> SchemaView
        decreases self,
    {
        SchemaView {
            version: self.version,
            id: optional_text(self.id),
            fields: field_views(self.fields.entries@),
            additional_fields: self.additional_fields.view(),
        }
    }
}

pub open spec fn field_views(entries: Seq<(String, FieldSchema)>) -> Seq<(Seq<char>, FieldView)>
    decreases entries,
{
    Seq::new(
        entries.len(),
        |i: int|
            if 0 <= i < entries.len() {
                (entries[i].0@, entries[i].1.view())
            } else {
                arbitrary()
            },
    )
}

impl Clone for ContextType {
    fn clone(&self) -> (res: Self)
        ensures
            res@ == self@,
        decreases self,
    {
        match self {
            ContextType::Any => ContextType::Any,
            ContextType::Null => ContextType::Null,
            ContextType::Boolean => ContextType::Boolean,
            ContextType::Integer => ContextType::Integer,
            ContextType::Number => ContextType::Number,
            ContextType::String { format } => ContextType::String { format: *format },
            ContextType::Array { items } => ContextType::Array {
                items: Box::new((&**items).clone()),
            },
            ContextType::Object { schema } => ContextType::Object {
                schema: Box::new((&**schema).clone()),
            },
        }
    }
}

impl Clone for FieldSchema {
    fn clone(&self) -> (res: Self)
        ensures
            res@ == self@,
        decreases self,
    {
        FieldSchema {
            value_type: self.value_type.clone(),
            required: self.required,
            nullable: self.nullable,
            description: clone_optional(&self.description),
            sensitivity: self.sensitivity,
            allowed_values: clone_values(&self.allowed_values),
        }
    }
}

impl Clone for AdditionalProperties {
    fn clone(&self) -> (res: Self)
        ensures
            res@ == self@,
        decreases self,
    {
        match self {
            AdditionalProperties::Forbidden => AdditionalProperties::Forbidden,
            AdditionalProperties::Any => AdditionalProperties::Any,
            AdditionalProperties::Typed(t) => AdditionalProperties::Typed(t.clone()),
        }
    }
}

impl Clone for ObjectSchema {
    fn clone(&self) -> (res: Self)
        ensures
            res@ == self@,
        decreases self,
    {
        ObjectSchema {
            version: self.version,
            id: clone_optional(&self.id),
            fields: clone_fields(&self.fields),
            additional_fields: self.additional_fields.clone(),
        }
    }
}

fn clone_fields(map: &TextMap<FieldSchema>) -> (res: TextMap<FieldSchema>)
    ensures
        field_views(res.entries@) == field_views(map.entries@),
    decreases map,
{
    let mut out: Vec<(String, FieldSchema)> = Vec::new();
    let mut i: usize = 0;
    while i < map.entries.len()
        invariant
            i <= map.entries@.len(),
            out@.len() == i,
            forall|j: int|
                0 <= j < i ==> out@[j].0@ == map.entries@[j].0@ && out@[j].1@
                    == map.entries@[j].1@,
        decreases map.entries@.len() - i,
    {
        out.push((map.entries[i].0.clone(), map.entries[i].1.clone()));
        i = i + 1;
    }
    assert(field_views(out@) =~= field_views(map.entries@));
    TextMap { entries: out }
}

// ---------------------------------------------------------------------------
// Sensitivity
// ---------------------------------------------------------------------------
impl Sensitivity {
    pub open spec fn rank(self) -> nat {
        match self {
            Sensitivity::Public => 0,
            Sensitivity::Internal => 1,
            Sensitivity::Confidential => 2,
            Sensitivity::Secret => 3,
        }
    }

    /// The higher of two sensitivities.
    pub open spec fn max(self, other: Sensitivity) -> Sensitivity {
        if self.rank() >= other.rank() {
            self
        } else {
            other
        }
    }

    fn level(self) -> (n: u8)
        ensures
            n == self.rank(),
    {
        match self {
            Sensitivity::Public => 0,
            Sensitivity::Internal => 1,
            Sensitivity::Confidential => 2,
            Sensitivity::Secret => 3,
        }
    }

    pub fn combine(self, other: Self) -> (res: Self)
        ensures
            res == Sensitivity::max(self, other),
    {
        if self.level() >= other.level() {
            self
        } else {
            other
        }
    }

    pub fn is_secret(self) -> (secret: bool)
        ensures
            secret == (self == Sensitivity::Secret),
    {
        match self {
            Sensitivity::Secret => true,
            _ => false,
        }
    }

    /// Whether this sensitivity is at or above another.
    pub fn at_least(self, minimum: Sensitivity) -> (res: bool)
        ensures
            res == (self.rank() >= minimum.rank()),
    {
        self.level() >= minimum.level()
    }
}

/// Whether a sensitivity need not be written down.
pub fn is_public(value: &Sensitivity) -> (public: bool)
    ensures
        public == (*value == Sensitivity::Public),
{
    match value {
        Sensitivity::Public => true,
        _ => false,
    }
}

/// Combining sensitivities is taking a least upper bound: the order and the
/// grouping of the parts do not matter, repeating one changes nothing, public
/// parts add nothing and a secret part makes the whole secret.
pub proof fn law_combine_is_join(a: Sensitivity, b: Sensitivity, c: Sensitivity)
    ensures
        a.max(b) == b.max(a),
        a.max(b).max(c) == a.max(b.max(c)),
        a.max(a) == a,
        Sensitivity::Public.max(a) == a,
        Sensitivity::Secret.max(a) == Sensitivity::Secret,
        a.max(b).rank() >= a.rank(),
        c.rank() >= a.rank() && c.rank() >= b.rank() ==> c.rank() >= a.max(b).rank(),
{
}

// ---------------------------------------------------------------------------
// Equality of types
// ---------------------------------------------------------------------------
impl TypeView {
    /// Equality of declared types; allowed values compare as JSON values do.
    pub open spec fn equals(self, other: TypeView) -> bool
        decreases self,
    {
        match (self, other) {
            (TypeView::Any, TypeView::Any) => true,
            (TypeView::Null, TypeView::Null) => true,
            (TypeView::Boolean, TypeView::Boolean) => true,
            (TypeView::Integer, TypeView::Integer) => true,
            (TypeView::Number, TypeView::Number) => true,
            (TypeView::String { format: a }, TypeView::String { format: b }) => a == b,
            (TypeView::Array { items: a }, TypeView::Array { items: b }) => a.equals(*b),
            (TypeView::Object { schema: a }, TypeView::Object { schema: b }) => a.equals(*b),
            _ => false,
        }
    }
}

impl FieldView {
    pub open spec fn equals(self, other: FieldView) -> bool
        decreases self,
    {
        &&& self.value_type.equals(other.value_type)
        &&& self.required == other.required
        &&& self.nullable == other.nullable
        &&& self.description == other.description
        &&& self.sensitivity == other.sensitivity
        &&& values_equal(self.allowed_values, other.allowed_values)
    }
}

impl AdditionalView {
    pub open spec fn equals(self, other: AdditionalView) -> bool
        decreases self,
    {
        match (self, other) {
            (AdditionalView::Forbidden, AdditionalView::Forbidden) => true,
            (AdditionalView::Any, AdditionalView::Any) => true,
            (AdditionalView::Typed(a), AdditionalView::Typed(b)) => a.equals(b),
            _ => false,
        }
    }
}

impl SchemaView {
    pub open spec fn equals(self, other: SchemaView) -> bool
        decreases self,
    {
        &&& self.version == other.version
        &&& self.id == other.id
        &&& self.fields.len() == other.fields.len()
        &&& forall|i: int|
            0 <= i < self.fields.len() ==> (#[trigger] self.fields[i]).0 == other.fields[i].0
                && self.fields[i].1.equals(other.fields[i].1)
        &&& self.additional_fields.equals(other.additional_fields)
    }
}

pub open spec fn values_equal(a: Seq<ValueView>, b: Seq<ValueView>) -> bool {
    a.len() == b.len() && forall|i: int| 0 <= i < a.len() ==> (#[trigger] a[i]).equals(b[i])
}

pub fn same_values(a: &Vec<Value>, b: &Vec<Value>) -> (same: bool)
    ensures
        same == values_equal(value_views(a@), value_views(b@)),
{
    if a.len() != b.len() {
        return false;
    }
    let mut i: usize = 0;
    while i < a.len()
        invariant
            i <= a@.len(),
            a@.len() == b@.len(),
            forall|j: int|
                0 <= j < i ==> (#[trigger] value_views(a@)[j]).equals(value_views(b@)[j]),
        decreases a@.len() - i,
    {
        if !same_value(&a[i], &b[i]) {
            assert(!value_views(a@)[i as int].equals(value_views(b@)[i as int]));
            return false;
        }
        i = i + 1;
    }
    true
}

fn same_format(a: Option<SemanticFormat>, b: Option<SemanticFormat>) -> (same: bool)
    ensures
        same == (a == b),
{
    match (a, b) {
        (Some(a), Some(b)) => a == b,
        (None, None) => true,
        _ => false,
    }
}

/// Whether two declared types are equal.
pub fn same_type(a: &ContextType, b: &ContextType) -> (same: bool)
    ensures
        same == a@.equals(b@),
    decreases a,
{
    match (a, b) {
        (ContextType::Any, ContextType::Any) => true,
        (ContextType::Null, ContextType::Null) => true,
        (ContextType::Boolean, ContextType::Boolean) => true,
        (ContextType::Integer, ContextType::Integer) => true,
        (ContextType::Number, ContextType::Number) => true,
        (ContextType::String { format: a }, ContextType::String { format: b }) => same_format(
            *a,
            *b,
        ),
        (ContextType::Array { items: a }, ContextType::Array { items: b }) => same_type(a, b),
        (ContextType::Object { schema: a }, ContextType::Object { schema: b }) => same_schema(a, b),
        _ => false,
    }
}

fn same_field(a: &FieldSchema, b: &FieldSchema) -> (same: bool)
    ensures
        same == a@.equals(b@),
    decreases a,
{
    same_type(&a.value_type, &b.value_type) && a.required == b.required && a.nullable == b.nullable
        && same_optional(&a.description, &b.description) && a.sensitivity == b.sensitivity
        && same_values(&a.allowed_values, &b.allowed_values)
}

fn same_additional(a: &AdditionalProperties, b: &AdditionalProperties) -> (same: bool)
    ensures
        same == a@.equals(b@),
    decreases a,
{
    match (a, b) {
        (AdditionalProperties::Forbidden, AdditionalProperties::Forbidden) => true,
        (AdditionalProperties::Any, AdditionalProperties::Any) => true,
        (AdditionalProperties::Typed(a), AdditionalProperties::Typed(b)) => same_type(a, b),
        _ => false,
    }
}

/// Whether two schemas are equal.
pub fn same_schema(a: &ObjectSchema, b: &ObjectSchema) -> (same: bool)
    ensures
        same == a@.equals(b@),
    decreases a,
{
    if a.version != b.version || !same_optional(&a.id, &b.id) || a.fields.entries.len()
        != b.fields.entries.len() {
        return false;
    }
    let mut i: usize = 0;
    while i < a.fields.entries.len()
        invariant
            i <= a.fields.entries@.len(),
            a.fields.entries@.len() == b.fields.entries@.len(),
            forall|j: int|
                0 <= j < i ==> (#[trigger] a@.fields[j]).0 == b@.fields[j].0
                    && a@.fields[j].1.equals(b@.fields[j].1),
        decreases a.fields.entries@.len() - i,
    {
        proof {
            assert(decreases_to!(*a => a.fields));
            assert(decreases_to!(a.fields.entries@ => a.fields.entries@[i as int].1));
        }
        if !same_text(&a.fields.entries[i].0, &b.fields.entries[i].0) || !same_field(
            &a.fields.entries[i].1,
            &b.fields.entries[i].1,
        ) {
            assert(!(a@.fields[i as int].0 == b@.fields[i as int].0
                && a@.fields[i as int].1.equals(b@.fields[i as int].1)));
            return false;
        }
        i = i + 1;
    }
    same_additional(&a.additional_fields, &b.additional_fields)
}

// ---------------------------------------------------------------------------
// Constructors and getters
// ---------------------------------------------------------------------------
impl ContextType {
    /// A string without a semantic format.
    pub fn plain_string() -> (res: Self)
        ensures
            res@ == (TypeView::String { format: None }),
    {
        ContextType::String { format: None }
    }

    pub fn string(format: SemanticFormat) -> (res: Self)
        ensures
            res@ == (TypeView::String { format: Some(format) }),
    {
        ContextType::String { format: Some(format) }
    }

    pub fn array(items: ContextType) -> (res: Self)
        ensures
            res@ == (TypeView::Array { items: Box::new(items@) }),
    {
        ContextType::Array { items: Box::new(items) }
    }

    pub fn object(schema: ObjectSchema) -> (res: Self)
        ensures
            res@ == (TypeView::Object { schema: Box::new(schema@) }),
    {
        ContextType::Object { schema: Box::new(schema) }
    }
}

impl AdditionalView {
    /// The type that keys beyond the listed ones have, if they are allowed.
    pub open spec fn value_type(self) -> Option<TypeView> {
        match self {
            AdditionalView::Forbidden => None,
            AdditionalView::Any => Some(TypeView::Any),
            AdditionalView::Typed(t) => Some(t),
        }
    }

    /// The contract for extra keys of a type: the untyped form for `Any`.
    pub open spec fn typed(t: TypeView) -> AdditionalView {
        if t is Any {
            AdditionalView::Any
        } else {
            AdditionalView::Typed(t)
        }
    }
}

impl AdditionalProperties {
    pub fn typed(value_type: ContextType) -> (res: Self)
        ensures
            res@ == AdditionalView::typed(value_type@),
    {
        match value_type {
            ContextType::Any => AdditionalProperties::Any,
            other => AdditionalProperties::Typed(other),
        }
    }

    pub fn value_type(&self) -> (res: Option<&ContextType>)
        ensures
            match res {
                Some(t) => self@.value_type() == Some(t@),
                None => self@.value_type() is None,
            },
            self matches AdditionalProperties::Typed(t) ==> res == Some(t),
    {
        match self {
            AdditionalProperties::Forbidden => None,
            AdditionalProperties::Any => Some(&ContextType::Any),
            AdditionalProperties::Typed(value_type) => Some(value_type),
        }
    }
}

impl Default for AdditionalProperties {
    fn default() -> (res: Self)
        ensures
            res@ == AdditionalView::Forbidden,
    {
        AdditionalProperties::Forbidden
    }
}

impl FieldSchema {
    pub fn required(value_type: ContextType) -> (res: Self)
        ensures
            res@ == FieldView::required(value_type@),
    {
        let res = FieldSchema {
            value_type,
            required: true,
            nullable: false,
            description: None,
            sensitivity: Sensitivity::Public,
            allowed_values: Vec::new(),
        };
        assert(res@.allowed_values =~= Seq::empty());
        res
    }

    pub fn optional(value_type: ContextType) -> (res: Self)
        ensures
            res@ == FieldView::optional(value_type@),
    {
        let mut res = FieldSchema::required(value_type);
        res.required = false;
        res
    }

    pub fn nullable(self) -> (res: Self)
        ensures
            res@ == (FieldView { nullable: true, ..self@ }),
    {
        let mut res = self;
        res.nullable = true;
        res
    }

    pub fn described(self, description: &str) -> (res: Self)
        ensures
            res@ == (FieldView { description: Some(description@), ..self@ }),
    {
        let mut res = self;
        res.description = Some(text::owned(description));
        res
    }

    pub fn sensitive(self, sensitivity: Sensitivity) -> (res: Self)
        ensures
            res@ == (FieldView { sensitivity, ..self@ }),
    {
        let mut res = self;
        res.sensitivity = sensitivity;
        res
    }

    pub fn with_allowed_values(self, values: Vec<Value>) -> (res: Self)
        ensures
            res@ == (FieldView { allowed_values: value_views(values@), ..self@ }),
    {
        let mut res = self;
        res.allowed_values = values;
        res
    }

    /// Whether a field declared as `actual` can stand where this one is expected.
    pub fn accepts(&self, actual: &Self) -> (res: bool)
        ensures
            res == self@.accepts(actual@),
        decreases self,
    {
        (!self.required || actual.required) && (field_accepts_null(self) || !field_may_be_null(
            actual,
        )) && self.value_type.is_assignable_from(&actual.value_type) && allowed_values_accept(
            &self.allowed_values,
            &actual.allowed_values,
        )
    }
}

impl FieldView {
    pub open spec fn required(value_type: TypeView) -> FieldView {
        FieldView {
            value_type,
            required: true,
            nullable: false,
            description: None,
            sensitivity: Sensitivity::Public,
            allowed_values: Seq::empty(),
        }
    }

    pub open spec fn optional(value_type: TypeView) -> FieldView {
        FieldView { required: false, ..FieldView::required(value_type) }
    }

    /// Whether null is a value of the field.
    pub open spec fn admits_null(self) -> bool {
        self.nullable || self.value_type.admits_null()
    }

    pub open spec fn accepts(self, actual: FieldView) -> bool
        decreases self,
    {
        &&& self.required ==> actual.required
        &&& actual.admits_null() ==> self.admits_null()
        &&& self.value_type.assignable_from(actual.value_type)
        &&& allowed_accept(self.allowed_values, actual.allowed_values)
    }
}

/// A closed set of values accepts another non-empty one that lies within it;
/// an empty set accepts everything.
pub open spec fn allowed_accept(expected: Seq<ValueView>, actual: Seq<ValueView>) -> bool {
    expected.len() == 0 || (actual.len() > 0 && forall|i: int|
        0 <= i < actual.len() ==> json::listed(expected, #[trigger] actual[i]))
}

/// Whether every value that `actual` allows is one that `expected` allows.
pub fn allowed_values_accept(expected: &Vec<Value>, actual: &Vec<Value>) -> (res: bool)
    ensures
        res == allowed_accept(value_views(expected@), value_views(actual@)),
{
    if expected.len() == 0 {
        return true;
    }
    if actual.len() == 0 {
        return false;
    }
    let mut i: usize = 0;
    while i < actual.len()
        invariant
            i <= actual@.len(),
            expected@.len() > 0,
            forall|j: int|
                0 <= j < i ==> json::listed(
                    value_views(expected@),
                    #[trigger] value_views(actual@)[j],
                ),
        decreases actual@.len() - i,
    {
        if !is_listed(expected, &actual[i]) {
            assert(!json::listed(value_views(expected@), value_views(actual@)[i as int]));
            return false;
        }
        i = i + 1;
    }
    true
}

impl TypeView {
    pub open spec fn admits_null(self) -> bool {
        self is Any || self is Null
    }

    /// Whether a value of type `actual` can be supplied where `self` is expected.
    pub open spec fn assignable_from(self, actual: TypeView) -> bool
        decreases self,
    {
        match (self, actual) {
            (TypeView::Any, _) => true,
            (TypeView::Null, TypeView::Null) => true,
            (TypeView::Boolean, TypeView::Boolean) => true,
            (TypeView::Integer, TypeView::Integer) => true,
            (TypeView::Number, TypeView::Number) => true,
            (TypeView::Number, TypeView::Integer) => true,
            (TypeView::String { format: e }, TypeView::String { format: a }) => format_accepts(
                e,
                a,
            ),
            (TypeView::Array { items: e }, TypeView::Array { items: a }) => e.assignable_from(*a),
            (TypeView::Object { schema: e }, TypeView::Object { schema: a }) => e.assignable_from(
                *a,
            ),
            _ => false,
        }
    }
}

impl SchemaView {
    /// Whether every object of the schema `actual` is one of this schema:
    /// listed fields fit, extra fields fit the contract for extras, and so do
    /// the extras of `actual`.
    pub open spec fn assignable_from(self, actual: SchemaView) -> bool
        decreases self,
    {
        &&& forall|i: int|
            0 <= i < self.fields.len() ==> match text_map::lookup(
                actual.fields,
                (#[trigger] self.fields[i]).0,
            ) {
                Some(field) => self.fields[i].1.accepts(field),
                None => !self.fields[i].1.required && match actual.additional_fields.value_type() {
                    Some(extra) => self.fields[i].1.value_type.assignable_from(extra) && (
                    extra.admits_null() ==> self.fields[i].1.admits_null()),
                    None => true,
                },
            }
        &&& forall|i: int|
            0 <= i < actual.fields.len() && !text_map::has_key(
                self.fields,
                (#[trigger] actual.fields[i]).0,
            ) ==> match self.additional_fields {
                AdditionalView::Forbidden => false,
                AdditionalView::Any => true,
                AdditionalView::Typed(t) => t.assignable_from(actual.fields[i].1.value_type) && (
                actual.fields[i].1.admits_null() ==> t.admits_null()),
            }
        &&& match actual.additional_fields.value_type() {
            None => true,
            Some(extra) => match self.additional_fields {
                AdditionalView::Forbidden => false,
                AdditionalView::Any => true,
                AdditionalView::Typed(t) => t.assignable_from(extra),
            },
        }
    }
}

/// Whether a text of one semantic format serves where another is asked for.
pub open spec fn format_accepts(
    expected: Option<SemanticFormat>,
    actual: Option<SemanticFormat>,
) -> bool {
    match (expected, actual) {
        (None, _) => true,
        (Some(_), None) => false,
        (Some(e), Some(a)) => e == a || (e == SemanticFormat::Url && a == SemanticFormat::GitUrl)
            || (e == SemanticFormat::Path && (a == SemanticFormat::FilePath || a
            == SemanticFormat::DirectoryPath)) || (e == SemanticFormat::PackageName && a
            == SemanticFormat::Identifier),
    }
}

pub fn semantic_format_accepts(
    expected: Option<SemanticFormat>,
    actual: Option<SemanticFormat>,
) -> (res: bool)
    ensures
        res == format_accepts(expected, actual),
{
    match (expected, actual) {
        (None, _) => true,
        (Some(_), None) => false,
        (Some(e), Some(a)) => {
            if e == a {
                true
            } else {
                match (e, a) {
                    (SemanticFormat::Url, SemanticFormat::GitUrl) => true,
                    (SemanticFormat::Path, SemanticFormat::FilePath) => true,
                    (SemanticFormat::Path, SemanticFormat::DirectoryPath) => true,
                    (SemanticFormat::PackageName, SemanticFormat::Identifier) => true,
                    _ => false,
                }
            }
        },
    }
}

pub fn type_accepts_null(value_type: &ContextType) -> (res: bool)
    ensures
        res == value_type@.admits_null(),
{
    match value_type {
        ContextType::Any | ContextType::Null => true,
        _ => false,
    }
}

pub fn field_accepts_null(field: &FieldSchema) -> (res: bool)
    ensures
        res == field@.admits_null(),
{
    field.nullable || type_accepts_null(&field.value_type)
}

pub fn field_may_be_null(field: &FieldSchema) -> (res: bool)
    ensures
        res == field@.admits_null(),
{
    field.nullable || type_accepts_null(&field.value_type)
}

impl ContextType {
    /// Returns whether a value of `actual` type can be supplied where `self`
    /// is expected.
    pub fn is_assignable_from(&self, actual: &Self) -> (res: bool)
        ensures
            res == self@.assignable_from(actual@),
        decreases self,
    {
        match (self, actual) {
            (ContextType::Any, _) => true,
            (ContextType::Null, ContextType::Null) => true,
            (ContextType::Boolean, ContextType::Boolean) => true,
            (ContextType::Integer, ContextType::Integer) => true,
            (ContextType::Number, ContextType::Number) => true,
            (ContextType::Number, ContextType::Integer) => true,
            (ContextType::String { format: expected }, ContextType::String { format: actual }) =>
                semantic_format_accepts(*expected, *actual),
            (ContextType::Array { items: expected }, ContextType::Array { items: actual }) => {
                expected.is_assignable_from(actual)
            },
            (ContextType::Object { schema: expected }, ContextType::Object { schema: actual }) => {
                expected.is_assignable_from(actual)
            },
            _ => false,
        }
    }
}

/// Ties the position of a name among the fields of a schema to its view.
proof fn lemma_position(schema: &ObjectSchema, name: Seq<char>, at: int)
    requires
        0 <= at <= schema.fields.entries@.len(),
        at < schema.fields.entries@.len() ==> schema.fields.entries@[at].0@ == name,
        forall|j: int| 0 <= j < at ==> (#[trigger] schema.fields.entries@[j]).0@ != name,
    ensures
        text_map::index_of(schema@.fields, name) == at,
{
    assert forall|j: int| 0 <= j < at implies (#[trigger] schema@.fields[j]).0 != name by {
        assert(schema.fields.entries@[j].0@ != name);
    }
    text_map::lemma_index_of(schema@.fields, name, at);
}

impl ObjectSchema {
    pub fn new(id: &str) -> (res: Self)
        ensures
            res@ == SchemaView::new(id@),
    {
        let res = ObjectSchema {
            version: CONTEXT_SCHEMA_VERSION,
            id: Some(text::owned(id)),
            fields: TextMap::new(),
            additional_fields: AdditionalProperties::Forbidden,
        };
        assert(res@.fields =~= Seq::empty());
        res
    }

    pub fn anonymous(fields: TextMap<FieldSchema>) -> (res: Self)
        ensures
            res@ == SchemaView::anonymous(field_views(fields.entries@)),
    {
        ObjectSchema {
            version: CONTEXT_SCHEMA_VERSION,
            id: None,
            fields,
            additional_fields: AdditionalProperties::Forbidden,
        }
    }

    pub fn with_field(self, name: &str, field: FieldSchema) -> (res: Self)
        ensures
            res@ == self@.with_field(name@, field@),
    {
        let ghost before = self.fields.pairs();
        let mut res = self;
        res.fields.insert(text::owned(name), field);
        proof {
            lemma_stored_views(before, name@, field);
            assert(pair_views(before) =~= self@.fields);
            assert(pair_views(res.fields.pairs()) =~= res@.fields);
        }
        res
    }

    pub fn with_additional_fields(self, value_type: ContextType) -> (res: Self)
        ensures
            res@ == (SchemaView {
                additional_fields: AdditionalView::typed(value_type@),
                ..self@
            }),
    {
        let mut res = self;
        res.additional_fields = AdditionalProperties::typed(value_type);
        res
    }

    pub fn allowing_additional_fields(self) -> (res: Self)
        ensures
            res@ == (SchemaView { additional_fields: AdditionalView::Any, ..self@ }),
    {
        let mut res = self;
        res.additional_fields = AdditionalProperties::Any;
        res
    }

    /// The schema of a listed field.
    pub fn field(&self, name: &str) -> (res: Option<&FieldSchema>)
        ensures
            match res {
                Some(field) => text_map::lookup(self@.fields, name@) == Some(field@),
                None => text_map::lookup(self@.fields, name@) is None,
            },
            res matches Some(field) ==> decreases_to!(*self => *field),
    {
        let at: usize = self.fields.position(name);
        proof {
            lemma_position(self, name@, at as int);
        }
        if at < self.fields.entries.len() {
            proof {
                assert(decreases_to!(*self => self.fields));
                assert(decreases_to!(self.fields.entries@ => self.fields.entries@[at as int].1));
            }
            Some(&self.fields.entries[at].1)
        } else {
            None
        }
    }

    pub fn is_assignable_from(&self, actual: &Self) -> (res: bool)
        ensures
            res == self@.assignable_from(actual@),
        decreases self,
    {
        let mut i: usize = 0;
        while i < self.fields.entries.len()
            invariant
                i <= self.fields.entries@.len(),
                forall|j: int|
                    0 <= j < i ==> match text_map::lookup(
                        actual@.fields,
                        (#[trigger] self@.fields[j]).0,
                    ) {
                        Some(field) => self@.fields[j].1.accepts(field),
                        None => !self@.fields[j].1.required
                            && match actual@.additional_fields.value_type() {
                            Some(extra) => self@.fields[j].1.value_type.assignable_from(extra) && (
                            extra.admits_null() ==> self@.fields[j].1.admits_null()),
                            None => true,
                        },
                    },
            decreases self.fields.entries@.len() - i,
        {
            let expected = &self.fields.entries[i].1;
            proof {
                assert(decreases_to!(*self => self.fields));
                assert(decreases_to!(self.fields.entries@ => self.fields.entries@[i as int].1));
                assert(self@.fields[i as int].1 == expected@);
            }
            let fits = match actual.field(&self.fields.entries[i].0) {
                Some(field) => expected.accepts(field),
                None => {
                    if expected.required {
                        false
                    } else {
                        match actual.additional_fields.value_type() {
                            Some(extra) => field_accepts_additional_type(expected, extra),
                            None => true,
                        }
                    }
                },
            };
            if !fits {
                assert(self@.fields[i as int] == self@.fields[i as int]);
                return false;
            }
            i = i + 1;
        }
        let mut k: usize = 0;
        while k < actual.fields.entries.len()
            invariant
                k <= actual.fields.entries@.len(),
                forall|j: int|
                    0 <= j < k && !text_map::has_key(
                        self@.fields,
                        (#[trigger] actual@.fields[j]).0,
                    ) ==> match self@.additional_fields {
                        AdditionalView::Forbidden => false,
                        AdditionalView::Any => true,
                        AdditionalView::Typed(t) => t.assignable_from(
                            actual@.fields[j].1.value_type,
                        ) && (actual@.fields[j].1.admits_null() ==> t.admits_null()),
                    },
            decreases actual.fields.entries@.len() - k,
        {
            let extra = &actual.fields.entries[k].1;
            assert(actual@.fields[k as int].1 == extra@);
            if self.field(&actual.fields.entries[k].0).is_none() {
                let fits = match &self.additional_fields {
                    AdditionalProperties::Forbidden => false,
                    AdditionalProperties::Any => true,
                    AdditionalProperties::Typed(t) => t.is_assignable_from(&extra.value_type) && (
                    type_accepts_null(t) || !field_may_be_null(extra)),
                };
                if !fits {
                    return false;
                }
            }
            k = k + 1;
        }
        match actual.additional_fields.value_type() {
            None => true,
            Some(extra) => match &self.additional_fields {
                AdditionalProperties::Forbidden => false,
                AdditionalProperties::Any => true,
                AdditionalProperties::Typed(t) => t.is_assignable_from(extra),
            },
        }
    }
}

fn field_accepts_additional_type(expected: &FieldSchema, actual: &ContextType) -> (res: bool)
    ensures
        res == (expected@.value_type.assignable_from(actual@) && (actual@.admits_null()
            ==> expected@.admits_null())),
    decreases expected,
{
    expected.value_type.is_assignable_from(actual) && (field_accepts_null(expected)
        || !type_accepts_null(actual))
}

impl SchemaView {
    pub open spec fn new(id: Seq<char>) -> SchemaView {
        SchemaView {
            version: CONTEXT_SCHEMA_VERSION,
            id: Some(id),
            fields: Seq::empty(),
            additional_fields: AdditionalView::Forbidden,
        }
    }

    pub open spec fn anonymous(fields: Seq<(Seq<char>, FieldView)>) -> SchemaView {
        SchemaView {
            version: CONTEXT_SCHEMA_VERSION,
            id: None,
            fields,
            additional_fields: AdditionalView::Forbidden,
        }
    }

    pub open spec fn with_field(self, name: Seq<char>, field: FieldView) -> SchemaView {
        SchemaView { fields: text_map::stored(self.fields, name, field), ..self }
    }
}

pub open spec fn pair_views(pairs: Seq<(Seq<char>, FieldSchema)>) -> Seq<(Seq<char>, FieldView)> {
    pairs.map_values(|p: (Seq<char>, FieldSchema)| (p.0, p.1@))
}

proof fn lemma_stored_views(pairs: Seq<(Seq<char>, FieldSchema)>, name: Seq<char>, f: FieldSchema)
    ensures
        pair_views(text_map::stored(pairs, name, f)) == text_map::stored(
            pair_views(pairs),
            name,
            f@,
        ),
    decreases pairs.len(),
{
    let views = pair_views(pairs);
    if pairs.len() == 0 {
        assert(pair_views(seq![(name, f)]) =~= seq![(name, f@)]);
    } else {
        assert(views.skip(1) =~= pair_views(pairs.skip(1)));
        if pairs[0].0 == name {
            assert(pair_views(seq![(name, f)] + pairs.skip(1)) =~= seq![(name, f@)] + views.skip(
                1,
            ));
        } else if text::before(name, pairs[0].0) {
            assert(pair_views(seq![(name, f)] + pairs) =~= seq![(name, f@)] + views);
        } else {
            lemma_stored_views(pairs.skip(1), name, f);
            let rest = text_map::stored(pairs.skip(1), name, f);
            assert(pair_views(seq![pairs[0]] + rest) =~= seq![views[0]] + pair_views(rest));
        }
    }
}

// ---------------------------------------------------------------------------
// Types of values
// ---------------------------------------------------------------------------
/// The type of a JSON value.
pub open spec fn inferred(value: ValueView) -> TypeView
    decreases value, 1nat,
{
    match value {
        ValueView::Null => TypeView::Null,
        ValueView::Bool(_) => TypeView::Boolean,
        ValueView::Number(n) => if n.integer() {
            TypeView::Integer
        } else {
            TypeView::Number
        },
        ValueView::String(_) => TypeView::String { format: None },
        ValueView::Array(items) => TypeView::Array { items: Box::new(inferred_items(items)) },
        ValueView::Object(members) => TypeView::Object {
            schema: Box::new(
                SchemaView::anonymous(
                    Seq::new(
                        members.len(),
                        |i: int|
                            if 0 <= i < members.len() {
                                (members[i].0, FieldView::required(inferred(members[i].1)))
                            } else {
                                arbitrary()
                            },
                    ),
                ),
            ),
        },
    }
}

/// The common type of the items of an array: any type where there are none.
pub open spec fn inferred_items(items: Seq<ValueView>) -> TypeView
    decreases items, 0nat,
{
    if items.len() == 0 {
        TypeView::Any
    } else if items.len() == 1 {
        inferred(items[0])
    } else {
        common(inferred_items(items.drop_last()), inferred(items.last()))
    }
}

/// The narrowest of the two types, `Number` and `Any` that covers both.
pub open spec fn common(left: TypeView, right: TypeView) -> TypeView {
    if left.equals(right) {
        left
    } else if (left is Integer && right is Number) || (left is Number && right is Integer) {
        TypeView::Number
    } else {
        TypeView::Any
    }
}

fn common_type(left: ContextType, right: ContextType) -> (res: ContextType)
    ensures
        res@ == common(left@, right@),
{
    if same_type(&left, &right) {
        return left;
    }
    match (left, right) {
        (ContextType::Integer, ContextType::Number) => ContextType::Number,
        (ContextType::Number, ContextType::Integer) => ContextType::Number,
        _ => ContextType::Any,
    }
}

impl ContextType {
    /// The type of a JSON value.
    pub fn infer(value: &Value) -> (res: Self)
        ensures
            res@ == inferred(value@),
        decreases value,
    {
        match value {
            Value::Null => ContextType::Null,
            Value::Bool(_) => ContextType::Boolean,
            Value::Number(n) => {
                if n.is_integer() {
                    ContextType::Integer
                } else {
                    ContextType::Number
                }
            },
            Value::String(_) => ContextType::plain_string(),
            Value::Array(items) => ContextType::array(infer_items(items)),
            Value::Object(map) => {
                let fields = infer_members(map);
                let ghost views = field_views(fields.entries@);
                let res = ContextType::object(ObjectSchema::anonymous(fields));
                assert(inferred(value@)->schema.fields =~= views);
                res
            },
        }
    }
}

fn infer_items(items: &Vec<Value>) -> (res: ContextType)
    ensures
        res@ == inferred_items(value_views(items@)),
    decreases items,
{
    if items.len() == 0 {
        return ContextType::Any;
    }
    let mut current = ContextType::infer(&items[0]);
    let mut i: usize = 1;
    assert(value_views(items@).take(1)[0] == items@[0]@);
    while i < items.len()
        invariant
            1 <= i <= items@.len(),
            current@ == inferred_items(value_views(items@).take(i as int)),
        decreases items@.len() - i,
    {
        let ghost views = value_views(items@);
        proof {
            assert(decreases_to!(items@ => items@[i as int]));
            assert(views.take(i + 1).drop_last() =~= views.take(i as int));
            assert(views.take(i + 1).last() == items@[i as int]@);
        }
        let next = ContextType::infer(&items[i]);
        current = common_type(current, next);
        i = i + 1;
    }
    assert(value_views(items@).take(i as int) =~= value_views(items@));
    current
}

fn infer_members(map: &TextMap<Value>) -> (res: TextMap<FieldSchema>)
    ensures
        field_views(res.entries@).len() == map.entries@.len(),
        forall|i: int|
            0 <= i < map.entries@.len() ==> (#[trigger] field_views(res.entries@)[i]) == (
                map.entries@[i].0@,
                FieldView::required(inferred(map.entries@[i].1@)),
            ),
    decreases map,
{
    let mut out: Vec<(String, FieldSchema)> = Vec::new();
    let mut i: usize = 0;
    while i < map.entries.len()
        invariant
            i <= map.entries@.len(),
            out@.len() == i,
            forall|j: int|
                0 <= j < i ==> (#[trigger] out@[j]).0@ == map.entries@[j].0@ && out@[j].1@
                    == FieldView::required(inferred(map.entries@[j].1@)),
        decreases map.entries@.len() - i,
    {
        assert(decreases_to!(map.entries@ => map.entries@[i as int].1));
        let field = FieldSchema::required(ContextType::infer(&map.entries[i].1));
        out.push((map.entries[i].0.clone(), field));
        i = i + 1;
    }
    TextMap { entries: out }
}

#[derive(Debug, Clone, Copy, PartialEq, Eq, Structural)]
pub enum ContextTypeName {
    Any,
    Null,
    Boolean,
    Integer,
    Number,
    String,
    Array,
    Object,
}

impl ContextTypeName {
    /// The name as it is shown in messages.
    pub open spec fn text(self) -> Seq<char> {
        match self {
            ContextTypeName::Any => "any"@,
            ContextTypeName::Null => "null"@,
            ContextTypeName::Boolean => "boolean"@,
            ContextTypeName::Integer => "integer"@,
            ContextTypeName::Number => "number"@,
            ContextTypeName::String => "string"@,
            ContextTypeName::Array => "array"@,
            ContextTypeName::Object => "object"@,
        }
    }

    pub fn to_text(self) -> (res: String)
        ensures
            res@ == self.text(),
    {
        match self {
            ContextTypeName::Any => text::owned("any"),
            ContextTypeName::Null => text::owned("null"),
            ContextTypeName::Boolean => text::owned("boolean"),
            ContextTypeName::Integer => text::owned("integer"),
            ContextTypeName::Number => text::owned("number"),
            ContextTypeName::String => text::owned("string"),
            ContextTypeName::Array => text::owned("array"),
            ContextTypeName::Object => text::owned("object"),
        }
    }
}

impl TypeView {
    pub open spec fn name(self) -> ContextTypeName {
        match self {
            TypeView::Any => ContextTypeName::Any,
            TypeView::Null => ContextTypeName::Null,
            TypeView::Boolean => ContextTypeName::Boolean,
            TypeView::Integer => ContextTypeName::Integer,
            TypeView::Number => ContextTypeName::Number,
            TypeView::String { .. } => ContextTypeName::String,
            TypeView::Array { .. } => ContextTypeName::Array,
            TypeView::Object { .. } => ContextTypeName::Object,
        }
    }
}

impl ContextType {
    pub fn name(&self) -> (res: ContextTypeName)
        ensures
            res == self@.name(),
    {
        match self {
            ContextType::Any => ContextTypeName::Any,
            ContextType::Null => ContextTypeName::Null,
            ContextType::Boolean => ContextTypeName::Boolean,
            ContextType::Integer => ContextTypeName::Integer,
            ContextType::Number => ContextTypeName::Number,
            ContextType::String { .. } => ContextTypeName::String,
            ContextType::Array { .. } => ContextTypeName::Array,
            ContextType::Object { .. } => ContextTypeName::Object,
        }
    }
}

/// Secret is above confidential, that above internal, and that above public; the higher of two is
/// one of them.
pub proof fn law_sensitivity_order(a: Sensitivity, b: Sensitivity)
    ensures
        Sensitivity::Public.rank() < Sensitivity::Internal.rank(),
        Sensitivity::Internal.rank() < Sensitivity::Confidential.rank(),
        Sensitivity::Confidential.rank() < Sensitivity::Secret.rank(),
        a.max(b) == a || a.max(b) == b,
        a.max(b).rank() >= a.rank(),
        a.max(b).rank() >= b.rank(),
        a == Sensitivity::Secret || b == Sensitivity::Secret ==> a.max(b) == Sensitivity::Secret,
{
}

} // verus!
