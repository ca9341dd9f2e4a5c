//! Context values with their provenance, redaction, and the store in which
//! steps look up what earlier steps produced.
use vstd::prelude::*;

use crate::context::{
    ContextPathSegment, ContextScope, FieldRef, FieldRefView, ScopeView, SegmentView,
};
use crate::json::{member_views, Value, ValueView};
use crate::resolve;
use crate::resolve::{
    aggregate_object_sensitivity, path_from, resolve_type_schema, resolved, ResolvedSchema,
    ResolvedSchemaOwned, ResolvedView,
};
use crate::schema::{
    clone_optional, optional_text, AdditionalProperties, AdditionalView, ContextType, FieldView,
    ObjectSchema, SchemaView, Sensitivity, TypeView, CONTEXT_SCHEMA_VERSION,
};
use crate::text;
use crate::text_map;
use crate::text_map::TextMap;

verus! {

#[derive(Debug, PartialEq, Eq)]
pub enum ContextOrigin {
    ScenarioInput,
    Step { step_id: String },
    LoopItem { step_id: String, index: usize },
    Literal,
    Derived,
}

#[derive(Debug, PartialEq, Eq)]
pub struct ContextProvenance {
    pub origin: ContextOrigin,
    pub inputs: Vec<FieldRef>,
    pub operation: Option<String>,
}

pub enum OriginView {
    ScenarioInput,
    Step { step_id: Seq<char> },
    LoopItem { step_id: Seq<char>, index: nat },
    Literal,
    Derived,
}

pub struct ProvenanceView {
    pub origin: OriginView,
    pub inputs: Seq<FieldRefView>,
    pub operation: Option<Seq<char>>,
}

impl ContextOrigin {
    pub open spec fn view(&self) -> OriginView {
        match self {
            ContextOrigin::ScenarioInput => OriginView::ScenarioInput,
            ContextOrigin::Step { step_id } => OriginView::Step { step_id: step_id@ },
            ContextOrigin::LoopItem { step_id, index } => OriginView::LoopItem {
                step_id: step_id@,
                index: *index as nat,
            },
            ContextOrigin::Literal => OriginView::Literal,
            ContextOrigin::Derived => OriginView::Derived,
        }
    }
}

pub open spec fn ref_views(refs: Seq<FieldRef>) -> Seq<FieldRefView> {
    refs.map_values(|r: FieldRef| r.view())
}

impl ContextProvenance {
    pub open spec fn view(&self) -> ProvenanceView {
        ProvenanceView {
            origin: self.origin@,
            inputs: ref_views(self.inputs@),
            operation: optional_text(self.operation),
        }
    }

    pub fn step(step_id: &str) -> (res: Self)
        ensures
            res@ == (ProvenanceView {
                origin: OriginView::Step { step_id: step_id@ },
                inputs: Seq::empty(),
                operation: None,
            }),
    {
        let res = ContextProvenance {
            origin: ContextOrigin::Step { step_id: text::owned(step_id) },
            inputs: Vec::new(),
            operation: None,
        };
        assert(res@.inputs =~= Seq::empty());
        res
    }
}

impl Clone for ContextOrigin {
    fn clone(&self) -> (res: Self)
        ensures
            res@ == self@,
    {
        match self {
            ContextOrigin::ScenarioInput => ContextOrigin::ScenarioInput,
            ContextOrigin::Step { step_id } => ContextOrigin::Step { step_id: step_id.clone() },
            ContextOrigin::LoopItem { step_id, index } => ContextOrigin::LoopItem {
                step_id: step_id.clone(),
                index: *index,
            },
            ContextOrigin::Literal => ContextOrigin::Literal,
            ContextOrigin::Derived => ContextOrigin::Derived,
        }
    }
}

impl Clone for ContextProvenance {
    fn clone(&self) -> (res: Self)
        ensures
            res@ == self@,
    {
        let mut inputs: Vec<FieldRef> = Vec::new();
        let mut i: usize = 0;
        while i < self.inputs.len()
            invariant
                i <= self.inputs@.len(),
                inputs@.len() == i,
                forall|k: int| 0 <= k < i ==> (#[trigger] inputs@[k])@ == self.inputs@[k]@,
            decreases self.inputs@.len() - i,
        {
            inputs.push(self.inputs[i].clone());
            i = i + 1;
        }
        assert(ref_views(inputs@) =~= ref_views(self.inputs@));
        ContextProvenance {
            origin: self.origin.clone(),
            inputs,
            operation: clone_optional(&self.operation),
        }
    }
}

/// One runtime context root and its security and provenance metadata.
#[derive(Debug, PartialEq)]
pub struct ContextValue {
    pub version: u32,
    pub value: Value,
    pub schema: Option<ObjectSchema>,
    /// Declared root type for scalar and array scopes (notably loop items).
    /// Object-producing outputs use `schema`; at most one of the two is
    /// normally present.
    pub root_type: Option<ContextType>,
    pub provenance: ContextProvenance,
    pub sensitivity: Sensitivity,
}

pub struct ContextView {
    pub version: u32,
    pub value: ValueView,
    pub schema: Option<SchemaView>,
    pub root_type: Option<TypeView>,
    pub provenance: ProvenanceView,
    pub sensitivity: Sensitivity,
}

pub open spec fn schema_view(schema: Option<ObjectSchema>) -> Option<SchemaView> {
    match schema {
        Some(schema) => Some(schema@),
        None => None,
    }
}

pub open spec fn type_view(t: Option<ContextType>) -> Option<TypeView> {
    match t {
        Some(t) => Some(t@),
        None => None,
    }
}

impl ContextValue {
    pub open spec fn view(&self) -> ContextView {
        ContextView {
            version: self.version,
            value: self.value@,
            schema: schema_view(self.schema),
            root_type: type_view(self.root_type),
            provenance: self.provenance@,
            sensitivity: self.sensitivity,
        }
    }

    pub fn new(value: Value, provenance: ContextProvenance) -> (res: Self)
        ensures
            res@ == ContextView::new(value@, provenance@),
    {
        ContextValue {
            version: CONTEXT_SCHEMA_VERSION,
            value,
            schema: None,
            root_type: None,
            provenance,
            sensitivity: Sensitivity::Public,
        }
    }

    /// A context value as it was written down: at most one type declaration.
    pub fn from_wire(
        version: u32,
        value: Value,
        schema: Option<ObjectSchema>,
        root_type: Option<ContextType>,
        provenance: ContextProvenance,
        sensitivity: Sensitivity,
    ) -> (res: Result<Self, String>)
        ensures
            match res {
                Ok(context) => !(schema is Some && root_type is Some) && context@ == (ContextView {
                    version,
                    value: value@,
                    schema: schema_view(schema),
                    root_type: type_view(root_type),
                    provenance: provenance@,
                    sensitivity,
                }),
                Err(message) => schema is Some && root_type is Some && message@
                    == "context value must declare either schema or root_type, not both"@,
            },
    {
        if schema.is_some() && root_type.is_some() {
            return Err(
                text::owned("context value must declare either schema or root_type, not both"),
            );
        }
        Ok(ContextValue { version, value, schema, root_type, provenance, sensitivity })
    }

    pub fn with_schema(self, schema: ObjectSchema) -> (res: Self)
        ensures
            res@ == (ContextView { schema: Some(schema@), root_type: None, ..self@ }),
    {
        let mut res = self;
        res.schema = Some(schema);
        res.root_type = None;
        res
    }

    pub fn with_type(self, value_type: ContextType) -> (res: Self)
        ensures
            res@ == (ContextView { schema: None, root_type: Some(value_type@), ..self@ }),
    {
        let mut res = self;
        res.root_type = Some(value_type);
        res.schema = None;
        res
    }

    pub fn sensitive(self, sensitivity: Sensitivity) -> (res: Self)
        ensures
            res@ == (ContextView { sensitivity, ..self@ }),
    {
        let mut res = self;
        res.sensitivity = sensitivity;
        res
    }

    /// A copy safe for ordinary logs and reports. Values marked secret either
    /// at the context root or in the attached field schema are replaced; the
    /// stored context is left as it is.
    pub fn redacted_value(&self) -> (res: Value)
        ensures
            res@ == self@.redacted(Sensitivity::Secret),
    {
        self.redacted_value_at(Sensitivity::Secret)
    }

    /// Redact values at or above `minimum` sensitivity.
    pub fn redacted_value_at(&self, minimum: Sensitivity) -> (res: Value)
        ensures
            res@ == self@.redacted(minimum),
    {
        if self.sensitivity.at_least(minimum) {
            return redaction_mark();
        }
        // A value built in code can declare both. Apply both declarations, so
        // that even such a state cannot suppress redaction.
        let value = match &self.root_type {
            Some(value_type) => redact_type_value(
                &self.value,
                value_type,
                Sensitivity::Public,
                minimum,
            ),
            None => self.value.clone(),
        };
        match &self.schema {
            Some(schema) => redact_object_value(&value, schema, Sensitivity::Public, minimum),
            None => value,
        }
    }

    /// Whether the value declares both a schema and a root type.
    pub fn has_ambiguous_type_declaration(&self) -> (res: bool)
        ensures
            res == self@.ambiguous(),
    {
        self.schema.is_some() && self.root_type.is_some()
    }
}

impl Clone for ContextValue {
    fn clone(&self) -> (res: Self)
        ensures
            res@ == self@,
    {
        ContextValue {
            version: self.version,
            value: self.value.clone(),
            schema: match &self.schema {
                Some(schema) => Some(schema.clone()),
                None => None,
            },
            root_type: match &self.root_type {
                Some(value_type) => Some(value_type.clone()),
                None => None,
            },
            provenance: self.provenance.clone(),
            sensitivity: self.sensitivity,
        }
    }
}

impl ContextView {
    pub open spec fn new(value: ValueView, provenance: ProvenanceView) -> ContextView {
        ContextView {
            version: CONTEXT_SCHEMA_VERSION,
            value,
            schema: None,
            root_type: None,
            provenance,
            sensitivity: Sensitivity::Public,
        }
    }

    pub open spec fn ambiguous(self) -> bool {
        self.schema is Some && self.root_type is Some
    }

    /// The value without what is at or above a sensitivity.
    pub open spec fn redacted(self, minimum: Sensitivity) -> ValueView {
        if self.sensitivity.rank() >= minimum.rank() {
            ValueView::String("[REDACTED]"@)
        } else {
            let typed = match self.root_type {
                Some(t) => redacted_as(self.value, t, Sensitivity::Public, minimum),
                None => self.value,
            };
            match self.schema {
                Some(schema) => redacted_object(typed, schema, Sensitivity::Public, minimum),
                None => typed,
            }
        }
    }

    /// What the declared type says of a path.
    pub open spec fn declared(self, path: Seq<SegmentView>) -> Option<ResolvedView> {
        match self.root_type {
            Some(t) => resolved(t, Seq::empty(), path, true, false, Sensitivity::Public),
            None => match self.schema {
                Some(schema) => schema.resolve(path),
                None => None,
            },
        }
    }
}

/// A value of type `t` without what is at or above a sensitivity.
pub open spec fn redacted_as(
    value: ValueView,
    t: TypeView,
    inherited: Sensitivity,
    minimum: Sensitivity,
) -> ValueView
    decreases t,
{
    match t {
        TypeView::Object { schema } => redacted_object(value, *schema, inherited, minimum),
        TypeView::Array { items } => match value {
            ValueView::Array(values) => ValueView::Array(
                Seq::new(
                    values.len(),
                    |i: int| redacted_as(values[i], *items, inherited, minimum),
                ),
            ),
            _ => value,
        },
        _ => value,
    }
}

/// An object without what is at or above a sensitivity.
pub open spec fn redacted_object(
    value: ValueView,
    schema: SchemaView,
    inherited: Sensitivity,
    minimum: Sensitivity,
) -> ValueView
    decreases schema,
{
    match value {
        ValueView::Object(members) => ValueView::Object(
            Seq::new(
                members.len(),
                |i: int|
                    (
                        members[i].0,
                        match text_map::lookup(schema.fields, members[i].0) {
                            Some(field) => redacted_field(
                                members[i].1,
                                field,
                                inherited,
                                minimum,
                            ),
                            None => match schema.additional_fields {
                                AdditionalView::Typed(t) => redacted_as(
                                    members[i].1,
                                    t,
                                    inherited,
                                    minimum,
                                ),
                                _ => members[i].1,
                            },
                        },
                    ),
            ),
        ),
        _ => value,
    }
}

/// The value of a listed field, replaced if it is at or above a sensitivity.
pub open spec fn redacted_field(
    value: ValueView,
    field: FieldView,
    inherited: Sensitivity,
    minimum: Sensitivity,
) -> ValueView
    decreases field,
{
    if inherited.max(field.sensitivity).rank() >= minimum.rank() {
        ValueView::String("[REDACTED]"@)
    } else {
        redacted_as(value, field.value_type, inherited.max(field.sensitivity), minimum)
    }
}

fn redaction_mark() -> (res: Value)
    ensures
        res@ == ValueView::String("[REDACTED]"@),
{
    Value::String(text::owned("[REDACTED]"))
}

fn redact_object_value(
    value: &Value,
    schema: &ObjectSchema,
    inherited: Sensitivity,
    minimum: Sensitivity,
) -> (res: Value)
    ensures
        res@ == redacted_object(value@, schema@, inherited, minimum),
    decreases schema,
{
    match value {
        Value::Object(map) => {
            let mut out: Vec<(String, Value)> = Vec::new();
            let mut i: usize = 0;
            let ghost want = redacted_object(value@, schema@, inherited, minimum)->Object_0;
            while i < map.entries.len()
                invariant
                    i <= map.entries@.len(),
                    out@.len() == i,
                    value@ == ValueView::Object(member_views(map.entries@)),
                    want == redacted_object(value@, schema@, inherited, minimum)->Object_0,
                    want.len() == map.entries@.len(),
                    forall|j: int|
                        0 <= j < i ==> (#[trigger] want[j]).0 == out@[j].0@ && want[j].1
                            == out@[j].1@,
                decreases map.entries@.len() - i,
            {
                let name = &map.entries[i].0;
                let member = &map.entries[i].1;
                assert(member_views(map.entries@)[i as int] == (name@, member@));
                let item = match schema.field(name) {
                    Some(field) => {
                        let sensitivity = inherited.combine(field.sensitivity);
                        if sensitivity.at_least(minimum) {
                            redaction_mark()
                        } else {
                            proof {
                                assert(decreases_to!(*field => field.value_type));
                            }
                            redact_type_value(member, &field.value_type, sensitivity, minimum)
                        }
                    },
                    None => match &schema.additional_fields {
                        AdditionalProperties::Typed(t) => redact_type_value(
                            member,
                            t,
                            inherited,
                            minimum,
                        ),
                        _ => member.clone(),
                    },
                };
                out.push((name.clone(), item));
                i = i + 1;
            }
            let res = Value::Object(TextMap { entries: out });
            assert(res@->Object_0 =~= want);
            res
        },
        _ => value.clone(),
    }
}

fn redact_type_value(
    value: &Value,
    value_type: &ContextType,
    inherited: Sensitivity,
    minimum: Sensitivity,
) -> (res: Value)
    ensures
        res@ == redacted_as(value@, value_type@, inherited, minimum),
    decreases value_type,
{
    match value_type {
        ContextType::Object { schema } => redact_object_value(value, schema, inherited, minimum),
        ContextType::Array { items } => match value {
            Value::Array(values) => {
                let mut out: Vec<Value> = Vec::new();
                let mut i: usize = 0;
                while i < values.len()
                    invariant
                        i <= values@.len(),
                        out@.len() == i,
                        *value_type == (ContextType::Array { items: *items }),
                        forall|j: int|
                            0 <= j < i ==> (#[trigger] out@[j])@ == redacted_as(
                                values@[j]@,
                                items@,
                                inherited,
                                minimum,
                            ),
                    decreases values@.len() - i,
                {
                    assert(decreases_to!(*value_type => value_type->items));
                    out.push(redact_type_value(&values[i], items, inherited, minimum));
                    i = i + 1;
                }
                let res = Value::Array(out);
                assert(res@->Array_0 =~= redacted_as(
                    value@,
                    value_type@,
                    inherited,
                    minimum,
                )->Array_0);
                res
            },
            _ => value.clone(),
        },
        _ => value.clone(),
    }
}

// ---------------------------------------------------------------------------
// The store
// ---------------------------------------------------------------------------
#[derive(Debug, PartialEq)]
pub struct ContextEntry {
    pub scope: ContextScope,
    pub context: ContextValue,
}

#[derive(Debug, PartialEq)]
pub struct ContextStore {
    pub version: u32,
    pub entries: Vec<ContextEntry>,
}

pub struct StoreView {
    pub version: u32,
    pub entries: Seq<(ScopeView, ContextView)>,
}

pub open spec fn entry_views(entries: Seq<ContextEntry>) -> Seq<(ScopeView, ContextView)> {
    entries.map_values(|e: ContextEntry| (e.scope@, e.context@))
}

impl Default for ContextStore {
    fn default() -> (res: Self)
        ensures
            res@ == StoreView::empty(),
    {
        let res = ContextStore { version: CONTEXT_SCHEMA_VERSION, entries: Vec::new() };
        assert(res@.entries =~= Seq::empty());
        res
    }
}

#[derive(Debug)]
pub struct ResolvedContextValue<'a> {
    pub value: &'a Value,
    pub provenance: &'a ContextProvenance,
    pub sensitivity: Sensitivity,
}

#[derive(Debug, PartialEq, Eq)]
pub enum ContextLookupError {
    MissingScope(ContextScope),
    MissingSegment { reference: FieldRef, at: usize },
    InvalidVersion { found: u32, supported: u32 },
    AmbiguousTypeDeclaration { scope: ContextScope },
}

pub struct FoundView {
    pub value: ValueView,
    pub provenance: ProvenanceView,
    pub sensitivity: Sensitivity,
}

pub enum LookupErrorView {
    MissingScope(ScopeView),
    MissingSegment { reference: FieldRefView, at: nat },
    InvalidVersion { found: u32, supported: u32 },
    AmbiguousTypeDeclaration { scope: ScopeView },
}

impl<'a> ResolvedContextValue<'a> {
    pub open spec fn view(&self) -> FoundView {
        FoundView {
            value: self.value@,
            provenance: self.provenance@,
            sensitivity: self.sensitivity,
        }
    }
}

impl ContextLookupError {
    pub open spec fn view(&self) -> LookupErrorView {
        match self {
            ContextLookupError::MissingScope(scope) => LookupErrorView::MissingScope(scope@),
            ContextLookupError::MissingSegment { reference, at } =>
                LookupErrorView::MissingSegment { reference: reference@, at: *at as nat },
            ContextLookupError::InvalidVersion { found, supported } =>
                LookupErrorView::InvalidVersion { found: *found, supported: *supported },
            ContextLookupError::AmbiguousTypeDeclaration { scope } =>
                LookupErrorView::AmbiguousTypeDeclaration { scope: scope@ },
        }
    }

    /// The message that describes the failed lookup.
    pub fn message(&self) -> (res: String)
        ensures
            res@ == self@.message(),
    {
        match self {
            ContextLookupError::MissingScope(scope) => {
                let mut out = text::joined("context scope ", &scope.debug());
                out.append(" is not available");
                out
            },
            ContextLookupError::MissingSegment { reference, at } => {
                let mut out = text::joined("context field ", &reference.debug());
                out.append(" is missing or has an incompatible value at segment ");
                out.append(&text::count_text(*at));
                out
            },
            ContextLookupError::InvalidVersion { found, supported } => {
                let mut out = text::joined("context version ", &text::decimal_text(*found as u64));
                out.append(" is not supported (supported: 1..=");
                out.append(&text::decimal_text(*supported as u64));
                out.append(")");
                out
            },
            ContextLookupError::AmbiguousTypeDeclaration { scope } => {
                let mut out = text::joined("context scope ", &scope.debug());
                out.append(" declares both schema and root_type");
                out
            },
        }
    }
}

impl LookupErrorView {
    pub open spec fn message(self) -> Seq<char> {
        match self {
            LookupErrorView::MissingScope(scope) => "context scope "@ + scope.debug()
                + " is not available"@,
            LookupErrorView::MissingSegment { reference, at } => "context field "@
                + reference.debug() + " is missing or has an incompatible value at segment "@
                + text::decimal(at),
            LookupErrorView::InvalidVersion { found, supported } => "context version "@
                + text::decimal(found as nat) + " is not supported (supported: 1..="@
                + text::decimal(supported as nat) + ")"@,
            LookupErrorView::AmbiguousTypeDeclaration { scope } => "context scope "@ + scope.debug()
                + " declares both schema and root_type"@,
        }
    }
}

pub open spec fn version_supported(version: u32) -> bool {
    0 < version <= CONTEXT_SCHEMA_VERSION
}

/// Follow a path through a JSON value; the first segment that leads nowhere
/// otherwise.
pub open spec fn walk(value: ValueView, path: Seq<SegmentView>, i: nat) -> Result<ValueView, nat>
    decreases path.len() - i,
{
    if i >= path.len() {
        Ok(value)
    } else {
        let next = match path[i as int] {
            SegmentView::Field { name } => value.member(name),
            SegmentView::Index { index } => value.item(index),
        };
        match next {
            Some(next) => walk(next, path, i + 1),
            None => Err(i),
        }
    }
}

impl StoreView {
    pub open spec fn empty() -> StoreView {
        StoreView { version: CONTEXT_SCHEMA_VERSION, entries: Seq::empty() }
    }

    pub open spec fn get(self, scope: ScopeView) -> Option<ContextView> {
        text_map::lookup(self.entries, scope)
    }

    /// The store with a context under a scope: in place of the one that was
    /// there, or at the end.
    pub open spec fn insert(self, scope: ScopeView, context: ContextView) -> StoreView {
        let i = text_map::index_of(self.entries, scope);
        StoreView {
            version: self.version,
            entries: if i < self.entries.len() {
                self.entries.update(i as int, (scope, context))
            } else {
                self.entries.push((scope, context))
            },
        }
    }

    /// What a reference leads to.
    pub open spec fn resolve(self, reference: FieldRefView) -> Result<FoundView, LookupErrorView> {
        if !version_supported(self.version) {
            Err(
                LookupErrorView::InvalidVersion {
                    found: self.version,
                    supported: CONTEXT_SCHEMA_VERSION,
                },
            )
        } else {
            match self.get(reference.scope) {
                None => Err(LookupErrorView::MissingScope(reference.scope)),
                Some(context) => if !version_supported(context.version) {
                    Err(
                        LookupErrorView::InvalidVersion {
                            found: context.version,
                            supported: CONTEXT_SCHEMA_VERSION,
                        },
                    )
                } else if context.ambiguous() {
                    Err(LookupErrorView::AmbiguousTypeDeclaration { scope: reference.scope })
                } else {
                    match walk(context.value, reference.segments, 0) {
                        Err(at) => Err(LookupErrorView::MissingSegment { reference, at }),
                        Ok(value) => Ok(
                            FoundView {
                                value,
                                provenance: context.provenance,
                                sensitivity: context.sensitivity.max(
                                    match context.declared(reference.segments) {
                                        Some(r) => r.sensitivity,
                                        None => Sensitivity::Public,
                                    },
                                ),
                            },
                        ),
                    }
                },
            }
        }
    }

    /// The declared type of what a reference leads to.
    pub open spec fn resolve_type(self, reference: FieldRefView) -> Option<ResolvedView> {
        match self.get(reference.scope) {
            Some(context) => if context.ambiguous() {
                None
            } else {
                context.declared(reference.segments)
            },
            None => None,
        }
    }
}

impl ContextStore {
    pub open spec fn view(&self) -> StoreView {
        StoreView { version: self.version, entries: entry_views(self.entries@) }
    }

    pub fn entries(&self) -> (res: &[ContextEntry])
        ensures
            res@ == self.entries@,
    {
        self.entries.as_slice()
    }

    fn position(&self, scope: &ContextScope) -> (at: usize)
        ensures
            at <= self.entries@.len(),
            at == text_map::index_of(self@.entries, scope@),
            at < self.entries@.len() ==> self.entries@[at as int].scope@ == scope@,
    {
        let mut i: usize = 0;
        while i < self.entries.len()
            invariant
                i <= self.entries@.len(),
                forall|j: int| 0 <= j < i ==> (#[trigger] self@.entries[j]).0 != scope@,
            decreases self.entries@.len() - i,
        {
            if self.entries[i].scope.same(scope) {
                proof {
                    text_map::lemma_index_of(self@.entries, scope@, i as int);
                }
                return i;
            }
            i = i + 1;
        }
        proof {
            text_map::lemma_index_of(self@.entries, scope@, i as int);
        }
        i
    }

    pub fn get(&self, scope: &ContextScope) -> (res: Option<&ContextValue>)
        ensures
            match res {
                Some(context) => self@.get(scope@) == Some(context@),
                None => self@.get(scope@) is None,
            },
    {
        let at: usize = self.position(scope);
        if at < self.entries.len() {
            Some(&self.entries[at].context)
        } else {
            None
        }
    }

    /// Store a context under a scope. What was there is handed back.
    pub fn insert(&mut self, scope: ContextScope, context: ContextValue) -> (res: Option<
        ContextValue,
    >)
        ensures
            final(self)@ == old(self)@.insert(scope@, context@),
            match res {
                Some(replaced) => old(self)@.get(scope@) == Some(replaced@),
                None => old(self)@.get(scope@) is None,
            },
    {
        let at: usize = self.position(&scope);
        let ghost before = self@;
        if at < self.entries.len() {
            let mut replaced = ContextEntry { scope, context };
            let ghost new_entry = replaced;
            let ghost entries = self.entries@;
            std::mem::swap(&mut replaced, &mut self.entries[at]);
            assert(self.entries@ =~= entries.update(at as int, new_entry));
            assert(self@.entries =~= before.entries.update(at as int, (scope@, context@)));
            Some(replaced.context)
        } else {
            self.entries.push(ContextEntry { scope, context });
            assert(self@.entries =~= before.entries.push((scope@, context@)));
            None
        }
    }

    pub fn resolve(&self, reference: &FieldRef) -> (res: Result<
        ResolvedContextValue<'_>,
        ContextLookupError,
    >)
        ensures
            match res {
                Ok(found) => self@.resolve(reference@) == Ok::<_, LookupErrorView>(found@),
                Err(error) => self@.resolve(reference@) == Err::<FoundView, _>(error@),
            },
    {
        if self.version == 0 || self.version > CONTEXT_SCHEMA_VERSION {
            return Err(
                ContextLookupError::InvalidVersion {
                    found: self.version,
                    supported: CONTEXT_SCHEMA_VERSION,
                },
            );
        }
        let context = match self.get(&reference.scope) {
            Some(context) => context,
            None => {
                return Err(ContextLookupError::MissingScope(reference.scope.clone()));
            },
        };
        if context.version == 0 || context.version > CONTEXT_SCHEMA_VERSION {
            return Err(
                ContextLookupError::InvalidVersion {
                    found: context.version,
                    supported: CONTEXT_SCHEMA_VERSION,
                },
            );
        }
        if context.has_ambiguous_type_declaration() {
            return Err(
                ContextLookupError::AmbiguousTypeDeclaration { scope: reference.scope.clone() },
            );
        }
        let mut value = &context.value;
        let mut i: usize = 0;
        while i < reference.segments.len()
            invariant
                i <= reference.segments@.len(),
                walk(context@.value, reference@.segments, 0) == walk(
                    value@,
                    reference@.segments,
                    i as nat,
                ),
                version_supported(self.version),
                version_supported(context.version),
                !context@.ambiguous(),
                self@.get(reference@.scope) == Some(context@),
            decreases reference.segments@.len() - i,
        {
            assert(reference@.segments[i as int] == reference.segments@[i as int]@);
            let next = match &reference.segments[i] {
                ContextPathSegment::Field { name } => value.member(name),
                ContextPathSegment::Index { index } => value.item(*index),
            };
            match next {
                Some(next) => {
                    value = next;
                },
                None => {
                    return Err(
                        ContextLookupError::MissingSegment { reference: reference.clone(), at: i },
                    );
                },
            }
            i = i + 1;
        }
        proof {
            assert(path_from(reference.segments@, 0) =~= reference@.segments);
        }
        let declared = match &context.root_type {
            Some(value_type) => match resolve_type_schema(
                value_type,
                &reference.segments,
                0,
                true,
                false,
                Sensitivity::Public,
            ) {
                Some(r) => r.sensitivity,
                None => Sensitivity::Public,
            },
            None => match &context.schema {
                Some(schema) => {
                    if reference.segments.len() == 0 {
                        let sensitivity = aggregate_object_sensitivity(schema);
                        assert(Sensitivity::Public.max(sensitivity) == sensitivity);
                        sensitivity
                    } else {
                        match schema.resolve(&reference.segments) {
                            Some(r) => r.sensitivity,
                            None => Sensitivity::Public,
                        }
                    }
                },
                None => Sensitivity::Public,
            },
        };
        Ok(
            ResolvedContextValue {
                value,
                provenance: &context.provenance,
                sensitivity: context.sensitivity.combine(declared),
            },
        )
    }

    /// The declared type of a field. The root of an object scope has no
    /// borrowed type.
    pub fn resolve_schema(&self, reference: &FieldRef) -> (res: Option<ResolvedSchema<'_>>)
        ensures
            res matches Some(r) ==> self@.resolve_type(reference@) == Some(r@),
            res is None <==> (self@.resolve_type(reference@) is None || (self@.get(
                reference@.scope,
            )->0.root_type is None && reference@.segments.len() == 0)),
    {
        let context = match self.get(&reference.scope) {
            Some(context) => context,
            None => {
                return None;
            },
        };
        if context.has_ambiguous_type_declaration() {
            return None;
        }
        proof {
            assert(path_from(reference.segments@, 0) =~= reference@.segments);
        }
        match &context.root_type {
            Some(value_type) => resolve_type_schema(
                value_type,
                &reference.segments,
                0,
                true,
                false,
                Sensitivity::Public,
            ),
            None => match &context.schema {
                Some(schema) => schema.resolve(&reference.segments),
                None => None,
            },
        }
    }

    /// Resolve an entire context root or a nested field to owned type
    /// information suitable for expression checking.
    pub fn resolve_type_owned(&self, reference: &FieldRef) -> (res: Option<ResolvedSchemaOwned>)
        ensures
            res matches Some(r) ==> self@.resolve_type(reference@) == Some(r@),
            (res is Some) == (self@.resolve_type(reference@) is Some),
    {
        let context = match self.get(&reference.scope) {
            Some(context) => context,
            None => {
                return None;
            },
        };
        if context.has_ambiguous_type_declaration() {
            return None;
        }
        proof {
            assert(path_from(reference.segments@, 0) =~= reference@.segments);
        }
        match &context.root_type {
            Some(value_type) => match resolve_type_schema(
                value_type,
                &reference.segments,
                0,
                true,
                false,
                Sensitivity::Public,
            ) {
                Some(r) => Some(r.to_owned()),
                None => None,
            },
            None => match &context.schema {
                Some(schema) => schema.resolve_owned(&reference.segments),
                None => None,
            },
        }
    }
}

// ---------------------------------------------------------------------------
// Laws
// ---------------------------------------------------------------------------
/// A lookup gives back what was stored last under the scope, and storing under
/// one scope leaves every other as it was.
pub proof fn law_insert_get(store: StoreView, scope: ScopeView, context: ContextView)
    ensures
        store.insert(scope, context).get(scope) == Some(context),
        forall|other: ScopeView|
            other != scope ==> store.insert(scope, context).get(other) == #[trigger] store.get(
                other,
            ),
{
    let after = store.insert(scope, context);
    let at = text_map::index_of(store.entries, scope) as int;
    text_map::lemma_found(store.entries, scope);
    text_map::lemma_index_of(after.entries, scope, at);
    assert forall|other: ScopeView| other != scope implies after.get(other)
        == #[trigger] store.get(other) by {
        let k = text_map::index_of(store.entries, other) as int;
        text_map::lemma_found(store.entries, other);
        if k < store.entries.len() {
            text_map::lemma_index_of(after.entries, other, k);
        } else {
            text_map::lemma_index_of(after.entries, other, after.entries.len() as int);
        }
    }
}

/// Each scope occurs once in a store that is built by insertions.
pub proof fn law_insert_keeps_scopes_distinct(
    store: StoreView,
    scope: ScopeView,
    context: ContextView,
)
    requires
        distinct_scopes(store),
    ensures
        distinct_scopes(store.insert(scope, context)),
{
    text_map::lemma_found(store.entries, scope);
}

pub open spec fn distinct_scopes(store: StoreView) -> bool {
    forall|i: int, j: int|
        0 <= i < j < store.entries.len() ==> (#[trigger] store.entries[i]).0
            != (#[trigger] store.entries[j]).0
}

/// What is found under a reference is at least as sensitive as its context
/// root and as its declared type.
pub proof fn law_lookup_sensitivity(store: StoreView, reference: FieldRefView)
    ensures
        store.resolve(reference) matches Ok(found) ==> {
            let context = store.get(reference.scope)->0;
            &&& found.sensitivity.rank() >= context.sensitivity.rank()
            &&& context.declared(reference.segments) matches Some(r)
                ==> found.sensitivity.rank() >= r.sensitivity.rank()
        },
{
}

/// Redaction that has nothing to hide changes nothing: a type below which
/// nothing reaches the sensitivity leaves a value as it is.
pub proof fn law_redaction_keeps_the_rest(
    value: ValueView,
    t: TypeView,
    inherited: Sensitivity,
    minimum: Sensitivity,
)
    requires
        t.sensitivity().rank() < minimum.rank(),
        inherited.rank() < minimum.rank(),
    ensures
        redacted_as(value, t, inherited, minimum) == value,
    decreases t,
{
    match t {
        TypeView::Array { items } => match value {
            ValueView::Array(values) => {
                assert forall|i: int| 0 <= i < values.len() implies redacted_as(
                    #[trigger] values[i],
                    *items,
                    inherited,
                    minimum,
                ) == values[i] by {
                    law_redaction_keeps_the_rest(values[i], *items, inherited, minimum);
                }
                assert(redacted_as(value, t, inherited, minimum)->Array_0 =~= values);
            },
            _ => {},
        },
        TypeView::Object { schema } => {
            lemma_object_untouched(value, *schema, inherited, minimum);
        },
        _ => {},
    }
}

proof fn lemma_object_untouched(
    value: ValueView,
    schema: SchemaView,
    inherited: Sensitivity,
    minimum: Sensitivity,
)
    requires
        schema.sensitivity().rank() < minimum.rank(),
        inherited.rank() < minimum.rank(),
    ensures
        redacted_object(value, schema, inherited, minimum) == value,
    decreases schema,
{
    match value {
        ValueView::Object(members) => {
            let after = redacted_object(value, schema, inherited, minimum)->Object_0;
            assert forall|i: int| 0 <= i < members.len() implies #[trigger] after[i]
                == members[i] by {
                match text_map::lookup(schema.fields, members[i].0) {
                    Some(field) => {
                        text_map::lemma_found(schema.fields, members[i].0);
                        let at = text_map::index_of(schema.fields, members[i].0) as int;
                        resolve::lemma_field_within(schema.fields, at);
                        assert(decreases_to!(schema => schema.fields[at].1.value_type));
                        law_redaction_keeps_the_rest(
                            members[i].1,
                            field.value_type,
                            inherited.max(field.sensitivity),
                            minimum,
                        );
                    },
                    None => match schema.additional_fields {
                        AdditionalView::Typed(extra) => {
                            law_redaction_keeps_the_rest(members[i].1, extra, inherited, minimum);
                        },
                        _ => {},
                    },
                }
            }
            assert(after =~= members);
        },
        _ => {},
    }
}

/// Redacting twice hides no more than redacting once.
pub proof fn law_redaction_is_idempotent(
    value: ValueView,
    t: TypeView,
    inherited: Sensitivity,
    minimum: Sensitivity,
)
    ensures
        redacted_as(redacted_as(value, t, inherited, minimum), t, inherited, minimum)
            == redacted_as(value, t, inherited, minimum),
    decreases t,
{
    match t {
        TypeView::Array { items } => match value {
            ValueView::Array(values) => {
                let once = redacted_as(value, t, inherited, minimum)->Array_0;
                let twice = redacted_as(
                    redacted_as(value, t, inherited, minimum),
                    t,
                    inherited,
                    minimum,
                )->Array_0;
                assert forall|i: int| 0 <= i < values.len() implies twice[i] == once[i] by {
                    law_redaction_is_idempotent(values[i], *items, inherited, minimum);
                }
                assert(twice =~= once);
            },
            _ => {},
        },
        TypeView::Object { schema } => {
            lemma_object_idempotent(value, *schema, inherited, minimum);
        },
        _ => {},
    }
}

proof fn lemma_object_idempotent(
    value: ValueView,
    schema: SchemaView,
    inherited: Sensitivity,
    minimum: Sensitivity,
)
    ensures
        redacted_object(
            redacted_object(value, schema, inherited, minimum),
            schema,
            inherited,
            minimum,
        ) == redacted_object(value, schema, inherited, minimum),
    decreases schema,
{
    match value {
        ValueView::Object(members) => {
            let once = redacted_object(value, schema, inherited, minimum)->Object_0;
            let twice = redacted_object(
                redacted_object(value, schema, inherited, minimum),
                schema,
                inherited,
                minimum,
            )->Object_0;
            assert forall|i: int| 0 <= i < members.len() implies #[trigger] twice[i] == once[i] by {
                assert(once[i].0 == members[i].0);
                match text_map::lookup(schema.fields, members[i].0) {
                    Some(field) => {
                        text_map::lemma_found(schema.fields, members[i].0);
                        let at = text_map::index_of(schema.fields, members[i].0) as int;
                        assert(decreases_to!(schema => schema.fields[at].1.value_type));
                        law_redaction_is_idempotent(
                            members[i].1,
                            field.value_type,
                            inherited.max(field.sensitivity),
                            minimum,
                        );
                    },
                    None => match schema.additional_fields {
                        AdditionalView::Typed(extra) => {
                            law_redaction_is_idempotent(members[i].1, extra, inherited, minimum);
                        },
                        _ => {},
                    },
                }
            }
            assert(twice =~= once);
        },
        _ => {},
    }
}

proof fn lemma_walk_on(value: ValueView, path: Seq<SegmentView>, more: SegmentView, i: nat)
    requires
        i <= path.len(),
    ensures
        match walk(value, path, i) {
            Ok(found) => match more {
                SegmentView::Field { name } => walk(value, path.push(more), i) == match found.member(
                    name,
                ) {
                    Some(next) => Ok::<ValueView, nat>(next),
                    None => Err::<ValueView, nat>(path.len()),
                },
                SegmentView::Index { index } => walk(value, path.push(more), i) == match found.item(
                    index,
                ) {
                    Some(next) => Ok::<ValueView, nat>(next),
                    None => Err::<ValueView, nat>(path.len()),
                },
            },
            Err(at) => walk(value, path.push(more), i) == Err::<ValueView, nat>(at),
        },
    decreases path.len() - i,
{
    let longer = path.push(more);
    if i < path.len() {
        assert(longer[i as int] == path[i as int]);
        let next = match path[i as int] {
            SegmentView::Field { name } => value.member(name),
            SegmentView::Index { index } => value.item(index),
        };
        match next {
            Some(next) => lemma_walk_on(next, path, more, i + 1),
            None => {},
        }
    } else {
        assert(longer[i as int] == more);
        reveal_with_fuel(walk, 2);
    }
}

/// A reference without segments leads to the whole value of its scope. One with a further
/// segment leads to the member of that name, or to the item at that place, of what the
/// reference without it leads to, and nowhere if there is none; with the provenance of the
/// scope either way.
pub proof fn law_references_lead_step_by_step(
    store: StoreView,
    scope: ScopeView,
    path: Seq<SegmentView>,
    more: SegmentView,
)
    ensures
        ({
            let whole = store.resolve(FieldRefView { scope, segments: Seq::empty() });
            let short = store.resolve(FieldRefView { scope, segments: path });
            let long = store.resolve(FieldRefView { scope, segments: path.push(more) });
            &&& whole matches Ok(found) ==> store.get(scope) matches Some(context) && found.value
                == context.value && found.provenance == context.provenance
            &&& short matches Ok(found) ==> {
                let next = match more {
                    SegmentView::Field { name } => found.value.member(name),
                    SegmentView::Index { index } => found.value.item(index),
                };
                match next {
                    Some(value) => long matches Ok(reached) && reached.value == value
                        && reached.provenance == found.provenance,
                    None => long matches Err(e) && e is MissingSegment,
                }
            }
            &&& short is Err ==> long is Err
        }),
{
    match store.get(scope) {
        Some(context) => lemma_walk_on(context.value, path, more, 0),
        None => {},
    }
}

/// What is in a store of a version that is understood, under a scope whose type is declared at
/// most once, can be read whole; what is not there is missing.
pub proof fn law_stored_scope_is_read(store: StoreView, scope: ScopeView)
    ensures
        ({
            let whole = store.resolve(FieldRefView { scope, segments: Seq::empty() });
            &&& store.get(scope) is None ==> whole is Err
            &&& store.get(scope) matches Some(context) ==> (0 < store.version
                <= CONTEXT_SCHEMA_VERSION && 0 < context.version <= CONTEXT_SCHEMA_VERSION && !(
            context.schema is Some && context.root_type is Some) <==> whole is Ok)
            &&& whole matches Ok(found) ==> store.get(scope) matches Some(context)
                && found.sensitivity.rank() >= context.sensitivity.rank()
        }),
{
}

/// A member that is listed at or above a sensitivity is hidden, whatever it holds; the names of
/// the members stay, and so does a scalar that is listed below it.
pub proof fn law_redaction_hides(
    members: Seq<(Seq<char>, ValueView)>,
    schema: SchemaView,
    inherited: Sensitivity,
    minimum: Sensitivity,
    k: int,
)
    requires
        0 <= k < members.len(),
    ensures
        redacted_object(ValueView::Object(members), schema, inherited, minimum)
            matches ValueView::Object(after) && after.len() == members.len() && after[k].0
            == members[k].0 && (text_map::lookup(schema.fields, members[k].0) matches Some(field)
            ==> {
            &&& inherited.rank() >= minimum.rank() || field.sensitivity.rank() >= minimum.rank()
                ==> after[k].1 == ValueView::String("[REDACTED]"@)
            &&& inherited.rank() < minimum.rank() && field.sensitivity.rank() < minimum.rank()
                && !(field.value_type is Object) && !(field.value_type is Array) ==> after[k].1
                == members[k].1
        }),
{
    match text_map::lookup(schema.fields, members[k].0) {
        Some(field) => {
            let shown = redacted_field(members[k].1, field, inherited, minimum);
            let within = inherited.max(field.sensitivity);
            assert(within.rank() < minimum.rank() ==> shown == redacted_as(
                members[k].1,
                field.value_type,
                within,
                minimum,
            ));
        },
        None => {},
    }
}

/// A value that is at or above a sensitivity as a whole is hidden as a whole.
pub proof fn law_redaction_of_the_whole(context: ContextView, minimum: Sensitivity)
    ensures
        context.sensitivity.rank() >= minimum.rank() ==> context.redacted(minimum)
            == ValueView::String("[REDACTED]"@),
        context.sensitivity.rank() < minimum.rank() && context.root_type is None
            && context.schema is None ==> context.redacted(minimum) == context.value,
{
}

} // verus!
