//! The JSON documents of actions, with their members in the order in which they
//! are written out.
use vstd::prelude::*;

use crate::context::{
    segment_views, ContextPathSegment, ContextScope, FieldRef, FieldRefView, ScopeView,
    SegmentView,
};
use crate::json::{clone_values, member_views, value_views, Number, NumberView, Value, ValueView};
use crate::schema::{
    AdditionalProperties, AdditionalView, ContextType, FieldSchema, FieldView, ObjectSchema,
    SchemaView, SemanticFormat, Sensitivity, TypeView,
};
use crate::task::{
    Action, ActionView, AppBundleIdentity, AppBundleIdentityView, AppStoreOperation,
    ArchiveFormat, Checksum, ChecksumView, EncryptedSecretsSpec, EncryptedSecretsSpecView,
    GithubAccountInput, GithubAccountInputView, GithubContextInput, GithubContextInputView,
    GithubRepositoryInput, GithubRepositoryInputView, LicenseMethod, LicenseProvider,
    NpmRegistryFileSpec, NpmRegistryFileSpecView, NugetRegistryFileSpec,
    NugetRegistryFileSpecView, PathExpectation, PathExpectationView, PathKind, ReleaseChannel,
    ScriptInterpreter, ShellMode, WriteConflictPolicy, github_repository_input_views,
    optional_app_bundle_identity, optional_path_expectation, optional_ref, text_entries,
};
use crate::text::{owned, text_views};
use crate::text_map::TextMap;

verus! {

// ---------------------------------------------------------------------------
// Objects
// ---------------------------------------------------------------------------
/// The members of an object that is being put together.
pub struct DocView {
    pub members: Seq<(Seq<char>, ValueView)>,
}

pub open spec fn doc() -> DocView {
    DocView { members: Seq::empty() }
}

pub open spec fn text(s: Seq<char>) -> ValueView {
    ValueView::String(s)
}

pub open spec fn count(n: u64) -> ValueView {
    ValueView::Number(NumberView::PosInt(n))
}

impl DocView {
    pub open spec fn with(self, name: Seq<char>, value: ValueView) -> DocView {
        DocView { members: self.members.push((name, value)) }
    }

    /// A member that is left out where it has no value.
    pub open spec fn maybe(self, name: Seq<char>, value: Option<ValueView>) -> DocView {
        match value {
            Some(value) => self.with(name, value),
            None => self,
        }
    }

    pub open spec fn maybe_text(self, name: Seq<char>, value: Option<Seq<char>>) -> DocView {
        match value {
            Some(value) => self.with(name, text(value)),
            None => self,
        }
    }

    pub open spec fn maybe_bool(self, name: Seq<char>, value: Option<bool>) -> DocView {
        match value {
            Some(value) => self.with(name, ValueView::Bool(value)),
            None => self,
        }
    }

    pub open spec fn maybe_count(self, name: Seq<char>, value: Option<u64>) -> DocView {
        match value {
            Some(value) => self.with(name, count(value)),
            None => self,
        }
    }

    pub open spec fn value(self) -> ValueView {
        ValueView::Object(self.members)
    }
}

struct Doc {
    members: Vec<(String, Value)>,
}

impl Doc {
    spec fn view(&self) -> DocView {
        DocView { members: member_views(self.members@) }
    }

    fn new() -> (res: Self)
        ensures
            res@ == doc(),
    {
        let res = Doc { members: Vec::new() };
        assert(member_views(res.members@) =~= Seq::empty());
        res
    }

    fn with(self, name: &str, value: Value) -> (res: Self)
        ensures
            res@ == self@.with(name@, value@),
    {
        let ghost before = self@;
        let ghost added = value@;
        let mut members = self.members;
        members.push((owned(name), value));
        assert(member_views(members@) =~= before.members.push((name@, added)));
        Doc { members }
    }

    fn maybe(self, name: &str, value: Option<Value>) -> (res: Self)
        ensures
            res@ == self@.maybe(name@, optional_value(value)),
    {
        match value {
            Some(value) => self.with(name, value),
            None => self,
        }
    }

    fn maybe_text(self, name: &str, value: &Option<String>) -> (res: Self)
        ensures
            res@ == self@.maybe_text(name@, crate::schema::optional_text(*value)),
    {
        match value {
            Some(value) => self.with(name, Value::String(value.clone())),
            None => self,
        }
    }

    fn maybe_bool(self, name: &str, value: Option<bool>) -> (res: Self)
        ensures
            res@ == self@.maybe_bool(name@, value),
    {
        match value {
            Some(value) => self.with(name, Value::Bool(value)),
            None => self,
        }
    }

    fn maybe_count(self, name: &str, value: Option<u64>) -> (res: Self)
        ensures
            res@ == self@.maybe_count(name@, value),
    {
        match value {
            Some(value) => self.with(name, count_value(value)),
            None => self,
        }
    }

    fn value(self) -> (res: Value)
        ensures
            res@ == self@.value(),
    {
        Value::Object(TextMap { entries: self.members })
    }
}

pub open spec fn optional_value(value: Option<Value>) -> Option<ValueView> {
    match value {
        Some(value) => Some(value@),
        None => None,
    }
}

fn count_value(n: u64) -> (res: Value)
    ensures
        res@ == count(n),
{
    Value::Number(Number::PosInt(n))
}

fn text_value(s: &str) -> (res: Value)
    ensures
        res@ == text(s@),
{
    Value::String(owned(s))
}

pub open spec fn text_list(list: Seq<Seq<char>>) -> ValueView {
    ValueView::Array(list.map_values(|x: Seq<char>| text(x)))
}

fn text_list_value(list: &Vec<String>) -> (res: Value)
    ensures
        res@ == text_list(text_views(list@)),
{
    let mut items: Vec<Value> = Vec::new();
    let mut i: usize = 0;
    while i < list.len()
        invariant
            i <= list@.len(),
            items@.len() == i,
            forall|j: int| 0 <= j < i ==> (#[trigger] items@[j])@ == text(list@[j]@),
        decreases list@.len() - i,
    {
        assert((text_views(list@))[i as int] == list@[i as int]@);
        items.push(text_value(&list[i]));
        i = i + 1;
    }
    assert(value_views(items@) =~= (text_views(list@)).map_values(|x: Seq<char>| text(x)));
    Value::Array(items)
}

pub open spec fn code(n: u32) -> ValueView {
    count(n as u64)
}

fn code_value(n: u32) -> (res: Value)
    ensures
        res@ == code(n),
{
    count_value(n as u64)
}

pub open spec fn code_list(list: Seq<u32>) -> ValueView {
    ValueView::Array(list.map_values(|x: u32| code(x)))
}

fn code_list_value(list: &Vec<u32>) -> (res: Value)
    ensures
        res@ == code_list(list@),
{
    let mut items: Vec<Value> = Vec::new();
    let mut i: usize = 0;
    while i < list.len()
        invariant
            i <= list@.len(),
            items@.len() == i,
            forall|j: int| 0 <= j < i ==> (#[trigger] items@[j])@ == code(list@[j]),
        decreases list@.len() - i,
    {
        items.push(code_value(list[i]));
        i = i + 1;
    }
    assert(value_views(items@) =~= (list@).map_values(|x: u32| code(x)));
    Value::Array(items)
}

pub open spec fn text_object(entries: Seq<(Seq<char>, Seq<char>)>) -> ValueView {
    ValueView::Object(entries.map_values(|x: (Seq<char>, Seq<char>)| (x.0, text(x.1))))
}

fn text_object_value(map: &TextMap<String>) -> (res: Value)
    ensures
        res@ == text_object(text_entries(map.entries@)),
{
    let mut members: Vec<(String, Value)> = Vec::new();
    let mut i: usize = 0;
    while i < map.entries.len()
        invariant
            i <= map.entries@.len(),
            members@.len() == i,
            forall|j: int|
                0 <= j < i ==> (#[trigger] members@[j]).0@ == map.entries@[j].0@ && members@[j].1@
                    == text(map.entries@[j].1@),
        decreases map.entries@.len() - i,
    {
        members.push((map.entries[i].0.clone(), text_value(&map.entries[i].1)));
        i = i + 1;
    }
    assert(member_views(members@) =~= text_entries(map.entries@).map_values(
        |x: (Seq<char>, Seq<char>)| (x.0, text(x.1)),
    ));
    Value::Object(TextMap { entries: members })
}

// ---------------------------------------------------------------------------
// Types and references
// ---------------------------------------------------------------------------
impl SemanticFormat {
    pub open spec fn wire(self) -> Seq<char> {
        match self {
            SemanticFormat::Path => "path"@,
            SemanticFormat::FilePath => "file-path"@,
            SemanticFormat::DirectoryPath => "directory-path"@,
            SemanticFormat::Url => "url"@,
            SemanticFormat::GitUrl => "git-url"@,
            SemanticFormat::SecretRef => "secret-ref"@,
            SemanticFormat::Sha256 => "sha256"@,
            SemanticFormat::DateTime => "date-time"@,
            SemanticFormat::Duration => "duration"@,
            SemanticFormat::Email => "email"@,
            SemanticFormat::Hostname => "hostname"@,
            SemanticFormat::IpAddress => "ip-address"@,
            SemanticFormat::Uuid => "uuid"@,
            SemanticFormat::GitRef => "git-ref"@,
            SemanticFormat::RepositoryName => "repository-name"@,
            SemanticFormat::Identifier => "identifier"@,
            SemanticFormat::PackageName => "package-name"@,
            SemanticFormat::OpaqueId => "opaque-id"@,
        }
    }

    fn wire_text(self) -> (res: String)
        ensures
            res@ == self.wire(),
    {
        match self {
            SemanticFormat::Path => owned("path"),
            SemanticFormat::FilePath => owned("file-path"),
            SemanticFormat::DirectoryPath => owned("directory-path"),
            SemanticFormat::Url => owned("url"),
            SemanticFormat::GitUrl => owned("git-url"),
            SemanticFormat::SecretRef => owned("secret-ref"),
            SemanticFormat::Sha256 => owned("sha256"),
            SemanticFormat::DateTime => owned("date-time"),
            SemanticFormat::Duration => owned("duration"),
            SemanticFormat::Email => owned("email"),
            SemanticFormat::Hostname => owned("hostname"),
            SemanticFormat::IpAddress => owned("ip-address"),
            SemanticFormat::Uuid => owned("uuid"),
            SemanticFormat::GitRef => owned("git-ref"),
            SemanticFormat::RepositoryName => owned("repository-name"),
            SemanticFormat::Identifier => owned("identifier"),
            SemanticFormat::PackageName => owned("package-name"),
            SemanticFormat::OpaqueId => owned("opaque-id"),
        }
    }
}

impl Sensitivity {
    pub open spec fn wire(self) -> Seq<char> {
        match self {
            Sensitivity::Public => "public"@,
            Sensitivity::Internal => "internal"@,
            Sensitivity::Confidential => "confidential"@,
            Sensitivity::Secret => "secret"@,
        }
    }

    fn wire_text(self) -> (res: String)
        ensures
            res@ == self.wire(),
    {
        match self {
            Sensitivity::Public => owned("public"),
            Sensitivity::Internal => owned("internal"),
            Sensitivity::Confidential => owned("confidential"),
            Sensitivity::Secret => owned("secret"),
        }
    }
}

pub open spec fn type_document(t: TypeView) -> ValueView
    decreases t, 1int,
{
    match t {
        TypeView::Any => doc().with("kind"@, text("any"@)).value(),
        TypeView::Null => doc().with("kind"@, text("null"@)).value(),
        TypeView::Boolean => doc().with("kind"@, text("boolean"@)).value(),
        TypeView::Integer => doc().with("kind"@, text("integer"@)).value(),
        TypeView::Number => doc().with("kind"@, text("number"@)).value(),
        TypeView::String { format: Some(format) } => doc()
            .with("kind"@, text("string"@))
            .with("format"@, text(format.wire()))
            .value(),
        TypeView::String { format: None } => doc().with("kind"@, text("string"@)).value(),
        TypeView::Array { items } => doc()
            .with("kind"@, text("array"@))
            .with("items"@, type_document(*items))
            .value(),
        TypeView::Object { schema } => doc()
            .with("kind"@, text("object"@))
            .with("schema"@, schema_document(*schema))
            .value(),
    }
}

pub open spec fn field_document(field: FieldView) -> ValueView
    decreases field, 1int,
{
    let plain = doc()
        .with("type"@, type_document(field.value_type))
        .with("required"@, ValueView::Bool(field.required))
        .with("nullable"@, ValueView::Bool(field.nullable))
        .maybe_text("description"@, field.description);
    let marked = if field.sensitivity == Sensitivity::Public {
        plain
    } else {
        plain.with("sensitivity"@, text(field.sensitivity.wire()))
    };
    let listed = if field.allowed_values.len() > 0 {
        marked.with("allowed_values"@, ValueView::Array(field.allowed_values))
    } else {
        marked
    };
    listed.value()
}

pub open spec fn schema_document(schema: SchemaView) -> ValueView
    decreases schema, 1int,
{
    doc()
        .with("version"@, count(schema.version as u64))
        .maybe_text("id"@, schema.id)
        .with("fields"@, ValueView::Object(field_documents(schema.fields)))
        .with(
            "additional_fields"@,
            match schema.additional_fields {
                AdditionalView::Forbidden => ValueView::Bool(false),
                AdditionalView::Any => ValueView::Bool(true),
                AdditionalView::Typed(t) => type_document(t),
            },
        )
        .value()
}

pub open spec fn field_documents(fields: Seq<(Seq<char>, FieldView)>) -> Seq<
    (Seq<char>, ValueView),
>
    decreases fields, 0int,
{
    if fields.len() == 0 {
        Seq::empty()
    } else {
        field_documents(fields.drop_last()).push(
            (fields.last().0, field_document(fields.last().1)),
        )
    }
}

fn type_value(t: &ContextType) -> (res: Value)
    ensures
        res@ == type_document(t@),
    decreases t, 1int,
{
    match t {
        ContextType::Any => Doc::new().with("kind", text_value("any")).value(),
        ContextType::Null => Doc::new().with("kind", text_value("null")).value(),
        ContextType::Boolean => Doc::new().with("kind", text_value("boolean")).value(),
        ContextType::Integer => Doc::new().with("kind", text_value("integer")).value(),
        ContextType::Number => Doc::new().with("kind", text_value("number")).value(),
        ContextType::String { format } => match format {
            Some(format) => Doc::new()
                .with("kind", text_value("string"))
                .with("format", Value::String(format.wire_text()))
                .value(),
            None => Doc::new().with("kind", text_value("string")).value(),
        },
        ContextType::Array { items } => Doc::new()
            .with("kind", text_value("array"))
            .with("items", type_value(items))
            .value(),
        ContextType::Object { schema } => Doc::new()
            .with("kind", text_value("object"))
            .with("schema", schema_value(schema))
            .value(),
    }
}

fn field_value(field: &FieldSchema) -> (res: Value)
    ensures
        res@ == field_document(field@),
    decreases field, 1int,
{
    let plain = Doc::new()
        .with("type", type_value(&field.value_type))
        .with("required", Value::Bool(field.required))
        .with("nullable", Value::Bool(field.nullable))
        .maybe_text("description", &field.description);
    let marked = match field.sensitivity {
        Sensitivity::Public => plain,
        _ => plain.with("sensitivity", Value::String(field.sensitivity.wire_text())),
    };
    let listed = if field.allowed_values.len() > 0 {
        marked.with("allowed_values", Value::Array(clone_values(&field.allowed_values)))
    } else {
        marked
    };
    listed.value()
}

/// The serialized form of a schema.
pub fn schema_value(schema: &ObjectSchema) -> (res: Value)
    ensures
        res@ == schema_document(schema@),
    decreases schema, 1int,
{
    let additional = match &schema.additional_fields {
        AdditionalProperties::Forbidden => Value::Bool(false),
        AdditionalProperties::Any => Value::Bool(true),
        AdditionalProperties::Typed(t) => type_value(t),
    };
    let fields = schema_fields(schema);
    Doc::new()
        .with("version", count_value(schema.version as u64))
        .maybe_text("id", &schema.id)
        .with("fields", fields)
        .with("additional_fields", additional)
        .value()
}

fn schema_fields(schema: &ObjectSchema) -> (res: Value)
    ensures
        res@ == ValueView::Object(field_documents(schema@.fields)),
    decreases schema, 0int,
{
    let ghost fields = schema@.fields;
    let mut members: Vec<(String, Value)> = Vec::new();
    let mut i: usize = 0;
    assert(member_views(members@) =~= Seq::empty());
    while i < schema.fields.entries.len()
        invariant
            i <= schema.fields.entries@.len(),
            fields == schema@.fields,
            member_views(members@) == field_documents(fields.take(i as int)),
        decreases schema.fields.entries@.len() - i,
    {
        proof {
            assert(decreases_to!(*schema => schema.fields));
            assert(decreases_to!(schema.fields.entries@ => schema.fields.entries@[i as int].1));
            assert(fields.take(i + 1).drop_last() =~= fields.take(i as int));
            assert(fields.take(i + 1).last() == (
                schema.fields.entries@[i as int].0@,
                schema.fields.entries@[i as int].1@,
            ));
        }
        let ghost before = member_views(members@);
        let document = field_value(&schema.fields.entries[i].1);
        let ghost added = (schema.fields.entries@[i as int].0@, document@);
        members.push((schema.fields.entries[i].0.clone(), document));
        assert(member_views(members@) =~= before.push(added));
        i = i + 1;
    }
    assert(fields.take(i as int) =~= fields);
    Value::Object(TextMap { entries: members })
}

pub open spec fn scope_document(scope: ScopeView) -> ValueView {
    match scope {
        ScopeView::Scenario => doc().with("kind"@, text("scenario"@)).value(),
        ScopeView::Step { step_id } => doc()
            .with("kind"@, text("step"@))
            .with("step_id"@, text(step_id))
            .value(),
        ScopeView::LoopItem { step_id } => doc()
            .with("kind"@, text("loop-item"@))
            .with("step_id"@, text(step_id))
            .value(),
    }
}

fn scope_value(scope: &ContextScope) -> (res: Value)
    ensures
        res@ == scope_document(scope@),
{
    match scope {
        ContextScope::Scenario => Doc::new().with("kind", text_value("scenario")).value(),
        ContextScope::Step { step_id } => Doc::new()
            .with("kind", text_value("step"))
            .with("step_id", text_value(step_id))
            .value(),
        ContextScope::LoopItem { step_id } => Doc::new()
            .with("kind", text_value("loop-item"))
            .with("step_id", text_value(step_id))
            .value(),
    }
}

pub open spec fn segment_document(segment: SegmentView) -> ValueView {
    match segment {
        SegmentView::Field { name } => doc()
            .with("kind"@, text("field"@))
            .with("name"@, text(name))
            .value(),
        SegmentView::Index { index } => doc()
            .with("kind"@, text("index"@))
            .with("index"@, count(index as u64))
            .value(),
    }
}

fn segment_value(segment: &ContextPathSegment) -> (res: Value)
    ensures
        res@ == segment_document(segment@),
{
    match segment {
        ContextPathSegment::Field { name } => Doc::new()
            .with("kind", text_value("field"))
            .with("name", text_value(name))
            .value(),
        ContextPathSegment::Index { index } => Doc::new()
            .with("kind", text_value("index"))
            .with("index", count_value(*index as u64))
            .value(),
    }
}

pub open spec fn segment_list(list: Seq<SegmentView>) -> ValueView {
    ValueView::Array(list.map_values(|x: SegmentView| segment_document(x)))
}

fn segment_list_value(list: &Vec<ContextPathSegment>) -> (res: Value)
    ensures
        res@ == segment_list(segment_views(list@)),
{
    let mut items: Vec<Value> = Vec::new();
    let mut i: usize = 0;
    while i < list.len()
        invariant
            i <= list@.len(),
            items@.len() == i,
            forall|j: int| 0 <= j < i ==> (#[trigger] items@[j])@ == segment_document(list@[j]@),
        decreases list@.len() - i,
    {
        assert((segment_views(list@))[i as int] == list@[i as int]@);
        items.push(segment_value(&list[i]));
        i = i + 1;
    }
    assert(value_views(items@) =~= (segment_views(list@)).map_values(|x: SegmentView| segment_document(x)));
    Value::Array(items)
}

pub open spec fn ref_document(field: FieldRefView) -> ValueView {
    let whole = doc().with("scope"@, scope_document(field.scope));
    if field.segments.len() == 0 {
        whole.value()
    } else {
        whole.with("segments"@, segment_list(field.segments)).value()
    }
}

fn ref_value(field: &FieldRef) -> (res: Value)
    ensures
        res@ == ref_document(field@),
{
    let whole = Doc::new().with("scope", scope_value(&field.scope));
    if field.segments.len() == 0 {
        whole.value()
    } else {
        whole.with("segments", segment_list_value(&field.segments)).value()
    }
}

pub open spec fn optional_ref_document(x: Option<FieldRefView>) -> Option<ValueView> {
    match x {
        Some(x) => Some(ref_document(x)),
        None => None,
    }
}

fn optional_ref_value(x: &Option<FieldRef>) -> (res: Option<Value>)
    ensures
        optional_value(res) == optional_ref_document(optional_ref(*x)),
{
    match x {
        Some(x) => Some(ref_value(x)),
        None => None,
    }
}

// ---------------------------------------------------------------------------
// Actions
// ---------------------------------------------------------------------------
impl AppStoreOperation {
    pub open spec fn wire(self) -> Seq<char> {
        match self {
            AppStoreOperation::Install => "install"@,
            AppStoreOperation::Get => "get"@,
        }
    }

    fn wire_text(self) -> (res: String)
        ensures
            res@ == self.wire(),
    {
        match self {
            AppStoreOperation::Install => owned("install"),
            AppStoreOperation::Get => owned("get"),
        }
    }
}

impl ArchiveFormat {
    pub open spec fn wire(self) -> Seq<char> {
        match self {
            ArchiveFormat::Auto => "auto"@,
            ArchiveFormat::Zip => "zip"@,
            ArchiveFormat::Tar => "tar"@,
            ArchiveFormat::TarGz => "tar-gz"@,
            ArchiveFormat::TarBz2 => "tar-bz2"@,
            ArchiveFormat::TarXz => "tar-xz"@,
        }
    }

    fn wire_text(self) -> (res: String)
        ensures
            res@ == self.wire(),
    {
        match self {
            ArchiveFormat::Auto => owned("auto"),
            ArchiveFormat::Zip => owned("zip"),
            ArchiveFormat::Tar => owned("tar"),
            ArchiveFormat::TarGz => owned("tar-gz"),
            ArchiveFormat::TarBz2 => owned("tar-bz2"),
            ArchiveFormat::TarXz => owned("tar-xz"),
        }
    }
}

impl LicenseMethod {
    pub open spec fn wire(self) -> Seq<char> {
        match self {
            LicenseMethod::VendorUi => "vendor-ui"@,
        }
    }

    fn wire_text(self) -> (res: String)
        ensures
            res@ == self.wire(),
    {
        match self {
            LicenseMethod::VendorUi => owned("vendor-ui"),
        }
    }
}

impl LicenseProvider {
    pub open spec fn wire(self) -> Seq<char> {
        match self {
            LicenseProvider::LightBurn => "light-burn"@,
        }
    }

    fn wire_text(self) -> (res: String)
        ensures
            res@ == self.wire(),
    {
        match self {
            LicenseProvider::LightBurn => owned("light-burn"),
        }
    }
}

impl PathKind {
    pub open spec fn wire(self) -> Seq<char> {
        match self {
            PathKind::File => "file"@,
            PathKind::Directory => "directory"@,
            PathKind::Symlink => "symlink"@,
            PathKind::Other => "other"@,
        }
    }

    fn wire_text(self) -> (res: String)
        ensures
            res@ == self.wire(),
    {
        match self {
            PathKind::File => owned("file"),
            PathKind::Directory => owned("directory"),
            PathKind::Symlink => owned("symlink"),
            PathKind::Other => owned("other"),
        }
    }
}

impl ReleaseChannel {
    pub open spec fn wire(self) -> Seq<char> {
        match self {
            ReleaseChannel::Release => "release"@,
            ReleaseChannel::Beta => "beta"@,
        }
    }

    fn wire_text(self) -> (res: String)
        ensures
            res@ == self.wire(),
    {
        match self {
            ReleaseChannel::Release => owned("release"),
            ReleaseChannel::Beta => owned("beta"),
        }
    }
}

impl ScriptInterpreter {
    pub open spec fn wire(self) -> Seq<char> {
        match self {
            ScriptInterpreter::Sh => "sh"@,
            ScriptInterpreter::Bash => "bash"@,
            ScriptInterpreter::Powershell => "powershell"@,
        }
    }

    fn wire_text(self) -> (res: String)
        ensures
            res@ == self.wire(),
    {
        match self {
            ScriptInterpreter::Sh => owned("sh"),
            ScriptInterpreter::Bash => owned("bash"),
            ScriptInterpreter::Powershell => owned("powershell"),
        }
    }
}

impl ShellMode {
    pub open spec fn wire(self) -> Seq<char> {
        match self {
            ShellMode::Forbidden => "forbidden"@,
            ShellMode::Allow => "allow"@,
        }
    }

    fn wire_text(self) -> (res: String)
        ensures
            res@ == self.wire(),
    {
        match self {
            ShellMode::Forbidden => owned("forbidden"),
            ShellMode::Allow => owned("allow"),
        }
    }
}

impl WriteConflictPolicy {
    pub open spec fn wire(self) -> Seq<char> {
        match self {
            WriteConflictPolicy::Fail => "fail"@,
            WriteConflictPolicy::Replace => "replace"@,
        }
    }

    fn wire_text(self) -> (res: String)
        ensures
            res@ == self.wire(),
    {
        match self {
            WriteConflictPolicy::Fail => owned("fail"),
            WriteConflictPolicy::Replace => owned("replace"),
        }
    }
}

impl GithubAccountInputView {
    pub open spec fn document(self) -> ValueView {
        doc()
            .with("login"@, text(self.login))
            .value()
    }
}

impl GithubAccountInput {
    fn to_value(&self) -> (res: Value)
        ensures
            res@ == self@.document(),
    {
        Doc::new()
            .with("login", Value::String(self.login.clone()))
            .value()
    }
}

impl GithubRepositoryInputView {
    pub open spec fn document(self) -> ValueView {
        doc()
            .with("id"@, text(self.id))
            .with("owner"@, text(self.owner))
            .with("name"@, text(self.name))
            .with("full_name"@, text(self.full_name))
            .with("https_url"@, text(self.https_url))
            .with("ssh_url"@, text(self.ssh_url))
            .maybe_text("default_branch"@, self.default_branch)
            .with("private"@, ValueView::Bool(self.private))
            .with("archived"@, ValueView::Bool(self.archived))
            .value()
    }
}

impl GithubRepositoryInput {
    fn to_value(&self) -> (res: Value)
        ensures
            res@ == self@.document(),
    {
        Doc::new()
            .with("id", Value::String(self.id.clone()))
            .with("owner", Value::String(self.owner.clone()))
            .with("name", Value::String(self.name.clone()))
            .with("full_name", Value::String(self.full_name.clone()))
            .with("https_url", Value::String(self.https_url.clone()))
            .with("ssh_url", Value::String(self.ssh_url.clone()))
            .maybe_text("default_branch", &self.default_branch)
            .with("private", Value::Bool(self.private))
            .with("archived", Value::Bool(self.archived))
            .value()
    }
}

impl GithubContextInputView {
    pub open spec fn document(self) -> ValueView {
        doc()
            .with("account"@, self.account.document())
            .value()
    }
}

impl GithubContextInput {
    fn to_value(&self) -> (res: Value)
        ensures
            res@ == self@.document(),
    {
        Doc::new()
            .with("account", self.account.to_value())
            .value()
    }
}

impl ChecksumView {
    pub open spec fn document(self) -> ValueView {
        doc()
            .with("sha256"@, text(self.sha256))
            .value()
    }
}

impl Checksum {
    fn to_value(&self) -> (res: Value)
        ensures
            res@ == self@.document(),
    {
        Doc::new()
            .with("sha256", Value::String(self.sha256.clone()))
            .value()
    }
}

impl EncryptedSecretsSpecView {
    pub open spec fn document(self) -> ValueView {
        doc()
            .with("profile"@, text(self.profile))
            .with("username_env"@, text(self.username_env))
            .with("token_env"@, text(self.token_env))
            .value()
    }
}

impl EncryptedSecretsSpec {
    fn to_value(&self) -> (res: Value)
        ensures
            res@ == self@.document(),
    {
        Doc::new()
            .with("profile", Value::String(self.profile.clone()))
            .with("username_env", Value::String(self.username_env.clone()))
            .with("token_env", Value::String(self.token_env.clone()))
            .value()
    }
}

impl NpmRegistryFileSpecView {
    pub open spec fn document(self) -> ValueView {
        doc()
            .with("scope"@, text(self.scope))
            .with("registry"@, text(self.registry))
            .value()
    }
}

impl NpmRegistryFileSpec {
    fn to_value(&self) -> (res: Value)
        ensures
            res@ == self@.document(),
    {
        Doc::new()
            .with("scope", Value::String(self.scope.clone()))
            .with("registry", Value::String(self.registry.clone()))
            .value()
    }
}

impl NugetRegistryFileSpecView {
    pub open spec fn document(self) -> ValueView {
        doc()
            .with("public_source_name"@, text(self.public_source_name))
            .with("public_source"@, text(self.public_source))
            .with("source_name"@, text(self.source_name))
            .with("source"@, text(self.source))
            .with("package_patterns"@, text_list(self.package_patterns))
            .value()
    }
}

impl NugetRegistryFileSpec {
    fn to_value(&self) -> (res: Value)
        ensures
            res@ == self@.document(),
    {
        Doc::new()
            .with("public_source_name", Value::String(self.public_source_name.clone()))
            .with("public_source", Value::String(self.public_source.clone()))
            .with("source_name", Value::String(self.source_name.clone()))
            .with("source", Value::String(self.source.clone()))
            .with("package_patterns", text_list_value(&self.package_patterns))
            .value()
    }
}

impl AppBundleIdentityView {
    pub open spec fn document(self) -> ValueView {
        doc()
            .with("bundle_identifier"@, text(self.bundle_identifier))
            .with("team_identifier"@, text(self.team_identifier))
            .with("version"@, text(self.version))
            .value()
    }
}

impl AppBundleIdentity {
    fn to_value(&self) -> (res: Value)
        ensures
            res@ == self@.document(),
    {
        Doc::new()
            .with("bundle_identifier", Value::String(self.bundle_identifier.clone()))
            .with("team_identifier", Value::String(self.team_identifier.clone()))
            .with("version", Value::String(self.version.clone()))
            .value()
    }
}

impl PathExpectationView {
    pub open spec fn document(self) -> ValueView {
        doc()
            .maybe_bool("exists"@, self.exists)
            .maybe_text("kind"@, optional_path_kind_text(self.kind))
            .maybe_bool("empty"@, self.empty)
            .maybe_count("min_size_bytes"@, self.min_size_bytes)
            .maybe_count("max_size_bytes"@, self.max_size_bytes)
            .maybe_text("modified_at_or_after"@, self.modified_at_or_after)
            .maybe_text("modified_at_or_before"@, self.modified_at_or_before)
            .maybe_text("sha256"@, self.sha256)
            .value()
    }
}

impl PathExpectation {
    fn to_value(&self) -> (res: Value)
        ensures
            res@ == self@.document(),
    {
        Doc::new()
            .maybe_bool("exists", self.exists)
            .maybe("kind", optional_path_kind_value(self.kind))
            .maybe_bool("empty", self.empty)
            .maybe_count("min_size_bytes", self.min_size_bytes)
            .maybe_count("max_size_bytes", self.max_size_bytes)
            .maybe_text("modified_at_or_after", &self.modified_at_or_after)
            .maybe_text("modified_at_or_before", &self.modified_at_or_before)
            .maybe_text("sha256", &self.sha256)
            .value()
    }
}

pub open spec fn optional_app_bundle_identity_document(x: Option<AppBundleIdentityView>) -> Option<ValueView> {
    match x {
        Some(x) => Some(x.document()),
        None => None,
    }
}

fn optional_app_bundle_identity_value(x: &Option<AppBundleIdentity>) -> (res: Option<Value>)
    ensures
        optional_value(res) == optional_app_bundle_identity_document(optional_app_bundle_identity(*x)),
{
    match x {
        Some(x) => Some(x.to_value()),
        None => None,
    }
}

pub open spec fn optional_path_expectation_document(x: Option<PathExpectationView>) -> Option<ValueView> {
    match x {
        Some(x) => Some(x.document()),
        None => None,
    }
}

fn optional_path_expectation_value(x: &Option<PathExpectation>) -> (res: Option<Value>)
    ensures
        optional_value(res) == optional_path_expectation_document(optional_path_expectation(*x)),
{
    match x {
        Some(x) => Some(x.to_value()),
        None => None,
    }
}

pub open spec fn optional_path_kind_text(x: Option<PathKind>) -> Option<Seq<char>> {
    match x {
        Some(x) => Some(x.wire()),
        None => None,
    }
}

fn optional_path_kind_value(x: Option<PathKind>) -> (res: Option<Value>)
    ensures
        match res {
            Some(value) => x is Some && value@ == text(x->0.wire()),
            None => x is None,
        },
{
    match x {
        Some(x) => Some(Value::String(x.wire_text())),
        None => None,
    }
}

pub open spec fn github_repository_input_list(list: Seq<GithubRepositoryInputView>) -> ValueView {
    ValueView::Array(list.map_values(|x: GithubRepositoryInputView| x.document()))
}

fn github_repository_input_list_value(list: &Vec<GithubRepositoryInput>) -> (res: Value)
    ensures
        res@ == github_repository_input_list(github_repository_input_views(list@)),
{
    let mut items: Vec<Value> = Vec::new();
    let mut i: usize = 0;
    while i < list.len()
        invariant
            i <= list@.len(),
            items@.len() == i,
            forall|j: int| 0 <= j < i ==> (#[trigger] items@[j])@ == list@[j]@.document(),
        decreases list@.len() - i,
    {
        assert((github_repository_input_views(list@))[i as int] == list@[i as int]@);
        items.push(list[i].to_value());
        i = i + 1;
    }
    assert(value_views(items@) =~= (github_repository_input_views(list@)).map_values(|x: GithubRepositoryInputView| x.document()));
    Value::Array(items)
}

impl ActionView {
    /// The document of an action as it is written out: its kind as a tag, then its
    /// inputs in the order in which they are declared.
    #[verifier::opaque]
    pub open spec fn document(self) -> ValueView {
        match self {
            ActionView::GithubListRepositories => doc()
            .with("type"@, text("github-list-repositories"@))
            .value(),
            ActionView::GithubPreviewRepositories { selected_repositories } => doc()
            .with("type"@, text("github-preview-repositories"@))
            .with("selected_repositories"@, github_repository_input_list(selected_repositories))
            .value(),
            ActionView::GithubSelectRepositories { github, expected_account_login, repository_ids } => doc()
            .with("type"@, text("github-select-repositories"@))
            .with("github"@, github.document())
            .with("expected_account_login"@, text(expected_account_login))
            .with("repository_ids"@, text_list(repository_ids))
            .value(),
            ActionView::SelectArrayItems { source, item_type, selected_items } => doc()
            .with("type"@, text("select-array-items"@))
            .maybe("source"@, optional_ref_document(source))
            .with("item_type"@, type_document(item_type))
            .with("selected_items"@, ValueView::Array(selected_items))
            .value(),
            ActionView::ForEach { source_step, array_path, item, fields } => doc()
            .with("type"@, text("for-each"@))
            .with("source_step"@, text(source_step))
            .with("array_path"@, text(array_path))
            .with("item"@, text(item))
            .with("fields"@, text_list(fields))
            .value(),
            ActionView::ForEachGitCloneIfMissing { loop_step, repo, dest, branch } => doc()
            .with("type"@, text("for-each-git-clone-if-missing"@))
            .with("loop_step"@, text(loop_step))
            .with("repo"@, text(repo))
            .with("dest"@, text(dest))
            .maybe_text("branch"@, branch)
            .value(),
            ActionView::CreateDirectory(action) => doc()
            .with("type"@, text("create-directory"@))
            .with("path"@, text(action.path))
            .value(),
            ActionView::InspectPath(action) => doc()
            .with("type"@, text("inspect-path"@))
            .with("path"@, text(action.path))
            .with("recursive_size"@, ValueView::Bool(action.recursive_size))
            .with("sha256"@, ValueView::Bool(action.sha256))
            .maybe("expect"@, optional_path_expectation_document(action.expect))
            .value(),
            ActionView::CopyPath(action) => doc()
            .with("type"@, text("copy-path"@))
            .with("src"@, text(action.src))
            .with("dest"@, text(action.dest))
            .value(),
            ActionView::WriteFile(action) => doc()
            .with("type"@, text("write-file"@))
            .with("path"@, text(action.path))
            .with("content"@, text(action.content))
            .with("on_conflict"@, text(action.on_conflict.wire()))
            .value(),
            ActionView::RemovePath(action) => doc()
            .with("type"@, text("remove-path"@))
            .with("path"@, text(action.path))
            .value(),
            ActionView::GitClone { repo, dest, branch } => doc()
            .with("type"@, text("git-clone"@))
            .with("repo"@, text(repo))
            .with("dest"@, text(dest))
            .maybe_text("branch"@, branch)
            .value(),
            ActionView::GitInspect { repo, dest } => doc()
            .with("type"@, text("git-inspect"@))
            .with("repo"@, text(repo))
            .with("dest"@, text(dest))
            .value(),
            ActionView::GitCloneIfMissing { repo, dest, branch } => doc()
            .with("type"@, text("git-clone-if-missing"@))
            .with("repo"@, text(repo))
            .with("dest"@, text(dest))
            .maybe_text("branch"@, branch)
            .value(),
            ActionView::GitFetch { repo, dest, branch } => doc()
            .with("type"@, text("git-fetch"@))
            .with("repo"@, text(repo))
            .with("dest"@, text(dest))
            .with("branch"@, text(branch))
            .value(),
            ActionView::GitFastForward { repo, dest, branch } => doc()
            .with("type"@, text("git-fast-forward"@))
            .with("repo"@, text(repo))
            .with("dest"@, text(dest))
            .with("branch"@, text(branch))
            .value(),
            ActionView::BrewInstall { package, cask } => doc()
            .with("type"@, text("brew-install"@))
            .with("package"@, text(package))
            .with("cask"@, ValueView::Bool(cask))
            .value(),
            ActionView::RunCommand { program, args, cwd, env, shell } => doc()
            .with("type"@, text("run-command"@))
            .with("program"@, text(program))
            .with("args"@, text_list(args))
            .maybe_text("cwd"@, cwd)
            .with("env"@, text_object(env))
            .with("shell"@, text(shell.wire()))
            .value(),
            ActionView::RunScript { interpreter, script, args, cwd, env, success_exit_codes } => doc()
            .with("type"@, text("run-script"@))
            .with("interpreter"@, text(interpreter.wire()))
            .with("script"@, text(script))
            .with("args"@, text_list(args))
            .maybe_text("cwd"@, cwd)
            .with("env"@, text_object(env))
            .with("success_exit_codes"@, code_list(success_exit_codes))
            .value(),
            ActionView::ConfigurePackageRegistryFiles { secrets, npm, nuget } => doc()
            .with("type"@, text("configure-package-registry-files"@))
            .with("secrets"@, secrets.document())
            .with("npm"@, npm.document())
            .with("nuget"@, nuget.document())
            .value(),
            ActionView::DownloadFile { url, dest, checksum } => doc()
            .with("type"@, text("download-file"@))
            .with("url"@, text(url))
            .with("dest"@, text(dest))
            .with("checksum"@, checksum.document())
            .value(),
            ActionView::ExtractArchive { src, dest, format, max_unpacked_bytes } => doc()
            .with("type"@, text("extract-archive"@))
            .with("src"@, text(src))
            .with("dest"@, text(dest))
            .with("format"@, text(format.wire()))
            .with("max_unpacked_bytes"@, count(max_unpacked_bytes))
            .value(),
            ActionView::InstallDmg { dmg, app_name, target, identity } => doc()
            .with("type"@, text("install-dmg"@))
            .with("dmg"@, text(dmg))
            .maybe_text("app_name"@, app_name)
            .maybe_text("target"@, target)
            .maybe("identity"@, optional_app_bundle_identity_document(identity))
            .value(),
            ActionView::InstallPkg { pkg, target } => doc()
            .with("type"@, text("install-pkg"@))
            .with("pkg"@, text(pkg))
            .maybe_text("target"@, target)
            .value(),
            ActionView::MacosRequirements { minimum_version, require_rosetta_on_apple_silicon } => doc()
            .with("type"@, text("macos-requirements"@))
            .with("minimum_version"@, text(minimum_version))
            .with("require_rosetta_on_apple_silicon"@, ValueView::Bool(require_rosetta_on_apple_silicon))
            .value(),
            ActionView::AppStoreInstall(action) => doc()
            .with("type"@, text("app-store-install"@))
            .with("app_id"@, count(action.app_id))
            .with("operation"@, text(action.operation.wire()))
            .value(),
            ActionView::BambuStudioRelease(action) => doc()
            .with("type"@, text("bambu-studio-release"@))
            .with("channel"@, text(action.channel.wire()))
            .value(),
            ActionView::ActivateLicense(action) => doc()
            .with("type"@, text("activate-license"@))
            .with("provider"@, text(action.provider.wire()))
            .with("method"@, text(action.method.wire()))
            .value(),
        }
    }
}

impl Action {
    pub fn to_value(&self) -> (res: Value)
        ensures
            res@ == self@.document(),
    {
        reveal(ActionView::document);
        match self {
            Action::GithubListRepositories => Doc::new()
            .with("type", text_value("github-list-repositories"))
            .value(),
            Action::GithubPreviewRepositories { selected_repositories } => Doc::new()
            .with("type", text_value("github-preview-repositories"))
            .with("selected_repositories", github_repository_input_list_value(selected_repositories))
            .value(),
            Action::GithubSelectRepositories { github, expected_account_login, repository_ids } => Doc::new()
            .with("type", text_value("github-select-repositories"))
            .with("github", github.to_value())
            .with("expected_account_login", Value::String(expected_account_login.clone()))
            .with("repository_ids", text_list_value(repository_ids))
            .value(),
            Action::SelectArrayItems { source, item_type, selected_items } => Doc::new()
            .with("type", text_value("select-array-items"))
            .maybe("source", optional_ref_value(source))
            .with("item_type", type_value(item_type))
            .with("selected_items", Value::Array(clone_values(selected_items)))
            .value(),
            Action::ForEach { source_step, array_path, item, fields } => Doc::new()
            .with("type", text_value("for-each"))
            .with("source_step", Value::String(source_step.clone()))
            .with("array_path", Value::String(array_path.clone()))
            .with("item", Value::String(item.clone()))
            .with("fields", text_list_value(fields))
            .value(),
            Action::ForEachGitCloneIfMissing { loop_step, repo, dest, branch } => Doc::new()
            .with("type", text_value("for-each-git-clone-if-missing"))
            .with("loop_step", Value::String(loop_step.clone()))
            .with("repo", Value::String(repo.clone()))
            .with("dest", Value::String(dest.clone()))
            .maybe_text("branch", branch)
            .value(),
            Action::CreateDirectory(action) => Doc::new()
            .with("type", text_value("create-directory"))
            .with("path", Value::String(action.path.clone()))
            .value(),
            Action::InspectPath(action) => Doc::new()
            .with("type", text_value("inspect-path"))
            .with("path", Value::String(action.path.clone()))
            .with("recursive_size", Value::Bool(action.recursive_size))
            .with("sha256", Value::Bool(action.sha256))
            .maybe("expect", optional_path_expectation_value(&action.expect))
            .value(),
            Action::CopyPath(action) => Doc::new()
            .with("type", text_value("copy-path"))
            .with("src", Value::String(action.src.clone()))
            .with("dest", Value::String(action.dest.clone()))
            .value(),
            Action::WriteFile(action) => Doc::new()
            .with("type", text_value("write-file"))
            .with("path", Value::String(action.path.clone()))
            .with("content", Value::String(action.content.clone()))
            .with("on_conflict", Value::String(action.on_conflict.wire_text()))
            .value(),
            Action::RemovePath(action) => Doc::new()
            .with("type", text_value("remove-path"))
            .with("path", Value::String(action.path.clone()))
            .value(),
            Action::GitClone { repo, dest, branch } => Doc::new()
            .with("type", text_value("git-clone"))
            .with("repo", Value::String(repo.clone()))
            .with("dest", Value::String(dest.clone()))
            .maybe_text("branch", branch)
            .value(),
            Action::GitInspect { repo, dest } => Doc::new()
            .with("type", text_value("git-inspect"))
            .with("repo", Value::String(repo.clone()))
            .with("dest", Value::String(dest.clone()))
            .value(),
            Action::GitCloneIfMissing { repo, dest, branch } => Doc::new()
            .with("type", text_value("git-clone-if-missing"))
            .with("repo", Value::String(repo.clone()))
            .with("dest", Value::String(dest.clone()))
            .maybe_text("branch", branch)
            .value(),
            Action::GitFetch { repo, dest, branch } => Doc::new()
            .with("type", text_value("git-fetch"))
            .with("repo", Value::String(repo.clone()))
            .with("dest", Value::String(dest.clone()))
            .with("branch", Value::String(branch.clone()))
            .value(),
            Action::GitFastForward { repo, dest, branch } => Doc::new()
            .with("type", text_value("git-fast-forward"))
            .with("repo", Value::String(repo.clone()))
            .with("dest", Value::String(dest.clone()))
            .with("branch", Value::String(branch.clone()))
            .value(),
            Action::BrewInstall { package, cask } => Doc::new()
            .with("type", text_value("brew-install"))
            .with("package", Value::String(package.clone()))
            .with("cask", Value::Bool(*cask))
            .value(),
            Action::RunCommand { program, args, cwd, env, shell } => Doc::new()
            .with("type", text_value("run-command"))
            .with("program", Value::String(program.clone()))
            .with("args", text_list_value(args))
            .maybe_text("cwd", cwd)
            .with("env", text_object_value(env))
            .with("shell", Value::String(shell.wire_text()))
            .value(),
            Action::RunScript { interpreter, script, args, cwd, env, success_exit_codes } => Doc::new()
            .with("type", text_value("run-script"))
            .with("interpreter", Value::String(interpreter.wire_text()))
            .with("script", Value::String(script.clone()))
            .with("args", text_list_value(args))
            .maybe_text("cwd", cwd)
            .with("env", text_object_value(env))
            .with("success_exit_codes", code_list_value(success_exit_codes))
            .value(),
            Action::ConfigurePackageRegistryFiles { secrets, npm, nuget } => Doc::new()
            .with("type", text_value("configure-package-registry-files"))
            .with("secrets", secrets.to_value())
            .with("npm", npm.to_value())
            .with("nuget", nuget.to_value())
            .value(),
            Action::DownloadFile { url, dest, checksum } => Doc::new()
            .with("type", text_value("download-file"))
            .with("url", Value::String(url.clone()))
            .with("dest", Value::String(dest.clone()))
            .with("checksum", checksum.to_value())
            .value(),
            Action::ExtractArchive { src, dest, format, max_unpacked_bytes } => Doc::new()
            .with("type", text_value("extract-archive"))
            .with("src", Value::String(src.clone()))
            .with("dest", Value::String(dest.clone()))
            .with("format", Value::String(format.wire_text()))
            .with("max_unpacked_bytes", count_value(*max_unpacked_bytes))
            .value(),
            Action::InstallDmg { dmg, app_name, target, identity } => Doc::new()
            .with("type", text_value("install-dmg"))
            .with("dmg", Value::String(dmg.clone()))
            .maybe_text("app_name", app_name)
            .maybe_text("target", target)
            .maybe("identity", optional_app_bundle_identity_value(identity))
            .value(),
            Action::InstallPkg { pkg, target } => Doc::new()
            .with("type", text_value("install-pkg"))
            .with("pkg", Value::String(pkg.clone()))
            .maybe_text("target", target)
            .value(),
            Action::MacosRequirements { minimum_version, require_rosetta_on_apple_silicon } => Doc::new()
            .with("type", text_value("macos-requirements"))
            .with("minimum_version", Value::String(minimum_version.clone()))
            .with("require_rosetta_on_apple_silicon", Value::Bool(*require_rosetta_on_apple_silicon))
            .value(),
            Action::AppStoreInstall(action) => Doc::new()
            .with("type", text_value("app-store-install"))
            .with("app_id", count_value(action.app_id))
            .with("operation", Value::String(action.operation.wire_text()))
            .value(),
            Action::BambuStudioRelease(action) => Doc::new()
            .with("type", text_value("bambu-studio-release"))
            .with("channel", Value::String(action.channel.wire_text()))
            .value(),
            Action::ActivateLicense(action) => Doc::new()
            .with("type", text_value("activate-license"))
            .with("provider", Value::String(action.provider.wire_text()))
            .with("method", Value::String(action.method.wire_text()))
            .value(),
        }
    }
}

} // verus!
