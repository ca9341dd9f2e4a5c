//! Typed, side-effect-free expressions for scenario conditions.
//!
//! A tree must be checked against an [`ExpressionSchemaResolver`] before it can
//! be evaluated. Evaluation has no ambient capabilities: the only data it can
//! observe is supplied through an [`ExpressionValueResolver`], and all
//! potentially expensive work is bounded by [`ExpressionLimits`].
use vstd::prelude::*;

use crate::context::{FieldRef, FieldRefView};
use crate::expr::{
    common_expression_type, common_type, entry_views, equality_compatible,
    equality_types_compatible, expr_views, list_views, ordering_compatible,
    ordering_types_compatible, saturated, type_views, ComparisonOperator, ExprTypeView,
    ExprValueView, ExprView, ExpressionLimits, ExpressionType, ExpressionTypeKind, ExpressionV1,
    ExpressionValue, KindView, ReferenceV1, ReferenceView, RuleExprV1,
};
use crate::json::{finite_bits, is_finite_bits};
use crate::outcome::{
    limit_prefix, reported_type, unmarked, ExpressionSchemaResolver, SchemaResolutionError,
};
use crate::text;
use crate::text::{count_text, joined, owned, quoted, same_text, text_len, text_views};
use crate::text_map;
use crate::text_map::TextMap;

verus! {

#[derive(Debug, PartialEq, Eq)]
pub struct ExpressionDiagnostic {
    pub code: ExpressionDiagnosticCode,
    pub location: String,
    pub message: String,
}

#[derive(Debug, Clone, Copy, PartialEq, Eq, Structural)]
pub enum ExpressionDiagnosticCode {
    UnknownReference,
    UnknownLocal,
    UnknownField,
    TypeMismatch,
    ExpectedBoolean,
    InvalidLiteral,
    InvalidRegex,
    InvalidBinding,
    LimitExceeded,
}

pub struct DiagView {
    pub code: ExpressionDiagnosticCode,
    pub location: Seq<char>,
    pub message: Seq<char>,
}

impl ExpressionDiagnostic {
    pub open spec fn view(&self) -> DiagView {
        DiagView { code: self.code, location: self.location@, message: self.message@ }
    }

    pub fn new(code: ExpressionDiagnosticCode, location: &str, message: &str) -> (res: Self)
        ensures
            res@ == (DiagView { code, location: location@, message: message@ }),
    {
        ExpressionDiagnostic { code, location: owned(location), message: owned(message) }
    }
}

pub open spec fn diag_views(list: Seq<ExpressionDiagnostic>) -> Seq<DiagView> {
    list.map_values(|d: ExpressionDiagnostic| d.view())
}

// ---------------------------------------------------------------------------
// Regular expressions
// ---------------------------------------------------------------------------
/// `regex::Regex`, carried as it is: what is known of it is the pattern that it
/// was built from.
#[verifier::external_type_specification]
#[verifier::external_body]
pub struct ExRegex(regex::Regex);

/// What is wrong with a pattern under a size limit, if anything.
pub uninterp spec fn regex_fault(pattern: Seq<char>, limit: usize) -> Option<Seq<char>>;

/// The pattern that a regular expression was built from.
pub uninterp spec fn regex_pattern(regex: regex::Regex) -> Seq<char>;

/// Whether a pattern matches somewhere in a text.
pub uninterp spec fn regex_matches(pattern: Seq<char>, input: Seq<char>) -> bool;

/// `regex::RegexBuilder::build` with both size limits set: the expression that
/// was built from the pattern, or the text of the crate's error. Which patterns
/// are refused, and with what text, is left to the crate: the answer is named.
#[verifier::external_body]
fn build_regex(pattern: &str, limit: usize) -> (res: Result<regex::Regex, String>)
    ensures
        match res {
            Ok(regex) => regex_fault(pattern@, limit) is None && regex_pattern(regex) == pattern@,
            Err(message) => regex_fault(pattern@, limit) == Some(message@),
        },
{
    regex::RegexBuilder::new(pattern)
        .size_limit(limit)
        .dfa_size_limit(limit)
        .build()
        .map_err(|error| error.to_string())
}

/// `regex::Regex::is_match`: whether the expression matches somewhere in the
/// text. What a pattern matches is left to the crate: the answer is named, as
/// one that the pattern and the text alone decide.
#[verifier::external_body]
fn is_match(regex: &regex::Regex, input: &str) -> (res: bool)
    ensures
        res == regex_matches(regex_pattern(*regex), input@),
{
    regex.is_match(input)
}

// ---------------------------------------------------------------------------
// Checking: the model
// ---------------------------------------------------------------------------
/// Where the types of references come from: what is answered of a reference when
/// so many faults have been found. A reference that was answered with a type is
/// not asked about again, and each one that was not is a fault.
pub type SchemaSource = spec_fn(FieldRefView, nat) -> Result<ExprTypeView, Seq<char>>;

/// An answer of a resolver: to what it was, and how many faults had been found.
pub struct TypeReply {
    pub reference: FieldRefView,
    pub faults: nat,
    pub found: Result<ExprTypeView, Seq<char>>,
}

/// Whether a resolver may give an answer.
pub open spec fn may_reply<R: ExpressionSchemaResolver>(
    resolver: &R,
    limits: ExpressionLimits,
    reference: FieldRefView,
    found: Result<ExprTypeView, Seq<char>>,
) -> bool {
    exists|field: &FieldRef, res: Result<ExpressionType, SchemaResolutionError>|
        field@ == reference && #[trigger] call_ensures(
            R::resolve_schema_bounded,
            (resolver, field, limits),
            res,
        ) && reported_type(res) == found
}

/// A record of what a resolver answered: a reference that it gave a type is asked
/// about once, and any other once for each fault.
pub open spec fn replied<R: ExpressionSchemaResolver>(
    resolver: &R,
    limits: ExpressionLimits,
    record: Seq<TypeReply>,
) -> bool {
    &&& forall|i: int|
        0 <= i < record.len() ==> may_reply(
            resolver,
            limits,
            (#[trigger] record[i]).reference,
            record[i].found,
        )
    &&& forall|i: int, j: int|
        0 <= i < j < record.len() && (#[trigger] record[i]).reference == (
        #[trigger] record[j]).reference ==> record[i].found is Err && record[i].faults
            < record[j].faults
}

/// Whether answers are those of a record, as far as it goes.
#[verifier::opaque]
pub open spec fn agrees(schemas: SchemaSource, record: Seq<TypeReply>) -> bool {
    forall|i: int|
        0 <= i < record.len() ==> schemas((#[trigger] record[i]).reference, record[i].faults)
            == record[i].found
}

/// What the checker knows at a point of its walk.
pub struct CheckView {
    pub diagnostics: Seq<DiagView>,
    pub nodes: nat,
    pub bytes: nat,
    pub quantifiers: nat,
    pub locals: Seq<(Seq<char>, ExprTypeView)>,
    pub patterns: Seq<Seq<char>>,
    pub resolved: Seq<(FieldRefView, ExprTypeView)>,
}

pub open spec fn unchecked() -> CheckView {
    CheckView {
        diagnostics: Seq::empty(),
        nodes: 0,
        bytes: 0,
        quantifiers: 0,
        locals: Seq::empty(),
        patterns: Seq::empty(),
        resolved: Seq::empty(),
    }
}

impl CheckView {
    pub open spec fn report(
        self,
        code: ExpressionDiagnosticCode,
        location: Seq<char>,
        message: Seq<char>,
    ) -> CheckView {
        CheckView {
            diagnostics: self.diagnostics.push(DiagView { code, location, message }),
            ..self
        }
    }

    pub open spec fn has_limit(self, message: Seq<char>) -> bool {
        exists|i: int|
            0 <= i < self.diagnostics.len() && (#[trigger] self.diagnostics[i]).code
                == ExpressionDiagnosticCode::LimitExceeded && self.diagnostics[i].message == message
    }

    /// A limit is reported once, at the first place that hits it.
    pub open spec fn limit_once(self, location: Seq<char>, message: Seq<char>) -> CheckView {
        if self.has_limit(message) {
            self
        } else {
            self.report(ExpressionDiagnosticCode::LimitExceeded, location, message)
        }
    }

    pub open spec fn mismatch(
        self,
        location: Seq<char>,
        expected: Seq<char>,
        actual: ExprTypeView,
    ) -> CheckView {
        self.report(
            ExpressionDiagnosticCode::TypeMismatch,
            location,
            "expected "@ + expected + ", found "@ + actual.describe(),
        )
    }

    pub open spec fn require_bool(self, t: ExprTypeView, location: Seq<char>) -> CheckView {
        if t.kind is Bool || t.kind is Any {
            self
        } else {
            self.mismatch(location, "bool"@, t)
        }
    }

    pub open spec fn require_string(self, t: ExprTypeView, location: Seq<char>) -> CheckView {
        if t.kind is String || t.kind is Any {
            self
        } else {
            self.mismatch(location, "string"@, t)
        }
    }

    /// One more node, and whether it may be looked into.
    pub open spec fn visit(
        self,
        limits: ExpressionLimits,
        location: Seq<char>,
        depth: nat,
    ) -> (CheckView, bool) {
        let counted = CheckView { nodes: saturated(self.nodes + 1), ..self };
        let over_nodes = counted.nodes > limits.max_nodes;
        let after_nodes = if over_nodes {
            counted.limit_once(
                location,
                "expression exceeds node limit "@ + text::decimal(limits.max_nodes as nat),
            )
        } else {
            counted
        };
        let over_depth = depth > limits.max_depth;
        let after = if over_depth {
            after_nodes.limit_once(
                location,
                "expression exceeds depth limit "@ + text::decimal(limits.max_depth as nat),
            )
        } else {
            after_nodes
        };
        (after, !over_nodes && !over_depth)
    }

    pub open spec fn string(
        self,
        limits: ExpressionLimits,
        s: Seq<char>,
        location: Seq<char>,
    ) -> CheckView {
        let n = text::byte_len(s);
        if n > limits.max_string_bytes {
            self.limit_once(
                location,
                "string is "@ + text::decimal(n) + " bytes; limit is "@ + text::decimal(
                    limits.max_string_bytes as nat,
                ),
            )
        } else {
            let counted = CheckView { bytes: saturated(self.bytes + n), ..self };
            if counted.bytes > limits.max_string_bytes {
                counted.limit_once(
                    location,
                    "expression exceeds cumulative string-byte limit "@ + text::decimal(
                        limits.max_string_bytes as nat,
                    ),
                )
            } else {
                counted
            }
        }
    }

    pub open spec fn pattern(
        self,
        limits: ExpressionLimits,
        pattern: Seq<char>,
        location: Seq<char>,
    ) -> CheckView {
        let counted = self.string(limits, pattern, location);
        if text::byte_len(pattern) > limits.max_regex_pattern_bytes {
            counted.limit_once(
                location,
                "regex pattern is "@ + text::decimal(text::byte_len(pattern))
                    + " bytes; limit is "@ + text::decimal(limits.max_regex_pattern_bytes as nat),
            )
        } else if counted.patterns.contains(pattern) {
            counted
        } else {
            match regex_fault(pattern, limits.max_regex_compiled_bytes) {
                Some(message) => counted.report(
                    ExpressionDiagnosticCode::InvalidRegex,
                    location,
                    message,
                ),
                None => CheckView { patterns: counted.patterns.push(pattern), ..counted },
            }
        }
    }
}

/// The type of the innermost local of a name.
pub open spec fn local_type<T>(locals: Seq<(Seq<char>, T)>, name: Seq<char>) -> Option<T>
    decreases locals.len(),
{
    if locals.len() == 0 {
        None
    } else if locals.last().0 == name {
        Some(locals.last().1)
    } else {
        local_type(locals.drop_last(), name)
    }
}

/// The type of a field path below a local, from the `i`-th name on.
pub open spec fn local_path(
    limits: ExpressionLimits,
    st: CheckView,
    binding: Seq<char>,
    path: Seq<Seq<char>>,
    i: nat,
    current: ExprTypeView,
    location: Seq<char>,
) -> (CheckView, Option<ExprTypeView>)
    decreases path.len() - i,
{
    if i >= path.len() {
        (st, Some(current))
    } else {
        let name = path[i as int];
        if text::byte_len(name) > limits.max_string_bytes {
            (
                st.limit_once(
                    location,
                    "local path segment exceeds string limit "@ + text::decimal(
                        limits.max_string_bytes as nat,
                    ),
                ),
                None,
            )
        } else {
            match current.kind {
                KindView::Object(fields) => match text_map::lookup(fields, name) {
                    None => (
                        st.report(
                            ExpressionDiagnosticCode::UnknownField,
                            location,
                            "local binding "@ + text::debug_text(binding) + " has no field "@
                                + text::debug_text(name) + " at path segment "@ + text::decimal(i),
                        ),
                        None,
                    ),
                    Some(child) => local_path(
                        limits,
                        st,
                        binding,
                        path,
                        i + 1,
                        ExprTypeView {
                            kind: child.kind,
                            optional: child.optional || current.optional,
                            nullable: child.nullable || current.nullable,
                        },
                        location,
                    ),
                },
                KindView::Any => local_path(
                    limits,
                    st,
                    binding,
                    path,
                    i + 1,
                    ExprTypeView { kind: KindView::Any, optional: true, nullable: true },
                    location,
                ),
                _ => (
                    st.report(
                        ExpressionDiagnosticCode::TypeMismatch,
                        location,
                        "cannot select field "@ + text::debug_text(name) + " from "@
                            + current.describe(),
                    ),
                    None,
                ),
            }
        }
    }
}

/// The type of a reference.
pub open spec fn reference_type(
    schemas: SchemaSource,
    limits: ExpressionLimits,
    st: CheckView,
    reference: ReferenceView,
    location: Seq<char>,
) -> (CheckView, Option<ExprTypeView>) {
    match reference {
        ReferenceView::Context { field } => match text_map::lookup(st.resolved, field) {
            Some(t) => (st, Some(t)),
            None => match schemas(field, st.diagnostics.len()) {
                Ok(t) => (CheckView { resolved: st.resolved.push((field, t)), ..st }, Some(t)),
                Err(message) => (
                    st.report(
                        if text::has_prefix(message, limit_prefix()) {
                            ExpressionDiagnosticCode::LimitExceeded
                        } else {
                            ExpressionDiagnosticCode::UnknownReference
                        },
                        location,
                        unmarked(message),
                    ),
                    None,
                ),
            },
        },
        ReferenceView::Local { binding, path } => match local_type(st.locals, binding) {
            None => (
                st.report(
                    ExpressionDiagnosticCode::UnknownLocal,
                    location,
                    "local binding "@ + text::debug_text(binding) + " is not in scope"@,
                ),
                None,
            ),
            Some(root) => local_path(limits, st, binding, path, 0, root, location),
        },
    }
}

/// The type of a literal.
pub open spec fn literal_type(
    limits: ExpressionLimits,
    st: CheckView,
    value: ExprValueView,
    location: Seq<char>,
    depth: nat,
) -> (CheckView, Option<ExprTypeView>)
    decreases value, 1int,
{
    match value {
        ExprValueView::Null => (st, Some(ExprTypeView::required(KindView::Null))),
        ExprValueView::Bool(_) => (st, Some(ExprTypeView::required(KindView::Bool))),
        ExprValueView::Int(_) => (st, Some(ExprTypeView::required(KindView::Integer))),
        ExprValueView::UInt(_) => (st, Some(ExprTypeView::required(KindView::Integer))),
        ExprValueView::Float(bits) => if finite_bits(bits) {
            (st, Some(ExprTypeView::required(KindView::Number)))
        } else {
            (
                st.report(
                    ExpressionDiagnosticCode::InvalidLiteral,
                    location,
                    "floating-point literals must be finite"@,
                ),
                None,
            )
        },
        ExprValueView::String(s) => (
            st.string(limits, s, location),
            Some(ExprTypeView::required(KindView::String)),
        ),
        ExprValueView::List(values) => if values.len() == 0 {
            (
                st,
                Some(
                    ExprTypeView::required(
                        KindView::List(Box::new(ExprTypeView::required(KindView::Never))),
                    ),
                ),
            )
        } else {
            match literal_items(limits, st, values, location, depth, 0, None) {
                (st, Some(item)) => (
                    st,
                    Some(ExprTypeView::required(KindView::List(Box::new(item)))),
                ),
                (st, None) => (st, None),
            }
        },
        ExprValueView::Object(values) => {
            let (st, fields) = literal_members(
                limits,
                st,
                values,
                location,
                depth,
                0,
                Seq::empty(),
            );
            (st, Some(ExprTypeView::required(KindView::Object(fields))))
        },
    }
}

pub open spec fn item_location(location: Seq<char>, i: nat) -> Seq<char> {
    location + ".value["@ + text::decimal(i) + "]"@
}

/// The common type of the items of a list literal from the `i`-th on.
pub open spec fn literal_items(
    limits: ExpressionLimits,
    st: CheckView,
    values: Seq<ExprValueView>,
    location: Seq<char>,
    depth: nat,
    i: nat,
    current: Option<ExprTypeView>,
) -> (CheckView, Option<ExprTypeView>)
    decreases values, values.len() - i,
{
    if i >= values.len() {
        (st, current)
    } else {
        let child = item_location(location, i);
        let (st, allowed) = st.visit(limits, child, saturated(depth + 1));
        if !allowed {
            literal_items(limits, st, values, location, depth, i + 1, current)
        } else {
            match literal_type(limits, st, values[i as int], child, saturated(depth + 1)) {
                (st, None) => literal_items(limits, st, values, location, depth, i + 1, current),
                (st, Some(next)) => match current {
                    None => literal_items(limits, st, values, location, depth, i + 1, Some(next)),
                    Some(seen) => match common_type(seen, next) {
                        Some(common) => literal_items(
                            limits,
                            st,
                            values,
                            location,
                            depth,
                            i + 1,
                            Some(common),
                        ),
                        None => literal_items(
                            limits,
                            st.report(
                                ExpressionDiagnosticCode::TypeMismatch,
                                child,
                                "list literal mixes incompatible item types "@ + seen.describe()
                                    + " and "@ + next.describe(),
                            ),
                            values,
                            location,
                            depth,
                            i + 1,
                            Some(seen),
                        ),
                    },
                },
            }
        }
    }
}

pub open spec fn member_location(location: Seq<char>, name: Seq<char>) -> Seq<char> {
    location + ".value."@ + name
}

/// The types of the members of an object literal from the `i`-th on.
pub open spec fn literal_members(
    limits: ExpressionLimits,
    st: CheckView,
    values: Seq<(Seq<char>, ExprValueView)>,
    location: Seq<char>,
    depth: nat,
    i: nat,
    done: Seq<(Seq<char>, ExprTypeView)>,
) -> (CheckView, Seq<(Seq<char>, ExprTypeView)>)
    decreases values, values.len() - i,
{
    if i >= values.len() {
        (st, done)
    } else {
        let (name, value) = values[i as int];
        let child = member_location(location, name);
        let (st, allowed) = st.string(limits, name, child).visit(
            limits,
            child,
            saturated(depth + 1),
        );
        if !allowed {
            literal_members(limits, st, values, location, depth, i + 1, done)
        } else {
            match literal_type(limits, st, value, child, saturated(depth + 1)) {
                (st, None) => literal_members(limits, st, values, location, depth, i + 1, done),
                (st, Some(t)) => literal_members(
                    limits,
                    st,
                    values,
                    location,
                    depth,
                    i + 1,
                    done.push((name, t)),
                ),
            }
        }
    }
}

pub open spec fn bool_type() -> Option<ExprTypeView> {
    Some(ExprTypeView::required(KindView::Bool))
}

/// The type of an expression, and what is wrong with it.
pub open spec fn inferred(
    schemas: SchemaSource,
    limits: ExpressionLimits,
    st: CheckView,
    e: ExprView,
    location: Seq<char>,
    depth: nat,
) -> (CheckView, Option<ExprTypeView>)
    decreases e, 2int,
{
    let (st, allowed) = st.visit(limits, location, depth);
    if allowed {
        inferred_node(schemas, limits, st, e, location, depth)
    } else {
        (st, None)
    }
}

/// The type of an expression that may be looked into.
pub open spec fn inferred_node(
    schemas: SchemaSource,
    limits: ExpressionLimits,
    st: CheckView,
    e: ExprView,
    location: Seq<char>,
    depth: nat,
) -> (CheckView, Option<ExprTypeView>)
    decreases e, 1int,
{
    let deeper = saturated(depth + 1);
    match e {
        ExprView::Literal { value } => literal_type(limits, st, value, location, depth),
        ExprView::Ref { reference } => reference_type(
            schemas,
            limits,
            st,
            reference,
            location,
        ),
        ExprView::All { expressions } => (
            inferred_all(schemas, limits, st, expressions, location, deeper, 0),
            bool_type(),
        ),
        ExprView::Any { expressions } => (
            inferred_all(schemas, limits, st, expressions, location, deeper, 0),
            bool_type(),
        ),
        ExprView::Not { expression } => {
            let child = location + ".expression"@;
            (
                expect_bool(inferred(schemas, limits, st, *expression, child, deeper), child),
                bool_type(),
            )
        },
        ExprView::Exists { reference } => (
            reference_type(schemas, limits, st, reference, location + ".reference"@).0,
            bool_type(),
        ),
        ExprView::IsNull { expression } => (
            inferred(
                schemas,
                limits,
                st,
                *expression,
                location + ".expression"@,
                deeper,
            ).0,
            bool_type(),
        ),
        ExprView::IsEmpty { expression } => {
            let child = location + ".expression"@;
            match inferred(schemas, limits, st, *expression, child, deeper) {
                (st, Some(t)) => if t.kind is String || t.kind is List || t.kind is Object
                    || t.kind is Any {
                    (st, bool_type())
                } else {
                    (st.mismatch(child, "string, list, or object"@, t), bool_type())
                },
                (st, None) => (st, bool_type()),
            }
        },
        ExprView::Compare { operator, left, right } => {
            let (st, l) = inferred(schemas, limits, st, *left, location + ".left"@, deeper);
            let (st, r) = inferred(schemas, limits, st, *right, location + ".right"@, deeper);
            (comparison_check(st, operator, l, r, location), bool_type())
        },
        ExprView::Contains { value, needle } => {
            let first = location + ".value"@;
            let second = location + ".operand"@;
            let st = expect_string(inferred(schemas, limits, st, *value, first, deeper), first);
            let st = expect_string(inferred(schemas, limits, st, *needle, second, deeper), second);
            (st, bool_type())
        },
        ExprView::StartsWith { value, prefix } => {
            let first = location + ".value"@;
            let second = location + ".operand"@;
            let st = expect_string(inferred(schemas, limits, st, *value, first, deeper), first);
            let st = expect_string(inferred(schemas, limits, st, *prefix, second, deeper), second);
            (st, bool_type())
        },
        ExprView::EndsWith { value, suffix } => {
            let first = location + ".value"@;
            let second = location + ".operand"@;
            let st = expect_string(inferred(schemas, limits, st, *value, first, deeper), first);
            let st = expect_string(inferred(schemas, limits, st, *suffix, second, deeper), second);
            (st, bool_type())
        },
        ExprView::Matches { value, pattern } => {
            let child = location + ".value"@;
            let st = expect_string(inferred(schemas, limits, st, *value, child, deeper), child);
            (st.pattern(limits, pattern, location + ".pattern"@), bool_type())
        },
        ExprView::In { needle, collection } => {
            let (st, n) = inferred(
                schemas,
                limits,
                st,
                *needle,
                location + ".needle"@,
                deeper,
            );
            let (st, c) = inferred(
                schemas,
                limits,
                st,
                *collection,
                location + ".collection"@,
                deeper,
            );
            (membership_check(st, n, c, location), bool_type())
        },
        ExprView::Quantifier { collection, binding, predicate, .. } => {
            let child = location + ".collection"@;
            let (st, c) = inferred(schemas, limits, st, *collection, child, deeper);
            let (st, item) = quantifier_item(st, c, child);
            let inner = enter_quantifier(
                limits,
                st,
                binding,
                item,
                location + ".binding"@,
            );
            let body = location + ".predicate"@;
            let after = expect_bool(
                inferred(schemas, limits, inner, *predicate, body, deeper),
                body,
            );
            (
                CheckView { quantifiers: st.quantifiers, locals: st.locals, ..after },
                bool_type(),
            )
        },
    }
}

/// The operands of a logical operator from the `i`-th on.
pub open spec fn inferred_all(
    schemas: SchemaSource,
    limits: ExpressionLimits,
    st: CheckView,
    items: Seq<ExprView>,
    location: Seq<char>,
    deeper: nat,
    i: nat,
) -> CheckView
    decreases items, items.len() - i,
{
    if i >= items.len() {
        st
    } else {
        let child = location + ".expressions["@ + text::decimal(i) + "]"@;
        let st = expect_bool(
            inferred(schemas, limits, st, items[i as int], child, deeper),
            child,
        );
        inferred_all(schemas, limits, st, items, location, deeper, i + 1)
    }
}

pub open spec fn expect_bool(
    found: (CheckView, Option<ExprTypeView>),
    location: Seq<char>,
) -> CheckView {
    match found {
        (st, Some(t)) => st.require_bool(t, location),
        (st, None) => st,
    }
}

pub open spec fn expect_string(
    found: (CheckView, Option<ExprTypeView>),
    location: Seq<char>,
) -> CheckView {
    match found {
        (st, Some(t)) => st.require_string(t, location),
        (st, None) => st,
    }
}

pub open spec fn operator_text(operator: ComparisonOperator) -> Seq<char> {
    match operator {
        ComparisonOperator::Equal => "Equal"@,
        ComparisonOperator::NotEqual => "NotEqual"@,
        ComparisonOperator::LessThan => "LessThan"@,
        ComparisonOperator::LessThanOrEqual => "LessThanOrEqual"@,
        ComparisonOperator::GreaterThan => "GreaterThan"@,
        ComparisonOperator::GreaterThanOrEqual => "GreaterThanOrEqual"@,
    }
}

pub open spec fn tests_equality(operator: ComparisonOperator) -> bool {
    operator == ComparisonOperator::Equal || operator == ComparisonOperator::NotEqual
}

/// Operands of a comparison must be comparable.
pub open spec fn comparison_check(
    st: CheckView,
    operator: ComparisonOperator,
    left: Option<ExprTypeView>,
    right: Option<ExprTypeView>,
    location: Seq<char>,
) -> CheckView {
    match (left, right) {
        (Some(l), Some(r)) => {
            let compatible = if tests_equality(operator) {
                equality_compatible(l, r)
            } else {
                ordering_compatible(l, r)
            };
            if compatible {
                st
            } else {
                st.report(
                    ExpressionDiagnosticCode::TypeMismatch,
                    location,
                    "operator "@ + operator_text(operator) + " cannot compare "@ + l.describe()
                        + " with "@ + r.describe(),
                )
            }
        },
        _ => st,
    }
}

/// The collection of a membership test must be a list of comparable items.
pub open spec fn membership_check(
    st: CheckView,
    needle: Option<ExprTypeView>,
    collection: Option<ExprTypeView>,
    location: Seq<char>,
) -> CheckView {
    match collection {
        None => st,
        Some(c) => match c.kind {
            KindView::List(item) => match needle {
                None => st,
                Some(n) => if equality_compatible(n, *item) {
                    st
                } else {
                    st.report(
                        ExpressionDiagnosticCode::TypeMismatch,
                        location,
                        "in operand "@ + n.describe() + " is incompatible with collection item "@
                            + item.describe(),
                    )
                },
            },
            KindView::Any => st,
            _ => st.mismatch(location + ".collection"@, "list"@, c),
        },
    }
}

/// The type of the items that a quantifier ranges over.
pub open spec fn quantifier_item(
    st: CheckView,
    collection: Option<ExprTypeView>,
    location: Seq<char>,
) -> (CheckView, Option<ExprTypeView>) {
    match collection {
        None => (st, None),
        Some(c) => match c.kind {
            KindView::List(item) => (st, Some(*item)),
            KindView::Any => (st, Some(ExprTypeView::required(KindView::Any))),
            _ => (st.mismatch(location, "list"@, c), None),
        },
    }
}

pub open spec fn names_local<T>(locals: Seq<(Seq<char>, T)>, name: Seq<char>) -> bool {
    exists|i: int| 0 <= i < locals.len() && (#[trigger] locals[i]).0 == name
}

pub open spec fn binding_admitted(
    limits: ExpressionLimits,
    st: CheckView,
    binding: Seq<char>,
) -> bool {
    binding.len() > 0 && text::byte_len(binding) <= limits.max_string_bytes && !names_local(
        st.locals,
        binding,
    )
}

/// What is known inside a quantifier.
pub open spec fn enter_quantifier(
    limits: ExpressionLimits,
    st: CheckView,
    binding: Seq<char>,
    item: Option<ExprTypeView>,
    location: Seq<char>,
) -> CheckView {
    let valid = binding_admitted(limits, st, binding);
    let named = if valid {
        st
    } else {
        st.report(
            ExpressionDiagnosticCode::InvalidBinding,
            location,
            "quantifier binding must be non-empty, bounded, and must not shadow an active binding"@,
        )
    };
    let nested = CheckView { quantifiers: saturated(named.quantifiers + 1), ..named };
    let bounded = if nested.quantifiers > limits.max_quantifier_depth {
        nested.limit_once(
            location,
            "quantifier nesting exceeds limit "@ + text::decimal(
                limits.max_quantifier_depth as nat,
            ),
        )
    } else {
        nested
    };
    match item {
        Some(t) => if valid {
            CheckView { locals: bounded.locals.push((binding, t)), ..bounded }
        } else {
            bounded
        },
        None => bounded,
    }
}

/// A checked program: what it evaluates, its type, and what the check resolved.
pub struct ProgramView {
    pub expression: ExprView,
    pub result_type: ExprTypeView,
    pub limits: ExpressionLimits,
    pub patterns: Seq<Seq<char>>,
    pub resolved: Seq<(FieldRefView, ExprTypeView)>,
}

/// The outcome of a check: the program, or everything that is wrong with it.
pub open spec fn concluded(
    limits: ExpressionLimits,
    st: CheckView,
    e: ExprView,
    t: Option<ExprTypeView>,
) -> Result<ProgramView, Seq<DiagView>> {
    if st.diagnostics.len() > 0 {
        Err(st.diagnostics)
    } else {
        match t {
            None => Err(
                seq![
                    DiagView {
                        code: ExpressionDiagnosticCode::TypeMismatch,
                        location: "$"@,
                        message: "expression type could not be inferred"@,
                    },
                ],
            ),
            Some(result_type) => Ok(
                ProgramView {
                    expression: e,
                    result_type,
                    limits,
                    patterns: st.patterns,
                    resolved: st.resolved,
                },
            ),
        }
    }
}

pub open spec fn checked_value(
    schemas: SchemaSource,
    limits: ExpressionLimits,
    e: ExprView,
) -> Result<ProgramView, Seq<DiagView>> {
    let (st, t) = inferred(schemas, limits, unchecked(), e, "$"@, 1);
    concluded(limits, st, e, t)
}

pub open spec fn checked_rule(
    schemas: SchemaSource,
    limits: ExpressionLimits,
    e: ExprView,
) -> Result<ProgramView, Seq<DiagView>> {
    let (st, t) = inferred(schemas, limits, unchecked(), e, "$"@, 1);
    let st = match t {
        Some(t) => if t.kind is Bool {
            st
        } else {
            st.report(
                ExpressionDiagnosticCode::ExpectedBoolean,
                "$"@,
                "rule root must have bool type, found "@ + t.describe(),
            )
        },
        None => st,
    };
    concluded(limits, st, e, t)
}

/// A rule that passes the check has Boolean type.
pub proof fn law_checked_rule_is_boolean(
    schemas: SchemaSource,
    limits: ExpressionLimits,
    e: ExprView,
)
    ensures
        checked_rule(schemas, limits, e) matches Ok(p) ==> p.result_type.kind is Bool
            && p.expression == e && p.limits == limits,
{
}

// ---------------------------------------------------------------------------
// Checking
// ---------------------------------------------------------------------------
/// Immutable checked program. Its fields are private, so that an unchecked
/// tree cannot be smuggled into the evaluator.
#[derive(Debug)]
pub struct CheckedExpressionV1 {
    expression: ExpressionV1,
    result_type: ExpressionType,
    limits: ExpressionLimits,
    regexes: Vec<(String, regex::Regex)>,
    resolved_references: Vec<(FieldRef, ExpressionType)>,
}

pub open spec fn pattern_views(regexes: Seq<(String, regex::Regex)>) -> Seq<Seq<char>> {
    regexes.map_values(|r: (String, regex::Regex)| r.0@)
}

pub open spec fn resolved_views(list: Seq<(FieldRef, ExpressionType)>) -> Seq<
    (FieldRefView, ExprTypeView),
> {
    list.map_values(|r: (FieldRef, ExpressionType)| (r.0@, r.1@))
}

pub open spec fn regexes_built(regexes: Seq<(String, regex::Regex)>) -> bool {
    forall|i: int|
        0 <= i < regexes.len() ==> regex_pattern((#[trigger] regexes[i]).1) == regexes[i].0@
}

impl CheckedExpressionV1 {
    pub closed spec fn view(&self) -> ProgramView {
        ProgramView {
            expression: self.expression@,
            result_type: self.result_type@,
            limits: self.limits,
            patterns: pattern_views(self.regexes@),
            resolved: resolved_views(self.resolved_references@),
        }
    }

    /// Every regular expression was built from the pattern that it is kept for.
    #[verifier::type_invariant]
    pub closed spec fn well_formed(&self) -> bool {
        regexes_built(self.regexes@)
    }

    pub fn result_type(&self) -> (res: &ExpressionType)
        ensures
            res@ == self@.result_type,
    {
        &self.result_type
    }

    pub fn expression(&self) -> (res: &ExpressionV1)
        ensures
            res@ == self@.expression,
    {
        &self.expression
    }

    pub fn limits(&self) -> (res: ExpressionLimits)
        ensures
            res == self@.limits,
    {
        self.limits
    }

    /// The type that the check found for a reference.
    pub fn reference_type(&self, field: &FieldRef) -> (res: Option<ExpressionType>)
        ensures
            seen_type(res) == text_map::lookup(self@.resolved, field@),
    {
        find_type(&self.resolved_references, field)
    }

    /// Whether a pattern of the program matches a text.
    pub fn pattern_matches(&self, pattern: &str, input: &str) -> (res: Option<bool>)
        ensures
            res == (if self@.patterns.contains(pattern@) {
                Some(regex_matches(pattern@, input@))
            } else {
                None
            }),
    {
        proof {
            use_type_invariant(self);
        }
        let ghost patterns = pattern_views(self.regexes@);
        let mut i: usize = 0;
        while i < self.regexes.len()
            invariant
                i <= self.regexes@.len(),
                patterns == pattern_views(self.regexes@),
                regexes_built(self.regexes@),
                forall|j: int| 0 <= j < i ==> (#[trigger] patterns[j]) != pattern@,
            decreases self.regexes@.len() - i,
        {
            assert(patterns[i as int] == self.regexes@[i as int].0@);
            if same_text(&self.regexes[i].0, pattern) {
                assert(patterns.contains(pattern@));
                return Some(is_match(&self.regexes[i].1, input));
            }
            i = i + 1;
        }
        None
    }
}

pub open spec fn seen_type(t: Option<ExpressionType>) -> Option<ExprTypeView> {
    match t {
        Some(t) => Some(t@),
        None => None,
    }
}

/// The type that a list of resolved references gives a reference.
fn find_type(list: &Vec<(FieldRef, ExpressionType)>, field: &FieldRef) -> (res: Option<
    ExpressionType,
>)
    ensures
        seen_type(res) == text_map::lookup(resolved_views(list@), field@),
{
    let ghost views = resolved_views(list@);
    let mut i: usize = 0;
    while i < list.len()
        invariant
            i <= list@.len(),
            views == resolved_views(list@),
            forall|j: int| 0 <= j < i ==> (#[trigger] views[j]).0 != field@,
        decreases list@.len() - i,
    {
        assert(views[i as int] == (list@[i as int].0@, list@[i as int].1@));
        if list[i].0.same(field) {
            proof {
                text_map::lemma_index_of(views, field@, i as int);
            }
            return Some(list[i].1.clone());
        }
        i = i + 1;
    }
    proof {
        text_map::lemma_index_of(views, field@, list@.len() as int);
    }
    None
}

struct Checker<'a, R: ExpressionSchemaResolver> {
    resolver: &'a R,
    limits: ExpressionLimits,
    diagnostics: Vec<ExpressionDiagnostic>,
    nodes: usize,
    string_bytes: usize,
    quantifier_depth: usize,
    locals: Vec<(String, ExpressionType)>,
    regexes: Vec<(String, regex::Regex)>,
    resolved_references: Vec<(FieldRef, ExpressionType)>,
    record: Ghost<Seq<TypeReply>>,
}

fn located(location: &str, suffix: &str) -> (res: String)
    ensures
        res@ == location@ + suffix@,
{
    joined(location, suffix)
}

fn operator_name(operator: ComparisonOperator) -> (res: String)
    ensures
        res@ == operator_text(operator),
{
    match operator {
        ComparisonOperator::Equal => owned("Equal"),
        ComparisonOperator::NotEqual => owned("NotEqual"),
        ComparisonOperator::LessThan => owned("LessThan"),
        ComparisonOperator::LessThanOrEqual => owned("LessThanOrEqual"),
        ComparisonOperator::GreaterThan => owned("GreaterThan"),
        ComparisonOperator::GreaterThanOrEqual => owned("GreaterThanOrEqual"),
    }
}

/// What a record says of a check that has come so far: a type that was answered is
/// known, and any other answer was a fault.
spec fn recorded(
    record: Seq<TypeReply>,
    faults: nat,
    resolved: Seq<(FieldRefView, ExprTypeView)>,
) -> bool {
    forall|i: int|
        0 <= i < record.len() ==> match (#[trigger] record[i]).found {
            Ok(_) => text_map::has_key(resolved, record[i].reference),
            Err(_) => record[i].faults < faults,
        }
}

proof fn lemma_agrees_push(record: Seq<TypeReply>, reply: TypeReply)
    ensures
        forall|schemas: SchemaSource| #[trigger]
            agrees(schemas, record.push(reply)) ==> agrees(schemas, record) && schemas(
                reply.reference,
                reply.faults,
            ) == reply.found,
{
    reveal(agrees);
    let more = record.push(reply);
    assert forall|schemas: SchemaSource| #[trigger] agrees(schemas, more) implies agrees(
        schemas,
        record,
    ) && schemas(reply.reference, reply.faults) == reply.found by {
        assert(more[record.len() as int] == reply);
        assert forall|i: int| 0 <= i < record.len() implies schemas(
            (#[trigger] record[i]).reference,
            record[i].faults,
        ) == record[i].found by {
            assert(more[i] == record[i]);
        }
    }
}

proof fn lemma_replied_push<R: ExpressionSchemaResolver>(
    resolver: &R,
    limits: ExpressionLimits,
    record: Seq<TypeReply>,
    reply: TypeReply,
    resolved: Seq<(FieldRefView, ExprTypeView)>,
)
    requires
        replied(resolver, limits, record),
        recorded(record, reply.faults, resolved),
        may_reply(resolver, limits, reply.reference, reply.found),
        !text_map::has_key(resolved, reply.reference),
    ensures
        replied(resolver, limits, record.push(reply)),
{
    let more = record.push(reply);
    assert forall|i: int, j: int|
        0 <= i < j < more.len() && (#[trigger] more[i]).reference == (
        #[trigger] more[j]).reference implies more[i].found is Err && more[i].faults
        < more[j].faults by {
        assert(more[i] == record[i]);
        if j < record.len() {
            assert(more[j] == record[j]);
        }
    }
}

proof fn lemma_recorded_push(
    record: Seq<TypeReply>,
    reply: TypeReply,
    faults: nat,
    resolved: Seq<(FieldRefView, ExprTypeView)>,
    added: (FieldRefView, ExprTypeView),
)
    requires
        recorded(record, faults, resolved),
        reply.reference == added.0,
        reply.found is Ok,
    ensures
        recorded(record.push(reply), faults, resolved.push(added)),
{
    let more = record.push(reply);
    let known = resolved.push(added);
    assert forall|i: int| 0 <= i < more.len() implies match (#[trigger] more[i]).found {
        Ok(_) => text_map::has_key(known, more[i].reference),
        Err(_) => more[i].faults < faults,
    } by {
        if i < record.len() {
            assert(more[i] == record[i]);
        }
        lemma_known_push(resolved, added, more[i].reference);
    }
}

/// What is stored at the end is found, and what was found still is.
pub proof fn lemma_known_push(
    resolved: Seq<(FieldRefView, ExprTypeView)>,
    added: (FieldRefView, ExprTypeView),
    other: FieldRefView,
)
    ensures
        text_map::has_key(resolved.push(added), added.0),
        text_map::has_key(resolved, other) ==> text_map::has_key(resolved.push(added), other),
{
    let more = resolved.push(added);
    text_map::lemma_found(more, added.0);
    text_map::lemma_found(more, other);
    text_map::lemma_found(resolved, other);
    assert(more[resolved.len() as int] == added);
    let k = text_map::index_of(resolved, other) as int;
    if k < resolved.len() {
        assert(more[k] == resolved[k]);
    }
}

impl<'a, R: ExpressionSchemaResolver> Checker<'a, R> {
    spec fn view(&self) -> CheckView {
        CheckView {
            diagnostics: diag_views(self.diagnostics@),
            nodes: self.nodes as nat,
            bytes: self.string_bytes as nat,
            quantifiers: self.quantifier_depth as nat,
            locals: type_views(self.locals@),
            patterns: pattern_views(self.regexes@),
            resolved: resolved_views(self.resolved_references@),
        }
    }

    /// What no step of the walk changes, and what each keeps.
    spec fn follows(&self, before: &Self) -> bool {
        &&& self.resolver == before.resolver
        &&& self.limits == before.limits
        &&& self@.locals == before@.locals
        &&& self.sound()
        &&& self.keeps_record(before)
    }

    /// What was answered stays so.
    spec fn keeps_record(&self, before: &Self) -> bool {
        forall|schemas: SchemaSource| #[trigger]
            agrees(schemas, self.record@) ==> agrees(schemas, before.record@)
    }

    spec fn sound(&self) -> bool {
        &&& regexes_built(self.regexes@)
        &&& replied(self.resolver, self.limits, self.record@)
        &&& recorded(self.record@, self@.diagnostics.len(), self@.resolved)
    }

    fn new(resolver: &'a R, limits: ExpressionLimits) -> (res: Self)
        ensures
            res@ == unchecked(),
            res.resolver == resolver,
            res.limits == limits,
            res.sound(),
    {
        let res = Checker {
            resolver,
            limits,
            diagnostics: Vec::new(),
            nodes: 0,
            string_bytes: 0,
            quantifier_depth: 0,
            locals: Vec::new(),
            regexes: Vec::new(),
            resolved_references: Vec::new(),
            record: Ghost(Seq::empty()),
        };
        proof {
            assert(res@.diagnostics =~= Seq::empty());
            assert(res@.locals =~= Seq::empty());
            assert(res@.patterns =~= Seq::empty());
            assert(res@.resolved =~= Seq::empty());
        }
        res
    }

    fn report(&mut self, code: ExpressionDiagnosticCode, location: &str, message: &str)
        requires
            old(self).sound(),
        ensures
            final(self).follows(old(self)),
            final(self)@ == old(self)@.report(code, location@, message@),
    {
        let ghost before = diag_views(self.diagnostics@);
        let diagnostic = ExpressionDiagnostic::new(code, location, message);
        let ghost added = diagnostic@;
        self.diagnostics.push(diagnostic);
        assert(diag_views(self.diagnostics@) =~= before.push(added));
    }

    fn push_limit_once(&mut self, location: &str, message: &str)
        requires
            old(self).sound(),
        ensures
            final(self).follows(old(self)),
            final(self)@ == old(self)@.limit_once(location@, message@),
    {
        let mut i: usize = 0;
        while i < self.diagnostics.len()
            invariant
                i <= self.diagnostics@.len(),
                *self == *old(self),
                self.sound(),
                forall|j: int|
                    0 <= j < i ==> !((#[trigger] self@.diagnostics[j]).code
                        == ExpressionDiagnosticCode::LimitExceeded && self@.diagnostics[j].message
                        == message@),
            decreases self.diagnostics@.len() - i,
        {
            assert(self@.diagnostics[i as int] == self.diagnostics@[i as int]@);
            if self.diagnostics[i].code == ExpressionDiagnosticCode::LimitExceeded && same_text(
                &self.diagnostics[i].message,
                message,
            ) {
                assert(self@.has_limit(message@));
                return ;
            }
            i = i + 1;
        }
        assert(!self@.has_limit(message@));
        self.report(ExpressionDiagnosticCode::LimitExceeded, location, message);
    }

    fn type_mismatch(&mut self, location: &str, expected: &str, actual: &ExpressionType)
        requires
            old(self).sound(),
        ensures
            final(self).follows(old(self)),
            final(self)@ == old(self)@.mismatch(location@, expected@, actual@),
    {
        let mut message = joined("expected ", expected);
        message.append(", found ");
        message.append(&actual.describe());
        self.report(ExpressionDiagnosticCode::TypeMismatch, location, &message);
    }

    fn require_bool(&mut self, value_type: &ExpressionType, location: &str)
        requires
            old(self).sound(),
        ensures
            final(self).follows(old(self)),
            final(self)@ == old(self)@.require_bool(value_type@, location@),
    {
        match &value_type.kind {
            ExpressionTypeKind::Bool | ExpressionTypeKind::Any => {},
            _ => {
                self.type_mismatch(location, "bool", value_type);
            },
        }
    }

    fn require_string(&mut self, value_type: &ExpressionType, location: &str)
        requires
            old(self).sound(),
        ensures
            final(self).follows(old(self)),
            final(self)@ == old(self)@.require_string(value_type@, location@),
    {
        match &value_type.kind {
            ExpressionTypeKind::String | ExpressionTypeKind::Any => {},
            _ => {
                self.type_mismatch(location, "string", value_type);
            },
        }
    }

    fn visit_node(&mut self, location: &str, depth: usize) -> (allowed: bool)
        requires
            old(self).sound(),
        ensures
            final(self).follows(old(self)),
            (final(self)@, allowed) == old(self)@.visit(old(self).limits, location@, depth as nat),
    {
        self.nodes = self.nodes.saturating_add(1);
        let mut allowed = true;
        if self.nodes > self.limits.max_nodes {
            let message = joined(
                "expression exceeds node limit ",
                &count_text(self.limits.max_nodes),
            );
            self.push_limit_once(location, &message);
            allowed = false;
        }
        if depth > self.limits.max_depth {
            let message = joined(
                "expression exceeds depth limit ",
                &count_text(self.limits.max_depth),
            );
            self.push_limit_once(location, &message);
            allowed = false;
        }
        allowed
    }

    fn check_string(&mut self, value: &str, location: &str)
        requires
            old(self).sound(),
        ensures
            final(self).follows(old(self)),
            final(self)@ == old(self)@.string(old(self).limits, value@, location@),
    {
        let n: usize = text_len(value);
        if n > self.limits.max_string_bytes {
            let mut message = joined("string is ", &count_text(n));
            message.append(" bytes; limit is ");
            message.append(&count_text(self.limits.max_string_bytes));
            self.push_limit_once(location, &message);
            return ;
        }
        self.string_bytes = self.string_bytes.saturating_add(n);
        if self.string_bytes > self.limits.max_string_bytes {
            let message = joined(
                "expression exceeds cumulative string-byte limit ",
                &count_text(self.limits.max_string_bytes),
            );
            self.push_limit_once(location, &message);
        }
    }

    fn knows_pattern(&self, pattern: &str) -> (res: bool)
        ensures
            res == self@.patterns.contains(pattern@),
    {
        let mut i: usize = 0;
        while i < self.regexes.len()
            invariant
                i <= self.regexes@.len(),
                forall|j: int| 0 <= j < i ==> (#[trigger] self@.patterns[j]) != pattern@,
            decreases self.regexes@.len() - i,
        {
            assert(self@.patterns[i as int] == self.regexes@[i as int].0@);
            if same_text(&self.regexes[i].0, pattern) {
                return true;
            }
            i = i + 1;
        }
        false
    }

    fn compile_regex(&mut self, pattern: &str, location: &str)
        requires
            old(self).sound(),
        ensures
            final(self).follows(old(self)),
            final(self)@ == old(self)@.pattern(old(self).limits, pattern@, location@),
    {
        self.check_string(pattern, location);
        let n: usize = text_len(pattern);
        if n > self.limits.max_regex_pattern_bytes {
            let mut message = joined("regex pattern is ", &count_text(n));
            message.append(" bytes; limit is ");
            message.append(&count_text(self.limits.max_regex_pattern_bytes));
            self.push_limit_once(location, &message);
            return ;
        }
        if self.knows_pattern(pattern) {
            return ;
        }
        match build_regex(pattern, self.limits.max_regex_compiled_bytes) {
            Ok(regex) => {
                let ghost before = pattern_views(self.regexes@);
                self.regexes.push((owned(pattern), regex));
                assert(pattern_views(self.regexes@) =~= before.push(pattern@));
            },
            Err(message) => {
                self.report(ExpressionDiagnosticCode::InvalidRegex, location, &message);
            },
        }
    }

    fn find_local(&self, binding: &str) -> (res: Option<ExpressionType>)
        ensures
            match res {
                Some(t) => local_type(self@.locals, binding@) == Some(t@),
                None => local_type(self@.locals, binding@) is None,
            },
    {
        let mut i: usize = self.locals.len();
        assert(self@.locals.take(i as int) =~= self@.locals);
        while i > 0
            invariant
                i <= self.locals@.len(),
                local_type(self@.locals, binding@) == local_type(
                    self@.locals.take(i as int),
                    binding@,
                ),
            decreases i,
        {
            i = i - 1;
            proof {
                let upto = self@.locals.take(i + 1);
                assert(upto.drop_last() =~= self@.locals.take(i as int));
                assert(upto.last() == (self.locals@[i as int].0@, self.locals@[i as int].1@));
            }
            if same_text(&self.locals[i].0, binding) {
                return Some(self.locals[i].1.clone());
            }
        }
        None
    }

    fn has_local(&self, binding: &str) -> (res: bool)
        ensures
            res == names_local(self@.locals, binding@),
    {
        let mut i: usize = 0;
        while i < self.locals.len()
            invariant
                i <= self.locals@.len(),
                forall|j: int| 0 <= j < i ==> (#[trigger] self@.locals[j]).0 != binding@,
            decreases self.locals@.len() - i,
        {
            assert(self@.locals[i as int].0 == self.locals@[i as int].0@);
            if same_text(&self.locals[i].0, binding) {
                return true;
            }
            i = i + 1;
        }
        false
    }

    fn find_resolved(&self, field: &FieldRef) -> (res: Option<ExpressionType>)
        ensures
            match res {
                Some(t) => text_map::lookup(self@.resolved, field@) == Some(t@),
                None => text_map::lookup(self@.resolved, field@) is None,
            },
    {
        find_type(&self.resolved_references, field)
    }

    fn resolve_reference(&mut self, reference: &ReferenceV1, location: &str) -> (res: Option<
        ExpressionType,
    >)
        requires
            old(self).sound(),
        ensures
            final(self).follows(old(self)),
            forall|schemas: SchemaSource| #[trigger]
                agrees(schemas, final(self).record@) ==> {
                    let (st, t) = reference_type(
                        schemas,
                        old(self).limits,
                        old(self)@,
                        reference@,
                        location@,
                    );
                    final(self)@ == st && seen_type(res) == t
                },
    {
        match reference {
            ReferenceV1::Context { field } => {
                match self.find_resolved(field) {
                    Some(t) => {
                        return Some(t);
                    },
                    None => {},
                }
                let found = self.resolver.resolve_schema_bounded(field, self.limits);
                let ghost reply = TypeReply {
                    reference: field@,
                    faults: self@.diagnostics.len(),
                    found: reported_type(found),
                };
                let ghost record = self.record@;
                self.record = Ghost(record.push(reply));
                proof {
                    assert(may_reply(self.resolver, self.limits, field@, reply.found));
                    lemma_agrees_push(record, reply);
                    lemma_replied_push(
                        self.resolver,
                        self.limits,
                        record,
                        reply,
                        self@.resolved,
                    );
                }
                match found {
                    Ok(value_type) => {
                        let ghost before = resolved_views(self.resolved_references@);
                        let ghost added = (field@, value_type@);
                        self.resolved_references.push((field.clone(), value_type.clone()));
                        assert(resolved_views(self.resolved_references@) =~= before.push(added));
                        proof {
                            lemma_recorded_push(record, reply, self@.diagnostics.len(), before, added);
                        }
                        Some(value_type)
                    },
                    Err(error) => {
                        let code = if error.is_limit_exceeded() {
                            ExpressionDiagnosticCode::LimitExceeded
                        } else {
                            ExpressionDiagnosticCode::UnknownReference
                        };
                        let text = error.diagnostic_message();
                        let ghost before = diag_views(self.diagnostics@);
                        let diagnostic = ExpressionDiagnostic::new(code, location, &text);
                        let ghost added = diagnostic@;
                        self.diagnostics.push(diagnostic);
                        assert(diag_views(self.diagnostics@) =~= before.push(added));
                        None
                    },
                }
            },
            ReferenceV1::Local { binding, path } => {
                match self.find_local(binding) {
                    None => {
                        let mut message = joined("local binding ", &quoted(binding));
                        message.append(" is not in scope");
                        self.report(ExpressionDiagnosticCode::UnknownLocal, location, &message);
                        None
                    },
                    Some(root) => self.resolve_local_path(binding, path, root, location),
                }
            },
        }
    }

    fn resolve_local_path(
        &mut self,
        binding: &str,
        path: &Vec<String>,
        root: ExpressionType,
        location: &str,
    ) -> (res: Option<ExpressionType>)
        requires
            old(self).sound(),
        ensures
            final(self).follows(old(self)),
            ({
                let (st, t) = local_path(
                    old(self).limits,
                    old(self)@,
                    binding@,
                    text_views(path@),
                    0,
                    root@,
                    location@,
                );
                final(self)@ == st && seen_type(res) == t
            }),
    {
        let ghost names = text_views(path@);
        let ghost limits = self.limits;
        let mut current = root;
        let mut i: usize = 0;
        while i < path.len()
            invariant
                i <= path@.len(),
                names == text_views(path@),
                *self == *old(self),
                self.sound(),
                limits == self.limits,
                local_path(limits, self@, binding@, names, 0, root@, location@) == local_path(
                    limits,
                    self@,
                    binding@,
                    names,
                    i as nat,
                    current@,
                    location@,
                ),
            decreases path@.len() - i,
        {
            let segment = &path[i];
            assert(names[i as int] == segment@);
            if text_len(segment) > self.limits.max_string_bytes {
                let message = joined(
                    "local path segment exceeds string limit ",
                    &count_text(self.limits.max_string_bytes),
                );
                self.push_limit_once(location, &message);
                return None;
            }
            let next = match &current.kind {
                ExpressionTypeKind::Object(_) => match current.kind.member(segment) {
                    Some(child) => Some(
                        ExpressionType {
                            kind: child.kind.clone(),
                            optional: child.optional || current.optional,
                            nullable: child.nullable || current.nullable,
                        },
                    ),
                    None => None,
                },
                ExpressionTypeKind::Any => Some(
                    ExpressionType::optional_nullable(ExpressionTypeKind::Any),
                ),
                _ => {
                    let mut message = joined("cannot select field ", &quoted(segment));
                    message.append(" from ");
                    message.append(&current.describe());
                    self.report(ExpressionDiagnosticCode::TypeMismatch, location, &message);
                    return None;
                },
            };
            match next {
                Some(t) => {
                    current = t;
                },
                None => {
                    let mut message = joined("local binding ", &quoted(binding));
                    message.append(" has no field ");
                    message.append(&quoted(segment));
                    message.append(" at path segment ");
                    message.append(&count_text(i));
                    self.report(ExpressionDiagnosticCode::UnknownField, location, &message);
                    return None;
                },
            }
            i = i + 1;
        }
        Some(current)
    }

    fn infer_literal(&mut self, value: &ExpressionValue, location: &str, depth: usize) -> (res:
        Option<ExpressionType>)
        requires
            old(self).sound(),
        ensures
            final(self).follows(old(self)),
            ({
                let (st, t) = literal_type(
                    old(self).limits,
                    old(self)@,
                    value@,
                    location@,
                    depth as nat,
                );
                final(self)@ == st && seen_type(res) == t
            }),
        decreases value, 1int,
    {
        match value {
            ExpressionValue::Null => Some(ExpressionType::null()),
            ExpressionValue::Bool(_) => Some(ExpressionType::bool()),
            ExpressionValue::Int(_) | ExpressionValue::UInt(_) => Some(
                ExpressionType::required(ExpressionTypeKind::Integer),
            ),
            ExpressionValue::Float(bits) => {
                if is_finite_bits(*bits) {
                    Some(ExpressionType::required(ExpressionTypeKind::Number))
                } else {
                    self.report(
                        ExpressionDiagnosticCode::InvalidLiteral,
                        location,
                        "floating-point literals must be finite",
                    );
                    None
                }
            },
            ExpressionValue::String(s) => {
                self.check_string(s, location);
                Some(ExpressionType::required(ExpressionTypeKind::String))
            },
            ExpressionValue::List(values) => {
                if values.len() == 0 {
                    return Some(
                        ExpressionType::list(ExpressionType::required(ExpressionTypeKind::Never)),
                    );
                }
                match self.infer_items(values, location, depth) {
                    Some(item) => Some(ExpressionType::list(item)),
                    None => None,
                }
            },
            ExpressionValue::Object(map) => {
                let fields = self.infer_members(map, location, depth);
                Some(ExpressionType::object(fields))
            },
        }
    }

    fn infer_items(&mut self, values: &Vec<ExpressionValue>, location: &str, depth: usize) -> (res:
        Option<ExpressionType>)
        requires
            old(self).sound(),
        ensures
            final(self).follows(old(self)),
            ({
                let (st, t) = literal_items(
                    old(self).limits,
                    old(self)@,
                    list_views(values@),
                    location@,
                    depth as nat,
                    0,
                    None,
                );
                final(self)@ == st && seen_type(res) == t
            }),
        decreases values, 0int,
    {
        let ghost limits = self.limits;
        let ghost views = list_views(values@);
        let mut item_type: Option<ExpressionType> = None;
        let mut i: usize = 0;
        while i < values.len()
            invariant
                i <= values@.len(),
                views == list_views(values@),
                self.follows(old(self)),
                self.sound(),
                limits == self.limits,
                literal_items(limits, old(self)@, views, location@, depth as nat, 0, None)
                    == literal_items(
                    limits,
                    self@,
                    views,
                    location@,
                    depth as nat,
                    i as nat,
                    seen_type(item_type),
                ),
            decreases values@.len() - i,
        {
            assert(decreases_to!(values@ => values@[i as int]));
            assert(views[i as int] == values@[i as int]@);
            let mut child = located(location, ".value[");
            child.append(&count_text(i));
            child.append("]");
            let deeper: usize = depth.saturating_add(1);
            if self.visit_node(&child, deeper) {
                match self.infer_literal(&values[i], &child, deeper) {
                    None => {},
                    Some(next_type) => {
                        item_type = match item_type {
                            None => Some(next_type),
                            Some(current) => match common_expression_type(&current, &next_type) {
                                Some(common) => Some(common),
                                None => {
                                    let mut message = joined(
                                        "list literal mixes incompatible item types ",
                                        &current.describe(),
                                    );
                                    message.append(" and ");
                                    message.append(&next_type.describe());
                                    self.report(
                                        ExpressionDiagnosticCode::TypeMismatch,
                                        &child,
                                        &message,
                                    );
                                    Some(current)
                                },
                            },
                        };
                    },
                }
            }
            i = i + 1;
        }
        item_type
    }

    fn infer_members(
        &mut self,
        map: &TextMap<ExpressionValue>,
        location: &str,
        depth: usize,
    ) -> (res: TextMap<ExpressionType>)
        requires
            old(self).sound(),
        ensures
            final(self).follows(old(self)),
            (final(self)@, type_views(res.entries@)) == literal_members(
                old(self).limits,
                old(self)@,
                entry_views(map.entries@),
                location@,
                depth as nat,
                0,
                Seq::empty(),
            ),
        decreases map, 0int,
    {
        let ghost limits = self.limits;
        let ghost views = entry_views(map.entries@);
        let mut done: Vec<(String, ExpressionType)> = Vec::new();
        let mut i: usize = 0;
        assert(type_views(done@) =~= Seq::empty());
        while i < map.entries.len()
            invariant
                i <= map.entries@.len(),
                views == entry_views(map.entries@),
                self.follows(old(self)),
                self.sound(),
                limits == self.limits,
                literal_members(
                    limits,
                    old(self)@,
                    views,
                    location@,
                    depth as nat,
                    0,
                    Seq::empty(),
                ) == literal_members(
                    limits,
                    self@,
                    views,
                    location@,
                    depth as nat,
                    i as nat,
                    type_views(done@),
                ),
            decreases map.entries@.len() - i,
        {
            let name = &map.entries[i].0;
            assert(decreases_to!(map.entries@ => map.entries@[i as int].1));
            assert(views[i as int] == (name@, map.entries@[i as int].1@));
            let mut child = located(location, ".value.");
            child.append(name);
            self.check_string(name, &child);
            let deeper: usize = depth.saturating_add(1);
            if self.visit_node(&child, deeper) {
                match self.infer_literal(&map.entries[i].1, &child, deeper) {
                    None => {},
                    Some(t) => {
                        let ghost before = type_views(done@);
                        let ghost added = (name@, t@);
                        done.push((name.clone(), t));
                        assert(type_views(done@) =~= before.push(added));
                    },
                }
            }
            i = i + 1;
        }
        TextMap { entries: done }
    }

    fn infer_expression(&mut self, expression: &ExpressionV1, location: &str, depth: usize) -> (res:
        Option<ExpressionType>)
        requires
            old(self).sound(),
        ensures
            final(self).follows(old(self)),
            forall|schemas: SchemaSource| #[trigger]
                agrees(schemas, final(self).record@) ==> {
                    let (st, t) = inferred(
                        schemas,
                        old(self).limits,
                        old(self)@,
                        expression@,
                        location@,
                        depth as nat,
                    );
                    final(self)@ == st && seen_type(res) == t
                },
        decreases expression, 4int,
    {
        if self.visit_node(location, depth) {
            self.infer_node(expression, location, depth)
        } else {
            None
        }
    }

    fn infer_node(&mut self, expression: &ExpressionV1, location: &str, depth: usize) -> (res:
        Option<ExpressionType>)
        requires
            old(self).sound(),
        ensures
            final(self).follows(old(self)),
            forall|schemas: SchemaSource| #[trigger]
                agrees(schemas, final(self).record@) ==> {
                    let (st, t) = inferred_node(
                        schemas,
                        old(self).limits,
                        old(self)@,
                        expression@,
                        location@,
                        depth as nat,
                    );
                    final(self)@ == st && seen_type(res) == t
                },
        decreases expression, 3int,
    {
        let deeper: usize = depth.saturating_add(1);
        match expression {
            ExpressionV1::Literal { value } => self.infer_literal(value, location, depth),
            ExpressionV1::Ref { reference } => self.resolve_reference(reference, location),
            ExpressionV1::All { expressions } => {
                self.infer_all(expressions, location, deeper);
                Some(ExpressionType::bool())
            },
            ExpressionV1::Any { expressions } => {
                self.infer_all(expressions, location, deeper);
                Some(ExpressionType::bool())
            },
            ExpressionV1::Not { expression } => {
                let child = located(location, ".expression");
                match self.infer_expression(expression, &child, deeper) {
                    Some(t) => {
                        self.require_bool(&t, &child);
                    },
                    None => {},
                }
                Some(ExpressionType::bool())
            },
            ExpressionV1::Exists { reference } => {
                let child = located(location, ".reference");
                self.resolve_reference(reference, &child);
                Some(ExpressionType::bool())
            },
            ExpressionV1::IsNull { expression } => {
                let child = located(location, ".expression");
                self.infer_expression(expression, &child, deeper);
                Some(ExpressionType::bool())
            },
            ExpressionV1::IsEmpty { expression } => {
                let child = located(location, ".expression");
                match self.infer_expression(expression, &child, deeper) {
                    Some(t) => match &t.kind {
                        ExpressionTypeKind::String
                        | ExpressionTypeKind::List(_)
                        | ExpressionTypeKind::Object(_)
                        | ExpressionTypeKind::Any => {},
                        _ => {
                            self.type_mismatch(&child, "string, list, or object", &t);
                        },
                    },
                    None => {},
                }
                Some(ExpressionType::bool())
            },
            ExpressionV1::Compare { .. } => self.infer_pair(expression, location, depth),
            ExpressionV1::Contains { .. } => self.infer_texts(expression, location, depth),
            ExpressionV1::StartsWith { .. } => self.infer_texts(expression, location, depth),
            ExpressionV1::EndsWith { .. } => self.infer_texts(expression, location, depth),
            ExpressionV1::Matches { value, pattern } => {
                self.infer_string_operand(value, location, ".value", deeper);
                let child = located(location, ".pattern");
                self.compile_regex(pattern, &child);
                Some(ExpressionType::bool())
            },
            ExpressionV1::In { .. } => self.infer_pair(expression, location, depth),
            ExpressionV1::Quantifier { .. } => self.infer_quantifier(expression, location, depth),
        }
    }

    /// The type of a comparison or of a membership test.
    fn infer_pair(&mut self, expression: &ExpressionV1, location: &str, depth: usize) -> (res:
        Option<ExpressionType>)
        requires
            old(self).sound(),
            expression@ is Compare || expression@ is In,
        ensures
            final(self).follows(old(self)),
            forall|schemas: SchemaSource| #[trigger]
                agrees(schemas, final(self).record@) ==> {
                    let (st, t) = inferred_node(
                        schemas,
                        old(self).limits,
                        old(self)@,
                        expression@,
                        location@,
                        depth as nat,
                    );
                    final(self)@ == st && seen_type(res) == t
                },
        decreases expression, 2int,
    {
        let deeper: usize = depth.saturating_add(1);
        match expression {
            ExpressionV1::Compare { operator, left, right } => {
                let left_location = located(location, ".left");
                let right_location = located(location, ".right");
                let left_type = self.infer_expression(left, &left_location, deeper);
                let right_type = self.infer_expression(right, &right_location, deeper);
                self.check_comparison(*operator, &left_type, &right_type, location);
                Some(ExpressionType::bool())
            },
            ExpressionV1::In { needle, collection } => {
                let needle_location = located(location, ".needle");
                let collection_location = located(location, ".collection");
                let needle_type = self.infer_expression(needle, &needle_location, deeper);
                let collection_type = self.infer_expression(
                    collection,
                    &collection_location,
                    deeper,
                );
                self.check_membership(&needle_type, &collection_type, location);
                Some(ExpressionType::bool())
            },
            _ => None,
        }
    }

    /// The type of a predicate on two texts.
    fn infer_texts(&mut self, expression: &ExpressionV1, location: &str, depth: usize) -> (res:
        Option<ExpressionType>)
        requires
            old(self).sound(),
            expression@ is Contains || expression@ is StartsWith || expression@ is EndsWith,
        ensures
            final(self).follows(old(self)),
            forall|schemas: SchemaSource| #[trigger]
                agrees(schemas, final(self).record@) ==> {
                    let (st, t) = inferred_node(
                        schemas,
                        old(self).limits,
                        old(self)@,
                        expression@,
                        location@,
                        depth as nat,
                    );
                    final(self)@ == st && seen_type(res) == t
                },
        decreases expression, 2int,
    {
        let deeper: usize = depth.saturating_add(1);
        match expression {
            ExpressionV1::Contains { value, needle } => {
                self.infer_string_operand(value, location, ".value", deeper);
                self.infer_string_operand(needle, location, ".operand", deeper);
                Some(ExpressionType::bool())
            },
            ExpressionV1::StartsWith { value, prefix } => {
                self.infer_string_operand(value, location, ".value", deeper);
                self.infer_string_operand(prefix, location, ".operand", deeper);
                Some(ExpressionType::bool())
            },
            ExpressionV1::EndsWith { value, suffix } => {
                self.infer_string_operand(value, location, ".value", deeper);
                self.infer_string_operand(suffix, location, ".operand", deeper);
                Some(ExpressionType::bool())
            },
            _ => None,
        }
    }

    fn infer_quantifier(&mut self, expression: &ExpressionV1, location: &str, depth: usize) -> (res:
        Option<ExpressionType>)
        requires
            old(self).sound(),
            expression@ is Quantifier,
        ensures
            final(self).follows(old(self)),
            forall|schemas: SchemaSource| #[trigger]
                agrees(schemas, final(self).record@) ==> {
                    let (st, t) = inferred_node(
                        schemas,
                        old(self).limits,
                        old(self)@,
                        expression@,
                        location@,
                        depth as nat,
                    );
                    final(self)@ == st && seen_type(res) == t
                },
        decreases expression, 2int,
    {
        let deeper: usize = depth.saturating_add(1);
        match expression {
            ExpressionV1::Quantifier { collection, binding, predicate, .. } => {
                let collection_location = located(location, ".collection");
                let collection_type = self.infer_expression(
                    collection,
                    &collection_location,
                    deeper,
                );
                let item = self.quantifier_item_type(&collection_type, &collection_location);
                let outer: usize = self.quantifier_depth;
                let binding_location = located(location, ".binding");
                let pushed = self.enter(binding, item, &binding_location);
                let predicate_location = located(location, ".predicate");
                match self.infer_expression(predicate, &predicate_location, deeper) {
                    Some(t) => {
                        self.require_bool(&t, &predicate_location);
                    },
                    None => {},
                }
                self.leave(pushed, outer);
                Some(ExpressionType::bool())
            },
            _ => None,
        }
    }

    fn infer_string_operand(
        &mut self,
        expression: &ExpressionV1,
        location: &str,
        suffix: &str,
        deeper: usize,
    )
        requires
            old(self).sound(),
        ensures
            final(self).follows(old(self)),
            forall|schemas: SchemaSource| #[trigger]
                agrees(schemas, final(self).record@) ==> final(self)@ == expect_string(
                    inferred(
                        schemas,
                        old(self).limits,
                        old(self)@,
                        expression@,
                        location@ + suffix@,
                        deeper as nat,
                    ),
                    location@ + suffix@,
                ),
        decreases expression, 5int,
    {
        let child = located(location, suffix);
        match self.infer_expression(expression, &child, deeper) {
            Some(t) => {
                self.require_string(&t, &child);
            },
            None => {},
        }
    }

    fn infer_all(&mut self, expressions: &Vec<ExpressionV1>, location: &str, deeper: usize)
        requires
            old(self).sound(),
        ensures
            final(self).follows(old(self)),
            forall|schemas: SchemaSource| #[trigger]
                agrees(schemas, final(self).record@) ==> final(self)@ == inferred_all(
                    schemas,
                    old(self).limits,
                    old(self)@,
                    expr_views(expressions@),
                    location@,
                    deeper as nat,
                    0,
                ),
        decreases expressions, 0int,
    {
        let ghost limits = self.limits;
        let ghost views = expr_views(expressions@);
        let mut i: usize = 0;
        while i < expressions.len()
            invariant
                i <= expressions@.len(),
                views == expr_views(expressions@),
                self.follows(old(self)),
                self.sound(),
                limits == self.limits,
                forall|schemas: SchemaSource| #[trigger]
                    agrees(schemas, self.record@) ==> inferred_all(
                        schemas,
                        limits,
                        old(self)@,
                        views,
                        location@,
                        deeper as nat,
                        0,
                    ) == inferred_all(
                        schemas,
                        limits,
                        self@,
                        views,
                        location@,
                        deeper as nat,
                        i as nat,
                    ),
            decreases expressions@.len() - i,
        {
            assert(decreases_to!(expressions@ => expressions@[i as int]));
            assert(views[i as int] == expressions@[i as int]@);
            let mut child = located(location, ".expressions[");
            child.append(&count_text(i));
            child.append("]");
            match self.infer_expression(&expressions[i], &child, deeper) {
                Some(t) => {
                    self.require_bool(&t, &child);
                },
                None => {},
            }
            i = i + 1;
        }
    }

    fn check_comparison(
        &mut self,
        operator: ComparisonOperator,
        left: &Option<ExpressionType>,
        right: &Option<ExpressionType>,
        location: &str,
    )
        requires
            old(self).sound(),
        ensures
            final(self).follows(old(self)),
            final(self)@ == comparison_check(
                old(self)@,
                operator,
                seen_type(*left),
                seen_type(*right),
                location@,
            ),
    {
        match (left, right) {
            (Some(l), Some(r)) => {
                let compatible = match operator {
                    ComparisonOperator::Equal | ComparisonOperator::NotEqual =>
                        equality_types_compatible(l, r),
                    _ => ordering_types_compatible(l, r),
                };
                if !compatible {
                    let mut message = joined("operator ", &operator_name(operator));
                    message.append(" cannot compare ");
                    message.append(&l.describe());
                    message.append(" with ");
                    message.append(&r.describe());
                    self.report(ExpressionDiagnosticCode::TypeMismatch, location, &message);
                }
            },
            _ => {},
        }
    }

    fn check_membership(
        &mut self,
        needle: &Option<ExpressionType>,
        collection: &Option<ExpressionType>,
        location: &str,
    )
        requires
            old(self).sound(),
        ensures
            final(self).follows(old(self)),
            final(self)@ == membership_check(
                old(self)@,
                seen_type(*needle),
                seen_type(*collection),
                location@,
            ),
    {
        match collection {
            None => {},
            Some(c) => match &c.kind {
                ExpressionTypeKind::List(item) => match needle {
                    None => {},
                    Some(n) => {
                        if !equality_types_compatible(n, item) {
                            let mut message = joined("in operand ", &n.describe());
                            message.append(" is incompatible with collection item ");
                            message.append(&item.describe());
                            self.report(
                                ExpressionDiagnosticCode::TypeMismatch,
                                location,
                                &message,
                            );
                        }
                    },
                },
                ExpressionTypeKind::Any => {},
                _ => {
                    let child = located(location, ".collection");
                    self.type_mismatch(&child, "list", c);
                },
            },
        }
    }

    fn quantifier_item_type(&mut self, collection: &Option<ExpressionType>, location: &str) -> (res:
        Option<ExpressionType>)
        requires
            old(self).sound(),
        ensures
            final(self).follows(old(self)),
            (final(self)@, seen_type(res)) == quantifier_item(
                old(self)@,
                seen_type(*collection),
                location@,
            ),
    {
        match collection {
            None => None,
            Some(c) => match &c.kind {
                ExpressionTypeKind::List(item) => Some((**item).clone()),
                ExpressionTypeKind::Any => Some(ExpressionType::required(ExpressionTypeKind::Any)),
                _ => {
                    self.type_mismatch(location, "list", c);
                    None
                },
            },
        }
    }

    /// Brings the binding of a quantifier into scope.
    fn enter(&mut self, binding: &str, item: Option<ExpressionType>, location: &str) -> (pushed:
        bool)
        requires
            old(self).sound(),
        ensures
            final(self).sound(),
            final(self).resolver == old(self).resolver,
            final(self).limits == old(self).limits,
            final(self).keeps_record(old(self)),
            final(self)@ == enter_quantifier(
                old(self).limits,
                old(self)@,
                binding@,
                seen_type(item),
                location@,
            ),
            pushed ==> final(self)@.locals.len() > 0 && final(self)@.locals.drop_last()
                == old(self)@.locals,
            !pushed ==> final(self)@.locals == old(self)@.locals,
    {
        let valid = text_len(binding) > 0 && text_len(binding) <= self.limits.max_string_bytes
            && !self.has_local(binding);
        if !valid {
            self.report(
                ExpressionDiagnosticCode::InvalidBinding,
                location,
                "quantifier binding must be non-empty, bounded, and must not shadow an active binding",
            );
        }
        self.quantifier_depth = self.quantifier_depth.saturating_add(1);
        if self.quantifier_depth > self.limits.max_quantifier_depth {
            let message = joined(
                "quantifier nesting exceeds limit ",
                &count_text(self.limits.max_quantifier_depth),
            );
            self.push_limit_once(location, &message);
        }
        if !valid {
            return false;
        }
        match item {
            None => false,
            Some(t) => {
                let ghost before = type_views(self.locals@);
                let ghost added = (binding@, t@);
                self.locals.push((owned(binding), t));
                assert(type_views(self.locals@) =~= before.push(added));
                assert(before.push(added).drop_last() =~= before);
                true
            },
        }
    }

    /// Takes the binding of a quantifier out of scope again.
    fn leave(&mut self, pushed: bool, depth: usize)
        requires
            old(self).sound(),
            pushed ==> old(self)@.locals.len() > 0,
        ensures
            final(self).sound(),
            final(self).resolver == old(self).resolver,
            final(self).limits == old(self).limits,
            final(self).keeps_record(old(self)),
            final(self)@ == (CheckView {
                quantifiers: depth as nat,
                locals: if pushed {
                    old(self)@.locals.drop_last()
                } else {
                    old(self)@.locals
                },
                ..old(self)@
            }),
    {
        if pushed {
            let ghost before = type_views(self.locals@);
            self.locals.pop();
            assert(type_views(self.locals@) =~= before.drop_last());
        }
        self.quantifier_depth = depth;
    }

    fn finish(self, expression: ExpressionV1, result_type: Option<ExpressionType>) -> (res: Result<
        CheckedExpressionV1,
        Vec<ExpressionDiagnostic>,
    >)
        requires
            self.sound(),
        ensures
            match res {
                Ok(program) => concluded(self.limits, self@, expression@, seen_type(result_type))
                    == Ok::<ProgramView, Seq<DiagView>>(program@),
                Err(list) => concluded(self.limits, self@, expression@, seen_type(result_type))
                    == Err::<ProgramView, Seq<DiagView>>(diag_views(list@)),
            },
    {
        if self.diagnostics.len() > 0 {
            return Err(self.diagnostics);
        }
        match result_type {
            None => {
                let mut list: Vec<ExpressionDiagnostic> = Vec::new();
                list.push(
                    ExpressionDiagnostic::new(
                        ExpressionDiagnosticCode::TypeMismatch,
                        "$",
                        "expression type could not be inferred",
                    ),
                );
                assert(diag_views(list@) =~= seq![list@[0]@]);
                Err(list)
            },
            Some(result_type) => Ok(
                CheckedExpressionV1 {
                    expression,
                    result_type,
                    limits: self.limits,
                    regexes: self.regexes,
                    resolved_references: self.resolved_references,
                },
            ),
        }
    }
}

/// What a check came to.
pub open spec fn check_view(res: Result<CheckedExpressionV1, Vec<ExpressionDiagnostic>>) -> Result<
    ProgramView,
    Seq<DiagView>,
> {
    match res {
        Ok(program) => Ok(program@),
        Err(list) => Err(diag_views(list@)),
    }
}

/// What the check of a value expression is of: there is a record of what the
/// resolver answered, and the check is that over any answers that agree with the
/// record. Where it passes, each reference in the record was given a type, and so
/// stands in it once.
pub open spec fn value_check_of<R: ExpressionSchemaResolver>(
    resolver: &R,
    limits: ExpressionLimits,
    e: ExprView,
    outcome: Result<ProgramView, Seq<DiagView>>,
) -> bool {
    exists|record: Seq<TypeReply>| #[trigger]
        replied(resolver, limits, record) && (outcome is Ok ==> all_typed(record)) && forall|
            schemas: SchemaSource,
        | #[trigger] agrees(schemas, record) ==> checked_value(schemas, limits, e) == outcome
}

/// The same of a rule.
pub open spec fn rule_check_of<R: ExpressionSchemaResolver>(
    resolver: &R,
    limits: ExpressionLimits,
    e: ExprView,
    outcome: Result<ProgramView, Seq<DiagView>>,
) -> bool {
    exists|record: Seq<TypeReply>| #[trigger]
        replied(resolver, limits, record) && (outcome is Ok ==> all_typed(record)) && forall|
            schemas: SchemaSource,
        | #[trigger] agrees(schemas, record) ==> checked_rule(schemas, limits, e) == outcome
}

/// A record in which every reference was given a type.
pub open spec fn all_typed(record: Seq<TypeReply>) -> bool {
    forall|i: int| 0 <= i < record.len() ==> (#[trigger] record[i]).found is Ok
}

/// Type-check a value expression and compile all regular expressions.
pub fn check_value_expression<R: ExpressionSchemaResolver>(
    expression: ExpressionV1,
    resolver: &R,
    limits: ExpressionLimits,
) -> (res: Result<CheckedExpressionV1, Vec<ExpressionDiagnostic>>)
    ensures
        value_check_of(resolver, limits, expression@, check_view(res)),
{
    let mut checker = Checker::new(resolver, limits);
    let result_type = checker.infer_expression(&expression, "$", 1);
    let ghost record = checker.record@;
    let ghost faults = checker@.diagnostics.len();
    let res = checker.finish(expression, result_type);
    proof {
        assert(replied(resolver, limits, record));
        assert(res is Ok ==> faults == 0);
        assert(res is Ok ==> all_typed(record));
    }
    res
}

/// Type-check a Boolean rule. A nullable or optional Boolean reference is a
/// valid rule type, but it can evaluate to `Null` or `Missing`; callers must
/// apply an explicit execution policy to that state.
pub fn check_rule<R: ExpressionSchemaResolver>(
    expression: RuleExprV1,
    resolver: &R,
    limits: ExpressionLimits,
) -> (res: Result<CheckedExpressionV1, Vec<ExpressionDiagnostic>>)
    ensures
        rule_check_of(resolver, limits, expression@, check_view(res)),
{
    let mut checker = Checker::new(resolver, limits);
    let result_type = checker.infer_expression(&expression, "$", 1);
    match &result_type {
        Some(t) => match &t.kind {
            ExpressionTypeKind::Bool => {},
            _ => {
                let message = joined("rule root must have bool type, found ", &t.describe());
                checker.report(ExpressionDiagnosticCode::ExpectedBoolean, "$", &message);
            },
        },
        None => {},
    }
    let ghost record = checker.record@;
    let ghost faults = checker@.diagnostics.len();
    let res = checker.finish(expression, result_type);
    proof {
        assert(replied(resolver, limits, record));
        assert(res is Ok ==> faults == 0);
        assert(res is Ok ==> all_typed(record));
    }
    res
}

} // verus!
