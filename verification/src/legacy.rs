//! Import of the linear task format.
//!
//! New editors construct a [`WorkflowGraph`] directly. Keeping legacy lowering
//! behind this importer prevents canvas coordinates, parent maps, or declaration
//! adjacency from becoming implicit graph semantics.
use vstd::prelude::*;

use crate::binding::binding_views;
use crate::context::{
    part_views, segment_views, Binding, BindingView, ContextPathSegment, ContextScope, FieldRef,
    FieldRefView, PartView, ScopeView, SegmentView, TemplatePart,
};
use crate::faults::all_reported;
use crate::graph::{
    edge_views, empty_graph, node_views, ActionNode, ActionNodeView, EdgeView, ForEachNode,
    ForEachView, GraphEdge, GraphNode, GraphView, LoopFailurePolicy, NodeView, WorkflowGraph,
};
use crate::graph_check::all_faults;
use crate::graph_error::{error_views, EdgePort, GraphErrorView, GraphValidationError};
use crate::json::{Value, ValueView};
use crate::names;
use crate::names::{has_name, insert_name, put};
use crate::schema::{clone_optional, optional_text};
use crate::store::ref_views;
use crate::task::{
    clone_bindings, condition_views, optional_condition, Action, ActionView, AuthPolicy,
    ConditionView, ElevationPolicy, Step, StepCondition, StepView,
};
use crate::text;
use crate::text::{
    chars_of, ends_with, find_from, joined, owned, piece, quoted, same_text, split_text,
    starts_with, text_len, text_views, trim,
};
use crate::text_map;
use crate::text_map::TextMap;

verus! {

// ---------------------------------------------------------------------------
// Errors
// ---------------------------------------------------------------------------
#[derive(Debug, PartialEq)]
pub enum LinearMigrationError {
    EmptySteps,
    InvalidStep { step: String, message: String },
    UnsupportedLegacyControl { step: String, reason: String },
    InvalidGeneratedGraph { errors: Vec<GraphValidationError> },
}

pub enum LinearFault {
    EmptySteps,
    InvalidStep { step: Seq<char>, message: Seq<char> },
    UnsupportedLegacyControl { step: Seq<char>, reason: Seq<char> },
    InvalidGeneratedGraph { errors: Seq<GraphErrorView> },
}

impl LinearMigrationError {
    pub open spec fn view(&self) -> LinearFault {
        match self {
            LinearMigrationError::EmptySteps => LinearFault::EmptySteps,
            LinearMigrationError::InvalidStep { step, message } => LinearFault::InvalidStep {
                step: step@,
                message: message@,
            },
            LinearMigrationError::UnsupportedLegacyControl { step, reason } =>
                LinearFault::UnsupportedLegacyControl { step: step@, reason: reason@ },
            LinearMigrationError::InvalidGeneratedGraph { errors } =>
                LinearFault::InvalidGeneratedGraph { errors: error_views(errors@) },
        }
    }

    /// The message that a reader is shown.
    pub fn message(&self) -> (res: String)
        ensures
            res@ == self@.message(),
    {
        match self {
            LinearMigrationError::EmptySteps => owned("cannot migrate an empty v1 step list"),
            LinearMigrationError::InvalidStep { step, message } => {
                let mut out = joined("legacy step ", &quoted(step));
                out.append(" is invalid: ");
                out.append(message);
                out
            },
            LinearMigrationError::UnsupportedLegacyControl { step, reason } => {
                let mut out = joined("legacy control step ", &quoted(step));
                out.append(" cannot be migrated safely: ");
                out.append(reason);
                out
            },
            LinearMigrationError::InvalidGeneratedGraph { errors } => joined(
                "migrated graph is invalid: ",
                &join_messages(errors),
            ),
        }
    }
}

/// Messages with semicolons between them.
pub open spec fn messages_text(errors: Seq<GraphErrorView>) -> Seq<char>
    decreases errors.len(),
{
    if errors.len() == 0 {
        Seq::empty()
    } else if errors.len() == 1 {
        errors[0].message()
    } else {
        messages_text(errors.drop_last()) + "; "@ + errors.last().message()
    }
}

pub fn join_messages(errors: &Vec<GraphValidationError>) -> (res: String)
    ensures
        res@ == messages_text(error_views(errors@)),
{
    let ghost views = error_views(errors@);
    let mut out = String::new();
    let mut i: usize = 0;
    assert(out@ =~= messages_text(views.take(0)));
    while i < errors.len()
        invariant
            i <= errors@.len(),
            views == error_views(errors@),
            out@ == messages_text(views.take(i as int)),
        decreases errors@.len() - i,
    {
        proof {
            assert(views.take(i + 1).drop_last() =~= views.take(i as int));
            assert(views.take(i + 1).last() == errors@[i as int]@);
        }
        if i > 0 {
            out.append("; ");
            out.append(&errors[i].message());
        } else {
            out.append(&errors[i].message());
            assert(out@ =~= errors@[i as int]@.message());
        }
        i = i + 1;
    }
    assert(views.take(i as int) =~= views);
    out
}

impl LinearFault {
    pub open spec fn message(self) -> Seq<char> {
        match self {
            LinearFault::EmptySteps => "cannot migrate an empty v1 step list"@,
            LinearFault::InvalidStep { step, message } => "legacy step "@ + text::debug_text(step)
                + " is invalid: "@ + message,
            LinearFault::UnsupportedLegacyControl { step, reason } => "legacy control step "@
                + text::debug_text(step) + " cannot be migrated safely: "@ + reason,
            LinearFault::InvalidGeneratedGraph { errors } => "migrated graph is invalid: "@
                + messages_text(errors),
        }
    }
}

pub open spec fn unsupported(step: StepView, reason: Seq<char>) -> LinearFault {
    LinearFault::UnsupportedLegacyControl { step: step.id, reason }
}

fn unsupported_legacy(step: &Step, reason: &str) -> (res: LinearMigrationError)
    ensures
        res@ == unsupported(step@, reason@),
{
    LinearMigrationError::UnsupportedLegacyControl { step: step.id.clone(), reason: owned(reason) }
}

// ---------------------------------------------------------------------------
// Templates
// ---------------------------------------------------------------------------
pub open spec fn field_part(loop_id: Seq<char>, path: Seq<Seq<char>>) -> PartView {
    PartView::Field {
        field: FieldRefView {
            scope: ScopeView::LoopItem { step_id: loop_id },
            segments: crate::rewrite::named_path(path),
        },
    }
}

pub open spec fn some_empty(path: Seq<Seq<char>>) -> bool {
    exists|i: int| 0 <= i < path.len() && (#[trigger] path[i]).len() == 0
}

/// The names behind the loop item in an expression of a template.
pub open spec fn expression_path(expression: Seq<char>, alias: Seq<char>) -> Result<
    Seq<Seq<char>>,
    Seq<char>,
> {
    let segments = text::split(expression, '.');
    if segments[0] != alias {
        Err(
            "template expression "@ + text::debug_text(expression)
                + " must start with loop item "@ + text::debug_text(alias),
        )
    } else if segments.len() == 1 || some_empty(segments.skip(1)) {
        Err(
            "template expression "@ + text::debug_text(expression)
                + " must select a non-empty item field path"@,
        )
    } else {
        Ok(segments.skip(1))
    }
}

/// The parts of a template from a position on, behind those already found, and
/// the item fields that they read.
pub open spec fn template_parts(
    template: Seq<char>,
    loop_id: Seq<char>,
    alias: Seq<char>,
    at: nat,
    parts: Seq<PartView>,
    fields: Seq<Seq<char>>,
) -> Result<(Seq<PartView>, Seq<Seq<char>>), Seq<char>>
    decreases template.len() + 1 - at,
{
    proof {
        text::lemma_find(template, "{{"@, at);
        if text::find(template, "{{"@, at) is Some {
            text::lemma_find(template, "}}"@, text::find(template, "{{"@, at)->0 + 2);
        }
        reveal_strlit("{{");
        reveal_strlit("}}");
    }
    match text::find(template, "{{"@, at) {
        None => Ok(
            (
                if at < template.len() {
                    parts.push(PartView::Literal { value: template.skip(at as int) })
                } else {
                    parts
                },
                fields,
            ),
        ),
        Some(start) => {
            let before = if start > at {
                parts.push(
                    PartView::Literal { value: template.subrange(at as int, start as int) },
                )
            } else {
                parts
            };
            match text::find(template, "}}"@, start + 2) {
                None => Err("unclosed legacy template "@ + text::debug_text(template)),
                Some(end) => match expression_path(
                    text::trimmed(template.subrange(start as int + 2, end as int)),
                    alias,
                ) {
                    Err(reason) => Err(reason),
                    Ok(path) => template_parts(
                        template,
                        loop_id,
                        alias,
                        end + 2,
                        before.push(field_part(loop_id, path)),
                        put(fields, path[0]),
                    ),
                },
            }
        },
    }
}

/// A template that is one expression with white space around it.
pub open spec fn padded_expression(template: Seq<char>) -> bool {
    let inner = text::trimmed(template);
    inner != template && text::has_prefix(inner, "{{"@) && text::has_suffix(
        inner.skip(2),
        "}}"@,
    )
}

/// The binding that a template of the linear format stands for, and the item
/// fields that it reads.
pub open spec fn item_template(
    template: Seq<char>,
    loop_id: Seq<char>,
    alias: Seq<char>,
    optional: bool,
) -> Result<(BindingView, Seq<Seq<char>>), Seq<char>> {
    if optional && padded_expression(template) {
        Err(
            "optional whole-field template has surrounding whitespace and cannot preserve null semantics"@,
        )
    } else {
        match template_parts(template, loop_id, alias, 0, Seq::empty(), Seq::empty()) {
            Err(reason) => Err(reason),
            Ok((parts, fields)) => Ok(
                (
                    if fields.len() == 0 {
                        BindingView::Literal { value: ValueView::String(template) }
                    } else if parts.len() == 1 {
                        match parts[0] {
                            PartView::Field { field } => BindingView::Field { field },
                            PartView::Literal { value } => BindingView::Literal {
                                value: ValueView::String(value),
                            },
                        }
                    } else {
                        BindingView::Interpolated { parts }
                    },
                    fields,
                ),
            ),
        }
    }
}

fn parse_expression(expression: &str, alias: &str) -> (res: Result<Vec<String>, String>)
    ensures
        match res {
            Ok(path) => expression_path(expression@, alias@) == Ok::<Seq<Seq<char>>, Seq<char>>(
                text_views(path@),
            ) && path@.len() > 0,
            Err(reason) => expression_path(expression@, alias@) == Err::<
                Seq<Seq<char>>,
                Seq<char>,
            >(reason@),
        },
{
    let segments = split_text(expression, '.');
    let ghost views = text_views(segments@);
    assert(views[0] == segments@[0]@);
    if !same_text(&segments[0], alias) {
        let mut out = joined("template expression ", &quoted(expression));
        out.append(" must start with loop item ");
        out.append(&quoted(alias));
        return Err(out);
    }
    let mut path: Vec<String> = Vec::new();
    let mut i: usize = 1;
    let mut empty = segments.len() == 1;
    assert(text_views(path@) =~= views.subrange(1, 1));
    let ghost rest = views.skip(1);
    while i < segments.len()
        invariant
            1 <= i <= segments@.len(),
            views == text_views(segments@),
            rest == views.skip(1),
            text_views(path@) == views.subrange(1, i as int),
            empty == (segments@.len() == 1 || exists|j: int|
                0 <= j < i - 1 && (#[trigger] rest[j]).len() == 0),
        decreases segments@.len() - i,
    {
        let ghost before = text_views(path@);
        assert(rest[i - 1] == segments@[i as int]@);
        if text_len(&segments[i]) == 0 {
            empty = true;
        }
        path.push(segments[i].clone());
        proof {
            assert(text_views(path@) =~= before.push(segments@[i as int]@));
            assert(before.push(segments@[i as int]@) =~= views.subrange(1, i + 1));
        }
        i = i + 1;
    }
    assert(views.subrange(1, i as int) =~= rest);
    if empty {
        assert(segments@.len() == 1 || some_empty(rest));
        let mut out = joined("template expression ", &quoted(expression));
        out.append(" must select a non-empty item field path");
        return Err(out);
    }
    assert(!some_empty(rest));
    Ok(path)
}

fn item_field(loop_id: &str, path: &Vec<String>) -> (res: FieldRef)
    ensures
        (PartView::Field { field: res@ }) == field_part(loop_id@, text_views(path@)),
{
    let ghost names = text_views(path@);
    let ghost all = crate::rewrite::named_path(names);
    let mut segments: Vec<ContextPathSegment> = Vec::new();
    let mut i: usize = 0;
    assert(segment_views(segments@) =~= all.take(0));
    while i < path.len()
        invariant
            i <= path@.len(),
            names == text_views(path@),
            all == crate::rewrite::named_path(names),
            segment_views(segments@) == all.take(i as int),
        decreases path@.len() - i,
    {
        let ghost was = segment_views(segments@);
        segments.push(ContextPathSegment::field(&path[i]));
        proof {
            assert(names[i as int] == path@[i as int]@);
            assert(segment_views(segments@) =~= was.push(all[i as int]));
            assert(was.push(all[i as int]) =~= all.take(i + 1));
        }
        i = i + 1;
    }
    assert(all.take(i as int) =~= all);
    FieldRef { scope: ContextScope::LoopItem { step_id: owned(loop_id) }, segments }
}

fn parse_template(template: &str, loop_id: &str, alias: &str) -> (res: Result<
    (Vec<TemplatePart>, Vec<String>),
    String,
>)
    ensures
        match res {
            Ok((parts, fields)) => template_parts(
                template@,
                loop_id@,
                alias@,
                0,
                Seq::empty(),
                Seq::empty(),
            ) == Ok::<(Seq<PartView>, Seq<Seq<char>>), Seq<char>>(
                (part_views(parts@), text_views(fields@)),
            ),
            Err(reason) => template_parts(
                template@,
                loop_id@,
                alias@,
                0,
                Seq::empty(),
                Seq::empty(),
            ) == Err::<(Seq<PartView>, Seq<Seq<char>>), Seq<char>>(reason@),
        },
{
    let chars = chars_of(template);
    let n: usize = chars.len();
    let ghost whole = template_parts(
        template@,
        loop_id@,
        alias@,
        0,
        Seq::empty(),
        Seq::empty(),
    );
    let mut parts: Vec<TemplatePart> = Vec::new();
    let mut fields: Vec<String> = Vec::new();
    let mut at: usize = 0;
    proof {
        assert(part_views(parts@) =~= Seq::empty());
        assert(text_views(fields@) =~= Seq::empty());
        reveal_strlit("{{");
        reveal_strlit("}}");
    }
    loop
        invariant
            chars@ == template@,
            n == chars@.len(),
            at <= n,
            "{{"@.len() == 2,
            "}}"@.len() == 2,
            whole == template_parts(
                template@,
                loop_id@,
                alias@,
                at as nat,
                part_views(parts@),
                text_views(fields@),
            ),
            whole == template_parts(
                template@,
                loop_id@,
                alias@,
                0,
                Seq::empty(),
                Seq::empty(),
            ),
        decreases n - at,
    {
        let ghost found_parts = part_views(parts@);
        match find_from(&chars, "{{", at) {
            None => {
                if at < n {
                    let rest = piece(&chars, at, n);
                    assert(rest@ =~= template@.skip(at as int));
                    parts.push(TemplatePart::literal(&rest));
                    assert(part_views(parts@) =~= found_parts.push(
                        PartView::Literal { value: rest@ },
                    ));
                }
                return Ok((parts, fields));
            },
            Some(start) => {
                if start > at {
                    let literal = piece(&chars, at, start);
                    parts.push(TemplatePart::literal(&literal));
                    assert(part_views(parts@) =~= found_parts.push(
                        PartView::Literal { value: literal@ },
                    ));
                }
                let ghost before = part_views(parts@);
                match find_from(&chars, "}}", start + 2) {
                    None => {
                        return Err(joined("unclosed legacy template ", &quoted(template)));
                    },
                    Some(end) => {
                        let expression = trim(&piece(&chars, start + 2, end));
                        match parse_expression(&expression, alias) {
                            Err(reason) => {
                                return Err(reason);
                            },
                            Ok(path) => {
                                assert(text_views(path@)[0] == path@[0]@);
                                insert_name(&mut fields, path[0].clone());
                                let field = item_field(loop_id, &path);
                                parts.push(TemplatePart::field(field));
                                assert(part_views(parts@) =~= before.push(
                                    field_part(loop_id@, text_views(path@)),
                                ));
                            },
                        }
                        at = end + 2;
                    },
                }
            },
        }
    }
}

fn is_padded(template: &str) -> (res: bool)
    ensures
        res == padded_expression(template@),
{
    let inner = trim(template);
    proof {
        reveal_strlit("{{");
    }
    if same_text(&inner, template) || !starts_with(&inner, "{{") {
        return false;
    }
    let chars = chars_of(&inner);
    let n: usize = chars.len();
    let rest = piece(&chars, 2, n);
    assert(rest@ =~= inner@.skip(2));
    ends_with(&rest, "}}")
}

fn migrate_item_template(template: &str, loop_id: &str, alias: &str, optional: bool) -> (res: Result<
    (Binding, Vec<String>),
    String,
>)
    ensures
        match res {
            Ok((binding, fields)) => item_template(template@, loop_id@, alias@, optional) == Ok::<
                (BindingView, Seq<Seq<char>>),
                Seq<char>,
            >((binding@, text_views(fields@))),
            Err(reason) => item_template(template@, loop_id@, alias@, optional) == Err::<
                (BindingView, Seq<Seq<char>>),
                Seq<char>,
            >(reason@),
        },
{
    if optional && is_padded(template) {
        return Err(
            owned(
                "optional whole-field template has surrounding whitespace and cannot preserve null semantics",
            ),
        );
    }
    let (parts, fields) = match parse_template(template, loop_id, alias) {
        Err(reason) => {
            return Err(reason);
        },
        Ok(found) => found,
    };
    if fields.len() == 0 {
        return Ok((Binding::literal(Value::String(owned(template))), fields));
    }
    let binding = if parts.len() == 1 {
        assert(part_views(parts@)[0] == parts@[0]@);
        match &parts[0] {
            TemplatePart::Field { field } => Binding::field(field.clone()),
            TemplatePart::Literal { value } => Binding::literal(Value::String(value.clone())),
        }
    } else {
        Binding::interpolated(parts)
    };
    Ok((binding, fields))
}

// ---------------------------------------------------------------------------
// References to the loop item
// ---------------------------------------------------------------------------
/// The references of a template from its `i`-th part on.
pub open spec fn part_refs(parts: Seq<PartView>, i: nat) -> Seq<FieldRefView>
    decreases parts.len() - i,
{
    if i >= parts.len() {
        Seq::empty()
    } else {
        match parts[i as int] {
            PartView::Field { field } => seq![field] + part_refs(parts, i + 1),
            PartView::Literal { .. } => part_refs(parts, i + 1),
        }
    }
}

pub open spec fn binding_refs(binding: BindingView) -> Seq<FieldRefView> {
    match binding {
        BindingView::Field { field } => seq![field],
        BindingView::Interpolated { parts } => part_refs(parts, 0),
        _ => Seq::empty(),
    }
}

/// The references of bindings from the `i`-th on.
pub open spec fn bindings_refs(bindings: Seq<(Seq<char>, BindingView)>, i: nat) -> Seq<FieldRefView>
    decreases bindings.len() - i,
{
    if i >= bindings.len() {
        Seq::empty()
    } else {
        binding_refs(bindings[i as int].1) + bindings_refs(bindings, i + 1)
    }
}

pub open spec fn condition_refs(c: ConditionView) -> Seq<FieldRefView>
    decreases c, 1int,
{
    match c {
        ConditionView::Expression { rule, .. } => rule.references(),
        ConditionView::All { conditions } => conditions_refs(conditions, 0),
        ConditionView::Any { conditions } => conditions_refs(conditions, 0),
        ConditionView::Not { condition } => condition_refs(*condition),
        _ => Seq::empty(),
    }
}

pub open spec fn conditions_refs(list: Seq<ConditionView>, i: nat) -> Seq<FieldRefView>
    decreases list, list.len() - i,
{
    if i >= list.len() {
        Seq::empty()
    } else {
        condition_refs(list[i as int]) + conditions_refs(list, i + 1)
    }
}

pub open spec fn optional_refs(c: Option<ConditionView>) -> Seq<FieldRefView> {
    match c {
        Some(c) => condition_refs(c),
        None => Seq::empty(),
    }
}

pub open spec fn of_loop(field: FieldRefView, loop_id: Seq<char>) -> bool {
    field.scope == (ScopeView::LoopItem { step_id: loop_id })
}

pub open spec fn reads_loop(refs: Seq<FieldRefView>, loop_id: Seq<char>) -> bool {
    exists|i: int| 0 <= i < refs.len() && of_loop(#[trigger] refs[i], loop_id)
}

pub open spec fn whole_item(field: FieldRefView) -> bool {
    field.segments.len() == 0 || field.segments[0] is Index
}

pub open spec fn reads_whole_item(refs: Seq<FieldRefView>, loop_id: Seq<char>) -> bool {
    exists|i: int|
        0 <= i < refs.len() && of_loop(#[trigger] refs[i], loop_id) && whole_item(refs[i])
}

/// The item fields that references from the `i`-th on read, put in order behind
/// those already found.
pub open spec fn item_fields(
    refs: Seq<FieldRefView>,
    loop_id: Seq<char>,
    i: nat,
    done: Seq<Seq<char>>,
) -> Seq<Seq<char>>
    decreases refs.len() - i,
{
    if i >= refs.len() {
        done
    } else {
        let field = refs[i as int];
        item_fields(
            refs,
            loop_id,
            i + 1,
            if of_loop(field, loop_id) && !whole_item(field) {
                put(done, field.segments[0]->name)
            } else {
                done
            },
        )
    }
}

fn append_refs(list: &mut Vec<FieldRef>, more: Vec<FieldRef>)
    ensures
        ref_views(final(list)@) == ref_views(old(list)@) + ref_views(more@),
{
    let ghost start = ref_views(list@);
    let ghost all = ref_views(more@);
    let mut i: usize = 0;
    assert(start + all.take(0) =~= start);
    while i < more.len()
        invariant
            i <= more@.len(),
            all == ref_views(more@),
            ref_views(list@) == start + all.take(i as int),
        decreases more@.len() - i,
    {
        let ghost was = ref_views(list@);
        list.push(more[i].clone());
        proof {
            assert(ref_views(list@) =~= was.push(all[i as int]));
            assert(was.push(all[i as int]) =~= start + all.take(i + 1));
        }
        i = i + 1;
    }
    assert(all.take(i as int) =~= all);
}

fn visit_binding_fields(binding: &Binding) -> (res: Vec<FieldRef>)
    ensures
        ref_views(res@) == binding_refs(binding@),
{
    let mut out: Vec<FieldRef> = Vec::new();
    match binding {
        Binding::Field { field } => {
            out.push(field.clone());
            assert(ref_views(out@) =~= seq![field@]);
        },
        Binding::Interpolated { parts } => {
            let ghost views = part_views(parts@);
            let mut i: usize = 0;
            assert(part_refs(views, 0) =~= ref_views(out@) + part_refs(views, 0));
            while i < parts.len()
                invariant
                    i <= parts@.len(),
                    views == part_views(parts@),
                    part_refs(views, 0) == ref_views(out@) + part_refs(views, i as nat),
                decreases parts@.len() - i,
            {
                assert(views[i as int] == parts@[i as int]@);
                let ghost was = ref_views(out@);
                let ghost rest = part_refs(views, (i + 1) as nat);
                match &parts[i] {
                    TemplatePart::Field { field } => {
                        out.push(field.clone());
                        assert(ref_views(out@) =~= was.push(field@));
                        assert(was + (seq![field@] + rest) =~= was.push(field@) + rest);
                    },
                    TemplatePart::Literal { .. } => {},
                }
                i = i + 1;
            }
            assert(ref_views(out@) + Seq::<FieldRefView>::empty() =~= ref_views(out@));
        },
        _ => {
            assert(ref_views(out@) =~= Seq::empty());
        },
    }
    out
}

fn visit_bindings(bindings: &TextMap<Binding>) -> (res: Vec<FieldRef>)
    ensures
        ref_views(res@) == bindings_refs(binding_views(bindings.entries@), 0),
{
    let ghost views = binding_views(bindings.entries@);
    let mut out: Vec<FieldRef> = Vec::new();
    let mut i: usize = 0;
    assert(bindings_refs(views, 0) =~= ref_views(out@) + bindings_refs(views, 0));
    while i < bindings.entries.len()
        invariant
            i <= bindings.entries@.len(),
            views == binding_views(bindings.entries@),
            bindings_refs(views, 0) == ref_views(out@) + bindings_refs(views, i as nat),
        decreases bindings.entries@.len() - i,
    {
        assert(views[i as int].1 == bindings.entries@[i as int].1@);
        let ghost was = ref_views(out@);
        let ghost rest = bindings_refs(views, (i + 1) as nat);
        let more = visit_binding_fields(&bindings.entries[i].1);
        let ghost added = ref_views(more@);
        append_refs(&mut out, more);
        assert(was + (added + rest) =~= was + added + rest);
        i = i + 1;
    }
    assert(ref_views(out@) + Seq::<FieldRefView>::empty() =~= ref_views(out@));
    out
}

fn visit_condition_fields(c: &StepCondition) -> (res: Vec<FieldRef>)
    ensures
        ref_views(res@) == condition_refs(c@),
    decreases c, 1int,
{
    match c {
        StepCondition::Expression { rule, .. } => rule.visit_context_references(),
        StepCondition::All { conditions } | StepCondition::Any { conditions } => visit_conditions(
            conditions,
        ),
        StepCondition::Not { condition } => visit_condition_fields(condition),
        _ => {
            let out: Vec<FieldRef> = Vec::new();
            assert(ref_views(out@) =~= Seq::empty());
            out
        },
    }
}

fn visit_conditions(list: &Vec<StepCondition>) -> (res: Vec<FieldRef>)
    ensures
        ref_views(res@) == conditions_refs(condition_views(list@), 0),
    decreases list, 0int,
{
    let ghost views = condition_views(list@);
    let mut out: Vec<FieldRef> = Vec::new();
    let mut i: usize = 0;
    assert(conditions_refs(views, 0) =~= ref_views(out@) + conditions_refs(views, 0));
    while i < list.len()
        invariant
            i <= list@.len(),
            views == condition_views(list@),
            conditions_refs(views, 0) == ref_views(out@) + conditions_refs(views, i as nat),
        decreases list@.len() - i,
    {
        assert(decreases_to!(list@ => list@[i as int]));
        assert(views[i as int] == list@[i as int]@);
        let ghost was = ref_views(out@);
        let ghost rest = conditions_refs(views, (i + 1) as nat);
        let more = visit_condition_fields(&list[i]);
        let ghost added = ref_views(more@);
        append_refs(&mut out, more);
        assert(was + (added + rest) =~= was + added + rest);
        i = i + 1;
    }
    assert(ref_views(out@) + Seq::<FieldRefView>::empty() =~= ref_views(out@));
    out
}

fn visit_optional(c: &Option<StepCondition>) -> (res: Vec<FieldRef>)
    ensures
        ref_views(res@) == optional_refs(optional_condition(*c)),
{
    match c {
        Some(c) => visit_condition_fields(c),
        None => {
            let out: Vec<FieldRef> = Vec::new();
            assert(ref_views(out@) =~= Seq::empty());
            out
        },
    }
}

fn is_of_loop(field: &FieldRef, loop_id: &str) -> (res: bool)
    ensures
        res == of_loop(field@, loop_id@),
{
    match &field.scope {
        ContextScope::LoopItem { step_id } => same_text(step_id, loop_id),
        _ => false,
    }
}

fn any_of_loop(refs: &Vec<FieldRef>, loop_id: &str) -> (res: bool)
    ensures
        res == reads_loop(ref_views(refs@), loop_id@),
{
    let ghost views = ref_views(refs@);
    let mut i: usize = 0;
    while i < refs.len()
        invariant
            i <= refs@.len(),
            views == ref_views(refs@),
            forall|j: int| 0 <= j < i ==> !of_loop(#[trigger] views[j], loop_id@),
        decreases refs@.len() - i,
    {
        assert(views[i as int] == refs@[i as int]@);
        if is_of_loop(&refs[i], loop_id) {
            return true;
        }
        i = i + 1;
    }
    false
}

fn is_whole_item(field: &FieldRef) -> (res: bool)
    ensures
        res == whole_item(field@),
{
    if field.segments.len() == 0 {
        return true;
    }
    assert(field@.segments[0] == field.segments@[0]@);
    matches!(&field.segments[0], ContextPathSegment::Index { .. })
}

fn any_whole_item(refs: &Vec<FieldRef>, loop_id: &str) -> (res: bool)
    ensures
        res == reads_whole_item(ref_views(refs@), loop_id@),
{
    let ghost views = ref_views(refs@);
    let mut i: usize = 0;
    while i < refs.len()
        invariant
            i <= refs@.len(),
            views == ref_views(refs@),
            forall|j: int|
                0 <= j < i ==> !(of_loop(#[trigger] views[j], loop_id@) && whole_item(views[j])),
        decreases refs@.len() - i,
    {
        assert(views[i as int] == refs@[i as int]@);
        if is_of_loop(&refs[i], loop_id) && is_whole_item(&refs[i]) {
            return true;
        }
        i = i + 1;
    }
    false
}

fn collect_item_fields(refs: &Vec<FieldRef>, loop_id: &str) -> (res: Vec<String>)
    ensures
        text_views(res@) == item_fields(ref_views(refs@), loop_id@, 0, Seq::empty()),
{
    let ghost views = ref_views(refs@);
    let mut done: Vec<String> = Vec::new();
    let mut i: usize = 0;
    assert(text_views(done@) =~= Seq::empty());
    while i < refs.len()
        invariant
            i <= refs@.len(),
            views == ref_views(refs@),
            item_fields(views, loop_id@, 0, Seq::empty()) == item_fields(
                views,
                loop_id@,
                i as nat,
                text_views(done@),
            ),
        decreases refs@.len() - i,
    {
        let field = &refs[i];
        assert(views[i as int] == field@);
        if is_of_loop(field, loop_id) && !is_whole_item(field) {
            assert(field@.segments[0] == field.segments@[0]@);
            match &field.segments[0] {
                ContextPathSegment::Field { name } => {
                    insert_name(&mut done, name.clone());
                },
                ContextPathSegment::Index { .. } => {},
            }
        }
        i = i + 1;
    }
    done
}

// ---------------------------------------------------------------------------
// Projections
// ---------------------------------------------------------------------------
/// The fields that a GitHub repository is known to have.
pub open spec fn repository_field(name: Seq<char>) -> bool {
    ||| name == "id"@
    ||| name == "owner"@
    ||| name == "name"@
    ||| name == "full_name"@
    ||| name == "https_url"@
    ||| name == "ssh_url"@
    ||| name == "default_branch"@
    ||| name == "private"@
    ||| name == "archived"@
}

fn is_repository_field(name: &str) -> (res: bool)
    ensures
        res == repository_field(name@),
{
    same_text(name, "id") || same_text(name, "owner") || same_text(name, "name") || same_text(
        name,
        "full_name",
    ) || same_text(name, "https_url") || same_text(name, "ssh_url") || same_text(
        name,
        "default_branch",
    ) || same_text(name, "private") || same_text(name, "archived")
}

/// The first projected field from the `i`-th on that is not known.
pub open spec fn unknown_projection(fields: Seq<Seq<char>>, i: nat) -> Option<Seq<char>>
    decreases fields.len() - i,
{
    if i >= fields.len() {
        None
    } else if !repository_field(fields[i as int]) {
        Some(
            "projected GitHub repository field "@ + text::debug_text(fields[i as int])
                + " is not guaranteed"@,
        )
    } else {
        unknown_projection(fields, i + 1)
    }
}

/// The first field read from the `i`-th on that is not projected.
pub open spec fn omitted_field(
    fields: Seq<Seq<char>>,
    referenced: Seq<Seq<char>>,
    i: nat,
) -> Option<Seq<char>>
    decreases referenced.len() - i,
{
    if i >= referenced.len() {
        None
    } else if !fields.contains(referenced[i as int]) {
        Some(
            "template references field "@ + text::debug_text(referenced[i as int])
                + " omitted by the v1 projection"@,
        )
    } else {
        omitted_field(fields, referenced, i + 1)
    }
}

/// The first of the steps before the `n`-th that has an identity.
pub open spec fn earlier_step(steps: Seq<StepView>, n: nat, id: Seq<char>, i: nat) -> Option<
    StepView,
>
    decreases n - i,
{
    if i >= n || i >= steps.len() {
        None
    } else if steps[i as int].id == id {
        Some(steps[i as int])
    } else {
        earlier_step(steps, n, id, i + 1)
    }
}

/// Why a loop that projects fields cannot be shown to yield those that are read.
pub open spec fn projection_fault(
    steps: Seq<StepView>,
    n: nat,
    source_step: Seq<char>,
    array_path: Seq<char>,
    fields: Seq<Seq<char>>,
    referenced: Seq<Seq<char>>,
) -> Option<Seq<char>> {
    if fields.len() == 0 {
        None
    } else {
        match earlier_step(steps, n, source_step, 0) {
            None => Some(
                "source step "@ + text::debug_text(source_step)
                    + " is not earlier than the loop"@,
            ),
            Some(source) => if !(source.action is GithubListRepositories) || array_path
                != "github.repositories"@ {
                Some(
                    "a non-empty v1 field projection is only proven for github.repositories output"@,
                )
            } else {
                match unknown_projection(fields, 0) {
                    Some(reason) => Some(reason),
                    None => omitted_field(fields, referenced, 0),
                }
            },
        }
    }
}

pub open spec fn step_views(steps: Seq<Step>) -> Seq<StepView> {
    steps.map_values(|s: Step| s.view())
}

fn find_earlier<'a>(steps: &'a Vec<Step>, n: usize, id: &str) -> (res: Option<&'a Step>)
    requires
        n <= steps@.len(),
    ensures
        match res {
            Some(step) => earlier_step(step_views(steps@), n as nat, id@, 0) == Some(step@),
            None => earlier_step(step_views(steps@), n as nat, id@, 0) is None,
        },
{
    let ghost views = step_views(steps@);
    let mut i: usize = 0;
    while i < n
        invariant
            i <= n <= steps@.len(),
            views == step_views(steps@),
            earlier_step(views, n as nat, id@, 0) == earlier_step(views, n as nat, id@, i as nat),
        decreases n - i,
    {
        assert(views[i as int] == steps@[i as int]@);
        if same_text(&steps[i].id, id) {
            return Some(&steps[i]);
        }
        i = i + 1;
    }
    None
}

fn prove_legacy_projection(
    steps: &Vec<Step>,
    n: usize,
    source_step: &str,
    array_path: &str,
    fields: &Vec<String>,
    referenced: &Vec<String>,
) -> (res: Result<(), String>)
    requires
        n <= steps@.len(),
    ensures
        ({
            let fault = projection_fault(
                step_views(steps@),
                n as nat,
                source_step@,
                array_path@,
                text_views(fields@),
                text_views(referenced@),
            );
            match res {
                Ok(_) => fault is None,
                Err(reason) => fault == Some(reason@),
            }
        }),
{
    if fields.len() == 0 {
        return Ok(());
    }
    let source = match find_earlier(steps, n, source_step) {
        None => {
            let mut out = joined("source step ", &quoted(source_step));
            out.append(" is not earlier than the loop");
            return Err(out);
        },
        Some(source) => source,
    };
    if !matches!(source.action, Action::GithubListRepositories) || !same_text(
        array_path,
        "github.repositories",
    ) {
        return Err(
            owned("a non-empty v1 field projection is only proven for github.repositories output"),
        );
    }
    let ghost names = text_views(fields@);
    let ghost wanted = text_views(referenced@);
    let ghost fault = projection_fault(
        step_views(steps@),
        n as nat,
        source_step@,
        array_path@,
        names,
        wanted,
    );
    let mut i: usize = 0;
    while i < fields.len()
        invariant
            i <= fields@.len(),
            names == text_views(fields@),
            fault == (match unknown_projection(names, i as nat) {
                Some(reason) => Some(reason),
                None => omitted_field(names, wanted, 0),
            }),
            fault == projection_fault(
                step_views(steps@),
                n as nat,
                source_step@,
                array_path@,
                names,
                text_views(referenced@),
            ),
        decreases fields@.len() - i,
    {
        assert(names[i as int] == fields@[i as int]@);
        if !is_repository_field(&fields[i]) {
            let mut out = joined("projected GitHub repository field ", &quoted(&fields[i]));
            out.append(" is not guaranteed");
            return Err(out);
        }
        i = i + 1;
    }
    let mut k: usize = 0;
    while k < referenced.len()
        invariant
            k <= referenced@.len(),
            names == text_views(fields@),
            wanted == text_views(referenced@),
            fault == omitted_field(names, wanted, k as nat),
            fault == projection_fault(
                step_views(steps@),
                n as nat,
                source_step@,
                array_path@,
                names,
                wanted,
            ),
        decreases referenced@.len() - k,
    {
        assert(wanted[k as int] == referenced@[k as int]@);
        if !has_name(fields, &referenced[k]) {
            let mut out = joined("template references field ", &quoted(&referenced[k]));
            out.append(" omitted by the v1 projection");
            return Err(out);
        }
        k = k + 1;
    }
    Ok(())
}

// ---------------------------------------------------------------------------
// Import
// ---------------------------------------------------------------------------
/// A loop that carries nothing that a control node cannot express.
pub open spec fn plain_loop(step: StepView) -> bool {
    &&& step.auth == AuthPolicy::NoAuth
    &&& step.check is None
    &&& !step.dangerous
    &&& step.allow_elevation == ElevationPolicy::Forbidden
    &&& step.when is None
    &&& step.require is None
}

fn legacy_loop_metadata_is_plain(step: &Step) -> (res: bool)
    ensures
        res == plain_loop(step@),
{
    matches!(step.auth, AuthPolicy::NoAuth) && step.check.is_none() && !step.dangerous && matches!(
        step.allow_elevation,
        ElevationPolicy::Forbidden
    ) && step.when.is_none() && step.require.is_none()
}

/// All names of a second list put in order into a first, from the `i`-th on.
pub open spec fn merged(done: Seq<Seq<char>>, more: Seq<Seq<char>>, i: nat) -> Seq<Seq<char>>
    decreases more.len() - i,
{
    if i >= more.len() {
        done
    } else {
        merged(put(done, more[i as int]), more, i + 1)
    }
}

fn merge_names(done: Vec<String>, more: &Vec<String>) -> (res: Vec<String>)
    ensures
        text_views(res@) == merged(text_views(done@), text_views(more@), 0),
{
    let ghost start = text_views(done@);
    let ghost views = text_views(more@);
    let mut done = done;
    let mut i: usize = 0;
    while i < more.len()
        invariant
            i <= more@.len(),
            views == text_views(more@),
            merged(start, views, 0) == merged(text_views(done@), views, i as nat),
        decreases more@.len() - i,
    {
        assert(views[i as int] == more@[i as int]@);
        insert_name(&mut done, more[i].clone());
        i = i + 1;
    }
    done
}

/// A step whose bindings have moved to its node.
pub open spec fn unbound(step: StepView) -> StepView {
    StepView { bindings: Seq::empty(), ..step }
}

fn without_bindings(step: &Step) -> (res: Step)
    ensures
        res@ == unbound(step@),
{
    let mut res = step.clone();
    let bindings: TextMap<Binding> = TextMap::new();
    assert(binding_views(bindings.entries@) =~= Seq::empty());
    res.bindings = bindings;
    res
}

/// The optional branch of a clone: its binding and fields, where there is one.
pub open spec fn branch_template(
    branch: Option<Seq<char>>,
    loop_id: Seq<char>,
    alias: Seq<char>,
) -> Result<Option<(BindingView, Seq<Seq<char>>)>, Seq<char>> {
    match branch {
        None => Ok(None),
        Some(template) => match item_template(template, loop_id, alias, true) {
            Err(reason) => Err(reason),
            Ok(found) => Ok(Some(found)),
        },
    }
}

fn migrate_branch(branch: &Option<String>, loop_id: &str, alias: &str) -> (res: Result<
    Option<(Binding, Vec<String>)>,
    String,
>)
    ensures
        match res {
            Ok(Some((binding, fields))) => branch_template(
                optional_text(*branch),
                loop_id@,
                alias@,
            ) == Ok::<Option<(BindingView, Seq<Seq<char>>)>, Seq<char>>(
                Some((binding@, text_views(fields@))),
            ),
            Ok(None) => branch_template(optional_text(*branch), loop_id@, alias@) == Ok::<
                Option<(BindingView, Seq<Seq<char>>)>,
                Seq<char>,
            >(None),
            Err(reason) => branch_template(optional_text(*branch), loop_id@, alias@) == Err::<
                Option<(BindingView, Seq<Seq<char>>)>,
                Seq<char>,
            >(reason@),
        },
{
    match branch {
        None => Ok(None),
        Some(template) => match migrate_item_template(template, loop_id, alias, true) {
            Err(reason) => Err(reason),
            Ok(found) => Ok(Some(found)),
        },
    }
}

pub open spec fn clone_bindings_of(
    repo: BindingView,
    dest: BindingView,
    branch: Option<(BindingView, Seq<Seq<char>>)>,
) -> Seq<(Seq<char>, BindingView)> {
    let both = text_map::stored(
        text_map::stored(Seq::empty(), "repo"@, repo),
        "dest"@,
        dest,
    );
    match branch {
        Some((binding, _)) => text_map::stored(both, "branch"@, binding),
        None => both,
    }
}

fn store_binding(bindings: &mut TextMap<Binding>, name: &str, binding: Binding)
    ensures
        binding_views(final(bindings).entries@) == text_map::stored(
            binding_views(old(bindings).entries@),
            name@,
            binding@,
        ),
{
    proof {
        let f = |x: Binding| x@;
        text_map::lemma_stored_mapped(bindings.pairs(), name@, binding, f);
        assert(text_map::mapped(bindings.pairs(), f) =~= binding_views(bindings.entries@));
    }
    bindings.insert(owned(name), binding);
    proof {
        let f = |x: Binding| x@;
        assert(text_map::mapped(bindings.pairs(), f) =~= binding_views(bindings.entries@));
    }
}

/// The body of a loop whose consumer clones each item.
pub open spec fn clone_body(
    steps: Seq<StepView>,
    n: nat,
    consumer: StepView,
    loop_step: Seq<char>,
    repo: Seq<char>,
    dest: Seq<char>,
    branch: Option<Seq<char>>,
    source_step: Seq<char>,
    array_path: Seq<char>,
    item: Seq<char>,
    fields: Seq<Seq<char>>,
) -> Result<ActionNodeView, LinearFault> {
    let step = steps[n as int];
    if loop_step != step.id {
        Err(
            unsupported(
                consumer,
                "clone references loop "@ + text::debug_text(loop_step) + ", expected "@
                    + text::debug_text(step.id),
            ),
        )
    } else {
        match item_template(repo, step.id, item, false) {
            Err(reason) => Err(unsupported(consumer, reason)),
            Ok((repo_binding, repo_fields)) => match item_template(dest, step.id, item, false) {
                Err(reason) => Err(unsupported(consumer, reason)),
                Ok((dest_binding, dest_fields)) => match branch_template(branch, step.id, item) {
                    Err(reason) => Err(unsupported(consumer, reason)),
                    Ok(found) => {
                        let both = merged(repo_fields, dest_fields, 0);
                        let all = match found {
                            Some((_, branch_fields)) => merged(both, branch_fields, 0),
                            None => both,
                        };
                        match projection_fault(
                            steps,
                            n,
                            source_step,
                            array_path,
                            fields,
                            all,
                        ) {
                            Some(reason) => Err(unsupported(step, reason)),
                            None => Ok(
                                ActionNodeView {
                                    step: StepView {
                                        action: ActionView::GitCloneIfMissing {
                                            repo,
                                            dest,
                                            branch,
                                        },
                                        ..unbound(consumer)
                                    },
                                    bindings: clone_bindings_of(
                                        repo_binding,
                                        dest_binding,
                                        found,
                                    ),
                                },
                            ),
                        }
                    },
                },
            },
        }
    }
}

/// The body of a loop whose consumer is an ordinary step that reads the item.
pub open spec fn consumer_body(
    steps: Seq<StepView>,
    n: nat,
    consumer: StepView,
    source_step: Seq<char>,
    array_path: Seq<char>,
    fields: Seq<Seq<char>>,
) -> Result<ActionNodeView, LinearFault> {
    let step = steps[n as int];
    let refs = bindings_refs(consumer.bindings, 0);
    if reads_loop(optional_refs(consumer.when), step.id) || reads_loop(
        optional_refs(consumer.require),
        step.id,
    ) {
        Err(
            unsupported(
                consumer,
                "loop-item conditions in a legacy linear consumer require an explicit v2 graph"@,
            ),
        )
    } else if !reads_loop(refs, step.id) {
        Err(
            unsupported(
                step,
                "following step "@ + text::debug_text(consumer.id)
                    + " does not structurally reference loop item "@ + text::debug_text(step.id),
            ),
        )
    } else if reads_whole_item(refs, step.id) && fields.len() > 0 {
        Err(
            unsupported(
                consumer,
                "whole loop item is consumed but the legacy loop projects only selected fields"@,
            ),
        )
    } else {
        match projection_fault(
            steps,
            n,
            source_step,
            array_path,
            fields,
            item_fields(refs, step.id, 0, Seq::empty()),
        ) {
            Some(reason) => Err(unsupported(step, reason)),
            None => Ok(ActionNodeView { step: unbound(consumer), bindings: consumer.bindings }),
        }
    }
}

/// The body of the loop at the `n`-th step.
pub open spec fn loop_body(
    steps: Seq<StepView>,
    n: nat,
    source_step: Seq<char>,
    array_path: Seq<char>,
    item: Seq<char>,
    fields: Seq<Seq<char>>,
) -> Result<ActionNodeView, LinearFault> {
    let step = steps[n as int];
    if n + 1 >= steps.len() {
        Err(
            unsupported(
                step,
                "for-each is not immediately followed by an explicit loop-item consumer"@,
            ),
        )
    } else if !plain_loop(step) {
        Err(
            unsupported(
                step,
                "loop has conditions, checks, authentication, elevation, or dangerous metadata that has no v2 control-node equivalent"@,
            ),
        )
    } else {
        let consumer = steps[n as int + 1];
        match consumer.action {
            ActionView::ForEachGitCloneIfMissing { loop_step, repo, dest, branch } => clone_body(
                steps,
                n,
                consumer,
                loop_step,
                repo,
                dest,
                branch,
                source_step,
                array_path,
                item,
                fields,
            ),
            ActionView::ForEach { .. } => Err(
                unsupported(step, "nested legacy for-each has no explicit body boundary"@),
            ),
            _ => consumer_body(steps, n, consumer, source_step, array_path, fields),
        }
    }
}

/// The names on a dotted path from the `i`-th on, without the empty ones.
pub open spec fn path_names(names: Seq<Seq<char>>, i: nat) -> Seq<SegmentView>
    decreases names.len() - i,
{
    if i >= names.len() {
        Seq::empty()
    } else if names[i as int].len() == 0 {
        path_names(names, i + 1)
    } else {
        seq![SegmentView::Field { name: names[i as int] }] + path_names(names, i + 1)
    }
}

pub open spec fn one_node_graph(node: ActionNodeView) -> GraphView {
    GraphView {
        entries: seq![node.step.id],
        nodes: seq![NodeView::Action(node)],
        ..empty_graph()
    }
}

pub open spec fn loop_node(
    step: StepView,
    source_step: Seq<char>,
    array_path: Seq<char>,
    item: Seq<char>,
    body: ActionNodeView,
) -> NodeView {
    NodeView::ForEach(
        ForEachView {
            id: step.id,
            collection: BindingView::Field {
                field: FieldRefView {
                    scope: ScopeView::Step { step_id: source_step },
                    segments: path_names(text::split(array_path, '.'), 0),
                },
            },
            item_alias: item,
            index_alias: None,
            concurrency: 1,
            on_error: LoopFailurePolicy::Stop,
            body: Box::new(one_node_graph(body)),
        },
    )
}

/// The nodes for the steps from the `i`-th on, behind those already made, and
/// the port that each is left through.
pub open spec fn converted(
    steps: Seq<StepView>,
    i: nat,
    nodes: Seq<NodeView>,
    ends: Seq<(Seq<char>, EdgePort)>,
) -> Result<(Seq<NodeView>, Seq<(Seq<char>, EdgePort)>), LinearFault>
    decreases steps.len() - i,
{
    if i >= steps.len() {
        Ok((nodes, ends))
    } else {
        let step = steps[i as int];
        match step.action {
            ActionView::ForEach { source_step, array_path, item, fields } => match loop_body(
                steps,
                i,
                source_step,
                array_path,
                item,
                fields,
            ) {
                Err(fault) => Err(fault),
                Ok(body) => converted(
                    steps,
                    i + 2,
                    nodes.push(loop_node(step, source_step, array_path, item, body)),
                    ends.push((step.id, EdgePort::Completed)),
                ),
            },
            ActionView::ForEachGitCloneIfMissing { .. } => Err(
                unsupported(
                    step,
                    "clone consumer has no immediately preceding compatible for-each"@,
                ),
            ),
            _ => converted(
                steps,
                i + 1,
                nodes.push(
                    NodeView::Action(
                        ActionNodeView { step: unbound(step), bindings: step.bindings },
                    ),
                ),
                ends.push((step.id, EdgePort::Success)),
            ),
        }
    }
}

/// One edge from each node to the next, from the `i`-th on.
pub open spec fn chained(ends: Seq<(Seq<char>, EdgePort)>, i: nat) -> Seq<EdgeView>
    decreases ends.len() - i,
{
    if i + 1 >= ends.len() {
        Seq::empty()
    } else {
        seq![EdgeView::new(ends[i as int].0, ends[i as int].1, ends[i as int + 1].0)] + chained(
            ends,
            i + 1,
        )
    }
}

/// The first step from the `i`-th on whose policies are not on offer.
pub open spec fn invalid_step(steps: Seq<StepView>, i: nat) -> Option<LinearFault>
    decreases steps.len() - i,
{
    if i >= steps.len() {
        None
    } else if !steps[i as int].policy_accepted() {
        Some(
            LinearFault::InvalidStep {
                step: steps[i as int].id,
                message: "step policy is not available for this action"@,
            },
        )
    } else {
        invalid_step(steps, i + 1)
    }
}

pub open spec fn chain_graph(nodes: Seq<NodeView>, ends: Seq<(Seq<char>, EdgePort)>) -> GraphView {
    GraphView {
        entries: if ends.len() > 0 {
            seq![ends[0].0]
        } else {
            Seq::empty()
        },
        nodes,
        edges: chained(ends, 0),
        ..empty_graph()
    }
}

/// The graph that a list of linear steps stands for.
pub open spec fn imported(steps: Seq<StepView>) -> Result<GraphView, LinearFault> {
    if steps.len() == 0 {
        Err(LinearFault::EmptySteps)
    } else {
        match invalid_step(steps, 0) {
            Some(fault) => Err(fault),
            None => match converted(steps, 0, Seq::empty(), Seq::empty()) {
                Err(fault) => Err(fault),
                Ok((nodes, ends)) => {
                    let graph = chain_graph(nodes, ends);
                    if all_faults(graph).len() > 0 {
                        Err(
                            LinearFault::InvalidGeneratedGraph {
                                errors: all_reported(Seq::empty(), all_faults(graph)),
                            },
                        )
                    } else {
                        Ok(graph)
                    }
                },
            },
        }
    }
}

fn import_clone_body(
    steps: &Vec<Step>,
    n: usize,
    loop_step: &str,
    repo: &str,
    dest: &str,
    branch: &Option<String>,
    source_step: &str,
    array_path: &str,
    item: &str,
    fields: &Vec<String>,
) -> (res: Result<ActionNode, LinearMigrationError>)
    requires
        n + 1 < steps@.len(),
    ensures
        ({
            let want = clone_body(
                step_views(steps@),
                n as nat,
                steps@[n + 1]@,
                loop_step@,
                repo@,
                dest@,
                optional_text(*branch),
                source_step@,
                array_path@,
                item@,
                text_views(fields@),
            );
            match res {
                Ok(node) => want == Ok::<ActionNodeView, LinearFault>(node@),
                Err(e) => want == Err::<ActionNodeView, LinearFault>(e@),
            }
        }),
{
    let step = &steps[n];
    let count: usize = steps.len();
    assert(n + 1 < count);
    let consumer = &steps[n + 1];
    assert(step_views(steps@)[n as int] == step@);
    if !same_text(loop_step, &step.id) {
        let mut out = joined("clone references loop ", &quoted(loop_step));
        out.append(", expected ");
        out.append(&quoted(&step.id));
        return Err(unsupported_legacy(consumer, &out));
    }
    let (repo_binding, repo_fields) = match migrate_item_template(repo, &step.id, item, false) {
        Err(reason) => {
            return Err(unsupported_legacy(consumer, &reason));
        },
        Ok(found) => found,
    };
    let (dest_binding, dest_fields) = match migrate_item_template(dest, &step.id, item, false) {
        Err(reason) => {
            return Err(unsupported_legacy(consumer, &reason));
        },
        Ok(found) => found,
    };
    let found = match migrate_branch(branch, &step.id, item) {
        Err(reason) => {
            return Err(unsupported_legacy(consumer, &reason));
        },
        Ok(found) => found,
    };
    let mut referenced = merge_names(repo_fields, &dest_fields);
    match &found {
        Some((_, branch_fields)) => {
            referenced = merge_names(referenced, branch_fields);
        },
        None => {},
    }
    match prove_legacy_projection(steps, n, source_step, array_path, fields, &referenced) {
        Err(reason) => {
            return Err(unsupported_legacy(step, &reason));
        },
        Ok(_) => {},
    }
    let mut converted = without_bindings(consumer);
    converted.action = Action::GitCloneIfMissing {
        repo: owned(repo),
        dest: owned(dest),
        branch: clone_optional(branch),
    };
    let mut bindings: TextMap<Binding> = TextMap::new();
    assert(binding_views(bindings.entries@) =~= Seq::empty());
    store_binding(&mut bindings, "repo", repo_binding);
    store_binding(&mut bindings, "dest", dest_binding);
    match found {
        Some((binding, _)) => {
            store_binding(&mut bindings, "branch", binding);
        },
        None => {},
    }
    Ok(ActionNode { step: converted, bindings })
}

fn import_consumer_body(
    steps: &Vec<Step>,
    n: usize,
    source_step: &str,
    array_path: &str,
    fields: &Vec<String>,
) -> (res: Result<ActionNode, LinearMigrationError>)
    requires
        n + 1 < steps@.len(),
    ensures
        ({
            let want = consumer_body(
                step_views(steps@),
                n as nat,
                steps@[n + 1]@,
                source_step@,
                array_path@,
                text_views(fields@),
            );
            match res {
                Ok(node) => want == Ok::<ActionNodeView, LinearFault>(node@),
                Err(e) => want == Err::<ActionNodeView, LinearFault>(e@),
            }
        }),
{
    let step = &steps[n];
    let count: usize = steps.len();
    assert(n + 1 < count);
    let consumer = &steps[n + 1];
    assert(step_views(steps@)[n as int] == step@);
    let when = visit_optional(&consumer.when);
    let require = visit_optional(&consumer.require);
    if any_of_loop(&when, &step.id) || any_of_loop(&require, &step.id) {
        return Err(
            unsupported_legacy(
                consumer,
                "loop-item conditions in a legacy linear consumer require an explicit v2 graph",
            ),
        );
    }
    let refs = visit_bindings(&consumer.bindings);
    if !any_of_loop(&refs, &step.id) {
        let mut out = joined("following step ", &quoted(&consumer.id));
        out.append(" does not structurally reference loop item ");
        out.append(&quoted(&step.id));
        return Err(unsupported_legacy(step, &out));
    }
    if any_whole_item(&refs, &step.id) && fields.len() > 0 {
        return Err(
            unsupported_legacy(
                consumer,
                "whole loop item is consumed but the legacy loop projects only selected fields",
            ),
        );
    }
    let referenced = collect_item_fields(&refs, &step.id);
    match prove_legacy_projection(steps, n, source_step, array_path, fields, &referenced) {
        Err(reason) => {
            return Err(unsupported_legacy(step, &reason));
        },
        Ok(_) => {},
    }
    Ok(
        ActionNode {
            step: without_bindings(consumer),
            bindings: clone_bindings(&consumer.bindings),
        },
    )
}

fn import_loop_body(
    steps: &Vec<Step>,
    n: usize,
    source_step: &str,
    array_path: &str,
    item: &str,
    fields: &Vec<String>,
) -> (res: Result<ActionNode, LinearMigrationError>)
    requires
        n < steps@.len(),
    ensures
        ({
            let want = loop_body(
                step_views(steps@),
                n as nat,
                source_step@,
                array_path@,
                item@,
                text_views(fields@),
            );
            match res {
                Ok(node) => want == Ok::<ActionNodeView, LinearFault>(node@),
                Err(e) => want == Err::<ActionNodeView, LinearFault>(e@),
            }
        }),
{
    let ghost views = step_views(steps@);
    let step = &steps[n];
    assert(views[n as int] == step@);
    if steps.len() - n < 2 {
        return Err(
            unsupported_legacy(
                step,
                "for-each is not immediately followed by an explicit loop-item consumer",
            ),
        );
    }
    if !legacy_loop_metadata_is_plain(step) {
        return Err(
            unsupported_legacy(
                step,
                "loop has conditions, checks, authentication, elevation, or dangerous metadata that has no v2 control-node equivalent",
            ),
        );
    }
    assert(views[n + 1] == steps@[n + 1]@);
    match &steps[n + 1].action {
        Action::ForEachGitCloneIfMissing { loop_step, repo, dest, branch } => import_clone_body(
            steps,
            n,
            loop_step,
            repo,
            dest,
            branch,
            source_step,
            array_path,
            item,
            fields,
        ),
        Action::ForEach { .. } => Err(
            unsupported_legacy(step, "nested legacy for-each has no explicit body boundary"),
        ),
        _ => import_consumer_body(steps, n, source_step, array_path, fields),
    }
}

fn collection_of(source_step: &str, array_path: &str) -> (res: FieldRef)
    ensures
        res@ == (FieldRefView {
            scope: ScopeView::Step { step_id: source_step@ },
            segments: path_names(text::split(array_path@, '.'), 0),
        }),
{
    let names = split_text(array_path, '.');
    let ghost views = text_views(names@);
    let mut segments: Vec<ContextPathSegment> = Vec::new();
    let mut i: usize = 0;
    assert(path_names(views, 0) =~= segment_views(segments@) + path_names(views, 0));
    while i < names.len()
        invariant
            i <= names@.len(),
            views == text_views(names@),
            path_names(views, 0) == segment_views(segments@) + path_names(views, i as nat),
        decreases names@.len() - i,
    {
        assert(views[i as int] == names@[i as int]@);
        let ghost was = segment_views(segments@);
        let ghost rest = path_names(views, (i + 1) as nat);
        if text_len(&names[i]) > 0 {
            segments.push(ContextPathSegment::field(&names[i]));
            proof {
                let added = SegmentView::Field { name: names@[i as int]@ };
                assert(segment_views(segments@) =~= was.push(added));
                assert(was + (seq![added] + rest) =~= was.push(added) + rest);
            }
        }
        i = i + 1;
    }
    assert(segment_views(segments@) + Seq::<SegmentView>::empty() =~= segment_views(segments@));
    FieldRef { scope: ContextScope::Step { step_id: owned(source_step) }, segments }
}

fn make_loop_node(
    step: &Step,
    source_step: &str,
    array_path: &str,
    item: &str,
    body: ActionNode,
) -> (res: GraphNode)
    ensures
        res@ == loop_node(step@, source_step@, array_path@, item@, body@),
{
    let ghost inner = body@;
    let mut graph = WorkflowGraph::default();
    graph.entries.push(body.step.id.clone());
    graph.nodes.push(GraphNode::Action(Box::new(body)));
    proof {
        assert(text_views(graph.entries@) =~= seq![inner.step.id]);
        assert(node_views(graph.nodes@) =~= seq![NodeView::Action(inner)]);
        assert(graph@ == one_node_graph(inner));
    }
    GraphNode::ForEach(
        ForEachNode {
            id: step.id.clone(),
            collection: Binding::field(collection_of(source_step, array_path)),
            item_alias: owned(item),
            index_alias: None,
            concurrency: 1,
            on_error: LoopFailurePolicy::Stop,
            body: Box::new(graph),
        },
    )
}

pub open spec fn end_views(ends: Seq<(String, EdgePort)>) -> Seq<(Seq<char>, EdgePort)> {
    ends.map_values(|e: (String, EdgePort)| (e.0@, e.1))
}

fn convert_steps(steps: &Vec<Step>) -> (res: Result<
    (Vec<GraphNode>, Vec<(String, EdgePort)>),
    LinearMigrationError,
>)
    ensures
        ({
            let want = converted(step_views(steps@), 0, Seq::empty(), Seq::empty());
            match res {
                Ok((nodes, ends)) => want == Ok::<
                    (Seq<NodeView>, Seq<(Seq<char>, EdgePort)>),
                    LinearFault,
                >((node_views(nodes@), end_views(ends@))),
                Err(e) => want == Err::<(Seq<NodeView>, Seq<(Seq<char>, EdgePort)>), LinearFault>(
                    e@,
                ),
            }
        }),
{
    let ghost views = step_views(steps@);
    let mut nodes: Vec<GraphNode> = Vec::new();
    let mut ends: Vec<(String, EdgePort)> = Vec::new();
    let count: usize = steps.len();
    let mut i: usize = 0;
    assert(node_views(nodes@) =~= Seq::empty());
    assert(end_views(ends@) =~= Seq::empty());
    while i < count
        invariant
            count == steps@.len(),
            i <= count,
            views == step_views(steps@),
            converted(views, 0, Seq::empty(), Seq::empty()) == converted(
                views,
                i as nat,
                node_views(nodes@),
                end_views(ends@),
            ),
        decreases count - i,
    {
        let step = &steps[i];
        assert(views[i as int] == step@);
        let ghost nodes_before = node_views(nodes@);
        let ghost ends_before = end_views(ends@);
        match &step.action {
            Action::ForEach { source_step, array_path, item, fields } => {
                let body = match import_loop_body(
                    steps,
                    i,
                    source_step,
                    array_path,
                    item,
                    fields,
                ) {
                    Err(e) => {
                        return Err(e);
                    },
                    Ok(body) => body,
                };
                let node = make_loop_node(step, source_step, array_path, item, body);
                let ghost added = node@;
                nodes.push(node);
                ends.push((step.id.clone(), EdgePort::Completed));
                proof {
                    assert(node_views(nodes@) =~= nodes_before.push(added));
                    assert(end_views(ends@) =~= ends_before.push(
                        (step.id@, EdgePort::Completed),
                    ));
                    assert(i + 2 <= count);
                }
                i = i + 2;
            },
            Action::ForEachGitCloneIfMissing { .. } => {
                return Err(
                    unsupported_legacy(
                        step,
                        "clone consumer has no immediately preceding compatible for-each",
                    ),
                );
            },
            _ => {
                let node = ActionNode {
                    step: without_bindings(step),
                    bindings: clone_bindings(&step.bindings),
                };
                let ghost added = NodeView::Action(node@);
                nodes.push(GraphNode::Action(Box::new(node)));
                ends.push((step.id.clone(), EdgePort::Success));
                proof {
                    assert(node_views(nodes@) =~= nodes_before.push(added));
                    assert(end_views(ends@) =~= ends_before.push((step.id@, EdgePort::Success)));
                }
                i = i + 1;
            },
        }
    }
    Ok((nodes, ends))
}

fn chain(ends: &Vec<(String, EdgePort)>) -> (res: Vec<GraphEdge>)
    ensures
        edge_views(res@) == chained(end_views(ends@), 0),
{
    let ghost views = end_views(ends@);
    let n: usize = ends.len();
    let mut edges: Vec<GraphEdge> = Vec::new();
    let mut i: usize = 0;
    assert(chained(views, 0) =~= edge_views(edges@) + chained(views, 0));
    while n - i > 1
        invariant
            n == ends@.len(),
            i <= n,
            views == end_views(ends@),
            chained(views, 0) == edge_views(edges@) + chained(views, i as nat),
        decreases n - i,
    {
        let ghost was = edge_views(edges@);
        let ghost rest = chained(views, (i + 1) as nat);
        let edge = GraphEdge::new(&ends[i].0, ends[i].1, &ends[i + 1].0);
        let ghost added = edge@;
        edges.push(edge);
        proof {
            assert(views[i as int] == (ends@[i as int].0@, ends@[i as int].1));
            assert(views[i + 1].0 == ends@[i + 1].0@);
            assert(edge_views(edges@) =~= was.push(added));
            assert(was + (seq![added] + rest) =~= was.push(added) + rest);
        }
        i = i + 1;
    }
    assert(edge_views(edges@) + Seq::<EdgeView>::empty() =~= edge_views(edges@));
    edges
}

/// Explicit compatibility boundary for the removed linear task format.
#[derive(Debug, Clone, Copy, PartialEq, Eq, Structural)]
pub struct LegacyTaskImporter;

impl LegacyTaskImporter {
    /// Convert the declaration order of a legacy v1 step list into an explicit
    /// v3 graph.
    ///
    /// Ordinary steps retain their order through `success -> input` edges. A
    /// legacy loop plus its immediately following consumer is migrated only
    /// when membership in the loop body is explicit: either the historical
    /// loop-clone action names the loop, or an ordinary action structurally
    /// references that loop's item scope. This keeps migration fail-closed and
    /// never guesses from adjacency or rewrites positional array references.
    pub fn import_steps(steps: &Vec<Step>) -> (res: Result<WorkflowGraph, LinearMigrationError>)
        ensures
            match res {
                Ok(graph) => imported(step_views(steps@)) == Ok::<GraphView, LinearFault>(graph@),
                Err(e) => imported(step_views(steps@)) == Err::<GraphView, LinearFault>(e@),
            },
    {
        let ghost views = step_views(steps@);
        if steps.len() == 0 {
            return Err(LinearMigrationError::EmptySteps);
        }
        let mut i: usize = 0;
        while i < steps.len()
            invariant
                i <= steps@.len(),
                steps@.len() > 0,
                views == step_views(steps@),
                invalid_step(views, 0) == invalid_step(views, i as nat),
            decreases steps@.len() - i,
        {
            assert(views[i as int] == steps@[i as int]@);
            match steps[i].validate() {
                Ok(_) => {},
                Err(message) => {
                    return Err(
                        LinearMigrationError::InvalidStep { step: steps[i].id.clone(), message },
                    );
                },
            }
            i = i + 1;
        }
        let (nodes, ends) = match convert_steps(steps) {
            Err(e) => {
                return Err(e);
            },
            Ok(found) => found,
        };
        let mut graph = WorkflowGraph::default();
        let ghost end_list = end_views(ends@);
        if ends.len() > 0 {
            graph.entries.push(ends[0].0.clone());
            assert(text_views(graph.entries@) =~= seq![end_list[0].0]);
        } else {
            assert(text_views(graph.entries@) =~= Seq::empty());
        }
        let ghost node_list = node_views(nodes@);
        graph.nodes = nodes;
        graph.edges = chain(&ends);
        assert(graph@ == chain_graph(node_list, end_list));
        match graph.validate() {
            Ok(_) => Ok(graph),
            Err(errors) => Err(LinearMigrationError::InvalidGeneratedGraph { errors }),
        }
    }
}

/// An imported graph is one that validation accepts.
pub proof fn law_imported_graph_is_valid(steps: Seq<StepView>)
    ensures
        imported(steps) matches Ok(graph) ==> all_faults(graph).len() == 0,
{
}

/// Steps with no loop of the linear form among them.
pub open spec fn without_loops(steps: Seq<StepView>) -> bool {
    forall|i: int|
        0 <= i < steps.len() ==> !((#[trigger] steps[i]).action is ForEach)
            && !(steps[i].action is ForEachGitCloneIfMissing)
}

/// The node that a step becomes by itself.
pub open spec fn step_node(step: StepView) -> NodeView {
    NodeView::Action(ActionNodeView { step: unbound(step), bindings: step.bindings })
}

pub proof fn lemma_converted_in_order(
    steps: Seq<StepView>,
    i: nat,
    nodes: Seq<NodeView>,
    ends: Seq<(Seq<char>, EdgePort)>,
)
    requires
        without_loops(steps),
        i <= steps.len(),
        nodes == steps.take(i as int).map_values(|step: StepView| step_node(step)),
        ends == steps.take(i as int).map_values(|step: StepView| (step.id, EdgePort::Success)),
    ensures
        converted(steps, i, nodes, ends) == Ok::<
            (Seq<NodeView>, Seq<(Seq<char>, EdgePort)>),
            LinearFault,
        >(
            (
                steps.map_values(|step: StepView| step_node(step)),
                steps.map_values(|step: StepView| (step.id, EdgePort::Success)),
            ),
        ),
    decreases steps.len() - i,
{
    if i < steps.len() {
        let step = steps[i as int];
        let more = steps.take(i as int + 1);
        assert(more =~= steps.take(i as int).push(step));
        let next_nodes = nodes.push(step_node(step));
        let next_ends = ends.push((step.id, EdgePort::Success));
        assert(next_nodes =~= more.map_values(|step: StepView| step_node(step)));
        assert(next_ends =~= more.map_values(|step: StepView| (step.id, EdgePort::Success)));
        lemma_converted_in_order(steps, i + 1, next_nodes, next_ends);
    } else {
        assert(steps.take(i as int) =~= steps);
    }
}

pub proof fn lemma_chained(ends: Seq<(Seq<char>, EdgePort)>, i: nat)
    requires
        i < ends.len(),
    ensures
        chained(ends, i).len() == ends.len() - i - 1,
        forall|k: int|
            0 <= k < ends.len() - i - 1 ==> #[trigger] chained(ends, i)[k] == EdgeView::new(
                ends[i + k].0,
                ends[i + k].1,
                ends[i + k + 1].0,
            ),
    decreases ends.len() - i,
{
    if i + 1 < ends.len() {
        lemma_chained(ends, i + 1);
        let rest = chained(ends, i + 1);
        assert forall|k: int| 0 <= k < ends.len() - i - 1 implies #[trigger] chained(ends, i)[k]
            == EdgeView::new(ends[i + k].0, ends[i + k].1, ends[i + k + 1].0) by {
            if k > 0 {
                assert(chained(ends, i)[k] == rest[k - 1]);
            }
        }
    }
}

/// Steps without loops are imported in their order and in no other relation:
/// one action node for each, the first the only entry, and an edge from the
/// success of each to the next.
pub proof fn law_import_preserves_order(steps: Seq<StepView>)
    requires
        without_loops(steps),
    ensures
        imported(steps) matches Ok(graph) ==> {
            &&& graph.nodes == steps.map_values(|step: StepView| step_node(step))
            &&& graph.entries == seq![steps[0].id]
            &&& graph.edges.len() == steps.len() - 1
            &&& forall|i: int|
                0 <= i < steps.len() - 1 ==> #[trigger] graph.edges[i] == EdgeView::new(
                    steps[i].id,
                    EdgePort::Success,
                    steps[i + 1].id,
                )
        },
{
    if steps.len() > 0 {
        let ends = steps.map_values(|step: StepView| (step.id, EdgePort::Success));
        assert(Seq::<NodeView>::empty() =~= steps.take(0).map_values(
            |step: StepView| step_node(step),
        ));
        assert(Seq::<(Seq<char>, EdgePort)>::empty() =~= steps.take(0).map_values(
            |step: StepView| (step.id, EdgePort::Success),
        ));
        lemma_converted_in_order(steps, 0, Seq::empty(), Seq::empty());
        lemma_chained(ends, 0);
    }
}

/// The port through which a node is left when all went well.
pub open spec fn usual_port(node: NodeView) -> EdgePort {
    match node {
        NodeView::Action(_) => EdgePort::Success,
        _ => EdgePort::Completed,
    }
}

/// The identity of a node of an imported graph.
pub open spec fn imported_id(node: NodeView) -> Seq<char> {
    match node {
        NodeView::Action(action) => action.step.id,
        NodeView::ForEach(each) => each.id,
        NodeView::If(branch) => branch.id,
        NodeView::Switch(choice) => choice.id,
        NodeView::Join(join) => join.id,
    }
}

/// How many steps a node stands for: a loop for itself and the step that it repeats.
pub open spec fn steps_taken(step: StepView) -> int {
    if step.action is ForEach {
        2
    } else {
        1
    }
}

/// Whether a node stands for the step at a place: an action for that step with all it has,
/// a loop for that step and the next, which is the only node of its body.
pub open spec fn stands_for(node: NodeView, steps: Seq<StepView>, at: int) -> bool {
    let step = steps[at];
    match step.action {
        ActionView::ForEach { source_step, array_path, item, fields } => {
            &&& at + 1 < steps.len()
            &&& node matches NodeView::ForEach(each)
            &&& each.id == step.id
            &&& each.item_alias == item
            &&& each.concurrency == 1
            &&& each.on_error == LoopFailurePolicy::Stop
            &&& each.collection matches BindingView::Field { field }
            &&& field.scope == (ScopeView::Step { step_id: source_step })
            &&& each.body.nodes.len() == 1
            &&& each.body.edges.len() == 0
            &&& each.body.entries == seq![steps[at + 1].id]
            &&& each.body.nodes[0] matches NodeView::Action(inner)
            &&& inner.step.id == steps[at + 1].id
            &&& inner.step.when == steps[at + 1].when
            &&& inner.step.require == steps[at + 1].require
        },
        _ => {
            &&& node matches NodeView::Action(action)
            &&& action.step == (StepView { bindings: Seq::empty(), ..step })
            &&& action.bindings == step.bindings
        },
    }
}

/// Whether a node stands for the step at the place that is given for it.
pub open spec fn placed(
    nodes: Seq<NodeView>,
    steps: Seq<StepView>,
    at: Seq<int>,
    k: int,
) -> bool {
    0 <= at[k] < steps.len() && stands_for(nodes[k], steps, at[k])
}

/// Whether the step for a node is the one after those of the node before it.
pub open spec fn next_in_order(steps: Seq<StepView>, at: Seq<int>, k: int) -> bool {
    at[k + 1] == at[k] + steps_taken(steps[at[k]])
}

/// Whether the nodes stand for the steps, all of them and in their order: `at` holds the
/// place of the step for each node.
pub open spec fn in_step_order(
    nodes: Seq<NodeView>,
    steps: Seq<StepView>,
    at: Seq<int>,
) -> bool {
    &&& at.len() == nodes.len()
    &&& nodes.len() > 0
    &&& at[0] == 0
    &&& forall|k: int| 0 <= k < nodes.len() ==> #[trigger] placed(nodes, steps, at, k)
    &&& forall|k: int| 0 <= k < nodes.len() - 1 ==> #[trigger] next_in_order(steps, at, k)
    &&& at.last() + steps_taken(steps[at.last()]) == steps.len()
}

/// Whether nodes have been made for the steps before the `i`-th, and are left as usual.
spec fn made(
    steps: Seq<StepView>,
    i: int,
    nodes: Seq<NodeView>,
    ends: Seq<(Seq<char>, EdgePort)>,
    at: Seq<int>,
) -> bool {
    &&& at.len() == nodes.len()
    &&& ends.len() == nodes.len()
    &&& nodes.len() == 0 ==> i == 0
    &&& nodes.len() > 0 ==> at[0] == 0 && at.last() + steps_taken(steps[at.last()]) == i
    &&& forall|k: int| 0 <= k < nodes.len() ==> #[trigger] placed(nodes, steps, at, k)
    &&& forall|k: int| 0 <= k < nodes.len() - 1 ==> #[trigger] next_in_order(steps, at, k)
    &&& forall|k: int|
        0 <= k < nodes.len() ==> #[trigger] ends[k] == (
            imported_id(nodes[k]),
            usual_port(nodes[k]),
        )
}

/// Whether nodes have been made for all the steps.
spec fn made_all(
    steps: Seq<StepView>,
    found: (Seq<NodeView>, Seq<(Seq<char>, EdgePort)>),
) -> bool {
    exists|at: Seq<int>| #[trigger] made_at(steps, found, at)
}

spec fn made_at(
    steps: Seq<StepView>,
    found: (Seq<NodeView>, Seq<(Seq<char>, EdgePort)>),
    at: Seq<int>,
) -> bool {
    made(steps, steps.len() as int, found.0, found.1, at)
}

proof fn lemma_made_more(
    steps: Seq<StepView>,
    i: int,
    nodes: Seq<NodeView>,
    ends: Seq<(Seq<char>, EdgePort)>,
    at: Seq<int>,
    node: NodeView,
)
    requires
        0 <= i < steps.len(),
        made(steps, i, nodes, ends, at),
        stands_for(node, steps, i),
    ensures
        made(
            steps,
            i + steps_taken(steps[i]),
            nodes.push(node),
            ends.push((imported_id(node), usual_port(node))),
            at.push(i),
        ),
{
    let more = nodes.push(node);
    let more_ends = ends.push((imported_id(node), usual_port(node)));
    let places = at.push(i);
    assert forall|k: int| 0 <= k < more.len() implies #[trigger] placed(
        more,
        steps,
        places,
        k,
    ) by {
        if k < nodes.len() {
            assert(placed(nodes, steps, at, k));
        }
    }
    assert forall|k: int| 0 <= k < more.len() - 1 implies #[trigger] next_in_order(
        steps,
        places,
        k,
    ) by {
        if k + 1 < nodes.len() {
            assert(next_in_order(steps, at, k));
        } else {
            assert(at[k] == at.last());
        }
    }
    assert forall|k: int| 0 <= k < more.len() implies #[trigger] more_ends[k] == (
        imported_id(more[k]),
        usual_port(more[k]),
    ) by {
        if k < nodes.len() {
            assert(more_ends[k] == ends[k]);
        }
    }
}

proof fn lemma_made(
    steps: Seq<StepView>,
    i: nat,
    nodes: Seq<NodeView>,
    ends: Seq<(Seq<char>, EdgePort)>,
    at: Seq<int>,
)
    requires
        i <= steps.len(),
        made(steps, i as int, nodes, ends, at),
    ensures
        converted(steps, i, nodes, ends) is Ok ==> made_all(
            steps,
            converted(steps, i, nodes, ends)->Ok_0,
        ),
    decreases steps.len() - i,
{
    if i >= steps.len() {
        assert(made_at(steps, (nodes, ends), at));
    } else if converted(steps, i, nodes, ends) is Ok {
        let step = steps[i as int];
        let places = at.push(i as int);
        match step.action {
            ActionView::ForEach { source_step, array_path, item, fields } => {
                let body = loop_body(steps, i, source_step, array_path, item, fields)->Ok_0;
                let node = loop_node(step, source_step, array_path, item, body);
                assert(stands_for(node, steps, i as int));
                let more = nodes.push(node);
                let more_ends = ends.push((step.id, EdgePort::Completed));
                lemma_made_more(steps, i as int, nodes, ends, at, node);
                assert(made(steps, i as int + 2, more, more_ends, places));
                lemma_made(steps, i + 2, more, more_ends, places);
            },
            ActionView::ForEachGitCloneIfMissing { .. } => {},
            _ => {
                let node = step_node(step);
                assert(stands_for(node, steps, i as int));
                let more = nodes.push(node);
                let more_ends = ends.push((step.id, EdgePort::Success));
                lemma_made_more(steps, i as int, nodes, ends, at, node);
                assert(made(steps, i as int + 1, more, more_ends, places));
                lemma_made(steps, i + 1, more, more_ends, places);
            },
        }
    }
}

/// An imported graph, with loops or without, is a chain in the order of the steps: its nodes
/// stand for all the steps in their order, the first is the only entry, and each is linked to
/// the next, and to nothing else, through the port by which it is left when all went well:
/// success for an action, completion for a loop.
pub proof fn law_imported_graph_is_a_chain(steps: Seq<StepView>)
    ensures
        imported(steps) matches Ok(graph) ==> {
            &&& exists|at: Seq<int>| #[trigger] in_step_order(graph.nodes, steps, at)
            &&& graph.entries == seq![steps[0].id]
            &&& graph.edges.len() == graph.nodes.len() - 1
            &&& forall|k: int|
                0 <= k < graph.edges.len() ==> {
                    let edge = #[trigger] graph.edges[k];
                    &&& edge.from.node == imported_id(graph.nodes[k])
                    &&& edge.from.port == usual_port(graph.nodes[k])
                    &&& edge.to.node == imported_id(graph.nodes[k + 1])
                    &&& edge.to.port == EdgePort::Input
                }
        },
{
    if imported(steps) is Ok {
        let (nodes, ends) = converted(steps, 0, Seq::empty(), Seq::empty())->Ok_0;
        let graph = imported(steps)->Ok_0;
        assert(made(steps, 0, Seq::empty(), Seq::empty(), Seq::empty()));
        lemma_made(steps, 0, Seq::empty(), Seq::empty(), Seq::empty());
        let at = choose|at: Seq<int>| #[trigger] made_at(steps, (nodes, ends), at);
        assert(in_step_order(graph.nodes, steps, at));
        assert(ends[0] == (imported_id(nodes[0]), usual_port(nodes[0])));
        assert(placed(nodes, steps, at, 0));
        lemma_chained(ends, 0);
        assert forall|k: int| 0 <= k < graph.edges.len() implies {
            let edge = #[trigger] graph.edges[k];
            &&& edge.from.node == imported_id(graph.nodes[k])
            &&& edge.from.port == usual_port(graph.nodes[k])
            &&& edge.to.node == imported_id(graph.nodes[k + 1])
            &&& edge.to.port == EdgePort::Input
        } by {
            assert(chained(ends, 0)[k] == EdgeView::new(ends[k].0, ends[k].1, ends[k + 1].0));
            assert(ends[k] == (imported_id(nodes[k]), usual_port(nodes[k])));
            assert(ends[k + 1] == (imported_id(nodes[k + 1]), usual_port(nodes[k + 1])));
        }
    }
}

/// Whether a text spells a part of a template: a literal is itself, and a field of the loop item
/// is an expression in double braces, which names the item and a path below it.
pub open spec fn spells(
    part: PartView,
    spelled: Seq<char>,
    loop_id: Seq<char>,
    alias: Seq<char>,
) -> bool {
    match part {
        PartView::Literal { value } => spelled == value && value.len() > 0,
        PartView::Field { field } => field.scope == (ScopeView::LoopItem { step_id: loop_id })
            && exists|inner: Seq<char>| #[trigger]
            spells_field(spelled, inner, alias, field.segments),
    }
}

/// Whether a text is an expression in double braces that names an item and a path below it.
pub open spec fn spells_field(
    spelled: Seq<char>,
    inner: Seq<char>,
    alias: Seq<char>,
    path: Seq<SegmentView>,
) -> bool {
    spelled == "{{"@ + inner + "}}"@ && names_path(text::trimmed(inner), alias, path)
}

/// Whether an expression is an alias and, behind dots, the names of a path, none of them empty.
pub open spec fn names_path(
    expression: Seq<char>,
    alias: Seq<char>,
    path: Seq<SegmentView>,
) -> bool {
    let names = text::split(expression, '.');
    &&& names.len() == path.len() + 1
    &&& path.len() > 0
    &&& names[0] == alias
    &&& forall|k: int|
        0 <= k < path.len() ==> (#[trigger] path[k]) == (SegmentView::Field { name: names[k + 1] })
            && names[k + 1].len() > 0
}

proof fn lemma_names_path(expression: Seq<char>, alias: Seq<char>)
    ensures
        expression_path(expression, alias) matches Ok(path) ==> names_path(
            expression,
            alias,
            crate::rewrite::named_path(path),
        ),
{
    if expression_path(expression, alias) is Ok {
        let names = text::split(expression, '.');
        let path = names.skip(1);
        let segments = crate::rewrite::named_path(path);
        assert forall|k: int| 0 <= k < segments.len() implies (#[trigger] segments[k]) == (
        SegmentView::Field { name: names[k + 1] }) && names[k + 1].len() > 0 by {
            assert(path[k] == names[k + 1]);
        }
    }
}

proof fn lemma_template_spelled(
    template: Seq<char>,
    loop_id: Seq<char>,
    alias: Seq<char>,
    at: nat,
    parts: Seq<PartView>,
    fields: Seq<Seq<char>>,
) -> (spelled: Seq<Seq<char>>)
    requires
        at <= template.len(),
        template_parts(template, loop_id, alias, at, parts, fields) is Ok,
    ensures
        ({
            let all = template_parts(template, loop_id, alias, at, parts, fields)->Ok_0.0;
            &&& all.len() == parts.len() + spelled.len()
            &&& forall|k: int| 0 <= k < parts.len() ==> #[trigger] all[k] == parts[k]
            &&& forall|k: int|
                0 <= k < spelled.len() ==> spells(
                    all[parts.len() + k],
                    #[trigger] spelled[k],
                    loop_id,
                    alias,
                )
            &&& spelled.flatten() == template.skip(at as int)
        }),
    decreases template.len() + 1 - at,
{
    reveal_strlit("{{");
    reveal_strlit("}}");
    text::lemma_find(template, "{{"@, at);
    match text::find(template, "{{"@, at) {
        None => {
            let rest = template.skip(at as int);
            if at < template.len() {
                let spelled = seq![rest];
                spelled.lemma_flatten_one_element();
                spelled
            } else {
                assert(rest =~= Seq::empty());
                Seq::empty()
            }
        },
        Some(start) => {
            text::lemma_find(template, "}}"@, start + 2);
            let end = text::find(template, "}}"@, start + 2)->0;
            let inner = template.subrange(start as int + 2, end as int);
            let path = expression_path(text::trimmed(inner), alias)->Ok_0;
            lemma_names_path(text::trimmed(inner), alias);
            let literal = template.subrange(at as int, start as int);
            let before = if start > at {
                parts.push(PartView::Literal { value: literal })
            } else {
                parts
            };
            let more = before.push(field_part(loop_id, path));
            let rest = lemma_template_spelled(
                template,
                loop_id,
                alias,
                end + 2,
                more,
                put(fields, path[0]),
            );
            let own = "{{"@ + inner + "}}"@;
            let all = template_parts(template, loop_id, alias, at, parts, fields)->Ok_0.0;
            assert(own =~= template.subrange(start as int, end as int + 2));
            let tail = seq![own] + rest;
            assert(tail.drop_first() =~= rest);
            assert(tail.first() == own);
            assert(tail.flatten() == own + rest.flatten());
            assert(tail.flatten() =~= template.skip(start as int));
            let spelled = if start > at {
                let spelled = seq![literal] + tail;
                assert(spelled.drop_first() =~= tail);
                assert(spelled.first() == literal);
                assert(spelled.flatten() == literal + tail.flatten());
                spelled
            } else {
                tail
            };
            assert(spelled.flatten() =~= template.skip(at as int));
            assert forall|k: int| 0 <= k < spelled.len() implies spells(
                all[parts.len() + k],
                #[trigger] spelled[k],
                loop_id,
                alias,
            ) by {
                let lead: int = more.len() - parts.len();
                if k >= lead {
                    assert(spelled[k] == rest[k - lead]);
                    assert(all[parts.len() + k] == all[more.len() + (k - lead)]);
                    assert(spells(all[more.len() + (k - lead)], rest[k - lead], loop_id, alias));
                } else {
                    let place: int = parts.len() + k;
                    assert(all[place] == more[place]);
                    if k == lead - 1 {
                        assert(more[place] == field_part(loop_id, path));
                        assert(spelled[k] == own);
                        assert(spells_field(
                            own,
                            inner,
                            alias,
                            crate::rewrite::named_path(path),
                        ));
                        let field = more[place]->field;
                        assert(field.scope == (ScopeView::LoopItem { step_id: loop_id }));
                        assert(spells_field(spelled[k], inner, alias, field.segments));
                        assert(spells(PartView::Field { field }, spelled[k], loop_id, alias));
                    } else {
                        assert(more[place] == before[place]);
                        assert(spelled[k] == literal);
                        assert(spells(more[place], spelled[k], loop_id, alias));
                    }
                }
            }
            assert forall|k: int| 0 <= k < parts.len() implies #[trigger] all[k] == parts[k] by {
                assert(all[k] == more[k]);
            }
            spelled
        },
    }
}

/// The binding that a template of the linear format stands for spells that template: its
/// literals and its fields of the loop item, one after the other, are the template. A template
/// without fields is a literal, and one that is a single field is that field.
pub proof fn law_item_template_is_respelled(
    template: Seq<char>,
    loop_id: Seq<char>,
    alias: Seq<char>,
    optional: bool,
)
    ensures
        item_template(template, loop_id, alias, optional) matches Ok((binding, fields))
            ==> match binding {
            BindingView::Literal { value } => value == ValueView::String(template) && fields.len()
                == 0,
            BindingView::Field { field } => spells(
                PartView::Field { field },
                template,
                loop_id,
                alias,
            ),
            BindingView::Interpolated { parts } => exists|spelled: Seq<Seq<char>>|
                spelled.len() == parts.len() && #[trigger] spelled.flatten() == template && forall|
                    k: int,
                |
                    0 <= k < parts.len() ==> spells(
                        #[trigger] parts[k],
                        spelled[k],
                        loop_id,
                        alias,
                    ),
            _ => false,
        },
{
    if item_template(template, loop_id, alias, optional) is Ok {
        let (parts, fields) = template_parts(
            template,
            loop_id,
            alias,
            0,
            Seq::empty(),
            Seq::empty(),
        )->Ok_0;
        let spelled = lemma_template_spelled(
            template,
            loop_id,
            alias,
            0,
            Seq::empty(),
            Seq::empty(),
        );
        assert(template.skip(0) =~= template);
        assert forall|k: int| 0 <= k < parts.len() implies spells(
            #[trigger] parts[k],
            spelled[k],
            loop_id,
            alias,
        ) by {
            assert(spells(parts[0 + k], spelled[k], loop_id, alias));
        }
        lemma_fields_from_parts(template, loop_id, alias, 0, Seq::empty(), Seq::empty());
        if parts.len() == 1 {
            assert(spelled =~= seq![spelled[0]]);
            spelled.lemma_flatten_one_element();
            assert(spells(parts[0], spelled[0], loop_id, alias));
        }
    }
}

/// Fields are found only where there is a part for them.
proof fn lemma_fields_from_parts(
    template: Seq<char>,
    loop_id: Seq<char>,
    alias: Seq<char>,
    at: nat,
    parts: Seq<PartView>,
    fields: Seq<Seq<char>>,
)
    requires
        at <= template.len(),
        fields.len() > 0 <==> exists|k: int| 0 <= k < parts.len() && #[trigger] parts[k] is Field,
    ensures
        template_parts(template, loop_id, alias, at, parts, fields) matches Ok((all, found)) ==> (
        found.len() > 0 <==> exists|k: int| 0 <= k < all.len() && #[trigger] all[k] is Field),
    decreases template.len() + 1 - at,
{
    reveal_strlit("{{");
    reveal_strlit("}}");
    text::lemma_find(template, "{{"@, at);
    match text::find(template, "{{"@, at) {
        None => {
            if at < template.len() {
                let all = parts.push(PartView::Literal { value: template.skip(at as int) });
                assert forall|k: int| 0 <= k < parts.len() implies #[trigger] all[k] == parts[k] by {
                }
                if exists|k: int| 0 <= k < parts.len() && #[trigger] parts[k] is Field {
                    let k = choose|k: int| 0 <= k < parts.len() && #[trigger] parts[k] is Field;
                    assert(all[k] is Field);
                }
            }
        },
        Some(start) => {
            text::lemma_find(template, "}}"@, start + 2);
            if template_parts(template, loop_id, alias, at, parts, fields) is Ok {
                let end = text::find(template, "}}"@, start + 2)->0;
                let inner = template.subrange(start as int + 2, end as int);
                let path = expression_path(text::trimmed(inner), alias)->Ok_0;
                let before = if start > at {
                    parts.push(
                        PartView::Literal {
                            value: template.subrange(at as int, start as int),
                        },
                    )
                } else {
                    parts
                };
                let more = before.push(field_part(loop_id, path));
                assert(more[more.len() - 1] is Field);
                assert(put(fields, path[0]).len() > 0);
                lemma_fields_from_parts(
                    template,
                    loop_id,
                    alias,
                    end + 2,
                    more,
                    put(fields, path[0]),
                );
            }
        },
    }
}

/// Merging two lists of names gives each name of either once, in order, and no other.
pub proof fn law_merged_names(done: Seq<Seq<char>>, more: Seq<Seq<char>>, i: nat)
    requires
        names::ascending(done),
    ensures
        names::ascending(merged(done, more, i)),
        forall|x: Seq<char>| #[trigger]
            merged(done, more, i).contains(x) <==> done.contains(x) || exists|k: int|
                i <= k < more.len() && #[trigger] more[k] == x,
    decreases more.len() - i,
{
    if i < more.len() {
        let next = put(done, more[i as int]);
        names::law_put(done, more[i as int]);
        law_merged_names(next, more, i + 1);
        assert forall|x: Seq<char>| #[trigger]
            merged(done, more, i).contains(x) <==> done.contains(x) || exists|k: int|
                i <= k < more.len() && #[trigger] more[k] == x by {
            assert(merged(next, more, i + 1).contains(x) <==> next.contains(x) || exists|k: int|
                i + 1 <= k < more.len() && #[trigger] more[k] == x);
            assert(next.contains(x) <==> x == more[i as int] || done.contains(x));
            if exists|k: int| i <= k < more.len() && #[trigger] more[k] == x {
                let k = choose|k: int| i <= k < more.len() && #[trigger] more[k] == x;
                if k > i {
                    assert(i + 1 <= k < more.len());
                }
            }
        }
    }
}

} // verus!
