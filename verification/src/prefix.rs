//! Steps moved below a scenario: every identity that they mention gets its name
//! in front.
use vstd::prelude::*;

use crate::binding::binding_views;
use crate::context::{
    clone_path, part_views, Binding, BindingView, ContextScope, FieldRef, FieldRefView,
    PartView, ScopeView, TemplatePart,
};
use crate::expr::{
    clone_texts, expr_views, references_of, ExprView, ExpressionV1, ReferenceV1, ReferenceView,
};
use crate::json::clone_values;
use crate::legacy::{binding_refs, condition_refs, conditions_refs, part_refs};
use crate::task::{
    clone_codes, condition_views, optional_condition, Action, ActionView, ConditionView, Step,
    StepCondition, StepView,
};
use crate::schema::clone_optional;
use crate::text::joined;
use crate::text_map::TextMap;

verus! {

pub open spec fn below(scope: Seq<char>, id: Seq<char>) -> Seq<char> {
    scope + "/"@ + id
}

pub fn show_below(scope: &str, id: &str) -> (res: String)
    ensures
        res@ == below(scope@, id@),
{
    let mut out = joined(scope, "/");
    out.append(id);
    out
}

// ---------------------------------------------------------------------------
// References
// ---------------------------------------------------------------------------
pub open spec fn rescoped_ref(field: FieldRefView, scope: Seq<char>) -> FieldRefView {
    FieldRefView {
        scope: match field.scope {
            ScopeView::Scenario => ScopeView::Scenario,
            ScopeView::Step { step_id } => ScopeView::Step { step_id: below(scope, step_id) },
            ScopeView::LoopItem { step_id } => ScopeView::LoopItem {
                step_id: below(scope, step_id),
            },
        },
        ..field
    }
}

fn rescope_ref(field: &FieldRef, scope: &str) -> (res: FieldRef)
    ensures
        res@ == rescoped_ref(field@, scope@),
{
    FieldRef {
        scope: match &field.scope {
            ContextScope::Scenario => ContextScope::Scenario,
            ContextScope::Step { step_id } => ContextScope::Step {
                step_id: show_below(scope, step_id),
            },
            ContextScope::LoopItem { step_id } => ContextScope::LoopItem {
                step_id: show_below(scope, step_id),
            },
        },
        segments: clone_path(field.segments.as_slice()),
    }
}

pub open spec fn rescoped_reference(reference: ReferenceView, scope: Seq<char>) -> ReferenceView {
    match reference {
        ReferenceView::Context { field } => ReferenceView::Context {
            field: rescoped_ref(field, scope),
        },
        ReferenceView::Local { .. } => reference,
    }
}

fn rescope_reference(reference: &ReferenceV1, scope: &str) -> (res: ReferenceV1)
    ensures
        res@ == rescoped_reference(reference@, scope@),
{
    match reference {
        ReferenceV1::Context { field } => ReferenceV1::Context { field: rescope_ref(field, scope) },
        ReferenceV1::Local { .. } => reference.clone(),
    }
}

/// An expression whose context references point below a scenario.
pub open spec fn rescoped(e: ExprView, scope: Seq<char>) -> ExprView
    decreases e,
{
    match e {
        ExprView::Literal { .. } => e,
        ExprView::Ref { reference } => ExprView::Ref {
            reference: rescoped_reference(reference, scope),
        },
        ExprView::Exists { reference } => ExprView::Exists {
            reference: rescoped_reference(reference, scope),
        },
        ExprView::All { expressions } => ExprView::All {
            expressions: rescoped_all(expressions, scope),
        },
        ExprView::Any { expressions } => ExprView::Any {
            expressions: rescoped_all(expressions, scope),
        },
        ExprView::Compare { operator, left, right } => ExprView::Compare {
            operator,
            left: Box::new(rescoped(*left, scope)),
            right: Box::new(rescoped(*right, scope)),
        },
        ExprView::Matches { value, pattern } => ExprView::Matches {
            value: Box::new(rescoped(*value, scope)),
            pattern,
        },
        ExprView::Quantifier { quantifier, collection, binding, predicate } => ExprView::Quantifier {
            quantifier,
            collection: Box::new(rescoped(*collection, scope)),
            binding,
            predicate: Box::new(rescoped(*predicate, scope)),
        },
        ExprView::Not { expression } => ExprView::Not {
            expression: Box::new(rescoped(*expression, scope)),
        },
        ExprView::IsNull { expression } => ExprView::IsNull {
            expression: Box::new(rescoped(*expression, scope)),
        },
        ExprView::IsEmpty { expression } => ExprView::IsEmpty {
            expression: Box::new(rescoped(*expression, scope)),
        },
        ExprView::Contains { value, needle } => ExprView::Contains {
            value: Box::new(rescoped(*value, scope)),
            needle: Box::new(rescoped(*needle, scope)),
        },
        ExprView::StartsWith { value, prefix } => ExprView::StartsWith {
            value: Box::new(rescoped(*value, scope)),
            prefix: Box::new(rescoped(*prefix, scope)),
        },
        ExprView::EndsWith { value, suffix } => ExprView::EndsWith {
            value: Box::new(rescoped(*value, scope)),
            suffix: Box::new(rescoped(*suffix, scope)),
        },
        ExprView::In { needle, collection } => ExprView::In {
            needle: Box::new(rescoped(*needle, scope)),
            collection: Box::new(rescoped(*collection, scope)),
        },
    }
}

pub open spec fn rescoped_all(items: Seq<ExprView>, scope: Seq<char>) -> Seq<ExprView>
    decreases items,
{
    Seq::new(
        items.len(),
        |i: int|
            if 0 <= i < items.len() {
                rescoped(items[i], scope)
            } else {
                arbitrary()
            },
    )
}

/// Points the context references of an expression below a scenario.
pub fn rescope(e: &ExpressionV1, scope: &str) -> (res: ExpressionV1)
    ensures
        res@ == rescoped(e@, scope@),
    decreases e, 1int,
{
    match e {
        ExpressionV1::Literal { .. } => e.clone(),
        ExpressionV1::Ref { reference } => ExpressionV1::Ref {
            reference: rescope_reference(reference, scope),
        },
        ExpressionV1::Exists { reference } => ExpressionV1::Exists {
            reference: rescope_reference(reference, scope),
        },
        ExpressionV1::All { expressions } => ExpressionV1::All {
            expressions: rescope_all(expressions, scope),
        },
        ExpressionV1::Any { expressions } => ExpressionV1::Any {
            expressions: rescope_all(expressions, scope),
        },
        ExpressionV1::Compare { operator, left, right } => ExpressionV1::Compare {
            operator: *operator,
            left: Box::new(rescope(left, scope)),
            right: Box::new(rescope(right, scope)),
        },
        ExpressionV1::Matches { value, pattern } => ExpressionV1::Matches {
            value: Box::new(rescope(value, scope)),
            pattern: pattern.clone(),
        },
        ExpressionV1::Quantifier { quantifier, collection, binding, predicate } =>
            ExpressionV1::Quantifier {
            quantifier: *quantifier,
            collection: Box::new(rescope(collection, scope)),
            binding: binding.clone(),
            predicate: Box::new(rescope(predicate, scope)),
        },
        ExpressionV1::Not { expression } => ExpressionV1::Not {
            expression: Box::new(rescope(expression, scope)),
        },
        ExpressionV1::IsNull { expression } => ExpressionV1::IsNull {
            expression: Box::new(rescope(expression, scope)),
        },
        ExpressionV1::IsEmpty { expression } => ExpressionV1::IsEmpty {
            expression: Box::new(rescope(expression, scope)),
        },
        ExpressionV1::Contains { value, needle } => ExpressionV1::Contains {
            value: Box::new(rescope(value, scope)),
            needle: Box::new(rescope(needle, scope)),
        },
        ExpressionV1::StartsWith { value, prefix } => ExpressionV1::StartsWith {
            value: Box::new(rescope(value, scope)),
            prefix: Box::new(rescope(prefix, scope)),
        },
        ExpressionV1::EndsWith { value, suffix } => ExpressionV1::EndsWith {
            value: Box::new(rescope(value, scope)),
            suffix: Box::new(rescope(suffix, scope)),
        },
        ExpressionV1::In { needle, collection } => ExpressionV1::In {
            needle: Box::new(rescope(needle, scope)),
            collection: Box::new(rescope(collection, scope)),
        },
    }
}

fn rescope_all(items: &Vec<ExpressionV1>, scope: &str) -> (res: Vec<ExpressionV1>)
    ensures
        expr_views(res@) == rescoped_all(expr_views(items@), scope@),
    decreases items, 0int,
{
    let ghost views = expr_views(items@);
    let mut res: Vec<ExpressionV1> = Vec::new();
    let mut i: usize = 0;
    while i < items.len()
        invariant
            i <= items@.len(),
            views == expr_views(items@),
            res@.len() == i,
            forall|j: int| 0 <= j < i ==> (#[trigger] res@[j])@ == rescoped(views[j], scope@),
        decreases items@.len() - i,
    {
        assert(decreases_to!(items@ => items@[i as int]));
        assert(views[i as int] == items@[i as int]@);
        res.push(rescope(&items[i], scope));
        i = i + 1;
    }
    assert(expr_views(res@) =~= rescoped_all(views, scope@));
    res
}

// ---------------------------------------------------------------------------
// Bindings and conditions
// ---------------------------------------------------------------------------
pub open spec fn rescoped_part(part: PartView, scope: Seq<char>) -> PartView {
    match part {
        PartView::Field { field } => PartView::Field { field: rescoped_ref(field, scope) },
        PartView::Literal { .. } => part,
    }
}

pub open spec fn rescoped_binding(binding: BindingView, scope: Seq<char>) -> BindingView {
    match binding {
        BindingView::Field { field } => BindingView::Field { field: rescoped_ref(field, scope) },
        BindingView::Interpolated { parts } => BindingView::Interpolated {
            parts: parts.map_values(|part: PartView| rescoped_part(part, scope)),
        },
        _ => binding,
    }
}

fn rescope_binding(binding: &Binding, scope: &str) -> (res: Binding)
    ensures
        res@ == rescoped_binding(binding@, scope@),
{
    match binding {
        Binding::Field { field } => Binding::Field { field: rescope_ref(field, scope) },
        Binding::Interpolated { parts } => {
            let ghost views = part_views(parts@);
            let mut res: Vec<TemplatePart> = Vec::new();
            let mut i: usize = 0;
            while i < parts.len()
                invariant
                    i <= parts@.len(),
                    views == part_views(parts@),
                    res@.len() == i,
                    forall|j: int|
                        0 <= j < i ==> (#[trigger] res@[j])@ == rescoped_part(views[j], scope@),
                decreases parts@.len() - i,
            {
                assert(views[i as int] == parts@[i as int]@);
                let part = match &parts[i] {
                    TemplatePart::Field { field } => TemplatePart::Field {
                        field: rescope_ref(field, scope),
                    },
                    TemplatePart::Literal { .. } => parts[i].clone(),
                };
                res.push(part);
                i = i + 1;
            }
            assert(part_views(res@) =~= views.map_values(
                |part: PartView| rescoped_part(part, scope@),
            ));
            Binding::Interpolated { parts: res }
        },
        _ => binding.clone(),
    }
}

pub open spec fn rescoped_bindings(
    bindings: Seq<(Seq<char>, BindingView)>,
    scope: Seq<char>,
) -> Seq<(Seq<char>, BindingView)> {
    bindings.map_values(
        |entry: (Seq<char>, BindingView)| (entry.0, rescoped_binding(entry.1, scope)),
    )
}

fn rescope_bindings(bindings: &TextMap<Binding>, scope: &str) -> (res: TextMap<Binding>)
    ensures
        binding_views(res.entries@) == rescoped_bindings(
            binding_views(bindings.entries@),
            scope@,
        ),
{
    let ghost views = binding_views(bindings.entries@);
    let mut entries: Vec<(String, Binding)> = Vec::new();
    let mut i: usize = 0;
    while i < bindings.entries.len()
        invariant
            i <= bindings.entries@.len(),
            views == binding_views(bindings.entries@),
            entries@.len() == i,
            forall|j: int|
                0 <= j < i ==> (#[trigger] entries@[j]).0@ == views[j].0 && entries@[j].1@
                    == rescoped_binding(views[j].1, scope@),
        decreases bindings.entries@.len() - i,
    {
        assert(views[i as int] == (
            bindings.entries@[i as int].0@,
            bindings.entries@[i as int].1@,
        ));
        entries.push(
            (bindings.entries[i].0.clone(), rescope_binding(&bindings.entries[i].1, scope)),
        );
        i = i + 1;
    }
    assert(binding_views(entries@) =~= rescoped_bindings(views, scope@));
    TextMap { entries }
}

pub open spec fn rescoped_condition(c: ConditionView, scope: Seq<char>) -> ConditionView
    decreases c,
{
    match c {
        ConditionView::Expression { rule, policy } => ConditionView::Expression {
            rule: rescoped(rule, scope),
            policy,
        },
        ConditionView::All { conditions } => ConditionView::All {
            conditions: rescoped_conditions(conditions, scope),
        },
        ConditionView::Any { conditions } => ConditionView::Any {
            conditions: rescoped_conditions(conditions, scope),
        },
        ConditionView::Not { condition } => ConditionView::Not {
            condition: Box::new(rescoped_condition(*condition, scope)),
        },
        ConditionView::ExitCode { step, codes } => ConditionView::ExitCode {
            step: below(scope, step),
            codes,
        },
        ConditionView::Path { .. } => c,
    }
}

pub open spec fn rescoped_conditions(list: Seq<ConditionView>, scope: Seq<char>) -> Seq<
    ConditionView,
>
    decreases list,
{
    Seq::new(
        list.len(),
        |i: int|
            if 0 <= i < list.len() {
                rescoped_condition(list[i], scope)
            } else {
                arbitrary()
            },
    )
}

fn rescope_condition(c: &StepCondition, scope: &str) -> (res: StepCondition)
    ensures
        res@ == rescoped_condition(c@, scope@),
    decreases c, 1int,
{
    match c {
        StepCondition::Expression { rule, policy } => StepCondition::Expression {
            rule: rescope(rule, scope),
            policy: *policy,
        },
        StepCondition::All { conditions } => StepCondition::All {
            conditions: rescope_conditions(conditions, scope),
        },
        StepCondition::Any { conditions } => StepCondition::Any {
            conditions: rescope_conditions(conditions, scope),
        },
        StepCondition::Not { condition } => StepCondition::Not {
            condition: Box::new(rescope_condition(condition, scope)),
        },
        StepCondition::ExitCode { step, codes } => StepCondition::ExitCode {
            step: show_below(scope, step),
            codes: clone_codes(codes),
        },
        StepCondition::Path { .. } => c.clone(),
    }
}

fn rescope_conditions(list: &Vec<StepCondition>, scope: &str) -> (res: Vec<StepCondition>)
    ensures
        condition_views(res@) == rescoped_conditions(condition_views(list@), scope@),
    decreases list, 0int,
{
    let ghost views = condition_views(list@);
    let mut res: Vec<StepCondition> = Vec::new();
    let mut i: usize = 0;
    while i < list.len()
        invariant
            i <= list@.len(),
            views == condition_views(list@),
            res@.len() == i,
            forall|j: int|
                0 <= j < i ==> (#[trigger] res@[j])@ == rescoped_condition(views[j], scope@),
        decreases list@.len() - i,
    {
        assert(decreases_to!(list@ => list@[i as int]));
        assert(views[i as int] == list@[i as int]@);
        res.push(rescope_condition(&list[i], scope));
        i = i + 1;
    }
    assert(condition_views(res@) =~= rescoped_conditions(views, scope@));
    res
}

pub open spec fn rescoped_option(c: Option<ConditionView>, scope: Seq<char>) -> Option<
    ConditionView,
> {
    match c {
        Some(c) => Some(rescoped_condition(c, scope)),
        None => None,
    }
}

fn rescope_option(c: &Option<StepCondition>, scope: &str) -> (res: Option<StepCondition>)
    ensures
        optional_condition(res) == rescoped_option(optional_condition(*c), scope@),
{
    match c {
        Some(c) => Some(rescope_condition(c, scope)),
        None => None,
    }
}

// ---------------------------------------------------------------------------
// Steps
// ---------------------------------------------------------------------------
/// An action whose loop actions and snapshots name their sources below a scenario.
pub open spec fn rescoped_action(action: ActionView, scope: Seq<char>) -> ActionView {
    match action {
        ActionView::ForEach { source_step, array_path, item, fields } => ActionView::ForEach {
            source_step: below(scope, source_step),
            array_path,
            item,
            fields,
        },
        ActionView::ForEachGitCloneIfMissing { loop_step, repo, dest, branch } =>
            ActionView::ForEachGitCloneIfMissing {
            loop_step: below(scope, loop_step),
            repo,
            dest,
            branch,
        },
        ActionView::SelectArrayItems { source, item_type, selected_items } =>
            ActionView::SelectArrayItems {
            source: match source {
                Some(field) => Some(rescoped_ref(field, scope)),
                None => None,
            },
            item_type,
            selected_items,
        },
        _ => action,
    }
}

fn rescope_action(action: &Action, scope: &str) -> (res: Action)
    ensures
        res@ == rescoped_action(action@, scope@),
{
    match action {
        Action::ForEach { source_step, array_path, item, fields } => Action::ForEach {
            source_step: show_below(scope, source_step),
            array_path: array_path.clone(),
            item: item.clone(),
            fields: clone_texts(fields),
        },
        Action::ForEachGitCloneIfMissing { loop_step, repo, dest, branch } =>
            Action::ForEachGitCloneIfMissing {
            loop_step: show_below(scope, loop_step),
            repo: repo.clone(),
            dest: dest.clone(),
            branch: clone_optional(branch),
        },
        Action::SelectArrayItems { source, item_type, selected_items } => Action::SelectArrayItems {
            source: match source {
                Some(field) => Some(rescope_ref(field, scope)),
                None => None,
            },
            item_type: item_type.clone(),
            selected_items: clone_values(selected_items),
        },
        _ => action.clone(),
    }
}

/// A step moved below a scenario.
pub open spec fn moved(step: StepView, scope: Seq<char>) -> StepView {
    StepView {
        id: below(scope, step.id),
        bindings: rescoped_bindings(step.bindings, scope),
        when: rescoped_option(step.when, scope),
        require: rescoped_option(step.require, scope),
        action: rescoped_action(step.action, scope),
        ..step
    }
}

pub fn move_step(step: &Step, scope: &str) -> (res: Step)
    ensures
        res@ == moved(step@, scope@),
{
    let mut res = step.clone();
    res.id = show_below(scope, &step.id);
    res.bindings = rescope_bindings(&step.bindings, scope);
    res.when = rescope_option(&step.when, scope);
    res.require = rescope_option(&step.require, scope);
    res.action = rescope_action(&step.action, scope);
    res
}

// ---------------------------------------------------------------------------
// Laws
// ---------------------------------------------------------------------------
/// Whether a reference is another one, read below a scope: what a step or a loop produced is
/// now what the step or loop of that name below the scope produces, at the same path; what the
/// scenario itself was given stays.
pub open spec fn reads_below(
    before: FieldRefView,
    scope: Seq<char>,
    after: FieldRefView,
) -> bool {
    &&& after.segments == before.segments
    &&& match before.scope {
        ScopeView::Scenario => after.scope == before.scope,
        ScopeView::Step { step_id } => after.scope matches ScopeView::Step { step_id: id } && id
            == scope + "/"@ + step_id,
        ScopeView::LoopItem { step_id } => after.scope matches ScopeView::LoopItem { step_id: id }
            && id == scope + "/"@ + step_id,
    }
}

/// The same of lists of references, place by place.
pub open spec fn all_read_below(
    before: Seq<FieldRefView>,
    scope: Seq<char>,
    after: Seq<FieldRefView>,
) -> bool {
    before.len() == after.len() && forall|i: int|
        0 <= i < before.len() ==> reads_below(#[trigger] before[i], scope, after[i])
}

/// An expression below a scope has the references of the expression, read below the scope.
pub proof fn law_rescoped_expression(e: ExprView, scope: Seq<char>)
    ensures
        all_read_below(e.references(), scope, rescoped(e, scope).references()),
    decreases e, 0int,
{
    match e {
        ExprView::All { expressions } => {
            lemma_rescoped_list(expressions, scope, expressions.len() as int);
            assert(expressions.take(expressions.len() as int) =~= expressions);
            let after = rescoped_all(expressions, scope);
            assert(after.take(expressions.len() as int) =~= after);
        },
        ExprView::Any { expressions } => {
            lemma_rescoped_list(expressions, scope, expressions.len() as int);
            assert(expressions.take(expressions.len() as int) =~= expressions);
            let after = rescoped_all(expressions, scope);
            assert(after.take(expressions.len() as int) =~= after);
        },
        ExprView::Not { expression } => law_rescoped_expression(*expression, scope),
        ExprView::IsNull { expression } => law_rescoped_expression(*expression, scope),
        ExprView::IsEmpty { expression } => law_rescoped_expression(*expression, scope),
        ExprView::Compare { left, right, .. } => {
            law_rescoped_expression(*left, scope);
            law_rescoped_expression(*right, scope);
        },
        ExprView::Contains { value, needle } => {
            law_rescoped_expression(*value, scope);
            law_rescoped_expression(*needle, scope);
        },
        ExprView::StartsWith { value, prefix } => {
            law_rescoped_expression(*value, scope);
            law_rescoped_expression(*prefix, scope);
        },
        ExprView::EndsWith { value, suffix } => {
            law_rescoped_expression(*value, scope);
            law_rescoped_expression(*suffix, scope);
        },
        ExprView::Matches { value, .. } => law_rescoped_expression(*value, scope),
        ExprView::In { needle, collection } => {
            law_rescoped_expression(*needle, scope);
            law_rescoped_expression(*collection, scope);
        },
        ExprView::Quantifier { collection, predicate, .. } => {
            law_rescoped_expression(*collection, scope);
            law_rescoped_expression(*predicate, scope);
        },
        _ => {},
    }
}

proof fn lemma_rescoped_list(items: Seq<ExprView>, scope: Seq<char>, n: int)
    requires
        0 <= n <= items.len(),
    ensures
        all_read_below(
            references_of(items.take(n)),
            scope,
            references_of(rescoped_all(items, scope).take(n)),
        ),
    decreases items, n,
{
    if n > 0 {
        let after = rescoped_all(items, scope);
        assert(items.take(n).drop_last() =~= items.take(n - 1));
        assert(after.take(n).drop_last() =~= after.take(n - 1));
        assert(items.take(n).last() == items[n - 1]);
        assert(after.take(n).last() == rescoped(items[n - 1], scope));
        lemma_rescoped_list(items, scope, n - 1);
        assert(decreases_to!(items => items[n - 1]));
        law_rescoped_expression(items[n - 1], scope);
    }
}

proof fn lemma_rescoped_parts(parts: Seq<PartView>, scope: Seq<char>, i: nat)
    ensures
        all_read_below(
            part_refs(parts, i),
            scope,
            part_refs(parts.map_values(|part: PartView| rescoped_part(part, scope)), i),
        ),
    decreases parts.len() - i,
{
    if i < parts.len() {
        lemma_rescoped_parts(parts, scope, i + 1);
    }
}

/// A binding below a scope has the references of the binding, read below the scope; a literal
/// and a fixed text stay as they are.
pub proof fn law_rescoped_binding(binding: BindingView, scope: Seq<char>)
    ensures
        all_read_below(
            binding_refs(binding),
            scope,
            binding_refs(rescoped_binding(binding, scope)),
        ),
        binding is Literal || binding is Template ==> rescoped_binding(binding, scope) == binding,
        binding is Field <==> rescoped_binding(binding, scope) is Field,
{
    match binding {
        BindingView::Interpolated { parts } => lemma_rescoped_parts(parts, scope, 0),
        _ => {},
    }
}

/// A step below a scope has its name below the scope, the same kind of action under the same
/// policies, and bindings for the same inputs.
pub proof fn law_moved_step(step: StepView, scope: Seq<char>, k: int)
    ensures
        moved(step, scope).id == scope + "/"@ + step.id,
        moved(step, scope).auth == step.auth,
        moved(step, scope).allow_elevation == step.allow_elevation,
        moved(step, scope).dangerous == step.dangerous,
        moved(step, scope).action.kind() == step.action.kind(),
        moved(step, scope).bindings.len() == step.bindings.len(),
        0 <= k < step.bindings.len() ==> moved(step, scope).bindings[k].0 == step.bindings[k].0
            && all_read_below(
            binding_refs(step.bindings[k].1),
            scope,
            binding_refs(moved(step, scope).bindings[k].1),
        ),
        step.when is None <==> moved(step, scope).when is None,
        step.require is None <==> moved(step, scope).require is None,
{
    if 0 <= k < step.bindings.len() {
        law_rescoped_binding(step.bindings[k].1, scope);
    }
}

/// A condition below a scope has the references of the condition, read below the scope.
pub proof fn law_rescoped_condition(c: ConditionView, scope: Seq<char>)
    ensures
        all_read_below(condition_refs(c), scope, condition_refs(rescoped_condition(c, scope))),
    decreases c, 0int,
{
    match c {
        ConditionView::Expression { rule, .. } => law_rescoped_expression(rule, scope),
        ConditionView::All { conditions } => lemma_rescoped_conditions(conditions, scope, 0),
        ConditionView::Any { conditions } => lemma_rescoped_conditions(conditions, scope, 0),
        ConditionView::Not { condition } => law_rescoped_condition(*condition, scope),
        _ => {},
    }
}

proof fn lemma_rescoped_conditions(list: Seq<ConditionView>, scope: Seq<char>, i: nat)
    ensures
        all_read_below(
            conditions_refs(list, i),
            scope,
            conditions_refs(rescoped_conditions(list, scope), i),
        ),
    decreases list, list.len() - i,
{
    if i < list.len() {
        law_rescoped_condition(list[i as int], scope);
        lemma_rescoped_conditions(list, scope, i + 1);
    }
}

/// Steps with different names below one scope have different names.
pub proof fn law_moved_names_stay_apart(a: StepView, b: StepView, scope: Seq<char>)
    ensures
        moved(a, scope).id == moved(b, scope).id ==> a.id == b.id,
{
    let head = scope + "/"@;
    if moved(a, scope).id == moved(b, scope).id {
        assert(a.id =~= (head + a.id).skip(head.len() as int));
        assert(b.id =~= (head + b.id).skip(head.len() as int));
    }
}

} // verus!
