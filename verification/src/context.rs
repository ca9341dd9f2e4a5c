//! Scopes, references and bindings: how a step names a value that another
//! step produced.
use vstd::prelude::*;

use crate::json::{Value, ValueView};
use crate::text;
use crate::text::same_text;

verus! {

/// Stable origin scope for a context field. Step and loop scopes use immutable
/// step IDs rather than display names or positional indices.
#[derive(Debug, PartialEq, Eq, PartialOrd, Ord)]
pub enum ContextScope {
    Scenario,
    Step { step_id: String },
    LoopItem { step_id: String },
}

pub enum ScopeView {
    Scenario,
    Step { step_id: Seq<char> },
    LoopItem { step_id: Seq<char> },
}

impl ContextScope {
    pub open spec fn view(&self) -> ScopeView {
        match self {
            ContextScope::Scenario => ScopeView::Scenario,
            ContextScope::Step { step_id } => ScopeView::Step { step_id: step_id@ },
            ContextScope::LoopItem { step_id } => ScopeView::LoopItem { step_id: step_id@ },
        }
    }

    /// Whether two scopes are the same.
    pub fn same(&self, other: &ContextScope) -> (same: bool)
        ensures
            same == (self@ == other@),
    {
        match (self, other) {
            (ContextScope::Scenario, ContextScope::Scenario) => true,
            (ContextScope::Step { step_id: a }, ContextScope::Step { step_id: b }) => same_text(
                a,
                b,
            ),
            (ContextScope::LoopItem { step_id: a }, ContextScope::LoopItem { step_id: b }) =>
                same_text(a, b),
            _ => false,
        }
    }

    /// The scope as it is shown in messages.
    pub fn debug(&self) -> (res: String)
        ensures
            res@ == self@.debug(),
    {
        match self {
            ContextScope::Scenario => text::owned("Scenario"),
            ContextScope::Step { step_id } => {
                let mut out = text::joined("Step { step_id: ", &text::quoted(step_id));
                out.append(" }");
                out
            },
            ContextScope::LoopItem { step_id } => {
                let mut out = text::joined("LoopItem { step_id: ", &text::quoted(step_id));
                out.append(" }");
                out
            },
        }
    }
}

impl ScopeView {
    pub open spec fn debug(self) -> Seq<char> {
        match self {
            ScopeView::Scenario => "Scenario"@,
            ScopeView::Step { step_id } => "Step { step_id: "@ + text::debug_text(step_id) + " }"@,
            ScopeView::LoopItem { step_id } => "LoopItem { step_id: "@ + text::debug_text(step_id)
                + " }"@,
        }
    }
}

impl Clone for ContextScope {
    fn clone(&self) -> (res: Self)
        ensures
            res == *self,
    {
        match self {
            ContextScope::Scenario => ContextScope::Scenario,
            ContextScope::Step { step_id } => ContextScope::Step { step_id: step_id.clone() },
            ContextScope::LoopItem { step_id } => ContextScope::LoopItem {
                step_id: step_id.clone(),
            },
        }
    }
}

#[derive(Debug, PartialEq, Eq, PartialOrd, Ord)]
pub enum ContextPathSegment {
    Field { name: String },
    Index { index: usize },
}

pub enum SegmentView {
    Field { name: Seq<char> },
    Index { index: nat },
}

impl ContextPathSegment {
    pub open spec fn view(&self) -> SegmentView {
        match self {
            ContextPathSegment::Field { name } => SegmentView::Field { name: name@ },
            ContextPathSegment::Index { index } => SegmentView::Index { index: *index as nat },
        }
    }

    pub fn field(name: &str) -> (res: Self)
        ensures
            res@ == (SegmentView::Field { name: name@ }),
    {
        ContextPathSegment::Field { name: text::owned(name) }
    }

    pub fn index(index: usize) -> (res: Self)
        ensures
            res@ == (SegmentView::Index { index: index as nat }),
    {
        ContextPathSegment::Index { index }
    }

    /// Whether two segments are the same.
    pub fn same(&self, other: &ContextPathSegment) -> (same: bool)
        ensures
            same == (self@ == other@),
    {
        match (self, other) {
            (ContextPathSegment::Field { name: a }, ContextPathSegment::Field { name: b }) =>
                same_text(a, b),
            (ContextPathSegment::Index { index: a }, ContextPathSegment::Index { index: b }) => *a
                == *b,
            _ => false,
        }
    }

    fn debug(&self) -> (res: String)
        ensures
            res@ == self@.debug(),
    {
        match self {
            ContextPathSegment::Field { name } => {
                let mut out = text::joined("Field { name: ", &text::quoted(name));
                out.append(" }");
                out
            },
            ContextPathSegment::Index { index } => {
                let mut out = text::joined("Index { index: ", &text::count_text(*index));
                out.append(" }");
                out
            },
        }
    }
}

impl SegmentView {
    pub open spec fn debug(self) -> Seq<char> {
        match self {
            SegmentView::Field { name } => "Field { name: "@ + text::debug_text(name) + " }"@,
            SegmentView::Index { index } => "Index { index: "@ + text::decimal(index) + " }"@,
        }
    }
}

impl Clone for ContextPathSegment {
    fn clone(&self) -> (res: Self)
        ensures
            res == *self,
    {
        match self {
            ContextPathSegment::Field { name } => ContextPathSegment::Field { name: name.clone() },
            ContextPathSegment::Index { index } => ContextPathSegment::Index { index: *index },
        }
    }
}

pub open spec fn segment_views(segments: Seq<ContextPathSegment>) -> Seq<SegmentView> {
    segments.map_values(|s: ContextPathSegment| s.view())
}

/// A copy of a path.
pub fn clone_path(segments: &[ContextPathSegment]) -> (res: Vec<ContextPathSegment>)
    ensures
        res@ == segments@,
{
    let mut out: Vec<ContextPathSegment> = Vec::new();
    let mut i: usize = 0;
    while i < segments.len()
        invariant
            i <= segments@.len(),
            out@ == segments@.take(i as int),
        decreases segments@.len() - i,
    {
        out.push(segments[i].clone());
        i = i + 1;
        assert(out@ =~= segments@.take(i as int));
    }
    assert(out@ =~= segments@);
    out
}

/// Whether two paths are the same.
pub fn same_path(a: &[ContextPathSegment], b: &[ContextPathSegment]) -> (same: bool)
    ensures
        same == (segment_views(a@) == segment_views(b@)),
{
    if a.len() != b.len() {
        assert(segment_views(a@).len() != segment_views(b@).len());
        return false;
    }
    let mut i: usize = 0;
    while i < a.len()
        invariant
            i <= a@.len(),
            a@.len() == b@.len(),
            forall|j: int| 0 <= j < i ==> (#[trigger] a@[j])@ == b@[j]@,
        decreases a@.len() - i,
    {
        if !a[i].same(&b[i]) {
            assert(segment_views(a@)[i as int] != segment_views(b@)[i as int]);
            return false;
        }
        i = i + 1;
    }
    assert(segment_views(a@) =~= segment_views(b@));
    true
}

/// Stable, serialization-safe reference to a value in a context scope.
#[derive(Debug, PartialEq, Eq, PartialOrd, Ord)]
pub struct FieldRef {
    pub scope: ContextScope,
    pub segments: Vec<ContextPathSegment>,
}

pub struct FieldRefView {
    pub scope: ScopeView,
    pub segments: Seq<SegmentView>,
}

impl FieldRef {
    pub open spec fn view(&self) -> FieldRefView {
        FieldRefView { scope: self.scope@, segments: segment_views(self.segments@) }
    }

    pub fn step(step_id: &str) -> (res: Self)
        ensures
            res@ == (FieldRefView {
                scope: ScopeView::Step { step_id: step_id@ },
                segments: Seq::empty(),
            }),
    {
        let res = FieldRef {
            scope: ContextScope::Step { step_id: text::owned(step_id) },
            segments: Vec::new(),
        };
        assert(res@.segments =~= Seq::empty());
        res
    }

    pub fn scenario() -> (res: Self)
        ensures
            res@ == (FieldRefView { scope: ScopeView::Scenario, segments: Seq::empty() }),
    {
        let res = FieldRef { scope: ContextScope::Scenario, segments: Vec::new() };
        assert(res@.segments =~= Seq::empty());
        res
    }

    pub fn loop_item(step_id: &str) -> (res: Self)
        ensures
            res@ == (FieldRefView {
                scope: ScopeView::LoopItem { step_id: step_id@ },
                segments: Seq::empty(),
            }),
    {
        let res = FieldRef {
            scope: ContextScope::LoopItem { step_id: text::owned(step_id) },
            segments: Vec::new(),
        };
        assert(res@.segments =~= Seq::empty());
        res
    }

    pub fn field(self, name: &str) -> (res: Self)
        ensures
            res@ == self@.field(name@),
    {
        let mut segments = self.segments;
        segments.push(ContextPathSegment::field(name));
        let res = FieldRef { scope: self.scope, segments };
        assert(res@.segments =~= self@.segments.push(SegmentView::Field { name: name@ }));
        res
    }

    pub fn index(self, index: usize) -> (res: Self)
        ensures
            res@ == self@.index(index as nat),
    {
        let mut segments = self.segments;
        segments.push(ContextPathSegment::index(index));
        let res = FieldRef { scope: self.scope, segments };
        assert(res@.segments =~= self@.segments.push(SegmentView::Index { index: index as nat }));
        res
    }

    /// Whether two references are the same.
    pub fn same(&self, other: &FieldRef) -> (same: bool)
        ensures
            same == (self@ == other@),
    {
        self.scope.same(&other.scope) && same_path(&self.segments, &other.segments)
    }

    /// The reference as it is shown in messages.
    pub fn debug(&self) -> (res: String)
        ensures
            res@ == self@.debug(),
    {
        let mut out = text::joined("FieldRef { scope: ", &self.scope.debug());
        out.append(", segments: [");
        let mut list = String::new();
        let mut i: usize = 0;
        while i < self.segments.len()
            invariant
                i <= self.segments@.len(),
                list@ == segments_debug(segment_views(self.segments@).take(i as int)),
            decreases self.segments@.len() - i,
        {
            let ghost views = segment_views(self.segments@);
            proof {
                assert(views.take(i + 1).drop_last() =~= views.take(i as int));
                assert(views.take(i + 1).last() == views[i as int]);
            }
            let ghost start = list@;
            if i > 0 {
                list.append(", ");
                list.append(&self.segments[i].debug());
            } else {
                list.append(&self.segments[i].debug());
                assert(list@ =~= self.segments@[i as int]@.debug());
            }
            i = i + 1;
        }
        assert(segment_views(self.segments@).take(i as int) =~= segment_views(self.segments@));
        out.append(&list);
        out.append("] }");
        out
    }
}

impl FieldRefView {
    pub open spec fn field(self, name: Seq<char>) -> FieldRefView {
        FieldRefView {
            scope: self.scope,
            segments: self.segments.push(SegmentView::Field { name }),
        }
    }

    pub open spec fn index(self, index: nat) -> FieldRefView {
        FieldRefView {
            scope: self.scope,
            segments: self.segments.push(SegmentView::Index { index }),
        }
    }

    pub open spec fn debug(self) -> Seq<char> {
        "FieldRef { scope: "@ + self.scope.debug() + ", segments: ["@ + segments_debug(
            self.segments,
        ) + "] }"@
    }
}

/// The segments as they are shown in messages, separated by commas.
pub open spec fn segments_debug(segments: Seq<SegmentView>) -> Seq<char>
    decreases segments.len(),
{
    if segments.len() == 0 {
        Seq::empty()
    } else if segments.len() == 1 {
        segments[0].debug()
    } else {
        segments_debug(segments.drop_last()) + ", "@ + segments.last().debug()
    }
}

impl Clone for FieldRef {
    fn clone(&self) -> (res: Self)
        ensures
            res@ == self@,
    {
        FieldRef { scope: self.scope.clone(), segments: clone_path(&self.segments) }
    }
}

/// Type-neutral input binding. Expected types belong to the consumer's input
/// schema, so bindings remain reusable without a type parameter.
#[derive(Debug, PartialEq)]
pub enum Binding {
    Literal { value: Value },
    Field { field: FieldRef },
    /// Plain text. A text with references in it is `Interpolated`, whose
    /// references stay structural.
    Template { template: String },
    Interpolated { parts: Vec<TemplatePart> },
}

#[derive(Debug, PartialEq, Eq)]
pub enum TemplatePart {
    Literal { value: String },
    Field { field: FieldRef },
}

pub enum BindingView {
    Literal { value: ValueView },
    Field { field: FieldRefView },
    Template { template: Seq<char> },
    Interpolated { parts: Seq<PartView> },
}

pub enum PartView {
    Literal { value: Seq<char> },
    Field { field: FieldRefView },
}

impl TemplatePart {
    pub open spec fn view(&self) -> PartView {
        match self {
            TemplatePart::Literal { value } => PartView::Literal { value: value@ },
            TemplatePart::Field { field } => PartView::Field { field: field@ },
        }
    }

    pub fn literal(value: &str) -> (res: Self)
        ensures
            res@ == (PartView::Literal { value: value@ }),
    {
        TemplatePart::Literal { value: text::owned(value) }
    }

    pub fn field(field: FieldRef) -> (res: Self)
        ensures
            res@ == (PartView::Field { field: field@ }),
    {
        TemplatePart::Field { field }
    }
}

impl Clone for TemplatePart {
    fn clone(&self) -> (res: Self)
        ensures
            res@ == self@,
    {
        match self {
            TemplatePart::Literal { value } => TemplatePart::Literal { value: value.clone() },
            TemplatePart::Field { field } => TemplatePart::Field { field: field.clone() },
        }
    }
}

pub open spec fn part_views(parts: Seq<TemplatePart>) -> Seq<PartView> {
    parts.map_values(|p: TemplatePart| p.view())
}

impl Binding {
    pub open spec fn view(&self) -> BindingView {
        match self {
            Binding::Literal { value } => BindingView::Literal { value: value@ },
            Binding::Field { field } => BindingView::Field { field: field@ },
            Binding::Template { template } => BindingView::Template { template: template@ },
            Binding::Interpolated { parts } => BindingView::Interpolated {
                parts: part_views(parts@),
            },
        }
    }

    pub fn literal(value: Value) -> (res: Self)
        ensures
            res@ == (BindingView::Literal { value: value@ }),
    {
        Binding::Literal { value }
    }

    pub fn field(field: FieldRef) -> (res: Self)
        ensures
            res@ == (BindingView::Field { field: field@ }),
    {
        Binding::Field { field }
    }

    pub fn template(template: &str) -> (res: Self)
        ensures
            res@ == (BindingView::Template { template: template@ }),
    {
        Binding::Template { template: text::owned(template) }
    }

    pub fn interpolated(parts: Vec<TemplatePart>) -> (res: Self)
        ensures
            res@ == (BindingView::Interpolated { parts: part_views(parts@) }),
    {
        Binding::Interpolated { parts }
    }
}

impl Clone for Binding {
    fn clone(&self) -> (res: Self)
        ensures
            res@ == self@,
    {
        match self {
            Binding::Literal { value } => Binding::Literal { value: value.clone() },
            Binding::Field { field } => Binding::Field { field: field.clone() },
            Binding::Template { template } => Binding::Template { template: template.clone() },
            Binding::Interpolated { parts } => {
                let mut out: Vec<TemplatePart> = Vec::new();
                let mut i: usize = 0;
                while i < parts.len()
                    invariant
                        i <= parts@.len(),
                        out@.len() == i,
                        forall|j: int| 0 <= j < i ==> (#[trigger] out@[j])@ == parts@[j]@,
                    decreases parts@.len() - i,
                {
                    out.push(parts[i].clone());
                    i = i + 1;
                }
                assert(part_views(out@) =~= part_views(parts@));
                Binding::Interpolated { parts: out }
            },
        }
    }
}

} // verus!
