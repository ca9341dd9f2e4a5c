//! The order of references, and sorted lists of them.
use vstd::prelude::*;

use crate::context::{
    segment_views, ContextPathSegment, ContextScope, FieldRef, FieldRefView, ScopeView,
    SegmentView,
};
use crate::store::ref_views;
use crate::text;
use crate::text::text_before;
use crate::text_map::{lemma_before_excludes, lemma_before_total, lemma_before_transitive};

verus! {

pub open spec fn segment_before(a: SegmentView, b: SegmentView) -> bool {
    match (a, b) {
        (SegmentView::Field { name: a }, SegmentView::Field { name: b }) => text::before(a, b),
        (SegmentView::Field { .. }, SegmentView::Index { .. }) => true,
        (SegmentView::Index { .. }, SegmentView::Field { .. }) => false,
        (SegmentView::Index { index: a }, SegmentView::Index { index: b }) => a < b,
    }
}

/// Paths compare segment by segment; a shorter one comes before its extensions.
pub open spec fn path_before(a: Seq<SegmentView>, b: Seq<SegmentView>) -> bool
    decreases a.len(),
{
    if b.len() == 0 {
        false
    } else if a.len() == 0 {
        true
    } else if a[0] != b[0] {
        segment_before(a[0], b[0])
    } else {
        path_before(a.skip(1), b.skip(1))
    }
}

/// The scenario comes first, then steps, then loop items.
pub open spec fn scope_before(a: ScopeView, b: ScopeView) -> bool {
    match (a, b) {
        (ScopeView::Scenario, ScopeView::Scenario) => false,
        (ScopeView::Scenario, _) => true,
        (ScopeView::Step { step_id: a }, ScopeView::Step { step_id: b }) => text::before(a, b),
        (ScopeView::Step { .. }, ScopeView::LoopItem { .. }) => true,
        (ScopeView::LoopItem { step_id: a }, ScopeView::LoopItem { step_id: b }) => text::before(
            a,
            b,
        ),
        _ => false,
    }
}

pub open spec fn ref_before(a: FieldRefView, b: FieldRefView) -> bool {
    scope_before(a.scope, b.scope) || (a.scope == b.scope && path_before(a.segments, b.segments))
}

fn is_segment_before(a: &ContextPathSegment, b: &ContextPathSegment) -> (res: bool)
    ensures
        res == segment_before(a@, b@),
{
    match (a, b) {
        (ContextPathSegment::Field { name: a }, ContextPathSegment::Field { name: b }) =>
            text_before(a, b),
        (ContextPathSegment::Field { .. }, ContextPathSegment::Index { .. }) => true,
        (ContextPathSegment::Index { .. }, ContextPathSegment::Field { .. }) => false,
        (ContextPathSegment::Index { index: a }, ContextPathSegment::Index { index: b }) => *a < *b,
    }
}

fn is_path_before(a: &Vec<ContextPathSegment>, b: &Vec<ContextPathSegment>) -> (res: bool)
    ensures
        res == path_before(segment_views(a@), segment_views(b@)),
{
    let ghost left = segment_views(a@);
    let ghost right = segment_views(b@);
    let mut i: usize = 0;
    assert(left.skip(0) =~= left);
    assert(right.skip(0) =~= right);
    while i < a.len() && i < b.len()
        invariant
            left == segment_views(a@),
            right == segment_views(b@),
            i <= a@.len(),
            i <= b@.len(),
            path_before(left, right) == path_before(left.skip(i as int), right.skip(i as int)),
        decreases a@.len() - i,
    {
        assert(left.skip(i as int).skip(1) =~= left.skip(i + 1));
        assert(right.skip(i as int).skip(1) =~= right.skip(i + 1));
        assert(left.skip(i as int)[0] == a@[i as int]@);
        assert(right.skip(i as int)[0] == b@[i as int]@);
        if !a[i].same(&b[i]) {
            return is_segment_before(&a[i], &b[i]);
        }
        i = i + 1;
    }
    i < b.len()
}

fn is_scope_before(a: &ContextScope, b: &ContextScope) -> (res: bool)
    ensures
        res == scope_before(a@, b@),
{
    match (a, b) {
        (ContextScope::Scenario, ContextScope::Scenario) => false,
        (ContextScope::Scenario, _) => true,
        (ContextScope::Step { step_id: a }, ContextScope::Step { step_id: b }) => text_before(a, b),
        (ContextScope::Step { .. }, ContextScope::LoopItem { .. }) => true,
        (ContextScope::LoopItem { step_id: a }, ContextScope::LoopItem { step_id: b }) =>
            text_before(a, b),
        _ => false,
    }
}

pub fn is_ref_before(a: &FieldRef, b: &FieldRef) -> (res: bool)
    ensures
        res == ref_before(a@, b@),
{
    is_scope_before(&a.scope, &b.scope) || (a.scope.same(&b.scope) && is_path_before(
        &a.segments,
        &b.segments,
    ))
}

proof fn lemma_segment_order(a: SegmentView, b: SegmentView, c: SegmentView)
    ensures
        segment_before(a, b) ==> a != b && !segment_before(b, a),
        segment_before(a, b) || segment_before(b, a) || a == b,
        segment_before(a, b) && segment_before(b, c) ==> segment_before(a, c),
{
    match (a, b) {
        (SegmentView::Field { name: x }, SegmentView::Field { name: y }) => {
            if text::before(x, y) {
                lemma_before_excludes(x, y);
            }
            lemma_before_total(x, y);
            match c {
                SegmentView::Field { name: z } => {
                    if text::before(x, y) && text::before(y, z) {
                        lemma_before_transitive(x, y, z);
                    }
                },
                _ => {},
            }
        },
        _ => {},
    }
}

proof fn lemma_path_order(a: Seq<SegmentView>, b: Seq<SegmentView>, c: Seq<SegmentView>)
    ensures
        path_before(a, b) ==> a != b && !path_before(b, a),
        path_before(a, b) || path_before(b, a) || a == b,
        path_before(a, b) && path_before(b, c) ==> path_before(a, c),
    decreases a.len(),
{
    if a.len() > 0 && b.len() > 0 {
        let d = if c.len() > 0 {
            c[0]
        } else {
            a[0]
        };
        lemma_segment_order(a[0], b[0], d);
        lemma_segment_order(b[0], a[0], d);
        if a[0] == b[0] {
            lemma_path_order(a.skip(1), b.skip(1), c.skip(1));
            if a.skip(1) == b.skip(1) {
                assert(a =~= seq![a[0]] + a.skip(1));
                assert(b =~= seq![b[0]] + b.skip(1));
            }
        }
    } else {
        assert(a.len() == 0 && b.len() == 0 ==> a =~= b);
    }
}

proof fn lemma_scope_order(a: ScopeView, b: ScopeView, c: ScopeView)
    ensures
        scope_before(a, b) ==> a != b && !scope_before(b, a),
        scope_before(a, b) || scope_before(b, a) || a == b,
        scope_before(a, b) && scope_before(b, c) ==> scope_before(a, c),
{
    match (a, b) {
        (ScopeView::Step { step_id: x }, ScopeView::Step { step_id: y }) => {
            if text::before(x, y) {
                lemma_before_excludes(x, y);
            }
            lemma_before_total(x, y);
            match c {
                ScopeView::Step { step_id: z } => {
                    if text::before(x, y) && text::before(y, z) {
                        lemma_before_transitive(x, y, z);
                    }
                },
                _ => {},
            }
        },
        (ScopeView::LoopItem { step_id: x }, ScopeView::LoopItem { step_id: y }) => {
            if text::before(x, y) {
                lemma_before_excludes(x, y);
            }
            lemma_before_total(x, y);
            match c {
                ScopeView::LoopItem { step_id: z } => {
                    if text::before(x, y) && text::before(y, z) {
                        lemma_before_transitive(x, y, z);
                    }
                },
                _ => {},
            }
        },
        _ => {},
    }
}

/// References are totally ordered.
pub proof fn lemma_ref_order(a: FieldRefView, b: FieldRefView, c: FieldRefView)
    ensures
        ref_before(a, b) ==> a != b && !ref_before(b, a),
        ref_before(a, b) || ref_before(b, a) || a == b,
        ref_before(a, b) && ref_before(b, c) ==> ref_before(a, c),
{
    lemma_scope_order(a.scope, b.scope, c.scope);
    lemma_scope_order(b.scope, a.scope, c.scope);
    lemma_path_order(a.segments, b.segments, c.segments);
}

/// A list with a reference put in its place, unless it is there already.
pub open spec fn insert_ref(list: Seq<FieldRefView>, r: FieldRefView) -> Seq<FieldRefView>
    decreases list.len(),
{
    if list.len() == 0 {
        seq![r]
    } else if list[0] == r {
        list
    } else if ref_before(r, list[0]) {
        seq![r] + list
    } else {
        seq![list[0]] + insert_ref(list.skip(1), r)
    }
}

/// The references of a list in order, each once.
pub open spec fn sorted_refs(list: Seq<FieldRefView>) -> Seq<FieldRefView>
    decreases list.len(),
{
    if list.len() == 0 {
        Seq::empty()
    } else {
        insert_ref(sorted_refs(list.drop_last()), list.last())
    }
}

pub open spec fn ascending_refs(list: Seq<FieldRefView>) -> bool {
    forall|i: int, j: int|
        0 <= i < j < list.len() ==> ref_before(#[trigger] list[i], #[trigger] list[j])
}

proof fn lemma_insert_ref(list: Seq<FieldRefView>, r: FieldRefView)
    requires
        ascending_refs(list),
    ensures
        ascending_refs(insert_ref(list, r)),
        forall|x: FieldRefView|
            #[trigger] insert_ref(list, r).contains(x) <==> (list.contains(x) || x == r),
    decreases list.len(),
{
    let out = insert_ref(list, r);
    if list.len() == 0 {
        assert(out[0] == r);
    } else if list[0] == r {
        assert(list.contains(r));
    } else if ref_before(r, list[0]) {
        assert forall|i: int, j: int| 0 <= i < j < out.len() implies ref_before(
            #[trigger] out[i],
            #[trigger] out[j],
        ) by {
            if i == 0 {
                if j > 1 {
                    assert(out[j] == list[j - 1]);
                    lemma_ref_order(r, list[0], list[j - 1]);
                }
            } else {
                assert(out[i] == list[i - 1] && out[j] == list[j - 1]);
            }
        }
        assert forall|x: FieldRefView| #[trigger] out.contains(x) <==> (list.contains(x) || x
            == r) by {
            if list.contains(x) {
                let k = choose|k: int| 0 <= k < list.len() && list[k] == x;
                assert(out[k + 1] == x);
            }
            if x == r {
                assert(out[0] == x);
            }
        }
    } else {
        let rest = list.skip(1);
        let tail = insert_ref(rest, r);
        assert(ascending_refs(rest));
        lemma_insert_ref(rest, r);
        lemma_ref_order(r, list[0], r);
        assert forall|i: int, j: int| 0 <= i < j < out.len() implies ref_before(
            #[trigger] out[i],
            #[trigger] out[j],
        ) by {
            assert(out[j] == tail[j - 1]);
            if i == 0 {
                assert(tail.contains(tail[j - 1]));
                if tail[j - 1] != r {
                    assert(rest.contains(tail[j - 1]));
                    let k = choose|k: int| 0 <= k < rest.len() && rest[k] == tail[j - 1];
                    assert(rest[k] == list[k + 1]);
                }
            } else {
                assert(out[i] == tail[i - 1]);
            }
        }
        assert forall|x: FieldRefView| #[trigger] out.contains(x) <==> (list.contains(x) || x
            == r) by {
            if out.contains(x) {
                let k = choose|k: int| 0 <= k < out.len() && out[k] == x;
                if k == 0 {
                    assert(list[0] == x);
                } else {
                    assert(tail[k - 1] == x);
                    assert(tail.contains(x));
                    if rest.contains(x) {
                        let m = choose|m: int| 0 <= m < rest.len() && rest[m] == x;
                        assert(list[m + 1] == x);
                    }
                }
            }
            if list.contains(x) {
                let k = choose|k: int| 0 <= k < list.len() && list[k] == x;
                if k == 0 {
                    assert(out[0] == x);
                } else {
                    assert(rest[k - 1] == x);
                    assert(rest.contains(x));
                    assert(tail.contains(x));
                    let m = choose|m: int| 0 <= m < tail.len() && tail[m] == x;
                    assert(out[m + 1] == x);
                }
            }
            if x == r {
                assert(tail.contains(r));
                let m = choose|m: int| 0 <= m < tail.len() && tail[m] == x;
                assert(out[m + 1] == x);
            }
        }
    }
}

/// Sorting keeps exactly the references that were there, in strictly ascending
/// order.
pub proof fn law_sorted_refs(list: Seq<FieldRefView>)
    ensures
        ascending_refs(sorted_refs(list)),
        forall|x: FieldRefView| #[trigger] sorted_refs(list).contains(x) <==> list.contains(x),
    decreases list.len(),
{
    if list.len() > 0 {
        let init = list.drop_last();
        law_sorted_refs(init);
        lemma_insert_ref(sorted_refs(init), list.last());
        assert forall|x: FieldRefView| #[trigger] sorted_refs(list).contains(x)
            <==> list.contains(x) by {
            assert(sorted_refs(list) == insert_ref(sorted_refs(init), list.last()));
            assert(sorted_refs(init).contains(x) <==> init.contains(x));
            if init.contains(x) {
                let k = choose|k: int| 0 <= k < init.len() && init[k] == x;
                assert(list[k] == x);
            }
            if list.contains(x) && x != list.last() {
                let k = choose|k: int| 0 <= k < list.len() && list[k] == x;
                assert(init[k] == x);
            }
            if x == list.last() {
                assert(list[list.len() - 1] == x);
            }
        }
    }
}

fn put_ref(list: &mut Vec<FieldRef>, r: FieldRef)
    ensures
        ref_views(final(list)@) == insert_ref(ref_views(old(list)@), r@),
{
    let ghost before = ref_views(list@);
    let mut i: usize = 0;
    assert(before.skip(0) =~= before);
    assert(before.take(0) + insert_ref(before.skip(0), r@) =~= insert_ref(before, r@));
    while i < list.len() && is_ref_before(&list[i], &r)
        invariant
            i <= list@.len(),
            before == ref_views(list@),
            list@ == old(list)@,
            before.take(i as int) + insert_ref(before.skip(i as int), r@) == insert_ref(before, r@),
        decreases list@.len() - i,
    {
        proof {
            let rest = before.skip(i as int);
            lemma_ref_order(list@[i as int]@, r@, r@);
            assert(rest[0] == list@[i as int]@);
            assert(rest.skip(1) =~= before.skip(i + 1));
            assert(before.take(i as int) + (seq![rest[0]] + insert_ref(rest.skip(1), r@))
                =~= before.take(i + 1) + insert_ref(before.skip(i + 1), r@));
        }
        i = i + 1;
    }
    let ghost rest = before.skip(i as int);
    proof {
        if i < list@.len() {
            assert(rest[0] == list@[i as int]@);
            lemma_ref_order(list@[i as int]@, r@, r@);
        }
    }
    if i < list.len() && list[i].same(&r) {
        assert(before.take(i as int) + rest =~= before);
        return ;
    }
    list.insert(i, r);
    proof {
        assert(ref_views(list@) =~= before.take(i as int) + (seq![r@] + rest));
        if i == before.len() {
            assert(rest =~= Seq::empty());
            assert(seq![r@] + rest =~= seq![r@]);
        }
    }
}

/// The references of a list in order, each once.
pub fn sort_refs(list: &Vec<FieldRef>) -> (res: Vec<FieldRef>)
    ensures
        ref_views(res@) == sorted_refs(ref_views(list@)),
{
    let mut out: Vec<FieldRef> = Vec::new();
    let mut i: usize = 0;
    assert(ref_views(out@) =~= sorted_refs(ref_views(list@).take(0)));
    while i < list.len()
        invariant
            i <= list@.len(),
            ref_views(out@) == sorted_refs(ref_views(list@).take(i as int)),
        decreases list@.len() - i,
    {
        let ghost views = ref_views(list@);
        proof {
            assert(views.take(i + 1).drop_last() =~= views.take(i as int));
            assert(views.take(i + 1).last() == list@[i as int]@);
        }
        put_ref(&mut out, list[i].clone());
        i = i + 1;
    }
    assert(ref_views(list@).take(i as int) =~= ref_views(list@));
    out
}

} // verus!
