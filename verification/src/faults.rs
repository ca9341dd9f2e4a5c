//! The list of faults that validation collects, up to a limit.
use vstd::prelude::*;

use crate::graph::GRAPH_MAX_ERRORS;
use crate::graph_error::{
    error_views, GraphErrorView, GraphFault, GraphValidationError, GraphValidationErrorKind,
};
use crate::text::owned;

verus! {

pub open spec fn fault(path: Seq<char>, kind: GraphFault) -> GraphErrorView {
    GraphErrorView { path, kind }
}

/// The entry that stands for all faults beyond the limit.
pub open spec fn limit_reached() -> GraphErrorView {
    fault("graph"@, GraphFault::ErrorLimitReached { limit: GRAPH_MAX_ERRORS })
}

/// A list with one more fault: the last place is kept for the notice that there
/// are more.
pub open spec fn reported(list: Seq<GraphErrorView>, e: GraphErrorView) -> Seq<GraphErrorView> {
    if list.len() >= GRAPH_MAX_ERRORS {
        list
    } else if list.len() == GRAPH_MAX_ERRORS - 1 {
        list.push(limit_reached())
    } else {
        list.push(e)
    }
}

pub open spec fn all_reported(list: Seq<GraphErrorView>, more: Seq<GraphErrorView>) -> Seq<
    GraphErrorView,
>
    decreases more.len(),
{
    if more.len() == 0 {
        list
    } else {
        reported(all_reported(list, more.drop_last()), more.last())
    }
}

/// A fault that is there on a condition.
pub open spec fn fault_if(there: bool, path: Seq<char>, kind: GraphFault) -> Seq<GraphErrorView> {
    if there {
        seq![fault(path, kind)]
    } else {
        Seq::empty()
    }
}

pub broadcast proof fn lemma_reported_both(
    list: Seq<GraphErrorView>,
    a: Seq<GraphErrorView>,
    b: Seq<GraphErrorView>,
)
    ensures
        #[trigger] all_reported(list, a + b) == all_reported(all_reported(list, a), b),
    decreases b.len(),
{
    if b.len() == 0 {
        assert(a + b =~= a);
    } else {
        lemma_reported_both(list, a, b.drop_last());
        assert((a + b).drop_last() =~= a + b.drop_last());
        assert((a + b).last() == b.last());
    }
}

pub broadcast proof fn lemma_reported_one(list: Seq<GraphErrorView>, e: GraphErrorView)
    ensures
        #[trigger] all_reported(list, seq![e]) == reported(list, e),
{
    assert(seq![e].drop_last() =~= Seq::empty());
    assert(all_reported(list, seq![e].drop_last()) == list);
}

pub broadcast proof fn lemma_reported_none(list: Seq<GraphErrorView>)
    ensures
        #[trigger] all_reported(list, Seq::empty()) == list,
{
}

pub broadcast group group_reported {
    lemma_reported_both,
    lemma_reported_one,
    lemma_reported_none,
}

/// At most so many faults are listed: all of them where they fit, and otherwise
/// the first ones with a notice that there are more. A list is empty only where
/// nothing was found.
pub proof fn law_reported_is_capped(more: Seq<GraphErrorView>)
    ensures
        ({
            let list = all_reported(Seq::empty(), more);
            &&& list.len() <= GRAPH_MAX_ERRORS
            &&& more.len() < GRAPH_MAX_ERRORS ==> list == more
            &&& more.len() >= GRAPH_MAX_ERRORS ==> list == more.take(
                GRAPH_MAX_ERRORS - 1,
            ).push(limit_reached())
            &&& list.len() == 0 <==> more.len() == 0
        }),
    decreases more.len(),
{
    if more.len() > 0 {
        let init = more.drop_last();
        law_reported_is_capped(init);
        if more.len() < GRAPH_MAX_ERRORS {
            assert(init.push(more.last()) =~= more);
        } else if more.len() == GRAPH_MAX_ERRORS {
            assert(init =~= more.take(GRAPH_MAX_ERRORS - 1));
        } else {
            assert(init.take(GRAPH_MAX_ERRORS - 1) =~= more.take(GRAPH_MAX_ERRORS - 1));
        }
    } else {
        assert(more =~= Seq::empty());
    }
}

/// The faults found so far.
pub struct Faults {
    pub errors: Vec<GraphValidationError>,
}

impl Faults {
    pub open spec fn view(&self) -> Seq<GraphErrorView> {
        error_views(self.errors@)
    }

    pub fn new() -> (res: Self)
        ensures
            res@ == Seq::<GraphErrorView>::empty(),
    {
        let res = Faults { errors: Vec::new() };
        assert(res@ =~= Seq::empty());
        res
    }

    pub fn report(&mut self, path: &str, kind: GraphValidationErrorKind)
        ensures
            final(self)@ == reported(old(self)@, fault(path@, kind@)),
    {
        if self.errors.len() >= GRAPH_MAX_ERRORS {
            return ;
        }
        let ghost before = self@;
        if self.errors.len() == GRAPH_MAX_ERRORS - 1 {
            let e = GraphValidationError {
                path: owned("graph"),
                kind: GraphValidationErrorKind::ErrorLimitReached { limit: GRAPH_MAX_ERRORS },
            };
            self.errors.push(e);
            assert(self@ =~= before.push(limit_reached()));
            return ;
        }
        let ghost added = fault(path@, kind@);
        self.errors.push(GraphValidationError { path: owned(path), kind });
        assert(self@ =~= before.push(added));
    }
}

} // verus!
