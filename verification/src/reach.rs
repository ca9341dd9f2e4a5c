//! Reachability, cycles and dominators in a directed graph on `0..n`.
use vstd::prelude::*;

verus! {

/// A sequence of nodes each of which is linked to the next.
pub open spec fn walk(links: Seq<(int, int)>, p: Seq<int>) -> bool {
    forall|k: int| 0 <= k < p.len() - 1 ==> #[trigger] step(links, p, k)
}

pub open spec fn step(links: Seq<(int, int)>, p: Seq<int>, k: int) -> bool {
    links.contains((p[k], p[k + 1]))
}

/// A walk from one of the starts to a node.
pub open spec fn leads(links: Seq<(int, int)>, starts: Seq<int>, p: Seq<int>, to: int) -> bool {
    p.len() > 0 && starts.contains(p[0]) && p.last() == to && walk(links, p)
}

/// Whether a node can be reached from the starts.
pub open spec fn reachable(links: Seq<(int, int)>, starts: Seq<int>, to: int) -> bool {
    exists|p: Seq<int>| leads(links, starts, p, to)
}

/// Whether every way from the starts to a node passes through another.
pub open spec fn dominates(links: Seq<(int, int)>, starts: Seq<int>, by: int, to: int) -> bool {
    forall|p: Seq<int>| leads(links, starts, p, to) ==> p.contains(by)
}

/// Whether a node can be reached from the starts without passing through another.
pub open spec fn reachable_around(
    links: Seq<(int, int)>,
    starts: Seq<int>,
    around: int,
    to: int,
) -> bool {
    exists|p: Seq<int>| #[trigger] leads(links, starts, p, to) && !p.contains(around)
}

/// Whether a walk of so many links ends at a node.
pub open spec fn ends_walk(links: Seq<(int, int)>, length: nat, at: int) -> bool
    decreases length,
{
    length == 0 || exists|before: int|
        #![trigger links.contains((before, at))]
        links.contains((before, at)) && ends_walk(links, (length - 1) as nat, before)
}

/// All ends of the links are nodes.
pub open spec fn within(links: Seq<(int, int)>, n: int) -> bool {
    forall|k: int|
        0 <= k < links.len() ==> 0 <= (#[trigger] links[k]).0 < n && 0 <= links[k].1 < n
}

pub open spec fn link_views(links: Seq<(usize, usize)>) -> Seq<(int, int)> {
    links.map_values(|l: (usize, usize)| (l.0 as int, l.1 as int))
}

pub open spec fn start_views(starts: Seq<usize>) -> Seq<int> {
    starts.map_values(|s: usize| s as int)
}

/// For every node, the nodes that it is linked to.
pub open spec fn lists_links(next: Seq<Vec<usize>>, links: Seq<(int, int)>) -> bool {
    &&& within(links, next.len() as int)
    &&& forall|i: int, k: int|
        0 <= i < next.len() && 0 <= k < next[i]@.len() ==> links.contains(
            (i, #[trigger] next[i]@[k] as int),
        )
    &&& forall|i: int, j: int|
        0 <= i < next.len() && links.contains((i, j)) ==> exists|k: int|
            0 <= k < next[i]@.len() && #[trigger] next[i]@[k] == j
}

/// The number of nodes that are not marked.
pub open spec fn unmarked(marked: Seq<bool>) -> nat
    decreases marked.len(),
{
    if marked.len() == 0 {
        0
    } else {
        unmarked(marked.drop_last()) + if marked.last() {
            0nat
        } else {
            1nat
        }
    }
}

proof fn lemma_mark(marked: Seq<bool>, i: int)
    requires
        0 <= i < marked.len(),
        !marked[i],
    ensures
        unmarked(marked.update(i, true)) == unmarked(marked) - 1,
    decreases marked.len(),
{
    let after = marked.update(i, true);
    if i == marked.len() - 1 {
        assert(after.drop_last() =~= marked.drop_last());
    } else {
        assert(after.drop_last() =~= marked.drop_last().update(i, true));
        lemma_mark(marked.drop_last(), i);
    }
}

proof fn lemma_step(links: Seq<(int, int)>, starts: Seq<int>, around: int, from: int, to: int)
    requires
        reachable_around(links, starts, around, from),
        links.contains((from, to)),
        to != around,
    ensures
        reachable_around(links, starts, around, to),
{
    let p = choose|p: Seq<int>| #[trigger]
        leads(links, starts, p, from) && !p.contains(around);
    let q = p.push(to);
    assert(q[0] == p[0]);
    assert forall|k: int| 0 <= k < q.len() - 1 implies #[trigger] step(links, q, k) by {
        if k < p.len() - 1 {
            assert(step(links, p, k));
        } else {
            assert(q[k] == from);
        }
    }
    assert(!q.contains(around)) by {
        if q.contains(around) {
            let k = choose|k: int| 0 <= k < q.len() && q[k] == around;
            assert(p[k] == around);
        }
    }
    assert(leads(links, starts, q, to));
}

proof fn lemma_closed(
    links: Seq<(int, int)>,
    starts: Seq<int>,
    around: int,
    marked: Seq<bool>,
    p: Seq<int>,
    k: int,
)
    requires
        0 <= k < p.len(),
        starts.contains(p[0]),
        walk(links, p),
        !p.contains(around),
        within(links, marked.len() as int),
        forall|s: int| #![trigger starts.contains(s)]
            starts.contains(s) && s != around ==> 0 <= s < marked.len() && marked[s],
        forall|i: int, j: int|
            0 <= i < marked.len() && marked[i] && #[trigger] links.contains((i, j)) && j != around
                ==> marked[j],
    ensures
        0 <= p[k] < marked.len(),
        marked[p[k]],
    decreases k,
{
    assert(p.contains(p[k]));
    if k > 0 {
        lemma_closed(links, starts, around, marked, p, k - 1);
        assert(step(links, p, k - 1));
    }
}

/// What holds in the course of a search: `stack` waits to be looked at, and `x`
/// is being looked at.
#[verifier::opaque]
spec fn searching(
    links: Seq<(int, int)>,
    starts: Seq<int>,
    around: int,
    marked: Seq<bool>,
    stack: Seq<int>,
    x: int,
) -> bool {
    &&& within(links, marked.len() as int)
    &&& forall|k: int|
        0 <= k < stack.len() ==> 0 <= (#[trigger] stack[k]) < marked.len() && marked[stack[k]]
    &&& forall|j: int|
        0 <= j < marked.len() && #[trigger] marked[j] ==> reachable_around(links, starts, around, j)
    &&& forall|s: int| #![trigger starts.contains(s)]
        starts.contains(s) && s != around ==> 0 <= s < marked.len() && marked[s]
    &&& forall|j: int, t: int|
        0 <= j < marked.len() && marked[j] && !stack.contains(j) && j != x
            && #[trigger] links.contains((j, t)) && t != around ==> marked[t]
}

proof fn lemma_pop(
    links: Seq<(int, int)>,
    starts: Seq<int>,
    around: int,
    marked: Seq<bool>,
    stack: Seq<int>,
)
    requires
        searching(links, starts, around, marked, stack, -1),
        stack.len() > 0,
    ensures
        0 <= stack.last() < marked.len(),
        marked[stack.last()],
        searching(links, starts, around, marked, stack.drop_last(), stack.last()),
{
    reveal(searching);
    let x = stack.last();
    let rest = stack.drop_last();
    assert(stack[stack.len() - 1] == x);
    assert forall|k: int| 0 <= k < rest.len() implies 0 <= (#[trigger] rest[k]) < marked.len()
        && marked[rest[k]] by {
        assert(rest[k] == stack[k]);
    }
    assert forall|j: int, t: int|
        0 <= j < marked.len() && marked[j] && !rest.contains(j) && j != x
            && #[trigger] links.contains((j, t)) && t != around implies marked[t] by {
        if stack.contains(j) {
            let k = choose|k: int| 0 <= k < stack.len() && stack[k] == j;
            assert(rest[k] == j);
        }
    }
}

proof fn lemma_push(
    links: Seq<(int, int)>,
    starts: Seq<int>,
    around: int,
    marked: Seq<bool>,
    stack: Seq<int>,
    x: int,
    t: int,
)
    requires
        searching(links, starts, around, marked, stack, x),
        0 <= x < marked.len(),
        marked[x],
        0 <= t < marked.len(),
        t != around,
        links.contains((x, t)),
    ensures
        searching(links, starts, around, marked.update(t, true), stack.push(t), x),
{
    reveal(searching);
    let after = marked.update(t, true);
    let more = stack.push(t);
    lemma_step(links, starts, around, x, t);
    assert(more[stack.len() as int] == t);
    assert forall|k: int| 0 <= k < more.len() implies 0 <= (#[trigger] more[k]) < after.len()
        && after[more[k]] by {
        if k < stack.len() {
            assert(more[k] == stack[k]);
        }
    }
    assert forall|j: int, u: int|
        0 <= j < after.len() && after[j] && !more.contains(j) && j != x
            && #[trigger] links.contains((j, u)) && u != around implies after[u] by {
        assert(j != t);
        if stack.contains(j) {
            let q = choose|q: int| 0 <= q < stack.len() && stack[q] == j;
            assert(more[q] == j);
        }
        assert(marked[u]);
    }
}

proof fn lemma_looked_at(
    links: Seq<(int, int)>,
    starts: Seq<int>,
    around: int,
    marked: Seq<bool>,
    stack: Seq<int>,
    x: int,
)
    requires
        searching(links, starts, around, marked, stack, x),
        forall|t: int| #[trigger] links.contains((x, t)) && t != around ==> marked[t],
    ensures
        searching(links, starts, around, marked, stack, -1),
{
    reveal(searching);
}

proof fn lemma_found(
    links: Seq<(int, int)>,
    starts: Seq<int>,
    around: int,
    marked: Seq<bool>,
    i: int,
)
    requires
        searching(links, starts, around, marked, Seq::empty(), -1),
        0 <= i < marked.len(),
    ensures
        marked[i] == reachable_around(links, starts, around, i),
{
    reveal(searching);
    if reachable_around(links, starts, around, i) {
        let p = choose|p: Seq<int>| #[trigger]
            leads(links, starts, p, i) && !p.contains(around);
        assert forall|j: int, t: int|
            0 <= j < marked.len() && marked[j] && #[trigger] links.contains((j, t)) && t
                != around implies marked[t] by {
            assert(!Seq::<int>::empty().contains(j));
        }
        lemma_closed(links, starts, around, marked, p, p.len() - 1);
    }
}

proof fn lemma_started(
    links: Seq<(int, int)>,
    starts: Seq<usize>,
    around: int,
    marked: Seq<bool>,
    stack: Seq<int>,
)
    requires
        within(links, marked.len() as int),
        forall|k: int| 0 <= k < starts.len() ==> (#[trigger] starts[k]) < marked.len(),
        forall|k: int|
            0 <= k < stack.len() ==> 0 <= (#[trigger] stack[k]) < marked.len()
                && marked[stack[k]] && stack[k] != around && start_views(starts).contains(stack[k]),
        forall|j: int| 0 <= j < marked.len() && #[trigger] marked[j] ==> stack.contains(j),
        forall|k: int|
            0 <= k < starts.len() && starts[k] != around ==> marked[#[trigger] starts[k] as int],
    ensures
        searching(links, start_views(starts), around, marked, stack, -1),
{
    reveal(searching);
    let from = start_views(starts);
    assert forall|j: int| 0 <= j < marked.len() && #[trigger] marked[j] implies reachable_around(
        links,
        from,
        around,
        j,
    ) by {
        let k = choose|k: int| 0 <= k < stack.len() && stack[k] == j;
        let q = choose|q: int| 0 <= q < from.len() && from[q] == stack[k];
        let p = seq![j];
        assert(from[q] == j);
        assert(p[0] == j);
        assert(!p.contains(around));
        assert(leads(links, from, p, j));
    }
    assert forall|s: int| #![trigger from.contains(s)]
        from.contains(s) && s != around implies 0 <= s < marked.len() && marked[s] by {
        let q = choose|q: int| 0 <= q < from.len() && from[q] == s;
        assert(starts[q] == s);
        assert(marked[starts[q] as int]);
    }
}

/// Which nodes can be reached from the starts without passing through one node.
/// Where that is no node at all, it is in nobody's way.
fn reach_around(
    next: &Vec<Vec<usize>>,
    links: Ghost<Seq<(int, int)>>,
    starts: &Vec<usize>,
    around: usize,
) -> (res: Vec<bool>)
    requires
        lists_links(next@, links@),
        forall|k: int| 0 <= k < starts@.len() ==> (#[trigger] starts@[k]) < next@.len(),
    ensures
        res@.len() == next@.len(),
        forall|i: int|
            0 <= i < res@.len() ==> (#[trigger] res@[i] == reachable_around(
                links@,
                start_views(starts@),
                around as int,
                i,
            )),
{
    let n: usize = next.len();
    let ghost links = links@;
    let ghost from = start_views(starts@);
    let mut marked: Vec<bool> = Vec::new();
    let mut i: usize = 0;
    while i < n
        invariant
            i <= n,
            marked@.len() == i,
            forall|j: int| 0 <= j < i ==> !(#[trigger] marked@[j]),
        decreases n - i,
    {
        marked.push(false);
        i = i + 1;
    }
    let mut stack: Vec<usize> = Vec::new();
    let ghost mut waiting: Seq<int> = start_views(stack@);
    let mut s: usize = 0;
    while s < starts.len()
        invariant
            s <= starts@.len(),
            marked@.len() == n,
            forall|k: int| 0 <= k < starts@.len() ==> (#[trigger] starts@[k]) < n,
            waiting == start_views(stack@),
            from == start_views(starts@),
            forall|k: int|
                0 <= k < waiting.len() ==> 0 <= (#[trigger] waiting[k]) < n && marked@[waiting[k]]
                    && waiting[k] != around && from.contains(waiting[k]),
            forall|j: int| 0 <= j < n && #[trigger] marked@[j] ==> waiting.contains(j),
            forall|k: int|
                0 <= k < s && starts@[k] != around ==> marked@[#[trigger] starts@[k] as int],
        decreases starts@.len() - s,
    {
        let at: usize = starts[s];
        if at != around && !marked[at] {
            let ghost before = waiting;
            let ghost was = marked@;
            marked.set(at, true);
            stack.push(at);
            proof {
                waiting = start_views(stack@);
                assert(waiting =~= before.push(at as int));
                assert(from[s as int] == at);
                assert(waiting[before.len() as int] == at);
                assert forall|j: int| 0 <= j < n && #[trigger] marked@[j] implies waiting.contains(
                    j,
                ) by {
                    if j != at {
                        assert(was[j]);
                        let k = choose|k: int| 0 <= k < before.len() && before[k] == j;
                        assert(waiting[k] == j);
                    }
                }
            }
        }
        s = s + 1;
    }
    proof {
        lemma_started(links, starts@, around as int, marked@, waiting);
    }
    while stack.len() > 0
        invariant
            n == next@.len(),
            marked@.len() == n,
            lists_links(next@, links),
            searching(links, from, around as int, marked@, start_views(stack@), -1),
        decreases 2 * unmarked(marked@) + stack@.len(),
    {
        proof {
            lemma_pop(links, from, around as int, marked@, start_views(stack@));
        }
        let ghost all = start_views(stack@);
        let x: usize = stack.pop().unwrap();
        assert(all.drop_last() =~= start_views(stack@));
        assert(all.last() == x);
        let ghost bound = 2 * unmarked(marked@) + stack@.len();
        let mut k: usize = 0;
        while k < next[x].len()
            invariant
                n == next@.len(),
                x < n,
                marked@.len() == n,
                marked@[x as int],
                k <= next@[x as int]@.len(),
                lists_links(next@, links),
                searching(links, from, around as int, marked@, start_views(stack@), x as int),
                forall|q: int|
                    0 <= q < k && #[trigger] next@[x as int]@[q] != around
                        ==> marked@[next@[x as int]@[q] as int],
                2 * unmarked(marked@) + stack@.len() <= bound,
            decreases next@[x as int]@.len() - k,
        {
            let t: usize = next[x][k];
            proof {
                assert(links.contains((x as int, next@[x as int]@[k as int] as int)));
                let at = choose|at: int|
                    0 <= at < links.len() && links[at] == (x as int, t as int);
                assert(links[at].1 < n);
            }
            if t != around && !marked[t] {
                proof {
                    lemma_push(links, from, around as int, marked@, start_views(stack@), x as int, t as int);
                    lemma_mark(marked@, t as int);
                }
                let ghost before = start_views(stack@);
                marked.set(t, true);
                stack.push(t);
                assert(start_views(stack@) =~= before.push(t as int));
            }
            k = k + 1;
        }
        proof {
            assert forall|t: int| #[trigger]
                links.contains((x as int, t)) && t != around implies marked@[t] by {
                let q = choose|q: int|
                    0 <= q < next@[x as int]@.len() && #[trigger] next@[x as int]@[q] == t;
                assert(marked@[next@[x as int]@[q] as int]);
            }
            lemma_looked_at(links, from, around as int, marked@, start_views(stack@), x as int);
        }
    }
    proof {
        assert(start_views(stack@) =~= Seq::empty());
        assert forall|i: int| 0 <= i < n implies (#[trigger] marked@[i] == reachable_around(
            links,
            from,
            around as int,
            i,
        )) by {
            lemma_found(links, from, around as int, marked@, i);
        }
    }
    marked
}

spec fn listed(next: Seq<Vec<usize>>, link: (int, int)) -> bool {
    exists|q: int| 0 <= q < next[link.0]@.len() && #[trigger] next[link.0]@[q] == link.1
}

/// The links by the node that they start from.
fn list_links(n: usize, links: &Vec<(usize, usize)>) -> (next: Vec<Vec<usize>>)
    requires
        within(link_views(links@), n as int),
    ensures
        next@.len() == n,
        lists_links(next@, link_views(links@)),
{
    let ghost views = link_views(links@);
    let mut next: Vec<Vec<usize>> = Vec::new();
    let mut i: usize = 0;
    while i < n
        invariant
            i <= n,
            next@.len() == i,
            forall|j: int| 0 <= j < i ==> (#[trigger] next@[j])@.len() == 0,
        decreases n - i,
    {
        next.push(Vec::new());
        i = i + 1;
    }
    let mut k: usize = 0;
    while k < links.len()
        invariant
            k <= links@.len(),
            next@.len() == n,
            views == link_views(links@),
            within(views, n as int),
            forall|i: int, q: int|
                0 <= i < n && 0 <= q < next@[i]@.len() ==> views.contains(
                    (i, #[trigger] next@[i]@[q] as int),
                ),
            forall|m: int| 0 <= m < k ==> listed(next@, #[trigger] views[m]),
        decreases links@.len() - k,
    {
        let (a, b) = links[k];
        assert(views[k as int] == (a as int, b as int));
        assert(a < n);
        let ghost was = next@;
        let ghost row = next@[a as int]@;
        next[a].push(b);
        proof {
            assert(next@[a as int]@ =~= row.push(b));
            assert forall|i: int| 0 <= i < n && i != a implies #[trigger] next@[i] == was[i] by {}
            assert forall|i: int, q: int|
                0 <= i < n && 0 <= q < next@[i]@.len() implies views.contains(
                (i, #[trigger] next@[i]@[q] as int),
            ) by {
                if i == a {
                    if q < row.len() {
                        assert(was[i]@[q] == next@[i]@[q]);
                    } else {
                        assert(views[k as int] == (i, b as int));
                    }
                } else {
                    assert(was[i]@[q] == next@[i]@[q]);
                }
            }
            assert forall|m: int| 0 <= m < k + 1 implies listed(next@, #[trigger] views[m]) by {
                let (i, j) = views[m];
                assert(0 <= i < n);
                if m < k {
                    assert(listed(was, views[m]));
                    let q = choose|q: int|
                        0 <= q < was[i]@.len() && #[trigger] was[i]@[q] == j;
                    if i == a {
                        assert(next@[i]@[q] == row[q]);
                    }
                    assert(next@[i]@[q] == j);
                } else {
                    assert(next@[i]@[row.len() as int] == b);
                }
            }
        }
        k = k + 1;
    }
    proof {
        assert forall|i: int, j: int|
            0 <= i < next@.len() && views.contains((i, j)) implies exists|q: int|
            0 <= q < next@[i]@.len() && #[trigger] next@[i]@[q] == j by {
            let m = choose|m: int| 0 <= m < views.len() && views[m] == (i, j);
            assert(listed(next@, views[m]));
        }
    }
    next
}

/// Which nodes can be reached from the starts.
pub fn reachable_nodes(n: usize, links: &Vec<(usize, usize)>, starts: &Vec<usize>) -> (res: Vec<
    bool,
>)
    requires
        within(link_views(links@), n as int),
        forall|k: int| 0 <= k < starts@.len() ==> (#[trigger] starts@[k]) < n,
    ensures
        res@.len() == n,
        forall|i: int|
            0 <= i < n ==> (#[trigger] res@[i] == reachable(
                link_views(links@),
                start_views(starts@),
                i,
            )),
{
    let next = list_links(n, links);
    let ghost views = link_views(links@);
    let ghost from = start_views(starts@);
    let res = reach_around(&next, Ghost(views), starts, n);
    proof {
        assert forall|i: int| 0 <= i < n implies (#[trigger] res@[i] == reachable(views, from, i)) by {
            if reachable(views, from, i) {
                let p = choose|p: Seq<int>| leads(views, from, p, i);
                assert(!p.contains(n as int)) by {
                    if p.contains(n as int) {
                        let k = choose|k: int| 0 <= k < p.len() && p[k] == n;
                        if k == 0 {
                            let q = choose|q: int| 0 <= q < from.len() && from[q] == n;
                            assert(starts@[q] < n);
                        } else {
                            assert(step(views, p, k - 1));
                            let at = choose|at: int|
                                0 <= at < views.len() && views[at] == (p[k - 1], p[k]);
                            assert(views[at].1 < n);
                        }
                    }
                }
            }
        }
    }
    res
}

/// For each node, which nodes it dominates.
pub fn compute_dominators(n: usize, links: &Vec<(usize, usize)>, starts: &Vec<usize>) -> (res: Vec<
    Vec<bool>,
>)
    requires
        within(link_views(links@), n as int),
        forall|k: int| 0 <= k < starts@.len() ==> (#[trigger] starts@[k]) < n,
    ensures
        res@.len() == n,
        forall|d: int| 0 <= d < n ==> (#[trigger] res@[d])@.len() == n,
        forall|d: int, i: int|
            0 <= d < n && 0 <= i < n ==> (#[trigger] res@[d]@[i] == dominates(
                link_views(links@),
                start_views(starts@),
                d,
                i,
            )),
{
    let next = list_links(n, links);
    let ghost views = link_views(links@);
    let ghost from = start_views(starts@);
    let mut res: Vec<Vec<bool>> = Vec::new();
    let mut d: usize = 0;
    while d < n
        invariant
            d <= n,
            next@.len() == n,
            views == link_views(links@),
            from == start_views(starts@),
            lists_links(next@, views),
            forall|k: int| 0 <= k < starts@.len() ==> (#[trigger] starts@[k]) < n,
            res@.len() == d,
            forall|e: int| 0 <= e < d ==> (#[trigger] res@[e])@.len() == n,
            forall|e: int, i: int|
                0 <= e < d && 0 <= i < n ==> (#[trigger] res@[e]@[i] == dominates(
                    views,
                    from,
                    e,
                    i,
                )),
        decreases n - d,
    {
        let around = reach_around(&next, Ghost(views), starts, d);
        let mut row: Vec<bool> = Vec::new();
        let mut i: usize = 0;
        while i < n
            invariant
                i <= n,
                around@.len() == n,
                row@.len() == i,
                forall|j: int|
                    0 <= j < n ==> (#[trigger] around@[j] == reachable_around(
                        views,
                        from,
                        d as int,
                        j,
                    )),
                forall|j: int|
                    0 <= j < i ==> (#[trigger] row@[j] == dominates(views, from, d as int, j)),
            decreases n - i,
        {
            row.push(!around[i]);
            i = i + 1;
        }
        res.push(row);
        d = d + 1;
    }
    res
}

/// The nodes at which a walk of as many links as there are nodes ends: those on
/// a cycle, and those behind one.
pub fn cyclic_nodes(n: usize, links: &Vec<(usize, usize)>) -> (res: Vec<bool>)
    requires
        within(link_views(links@), n as int),
    ensures
        res@.len() == n,
        forall|i: int|
            0 <= i < n ==> (#[trigger] res@[i] == ends_walk(link_views(links@), n as nat, i)),
{
    let ghost views = link_views(links@);
    let mut left: Vec<bool> = Vec::new();
    let mut i: usize = 0;
    while i < n
        invariant
            i <= n,
            left@.len() == i,
            forall|j: int| 0 <= j < i ==> #[trigger] left@[j],
        decreases n - i,
    {
        left.push(true);
        i = i + 1;
    }
    let mut round: usize = 0;
    while round < n
        invariant
            round <= n,
            left@.len() == n,
            views == link_views(links@),
            within(views, n as int),
            forall|j: int|
                0 <= j < n ==> (#[trigger] left@[j] == ends_walk(views, round as nat, j)),
        decreases n - round,
    {
        let after = one_more(n, links, &left, Ghost(round as nat));
        left = after;
        round = round + 1;
    }
    left
}

fn one_more(n: usize, links: &Vec<(usize, usize)>, left: &Vec<bool>, length: Ghost<nat>) -> (res:
    Vec<bool>)
    requires
        left@.len() == n,
        within(link_views(links@), n as int),
        forall|j: int|
            0 <= j < n ==> (#[trigger] left@[j] == ends_walk(link_views(links@), length@, j)),
    ensures
        res@.len() == n,
        forall|j: int|
            0 <= j < n ==> (#[trigger] res@[j] == ends_walk(
                link_views(links@),
                (length@ + 1) as nat,
                j,
            )),
{
    let ghost views = link_views(links@);
    let mut res: Vec<bool> = Vec::new();
    let mut i: usize = 0;
    while i < n
        invariant
            i <= n,
            res@.len() == i,
            forall|j: int| 0 <= j < i ==> !(#[trigger] res@[j]),
        decreases n - i,
    {
        res.push(false);
        i = i + 1;
    }
    let mut k: usize = 0;
    while k < links.len()
        invariant
            k <= links@.len(),
            res@.len() == n,
            left@.len() == n,
            views == link_views(links@),
            within(views, n as int),
            forall|j: int|
                0 <= j < n ==> (#[trigger] left@[j] == ends_walk(views, length@, j)),
            forall|j: int|
                0 <= j < n && #[trigger] res@[j] ==> ends_walk(views, (length@ + 1) as nat, j),
            forall|m: int|
                0 <= m < k && ends_walk(views, length@, (#[trigger] views[m]).0)
                    ==> res@[views[m].1],
        decreases links@.len() - k,
    {
        let (a, b) = links[k];
        assert(views[k as int] == (a as int, b as int));
        assert(a < n && b < n);
        if left[a] {
            proof {
                assert(views.contains((a as int, b as int)));
                assert(ends_walk(views, length@, a as int));
            }
            res.set(b, true);
        }
        k = k + 1;
    }
    proof {
        assert forall|j: int| 0 <= j < n implies (#[trigger] res@[j] == ends_walk(
            views,
            (length@ + 1) as nat,
            j,
        )) by {
            if ends_walk(views, (length@ + 1) as nat, j) {
                let before = choose|before: int|
                    #![trigger views.contains((before, j))]
                    views.contains((before, j)) && ends_walk(views, length@, before);
                let m = choose|m: int| 0 <= m < views.len() && views[m] == (before, j);
                assert(views[m].0 == before);
            }
        }
    }
    res
}

// ---------------------------------------------------------------------------
// Laws
// ---------------------------------------------------------------------------
/// Dominance is a partial order's lower half: every node dominates itself, and
/// what dominates a dominator dominates.
pub proof fn law_dominance_nests(
    links: Seq<(int, int)>,
    starts: Seq<int>,
    a: int,
    b: int,
    c: int,
)
    ensures
        dominates(links, starts, a, a),
        dominates(links, starts, a, b) && dominates(links, starts, b, c) ==> dominates(
            links,
            starts,
            a,
            c,
        ),
{
    assert forall|p: Seq<int>| leads(links, starts, p, a) implies p.contains(a) by {
        assert(p[p.len() - 1] == a);
    }
    if dominates(links, starts, a, b) && dominates(links, starts, b, c) {
        assert forall|p: Seq<int>| leads(links, starts, p, c) implies p.contains(a) by {
            assert(p.contains(b));
            let k = choose|k: int| 0 <= k < p.len() && p[k] == b;
            let q = p.take(k + 1);
            assert(q[0] == p[0]);
            assert(q.last() == b);
            assert forall|j: int| 0 <= j < q.len() - 1 implies #[trigger] step(links, q, j) by {
                assert(step(links, p, j));
            }
            assert(leads(links, starts, q, b));
            assert(q.contains(a));
            let m = choose|m: int| 0 <= m < q.len() && q[m] == a;
            assert(p[m] == a);
        }
    }
}

/// A walk that ends where it began.
pub open spec fn cycle(links: Seq<(int, int)>, p: Seq<int>) -> bool {
    p.len() >= 2 && p[0] == p.last() && walk(links, p)
}

proof fn lemma_walk_exists(links: Seq<(int, int)>, length: nat, at: int) -> (p: Seq<int>)
    requires
        ends_walk(links, length, at),
    ensures
        p.len() == length + 1,
        p.last() == at,
        walk(links, p),
    decreases length,
{
    if length == 0 {
        seq![at]
    } else {
        let before = choose|before: int|
            #![trigger links.contains((before, at))]
            links.contains((before, at)) && ends_walk(links, (length - 1) as nat, before);
        let q = lemma_walk_exists(links, (length - 1) as nat, before);
        let p = q.push(at);
        assert forall|k: int| 0 <= k < p.len() - 1 implies #[trigger] step(links, p, k) by {
            if k < q.len() - 1 {
                assert(step(links, q, k));
            } else {
                assert(p[k] == before);
            }
        }
        p
    }
}

proof fn lemma_repeats(p: Seq<int>, n: nat) -> (pair: (int, int))
    requires
        p.len() == n + 1,
        forall|k: int| 0 <= k < p.len() ==> 0 <= #[trigger] p[k] < n,
    ensures
        0 <= pair.0 < pair.1 < p.len(),
        p[pair.0] == p[pair.1],
{
    if p.no_duplicates() {
        p.unique_seq_to_set();
        let range = vstd::set_lib::set_int_range(0, n as int);
        vstd::set_lib::lemma_int_range(0, n as int);
        assert forall|x: int| p.to_set().contains(x) implies range.contains(x) by {
            let k = choose|k: int| 0 <= k < p.len() && p[k] == x;
        }
        vstd::set_lib::lemma_len_subset(p.to_set(), range);
    }
    let (i, j) = choose|i: int, j: int|
        0 <= i < p.len() && 0 <= j < p.len() && i != j && #[trigger] p[i] == #[trigger] p[j];
    if i < j {
        (i, j)
    } else {
        (j, i)
    }
}

proof fn lemma_cycle_walks(links: Seq<(int, int)>, p: Seq<int>, k: int, length: nat)
    requires
        cycle(links, p),
        0 <= k < p.len(),
    ensures
        ends_walk(links, length, p[k]),
    decreases length,
{
    if length > 0 {
        let before = if k > 0 {
            k - 1
        } else {
            p.len() - 2
        };
        lemma_cycle_walks(links, p, before, (length - 1) as nat);
        assert(step(links, p, before));
        assert(links.contains((p[before], p[k])));
    }
}

/// Nodes are found on or behind a cycle exactly where there is a cycle.
pub proof fn law_walks_find_cycles(links: Seq<(int, int)>, n: nat)
    requires
        within(links, n as int),
    ensures
        (exists|at: int| 0 <= at < n && #[trigger] ends_walk(links, n, at)) <==> exists|
            p: Seq<int>,
        | cycle(links, p),
{
    if exists|at: int| 0 <= at < n && #[trigger] ends_walk(links, n, at) {
        let at = choose|at: int| 0 <= at < n && #[trigger] ends_walk(links, n, at);
        let p = lemma_walk_exists(links, n, at);
        assert forall|k: int| 0 <= k < p.len() implies 0 <= #[trigger] p[k] < n by {
            if k < p.len() - 1 {
                assert(step(links, p, k));
                let m = choose|m: int| 0 <= m < links.len() && links[m] == (p[k], p[k + 1]);
                assert(links[m].0 == p[k]);
            }
        }
        let (i, j) = lemma_repeats(p, n);
        let q = p.subrange(i, j + 1);
        assert forall|k: int| 0 <= k < q.len() - 1 implies #[trigger] step(links, q, k) by {
            assert(step(links, p, i + k));
        }
        assert(cycle(links, q));
    }
    if exists|p: Seq<int>| cycle(links, p) {
        let p = choose|p: Seq<int>| cycle(links, p);
        assert(step(links, p, 0));
        let m = choose|m: int| 0 <= m < links.len() && links[m] == (p[0], p[1]);
        assert(0 <= links[m].0 < n);
        lemma_cycle_walks(links, p, 0, n);
        assert(ends_walk(links, n, p[0]));
    }
}

} // verus!
