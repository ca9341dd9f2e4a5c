//! What validation accepts.
use vstd::prelude::*;

use crate::context::FieldRefView;
use crate::graph::{
    node_place, EdgeView, EndpointView, GraphView, NodeView, WORKFLOW_GRAPH_VERSION,
};
use crate::graph_check::{
    action_binding_faults, action_faults, all_faults, collected, collected_node, collected_nodes,
    cycle_names, edge_faults, entered, entry_faults, exit_list_faults, id_faults,
    join_faults, layout, links_of, local_ids, named_place, no_env, node_faults, node_named,
    nodes_faults, seen_before, starts_of, structure_faults, terminal_faults, unreachable_faults,
    visible_at, Layout,
};
use crate::graph_error::EdgePort;
use crate::graph_flow::{EnvView, ScopeOf};
use crate::graph_laws::{proper_id, sound_edge, sound_entry, sound_join, well_structured};
use crate::legacy::{
    chain_graph, imported, invalid_step, lemma_chained, lemma_converted_in_order, step_node,
    without_loops, LinearFault,
};
use crate::load_error::{LoadFault, PackTrust};
use crate::loader::{
    expanded_children, lemma_first_task_is, repeated_step, resolved_task, PackView,
};
use crate::names;
use crate::names::{law_put, lemma_place, place_of, put};
use crate::preflight::{law_refusal_is_reported, look};
use crate::reach::{ends_walk, leads, reachable, step};
use crate::static_type::StaticView;
use crate::task::StepView;
use crate::text;
use crate::text_map;

verus! {

// ---------------------------------------------------------------------------
// Ports
// ---------------------------------------------------------------------------
/// An action is left through success, failure or always; a loop when it has completed, was
/// empty or has failed; and any other node when it has completed or has failed. None is left
/// through another port.
pub proof fn law_ports(node: NodeView)
    ensures
        node is Action ==> node.emits(EdgePort::Success) && node.emits(EdgePort::Failure)
            && node.emits(EdgePort::Always) && !node.emits(EdgePort::Completed) && !node.emits(
            EdgePort::Empty,
        ),
        node is ForEach ==> node.emits(EdgePort::Completed) && node.emits(EdgePort::Empty)
            && node.emits(EdgePort::Failure) && !node.emits(EdgePort::Success) && !node.emits(
            EdgePort::Always,
        ),
        node is If || node is Switch || node is Join ==> node.emits(EdgePort::Completed)
            && node.emits(EdgePort::Failure) && !node.emits(EdgePort::Success) && !node.emits(
            EdgePort::Always,
        ) && !node.emits(EdgePort::Empty),
        !node.emits(EdgePort::Input),
{
}

// ---------------------------------------------------------------------------
// Structure
// ---------------------------------------------------------------------------
proof fn lemma_no_edge_faults(graph: GraphView, path: Seq<char>, i: nat)
    requires
        well_structured(graph),
    ensures
        edge_faults(graph, path, i).len() == 0,
    decreases graph.edges.len() - i,
{
    if i < graph.edges.len() {
        let edge = graph.edges[i as int];
        lemma_no_edge_faults(graph, path, i + 1);
    }
}

proof fn lemma_no_entry_faults(graph: GraphView, path: Seq<char>, i: nat)
    requires
        well_structured(graph),
    ensures
        entry_faults(graph, layout(graph), path, i).len() == 0,
    decreases graph.entries.len() - i,
{
    if i < graph.entries.len() {
        let entry = graph.entries[i as int];
        lemma_no_entry_faults(graph, path, i + 1);
    }
}

proof fn lemma_no_exit_faults(graph: GraphView, path: Seq<char>, i: nat)
    requires
        well_structured(graph),
    ensures
        exit_list_faults(graph, path, i).len() == 0,
    decreases graph.exits.len() - i,
{
    if i < graph.exits.len() {
        let exit = graph.exits[i as int];
        lemma_no_exit_faults(graph, path, i + 1);
    }
}

proof fn lemma_no_join_faults(graph: GraphView, path: Seq<char>, i: nat)
    requires
        well_structured(graph),
    ensures
        join_faults(graph.nodes, layout(graph), path, i).len() == 0,
    decreases graph.nodes.len() - i,
{
    if i < graph.nodes.len() {
        let node = graph.nodes[i as int];
        lemma_no_join_faults(graph, path, i + 1);
    }
}

proof fn lemma_no_unreachable_faults(graph: GraphView, path: Seq<char>, k: nat)
    requires
        well_structured(graph),
    ensures
        unreachable_faults(layout(graph), path, k).len() == 0,
    decreases layout(graph).ids.len() - k,
{
    let g = layout(graph);
    if k < g.ids.len() {
        assert(reachable(g.links, g.starts, k as int));
        lemma_no_unreachable_faults(graph, path, k + 1);
    }
}

proof fn lemma_no_cycle(graph: GraphView, k: nat)
    requires
        well_structured(graph),
    ensures
        cycle_names(layout(graph), k).len() == 0,
    decreases layout(graph).ids.len() - k,
{
    let g = layout(graph);
    if k < g.ids.len() {
        assert(!ends_walk(g.links, g.ids.len(), k as int));
        lemma_no_cycle(graph, k + 1);
    }
}

proof fn lemma_no_terminal_faults(graph: GraphView, path: Seq<char>, k: nat)
    requires
        well_structured(graph),
        graph.exits.len() > 0,
    ensures
        terminal_faults(graph, layout(graph), path, k).len() == 0,
    decreases layout(graph).ids.len() - k,
{
    let g = layout(graph);
    if k < g.ids.len() {
        let id = g.ids[k as int];
        lemma_no_terminal_faults(graph, path, k + 1);
    }
}

/// A graph that is well structured, with a name that is not blank if it has one, has no fault
/// of structure.
pub proof fn law_well_structured_is_accepted(graph: GraphView, path: Seq<char>)
    requires
        well_structured(graph),
        graph.id matches Some(id) ==> !text::blank(id),
    ensures
        structure_faults(graph, path).len() == 0,
{
    lemma_no_edge_faults(graph, path, 0);
    lemma_no_entry_faults(graph, path, 0);
    lemma_no_exit_faults(graph, path, 0);
    lemma_no_join_faults(graph, path, 0);
    lemma_no_unreachable_faults(graph, path, 0);
    lemma_no_cycle(graph, 0);
    if graph.exits.len() > 0 {
        lemma_no_terminal_faults(graph, path, 0);
    }
}

// ---------------------------------------------------------------------------
// Graphs of plain actions
// ---------------------------------------------------------------------------
/// An edge from an action to one that is listed after it, through a port by which an action is
/// left.
pub open spec fn forward_edge(graph: GraphView, edge: EdgeView) -> bool {
    &&& edge.to.port == EdgePort::Input
    &&& edge.from.port == EdgePort::Success || edge.from.port == EdgePort::Failure
        || edge.from.port == EdgePort::Always
    &&& exists|i: int, j: int|
        0 <= i < j < graph.nodes.len() && (#[trigger] graph.nodes[i]).id() == edge.from.node && (
        #[trigger] graph.nodes[j]).id() == edge.to.node
}

/// Whether an edge leads to a node.
pub open spec fn led_to(graph: GraphView, id: Seq<char>) -> bool {
    exists|e: int| 0 <= e < graph.edges.len() && (#[trigger] graph.edges[e]).to.node == id
}

/// A plain action: executable under its policies, with no bindings and no conditions, and with
/// a name that a node can have.
pub open spec fn plain_action(node: NodeView) -> bool {
    &&& node matches NodeView::Action(action)
    &&& action.step.action.kind().graph_action()
    &&& action.step.policy_accepted()
    &&& action.step.bindings.len() == 0
    &&& action.bindings.len() == 0
    &&& action.step.when is None
    &&& action.step.require is None
    &&& proper_id(action.step.id)
}

/// A graph of plain actions with names of their own, listed so that every edge leads forward:
/// its entries are the nodes that no edge leads to, each once, and no edge is there twice.
pub open spec fn forward_graph(graph: GraphView) -> bool {
    &&& graph.version == WORKFLOW_GRAPH_VERSION
    &&& graph.id matches Some(id) ==> !text::blank(id)
    &&& graph.nodes.len() > 0
    &&& graph.exits.len() == 0
    &&& forall|i: int| 0 <= i < graph.nodes.len() ==> plain_action(#[trigger] graph.nodes[i])
    &&& forall|i: int, j: int|
        0 <= i < j < graph.nodes.len() ==> (#[trigger] graph.nodes[i]).id() != (
        #[trigger] graph.nodes[j]).id()
    &&& forall|e: int| 0 <= e < graph.edges.len() ==> forward_edge(graph, #[trigger] graph.edges[e])
    &&& graph.edges.no_duplicates()
    &&& graph.entries.no_duplicates()
    &&& forall|id: Seq<char>| #[trigger]
        graph.entries.contains(id) <==> !led_to(graph, id) && exists|i: int|
            0 <= i < graph.nodes.len() && (#[trigger] graph.nodes[i]).id() == id
}

proof fn lemma_named(nodes: Seq<NodeView>, k: int, i: nat)
    requires
        i <= k < nodes.len(),
        !text::blank(nodes[k].id()),
        forall|a: int, b: int|
            0 <= a < b < nodes.len() ==> (#[trigger] nodes[a]).id() != (#[trigger] nodes[b]).id(),
    ensures
        node_named(nodes, nodes[k].id(), i) == Some(nodes[k]),
    decreases k - i,
{
    if i < k {
        lemma_named(nodes, k, i + 1);
    }
}

proof fn lemma_put_len(list: Seq<Seq<char>>, name: Seq<char>)
    requires
        !list.contains(name),
    ensures
        put(list, name).len() == list.len() + 1,
    decreases list.len(),
{
    if list.len() > 0 {
        assert(list[0] != name);
        let rest = list.skip(1);
        if rest.contains(name) {
            let k = choose|k: int| 0 <= k < rest.len() && rest[k] == name;
            assert(list[k + 1] == name);
        }
        lemma_put_len(rest, name);
    }
}

proof fn lemma_local_ids(nodes: Seq<NodeView>, i: nat, done: Seq<Seq<char>>)
    requires
        i <= nodes.len(),
        names::ascending(done),
        forall|a: int| 0 <= a < nodes.len() ==> !text::blank((#[trigger] nodes[a]).id()),
        forall|a: int, b: int|
            0 <= a < b < nodes.len() ==> (#[trigger] nodes[a]).id() != (#[trigger] nodes[b]).id(),
        forall|a: int| i <= a < nodes.len() ==> !done.contains((#[trigger] nodes[a]).id()),
    ensures
        names::ascending(local_ids(nodes, i, done)),
        local_ids(nodes, i, done).len() == done.len() + nodes.len() - i,
        forall|x: Seq<char>| #[trigger]
            local_ids(nodes, i, done).contains(x) <==> done.contains(x) || exists|a: int|
                i <= a < nodes.len() && (#[trigger] nodes[a]).id() == x,
    decreases nodes.len() - i,
{
    if i < nodes.len() {
        let id = nodes[i as int].id();
        law_put(done, id);
        lemma_put_len(done, id);
        let more = put(done, id);
        assert forall|a: int| i + 1 <= a < nodes.len() implies !more.contains(
            (#[trigger] nodes[a]).id(),
        ) by {
            assert(nodes[i as int].id() != nodes[a].id());
        }
        lemma_local_ids(nodes, i + 1, more);
        assert forall|x: Seq<char>| #[trigger]
            local_ids(nodes, i, done).contains(x) <==> done.contains(x) || exists|a: int|
                i <= a < nodes.len() && (#[trigger] nodes[a]).id() == x by {
            assert(local_ids(nodes, i + 1, more).contains(x) <==> more.contains(x) || exists|
                a: int,
            | i + 1 <= a < nodes.len() && (#[trigger] nodes[a]).id() == x);
            assert(more.contains(x) <==> x == id || done.contains(x));
        }
    }
}

proof fn lemma_place_found(ids: Seq<Seq<char>>, id: Seq<char>)
    requires
        ids.contains(id),
    ensures
        0 <= place_of(ids, id) < ids.len(),
        ids[place_of(ids, id)] == id,
    decreases ids.len(),
{
    if ids[0] != id {
        let rest = ids.skip(1);
        let k = choose|k: int| 0 <= k < ids.len() && ids[k] == id;
        assert(rest[k - 1] == id);
        lemma_place_found(rest, id);
    }
}

proof fn lemma_links(ids: Seq<Seq<char>>, edges: Seq<EdgeView>, i: nat)
    requires
        i <= edges.len(),
        forall|e: int|
            0 <= e < edges.len() ==> ids.contains((#[trigger] edges[e]).from.node) && ids.contains(
                edges[e].to.node,
            ),
    ensures
        forall|link: (int, int)| #[trigger]
            links_of(ids, edges, i).contains(link) <==> exists|e: int|
                i <= e < edges.len() && link == (
                    place_of(ids, (#[trigger] edges[e]).from.node),
                    place_of(ids, edges[e].to.node),
                ),
    decreases edges.len() - i,
{
    if i < edges.len() {
        lemma_links(ids, edges, i + 1);
        let edge = edges[i as int];
        assert(ids.contains(edge.from.node));
        let own = (place_of(ids, edge.from.node), place_of(ids, edge.to.node));
        let rest = links_of(ids, edges, i + 1);
        let all = links_of(ids, edges, i);
        assert(all == seq![own] + rest);
        assert forall|link: (int, int)| #[trigger] all.contains(link) <==> exists|e: int|
            i <= e < edges.len() && link == (
                place_of(ids, (#[trigger] edges[e]).from.node),
                place_of(ids, edges[e].to.node),
            ) by {
            if all.contains(link) {
                let k = choose|k: int| 0 <= k < all.len() && all[k] == link;
                if k == 0 {
                    assert(link == own);
                    assert(edges[i as int] == edge);
                } else {
                    assert(rest[k - 1] == link);
                    assert(rest.contains(link));
                }
            }
            if exists|e: int|
                i <= e < edges.len() && link == (
                    place_of(ids, (#[trigger] edges[e]).from.node),
                    place_of(ids, edges[e].to.node),
                ) {
                let e = choose|e: int|
                    i <= e < edges.len() && link == (
                        place_of(ids, (#[trigger] edges[e]).from.node),
                        place_of(ids, edges[e].to.node),
                    );
                if e == i {
                    assert(all[0] == link);
                } else {
                    assert(rest.contains(link));
                    let k = choose|k: int| 0 <= k < rest.len() && rest[k] == link;
                    assert(all[k + 1] == link);
                }
            }
        }
    }
}

proof fn lemma_starts(ids: Seq<Seq<char>>, entries: Seq<Seq<char>>, i: nat, k: int)
    requires
        i <= k < entries.len(),
        ids.contains(entries[k]),
    ensures
        starts_of(ids, entries, i).contains(place_of(ids, entries[k])),
    decreases k - i,
{
    let all = starts_of(ids, entries, i);
    if i == k {
        assert(all[0] == place_of(ids, entries[k]));
    } else {
        lemma_starts(ids, entries, i + 1, k);
        let rest = starts_of(ids, entries, i + 1);
        let m = choose|m: int| 0 <= m < rest.len() && rest[m] == place_of(ids, entries[k]);
        if ids.contains(entries[i as int]) {
            assert(all[m + 1] == rest[m]);
        } else {
            assert(all[m] == rest[m]);
        }
    }
}

/// The layout of a forward graph: its names are those of its nodes, and its links are its
/// edges.
proof fn lemma_forward_layout(graph: GraphView)
    requires
        forward_graph(graph),
    ensures
        ({
            let g = layout(graph);
            &&& g.ids.len() == graph.nodes.len()
            &&& forall|x: Seq<char>| #[trigger]
                g.ids.contains(x) <==> exists|a: int|
                    0 <= a < graph.nodes.len() && (#[trigger] graph.nodes[a]).id() == x
            &&& forall|link: (int, int)| #[trigger]
                g.links.contains(link) <==> exists|e: int|
                    0 <= e < graph.edges.len() && link == (
                        place_of(g.ids, (#[trigger] graph.edges[e]).from.node),
                        place_of(g.ids, graph.edges[e].to.node),
                    )
            &&& forall|e: int|
                0 <= e < graph.edges.len() ==> g.ids.contains((#[trigger] graph.edges[e]).from.node)
                    && g.ids.contains(graph.edges[e].to.node)
        }),
{
    let none = Seq::<Seq<char>>::empty();
    assert forall|a: int| 0 <= a < graph.nodes.len() implies !text::blank(
        (#[trigger] graph.nodes[a]).id(),
    ) by {
        assert(plain_action(graph.nodes[a]));
    }
    lemma_local_ids(graph.nodes, 0, none);
    let g = layout(graph);
    assert forall|x: Seq<char>| #[trigger] g.ids.contains(x) <==> exists|a: int|
        0 <= a < graph.nodes.len() && (#[trigger] graph.nodes[a]).id() == x by {
        assert(local_ids(graph.nodes, 0, none).contains(x) <==> none.contains(x) || exists|a: int|
            0 <= a < graph.nodes.len() && (#[trigger] graph.nodes[a]).id() == x);
    }
    assert forall|e: int| 0 <= e < graph.edges.len() implies g.ids.contains(
        (#[trigger] graph.edges[e]).from.node,
    ) && g.ids.contains(graph.edges[e].to.node) by {
        assert(forward_edge(graph, graph.edges[e]));
    }
    lemma_links(g.ids, graph.edges, 0);
}

/// A walk that ends at a node of a forward graph is no longer than the nodes before it.
proof fn lemma_forward_walk(graph: GraphView, length: nat, j: int)
    requires
        forward_graph(graph),
        0 <= j < graph.nodes.len(),
        ends_walk(layout(graph).links, length, place_of(layout(graph).ids, graph.nodes[j].id())),
    ensures
        length <= j,
    decreases length,
{
    let g = layout(graph);
    let at = place_of(g.ids, graph.nodes[j].id());
    if length > 0 {
        lemma_forward_layout(graph);
        let before = choose|before: int|
            #![trigger g.links.contains((before, at))]
            g.links.contains((before, at)) && ends_walk(g.links, (length - 1) as nat, before);
        let link = (before, at);
        assert(g.links.contains(link));
        let e = choose|e: int|
            0 <= e < graph.edges.len() && link == (
                place_of(g.ids, (#[trigger] graph.edges[e]).from.node),
                place_of(g.ids, graph.edges[e].to.node),
            );
        let edge = graph.edges[e];
        assert(forward_edge(graph, edge));
        let (a, b) = choose|a: int, b: int|
            0 <= a < b < graph.nodes.len() && (#[trigger] graph.nodes[a]).id() == edge.from.node && (
            #[trigger] graph.nodes[b]).id() == edge.to.node;
        lemma_place_found(g.ids, edge.to.node);
        assert(g.ids.contains(graph.nodes[j].id()));
        lemma_place_found(g.ids, graph.nodes[j].id());
        assert(graph.nodes[b].id() == graph.nodes[j].id());
        assert(b == j);
        lemma_forward_walk(graph, (length - 1) as nat, a);
    }
}

/// Every node of a forward graph can be reached.
proof fn lemma_forward_reach(graph: GraphView, j: int)
    requires
        forward_graph(graph),
        0 <= j < graph.nodes.len(),
    ensures
        reachable(
            layout(graph).links,
            layout(graph).starts,
            place_of(layout(graph).ids, graph.nodes[j].id()),
        ),
    decreases j,
{
    let g = layout(graph);
    lemma_forward_layout(graph);
    let id = graph.nodes[j].id();
    let to = place_of(g.ids, id);
    assert(g.ids.contains(id));
    if led_to(graph, id) {
        let e = choose|e: int|
            0 <= e < graph.edges.len() && (#[trigger] graph.edges[e]).to.node == id;
        let edge = graph.edges[e];
        assert(forward_edge(graph, edge));
        let (a, b) = choose|a: int, b: int|
            0 <= a < b < graph.nodes.len() && (#[trigger] graph.nodes[a]).id() == edge.from.node && (
            #[trigger] graph.nodes[b]).id() == edge.to.node;
        assert(b == j);
        lemma_forward_reach(graph, a);
        let from = place_of(g.ids, edge.from.node);
        let p = choose|p: Seq<int>| leads(g.links, g.starts, p, from);
        let q = p.push(to);
        let link = (from, to);
        assert(g.links.contains(link));
        assert forall|k: int| 0 <= k < q.len() - 1 implies #[trigger] step(g.links, q, k) by {
            if k < p.len() - 1 {
                assert(step(g.links, p, k));
            }
        }
        assert(leads(g.links, g.starts, q, to));
    } else {
        assert(graph.entries.contains(id));
        let k = choose|k: int| 0 <= k < graph.entries.len() && graph.entries[k] == id;
        lemma_starts(g.ids, graph.entries, 0, k);
        let p = seq![to];
        assert(leads(g.links, g.starts, p, to));
    }
}

proof fn lemma_forward_is_well_structured(graph: GraphView)
    requires
        forward_graph(graph),
    ensures
        well_structured(graph),
{
    let g = layout(graph);
    lemma_forward_layout(graph);
    assert forall|i: int| 0 <= i < graph.edges.len() implies sound_edge(
        graph,
        #[trigger] graph.edges[i],
    ) && !seen_before(graph.edges, i as nat) by {
        let edge = graph.edges[i];
        assert(forward_edge(graph, edge));
        let (a, b) = choose|a: int, b: int|
            0 <= a < b < graph.nodes.len() && (#[trigger] graph.nodes[a]).id() == edge.from.node && (
            #[trigger] graph.nodes[b]).id() == edge.to.node;
        assert(plain_action(graph.nodes[a]) && plain_action(graph.nodes[b]));
        lemma_named(graph.nodes, a, 0);
        lemma_named(graph.nodes, b, 0);
        law_ports(graph.nodes[a]);
    }
    assert forall|i: int| 0 <= i < graph.entries.len() implies sound_entry(
        graph,
        #[trigger] graph.entries[i],
    ) && !seen_before(graph.entries, i as nat) by {
        let entry = graph.entries[i];
        assert(graph.entries.contains(entry));
        assert(g.ids.contains(entry));
        let at = place_of(g.ids, entry);
        if entered(g.links, at) {
            let l = choose|l: int| 0 <= l < g.links.len() && (#[trigger] g.links[l]).1 == at;
            let link = g.links[l];
            assert(g.links.contains(link));
            let e = choose|e: int|
                0 <= e < graph.edges.len() && link == (
                    place_of(g.ids, (#[trigger] graph.edges[e]).from.node),
                    place_of(g.ids, graph.edges[e].to.node),
                );
            lemma_place_found(g.ids, entry);
            lemma_place_found(g.ids, graph.edges[e].to.node);
            assert(graph.edges[e].to.node == entry);
            assert(led_to(graph, entry));
        }
    }
    assert forall|i: int| 0 <= i < graph.nodes.len() implies sound_join(
        graph,
        #[trigger] graph.nodes[i],
    ) by {
        assert(plain_action(graph.nodes[i]));
    }
    assert forall|k: int| 0 <= k < g.ids.len() implies #[trigger] reachable(
        g.links,
        g.starts,
        k,
    ) && !ends_walk(g.links, g.ids.len(), k) by {
        lemma_forward_place(graph, k);
    }
    assert forall|k: int| 0 <= k < g.ids.len() implies !#[trigger] ends_walk(
        g.links,
        g.ids.len(),
        k,
    ) by {
        lemma_forward_place(graph, k);
    }
    // The first node has no edge that leads to it, and so there is an entry.
    let first = graph.nodes[0].id();
    if led_to(graph, first) {
        let e = choose|e: int|
            0 <= e < graph.edges.len() && (#[trigger] graph.edges[e]).to.node == first;
        assert(forward_edge(graph, graph.edges[e]));
    }
    assert(graph.entries.contains(first));
}

proof fn lemma_forward_place(graph: GraphView, k: int)
    requires
        forward_graph(graph),
        0 <= k < layout(graph).ids.len(),
    ensures
        reachable(layout(graph).links, layout(graph).starts, k),
        !ends_walk(layout(graph).links, layout(graph).ids.len(), k),
{
    let g = layout(graph);
    lemma_forward_layout(graph);
    let id = g.ids[k];
    assert(g.ids.contains(id));
    let j = choose|j: int| 0 <= j < graph.nodes.len() && (#[trigger] graph.nodes[j]).id() == id;
    lemma_forward_ids_ascend(graph);
    assert forall|m: int| 0 <= m < k implies #[trigger] g.ids[m] != id by {
        text_map::lemma_before_excludes(g.ids[m], g.ids[k]);
    }
    lemma_place(g.ids, id, k);
    lemma_forward_reach(graph, j);
    if ends_walk(g.links, g.ids.len(), k) {
        lemma_forward_walk(graph, g.ids.len(), j);
    }
}

proof fn lemma_forward_ids_ascend(graph: GraphView)
    requires
        forward_graph(graph),
    ensures
        names::ascending(layout(graph).ids),
{
    assert forall|a: int| 0 <= a < graph.nodes.len() implies !text::blank(
        (#[trigger] graph.nodes[a]).id(),
    ) by {
        assert(plain_action(graph.nodes[a]));
    }
    lemma_local_ids(graph.nodes, 0, Seq::empty());
}

proof fn lemma_plain_nodes(
    env: EnvView,
    nodes: Seq<NodeView>,
    g: Layout,
    path: Seq<char>,
    inherited: Seq<Seq<char>>,
    loops: Seq<(Seq<char>, StaticView)>,
    aliases: Seq<(Seq<char>, FieldRefView)>,
    i: nat,
)
    requires
        forall|k: int| 0 <= k < nodes.len() ==> plain_action(#[trigger] nodes[k]),
    ensures
        nodes_faults(env, nodes, g, path, inherited, loops, aliases, i).len() == 0,
    decreases nodes.len() - i,
{
    if i < nodes.len() {
        let id = nodes[i as int].id();
        let s = ScopeOf {
            env,
            consumer: id,
            path: named_place(path, id),
            visible: visible_at(g, id, inherited),
            loops,
            aliases,
        };
        assert(plain_action(nodes[i as int]));
        match nodes[i as int] {
            NodeView::Action(action) => {
                assert(action_binding_faults(s, action, 0).len() == 0);
                assert(action_faults(s, action).len() == 0);
            },
            _ => {},
        }
        assert(node_faults(s, nodes[i as int]).len() == 0);
        lemma_plain_nodes(env, nodes, g, path, inherited, loops, aliases, i + 1);
    }
}

proof fn lemma_plain_ids(env: EnvView, nodes: Seq<NodeView>, path: Seq<char>, i: nat)
    requires
        i <= nodes.len(),
        forall|k: int| 0 <= k < nodes.len() ==> plain_action(#[trigger] nodes[k]),
        forall|a: int, b: int|
            0 <= a < b < nodes.len() ==> (#[trigger] nodes[a]).id() != (#[trigger] nodes[b]).id(),
        forall|m: int|
            0 <= m < env.ids.len() ==> exists|k: int|
                0 <= k < i && (#[trigger] nodes[k]).id() == (#[trigger] env.ids[m]).0,
    ensures
        collected_nodes(env, nodes, path, i).1.len() == 0,
    decreases nodes.len() - i,
{
    if i < nodes.len() {
        let node = nodes[i as int];
        let place = node_place(path, i);
        assert(plain_action(node));
        text_map::lemma_found(env.ids, node.id());
        let at = text_map::index_of(env.ids, node.id());
        if at < env.ids.len() {
            assert(env.ids[at as int].0 == node.id());
        }
        assert(id_faults(env, node.id(), place).len() == 0);
        let (next, here) = collected_node(env, node, place);
        assert(here.len() == 0);
        assert forall|m: int| 0 <= m < next.ids.len() implies exists|k: int|
            0 <= k < i + 1 && (#[trigger] nodes[k]).id() == (#[trigger] next.ids[m]).0 by {
            if m < env.ids.len() {
                assert(next.ids[m] == env.ids[m]);
                let k = choose|k: int|
                    0 <= k < i && (#[trigger] nodes[k]).id() == env.ids[m].0;
                assert(nodes[k].id() == next.ids[m].0);
            } else {
                assert(nodes[i as int].id() == next.ids[m].0);
            }
        }
        lemma_plain_ids(next, nodes, path, i + 1);
    }
}

/// A graph of plain actions whose edges lead forward, through success, failure or always, is
/// accepted, if it is within the limits on size: validation refuses nothing else.
pub proof fn law_forward_graph_is_accepted(graph: GraphView)
    requires
        forward_graph(graph),
        look(graph).ok,
    ensures
        all_faults(graph).len() == 0,
{
    law_refusal_is_reported(graph);
    let path = "graph"@;
    lemma_forward_is_well_structured(graph);
    law_well_structured_is_accepted(graph, path);
    let (env, ids) = collected(no_env(), graph, path);
    lemma_plain_ids(no_env(), graph.nodes, path, 0);
    lemma_plain_nodes(
        env,
        graph.nodes,
        layout(graph),
        path,
        Seq::empty(),
        Seq::empty(),
        Seq::empty(),
        0,
    );
}

// ---------------------------------------------------------------------------
// Plain steps
// ---------------------------------------------------------------------------
/// The graph that steps make in a row: one action for each, from the first on, each leading to
/// the next by its success.
pub open spec fn row(steps: Seq<StepView>) -> GraphView {
    GraphView {
        version: WORKFLOW_GRAPH_VERSION,
        id: None,
        entries: seq![steps[0].id],
        exits: Seq::empty(),
        nodes: steps.map_values(|step: StepView| step_node(step)),
        edges: Seq::new(
            (steps.len() - 1) as nat,
            |i: int|
                EdgeView {
                    from: EndpointView { node: steps[i].id, port: EdgePort::Success },
                    to: EndpointView { node: steps[i + 1].id, port: EdgePort::Input },
                },
        ),
    }
}

/// Steps in a row that have names of their own, no bindings, no conditions and no loops, and are
/// under policies that their blocks offer.
pub open spec fn plain_steps(steps: Seq<StepView>) -> bool {
    &&& steps.len() > 0
    &&& forall|i: int|
        0 <= i < steps.len() ==> {
            let step = #[trigger] steps[i];
            &&& step.action.kind().graph_action()
            &&& step.policy_accepted()
            &&& step.bindings.len() == 0
            &&& step.when is None
            &&& step.require is None
            &&& proper_id(step.id)
        }
    &&& forall|i: int, j: int|
        0 <= i < j < steps.len() ==> (#[trigger] steps[i]).id != (#[trigger] steps[j]).id
}

proof fn lemma_row_is_forward(steps: Seq<StepView>)
    requires
        plain_steps(steps),
    ensures
        forward_graph(row(steps)),
{
    let graph = row(steps);
    assert forall|i: int| 0 <= i < graph.nodes.len() implies plain_action(
        #[trigger] graph.nodes[i],
    ) && graph.nodes[i].id() == steps[i].id by {
        assert(graph.nodes[i] == step_node(steps[i]));
    }
    assert forall|i: int, j: int| 0 <= i < j < graph.nodes.len() implies (
    #[trigger] graph.nodes[i]).id() != (#[trigger] graph.nodes[j]).id() by {
        assert(steps[i].id != steps[j].id);
    }
    assert forall|e: int| 0 <= e < graph.edges.len() implies forward_edge(
        graph,
        #[trigger] graph.edges[e],
    ) by {
        assert(graph.nodes[e].id() == graph.edges[e].from.node);
        assert(graph.nodes[e + 1].id() == graph.edges[e].to.node);
    }
    assert forall|a: int, b: int| 0 <= a < b < graph.edges.len() implies graph.edges[a]
        != graph.edges[b] by {
        assert(steps[a].id != steps[b].id);
    }
    assert(graph.entries.no_duplicates());
    assert forall|id: Seq<char>| #[trigger] graph.entries.contains(id) <==> !led_to(graph, id)
        && exists|i: int| 0 <= i < graph.nodes.len() && (#[trigger] graph.nodes[i]).id() == id by {
        assert(graph.entries[0] == steps[0].id);
        assert(graph.nodes[0].id() == steps[0].id);
        if led_to(graph, steps[0].id) {
            let e = choose|e: int|
                0 <= e < graph.edges.len() && (#[trigger] graph.edges[e]).to.node == steps[0].id;
            assert(steps[0].id != steps[e + 1].id);
        }
        if !led_to(graph, id) && exists|i: int|
            0 <= i < graph.nodes.len() && (#[trigger] graph.nodes[i]).id() == id {
            let i = choose|i: int|
                0 <= i < graph.nodes.len() && (#[trigger] graph.nodes[i]).id() == id;
            if i > 0 {
                assert(graph.edges[i - 1].to.node == steps[i].id);
            }
        }
    }
}

/// Plain steps are imported as the graph that they make in a row, if that is within the limits
/// on size.
pub proof fn law_plain_steps_are_imported(steps: Seq<StepView>)
    requires
        plain_steps(steps),
        look(row(steps)).ok,
    ensures
        imported(steps) == Ok::<GraphView, LinearFault>(row(steps)),
{
    let nodes = steps.map_values(|step: StepView| step_node(step));
    let ends = steps.map_values(|step: StepView| (step.id, EdgePort::Success));
    assert(without_loops(steps)) by {
        assert forall|i: int| 0 <= i < steps.len() implies !((#[trigger] steps[i]).action is ForEach)
            && !(steps[i].action is ForEachGitCloneIfMissing) by {
            assert(steps[i].action.kind().graph_action());
        }
    }
    assert(Seq::<NodeView>::empty() =~= steps.take(0).map_values(|step: StepView| step_node(step)));
    assert(Seq::<(Seq<char>, EdgePort)>::empty() =~= steps.take(0).map_values(
        |step: StepView| (step.id, EdgePort::Success),
    ));
    lemma_converted_in_order(steps, 0, Seq::empty(), Seq::empty());
    lemma_chained(ends, 0);
    lemma_no_invalid_step(steps, 0);
    let graph = chain_graph(nodes, ends);
    assert(graph.edges =~= row(steps).edges);
    assert(graph.entries =~= row(steps).entries);
    assert(graph == row(steps));
    lemma_row_is_forward(steps);
    law_forward_graph_is_accepted(graph);
}

proof fn lemma_no_invalid_step(steps: Seq<StepView>, i: nat)
    requires
        forall|k: int| 0 <= k < steps.len() ==> (#[trigger] steps[k]).policy_accepted(),
    ensures
        invalid_step(steps, i) is None,
    decreases steps.len() - i,
{
    if i < steps.len() {
        lemma_no_invalid_step(steps, i + 1);
    }
}

/// A task of plain steps, alone in a pack, resolves to the graph that they make in a row.
pub proof fn law_plain_task_resolves(p: PackView, id: Seq<char>, index: int, trust: PackTrust)
    requires
        0 <= index < p.tasks.len(),
        p.tasks[index].id == id,
        forall|i: int| 0 <= i < index ==> (#[trigger] p.tasks[i]).id != id,
        text_map::lookup(p.origins, id) == Some(trust),
        text_map::lookup(p.legacy, id) is None,
        p.tasks[index].scenarios.len() == 0,
        p.tasks[index].graph is None,
        p.tasks[index].fault() is None,
        plain_steps(p.tasks[index].steps),
        look(row(p.tasks[index].steps)).ok,
    ensures
        resolved_task(p, id) matches Ok(task) && task.graph == Some(row(p.tasks[index].steps))
            && task.steps.len() == 0 && task.id == id && task.name == p.tasks[index].name,
{
    let steps = p.tasks[index].steps;
    lemma_first_task_is(p.tasks, id, index, 0);
    law_plain_steps_are_imported(steps);
    lemma_no_repeated_step(steps, 0);
    let way = Seq::<int>::empty();
    assert(!way.contains(index));
    assert(expanded_children(p, index, way.push(index), seq![id], 0, steps) == Ok::<
        (Seq<StepView>, Seq<Seq<char>>),
        LoadFault,
    >((steps, seq![id])));
}

proof fn lemma_no_repeated_step(steps: Seq<StepView>, i: nat)
    requires
        forall|a: int, b: int|
            0 <= a < b < steps.len() ==> (#[trigger] steps[a]).id != (#[trigger] steps[b]).id,
    ensures
        repeated_step(steps, i) is None,
    decreases steps.len() - i,
{
    if i < steps.len() {
        lemma_no_repeated_step(steps, i + 1);
    }
}

} // verus!
