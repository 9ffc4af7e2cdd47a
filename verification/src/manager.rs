//! The topology cache: the authoritative in-memory graph of nodes, ports and
//! links, built incrementally from an event stream that gives no ordering
//! guarantee between related announcements.
//!
//! A port announced before its owning node is held in an orphan buffer and
//! attached the instant the node appears; removals of unknown ids are
//! no-ops. Every operation is total: the cache never fails.
//!
//! Each operation's effect is defined by a spec-level transition function
//! (`spec_add_node`, `spec_remove_port`, ...) over [`GraphStateV`], and the
//! executable methods are proved to implement those transitions exactly.

use vstd::prelude::*;

use crate::models::{AudioGraph, Link, Node, NodeV, Port, PortV};
use crate::seqs::{
    first_index_where, lemma_filter_all, lemma_filter_none, lemma_filter_push,
    lemma_first_index_where,
};

verus! {

/// The mathematical state of the cache: the graph plus the orphan buffer.
#[verifier::ext_equal]
pub ghost struct GraphStateV {
    pub nodes: Seq<NodeV>,
    pub links: Seq<Link>,
    pub orphans: Seq<PortV>,
}

/// The state of a cache holding nothing.
pub open spec fn empty_graph_state() -> GraphStateV {
    GraphStateV { nodes: Seq::empty(), links: Seq::empty(), orphans: Seq::empty() }
}

/// Some node in `nodes` has id `id`.
pub open spec fn has_node(nodes: Seq<NodeV>, id: u32) -> bool {
    exists|i: int| 0 <= i < nodes.len() && nodes[i].id == id
}

/// Some port in `ports` has id `id`.
pub open spec fn has_port(ports: Seq<PortV>, id: u32) -> bool {
    exists|i: int| 0 <= i < ports.len() && ports[i].id == id
}

/// Keeps the nodes whose id differs from `id`.
pub open spec fn node_id_ne(id: u32) -> spec_fn(NodeV) -> bool {
    |n: NodeV| n.id != id
}

/// Selects the nodes whose id equals `id`.
pub open spec fn node_id_eq(id: u32) -> spec_fn(NodeV) -> bool {
    |n: NodeV| n.id == id
}

/// Keeps the ports whose id differs from `id`.
pub open spec fn port_id_ne(id: u32) -> spec_fn(PortV) -> bool {
    |p: PortV| p.id != id
}

/// Selects the orphan ports waiting for node `id`.
pub open spec fn orphan_for(id: u32) -> spec_fn(PortV) -> bool {
    |p: PortV| p.node_id == id
}

/// Keeps the orphan ports waiting for some other node than `id`.
pub open spec fn orphan_not_for(id: u32) -> spec_fn(PortV) -> bool {
    |p: PortV| p.node_id != id
}

/// Keeps the links whose id differs from `id`.
pub open spec fn link_id_ne(id: u32) -> spec_fn(Link) -> bool {
    |l: Link| l.id != id
}

/// Keeps the links that touch node `id` on neither side.
pub open spec fn link_avoids_node(id: u32) -> spec_fn(Link) -> bool {
    |l: Link| l.output_node != id && l.input_node != id
}

/// Keeps the links that touch port `id` on neither side.
pub open spec fn link_avoids_port(id: u32) -> spec_fn(Link) -> bool {
    |l: Link| l.output_port != id && l.input_port != id
}

/// Appends the pending ports to `ports` in order, skipping any whose id is
/// already present among the ports accumulated so far.
pub open spec fn attach_ports(ports: Seq<PortV>, pending: Seq<PortV>) -> Seq<PortV>
    decreases pending.len(),
{
    if pending.len() == 0 {
        ports
    } else if has_port(ports, pending[0].id) {
        attach_ports(ports, pending.drop_first())
    } else {
        attach_ports(ports.push(pending[0]), pending.drop_first())
    }
}

/// A node with every port of id `id` removed.
pub open spec fn strip_port(id: u32) -> spec_fn(NodeV) -> NodeV {
    |n: NodeV| NodeV {
        id: n.id,
        name: n.name,
        node_type: n.node_type,
        ports: n.ports.filter(port_id_ne(id)),
    }
}

/// Adding a node replaces any node of the same id (last write wins), then
/// drains the orphan buffer entry for that id, appending the buffered ports
/// — deduplicated by port id — to the node's port list.
pub open spec fn spec_add_node(g: GraphStateV, n: NodeV) -> GraphStateV {
    GraphStateV {
        nodes: g.nodes.filter(node_id_ne(n.id)).push(
            NodeV {
                id: n.id,
                name: n.name,
                node_type: n.node_type,
                ports: attach_ports(n.ports, g.orphans.filter(orphan_for(n.id))),
            },
        ),
        links: g.links,
        orphans: g.orphans.filter(orphan_not_for(n.id)),
    }
}

/// Removing a node deletes it and cascades to every link that references it
/// on either side; the orphan buffer is untouched.
pub open spec fn spec_remove_node(g: GraphStateV, id: u32) -> GraphStateV {
    GraphStateV {
        nodes: g.nodes.filter(node_id_ne(id)),
        links: g.links.filter(link_avoids_node(id)),
        orphans: g.orphans,
    }
}

/// Adding a port attaches it to the first node with the matching id,
/// replacing any port of the same id on that node; if the node is unknown,
/// the port is appended to the orphan buffer instead.
pub open spec fn spec_add_port(g: GraphStateV, p: PortV) -> GraphStateV {
    if has_node(g.nodes, p.node_id) {
        let i = first_index_where(g.nodes, node_id_eq(p.node_id));
        let n = g.nodes[i];
        GraphStateV {
            nodes: g.nodes.update(
                i,
                NodeV {
                    id: n.id,
                    name: n.name,
                    node_type: n.node_type,
                    ports: n.ports.filter(port_id_ne(p.id)).push(p),
                },
            ),
            links: g.links,
            orphans: g.orphans,
        }
    } else {
        GraphStateV { nodes: g.nodes, links: g.links, orphans: g.orphans.push(p) }
    }
}

/// Removing a port strips it from every node and from every orphan bucket,
/// and cascades to every link that references it on either side.
pub open spec fn spec_remove_port(g: GraphStateV, id: u32) -> GraphStateV {
    GraphStateV {
        nodes: g.nodes.map_values(strip_port(id)),
        links: g.links.filter(link_avoids_port(id)),
        orphans: g.orphans.filter(port_id_ne(id)),
    }
}

/// Adding a link replaces any link of the same id.
pub open spec fn spec_add_link(g: GraphStateV, l: Link) -> GraphStateV {
    GraphStateV {
        nodes: g.nodes,
        links: g.links.filter(link_id_ne(l.id)).push(l),
        orphans: g.orphans,
    }
}

/// Removing a link deletes exactly the links with that id.
pub open spec fn spec_remove_link(g: GraphStateV, id: u32) -> GraphStateV {
    GraphStateV { nodes: g.nodes, links: g.links.filter(link_id_ne(id)), orphans: g.orphans }
}

/// The authoritative in-memory topology cache. Its single writer applies
/// subsystem events; readers take the graph through [`GraphManager::get_graph`].
#[derive(Debug)]
pub struct GraphManager {
    graph: AudioGraph,
    orphan_ports: Vec<Port>,
}

impl View for GraphManager {
    type V = GraphStateV;

    closed spec fn view(&self) -> GraphStateV {
        GraphStateV {
            nodes: self.graph.nodes.deep_view(),
            links: self.graph.links@,
            orphans: self.orphan_ports.deep_view(),
        }
    }
}

/// The position of the first node with id `node_id`, if any.
fn find_node_index(nodes: &Vec<Node>, node_id: u32) -> (r: Option<usize>)
    ensures
        match r {
            Some(i) => has_node(nodes.deep_view(), node_id) && i as int == first_index_where(
                nodes.deep_view(),
                node_id_eq(node_id),
            ) && i < nodes.deep_view().len(),
            None => !has_node(nodes.deep_view(), node_id),
        },
{
    let n = nodes.len();
    for i in 0..n
        invariant
            n == nodes.len(),
            forall|j: int| 0 <= j < i as int ==> #[trigger] nodes.deep_view()[j].id != node_id,
    {
        if nodes[i].id == node_id {
            proof {
                assert(nodes.deep_view()[i as int].id == node_id);
                lemma_first_index_where(nodes.deep_view(), node_id_eq(node_id), i as int);
            }
            return Some(i);
        }
    }
    None
}

/// Whether any port of `ports` has id `id`.
fn ports_contain_id(ports: &Vec<Port>, id: u32) -> (r: bool)
    ensures
        r == has_port(ports.deep_view(), id),
{
    let n = ports.len();
    for i in 0..n
        invariant
            n == ports.len(),
            forall|j: int| 0 <= j < i as int ==> #[trigger] ports.deep_view()[j].id != id,
    {
        if ports[i].id == id {
            assert(ports.deep_view()[i as int].id == id);
            return true;
        }
    }
    false
}

/// Copies the ports of `ports` whose id differs from `id`, keeping order.
fn filter_ports_ne(ports: &Vec<Port>, id: u32) -> (r: Vec<Port>)
    ensures
        r.deep_view() == ports.deep_view().filter(port_id_ne(id)),
{
    let mut r: Vec<Port> = Vec::new();
    let ghost dv = ports.deep_view();
    let n = ports.len();
    for i in 0..n
        invariant
            n == ports.len(),
            dv == ports.deep_view(),
            r.deep_view() =~= dv.subrange(0, i as int).filter(port_id_ne(id)),
    {
        proof {
            assert(dv.subrange(0, i + 1) =~= dv.subrange(0, i as int).push(dv[i as int]));
            lemma_filter_push(dv.subrange(0, i as int), port_id_ne(id), dv[i as int]);
        }
        let ghost prev = r.deep_view();
        if ports[i].id != id {
            r.push(ports[i].dup());
            proof {
                assert(r.deep_view() =~= prev.push(dv[i as int]));
            }
        }
    }
    proof {
        assert(dv.subrange(0, n as int) =~= dv);
    }
    r
}

/// Copies the nodes of `nodes` whose id differs from `id`, keeping order.
fn filter_nodes_ne(nodes: &Vec<Node>, id: u32) -> (r: Vec<Node>)
    ensures
        r.deep_view() == nodes.deep_view().filter(node_id_ne(id)),
{
    let mut r: Vec<Node> = Vec::new();
    let ghost dv = nodes.deep_view();
    let n = nodes.len();
    for i in 0..n
        invariant
            n == nodes.len(),
            dv == nodes.deep_view(),
            r.deep_view() =~= dv.subrange(0, i as int).filter(node_id_ne(id)),
    {
        proof {
            assert(dv.subrange(0, i + 1) =~= dv.subrange(0, i as int).push(dv[i as int]));
            lemma_filter_push(dv.subrange(0, i as int), node_id_ne(id), dv[i as int]);
        }
        let ghost prev = r.deep_view();
        if nodes[i].id != id {
            r.push(nodes[i].dup());
            proof {
                assert(r.deep_view() =~= prev.push(dv[i as int]));
            }
        }
    }
    proof {
        assert(dv.subrange(0, n as int) =~= dv);
    }
    r
}

/// Copies the links satisfying the chosen predicate, keeping order.
fn filter_links_ne_id(links: &Vec<Link>, id: u32) -> (r: Vec<Link>)
    ensures
        r@ == links@.filter(link_id_ne(id)),
{
    let mut r: Vec<Link> = Vec::new();
    let ghost dv = links@;
    let n = links.len();
    for i in 0..n
        invariant
            n == links.len(),
            dv == links@,
            r@ =~= dv.subrange(0, i as int).filter(link_id_ne(id)),
    {
        proof {
            assert(dv.subrange(0, i + 1) =~= dv.subrange(0, i as int).push(dv[i as int]));
            lemma_filter_push(dv.subrange(0, i as int), link_id_ne(id), dv[i as int]);
        }
        if links[i].id != id {
            r.push(links[i]);
        }
    }
    proof {
        assert(dv.subrange(0, n as int) =~= dv);
    }
    r
}

/// Copies the links that reference node `id` on neither side, keeping order.
fn filter_links_avoid_node(links: &Vec<Link>, id: u32) -> (r: Vec<Link>)
    ensures
        r@ == links@.filter(link_avoids_node(id)),
{
    let mut r: Vec<Link> = Vec::new();
    let ghost dv = links@;
    let n = links.len();
    for i in 0..n
        invariant
            n == links.len(),
            dv == links@,
            r@ =~= dv.subrange(0, i as int).filter(link_avoids_node(id)),
    {
        proof {
            assert(dv.subrange(0, i + 1) =~= dv.subrange(0, i as int).push(dv[i as int]));
            lemma_filter_push(dv.subrange(0, i as int), link_avoids_node(id), dv[i as int]);
        }
        if links[i].output_node != id && links[i].input_node != id {
            r.push(links[i]);
        }
    }
    proof {
        assert(dv.subrange(0, n as int) =~= dv);
    }
    r
}

/// Copies the links that reference port `id` on neither side, keeping order.
fn filter_links_avoid_port(links: &Vec<Link>, id: u32) -> (r: Vec<Link>)
    ensures
        r@ == links@.filter(link_avoids_port(id)),
{
    let mut r: Vec<Link> = Vec::new();
    let ghost dv = links@;
    let n = links.len();
    for i in 0..n
        invariant
            n == links.len(),
            dv == links@,
            r@ =~= dv.subrange(0, i as int).filter(link_avoids_port(id)),
    {
        proof {
            assert(dv.subrange(0, i + 1) =~= dv.subrange(0, i as int).push(dv[i as int]));
            lemma_filter_push(dv.subrange(0, i as int), link_avoids_port(id), dv[i as int]);
        }
        if links[i].output_port != id && links[i].input_port != id {
            r.push(links[i]);
        }
    }
    proof {
        assert(dv.subrange(0, n as int) =~= dv);
    }
    r
}

impl GraphManager {
    /// An empty cache.
    pub fn new() -> (r: GraphManager)
        ensures
            r@ == empty_graph_state(),
    {
        let r = GraphManager {
            graph: AudioGraph { nodes: Vec::new(), links: Vec::new() },
            orphan_ports: Vec::new(),
        };
        proof {
            assert(r@ =~= empty_graph_state());
        }
        r
    }

    /// A read-only view of the graph: the nodes with their attached ports,
    /// and the links, exactly as accumulated so far.
    pub fn get_graph(&self) -> (r: &AudioGraph)
        ensures
            r@.nodes == self@.nodes,
            r@.links == self@.links,
    {
        &self.graph
    }

    /// Empties nodes, links and the orphan buffer.
    pub fn clear(&mut self)
        ensures
            final(self)@ == empty_graph_state(),
    {
        self.graph.nodes.clear();
        self.graph.links.clear();
        self.orphan_ports.clear();
        proof {
            assert(self@ =~= empty_graph_state());
        }
    }

    /// Inserts `node`, replacing any node of the same id, and attaches any
    /// buffered orphan ports for that id.
    pub fn add_node(&mut self, node: Node)
        ensures
            final(self)@ == spec_add_node(old(self)@, node@),
    {
        let ghost g0 = self@;
        let ghost nv = node@;
        let mut node = node;
        let id = node.id;

        // Replace: drop any existing node with the same id.
        let mut kept = filter_nodes_ne(&self.graph.nodes, id);

        // Drain the orphan buffer entry for this id.
        let (bucket, rest) = partition_orphans(&self.orphan_ports, id);
        self.orphan_ports = rest;

        // Attach the drained ports, deduplicated by port id.
        let ghost orig_ports = node.ports.deep_view();
        let ghost bucketv = bucket.deep_view();
        let m = bucket.len();
        proof {
            assert(bucketv.subrange(0, m as int) =~= bucketv);
        }
        for k in 0..m
            invariant
                m == bucket.len(),
                bucketv == bucket.deep_view(),
                attach_ports(orig_ports, bucketv) == attach_ports(
                    node.ports.deep_view(),
                    bucketv.subrange(k as int, m as int),
                ),
                node.id == nv.id,
                node.name@ == nv.name,
                node.node_type == nv.node_type,
        {
            proof {
                assert(bucketv.subrange(k as int, m as int)[0] == bucketv[k as int]);
                assert(bucketv.subrange(k as int, m as int).drop_first() =~= bucketv.subrange(
                    k + 1,
                    m as int,
                ));
            }
            let ghost prev = node.ports.deep_view();
            if !ports_contain_id(&node.ports, bucket[k].id) {
                node.ports.push(bucket[k].dup());
                proof {
                    assert(node.ports.deep_view() =~= prev.push(bucketv[k as int]));
                }
            }
        }
        proof {
            assert(bucketv.subrange(m as int, m as int) =~= Seq::<PortV>::empty());
            assert(attach_ports(node.ports.deep_view(), Seq::empty()) == node.ports.deep_view());
        }

        kept.push(node);
        self.graph.nodes = kept;
        proof {
            assert(self@ =~= spec_add_node(g0, nv));
        }
    }

    /// Deletes the node with id `id` (a no-op if unknown) and every link
    /// that references that node on either side.
    pub fn remove_node(&mut self, id: u32)
        ensures
            final(self)@ == spec_remove_node(old(self)@, id),
    {
        let ghost g0 = self@;
        let new_nodes = filter_nodes_ne(&self.graph.nodes, id);
        self.graph.nodes = new_nodes;
        let new_links = filter_links_avoid_node(&self.graph.links, id);
        self.graph.links = new_links;
        proof {
            assert(self@ =~= spec_remove_node(g0, id));
        }
    }

    /// Attaches `port` to its owning node if that node is known, replacing
    /// any port of the same id there; otherwise buffers it as an orphan.
    pub fn add_port(&mut self, port: Port)
        ensures
            final(self)@ == spec_add_port(old(self)@, port@),
    {
        let ghost g0 = self@;
        let ghost pv = port@;
        let found = find_node_index(&self.graph.nodes, port.node_id);
        match found {
            Some(i) => {
                let mut new_ports = filter_ports_ne(&self.graph.nodes[i].ports, port.id);
                let ghost prev = new_ports.deep_view();
                new_ports.push(port);
                proof {
                    assert(new_ports.deep_view() =~= prev.push(pv));
                    assert(new_ports.deep_view() == g0.nodes[i as int].ports.filter(
                        port_id_ne(pv.id),
                    ).push(pv));
                }
                let node = &mut self.graph.nodes[i];
                node.ports = new_ports;
                proof {
                    assert(self@.nodes =~~= g0.nodes.update(
                        i as int,
                        NodeV {
                            id: g0.nodes[i as int].id,
                            name: g0.nodes[i as int].name,
                            node_type: g0.nodes[i as int].node_type,
                            ports: g0.nodes[i as int].ports.filter(port_id_ne(pv.id)).push(pv),
                        },
                    ));
                    assert(self@ =~~= spec_add_port(g0, pv));
                }
            },
            None => {
                assert(!has_node(g0.nodes, pv.node_id));
                self.orphan_ports.push(port);
                proof {
                    assert(self@ =~= spec_add_port(g0, pv));
                }
            },
        }
    }

    /// Removes the port with id `id` from whichever node holds it and from
    /// the orphan buffer, and deletes every link that references it.
    pub fn remove_port(&mut self, id: u32)
        ensures
            final(self)@ == spec_remove_port(old(self)@, id),
    {
        let ghost g0 = self@;
        let n = self.graph.nodes.len();
        let mut new_nodes: Vec<Node> = Vec::new();
        for i in 0..n
            invariant
                n == self.graph.nodes.len(),
                self@ == g0,
                new_nodes.deep_view().len() == i,
                forall|j: int|
                    0 <= j < i as int ==> new_nodes.deep_view()[j] == strip_port(id)(
                        #[trigger] g0.nodes[j],
                    ),
        {
            let ghost prev = new_nodes.deep_view();
            let nd = &self.graph.nodes[i];
            let stripped = filter_ports_ne(&nd.ports, id);
            new_nodes.push(
                Node { id: nd.id, name: nd.name.clone(), node_type: nd.node_type, ports: stripped },
            );
            proof {
                assert(new_nodes.deep_view() =~= prev.push(strip_port(id)(g0.nodes[i as int])));
            }
        }
        self.graph.nodes = new_nodes;
        let new_orphans = filter_ports_ne(&self.orphan_ports, id);
        self.orphan_ports = new_orphans;
        let new_links = filter_links_avoid_port(&self.graph.links, id);
        self.graph.links = new_links;
        proof {
            assert(self@.nodes =~= g0.nodes.map_values(strip_port(id)));
            assert(self@ =~= spec_remove_port(g0, id));
        }
    }

    /// Inserts `link`, replacing any link of the same id.
    pub fn add_link(&mut self, link: Link)
        ensures
            final(self)@ == spec_add_link(old(self)@, link),
    {
        let ghost g0 = self@;
        let mut new_links = filter_links_ne_id(&self.graph.links, link.id);
        new_links.push(link);
        self.graph.links = new_links;
        proof {
            assert(self@ =~= spec_add_link(g0, link));
        }
    }

    /// Deletes the link with id `id`; a no-op if unknown.
    pub fn remove_link(&mut self, id: u32)
        ensures
            final(self)@ == spec_remove_link(old(self)@, id),
    {
        let ghost g0 = self@;
        let new_links = filter_links_ne_id(&self.graph.links, id);
        self.graph.links = new_links;
        proof {
            assert(self@ =~= spec_remove_link(g0, id));
        }
    }
}

/// How many ports of `ports` have id `id`.
pub open spec fn count_ports_with_id(ports: Seq<PortV>, id: u32) -> nat
    decreases ports.len(),
{
    if ports.len() == 0 {
        0
    } else {
        (if ports[0].id == id {
            1nat
        } else {
            0nat
        }) + count_ports_with_id(ports.drop_first(), id)
    }
}

/// How many nodes of `nodes` have id `id`.
pub open spec fn count_nodes_with_id(nodes: Seq<NodeV>, id: u32) -> nat
    decreases nodes.len(),
{
    if nodes.len() == 0 {
        0
    } else {
        (if nodes[0].id == id {
            1nat
        } else {
            0nat
        }) + count_nodes_with_id(nodes.drop_first(), id)
    }
}

proof fn lemma_count_ports_push(s: Seq<PortV>, x: PortV, id: u32)
    ensures
        count_ports_with_id(s.push(x), id) == count_ports_with_id(s, id) + (if x.id == id {
            1nat
        } else {
            0nat
        }),
    decreases s.len(),
{
    if s.len() == 0 {
        assert(s.push(x)[0] == x);
        assert(s.push(x).drop_first() =~= Seq::<PortV>::empty());
        assert(count_ports_with_id(Seq::<PortV>::empty(), id) == 0);
    } else {
        assert(s.push(x)[0] == s[0]);
        assert(s.push(x).drop_first() =~= s.drop_first().push(x));
        lemma_count_ports_push(s.drop_first(), x, id);
    }
}

proof fn lemma_count_nodes_push(s: Seq<NodeV>, x: NodeV, id: u32)
    ensures
        count_nodes_with_id(s.push(x), id) == count_nodes_with_id(s, id) + (if x.id == id {
            1nat
        } else {
            0nat
        }),
    decreases s.len(),
{
    if s.len() == 0 {
        assert(s.push(x)[0] == x);
        assert(s.push(x).drop_first() =~= Seq::<NodeV>::empty());
        assert(count_nodes_with_id(Seq::<NodeV>::empty(), id) == 0);
    } else {
        assert(s.push(x)[0] == s[0]);
        assert(s.push(x).drop_first() =~= s.drop_first().push(x));
        lemma_count_nodes_push(s.drop_first(), x, id);
    }
}

proof fn lemma_count_ports_zero(s: Seq<PortV>, id: u32)
    ensures
        (count_ports_with_id(s, id) == 0) <==> !has_port(s, id),
    decreases s.len(),
{
    if s.len() == 0 {
    } else {
        lemma_count_ports_zero(s.drop_first(), id);
        assert(forall|j: int|
            0 <= j < s.drop_first().len() ==> #[trigger] s.drop_first()[j] == s[j + 1]);
        if s[0].id == id {
            assert(has_port(s, id));
        } else {
            if has_port(s, id) {
                let w = choose|i: int| 0 <= i < s.len() && s[i].id == id;
                assert(s.drop_first()[w - 1].id == id);
                assert(has_port(s.drop_first(), id));
            }
            if has_port(s.drop_first(), id) {
                let w = choose|i: int| 0 <= i < s.drop_first().len() && s.drop_first()[i].id == id;
                assert(s[w + 1].id == id);
                assert(has_port(s, id));
            }
        }
    }
}

proof fn lemma_count_nodes_zero(s: Seq<NodeV>, id: u32)
    ensures
        (count_nodes_with_id(s, id) == 0) <==> !has_node(s, id),
    decreases s.len(),
{
    if s.len() == 0 {
    } else {
        lemma_count_nodes_zero(s.drop_first(), id);
        assert(forall|j: int|
            0 <= j < s.drop_first().len() ==> #[trigger] s.drop_first()[j] == s[j + 1]);
        if s[0].id == id {
            assert(has_node(s, id));
        } else {
            if has_node(s, id) {
                let w = choose|i: int| 0 <= i < s.len() && s[i].id == id;
                assert(s.drop_first()[w - 1].id == id);
                assert(has_node(s.drop_first(), id));
            }
            if has_node(s.drop_first(), id) {
                let w = choose|i: int| 0 <= i < s.drop_first().len() && s.drop_first()[i].id == id;
                assert(s[w + 1].id == id);
                assert(has_node(s, id));
            }
        }
    }
}

proof fn lemma_has_port_push(s: Seq<PortV>, x: PortV, id: u32)
    ensures
        has_port(s.push(x), id) <==> (has_port(s, id) || x.id == id),
{
    if x.id == id {
        assert(s.push(x)[s.len() as int].id == id);
    }
    if has_port(s, id) {
        let w = choose|i: int| 0 <= i < s.len() && s[i].id == id;
        assert(s.push(x)[w].id == id);
    }
    if has_port(s.push(x), id) && x.id != id {
        let w = choose|i: int| 0 <= i < s.push(x).len() && s.push(x)[i].id == id;
        if w < s.len() {
            assert(s[w].id == id);
        }
    }
}

/// Filtering cannot introduce a port id that was not there.
proof fn lemma_has_port_filter(s: Seq<PortV>, pred: spec_fn(PortV) -> bool, id: u32)
    requires
        !has_port(s, id),
    ensures
        !has_port(s.filter(pred), id),
    decreases s.len(),
{
    reveal(Seq::filter);
    if s.len() > 0 {
        if has_port(s.drop_last(), id) {
            let w = choose|i: int| 0 <= i < s.drop_last().len() && s.drop_last()[i].id == id;
            assert(s[w].id == id);
            assert(false);
        }
        lemma_has_port_filter(s.drop_last(), pred, id);
        if pred(s.last()) {
            if s.last().id == id {
                assert(s[s.len() - 1].id == id);
                assert(false);
            }
            lemma_has_port_push(s.drop_last().filter(pred), s.last(), id);
        }
    }
}

/// Attaching a pending list that holds exactly one port with id `p.id`,
/// namely `p` itself as its last element, onto ports free of that id,
/// yields `p` present exactly once.
proof fn lemma_attach_unique(ports: Seq<PortV>, pre: Seq<PortV>, p: PortV)
    requires
        !has_port(ports, p.id),
        !has_port(pre, p.id),
    ensures
        attach_ports(ports, pre.push(p)).contains(p),
        count_ports_with_id(attach_ports(ports, pre.push(p)), p.id) == 1,
    decreases pre.len(),
{
    if pre.len() == 0 {
        assert(pre.push(p)[0] == p);
        assert(pre.push(p).drop_first() =~= Seq::<PortV>::empty());
        lemma_count_ports_zero(ports, p.id);
        lemma_count_ports_push(ports, p, p.id);
        assert(attach_ports(ports.push(p), Seq::<PortV>::empty()) == ports.push(p));
        assert(attach_ports(ports, pre.push(p)) == ports.push(p));
        assert(ports.push(p)[ports.len() as int] == p);
    } else {
        let q = pre[0];
        assert(pre.push(p)[0] == q);
        assert(pre.push(p).drop_first() =~= pre.drop_first().push(p));
        if q.id == p.id {
            assert(has_port(pre, p.id));
        }
        if has_port(pre.drop_first(), p.id) {
            let w = choose|i: int|
                0 <= i < pre.drop_first().len() && pre.drop_first()[i].id == p.id;
            assert(pre[w + 1].id == p.id);
            assert(false);
        }
        if has_port(ports, q.id) {
            lemma_attach_unique(ports, pre.drop_first(), p);
        } else {
            lemma_has_port_push(ports, q, p.id);
            lemma_attach_unique(ports.push(q), pre.drop_first(), p);
        }
    }
}

/// A port announced before its node is attached, exactly once, the moment
/// the node arrives: after `add_port(p)` (with `p`'s node unknown and `p`'s
/// id fresh) followed by `add_node(n)` for that node, the inserted node's
/// port list contains `p` exactly once.
pub proof fn lemma_orphan_resolution(g: GraphStateV, p: PortV, n: NodeV)
    requires
        !has_node(g.nodes, p.node_id),
        !has_port(g.orphans, p.id),
        n.id == p.node_id,
        !has_port(n.ports, p.id),
    ensures
        ({
            let g2 = spec_add_node(spec_add_port(g, p), n);
            &&& g2.nodes.len() > 0
            &&& g2.nodes.last().id == n.id
            &&& g2.nodes.last().ports.contains(p)
            &&& count_ports_with_id(g2.nodes.last().ports, p.id) == 1
        }),
{
    let g1 = spec_add_port(g, p);
    assert(g1.orphans == g.orphans.push(p));
    lemma_filter_push(g.orphans, orphan_for(n.id), p);
    assert(orphan_for(n.id)(p));
    let pre = g.orphans.filter(orphan_for(n.id));
    assert(g1.orphans.filter(orphan_for(n.id)) == pre.push(p));
    lemma_has_port_filter(g.orphans, orphan_for(n.id), p.id);
    lemma_attach_unique(n.ports, pre, p);
}

/// Adding the same node twice replaces rather than duplicates: the node
/// count is unchanged, the node is present exactly once, and its latest
/// fields are retained.
pub proof fn lemma_add_node_idempotent(g: GraphStateV, n: NodeV)
    ensures
        ({
            let g1 = spec_add_node(g, n);
            let g2 = spec_add_node(g1, n);
            &&& g2.nodes.len() == g1.nodes.len()
            &&& count_nodes_with_id(g2.nodes, n.id) == 1
            &&& g2.nodes.last().id == n.id
            &&& g2.nodes.last().name == n.name
            &&& g2.nodes.last().node_type == n.node_type
            &&& g2.nodes.last().ports == n.ports
            &&& g2.links == g1.links
            &&& g2.orphans == g1.orphans
        }),
{
    broadcast use vstd::seq_lib::group_filter_ensures;

    let g1 = spec_add_node(g, n);
    let kept = g.nodes.filter(node_id_ne(n.id));
    let n1 = g1.nodes.last();
    assert(n1.id == n.id);
    // Replacing: the first copy is filtered out again, the kept prefix stays.
    lemma_filter_push(kept, node_id_ne(n.id), n1);
    assert(forall|i: int| 0 <= i < kept.len() ==> node_id_ne(n.id)(#[trigger] kept[i]));
    lemma_filter_all(kept, node_id_ne(n.id));
    // The second add finds an empty orphan bucket.
    let o1 = g.orphans.filter(orphan_not_for(n.id));
    assert(forall|i: int| 0 <= i < o1.len() ==> !orphan_for(n.id)(#[trigger] o1[i]));
    lemma_filter_none(o1, orphan_for(n.id));
    assert(attach_ports(n.ports, Seq::<PortV>::empty()) == n.ports);
    assert(forall|i: int| 0 <= i < o1.len() ==> orphan_not_for(n.id)(#[trigger] o1[i]));
    lemma_filter_all(o1, orphan_not_for(n.id));
    // Exactly one node with this id remains.
    if has_node(kept, n.id) {
        let w = choose|i: int| 0 <= i < kept.len() && kept[i].id == n.id;
        assert(node_id_ne(n.id)(kept[w]));
        assert(false);
    }
    lemma_count_nodes_zero(kept, n.id);
    let n2 = spec_add_node(g1, n).nodes.last();
    lemma_count_nodes_push(kept, n2, n.id);
}

/// Removing a node removes every link that references it on either side,
/// while every other node and every untouched link survive.
pub proof fn lemma_remove_node_cascade(g: GraphStateV, a: u32)
    ensures
        ({
            let g2 = spec_remove_node(g, a);
            &&& !has_node(g2.nodes, a)
            &&& forall|i: int|
                0 <= i < g2.links.len() ==> (#[trigger] g2.links[i]).output_node != a
                    && g2.links[i].input_node != a
            &&& forall|i: int|
                0 <= i < g.nodes.len() && (#[trigger] g.nodes[i]).id != a ==> g2.nodes.contains(
                    g.nodes[i],
                )
            &&& forall|i: int|
                0 <= i < g.links.len() && (#[trigger] g.links[i]).output_node != a
                    && g.links[i].input_node != a ==> g2.links.contains(g.links[i])
            &&& g2.orphans == g.orphans
        }),
{
    broadcast use vstd::seq_lib::group_filter_ensures;

    let g2 = spec_remove_node(g, a);
    if has_node(g2.nodes, a) {
        let w = choose|i: int| 0 <= i < g2.nodes.len() && g2.nodes[i].id == a;
        assert(node_id_ne(a)(g2.nodes[w]));
    }
    assert(forall|i: int|
        0 <= i < g2.links.len() ==> link_avoids_node(a)(#[trigger] g2.links[i]));
}

/// Removing a port removes every link that references it on either side,
/// and the port itself from every node and from the orphan buffer.
pub proof fn lemma_remove_port_cascade(g: GraphStateV, pid: u32)
    ensures
        ({
            let g2 = spec_remove_port(g, pid);
            &&& forall|i: int|
                0 <= i < g2.links.len() ==> (#[trigger] g2.links[i]).output_port != pid
                    && g2.links[i].input_port != pid
            &&& forall|i: int|
                0 <= i < g.links.len() && (#[trigger] g.links[i]).output_port != pid
                    && g.links[i].input_port != pid ==> g2.links.contains(g.links[i])
            &&& g2.nodes.len() == g.nodes.len()
            &&& forall|i: int| 0 <= i < g2.nodes.len() ==> !has_port(#[trigger] g2.nodes[i].ports, pid)
            &&& !has_port(g2.orphans, pid)
        }),
{
    broadcast use vstd::seq_lib::group_filter_ensures;

    let g2 = spec_remove_port(g, pid);
    assert(forall|i: int|
        0 <= i < g2.links.len() ==> link_avoids_port(pid)(#[trigger] g2.links[i]));
    assert forall|i: int| 0 <= i < g2.nodes.len() implies !has_port(
        #[trigger] g2.nodes[i].ports,
        pid,
    ) by {
        assert(g2.nodes[i] == strip_port(pid)(g.nodes[i]));
        let stripped = g.nodes[i].ports.filter(port_id_ne(pid));
        if has_port(stripped, pid) {
            let w = choose|j: int| 0 <= j < stripped.len() && stripped[j].id == pid;
            assert(port_id_ne(pid)(stripped[w]));
        }
    }
    if has_port(g2.orphans, pid) {
        let w = choose|j: int| 0 <= j < g2.orphans.len() && g2.orphans[j].id == pid;
        assert(port_id_ne(pid)(g2.orphans[w]));
    }
}

/// Removing a node id that no node carries and no link references leaves
/// the cache unchanged.
pub proof fn lemma_remove_node_noop(g: GraphStateV, id: u32)
    requires
        !has_node(g.nodes, id),
        forall|i: int|
            0 <= i < g.links.len() ==> (#[trigger] g.links[i]).output_node != id
                && g.links[i].input_node != id,
    ensures
        spec_remove_node(g, id) == g,
{
    assert forall|i: int| 0 <= i < g.nodes.len() implies node_id_ne(id)(#[trigger] g.nodes[i]) by {
        if g.nodes[i].id == id {
            assert(has_node(g.nodes, id));
        }
    }
    lemma_filter_all(g.nodes, node_id_ne(id));
    assert(forall|i: int|
        0 <= i < g.links.len() ==> link_avoids_node(id)(#[trigger] g.links[i]));
    lemma_filter_all(g.links, link_avoids_node(id));
    assert(spec_remove_node(g, id) =~= g);
}

/// Removing a port id that no node holds, that is not buffered, and that no
/// link references leaves the cache unchanged.
pub proof fn lemma_remove_port_noop(g: GraphStateV, id: u32)
    requires
        forall|i: int| 0 <= i < g.nodes.len() ==> !has_port((#[trigger] g.nodes[i]).ports, id),
        !has_port(g.orphans, id),
        forall|i: int|
            0 <= i < g.links.len() ==> (#[trigger] g.links[i]).output_port != id
                && g.links[i].input_port != id,
    ensures
        spec_remove_port(g, id) == g,
{
    assert forall|i: int| 0 <= i < g.nodes.len() implies #[trigger] g.nodes.map_values(
        strip_port(id),
    )[i] == g.nodes[i] by {
        assert forall|j: int| 0 <= j < g.nodes[i].ports.len() implies port_id_ne(id)(
            #[trigger] g.nodes[i].ports[j],
        ) by {
            if g.nodes[i].ports[j].id == id {
                assert(has_port(g.nodes[i].ports, id));
            }
        }
        lemma_filter_all(g.nodes[i].ports, port_id_ne(id));
        assert(strip_port(id)(g.nodes[i]) =~= g.nodes[i]);
    }
    assert(g.nodes.map_values(strip_port(id)) =~= g.nodes);
    assert forall|i: int| 0 <= i < g.orphans.len() implies port_id_ne(id)(
        #[trigger] g.orphans[i],
    ) by {
        if g.orphans[i].id == id {
            assert(has_port(g.orphans, id));
        }
    }
    lemma_filter_all(g.orphans, port_id_ne(id));
    assert(forall|i: int|
        0 <= i < g.links.len() ==> link_avoids_port(id)(#[trigger] g.links[i]));
    lemma_filter_all(g.links, link_avoids_port(id));
    assert(spec_remove_port(g, id) =~= g);
}

/// Removing a link id that no link carries leaves the cache unchanged.
pub proof fn lemma_remove_link_noop(g: GraphStateV, id: u32)
    requires
        forall|i: int| 0 <= i < g.links.len() ==> (#[trigger] g.links[i]).id != id,
    ensures
        spec_remove_link(g, id) == g,
{
    assert(forall|i: int| 0 <= i < g.links.len() ==> link_id_ne(id)(#[trigger] g.links[i]));
    lemma_filter_all(g.links, link_id_ne(id));
    assert(spec_remove_link(g, id) =~= g);
}

/// Splits the orphan buffer into the ports waiting for node `id` (the
/// bucket, in order) and all the others (in order).
fn partition_orphans(orphans: &Vec<Port>, id: u32) -> (r: (Vec<Port>, Vec<Port>))
    ensures
        r.0.deep_view() == orphans.deep_view().filter(orphan_for(id)),
        r.1.deep_view() == orphans.deep_view().filter(orphan_not_for(id)),
{
    let mut bucket: Vec<Port> = Vec::new();
    let mut rest: Vec<Port> = Vec::new();
    let ghost dv = orphans.deep_view();
    let n = orphans.len();
    for i in 0..n
        invariant
            n == orphans.len(),
            dv == orphans.deep_view(),
            bucket.deep_view() =~= dv.subrange(0, i as int).filter(orphan_for(id)),
            rest.deep_view() =~= dv.subrange(0, i as int).filter(orphan_not_for(id)),
    {
        proof {
            assert(dv.subrange(0, i + 1) =~= dv.subrange(0, i as int).push(dv[i as int]));
            lemma_filter_push(dv.subrange(0, i as int), orphan_for(id), dv[i as int]);
            lemma_filter_push(dv.subrange(0, i as int), orphan_not_for(id), dv[i as int]);
        }
        let ghost prev_bucket = bucket.deep_view();
        let ghost prev_rest = rest.deep_view();
        if orphans[i].node_id == id {
            bucket.push(orphans[i].dup());
            proof {
                assert(bucket.deep_view() =~= prev_bucket.push(dv[i as int]));
            }
        } else {
            rest.push(orphans[i].dup());
            proof {
                assert(rest.deep_view() =~= prev_rest.push(dv[i as int]));
            }
        }
    }
    proof {
        assert(dv.subrange(0, n as int) =~= dv);
    }
    (bucket, rest)
}

} // verus!
