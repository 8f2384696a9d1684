//! A read-only picture of the PipeWire graph: nodes, ports, links and which
//! process owns each client, and the decisions that capture per process takes
//! from it (which output streams to tap, through which ports).
use vstd::prelude::*;

use crate::audio_devices::{parse_u32, parse_u32_spec, AudioError};
use crate::text::decimal;
use crate::service_settings::{seq_lt, str_lt};
use crate::models::AudioDevice;
use crate::text::str_eq;

verus! {

/// Media class of an application's playback stream.
pub const OUTPUT_STREAM_CLASS: &'static str = "Stream/Output/Audio";

#[derive(Clone, Debug)]
pub struct GraphNode {
    pub id: u32,
    pub media_class: String,
    pub client_id: Option<u32>,
}

/// An established link from one node to another.
#[derive(Clone, Copy, Debug)]
pub struct GraphLink {
    pub output_node: u32,
    pub input_node: u32,
}

#[derive(Clone, Debug)]
pub struct GraphPort {
    pub id: u32,
    pub node_id: u32,
    pub direction: String,
    pub name: String,
}

/// What the graph held at one moment.
#[derive(Debug)]
pub struct GraphSnapshot {
    pub nodes: Vec<GraphNode>,
    pub ports: Vec<GraphPort>,
    pub links: Vec<GraphLink>,
    /// Client id and the process id that owns it.
    pub client_pids: Vec<(u32, u32)>,
}

/// The value of a node: id, media class, client.
pub type NodeView = (u32, Seq<char>, Option<u32>);

/// The value of a port: id, node, direction, name.
pub type PortView = (u32, u32, Seq<char>, Seq<char>);

pub open spec fn node_view(n: GraphNode) -> NodeView {
    (n.id, n.media_class@, n.client_id)
}

pub open spec fn port_view(p: GraphPort) -> PortView {
    (p.id, p.node_id, p.direction@, p.name@)
}

pub open spec fn node_views(v: Seq<GraphNode>) -> Seq<NodeView> {
    v.map_values(|n: GraphNode| node_view(n))
}

pub open spec fn port_views(v: Seq<GraphPort>) -> Seq<PortView> {
    v.map_values(|p: GraphPort| port_view(p))
}

pub open spec fn link_views(v: Seq<GraphLink>) -> Seq<(u32, u32)> {
    v.map_values(|l: GraphLink| (l.output_node, l.input_node))
}

/// The process that owns `client`: the first entry for it.
pub open spec fn pid_of(pids: Seq<(u32, u32)>, client: u32) -> Option<u32>
    decreases pids.len(),
{
    if pids.len() == 0 {
        None
    } else if pids[0].0 == client {
        Some(pids[0].1)
    } else {
        pid_of(pids.drop_first(), client)
    }
}

/// Whether a node is a playback stream of process `pid`.
pub open spec fn streams_for(n: NodeView, pids: Seq<(u32, u32)>, pid: u32) -> bool {
    n.1 == OUTPUT_STREAM_CLASS@ && (n.2 matches Some(c) && pid_of(pids, c) == Some(pid))
}

/// `x` inserted into `s` after every element whose id is not larger.
pub open spec fn insert_node(s: Seq<NodeView>, x: NodeView) -> Seq<NodeView>
    decreases s.len(),
{
    if s.len() == 0 {
        seq![x]
    } else if x.0 < s.last().0 {
        insert_node(s.drop_last(), x).push(s.last())
    } else {
        s.push(x)
    }
}

/// `s` stably sorted by node id.
pub open spec fn sort_nodes(s: Seq<NodeView>) -> Seq<NodeView>
    decreases s.len(),
{
    if s.len() == 0 {
        s
    } else {
        insert_node(sort_nodes(s.drop_last()), s.last())
    }
}

/// `x` inserted into `s` after every port whose name is not larger.
pub open spec fn insert_port(s: Seq<PortView>, x: PortView) -> Seq<PortView>
    decreases s.len(),
{
    if s.len() == 0 {
        seq![x]
    } else if seq_lt(x.3, s.last().3) {
        insert_port(s.drop_last(), x).push(s.last())
    } else {
        s.push(x)
    }
}

/// `s` stably sorted by port name.
pub open spec fn sort_ports(s: Seq<PortView>) -> Seq<PortView>
    decreases s.len(),
{
    if s.len() == 0 {
        s
    } else {
        insert_port(sort_ports(s.drop_last()), s.last())
    }
}

/// The playback streams of process `pid`, in ascending node id.
pub open spec fn output_streams(nodes: Seq<NodeView>, pids: Seq<(u32, u32)>, pid: u32) -> Seq<NodeView> {
    sort_nodes(nodes.filter(|n: NodeView| streams_for(n, pids, pid)))
}

/// Whether a port belongs to `node` and faces `direction`.
pub open spec fn port_matches(p: PortView, node: u32, direction: Seq<char>) -> bool {
    p.1 == node && p.2 == direction
}

/// The ports of `node` in `direction`, in ascending name.
pub open spec fn node_ports(ports: Seq<PortView>, node: u32, direction: Seq<char>) -> Seq<PortView> {
    sort_ports(ports.filter(|p: PortView| port_matches(p, node, direction)))
}

fn copy_node(n: &GraphNode) -> (r: GraphNode)
    ensures
        node_view(r) == node_view(*n),
{
    GraphNode { id: n.id, media_class: n.media_class.clone(), client_id: n.client_id }
}

fn copy_port(p: &GraphPort) -> (r: GraphPort)
    ensures
        port_view(r) == port_view(*p),
{
    GraphPort { id: p.id, node_id: p.node_id, direction: p.direction.clone(), name: p.name.clone() }
}

/// Inserts `x` after every node whose id is not larger.
fn insert_node_sorted(v: &mut Vec<GraphNode>, x: GraphNode)
    ensures
        node_views(final(v)@) == insert_node(node_views(old(v)@), node_view(x)),
{
    let ghost s = node_views(v@);
    let ghost xv = node_view(x);
    let mut p = v.len();
    assert(s.take(p as int) =~= s);
    assert(s.skip(p as int) =~= Seq::<NodeView>::empty());
    while p > 0 && x.id < v[p - 1].id
        invariant
            p <= v@.len(),
            s == node_views(v@),
            xv == node_view(x),
            insert_node(s, xv) == insert_node(s.take(p as int), xv) + s.skip(p as int),
        decreases p,
    {
        let ghost t = s.take(p as int);
        assert(t.drop_last() =~= s.take(p - 1));
        assert(t.last() == s[p - 1]);
        assert(s.skip(p - 1) =~= seq![s[p - 1]] + s.skip(p as int));
        assert(insert_node(s.take(p - 1), xv).push(s[p - 1]) + s.skip(p as int) =~= insert_node(
            s.take(p - 1),
            xv,
        ) + s.skip(p - 1));
        p = p - 1;
    }
    proof {
        if p == 0 {
            assert(s.take(0) =~= Seq::<NodeView>::empty());
        }
    }
    v.insert(p, x);
    assert(node_views(v@) =~= s.take(p as int).push(xv) + s.skip(p as int));
}

/// Inserts `x` after every port whose name is not larger.
fn insert_port_sorted(v: &mut Vec<GraphPort>, x: GraphPort)
    ensures
        port_views(final(v)@) == insert_port(port_views(old(v)@), port_view(x)),
{
    let ghost s = port_views(v@);
    let ghost xv = port_view(x);
    let mut p = v.len();
    assert(s.take(p as int) =~= s);
    assert(s.skip(p as int) =~= Seq::<PortView>::empty());
    while p > 0 && str_lt(x.name.as_str(), v[p - 1].name.as_str())
        invariant
            p <= v@.len(),
            s == port_views(v@),
            xv == port_view(x),
            insert_port(s, xv) == insert_port(s.take(p as int), xv) + s.skip(p as int),
        decreases p,
    {
        let ghost t = s.take(p as int);
        assert(t.drop_last() =~= s.take(p - 1));
        assert(t.last() == s[p - 1]);
        assert(s.skip(p - 1) =~= seq![s[p - 1]] + s.skip(p as int));
        assert(insert_port(s.take(p - 1), xv).push(s[p - 1]) + s.skip(p as int) =~= insert_port(
            s.take(p - 1),
            xv,
        ) + s.skip(p - 1));
        p = p - 1;
    }
    proof {
        if p == 0 {
            assert(s.take(0) =~= Seq::<PortView>::empty());
        }
    }
    v.insert(p, x);
    assert(port_views(v@) =~= s.take(p as int).push(xv) + s.skip(p as int));
}

fn pid_lookup(pids: &Vec<(u32, u32)>, client: u32) -> (r: Option<u32>)
    ensures
        r == pid_of(pids@, client),
{
    let mut i: usize = 0;
    assert(pids@.skip(0) =~= pids@);
    while i < pids.len()
        invariant
            i <= pids@.len(),
            pid_of(pids@, client) == pid_of(pids@.skip(i as int), client),
        decreases pids@.len() - i,
    {
        assert(pids@.skip(i as int).drop_first() =~= pids@.skip(i + 1));
        if pids[i].0 == client {
            return Some(pids[i].1);
        }
        i = i + 1;
    }
    None
}

impl GraphSnapshot {
    /// A snapshot of an empty graph.
    pub fn new() -> (r: Self)
        ensures
            r.nodes@.len() == 0,
            r.ports@.len() == 0,
            r.links@.len() == 0,
            r.client_pids@.len() == 0,
    {
        GraphSnapshot { nodes: Vec::new(), ports: Vec::new(), links: Vec::new(), client_pids: Vec::new() }
    }

    /// The playback streams that process `pid` owns, in ascending node id.
    pub fn output_streams_of(&self, pid: u32) -> (r: Vec<GraphNode>)
        ensures
            node_views(r@) == output_streams(node_views(self.nodes@), self.client_pids@, pid),
    {
        let ghost all = node_views(self.nodes@);
        let ghost keep = |n: NodeView| streams_for(n, self.client_pids@, pid);
        let mut r: Vec<GraphNode> = Vec::new();
        let mut i: usize = 0;
        assert(all.take(0).filter(keep) =~= Seq::<NodeView>::empty());
        while i < self.nodes.len()
            invariant
                i <= self.nodes@.len(),
                all == node_views(self.nodes@),
                keep == (|n: NodeView| streams_for(n, self.client_pids@, pid)),
                node_views(r@) == sort_nodes(all.take(i as int).filter(keep)),
            decreases self.nodes@.len() - i,
        {
            let n = &self.nodes[i];
            let owned = match n.client_id {
                Some(c) => pid_lookup(&self.client_pids, c) == Some(pid),
                None => false,
            };
            let ghost f = all.take(i as int).filter(keep);
            proof {
                reveal(Seq::filter);
            }
            assert(all.take(i + 1).drop_last() =~= all.take(i as int));
            assert(all.take(i + 1).last() == all[i as int]);
            if str_eq(n.media_class.as_str(), OUTPUT_STREAM_CLASS) && owned {
                assert(keep(all[i as int]));
                assert(all.take(i + 1).filter(keep) == f.push(all[i as int]));
                assert(f.push(all[i as int]).drop_last() =~= f);
                insert_node_sorted(&mut r, copy_node(n));
            } else {
                assert(!keep(all[i as int]));
                assert(all.take(i + 1).filter(keep) == f);
            }
            i = i + 1;
        }
        assert(all.take(i as int) =~= all);
        r
    }

    /// The ports of `node_id` in `direction`, in ascending name.
    pub fn ports_of(&self, node_id: u32, direction: &str) -> (r: Vec<GraphPort>)
        ensures
            port_views(r@) == node_ports(port_views(self.ports@), node_id, direction@),
    {
        let ghost all = port_views(self.ports@);
        let ghost keep = |p: PortView| port_matches(p, node_id, direction@);
        let mut r: Vec<GraphPort> = Vec::new();
        let mut i: usize = 0;
        assert(all.take(0).filter(keep) =~= Seq::<PortView>::empty());
        while i < self.ports.len()
            invariant
                i <= self.ports@.len(),
                all == port_views(self.ports@),
                keep == (|p: PortView| port_matches(p, node_id, direction@)),
                port_views(r@) == sort_ports(all.take(i as int).filter(keep)),
            decreases self.ports@.len() - i,
        {
            let p = &self.ports[i];
            let ghost f = all.take(i as int).filter(keep);
            proof {
                reveal(Seq::filter);
            }
            assert(all.take(i + 1).drop_last() =~= all.take(i as int));
            assert(all.take(i + 1).last() == all[i as int]);
            if p.node_id == node_id && str_eq(p.direction.as_str(), direction) {
                assert(keep(all[i as int]));
                assert(all.take(i + 1).filter(keep) == f.push(all[i as int]));
                assert(f.push(all[i as int]).drop_last() =~= f);
                insert_port_sorted(&mut r, copy_port(p));
            } else {
                assert(!keep(all[i as int]));
                assert(all.take(i + 1).filter(keep) == f);
            }
            i = i + 1;
        }
        assert(all.take(i as int) =~= all);
        r
    }
}

/// A property's text, empty when the property is absent.
pub open spec fn prop_text(o: Option<&str>) -> Seq<char> {
    match o {
        Some(s) => s@,
        None => Seq::empty(),
    }
}

/// A property parsed as a number; absent or unparsable gives `None`.
pub open spec fn prop_u32(o: Option<&str>) -> Option<u32> {
    match o {
        Some(s) => parse_u32_spec(s@),
        None => None,
    }
}

fn prop_number(o: Option<&str>) -> (r: Option<u32>)
    ensures
        r == prop_u32(o),
{
    match o {
        Some(s) => parse_u32(s),
        None => None,
    }
}

fn prop_string(o: Option<&str>) -> (r: String)
    ensures
        r@ == prop_text(o),
{
    match o {
        Some(s) => crate::text::owned(s),
        None => String::new(),
    }
}

/// The clients that own a playback stream, in node order.
pub open spec fn stream_clients(nodes: Seq<NodeView>) -> Seq<u32>
    decreases nodes.len(),
{
    if nodes.len() == 0 {
        Seq::empty()
    } else {
        let rest = stream_clients(nodes.drop_last());
        let n = nodes.last();
        if n.1 == OUTPUT_STREAM_CLASS@ && n.2 is Some {
            rest.push(n.2->0)
        } else {
            rest
        }
    }
}

/// `pids` with `client` owned by `pid`: its first entry is replaced, or one is added.
pub open spec fn with_pid(pids: Seq<(u32, u32)>, client: u32, pid: u32) -> Seq<(u32, u32)>
    decreases pids.len(),
{
    if pids.len() == 0 {
        seq![(client, pid)]
    } else if pids[0].0 == client {
        pids.update(0, (client, pid))
    } else {
        seq![pids[0]] + with_pid(pids.drop_first(), client, pid)
    }
}

proof fn lemma_with_pid(pids: Seq<(u32, u32)>, client: u32, pid: u32, other: u32)
    ensures
        pid_of(with_pid(pids, client, pid), client) == Some(pid),
        other != client ==> pid_of(with_pid(pids, client, pid), other) == pid_of(pids, other),
    decreases pids.len(),
{
    let w = with_pid(pids, client, pid);
    if pids.len() == 0 {
        assert(w =~= seq![(client, pid)]);
        assert(w.drop_first() =~= Seq::<(u32, u32)>::empty());
        assert(pid_of(w.drop_first(), other) == None::<u32>);
    } else if pids[0].0 != client {
        lemma_with_pid(pids.drop_first(), client, pid, other);
        assert(w.drop_first() =~= with_pid(pids.drop_first(), client, pid));
        assert(w[0] == pids[0]);
    } else {
        assert(w.drop_first() =~= pids.drop_first());
        assert(w[0] == (client, pid));
        if other != client {
            assert(pid_of(w, other) == pid_of(w.drop_first(), other));
            assert(pid_of(pids, other) == pid_of(pids.drop_first(), other));
        }
    }
}

/// Once `client` is recorded as owned by `pid`, lookups of it give `pid`,
/// and lookups of every other client are unchanged.
pub proof fn lemma_client_pid_overrides(pids: Seq<(u32, u32)>, client: u32, pid: u32, other: u32)
    ensures
        pid_of(with_pid(pids, client, pid), client) == Some(pid),
        other != client ==> pid_of(with_pid(pids, client, pid), other) == pid_of(pids, other),
{
    lemma_with_pid(pids, client, pid, other);
}

/// Whether a link runs from node `from` to node `to`.
pub open spec fn linked(links: Seq<(u32, u32)>, from: u32, to: u32) -> bool {
    exists|i: int| 0 <= i < links.len() && links[i] == (from, to)
}

/// The links to create so that each target stream feeds `own_node`: a
/// target already linked and tapped is left alone; otherwise its first output
/// port (by name) is linked, and a target without output ports is skipped.
pub open spec fn tap_links(
    targets: Seq<NodeView>,
    links: Seq<(u32, u32)>,
    ports: Seq<PortView>,
    own_node: u32,
    tapped: Seq<u32>,
) -> Seq<(u32, u32)>
    decreases targets.len(),
{
    if targets.len() == 0 {
        Seq::empty()
    } else {
        let t = targets[0].0;
        let rest = targets.drop_first();
        let out = node_ports(ports, t, "out"@);
        if linked(links, t, own_node) && tapped.contains(t) {
            tap_links(rest, links, ports, own_node, tapped)
        } else if out.len() == 0 {
            tap_links(rest, links, ports, own_node, tapped)
        } else {
            seq![(t, out[0].0)] + tap_links(rest, links, ports, own_node, tapped.push(t))
        }
    }
}

/// What to do with the taps of one process at one refresh.
pub struct TapPlan {
    /// The streams that still exist: taps of other streams are dropped.
    pub live: Vec<u32>,
    /// Links to create, from a stream's output port to our input port: the
    /// stream node and its port.
    pub create: Vec<(u32, u32)>,
}

/// The node ids of a list of nodes.
pub open spec fn node_ids(nodes: Seq<NodeView>) -> Seq<u32> {
    nodes.map_values(|n: NodeView| n.0)
}

fn contains_u32(v: &Vec<u32>, x: u32) -> (r: bool)
    ensures
        r == v@.contains(x),
{
    let mut i: usize = 0;
    while i < v.len()
        invariant
            i <= v@.len(),
            forall|j: int| 0 <= j < i ==> v@[j] != x,
        decreases v@.len() - i,
    {
        if v[i] == x {
            assert(v@[i as int] == x);
            return true;
        }
        i = i + 1;
    }
    false
}

fn link_exists(links: &Vec<GraphLink>, from: u32, to: u32) -> (r: bool)
    ensures
        r == linked(link_views(links@), from, to),
{
    let mut i: usize = 0;
    while i < links.len()
        invariant
            i <= links@.len(),
            forall|j: int| 0 <= j < i ==> link_views(links@)[j] != (from, to),
        decreases links@.len() - i,
    {
        if links[i].output_node == from && links[i].input_node == to {
            assert(link_views(links@)[i as int] == (from, to));
            return true;
        }
        i = i + 1;
    }
    false
}

impl GraphSnapshot {
    /// Records a node: its `media.class` (empty when absent) and its `client.id`.
    pub fn add_node(&mut self, id: u32, media_class: Option<&str>, client_id: Option<&str>)
        ensures
            node_views(final(self).nodes@) == node_views(old(self).nodes@).push(
                (id, prop_text(media_class), prop_u32(client_id)),
            ),
            final(self).ports == old(self).ports,
            final(self).links == old(self).links,
            final(self).client_pids == old(self).client_pids,
    {
        let ghost before = node_views(self.nodes@);
        let n = GraphNode { id, media_class: prop_string(media_class), client_id: prop_number(client_id) };
        self.nodes.push(n);
        assert(node_views(self.nodes@) =~= before.push((id, prop_text(media_class), prop_u32(client_id))));
    }

    /// Records a port; a port whose `node.id` is absent or unparsable is
    /// ignored. Returns whether it was recorded.
    pub fn add_port(&mut self, id: u32, node_id: Option<&str>, direction: Option<&str>, name: Option<&str>) -> (r:
        bool)
        ensures
            r == prop_u32(node_id).is_some(),
            port_views(final(self).ports@) == if r {
                port_views(old(self).ports@).push((id, prop_u32(node_id)->0, prop_text(direction), prop_text(name)))
            } else {
                port_views(old(self).ports@)
            },
            final(self).nodes == old(self).nodes,
            final(self).links == old(self).links,
            final(self).client_pids == old(self).client_pids,
    {
        match prop_number(node_id) {
            Some(node) => {
                let ghost before = port_views(self.ports@);
                let p = GraphPort { id, node_id: node, direction: prop_string(direction), name: prop_string(name) };
                self.ports.push(p);
                assert(port_views(self.ports@) =~= before.push(
                    (id, node, prop_text(direction), prop_text(name)),
                ));
                true
            },
            None => false,
        }
    }

    /// Records a link; one without both node ids is ignored. Returns whether
    /// it was recorded.
    pub fn add_link(&mut self, output_node: Option<&str>, input_node: Option<&str>) -> (r: bool)
        ensures
            r == (prop_u32(output_node).is_some() && prop_u32(input_node).is_some()),
            link_views(final(self).links@) == if r {
                link_views(old(self).links@).push((prop_u32(output_node)->0, prop_u32(input_node)->0))
            } else {
                link_views(old(self).links@)
            },
            final(self).nodes == old(self).nodes,
            final(self).ports == old(self).ports,
            final(self).client_pids == old(self).client_pids,
    {
        match (prop_number(output_node), prop_number(input_node)) {
            (Some(o), Some(i)) => {
                let ghost before = link_views(self.links@);
                self.links.push(GraphLink { output_node: o, input_node: i });
                assert(link_views(self.links@) =~= before.push((o, i)));
                true
            },
            _ => false,
        }
    }

    /// Records that process `pid` owns `client`, replacing what was known.
    pub fn set_client_pid(&mut self, client: u32, pid: u32)
        ensures
            final(self).client_pids@ == with_pid(old(self).client_pids@, client, pid),
            final(self).nodes == old(self).nodes,
            final(self).ports == old(self).ports,
            final(self).links == old(self).links,
    {
        let ghost old_pids = self.client_pids@;
        let mut i: usize = 0;
        while i < self.client_pids.len()
            invariant
                i <= self.client_pids@.len(),
                self.client_pids@ == old_pids,
                old_pids == old(self).client_pids@,
                self.nodes == old(self).nodes,
                self.ports == old(self).ports,
                self.links == old(self).links,
                forall|j: int| 0 <= j < i ==> (#[trigger] old_pids[j]).0 != client,
            decreases self.client_pids@.len() - i,
        {
            if self.client_pids[i].0 == client {
                self.client_pids.set(i, (client, pid));
                proof {
                    lemma_with_pid_at(old_pids, client, pid, i as int);
                }
                return;
            }
            i = i + 1;
        }
        self.client_pids.push((client, pid));
        proof {
            lemma_with_pid_absent(old_pids, client, pid);
        }
    }

    /// The clients that own a playback stream, in node order.
    pub fn wanted_clients(&self) -> (r: Vec<u32>)
        ensures
            r@ == stream_clients(node_views(self.nodes@)),
    {
        let ghost all = node_views(self.nodes@);
        let mut r: Vec<u32> = Vec::new();
        let mut i: usize = 0;
        assert(all.take(0) =~= Seq::<NodeView>::empty());
        while i < self.nodes.len()
            invariant
                i <= self.nodes@.len(),
                all == node_views(self.nodes@),
                r@ == stream_clients(all.take(i as int)),
            decreases self.nodes@.len() - i,
        {
            assert(all.take(i + 1).drop_last() =~= all.take(i as int));
            assert(all.take(i + 1).last() == all[i as int]);
            if str_eq(self.nodes[i].media_class.as_str(), OUTPUT_STREAM_CLASS) {
                match self.nodes[i].client_id {
                    Some(c) => r.push(c),
                    None => {},
                }
            }
            i = i + 1;
        }
        assert(all.take(i as int) =~= all);
        r
    }

    /// Records a client global for the second pass: a client that owns no
    /// playback stream is skipped; otherwise its `sec.pid`, when present,
    /// is recorded as its owner. Returns whether the client is wanted.
    pub fn record_client(&mut self, wanted: &Vec<u32>, client: u32, secure_pid: Option<u32>) -> (r: bool)
        ensures
            r == wanted@.contains(client),
            final(self).client_pids@ == if r && secure_pid is Some {
                with_pid(old(self).client_pids@, client, secure_pid->0)
            } else {
                old(self).client_pids@
            },
            final(self).nodes == old(self).nodes,
            final(self).ports == old(self).ports,
            final(self).links == old(self).links,
    {
        if !contains_u32(wanted, client) {
            return false;
        }
        match secure_pid {
            Some(pid) => self.set_client_pid(client, pid),
            None => {},
        }
        true
    }

    /// The first input port of `node`, by name.
    pub fn input_port_of(&self, node: u32) -> (r: Option<u32>)
        ensures
            r == (if node_ports(port_views(self.ports@), node, "in"@).len() > 0 {
                Some(node_ports(port_views(self.ports@), node, "in"@)[0].0)
            } else {
                None
            }),
    {
        let ports = self.ports_of(node, "in");
        if ports.len() > 0 {
            assert(port_views(ports@)[0].0 == ports@[0].id);
            Some(ports[0].id)
        } else {
            None
        }
    }

    /// What to tap for process `pid` feeding `own_node`, given the streams
    /// tapped so far.
    pub fn plan_taps(&self, pid: u32, own_node: u32, tapped: &Vec<u32>) -> (r: TapPlan)
        ensures
            r.live@ == node_ids(output_streams(node_views(self.nodes@), self.client_pids@, pid)),
            r.create@ == tap_links(
                output_streams(node_views(self.nodes@), self.client_pids@, pid),
                link_views(self.links@),
                port_views(self.ports@),
                own_node,
                tapped@.filter(|k: u32| r.live@.contains(k)),
            ),
    {
        let targets = self.output_streams_of(pid);
        let ghost tv = node_views(targets@);
        let mut live: Vec<u32> = Vec::new();
        let mut i: usize = 0;
        while i < targets.len()
            invariant
                i <= targets@.len(),
                tv == node_views(targets@),
                live@ == node_ids(tv.take(i as int)),
            decreases targets@.len() - i,
        {
            live.push(targets[i].id);
            assert(node_ids(tv.take(i + 1)) =~= node_ids(tv.take(i as int)).push(targets@[i as int].id));
            i = i + 1;
        }
        assert(tv.take(i as int) =~= tv);
        let ghost keep = |k: u32| live@.contains(k);
        let mut kept: Vec<u32> = Vec::new();
        let mut j: usize = 0;
        assert(tapped@.take(0).filter(keep) =~= Seq::<u32>::empty());
        while j < tapped.len()
            invariant
                j <= tapped@.len(),
                keep == (|k: u32| live@.contains(k)),
                kept@ == tapped@.take(j as int).filter(keep),
            decreases tapped@.len() - j,
        {
            proof {
                reveal(Seq::filter);
            }
            assert(tapped@.take(j + 1).drop_last() =~= tapped@.take(j as int));
            assert(tapped@.take(j + 1).last() == tapped@[j as int]);
            if contains_u32(&live, tapped[j]) {
                kept.push(tapped[j]);
            }
            j = j + 1;
        }
        assert(tapped@.take(j as int) =~= tapped@);
        let ghost links = link_views(self.links@);
        let ghost ports = port_views(self.ports@);
        let ghost start = kept@;
        let mut create: Vec<(u32, u32)> = Vec::new();
        let mut k: usize = 0;
        assert(tv.skip(0) =~= tv);
        while k < targets.len()
            invariant
                k <= targets@.len(),
                tv == node_views(targets@),
                links == link_views(self.links@),
                ports == port_views(self.ports@),
                tap_links(tv, links, ports, own_node, start) == create@ + tap_links(
                    tv.skip(k as int),
                    links,
                    ports,
                    own_node,
                    kept@,
                ),
            decreases targets@.len() - k,
        {
            let t = targets[k].id;
            let ghost rest = tv.skip(k as int);
            assert(rest.drop_first() =~= tv.skip(k + 1));
            assert(rest[0].0 == t);
            if link_exists(&self.links, t, own_node) && contains_u32(&kept, t) {
            } else {
                let out = self.ports_of(t, "out");
                if out.len() > 0 {
                    let ghost before = create@;
                    create.push((t, out[0].id));
                    assert(port_views(out@)[0].0 == out@[0].id);
                    kept.push(t);
                    assert(before.push((t, out@[0].id)) + tap_links(tv.skip(k + 1), links, ports, own_node, kept@)
                        =~= before + (seq![(t, out@[0].id)] + tap_links(
                        tv.skip(k + 1),
                        links,
                        ports,
                        own_node,
                        kept@,
                    )));
                }
            }
            k = k + 1;
        }
        assert(tv.skip(k as int) =~= Seq::<NodeView>::empty());
        assert(create@ + Seq::<(u32, u32)>::empty() =~= create@);
        TapPlan { live, create }
    }
}

proof fn lemma_with_pid_at(pids: Seq<(u32, u32)>, client: u32, pid: u32, i: int)
    requires
        0 <= i < pids.len(),
        pids[i].0 == client,
        forall|j: int| 0 <= j < i ==> (#[trigger] pids[j]).0 != client,
    ensures
        with_pid(pids, client, pid) == pids.update(i, (client, pid)),
    decreases i,
{
    if i > 0 {
        lemma_with_pid_at(pids.drop_first(), client, pid, i - 1);
        assert(seq![pids[0]] + pids.drop_first().update(i - 1, (client, pid)) =~= pids.update(i, (client, pid)));
    }
}

proof fn lemma_with_pid_absent(pids: Seq<(u32, u32)>, client: u32, pid: u32)
    requires
        forall|j: int| 0 <= j < pids.len() ==> (#[trigger] pids[j]).0 != client,
    ensures
        with_pid(pids, client, pid) == pids.push((client, pid)),
    decreases pids.len(),
{
    if pids.len() > 0 {
        lemma_with_pid_absent(pids.drop_first(), client, pid);
        assert(seq![pids[0]] + pids.drop_first().push((client, pid)) =~= pids.push((client, pid)));
    } else {
        assert(seq![(client, pid)] =~= pids.push((client, pid)));
    }
}

/// A stream node id is valid once the server has bound it: neither zero nor
/// the invalid id.
pub fn valid_node_id(id: u32) -> (r: Option<u32>)
    ensures
        r == (if id != 0 && id != u32::MAX {
            Some(id)
        } else {
            None
        }),
{
    if id != 0 && id != u32::MAX {
        Some(id)
    } else {
        None
    }
}

/// Whether capture may start: per process once our input port exists;
/// from a device once the stream is paused with its format accepted.
pub fn startup_ready(per_process: bool, paused: bool, format_accepted: bool, own_input: Option<u32>) -> (r: bool)
    ensures
        r == (if per_process {
            own_input is Some
        } else {
            paused && format_accepted
        }),
{
    if per_process {
        own_input.is_some()
    } else {
        paused && format_accepted
    }
}

/// How many times a capture stream asks again for its fixed format.
pub const MAX_FORMAT_ATTEMPTS: u32 = 3;

/// What to do with the format a capture stream reports.
#[derive(Clone, Debug)]
pub enum FormatStep {
    /// The stream delivers mono 32-bit float samples at the wanted rate.
    Accept,
    /// Ask for the fixed format again, so that the server inserts a converter;
    /// `attempts` is the count after this request.
    Renegotiate { attempts: u32 },
    /// Capture cannot use the stream.
    Fail(AudioError),
}

/// The text of an unsupported negotiated format.
pub open spec fn negotiated_message(rate: u32, channels: u32) -> Seq<char> {
    "PipeWire negotiated an unsupported capture format: "@ + decimal(rate as nat) + " Hz, "@ + decimal(
        channels as nat,
    ) + " channel(s)"@
}

/// Decides on a format the stream reports: raw audio is required; mono
/// 32-bit little-endian float at `wanted_rate` is accepted; anything else
/// is asked for again up to `MAX_FORMAT_ATTEMPTS` times, then refused.
pub fn format_step(is_raw: bool, is_f32le: bool, rate: u32, channels: u32, wanted_rate: u32, attempts: u32) -> (r:
    FormatStep)
    ensures
        match r {
            FormatStep::Accept => is_raw && is_f32le && rate == wanted_rate && channels == 1,
            FormatStep::Renegotiate { attempts: a } => is_raw && !(is_f32le && rate == wanted_rate && channels
                == 1) && attempts < MAX_FORMAT_ATTEMPTS && a == attempts + 1,
            FormatStep::Fail(e) => e.code@ == "audio.unsupported_format"@ && !e.retryable && if !is_raw {
                e.message@ == "The selected audio source does not provide raw audio"@
            } else {
                !(is_f32le && rate == wanted_rate && channels == 1) && attempts >= MAX_FORMAT_ATTEMPTS
                    && e.message@ == negotiated_message(rate, channels)
            },
        },
{
    if !is_raw {
        return FormatStep::Fail(
            AudioError {
                code: crate::text::owned("audio.unsupported_format"),
                message: crate::text::owned("The selected audio source does not provide raw audio"),
                retryable: false,
            },
        );
    }
    if is_f32le && rate == wanted_rate && channels == 1 {
        return FormatStep::Accept;
    }
    if attempts >= MAX_FORMAT_ATTEMPTS {
        let mut message = crate::text::owned("PipeWire negotiated an unsupported capture format: ");
        crate::text::push_str(&mut message, crate::text::decimal_string(rate as u64).as_str());
        crate::text::push_str(&mut message, " Hz, ");
        crate::text::push_str(&mut message, crate::text::decimal_string(channels as u64).as_str());
        crate::text::push_str(&mut message, " channel(s)");
        return FormatStep::Fail(
            AudioError { code: crate::text::owned("audio.unsupported_format"), message, retryable: false },
        );
    }
    FormatStep::Renegotiate { attempts: attempts + 1 }
}

/// The failure when a stream starts streaming: a format that was reported
/// but never accepted is refused, unless a failure is already recorded.
pub fn streaming_failure(format_checked: bool, format_accepted: bool, already_failed: bool) -> (r: Option<
    AudioError,
>)
    ensures
        match r {
            Some(e) => format_checked && !format_accepted && !already_failed && e.code@
                == "audio.unsupported_format"@ && !e.retryable && e.message@
                == "PipeWire did not accept the requested capture format"@,
            None => !(format_checked && !format_accepted && !already_failed),
        },
{
    if format_checked && !format_accepted && !already_failed {
        Some(
            AudioError {
                code: crate::text::owned("audio.unsupported_format"),
                message: crate::text::owned("PipeWire did not accept the requested capture format"),
                retryable: false,
            },
        )
    } else {
        None
    }
}

/// The failure when a stream stops with an error: worth retrying, since a
/// target may just be rebuilt while capture starts.
pub fn stream_error(message: &str) -> (r: AudioError)
    ensures
        r.code@ == "audio.device_in_use"@,
        r.message@ == "PipeWire capture stopped: "@ + message@,
        r.retryable,
{
    AudioError {
        code: crate::text::owned("audio.device_in_use"),
        message: crate::text::concat("PipeWire capture stopped: ", message),
        retryable: true,
    }
}

/// The failure when capture does not become ready in time.
pub fn start_timeout() -> (r: AudioError)
    ensures
        r.code@ == "audio.start_timeout"@,
        r.message@ == "Timed out while starting PipeWire capture"@,
        !r.retryable,
{
    AudioError {
        code: crate::text::owned("audio.start_timeout"),
        message: crate::text::owned("Timed out while starting PipeWire capture"),
        retryable: false,
    }
}

/// Device id reported for per-process capture: it takes neither 0 (the
/// system default) nor a hashed device id.
pub const APPLICATION_DEVICE_ID: i64 = -1;

/// Name reported for per-process capture.
pub const APPLICATION_DEVICE_LABEL: &'static str = "Application audio";

/// The device that per-process capture reports: mono at `rate`.
pub fn application_device(rate: u32) -> (r: AudioDevice)
    ensures
        r.id == APPLICATION_DEVICE_ID,
        r.name@ == APPLICATION_DEVICE_LABEL@,
        !r.is_default,
        r.is_loopback,
        r.sample_rate == rate,
        r.channels == 1,
{
    AudioDevice {
        id: APPLICATION_DEVICE_ID,
        name: crate::text::owned(APPLICATION_DEVICE_LABEL),
        is_default: false,
        is_loopback: true,
        sample_rate: rate,
        channels: 1,
    }
}

/// Whether node ids never decrease along `s`.
pub open spec fn ascending_ids(s: Seq<NodeView>) -> bool {
    forall|i: int, j: int| 0 <= i < j < s.len() ==> s[i].0 <= s[j].0
}

proof fn lemma_insert_node_ascending(s: Seq<NodeView>, x: NodeView, bound: u32)
    requires
        ascending_ids(s),
        forall|i: int| 0 <= i < s.len() ==> s[i].0 <= bound,
        x.0 <= bound,
    ensures
        ascending_ids(insert_node(s, x)),
        insert_node(s, x).len() == s.len() + 1,
        forall|i: int| 0 <= i < insert_node(s, x).len() ==> insert_node(s, x)[i].0 <= bound,
    decreases s.len(),
{
    if s.len() > 0 && x.0 < s.last().0 {
        let last = s.last();
        lemma_insert_node_ascending(s.drop_last(), x, last.0);
    }
}

proof fn lemma_sort_nodes_ascending(s: Seq<NodeView>)
    ensures
        ascending_ids(sort_nodes(s)),
        sort_nodes(s).len() == s.len(),
    decreases s.len(),
{
    if s.len() > 0 {
        lemma_sort_nodes_ascending(s.drop_last());
        lemma_insert_node_ascending(sort_nodes(s.drop_last()), s.last(), u32::MAX);
    }
}

/// The playback streams of a process come in ascending node id, one for each
/// stream node that the process owns.
pub proof fn lemma_output_streams_ascending(nodes: Seq<NodeView>, pids: Seq<(u32, u32)>, pid: u32)
    ensures
        ascending_ids(output_streams(nodes, pids, pid)),
        output_streams(nodes, pids, pid).len() == nodes.filter(|n: NodeView| streams_for(n, pids, pid)).len(),
{
    lemma_sort_nodes_ascending(nodes.filter(|n: NodeView| streams_for(n, pids, pid)));
}

} // verus!
