use vstd::prelude::*;
use crate::evidence::contains_string;
use crate::threat::strings_view;
use crate::value::{DataMap, ValueModel};

verus! {

/// How two graph nodes are related.
#[derive(Debug, Clone, Copy, PartialEq, Eq, Hash, Structural)]
pub enum EdgeType {
    Spawned,
    Opened,
    Connected,
    Loaded,
    Modified,
    Created,
    Deleted,
    Executes,
    Owns,
    Inherits,
}

impl EdgeType {
    /// The lower-case name of the edge type.
    pub open spec fn name(self) -> Seq<char> {
        match self {
            EdgeType::Spawned => "spawned"@,
            EdgeType::Opened => "opened"@,
            EdgeType::Connected => "connected"@,
            EdgeType::Loaded => "loaded"@,
            EdgeType::Modified => "modified"@,
            EdgeType::Created => "created"@,
            EdgeType::Deleted => "deleted"@,
            EdgeType::Executes => "executes"@,
            EdgeType::Owns => "owns"@,
            EdgeType::Inherits => "inherits"@,
        }
    }

    pub fn as_str(&self) -> (s: &'static str)
        ensures
            s@ == self.name(),
    {
        match self {
            EdgeType::Spawned => "spawned",
            EdgeType::Opened => "opened",
            EdgeType::Connected => "connected",
            EdgeType::Loaded => "loaded",
            EdgeType::Modified => "modified",
            EdgeType::Created => "created",
            EdgeType::Deleted => "deleted",
            EdgeType::Executes => "executes",
            EdgeType::Owns => "owns",
            EdgeType::Inherits => "inherits",
        }
    }
}

/// A node of the graph.
pub struct GraphNode {
    pub id: String,
    pub label: String,
    pub node_type: String,
    pub properties: DataMap,
}

/// The mathematical content of a [`GraphNode`].
pub struct NodeModel {
    pub id: Seq<char>,
    pub label: Seq<char>,
    pub node_type: Seq<char>,
    pub properties: Seq<(Seq<char>, ValueModel)>,
}

impl View for GraphNode {
    type V = NodeModel;

    open spec fn view(&self) -> NodeModel {
        NodeModel { id: self.id@, label: self.label@, node_type: self.node_type@, properties: self.properties@ }
    }
}

/// A directed edge of the graph.
pub struct GraphEdge {
    pub source: String,
    pub target: String,
    pub edge_type: EdgeType,
    pub properties: DataMap,
}

/// The mathematical content of a [`GraphEdge`].
pub struct EdgeModel {
    pub source: Seq<char>,
    pub target: Seq<char>,
    pub edge_type: EdgeType,
    pub properties: Seq<(Seq<char>, ValueModel)>,
}

impl View for GraphEdge {
    type V = EdgeModel;

    open spec fn view(&self) -> EdgeModel {
        EdgeModel { source: self.source@, target: self.target@, edge_type: self.edge_type, properties: self.properties@ }
    }
}

/// A path: its nodes and, for each step, the source, type and target of
/// the edge taken.
pub struct GraphPath {
    pub nodes: Vec<String>,
    pub edges: Vec<(String, EdgeType, String)>,
}

/// The mathematical content of a [`GraphPath`].
pub struct PathModel {
    pub nodes: Seq<Seq<char>>,
    pub edges: Seq<(Seq<char>, EdgeType, Seq<char>)>,
}

/// The views of the steps of a path.
pub open spec fn steps_view(v: Seq<(String, EdgeType, String)>) -> Seq<(Seq<char>, EdgeType, Seq<char>)> {
    Seq::new(v.len(), |i: int| (v[i].0@, v[i].1, v[i].2@))
}

impl View for GraphPath {
    type V = PathModel;

    open spec fn view(&self) -> PathModel {
        PathModel { nodes: strings_view(self.nodes@), edges: steps_view(self.edges@) }
    }
}

/// The views of a sequence of nodes.
pub open spec fn nodes_view(v: Seq<GraphNode>) -> Seq<NodeModel> {
    Seq::new(v.len(), |i: int| v[i]@)
}

/// The views of a sequence of edges.
pub open spec fn edges_view(v: Seq<GraphEdge>) -> Seq<EdgeModel> {
    Seq::new(v.len(), |i: int| v[i]@)
}

/// The views of a sequence of paths.
pub open spec fn paths_view(v: Seq<GraphPath>) -> Seq<PathModel> {
    Seq::new(v.len(), |i: int| v[i]@)
}

/// Node ids are pairwise distinct.
pub open spec fn ids_distinct(ns: Seq<NodeModel>) -> bool {
    forall|i: int, j: int| 0 <= i < ns.len() && 0 <= j < ns.len() && i != j ==> ns[i].id != ns[j].id
}

/// Whether the graph has an edge `source -[t]-> target`.
pub open spec fn has_edge(es: Seq<EdgeModel>, source: Seq<char>, t: EdgeType, target: Seq<char>) -> bool {
    exists|k: int| 0 <= k < es.len() && es[k].source == source && es[k].edge_type == t && es[k].target == target
}

/// `p` is a path of the graph from `start` to `end` that visits no node
/// twice and takes at most `max_depth` edges.
pub open spec fn valid_path(es: Seq<EdgeModel>, start: Seq<char>, end: Seq<char>, max_depth: int, p: PathModel) -> bool {
    &&& p.nodes.len() == p.edges.len() + 1
    &&& p.nodes[0] == start
    &&& p.nodes.last() == end
    &&& p.nodes.len() <= max_depth + 1
    &&& p.nodes.no_duplicates()
    &&& forall|k: int| 0 <= k < p.edges.len() ==> {
        &&& (#[trigger] p.edges[k]).0 == p.nodes[k]
        &&& p.edges[k].2 == p.nodes[k + 1]
        &&& has_edge(es, p.nodes[k], p.edges[k].1, p.nodes[k + 1])
    }
}

/// Whether path `p` begins with the nodes `pv` followed by `c`, and with
/// the steps `ev`.
pub open spec fn extends(p: PathModel, pv: Seq<Seq<char>>, ev: Seq<(Seq<char>, EdgeType, Seq<char>)>, c: Seq<char>) -> bool {
    &&& p.nodes.len() > pv.len()
    &&& p.nodes.take(pv.len() as int) == pv
    &&& p.nodes[pv.len() as int] == c
    &&& p.edges.len() >= ev.len()
    &&& p.edges.take(ev.len() as int) == ev
}

/// Whether `p` is a valid path that continues the search from `c` (reached
/// along `pv` and `ev`) over edge `ei` to a node not yet visited.
pub open spec fn child_path(es: Seq<EdgeModel>, start: Seq<char>, end: Seq<char>, max_depth: int,
    pv: Seq<Seq<char>>, ev: Seq<(Seq<char>, EdgeType, Seq<char>)>, c: Seq<char>, ei: int, p: PathModel) -> bool {
    &&& !pv.push(c).contains(es[ei].target)
    &&& valid_path(es, start, end, max_depth, p)
    &&& extends(p, pv.push(c), ev.push((c, es[ei].edge_type, es[ei].target)), es[ei].target)
}

/// The step an edge makes: its source, type and target.
pub open spec fn edge_step(e: EdgeModel) -> (Seq<char>, EdgeType, Seq<char>) {
    (e.source, e.edge_type, e.target)
}

/// No two edges make the same step.
pub open spec fn edges_distinct(es: Seq<EdgeModel>) -> bool {
    forall|a: int, b: int| 0 <= a < es.len() && 0 <= b < es.len() && a != b ==> edge_step(es[a]) != edge_step(es[b])
}

/// Positions `k < n` of the edges whose source (`outgoing`) or target is `id`.
pub open spec fn incident_prefix(es: Seq<EdgeModel>, id: Seq<char>, outgoing: bool, n: int) -> Seq<int>
    decreases n,
{
    if n <= 0 {
        Seq::empty()
    } else if (if outgoing { es[n - 1].source } else { es[n - 1].target }) == id {
        incident_prefix(es, id, outgoing, n - 1).push(n - 1)
    } else {
        incident_prefix(es, id, outgoing, n - 1)
    }
}

/// The views of the referenced edges.
pub open spec fn edge_refs_view(v: Seq<&GraphEdge>) -> Seq<EdgeModel> {
    Seq::new(v.len(), |i: int| v[i]@)
}

/// The views of the referenced nodes.
pub open spec fn node_refs_view(v: Seq<&GraphNode>) -> Seq<NodeModel> {
    Seq::new(v.len(), |i: int| v[i]@)
}

/// Position of the node with id `id`, if any.
pub open spec fn node_index(ns: Seq<NodeModel>, id: Seq<char>) -> Option<int> {
    if exists|i: int| 0 <= i < ns.len() && ns[i].id == id {
        Some(choose|i: int| 0 <= i < ns.len() && ns[i].id == id)
    } else {
        None
    }
}

/// The neighbours reached by the first `n` outgoing edges of `id` (listed
/// by `out`), skipping edges whose target is not a node.
pub open spec fn neighbors_prefix(ns: Seq<NodeModel>, es: Seq<EdgeModel>, out: Seq<int>, n: int) -> Seq<NodeModel>
    decreases n,
{
    if n <= 0 {
        Seq::empty()
    } else {
        let prev = neighbors_prefix(ns, es, out, n - 1);
        match node_index(ns, es[out[n - 1]].target) {
            Some(i) => prev.push(ns[i]),
            None => prev,
        }
    }
}

/// An in-memory directed graph of nodes keyed by id.
pub struct InMemoryGraph {
    nodes: Vec<GraphNode>,
    edges: Vec<GraphEdge>,
}

impl InMemoryGraph {
    #[verifier::type_invariant]
    closed spec fn inv(self) -> bool {
        ids_distinct(nodes_view(self.nodes@))
    }

    /// The nodes, in the order of their first insertion.
    pub closed spec fn node_models(&self) -> Seq<NodeModel> {
        nodes_view(self.nodes@)
    }

    /// The edges, in insertion order.
    pub closed spec fn edge_models(&self) -> Seq<EdgeModel> {
        edges_view(self.edges@)
    }

    pub fn new() -> (g: InMemoryGraph)
        ensures
            g.node_models().len() == 0,
            g.edge_models().len() == 0,
    {
        InMemoryGraph { nodes: Vec::new(), edges: Vec::new() }
    }

    fn find_node(&self, id: &str) -> (r: Option<usize>)
        ensures
            r matches Some(i) ==> i < self.node_models().len() && self.node_models()[i as int].id == id@,
            r is None ==> forall|i: int| 0 <= i < self.node_models().len() ==> self.node_models()[i].id != id@,
    {
        let k = id.to_owned();
        let mut i: usize = 0;
        while i < self.nodes.len()
            invariant
                i <= self.nodes.len(),
                k@ == id@,
                forall|j: int| 0 <= j < i ==> self.node_models()[j].id != id@,
            decreases self.nodes.len() - i,
        {
            if self.nodes[i].id == k {
                return Some(i);
            }
            i += 1;
        }
        None
    }

    /// Adds a node; a node with the same id is replaced in place.
    pub fn add_node(&mut self, node: GraphNode)
        ensures
            final(self).edge_models() == old(self).edge_models(),
            forall|i: int| 0 <= i < old(self).node_models().len() && old(self).node_models()[i].id == node.id@
                ==> final(self).node_models() == old(self).node_models().update(i, node@),
            (forall|i: int| 0 <= i < old(self).node_models().len() ==> old(self).node_models()[i].id != node.id@)
                ==> final(self).node_models() == old(self).node_models().push(node@),
    {
        proof {
            use_type_invariant(&*self);
        }
        let ghost old_nodes = self.node_models();
        match self.find_node(node.id.as_str()) {
            Some(i) => {
                let mut nodes: Vec<GraphNode> = Vec::new();
                std::mem::swap(&mut nodes, &mut self.nodes);
                let ghost nv = node@;
                nodes.set(i, node);
                assert(nodes_view(nodes@) =~= old_nodes.update(i as int, nv));
                self.nodes = nodes;
            },
            None => {
                let mut nodes: Vec<GraphNode> = Vec::new();
                std::mem::swap(&mut nodes, &mut self.nodes);
                let ghost nv = node@;
                nodes.push(node);
                assert(nodes_view(nodes@) =~= old_nodes.push(nv));
                self.nodes = nodes;
            },
        }
    }

    /// Adds an edge at the end of the edge list.
    pub fn add_edge(&mut self, edge: GraphEdge)
        ensures
            final(self).edge_models() == old(self).edge_models().push(edge@),
            final(self).node_models() == old(self).node_models(),
    {
        let ghost before = self.edge_models();
        let ghost ev = edge@;
        proof {
            use_type_invariant(&*self);
        }
        let mut edges: Vec<GraphEdge> = Vec::new();
        std::mem::swap(&mut edges, &mut self.edges);
        edges.push(edge);
        self.edges = edges;
        assert(self.edge_models() =~= before.push(ev));
    }

    /// Adds an edge without properties.
    pub fn connect(&mut self, source_id: &str, target_id: &str, edge_type: EdgeType)
        ensures
            final(self).edge_models() == old(self).edge_models().push(EdgeModel {
                source: source_id@,
                target: target_id@,
                edge_type,
                properties: Seq::empty(),
            }),
            final(self).node_models() == old(self).node_models(),
    {
        self.add_edge(GraphEdge {
            source: source_id.to_owned(),
            target: target_id.to_owned(),
            edge_type,
            properties: DataMap::new(),
        });
    }

    /// The node with id `id`.
    pub fn get_node(&self, id: &str) -> (r: Option<&GraphNode>)
        ensures
            r matches Some(n) ==> node_index(self.node_models(), id@) matches Some(i)
                && self.node_models()[i] == n@,
            r is None ==> node_index(self.node_models(), id@) is None,
    {
        proof {
            use_type_invariant(self);
        }
        match self.find_node(id) {
            Some(i) => {
                proof {
                    let c = choose|j: int| 0 <= j < self.node_models().len() && self.node_models()[j].id == id@;
                    assert(c == i);
                }
                Some(&self.nodes[i])
            },
            None => None,
        }
    }

    fn incident(&self, id: &str, outgoing: bool) -> (r: Vec<usize>)
        ensures
            r@.len() == incident_prefix(self.edge_models(), id@, outgoing, self.edge_models().len() as int).len(),
            forall|k: int| 0 <= k < r@.len() ==> r@[k] as int
                == incident_prefix(self.edge_models(), id@, outgoing, self.edge_models().len() as int)[k],
            forall|k: int| 0 <= k < r@.len() ==> r@[k] < self.edges@.len(),
    {
        let key = id.to_owned();
        let mut r: Vec<usize> = Vec::new();
        let mut i: usize = 0;
        while i < self.edges.len()
            invariant
                i <= self.edges.len(),
                key@ == id@,
                r@.len() == incident_prefix(self.edge_models(), id@, outgoing, i as int).len(),
                forall|k: int| 0 <= k < r@.len() ==> r@[k] as int == incident_prefix(self.edge_models(), id@, outgoing, i as int)[k],
                forall|k: int| 0 <= k < r@.len() ==> r@[k] < i,
            decreases self.edges.len() - i,
        {
            let hit = if outgoing { self.edges[i].source == key } else { self.edges[i].target == key };
            if hit {
                r.push(i);
            }
            i += 1;
        }
        r
    }

    /// The edges leaving `id`, in insertion order.
    pub fn get_edges_from(&self, id: &str) -> (r: Vec<&GraphEdge>)
        ensures
            edge_refs_view(r@) == Seq::new(
                incident_prefix(self.edge_models(), id@, true, self.edge_models().len() as int).len(),
                |k: int| self.edge_models()[incident_prefix(self.edge_models(), id@, true, self.edge_models().len() as int)[k]]),
    {
        let idx = self.incident(id, true);
        let mut r: Vec<&GraphEdge> = Vec::new();
        let mut k: usize = 0;
        while k < idx.len()
            invariant
                k <= idx@.len(),
                forall|j: int| 0 <= j < idx@.len() ==> idx@[j] < self.edges@.len(),
                r@.len() == k,
                forall|j: int| 0 <= j < k ==> r@[j]@ == self.edge_models()[idx@[j] as int],
            decreases idx.len() - k,
        {
            r.push(&self.edges[idx[k]]);
            k += 1;
        }
        assert(edge_refs_view(r@) =~= Seq::new(
            incident_prefix(self.edge_models(), id@, true, self.edge_models().len() as int).len(),
            |k: int| self.edge_models()[incident_prefix(self.edge_models(), id@, true, self.edge_models().len() as int)[k]]));
        r
    }

    /// The edges entering `id`, in insertion order.
    pub fn get_edges_to(&self, id: &str) -> (r: Vec<&GraphEdge>)
        ensures
            edge_refs_view(r@) == Seq::new(
                incident_prefix(self.edge_models(), id@, false, self.edge_models().len() as int).len(),
                |k: int| self.edge_models()[incident_prefix(self.edge_models(), id@, false, self.edge_models().len() as int)[k]]),
    {
        let idx = self.incident(id, false);
        let mut r: Vec<&GraphEdge> = Vec::new();
        let mut k: usize = 0;
        while k < idx.len()
            invariant
                k <= idx@.len(),
                forall|j: int| 0 <= j < idx@.len() ==> idx@[j] < self.edges@.len(),
                r@.len() == k,
                forall|j: int| 0 <= j < k ==> r@[j]@ == self.edge_models()[idx@[j] as int],
            decreases idx.len() - k,
        {
            r.push(&self.edges[idx[k]]);
            k += 1;
        }
        assert(edge_refs_view(r@) =~= Seq::new(
            incident_prefix(self.edge_models(), id@, false, self.edge_models().len() as int).len(),
            |k: int| self.edge_models()[incident_prefix(self.edge_models(), id@, false, self.edge_models().len() as int)[k]]));
        r
    }

    /// The nodes that the edges leaving `id` lead to, in edge order; an edge
    /// whose target is no node is skipped.
    pub fn get_neighbors(&self, id: &str) -> (r: Vec<&GraphNode>)
        ensures
            node_refs_view(r@) == neighbors_prefix(self.node_models(), self.edge_models(),
                incident_prefix(self.edge_models(), id@, true, self.edge_models().len() as int),
                incident_prefix(self.edge_models(), id@, true, self.edge_models().len() as int).len() as int),
    {
        let idx = self.incident(id, true);
        let ghost out = incident_prefix(self.edge_models(), id@, true, self.edge_models().len() as int);
        let mut r: Vec<&GraphNode> = Vec::new();
        let mut k: usize = 0;
        while k < idx.len()
            invariant
                k <= idx@.len(),
                idx@.len() == out.len(),
                forall|j: int| 0 <= j < idx@.len() ==> idx@[j] as int == out[j],
                forall|j: int| 0 <= j < idx@.len() ==> idx@[j] < self.edges@.len(),
                node_refs_view(r@) == neighbors_prefix(self.node_models(), self.edge_models(), out, k as int),
            decreases idx.len() - k,
        {
            let ghost before = node_refs_view(r@);
            match self.get_node(self.edges[idx[k]].target.as_str()) {
                Some(n) => {
                    r.push(n);
                    assert(node_refs_view(r@) =~= before.push(n@));
                },
                None => {},
            }
            k += 1;
        }
        r
    }

    /// Continues a depth-first search from `current`, reached along
    /// `path_nodes` and `path_edges`, appending every path found to `out`.
    #[verifier::spinoff_prover]
    #[verifier::rlimit(40)]
    fn explore(&self, current: &String, end: &str, max_depth: usize,
        path_nodes: &Vec<String>, path_edges: &Vec<(String, EdgeType, String)>,
        out: &mut Vec<GraphPath>, Ghost(start): Ghost<Seq<char>>)
        requires
            path_nodes@.len() <= max_depth,
            strings_view(path_nodes@).no_duplicates(),
            path_nodes@.len() == path_edges@.len(),
            path_nodes@.len() == 0 ==> current@ == start,
            path_nodes@.len() > 0 ==> path_nodes@[0]@ == start,
            forall|k: int| 0 <= k < path_edges@.len() ==> {
                &&& (#[trigger] path_edges@[k]).0@ == path_nodes@[k]@
                &&& path_edges@[k].2@ == (if k + 1 < path_nodes@.len() { path_nodes@[k + 1]@ } else { current@ })
                &&& has_edge(self.edge_models(), path_edges@[k].0@, path_edges@[k].1, path_edges@[k].2@)
            },
            forall|k: int| 0 <= k < path_nodes@.len() ==> path_nodes@[k]@ != end@,
            forall|k: int| 0 <= k < old(out)@.len() ==> valid_path(self.edge_models(), start, end@, max_depth as int, #[trigger] old(out)@[k]@),
        ensures
            forall|k: int| 0 <= k < final(out)@.len() ==> valid_path(self.edge_models(), start, end@, max_depth as int, #[trigger] final(out)@[k]@),
            final(out)@.len() >= old(out)@.len(),
            forall|k: int| 0 <= k < old(out)@.len() ==> final(out)@[k]@ == old(out)@[k]@,
            forall|p: PathModel| #[trigger] paths_view(final(out)@).contains(p) <==> (paths_view(old(out)@).contains(p)
                || (valid_path(self.edge_models(), start, end@, max_depth as int, p)
                    && extends(p, strings_view(path_nodes@), steps_view(path_edges@), current@))),
            forall|m: int| old(out)@.len() <= m < final(out)@.len() ==>
                extends(#[trigger] final(out)@[m]@, strings_view(path_nodes@), steps_view(path_edges@), current@),
            edges_distinct(self.edge_models()) ==>
                paths_view(final(out)@).subrange(old(out)@.len() as int, final(out)@.len() as int).no_duplicates(),
        decreases max_depth - path_nodes@.len(),
    {
        if crate::text::str_eq(current.as_str(), end) {
            let mut nodes = crate::threat::duplicate_strings(path_nodes);
            nodes.push(current.clone());
            let mut edges: Vec<(String, EdgeType, String)> = Vec::new();
            let mut k: usize = 0;
            while k < path_edges.len()
                invariant
                    k <= path_edges@.len(),
                    edges@.len() == k,
                    forall|j: int| 0 <= j < k ==> (edges@[j].0@, edges@[j].1, edges@[j].2@)
                        == (path_edges@[j].0@, path_edges@[j].1, path_edges@[j].2@),
                decreases path_edges.len() - k,
            {
                edges.push((path_edges[k].0.clone(), path_edges[k].1, path_edges[k].2.clone()));
                k += 1;
            }
            let p = GraphPath { nodes, edges };
            proof {
                let pv = p@;
                assert(pv.nodes =~= strings_view(path_nodes@).push(current@));
                assert forall|a: int, b: int| 0 <= a < b < pv.nodes.len() implies pv.nodes[a] != pv.nodes[b] by {
                    if b == pv.nodes.len() - 1 {
                        assert(pv.nodes[a] == path_nodes@[a]@);
                    }
                }
                assert forall|k: int| 0 <= k < pv.edges.len() implies {
                    &&& (#[trigger] pv.edges[k]).0 == pv.nodes[k]
                    &&& pv.edges[k].2 == pv.nodes[k + 1]
                    &&& has_edge(self.edge_models(), pv.nodes[k], pv.edges[k].1, pv.nodes[k + 1])
                } by {
                    assert(pv.edges[k] == (path_edges@[k].0@, path_edges@[k].1, path_edges@[k].2@));
                }
                if path_nodes@.len() > 0 {
                    assert(pv.nodes[0] == path_nodes@[0]@);
                }
                assert(pv.edges =~= steps_view(path_edges@));
            }
            let ghost before = paths_view(out@);
            let ghost pm = p@;
            out.push(p);
            proof {
                assert(paths_view(out@) =~= before.push(pm));
                assert forall|q: PathModel| #[trigger] paths_view(out@).contains(q) <==> (before.contains(q)
                    || (valid_path(self.edge_models(), start, end@, max_depth as int, q)
                        && extends(q, strings_view(path_nodes@), steps_view(path_edges@), current@))) by {
                    lemma_push_contains(before, pm, q);
                    lemma_end_path(self.edge_models(), start, end@, max_depth as int, strings_view(path_nodes@),
                        steps_view(path_edges@), q, pm);
                }
                lemma_end_path(self.edge_models(), start, end@, max_depth as int, strings_view(path_nodes@),
                    steps_view(path_edges@), pm, pm);
                assert(out@[before.len() as int]@ == pm);
                assert(paths_view(out@).subrange(before.len() as int, out@.len() as int) =~= seq![pm]);
            }
            return;
        }
        if path_nodes.len() >= max_depth {
            proof {
                assert forall|q: PathModel| !(valid_path(self.edge_models(), start, end@, max_depth as int, q)
                    && #[trigger] extends(q, strings_view(path_nodes@), steps_view(path_edges@), current@)) by {
                    lemma_no_path_past(self.edge_models(), start, end@, max_depth as int, strings_view(path_nodes@),
                        steps_view(path_edges@), current@, q);
                }
                assert(paths_view(out@).subrange(out@.len() as int, out@.len() as int) =~= Seq::<PathModel>::empty());
            }
            return;
        }
        if contains_string(path_nodes, current.as_str()) {
            proof {
                assert forall|q: PathModel| !(valid_path(self.edge_models(), start, end@, max_depth as int, q)
                    && #[trigger] extends(q, strings_view(path_nodes@), steps_view(path_edges@), current@)) by {
                    lemma_no_path_past(self.edge_models(), start, end@, max_depth as int, strings_view(path_nodes@),
                        steps_view(path_edges@), current@, q);
                }
                assert(paths_view(out@).subrange(out@.len() as int, out@.len() as int) =~= Seq::<PathModel>::empty());
            }
            return;
        }
        let mut nodes = crate::threat::duplicate_strings(path_nodes);
        nodes.push(current.clone());
        assert(strings_view(nodes@) =~= strings_view(path_nodes@).push(current@));
        let idx = self.incident(current.as_str(), true);
        let ghost es = self.edge_models();
        let ghost inc = incident_prefix(es, current@, true, es.len() as int);
        let ghost pv = strings_view(path_nodes@);
        let ghost ev = steps_view(path_edges@);
        let ghost start_out = paths_view(out@);
        let mut k: usize = idx.len();
        while k > 0
            invariant
                k <= idx@.len(),
                es == self.edge_models(),
                inc == incident_prefix(es, current@, true, es.len() as int),
                pv == strings_view(path_nodes@),
                ev == steps_view(path_edges@),
                start_out == paths_view(old(out)@),
                forall|p: PathModel| #[trigger] paths_view(out@).contains(p) <==> (start_out.contains(p)
                    || exists|j: int| k <= j < inc.len() && #[trigger] child_path(es, start, end@, max_depth as int, pv, ev, current@, inc[j], p)),
                forall|j: int| 0 <= j < idx@.len() ==> idx@[j] < self.edges@.len(),
                forall|j: int| 0 <= j < idx@.len() ==> idx@[j] as int
                    == incident_prefix(self.edge_models(), current@, true, self.edge_models().len() as int)[j],
                idx@.len() == incident_prefix(self.edge_models(), current@, true, self.edge_models().len() as int).len(),
                strings_view(nodes@) == strings_view(path_nodes@).push(current@),
                nodes@.len() <= max_depth,
                path_nodes@.len() < max_depth,
                !strings_view(path_nodes@).contains(current@),
                strings_view(path_nodes@).no_duplicates(),
                current@ != end@,
                path_nodes@.len() == path_edges@.len(),
                path_nodes@.len() == 0 ==> current@ == start,
                path_nodes@.len() > 0 ==> path_nodes@[0]@ == start,
                forall|k: int| 0 <= k < path_edges@.len() ==> {
                    &&& (#[trigger] path_edges@[k]).0@ == path_nodes@[k]@
                    &&& path_edges@[k].2@ == (if k + 1 < path_nodes@.len() { path_nodes@[k + 1]@ } else { current@ })
                    &&& has_edge(self.edge_models(), path_edges@[k].0@, path_edges@[k].1, path_edges@[k].2@)
                },
                forall|k: int| 0 <= k < path_nodes@.len() ==> path_nodes@[k]@ != end@,
                forall|k: int| 0 <= k < out@.len() ==> valid_path(self.edge_models(), start, end@, max_depth as int, #[trigger] out@[k]@),
                out@.len() >= old(out)@.len(),
                forall|j: int| 0 <= j < old(out)@.len() ==> out@[j]@ == old(out)@[j]@,
                forall|m: int| old(out)@.len() <= m < out@.len() ==>
                    extends(#[trigger] out@[m]@, pv, ev, current@) && out@[m]@.edges.len() > ev.len(),
                edges_distinct(es) ==> forall|m: int, j: int| #![trigger out@[m], inc[j]]
                    old(out)@.len() <= m < out@.len() && 0 <= j < k ==> out@[m]@.edges[ev.len() as int] != edge_step(es[inc[j]]),
                edges_distinct(es) ==> paths_view(out@).subrange(old(out)@.len() as int, out@.len() as int).no_duplicates(),
            decreases k,
        {
            let ghost out_before = paths_view(out@);
            let ghost k_old = k;
            k -= 1;
            let e = &self.edges[idx[k]];
            assert(es[inc[k as int]] == e@);
            if !contains_string(&nodes, e.target.as_str()) {
                let mut edges: Vec<(String, EdgeType, String)> = Vec::new();
                let mut q: usize = 0;
                while q < path_edges.len()
                    invariant
                        q <= path_edges@.len(),
                        edges@.len() == q,
                        forall|j: int| 0 <= j < q ==> (edges@[j].0@, edges@[j].1, edges@[j].2@)
                            == (path_edges@[j].0@, path_edges@[j].1, path_edges@[j].2@),
                    decreases path_edges.len() - q,
                {
                    edges.push((path_edges[q].0.clone(), path_edges[q].1, path_edges[q].2.clone()));
                    q += 1;
                }
                edges.push((current.clone(), e.edge_type, e.target.clone()));
                proof {
                    lemma_incident_source(self.edge_models(), current@, self.edge_models().len() as int, k as int);
                    let ek = incident_prefix(self.edge_models(), current@, true, self.edge_models().len() as int)[k as int];
                    assert(has_edge(self.edge_models(), current@, e.edge_type, e.target@)) by {
                        assert(self.edge_models()[ek] == e@);
                    }
                    let sv = strings_view(nodes@);
                    let psv = strings_view(path_nodes@);
                    assert forall|j: int| 0 <= j < path_nodes@.len() implies #[trigger] nodes@[j]@ == path_nodes@[j]@ by {
                        assert(sv[j] == psv[j]);
                    }
                    assert(nodes@[path_nodes@.len() as int]@ == current@) by {
                        assert(sv[path_nodes@.len() as int] == current@);
                    }
                    assert(sv.no_duplicates()) by {
                        assert forall|a: int, b: int| 0 <= a < b < sv.len() implies sv[a] != sv[b] by {
                            if b == sv.len() - 1 {
                                assert(sv[a] == psv[a]);
                                assert(psv.contains(psv[a]));
                            } else {
                                assert(sv[a] == psv[a]);
                                assert(sv[b] == psv[b]);
                            }
                        }
                    }
                    assert forall|j: int| 0 <= j < nodes@.len() implies nodes@[j]@ != end@ by {
                        if j < path_nodes@.len() {
                            assert(nodes@[j]@ == path_nodes@[j]@);
                        } else {
                            assert(nodes@[j]@ == current@);
                        }
                    }
                    assert forall|j: int| 0 <= j < edges@.len() implies {
                        &&& (#[trigger] edges@[j]).0@ == nodes@[j]@
                        &&& edges@[j].2@ == (if j + 1 < nodes@.len() { nodes@[j + 1]@ } else { e.target@ })
                        &&& has_edge(self.edge_models(), edges@[j].0@, edges@[j].1, edges@[j].2@)
                    } by {
                        if j < path_edges@.len() {
                            assert(nodes@[j]@ == path_nodes@[j]@);
                            if j + 1 < path_nodes@.len() {
                                assert(nodes@[j + 1]@ == path_nodes@[j + 1]@);
                            } else {
                                assert(nodes@[j + 1]@ == current@);
                            }
                        } else {
                            assert(nodes@[j]@ == current@);
                        }
                    }
                    if path_nodes@.len() > 0 {
                        assert(nodes@[0]@ == path_nodes@[0]@);
                    } else {
                        assert(nodes@[0]@ == current@);
                    }
                }
                let ghost step = (current@, e.edge_type, e.target@);
                assert(steps_view(edges@) =~= ev.push(step));
                let ghost mid = out@.len() as int;
                let ghost seg_before = paths_view(out@);
                self.explore(&e.target, end, max_depth, &nodes, &edges, out, Ghost(start));
                proof {
                    lemma_incident_source(es, current@, es.len() as int, k as int);
                    assert(step == edge_step(es[inc[k as int]]));
                    assert forall|m: int| mid <= m < out@.len() implies
                        extends(#[trigger] out@[m]@, pv, ev, current@) && out@[m]@.edges.len() > ev.len()
                        && out@[m]@.edges[ev.len() as int] == step by {
                        lemma_extends_shorter(out@[m]@, pv, ev, current@, step, e.target@);
                    }
                    assert forall|m: int| old(out)@.len() <= m < mid implies #[trigger] out@[m]@ == seg_before[m] by {
                        assert(out@[m]@ == paths_view(out@)[m]);
                    }
                    if edges_distinct(es) {
                        assert forall|m: int, j: int| #![trigger out@[m], inc[j]]
                            old(out)@.len() <= m < out@.len() && 0 <= j < k implies out@[m]@.edges[ev.len() as int] != edge_step(es[inc[j]]) by {
                            lemma_incident_distinct(es, current@, es.len() as int, j, k as int);
                            lemma_incident_source(es, current@, es.len() as int, j);
                            if m < mid {
                                assert(k_old == k + 1);
                            }
                        }
                        lemma_segment_join(paths_view(out@), old(out)@.len() as int, mid, out@.len() as int, ev.len() as int, step, seg_before);
                    }
                }
                proof {
                    assert forall|p: PathModel| #[trigger] paths_view(out@).contains(p) <==> (start_out.contains(p)
                        || exists|j: int| k <= j < inc.len() && #[trigger] child_path(es, start, end@, max_depth as int, pv, ev, current@, inc[j], p)) by {
                        if child_path(es, start, end@, max_depth as int, pv, ev, current@, inc[k as int], p) {
                            assert(k <= k < inc.len());
                        }
                        if exists|j: int| k <= j < inc.len() && #[trigger] child_path(es, start, end@, max_depth as int, pv, ev, current@, inc[j], p) {
                            let j = choose|j: int| k <= j < inc.len() && #[trigger] child_path(es, start, end@, max_depth as int, pv, ev, current@, inc[j], p);
                            if j > k {
                                assert(k_old <= j < inc.len());
                            }
                        }
                    }
                }
            } else {
                proof {
                    assert forall|p: PathModel| #[trigger] paths_view(out@).contains(p) <==> (start_out.contains(p)
                        || exists|j: int| k <= j < inc.len() && #[trigger] child_path(es, start, end@, max_depth as int, pv, ev, current@, inc[j], p)) by {
                        if exists|j: int| k <= j < inc.len() && #[trigger] child_path(es, start, end@, max_depth as int, pv, ev, current@, inc[j], p) {
                            let j = choose|j: int| k <= j < inc.len() && #[trigger] child_path(es, start, end@, max_depth as int, pv, ev, current@, inc[j], p);
                            if j == k {
                                assert(pv.push(current@).contains(e.target@));
                            } else {
                                assert(k_old <= j < inc.len());
                            }
                        }
                    }
                }
            }
        }
        proof {
            assert forall|p: PathModel| #[trigger] paths_view(out@).contains(p) <==> (start_out.contains(p)
                || (valid_path(es, start, end@, max_depth as int, p) && extends(p, pv, ev, current@))) by {
                if exists|j: int| 0 <= j < inc.len() && #[trigger] child_path(es, start, end@, max_depth as int, pv, ev, current@, inc[j], p) {
                    let j = choose|j: int| 0 <= j < inc.len() && #[trigger] child_path(es, start, end@, max_depth as int, pv, ev, current@, inc[j], p);
                    lemma_child_extends(es, start, end@, max_depth as int, pv, ev, current@, inc[j], p);
                }
                if valid_path(es, start, end@, max_depth as int, p) && extends(p, pv, ev, current@) {
                    lemma_path_continues(es, start, end@, max_depth as int, pv, ev, current@, p);
                }
            }
        }
    }

    /// The paths from `start` to `end` that visit no node twice and take at
    /// most `max_depth` edges, found by a depth-first search that stops at
    /// `end`.  When `start == end` the one path is `[start]`.
    pub fn find_paths(&self, start: &str, end: &str, max_depth: usize) -> (r: Vec<GraphPath>)
        ensures
            forall|k: int| 0 <= k < r@.len() ==> valid_path(self.edge_models(), start@, end@, max_depth as int, #[trigger] r@[k]@),
            forall|p: PathModel| #[trigger] paths_view(r@).contains(p) <==> valid_path(self.edge_models(), start@, end@, max_depth as int, p),
            start@ == end@ ==> paths_view(r@) == seq![PathModel { nodes: seq![start@], edges: Seq::empty() }],
            edges_distinct(self.edge_models()) ==> paths_view(r@).no_duplicates(),
    {
        let mut out: Vec<GraphPath> = Vec::new();
        let s = start.to_owned();
        let path_nodes: Vec<String> = Vec::new();
        let path_edges: Vec<(String, EdgeType, String)> = Vec::new();
        assert(strings_view(path_nodes@) =~= Seq::<Seq<char>>::empty());
        if crate::text::str_eq(start, end) {
            let mut nodes: Vec<String> = Vec::new();
            nodes.push(s);
            let p = GraphPath { nodes, edges: Vec::new() };
            assert(p@.nodes =~= seq![start@]);
            assert(p@.edges =~= Seq::<(Seq<char>, EdgeType, Seq<char>)>::empty());
            out.push(p);
            let ghost only = PathModel { nodes: seq![start@], edges: Seq::empty() };
            assert(paths_view(out@) =~= seq![only]);
            proof {
                assert forall|q: PathModel| #[trigger] paths_view(out@).contains(q) <==> valid_path(self.edge_models(), start@, end@, max_depth as int, q) by {
                    lemma_push_contains(Seq::<PathModel>::empty(), only, q);
                    assert(seq![only] =~= Seq::<PathModel>::empty().push(only));
                    lemma_end_path(self.edge_models(), start@, end@, max_depth as int, Seq::empty(), Seq::empty(), q, only);
                    assert(only.nodes =~= Seq::<Seq<char>>::empty().push(end@));
                    if valid_path(self.edge_models(), start@, end@, max_depth as int, q) {
                        assert(q.nodes.take(0) =~= Seq::<Seq<char>>::empty());
                        assert(q.edges.take(0) =~= Seq::<(Seq<char>, EdgeType, Seq<char>)>::empty());
                    }
                }
            }
            return out;
        }
        assert(paths_view(out@) =~= Seq::<PathModel>::empty());
        assert(steps_view(path_edges@) =~= Seq::<(Seq<char>, EdgeType, Seq<char>)>::empty());
        self.explore(&s, end, max_depth, &path_nodes, &path_edges, &mut out, Ghost(start@));
        assert(paths_view(out@).subrange(0, out@.len() as int) =~= paths_view(out@));
        proof {
            assert forall|q: PathModel| #[trigger] paths_view(out@).contains(q) <==> valid_path(self.edge_models(), start@, end@, max_depth as int, q) by {
                if valid_path(self.edge_models(), start@, end@, max_depth as int, q) {
                    assert(q.nodes.take(0) =~= Seq::<Seq<char>>::empty());
                    assert(q.edges.take(0) =~= Seq::<(Seq<char>, EdgeType, Seq<char>)>::empty());
                }
            }
        }
        out
    }

    /// For each node (in node order), the paths from it back to itself that
    /// have more than two nodes, with consecutive repeated nodes merged.
    /// A search from a node to itself stops at once, so none qualifies.
    pub fn find_cycles(&self, max_length: usize) -> (r: Vec<GraphPath>)
        ensures
            r@.len() == 0,
    {
        let mut cycles: Vec<GraphPath> = Vec::new();
        let mut i: usize = 0;
        while i < self.nodes.len()
            invariant
                i <= self.nodes.len(),
                cycles@.len() == 0,
            decreases self.nodes.len() - i,
        {
            let paths = self.find_paths(self.nodes[i].id.as_str(), self.nodes[i].id.as_str(), max_length);
            let mut k: usize = 0;
            while k < paths.len()
                invariant
                    k <= paths@.len(),
                    i < self.nodes@.len(),
                    paths_view(paths@) == seq![PathModel { nodes: seq![self.nodes@[i as int].id@], edges: Seq::empty() }],
                    cycles@.len() == 0,
                decreases paths.len() - k,
            {
                assert(paths_view(paths@).len() == 1);
                assert(paths@[k as int]@ == paths_view(paths@)[k as int]);
                assert(paths@[k as int]@.nodes.len() == 1);
                assert(paths@[k as int].nodes@.len() == 1);
                if paths[k].nodes.len() > 2 {
                    assert(false);
                }
                k += 1;
            }
            i += 1;
        }
        cycles
    }

    pub fn node_count(&self) -> (n: usize)
        ensures
            n == self.node_models().len(),
    {
        self.nodes.len()
    }

    pub fn edge_count(&self) -> (n: usize)
        ensures
            n == self.edge_models().len(),
    {
        self.edges.len()
    }

    /// The nodes, in the order of their first insertion.
    pub fn nodes(&self) -> (r: &[GraphNode])
        ensures
            nodes_view(r@) == self.node_models(),
    {
        self.nodes.as_slice()
    }

    /// The edges, in insertion order.
    pub fn edges(&self) -> (r: &[GraphEdge])
        ensures
            edges_view(r@) == self.edge_models(),
    {
        self.edges.as_slice()
    }

    pub fn clear(&mut self)
        ensures
            final(self).node_models().len() == 0,
            final(self).edge_models().len() == 0,
    {
        proof {
            use_type_invariant(&*self);
        }
        let mut nodes: Vec<GraphNode> = Vec::new();
        std::mem::swap(&mut nodes, &mut self.nodes);
        let mut edges: Vec<GraphEdge> = Vec::new();
        std::mem::swap(&mut edges, &mut self.edges);
    }
}

proof fn lemma_push_contains<A>(s: Seq<A>, x: A, t: A)
    ensures
        s.push(x).contains(t) <==> (s.contains(t) || t == x),
{
    if s.contains(t) {
        let w = choose|w: int| 0 <= w < s.len() && s[w] == t;
        assert(s.push(x)[w] == t);
    }
    if t == x {
        assert(s.push(x)[s.len() as int] == t);
    }
    if s.push(x).contains(t) && t != x {
        let w = choose|w: int| 0 <= w < s.push(x).len() && s.push(x)[w] == t;
        assert(s[w] == t);
    }
}

/// Once the search reaches the end, the one valid path that continues the
/// way there is that way itself.
proof fn lemma_end_path(es: Seq<EdgeModel>, start: Seq<char>, end: Seq<char>, max_depth: int,
    pv: Seq<Seq<char>>, ev: Seq<(Seq<char>, EdgeType, Seq<char>)>, q: PathModel, pp: PathModel)
    requires
        pv.len() == ev.len(),
        pp.nodes == pv.push(end),
        pp.edges == ev,
        valid_path(es, start, end, max_depth, pp),
    ensures
        (valid_path(es, start, end, max_depth, q) && extends(q, pv, ev, end)) <==> q == pp,
{
    let n = pv.len() as int;
    if q == pp {
        assert(pp.nodes.take(n) =~= pv);
        assert(pp.edges.take(n) =~= ev);
    }
    if valid_path(es, start, end, max_depth, q) && extends(q, pv, ev, end) {
        if q.nodes.len() > n + 1 {
            assert(q.nodes[n] == q.nodes[q.nodes.len() - 1]);
        }
        assert(q.nodes.len() == n + 1);
        assert(q.nodes =~= pv.push(end)) by {
            assert forall|i: int| 0 <= i < n + 1 implies q.nodes[i] == pv.push(end)[i] by {
                if i < n {
                    assert(q.nodes.take(n)[i] == pv[i]);
                }
            }
        }
        assert(q.edges =~= ev) by {
            assert(q.edges.len() == n);
            assert forall|i: int| 0 <= i < n implies q.edges[i] == ev[i] by {
                assert(q.edges.take(n)[i] == ev[i]);
            }
        }
    }
}

/// No valid path continues a way that is too long already, or that
/// reaches a node it visited before (short of the end).
proof fn lemma_no_path_past(es: Seq<EdgeModel>, start: Seq<char>, end: Seq<char>, max_depth: int,
    pv: Seq<Seq<char>>, ev: Seq<(Seq<char>, EdgeType, Seq<char>)>, c: Seq<char>, q: PathModel)
    requires
        c != end,
        pv.len() >= max_depth || pv.contains(c),
    ensures
        !(valid_path(es, start, end, max_depth, q) && extends(q, pv, ev, c)),
{
    let n = pv.len() as int;
    if valid_path(es, start, end, max_depth, q) && extends(q, pv, ev, c) {
        assert(q.nodes.len() > n + 1);
        if pv.contains(c) {
            let i = choose|i: int| 0 <= i < pv.len() && pv[i] == c;
            assert(q.nodes.take(n)[i] == pv[i]);
            assert(q.nodes[i] == q.nodes[n]);
        }
    }
}

/// An edge that leaves `id` is listed among the edges leaving it.
proof fn lemma_incident_member(es: Seq<EdgeModel>, id: Seq<char>, n: int, k: int)
    requires
        0 <= k < n <= es.len(),
        es[k].source == id,
    ensures
        exists|j: int| 0 <= j < incident_prefix(es, id, true, n).len() && incident_prefix(es, id, true, n)[j] == k,
    decreases n,
{
    let prev = incident_prefix(es, id, true, n - 1);
    if k < n - 1 {
        lemma_incident_member(es, id, n - 1, k);
        let j = choose|j: int| 0 <= j < prev.len() && prev[j] == k;
        if es[n - 1].source == id {
            assert(incident_prefix(es, id, true, n) == prev.push(n - 1));
            assert(incident_prefix(es, id, true, n)[j] == k);
        } else {
            assert(incident_prefix(es, id, true, n) == prev);
        }
        assert(0 <= j < incident_prefix(es, id, true, n).len() && incident_prefix(es, id, true, n)[j] == k);
    } else {
        assert(incident_prefix(es, id, true, n) == prev.push(n - 1));
        assert(incident_prefix(es, id, true, n)[prev.len() as int] == k);
    }
}

/// A path through a child of `c` extends the way to `c`.
proof fn lemma_child_extends(es: Seq<EdgeModel>, start: Seq<char>, end: Seq<char>, max_depth: int,
    pv: Seq<Seq<char>>, ev: Seq<(Seq<char>, EdgeType, Seq<char>)>, c: Seq<char>, ei: int, p: PathModel)
    requires
        pv.len() == ev.len(),
        child_path(es, start, end, max_depth, pv, ev, c, ei, p),
    ensures
        valid_path(es, start, end, max_depth, p),
        extends(p, pv, ev, c),
{
    let n = pv.len() as int;
    assert(p.nodes.take(n) =~= p.nodes.take(n + 1).take(n));
    assert(pv.push(c).take(n) =~= pv);
    assert(p.nodes.take(n + 1)[n] == c);
    assert(p.edges.take(n) =~= p.edges.take(n + 1).take(n));
    assert(ev.push((c, es[ei].edge_type, es[ei].target)).take(n) =~= ev);
}

/// A valid path that continues past `c` (which is not the end) does so
/// over one of the edges leaving `c`, to a node not yet visited.
proof fn lemma_path_continues(es: Seq<EdgeModel>, start: Seq<char>, end: Seq<char>, max_depth: int,
    pv: Seq<Seq<char>>, ev: Seq<(Seq<char>, EdgeType, Seq<char>)>, c: Seq<char>, p: PathModel)
    requires
        pv.len() == ev.len(),
        c != end,
        valid_path(es, start, end, max_depth, p),
        extends(p, pv, ev, c),
    ensures
        exists|j: int| 0 <= j < incident_prefix(es, c, true, es.len() as int).len()
            && #[trigger] child_path(es, start, end, max_depth, pv, ev, c, incident_prefix(es, c, true, es.len() as int)[j], p),
{
    let n = pv.len() as int;
    assert(p.nodes.len() > n + 1);
    assert(n < p.edges.len());
    let st = p.edges[n];
    assert(st.0 == p.nodes[n] && st.2 == p.nodes[n + 1]);
    assert(has_edge(es, p.nodes[n], st.1, p.nodes[n + 1]));
    let ek = choose|k: int| 0 <= k < es.len() && es[k].source == p.nodes[n] && es[k].edge_type == st.1 && es[k].target == p.nodes[n + 1];
    lemma_incident_member(es, c, es.len() as int, ek);
    let inc = incident_prefix(es, c, true, es.len() as int);
    let j = choose|j: int| 0 <= j < inc.len() && inc[j] == ek;
    let nxt = p.nodes[n + 1];
    assert(p.nodes.take(n + 1) =~= pv.push(c)) by {
        assert forall|q: int| 0 <= q < n + 1 implies p.nodes.take(n + 1)[q] == pv.push(c)[q] by {
            if q < n {
                assert(p.nodes.take(n)[q] == pv[q]);
            }
        }
    }
    assert(!pv.push(c).contains(nxt)) by {
        if pv.push(c).contains(nxt) {
            let q = choose|q: int| 0 <= q < pv.push(c).len() && pv.push(c)[q] == nxt;
            assert(p.nodes[q] == p.nodes[n + 1]);
        }
    }
    assert(p.edges.take(n + 1) =~= ev.push((c, es[ek].edge_type, es[ek].target))) by {
        assert forall|q: int| 0 <= q < n + 1 implies p.edges.take(n + 1)[q] == ev.push((c, es[ek].edge_type, es[ek].target))[q] by {
            if q < n {
                assert(p.edges.take(n)[q] == ev[q]);
            }
        }
    }
    assert(child_path(es, start, end, max_depth, pv, ev, c, inc[j], p));
}

/// An edge listed as leaving `id` does leave it.
pub proof fn lemma_incident_source(es: Seq<EdgeModel>, id: Seq<char>, n: int, k: int)
    requires
        0 <= n <= es.len(),
        0 <= k < incident_prefix(es, id, true, n).len(),
    ensures
        0 <= incident_prefix(es, id, true, n)[k] < n,
        es[incident_prefix(es, id, true, n)[k]].source == id,
    decreases n,
{
    if n > 0 {
        let prev = incident_prefix(es, id, true, n - 1);
        if es[n - 1].source == id {
            if k < prev.len() {
                lemma_incident_source(es, id, n - 1, k);
            }
        } else {
            lemma_incident_source(es, id, n - 1, k);
        }
    }
}

/// A path that continues the way to `c` through `t` over the step `st`
/// continues the way to `c`, taking `st` next.
proof fn lemma_extends_shorter(p: PathModel, pv: Seq<Seq<char>>, ev: Seq<(Seq<char>, EdgeType, Seq<char>)>,
    c: Seq<char>, st: (Seq<char>, EdgeType, Seq<char>), t: Seq<char>)
    requires
        pv.len() == ev.len(),
        extends(p, pv.push(c), ev.push(st), t),
    ensures
        extends(p, pv, ev, c),
        p.edges.len() > ev.len(),
        p.edges[ev.len() as int] == st,
{
    let n = pv.len() as int;
    assert(p.nodes.take(n) =~= p.nodes.take(n + 1).take(n));
    assert(pv.push(c).take(n) =~= pv);
    assert(p.nodes.take(n + 1)[n] == c);
    assert(p.edges.take(n) =~= p.edges.take(n + 1).take(n));
    assert(ev.push(st).take(n) =~= ev);
    assert(p.edges.take(n + 1)[n] == st);
}

/// The edges listed as leaving `id` are listed once each.
proof fn lemma_incident_distinct(es: Seq<EdgeModel>, id: Seq<char>, n: int, a: int, b: int)
    requires
        0 <= n <= es.len(),
        0 <= a < incident_prefix(es, id, true, n).len(),
        0 <= b < incident_prefix(es, id, true, n).len(),
        a != b,
    ensures
        incident_prefix(es, id, true, n)[a] != incident_prefix(es, id, true, n)[b],
    decreases n,
{
    if n > 0 {
        let prev = incident_prefix(es, id, true, n - 1);
        if es[n - 1].source == id {
            if a < prev.len() && b < prev.len() {
                lemma_incident_distinct(es, id, n - 1, a, b);
            } else if a < prev.len() {
                lemma_incident_source(es, id, n - 1, a);
            } else {
                lemma_incident_source(es, id, n - 1, b);
            }
        } else {
            lemma_incident_distinct(es, id, n - 1, a, b);
        }
    }
}

/// Two runs of paths without repeats, where every path of the first takes
/// a step other than `st` at position `d` and every path of the second
/// takes `st` there, make one run without repeats.
proof fn lemma_segment_join(s: Seq<PathModel>, base: int, mid: int, n: int, d: int,
    st: (Seq<char>, EdgeType, Seq<char>), before: Seq<PathModel>)
    requires
        0 <= base <= mid <= n <= s.len(),
        mid <= before.len(),
        forall|m: int| base <= m < mid ==> #[trigger] s[m] == before[m],
        before.subrange(base, mid).no_duplicates(),
        s.subrange(mid, n).no_duplicates(),
        forall|m: int| base <= m < mid ==> (#[trigger] s[m]).edges.len() > d && s[m].edges[d] != st,
        forall|m: int| mid <= m < n ==> (#[trigger] s[m]).edges.len() > d && s[m].edges[d] == st,
    ensures
        s.subrange(base, n).no_duplicates(),
{
    let r = s.subrange(base, n);
    assert forall|i: int, j: int| 0 <= i < r.len() && 0 <= j < r.len() && i != j implies r[i] != r[j] by {
        let a = base + i;
        let b = base + j;
        assert(r[i] == s[a] && r[j] == s[b]);
        if a < mid && b < mid {
            assert(before.subrange(base, mid)[i] == before[a]);
            assert(before.subrange(base, mid)[j] == before[b]);
        } else if a >= mid && b >= mid {
            assert(s.subrange(mid, n)[a - mid] == s[a]);
            assert(s.subrange(mid, n)[b - mid] == s[b]);
        }
    }
}

} // verus!
