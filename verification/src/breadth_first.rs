//! Breadth-first traversal of the node graph: shortest-path enumeration
//! from a set of start nodes, one path per reachable node, path lengths
//! never decreasing.

use vstd::prelude::*;
use std::collections::HashMap;
use std::collections::VecDeque;
use crate::dump::{CoreDump, DumpV, Edge, EdgeV, NodeId};

verus! {

broadcast use
    vstd::std_specs::vec::group_vec_axioms,
    vstd::seq::group_seq_axioms,
    vstd::std_specs::hash::group_hash_axioms,
    vstd::std_specs::vecdeque::group_vec_dequeue_axioms;

/// One step in a path: an edge together with the node it originates from.
pub struct Step {
    pub origin: NodeId,
    pub edge: Edge,
}

/// The mathematical content of a [`Step`].
#[verifier::ext_equal]
pub struct StepV {
    pub origin: u64,
    pub edge: EdgeV,
}

impl View for Step {
    type V = StepV;

    open spec fn view(&self) -> StepV {
        StepV { origin: self.origin.0, edge: self.edge@ }
    }
}

impl Step {
    /// An owned copy with the same content.
    pub fn duplicate(&self) -> (r: Step)
        ensures
            r@ == self@,
    {
        Step { origin: self.origin, edge: self.edge.duplicate() }
    }
}

/// The mathematical content of a [`BreadthFirst`] traversal's state: each
/// reached node mapped to the step that first reached it (`None` for a
/// start node), and the queue of reached, not yet produced nodes.
#[verifier::ext_equal]
pub struct BfsV {
    pub visited: Map<u64, Option<StepV>>,
    pub front: Seq<u64>,
}

impl BfsV {
    /// Every queued node has been reached, and every reached node resolves
    /// in the snapshot.
    pub open spec fn inv(self, dump: DumpV) -> bool {
        &&& forall|k: int|
            0 <= k < self.front.len() ==> self.visited.contains_key(#[trigger] self.front[k])
        &&& forall|id: u64|
            self.visited.contains_key(id) ==> (#[trigger] dump.find_node(id)) is Some
        &&& self.visited.dom().finite()
    }

    /// The traversal's termination measure: unreached nodes count double,
    /// queued nodes once.
    pub open spec fn metric(self, dump: DumpV) -> int {
        2 * (dump.nodes.len() - self.visited.dom().len()) + self.front.len()
    }
}

/// The path by which `id` was first reached: the chain of predecessor steps,
/// start node first. `None` if `id` was never reached, or if the chain does
/// not reach a start node within `fuel` steps, which a chain recorded by
/// this traversal always does.
pub open spec fn spec_path_from(
    visited: Map<u64, Option<StepV>>,
    id: u64,
    fuel: nat,
) -> Option<Seq<StepV>>
    decreases fuel,
{
    if !visited.contains_key(id) {
        None
    } else {
        match visited[id] {
            None => Some(Seq::empty()),
            Some(step) => if fuel == 0 {
                None
            } else {
                match spec_path_from(visited, step.origin, (fuel - 1) as nat) {
                    Some(p) => Some(p.push(step)),
                    None => None,
                }
            },
        }
    }
}

/// What one traversal step does: take the oldest queued node, reach every
/// resolvable, unreached referent of its edges in declaration order, and
/// produce the path by which the taken node was first reached. `None` when
/// the queue is empty; also `None` on a state this module's operations
/// never build.
pub open spec fn spec_bfs_next(bfs: BfsV, dump: DumpV) -> (BfsV, Option<Seq<StepV>>) {
    if bfs.front.len() == 0 {
        (bfs, None)
    } else {
        let id = bfs.front[0];
        let popped = BfsV { visited: bfs.visited, front: bfs.front.drop_first() };
        match dump.find_node(id) {
            None => (popped, None),
            Some(node) => {
                let grown = spec_bfs_edges(popped, dump, id, node.edges, 0);
                (grown, spec_path_from(grown.visited, id, grown.visited.dom().len()))
            },
        }
    }
}

/// Fold one node's edges into the traversal state, from edge `k` on.
pub open spec fn spec_bfs_edges(bfs: BfsV, dump: DumpV, id: u64, edges: Seq<EdgeV>, k: int) -> BfsV
    decreases edges.len() - k,
{
    if k < 0 || k >= edges.len() {
        bfs
    } else {
        let next = match edges[k].referent {
            Some(r) => if dump.find_node(r) is Some && !bfs.visited.contains_key(r) {
                BfsV {
                    visited: bfs.visited.insert(r, Some(StepV { origin: id, edge: edges[k] })),
                    front: bfs.front.push(r),
                }
            } else {
                bfs
            },
            None => bfs,
        };
        spec_bfs_edges(next, dump, id, edges, k + 1)
    }
}

/// A reached set never outgrows the snapshot's node list.
pub proof fn lemma_visited_bound(bfs: BfsV, dump: DumpV)
    requires
        bfs.inv(dump),
    ensures
        bfs.visited.dom().len() <= dump.nodes.len(),
{
    broadcast use vstd::seq_lib::seq_to_set_is_finite;

    let ids = dump.nodes.map_values(|nv: crate::dump::NodeV| nv.id);
    assert forall|w: u64| bfs.visited.dom().contains(w) implies ids.to_set().contains(w) by {
        assert(dump.find_node(w) is Some);
        let pos = dump.node_position(w)->Some_0;
        assert(0 <= pos < dump.nodes.len() && dump.nodes[pos].id == w);
        assert(ids[pos] == w);
        assert(ids.contains(w));
    }
    assert(bfs.visited.dom().subset_of(ids.to_set()));
    ids.lemma_cardinality_of_set();
    vstd::set_lib::lemma_len_subset(bfs.visited.dom(), ids.to_set());
}

/// A breadth-first traversal in progress over a snapshot's nodes.
pub struct BreadthFirst<'a> {
    /// The snapshot whose nodes are being traversed.
    pub dump: &'a CoreDump,
    /// Nodes reached so far, each mapped to the step that first reached it;
    /// start nodes map to `None`.
    pub visited: HashMap<u64, Option<Step>>,
    /// The growth front: reached nodes not yet produced.
    pub front: VecDeque<u64>,
}

impl<'a> BreadthFirst<'a> {
    /// The mathematical content of the traversal state.
    pub open spec fn deep_view(&self) -> BfsV {
        BfsV {
            visited: self.visited@.map_values(
                |o: Option<Step>|
                    match o {
                        Some(s) => Some(s@),
                        None => None,
                    },
            ),
            front: self.front@,
        }
    }

    /// A traversal over the given snapshot with no start nodes yet.
    pub fn new(dump: &'a CoreDump) -> (r: BreadthFirst<'a>)
        ensures
            r.dump == dump,
            r.deep_view() == (BfsV { visited: Map::<u64, Option<StepV>>::empty(), front: Seq::<
                u64,
            >::empty() }),
            r.deep_view().inv(dump@),
    {
        let r = BreadthFirst { dump, visited: HashMap::new(), front: VecDeque::new() };
        proof {
            assert(r.deep_view().visited =~= Map::<u64, Option<StepV>>::empty());
            assert(r.deep_view().front =~= Seq::<u64>::empty());
        }
        r
    }

    /// Add a node from which the traversal should begin. The node must
    /// resolve in the snapshot.
    pub fn set_start_node(&mut self, node: NodeId)
        requires
            old(self).dump@.find_node(node.0) is Some,
            old(self).deep_view().inv(old(self).dump@),
        ensures
            final(self).dump == old(self).dump,
            final(self).deep_view() == (BfsV {
                visited: old(self).deep_view().visited.insert(node.0, None),
                front: old(self).deep_view().front.push(node.0),
            }),
            final(self).deep_view().inv(final(self).dump@),
    {
        self.visited.insert(node.0, None);
        self.front.push_back(node.0);
        proof {
            assert(self.deep_view().visited =~= old(self).deep_view().visited.insert(
                node.0,
                None,
            ));
            assert(self.deep_view().front =~= old(self).deep_view().front.push(node.0));
        }
    }

    /// The path by which `id` was first reached, start node first; an empty
    /// path if `id` is itself a start node; `None` if it was never reached.
    /// Mirrors [`spec_path_from`] with the reached count as the chain bound.
    #[verifier::loop_isolation(false)]
    pub fn path_from_start(&self, id: NodeId) -> (r: Option<Vec<Step>>)
        ensures
            match r {
                Some(path) => spec_path_from(
                    self.deep_view().visited,
                    id.0,
                    self.deep_view().visited.dom().len(),
                ) == Some(Seq::new(path@.len(), |i: int| path@[i]@)),
                None => spec_path_from(
                    self.deep_view().visited,
                    id.0,
                    self.deep_view().visited.dom().len(),
                ) is None,
            },
    {
        let ghost vmap = self.deep_view().visited;
        let mut rev: Vec<Step> = Vec::new();
        let mut cur: u64 = id.0;
        let mut steps: usize = 0;
        let limit: usize = self.visited.len();
        proof {
            assert(vmap.dom() =~= self.visited@.dom());
        }
        loop
            invariant
                limit == vmap.dom().len(),
                steps <= limit,
                vmap == self.deep_view().visited,
                (match spec_path_from(vmap, cur, (limit - steps) as nat) {
                    Some(p) => spec_path_from(vmap, id.0, limit as nat) == Some(
                        p + Seq::new(rev@.len(), |i: int| rev@[i]@).reverse(),
                    ),
                    None => spec_path_from(vmap, id.0, limit as nat) is None,
                }),
            decreases limit - steps,
        {
            let entry = match self.visited.get(&cur) {
                Some(e) => e,
                None => {
                    return None;
                },
            };
            match entry {
                None => {
                    break ;
                },
                Some(step) => {
                    if steps == limit {
                        return None;
                    }
                    let ghost rev0 = Seq::new(rev@.len(), |i: int| rev@[i]@);
                    let d = step.duplicate();
                    let ghost stepv = d@;
                    rev.push(d);
                    cur = step.origin.0;
                    steps = steps + 1;
                    proof {
                        let revs = Seq::new(rev@.len(), |i: int| rev@[i]@);
                        assert(revs =~= rev0.push(stepv));
                        assert(revs.reverse() =~= seq![stepv] + rev0.reverse());
                        if spec_path_from(vmap, cur, (limit - steps) as nat) is Some {
                            let p = spec_path_from(vmap, cur, (limit - steps) as nat)->Some_0;
                            assert((p.push(stepv)) + rev0.reverse() =~= p + (seq![stepv]
                                + rev0.reverse()));
                        }
                    }
                },
            }
        }
        // the chain ended at a start node: the reversed steps are the path
        let mut path: Vec<Step> = Vec::new();
        let mut i: usize = rev.len();
        proof {
            let revs = Seq::new(rev@.len(), |k: int| rev@[k]@);
            assert(Seq::new(path@.len(), |k: int| path@[k]@) =~= revs.reverse().take(0));
        }
        while i > 0
            invariant
                i <= rev@.len(),
                Seq::new(path@.len(), |k: int| path@[k]@) =~= Seq::new(
                    rev@.len(),
                    |k: int| rev@[k]@,
                ).reverse().take(rev@.len() - i),
            decreases i,
        {
            i = i - 1;
            let ghost before = Seq::new(path@.len(), |k: int| path@[k]@);
            let d = rev[i].duplicate();
            path.push(d);
            proof {
                let revs = Seq::new(rev@.len(), |k: int| rev@[k]@);
                assert(Seq::new(path@.len(), |k: int| path@[k]@) =~= before.push(
                    path@[path@.len() - 1]@,
                ));
                assert(revs.reverse()[rev@.len() - i - 1] == revs[i as int]);
                assert(Seq::new(path@.len(), |k: int| path@[k]@) =~= revs.reverse().take(
                    rev@.len() - i,
                ));
            }
        }
        proof {
            let revs = Seq::new(rev@.len(), |k: int| rev@[k]@);
            assert(revs.reverse().take(rev@.len() as int) =~= revs.reverse());
            assert(Seq::empty() + revs.reverse() =~= revs.reverse());
        }
        Some(path)
    }

    /// Produce a shortest path to the next node in breadth-first order, or
    /// `None` when no reachable nodes remain. Mirrors [`spec_bfs_next`]; the
    /// measure of the new state is strictly below the old one whenever a
    /// node was taken off the queue.
    #[verifier::loop_isolation(false)]
    pub fn next(&mut self) -> (r: Option<Vec<Step>>)
        requires
            old(self).dump.wf(),
            old(self).deep_view().inv(old(self).dump@),
        ensures
            final(self).dump == old(self).dump,
            final(self).deep_view().inv(final(self).dump@),
            ({
                let (state2, rv) = spec_bfs_next(old(self).deep_view(), old(self).dump@);
                &&& final(self).deep_view() == state2
                &&& match (r, rv) {
                    (Some(path), Some(pv)) => pv == Seq::new(path@.len(), |i: int| path@[i]@),
                    (None, None) => true,
                    _ => false,
                }
                &&& old(self).deep_view().front.len() > 0 ==> (final(self).deep_view().metric(
                    old(self).dump@,
                ) < old(self).deep_view().metric(old(self).dump@))
            }),
    {
        let ghost dumpv = self.dump@;
        let id = match self.front.pop_front() {
            Some(id) => id,
            None => {
                proof {
                    assert(self.deep_view() =~= old(self).deep_view());
                }
                return None;
            },
        };
        proof {
            assert(old(self).deep_view().front[0] == id);
            assert(self.deep_view().front =~= old(self).deep_view().front.drop_first());
            assert(self.deep_view().visited =~= old(self).deep_view().visited);
        }
        let ghost popped = self.deep_view();
        let node = match self.dump.get_node(NodeId(id)) {
            Some(node) => node,
            None => {
                proof {
                    assert(old(self).deep_view().visited.contains_key(id));
                    assert(false);
                }
                return None;
            },
        };
        let ghost edgesv = node@.edges;
        let ghost n0 = self.deep_view().visited.dom().len();
        let mut k: usize = 0;
        proof {
            lemma_visited_bound(self.deep_view(), dumpv);
        }
        while k < node.edges.len()
            invariant
                k <= node.edges@.len(),
                edgesv == node@.edges,
                self.dump == old(self).dump,
                spec_bfs_edges(popped, dumpv, id, edgesv, 0) == spec_bfs_edges(
                    self.deep_view(),
                    dumpv,
                    id,
                    edgesv,
                    k as int,
                ),
                self.deep_view().inv(dumpv),
                self.deep_view().visited.dom().len() - popped.visited.dom().len()
                    == self.deep_view().front.len() - popped.front.len(),
                self.deep_view().visited.dom().len() <= dumpv.nodes.len(),
                popped.visited.dom().len() <= self.deep_view().visited.dom().len(),
            decreases node.edges@.len() - k,
        {
            let ghost pre = self.deep_view();
            match &node.edges[k].referent {
                Some(rid) => {
                    let resolvable = self.dump.has_node(*rid);
                    let seen = self.visited.contains_key(&rid.0);
                    if resolvable && !seen {
                        let step = Step { origin: NodeId(id), edge: node.edges[k].duplicate() };
                        let ghost stepv = step@;
                        self.visited.insert(rid.0, Some(step));
                        self.front.push_back(rid.0);
                        proof {
                            assert(self.deep_view().visited =~= pre.visited.insert(
                                rid.0,
                                Some(StepV { origin: id, edge: edgesv[k as int] }),
                            ));
                            assert(self.deep_view().front =~= pre.front.push(rid.0));
                            assert(self.deep_view().visited.dom() =~= pre.visited.dom().insert(
                                rid.0,
                            ));
                            assert(self.deep_view().inv(dumpv));
                            lemma_visited_bound(self.deep_view(), dumpv);
                        }
                    }
                },
                None => {},
            }
            k = k + 1;
        }
        proof {
            assert(spec_bfs_edges(self.deep_view(), dumpv, id, edgesv, node.edges@.len() as int)
                == self.deep_view());
        }
        let path = self.path_from_start(NodeId(id));
        match path {
            Some(path) => Some(path),
            None => None,
        }
    }
}

} // verus!
