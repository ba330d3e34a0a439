//! The decoded heap snapshot: nodes, edges, interned strings, and the
//! id-keyed index over them.

use vstd::prelude::*;
use std::collections::HashMap;

verus! {

broadcast use
    vstd::std_specs::vec::group_vec_axioms,
    vstd::seq::group_seq_axioms,
    vstd::std_specs::hash::group_hash_axioms;

/// A snapshot node id.
#[derive(Clone, Copy, PartialEq, Eq, Structural, Debug)]
pub struct NodeId(pub u64);

/// A snapshot stack frame id.
#[derive(Clone, Copy, PartialEq, Eq, Structural, Debug)]
pub struct FrameId(pub u64);

/// The byte size of an object mentioned in a snapshot. This is not `usize`:
/// the snapshot may come from a machine with wider sizes than ours.
pub type Size = u64;

/// Untrusted UTF-8 text copied out of a snapshot; may be ill-formed.
#[derive(Clone, Debug)]
pub struct OneByteString(pub Vec<u8>);

/// Untrusted UTF-16 text copied out of a snapshot, as 16-bit code units;
/// may be ill-formed (unpaired surrogates).
#[derive(Clone, Debug)]
pub struct TwoByteString(pub Vec<u16>);

impl View for OneByteString {
    type V = Seq<u8>;

    open spec fn view(&self) -> Seq<u8> {
        self.0@
    }
}

impl View for TwoByteString {
    type V = Seq<u16>;

    open spec fn view(&self) -> Seq<u16> {
        self.0@
    }
}

/// The five-valued coarse classification of a node.
#[derive(Clone, Copy, PartialEq, Eq, Structural, Debug)]
pub enum CoarseType {
    Other,
    Object,
    Script,
    String,
    DOMNode,
}

impl CoarseType {
    /// The wire encoding of each coarse type, a discriminator in 0..=4.
    pub open spec fn spec_from_u32(n: u32) -> Option<CoarseType> {
        if n == 0 {
            Some(CoarseType::Other)
        } else if n == 1 {
            Some(CoarseType::Object)
        } else if n == 2 {
            Some(CoarseType::Script)
        } else if n == 3 {
            Some(CoarseType::String)
        } else if n == 4 {
            Some(CoarseType::DOMNode)
        } else {
            None
        }
    }

    pub fn from_u32(n: u32) -> (r: Option<CoarseType>)
        ensures
            r == CoarseType::spec_from_u32(n),
    {
        if n == 0 {
            Some(CoarseType::Other)
        } else if n == 1 {
            Some(CoarseType::Object)
        } else if n == 2 {
            Some(CoarseType::Script)
        } else if n == 3 {
            Some(CoarseType::String)
        } else if n == 4 {
            Some(CoarseType::DOMNode)
        } else {
            None
        }
    }
}

/// An edge from one node to another. The referent may name a node that is
/// not present in the snapshot; that is not an error.
#[derive(Clone, Debug)]
pub struct Edge {
    pub referent: Option<NodeId>,
    pub name: Option<TwoByteString>,
}

/// The mathematical content of an [`Edge`].
pub struct EdgeV {
    pub referent: Option<u64>,
    pub name: Option<Seq<u16>>,
}

impl View for Edge {
    type V = EdgeV;

    open spec fn view(&self) -> EdgeV {
        EdgeV {
            referent: match self.referent {
                Some(id) => Some(id.0),
                None => None,
            },
            name: match self.name {
                Some(ref s) => Some(s@),
                None => None,
            },
        }
    }
}

/// A materialized node record.
#[allow(non_snake_case)]
#[derive(Clone, Debug)]
pub struct Node {
    pub id: NodeId,
    pub size: Option<Size>,
    pub edges: Vec<Edge>,
    pub coarseType: CoarseType,
    pub typeName: Option<TwoByteString>,
    pub JSObjectClassName: Option<OneByteString>,
    pub scriptFilename: Option<OneByteString>,
    pub descriptiveTypeName: Option<TwoByteString>,
}

/// The mathematical content of a [`Node`].
#[allow(non_snake_case)]
pub struct NodeV {
    pub id: u64,
    pub size: Option<u64>,
    pub edges: Seq<EdgeV>,
    pub coarseType: CoarseType,
    pub typeName: Option<Seq<u16>>,
    pub JSObjectClassName: Option<Seq<u8>>,
    pub scriptFilename: Option<Seq<u8>>,
    pub descriptiveTypeName: Option<Seq<u16>>,
}

pub open spec fn view_opt_two_byte(o: Option<TwoByteString>) -> Option<Seq<u16>> {
    match o {
        Some(s) => Some(s@),
        None => None,
    }
}

pub open spec fn view_opt_one_byte(o: Option<OneByteString>) -> Option<Seq<u8>> {
    match o {
        Some(s) => Some(s@),
        None => None,
    }
}

impl View for Node {
    type V = NodeV;

    open spec fn view(&self) -> NodeV {
        NodeV {
            id: self.id.0,
            size: self.size,
            edges: Seq::new(self.edges@.len(), |i: int| self.edges@[i]@),
            coarseType: self.coarseType,
            typeName: view_opt_two_byte(self.typeName),
            JSObjectClassName: view_opt_one_byte(self.JSObjectClassName),
            scriptFilename: view_opt_one_byte(self.scriptFilename),
            descriptiveTypeName: view_opt_two_byte(self.descriptiveTypeName),
        }
    }
}

/// A decoded snapshot: the designated root id, the two string-interning
/// tables, and every node record, indexed by id.
pub struct CoreDump {
    /// The name of the snapshot's source, solely for error messages.
    pub path: String,
    /// The snapshot's timestamp, if one was recorded.
    pub timestamp: Option<u64>,
    root_id: NodeId,
    one_byte_strings: Vec<OneByteString>,
    two_byte_strings: Vec<TwoByteString>,
    node_list: Vec<Node>,
    node_index: HashMap<u64, usize>,
}

/// The mathematical content of a [`CoreDump`]. Nodes appear in first-insertion
/// order; a re-inserted id replaces the record in place.
pub struct DumpV {
    pub path: Seq<char>,
    pub timestamp: Option<u64>,
    pub root_id: u64,
    pub one_byte_strings: Seq<Seq<u8>>,
    pub two_byte_strings: Seq<Seq<u16>>,
    pub nodes: Seq<NodeV>,
}

impl DumpV {
    /// The position of the node with the given id, if present.
    pub open spec fn node_position(self, id: u64) -> Option<int> {
        if exists|i: int| 0 <= i < self.nodes.len() && self.nodes[i].id == id {
            Some(choose|i: int| 0 <= i < self.nodes.len() && self.nodes[i].id == id)
        } else {
            None
        }
    }

    /// The node with the given id, if present.
    pub open spec fn find_node(self, id: u64) -> Option<NodeV> {
        match self.node_position(id) {
            Some(i) => Some(self.nodes[i]),
            None => None,
        }
    }

    /// Node ids are unique, and the designated root resolves.
    pub open spec fn wf(self) -> bool {
        &&& forall|i: int, j: int|
            0 <= i < self.nodes.len() && 0 <= j < self.nodes.len() && i != j
                ==> self.nodes[i].id != self.nodes[j].id
        &&& self.find_node(self.root_id) is Some
    }
}

impl View for CoreDump {
    type V = DumpV;

    closed spec fn view(&self) -> DumpV {
        DumpV {
            path: self.path@,
            timestamp: self.timestamp,
            root_id: self.root_id.0,
            one_byte_strings: Seq::new(
                self.one_byte_strings@.len(),
                |i: int| self.one_byte_strings@[i]@,
            ),
            two_byte_strings: Seq::new(
                self.two_byte_strings@.len(),
                |i: int| self.two_byte_strings@[i]@,
            ),
            nodes: Seq::new(self.node_list@.len(), |i: int| self.node_list@[i]@),
        }
    }
}

impl CoreDump {
    /// The executable index agrees with the view: `node_index` maps exactly
    /// the ids of `node_list` to their positions.
    spec fn index_wf(&self) -> bool {
        &&& forall|i: int|
            0 <= i < self.node_list@.len()
                ==> #[trigger] self.node_index@.contains_key(self.node_list@[i].id.0)
                    && self.node_index@[self.node_list@[i].id.0] == i
        &&& forall|id: u64|
            #[trigger] self.node_index@.contains_key(id)
                ==> 0 <= self.node_index@[id] < self.node_list@.len()
                    && self.node_list@[self.node_index@[id] as int].id.0 == id
    }

    /// The index is in step with the node list and ids are unique.
    pub closed spec fn indexed(&self) -> bool {
        &&& self.index_wf()
        &&& forall|i: int, j: int|
            0 <= i < self@.nodes.len() && 0 <= j < self@.nodes.len() && i != j
                ==> self@.nodes[i].id != self@.nodes[j].id
    }

    /// A usable snapshot: the index is in step with the node list, ids are
    /// unique, and the root id resolves.
    pub open spec fn wf(&self) -> bool {
        &&& self.indexed()
        &&& self@.wf()
    }

    /// `indexed` keeps the view's ids unique.
    pub broadcast proof fn lemma_indexed_unique_ids(&self)
        requires
            #[trigger] self.indexed(),
        ensures
            forall|i: int, j: int|
                0 <= i < self@.nodes.len() && 0 <= j < self@.nodes.len() && i != j
                    ==> self@.nodes[i].id != self@.nodes[j].id,
    {
    }

    /// The root id this snapshot designates.
    pub fn root_id(&self) -> (r: NodeId)
        ensures
            r.0 == self@.root_id,
    {
        self.root_id
    }

    /// Look up a node by id.
    pub fn get_node(&self, id: NodeId) -> (r: Option<&Node>)
        requires
            self.indexed(),
        ensures
            match r {
                Some(n) => self@.find_node(id.0) == Some(n@),
                None => self@.find_node(id.0) is None,
            },
    {
        match self.node_index.get(&id.0) {
            Some(pos) => {
                let i: usize = *pos;
                let n = &self.node_list[i];
                proof {
                    let pos = self@.node_position(id.0);
                    assert(self@.nodes[i as int].id == id.0);
                    assert(pos is Some);
                    assert(self@.nodes[pos->Some_0] == self@.nodes[i as int]);
                }
                Some(n)
            },
            None => {
                proof {
                    if self@.node_position(id.0) is Some {
                        let i = self@.node_position(id.0)->Some_0;
                        assert(self@.nodes[i].id == id.0);
                        assert(self.node_index@.contains_key(self.node_list@[i].id.0));
                    }
                }
                None
            },
        }
    }

    /// Whether a node with the given id is present.
    pub fn has_node(&self, id: NodeId) -> (r: bool)
        requires
            self.indexed(),
        ensures
            r == (self@.find_node(id.0) is Some),
    {
        match self.get_node(id) {
            Some(_) => true,
            None => false,
        }
    }

    /// The designated root node. A well-formed snapshot always resolves it.
    pub fn get_root(&self) -> (r: &Node)
        requires
            self.wf(),
        ensures
            Some(r@) == self@.find_node(self@.root_id),
    {
        let id = self.root_id;
        match self.get_node(id) {
            Some(n) => n,
            None => {
                proof {
                    assert(false);
                }
                // unreachable: wf() guarantees the root resolves
                &self.node_list[0]
            },
        }
    }

    /// Every node record, in first-insertion order.
    pub fn nodes(&self) -> (r: &Vec<Node>)
        ensures
            r@.len() == self@.nodes.len(),
            forall|i: int| 0 <= i < r@.len() ==> #[trigger] r@[i]@ == self@.nodes[i],
    {
        &self.node_list
    }

    /// Assemble a snapshot from already-decoded parts, indexing the nodes by
    /// id. A node whose id was seen before replaces the earlier record in
    /// place, so ids are unique in the result.
    pub(crate) fn assemble(
        path: String,
        timestamp: Option<u64>,
        root_id: NodeId,
        one_byte_strings: Vec<OneByteString>,
        two_byte_strings: Vec<TwoByteString>,
        nodes: Vec<Node>,
    ) -> (r: Option<CoreDump>)
        ensures
            match r {
                Some(d) => {
                    &&& d.wf()
                    &&& d@.path == path@
                    &&& d@.timestamp == timestamp
                    &&& d@.root_id == root_id.0
                    &&& d@.one_byte_strings == Seq::new(
                        one_byte_strings@.len(),
                        |i: int| one_byte_strings@[i]@,
                    )
                    &&& d@.two_byte_strings == Seq::new(
                        two_byte_strings@.len(),
                        |i: int| two_byte_strings@[i]@,
                    )
                    &&& d@.nodes == spec_dedup_nodes(
                        Seq::new(nodes@.len(), |i: int| nodes@[i]@),
                    )
                },
                None => spec_find_in(
                    spec_dedup_nodes(Seq::new(nodes@.len(), |i: int| nodes@[i]@)),
                    root_id.0,
                ) is None,
            },
    {
        let ghost full = Seq::new(nodes@.len(), |i: int| nodes@[i]@);
        let mut rest = nodes;
        let mut dump = CoreDump {
            path,
            timestamp,
            root_id,
            one_byte_strings,
            two_byte_strings,
            node_list: Vec::new(),
            node_index: HashMap::new(),
        };
        let ghost n = full.len();
        let ghost mut k: int = 0;
        proof {
            assert(spec_dedup_nodes(full.take(0)) =~= Seq::<NodeV>::empty());
            assert(Seq::new(rest@.len(), |i: int| rest@[i]@) =~= full.skip(0));
        }
        while rest.len() > 0
            invariant
                0 <= k <= n,
                n == full.len(),
                rest@.len() == n - k,
                Seq::new(rest@.len(), |i: int| rest@[i]@) =~= full.skip(k),
                dump.index_wf(),
                dump@.nodes =~= spec_dedup_nodes(full.take(k)),
                forall|i: int, j: int|
                    0 <= i < dump@.nodes.len() && 0 <= j < dump@.nodes.len() && i != j
                        ==> dump@.nodes[i].id != dump@.nodes[j].id,
                dump@.path == path@,
                dump@.timestamp == timestamp,
                dump@.root_id == root_id.0,
                dump@.one_byte_strings == Seq::new(
                    one_byte_strings@.len(),
                    |i: int| one_byte_strings@[i]@,
                ),
                dump@.two_byte_strings == Seq::new(
                    two_byte_strings@.len(),
                    |i: int| two_byte_strings@[i]@,
                ),
            decreases rest@.len(),
        {
            let ghost prev_vec = rest@;
            let ghost prev_rest = Seq::new(rest@.len(), |i: int| rest@[i]@);
            let node = rest.remove(0);
            proof {
                assert(prev_rest =~= full.skip(k));
                assert(node@ == prev_rest[0]);
                assert(prev_rest[0] == full[k]);
                assert(full.take(k + 1).drop_last() =~= full.take(k));
                assert(full.take(k + 1).last() == full[k]);
            }
            dump.insert_node(node);
            proof {
                k = k + 1;
                assert(rest@ =~= prev_vec.remove(0));
                assert forall|i: int| 0 <= i < rest@.len() implies rest@[i]@ == full.skip(k)[i] by {
                    assert(rest@[i] == prev_vec[i + 1]);
                    assert(prev_rest[i + 1] == prev_vec[i + 1]@);
                    assert(prev_rest[i + 1] == full.skip(k - 1)[i + 1]);
                    assert(full.skip(k - 1)[i + 1] == full[k + i]);
                    assert(full.skip(k)[i] == full[k + i]);
                }
                assert(Seq::new(rest@.len(), |i: int| rest@[i]@) =~= full.skip(k));
            }
        }
        proof {
            assert(full.take(n as int) =~= full);
        }
        if dump.has_node(dump.root_id) {
            Some(dump)
        } else {
            None
        }
    }

    /// Insert one node record: replace in place if the id is known, else
    /// append and index it.
    fn insert_node(&mut self, node: Node)
        requires
            old(self).index_wf(),
            forall|i: int, j: int|
                0 <= i < old(self)@.nodes.len() && 0 <= j < old(self)@.nodes.len() && i != j
                    ==> old(self)@.nodes[i].id != old(self)@.nodes[j].id,
        ensures
            final(self).index_wf(),
            final(self)@.nodes == spec_insert_node(old(self)@.nodes, node@),
            forall|i: int, j: int|
                0 <= i < final(self)@.nodes.len() && 0 <= j < final(self)@.nodes.len() && i != j
                    ==> final(self)@.nodes[i].id != final(self)@.nodes[j].id,
            final(self).path == old(self).path,
            final(self).timestamp == old(self).timestamp,
            final(self).root_id == old(self).root_id,
            final(self).one_byte_strings == old(self).one_byte_strings,
            final(self).two_byte_strings == old(self).two_byte_strings,
    {
        let id = node.id.0;
        let ghost old_nodes = self@.nodes;
        match self.node_index.get(&id) {
            Some(pos) => {
                let i: usize = *pos;
                proof {
                    assert(old(self).node_index@.contains_key(id));
                    assert(old(self).node_index@[id] == i);
                    assert(old_nodes[i as int].id == id);
                    let j = choose|j: int| 0 <= j < old_nodes.len() && old_nodes[j].id == id;
                    assert(old(self)@.node_position(id) == Some(j));
                    assert(j == i as int);
                }
                self.node_list.set(i, node);
                proof {
                    assert(self@.nodes =~= old_nodes.update(i as int, node@));
                    assert(self@.nodes =~= spec_insert_node(old_nodes, node@));
                }
            },
            None => {
                let i = self.node_list.len();
                self.node_list.push(node);
                self.node_index.insert(id, i);
                proof {
                    if old(self)@.node_position(id) is Some {
                        let j = old(self)@.node_position(id)->Some_0;
                        assert(old(self).node_index@.contains_key(
                            old(self).node_list@[j].id.0,
                        ));
                    }
                    assert(self@.nodes =~= spec_insert_node(old_nodes, node@));
                }
            },
        }
    }
}

/// Insert one decoded node into a sequence of unique-id nodes: replace in
/// place if the id is present, else append.
pub open spec fn spec_insert_node(nodes: Seq<NodeV>, node: NodeV) -> Seq<NodeV> {
    if exists|i: int| 0 <= i < nodes.len() && nodes[i].id == node.id {
        let i = choose|i: int| 0 <= i < nodes.len() && nodes[i].id == node.id;
        nodes.update(i, node)
    } else {
        nodes.push(node)
    }
}

/// Fold a decoded node sequence through [`spec_insert_node`]: the node list
/// a snapshot ends up with, last record per id winning, first position kept.
pub open spec fn spec_dedup_nodes(nodes: Seq<NodeV>) -> Seq<NodeV>
    decreases nodes.len(),
{
    if nodes.len() == 0 {
        Seq::empty()
    } else {
        spec_insert_node(spec_dedup_nodes(nodes.drop_last()), nodes.last())
    }
}

/// First node with the given id in a sequence, if any.
pub open spec fn spec_find_in(nodes: Seq<NodeV>, id: u64) -> Option<NodeV> {
    if exists|i: int| 0 <= i < nodes.len() && nodes[i].id == id {
        Some(nodes[choose|i: int| 0 <= i < nodes.len() && nodes[i].id == id])
    } else {
        None
    }
}


/// Copy a vector of bytes.
pub fn copy_u8s(v: &Vec<u8>) -> (r: Vec<u8>)
    ensures
        r@ == v@,
{
    let mut r: Vec<u8> = Vec::new();
    let mut i: usize = 0;
    while i < v.len()
        invariant
            i <= v@.len(),
            r@ =~= v@.take(i as int),
        decreases v@.len() - i,
    {
        r.push(v[i]);
        proof {
            assert(r@ =~= v@.take(i as int + 1));
        }
        i = i + 1;
    }
    proof {
        assert(v@.take(v@.len() as int) =~= v@);
    }
    r
}

/// Copy a vector of 16-bit code units.
pub fn copy_u16s(v: &Vec<u16>) -> (r: Vec<u16>)
    ensures
        r@ == v@,
{
    let mut r: Vec<u16> = Vec::new();
    let mut i: usize = 0;
    while i < v.len()
        invariant
            i <= v@.len(),
            r@ =~= v@.take(i as int),
        decreases v@.len() - i,
    {
        r.push(v[i]);
        proof {
            assert(r@ =~= v@.take(i as int + 1));
        }
        i = i + 1;
    }
    proof {
        assert(v@.take(v@.len() as int) =~= v@);
    }
    r
}

/// Copy a one-byte string.
pub fn copy_one(s: &OneByteString) -> (r: OneByteString)
    ensures
        r@ == s@,
{
    OneByteString(copy_u8s(&s.0))
}

/// Copy a two-byte string.
pub fn copy_two(s: &TwoByteString) -> (r: TwoByteString)
    ensures
        r@ == s@,
{
    TwoByteString(copy_u16s(&s.0))
}

impl Edge {
    /// An owned copy with the same content.
    pub fn duplicate(&self) -> (r: Edge)
        ensures
            r@ == self@,
    {
        Edge {
            referent: self.referent,
            name: match &self.name {
                Some(s) => Some(copy_two(s)),
                None => None,
            },
        }
    }
}

impl Node {
    /// An owned copy with the same content.
    pub fn duplicate(&self) -> (r: Node)
        ensures
            r@ == self@,
    {
        let mut edges: Vec<Edge> = Vec::new();
        let mut i: usize = 0;
        while i < self.edges.len()
            invariant
                i <= self.edges@.len(),
                edges@.len() == i,
                forall|k: int| 0 <= k < i ==> #[trigger] edges@[k]@ == self.edges@[k]@,
            decreases self.edges@.len() - i,
        {
            let e = self.edges[i].duplicate();
            edges.push(e);
            i = i + 1;
        }
        let r = Node {
            id: self.id,
            size: self.size,
            edges,
            coarseType: self.coarseType,
            typeName: match &self.typeName {
                Some(s) => Some(copy_two(s)),
                None => None,
            },
            JSObjectClassName: match &self.JSObjectClassName {
                Some(s) => Some(copy_one(s)),
                None => None,
            },
            scriptFilename: match &self.scriptFilename {
                Some(s) => Some(copy_one(s)),
                None => None,
            },
            descriptiveTypeName: match &self.descriptiveTypeName {
                Some(s) => Some(copy_two(s)),
                None => None,
            },
        };
        proof {
            assert(r@.edges =~= self@.edges);
        }
        r
    }
}

} // verus!

