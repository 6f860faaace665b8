//! The mutable processing-graph topology and the immutable snapshots
//! compiled from it.
//!
//! The control domain edits a [`GraphTopology`] (nodes with audio port
//! arities, and port-to-port connections) and then compiles it into a
//! [`GraphSnapshot`], an immutable copy that is published for the render
//! domain. A topology is kept well formed at every step: node IDs are
//! unique, every connection joins existing ports, and no input port is fed
//! by more than one connection.

use vstd::prelude::*;

verus! {

/// Identifier of one node in the processing graph, unique within a project.
#[derive(Clone, Copy, Debug, PartialEq, Eq, Structural)]
pub struct NodeID(pub u64);

/// The signal type a connection carries.
#[derive(Clone, Copy, Debug, PartialEq, Eq, Structural)]
pub enum PortType {
    MonoAudio,
    StereoAudio,
}

/// One node of the processing graph, reduced to what the control plane
/// wires: its identity and its audio port arities.
#[derive(Clone, Copy, Debug, PartialEq, Eq, Structural)]
pub struct GraphNode {
    pub id: NodeID,
    pub audio_in_ports: usize,
    pub audio_out_ports: usize,
}

/// A directed connection from an output port to an input port.
#[derive(Clone, Copy, Debug, PartialEq, Eq, Structural)]
pub struct PortConnection {
    pub port_type: PortType,
    pub source_node: NodeID,
    pub source_port: usize,
    pub dest_node: NodeID,
    pub dest_port: usize,
}

/// The node a graph edit named does not exist.
#[derive(Clone, Copy, Debug, PartialEq, Eq, Structural)]
pub struct NotFoundError;

/// Why a connection was rejected, checked in this order.
#[derive(Clone, Copy, Debug, PartialEq, Eq, Structural)]
pub enum ConnectionError {
    SourceNodeNotFound,
    DestNodeNotFound,
    SourcePortOutOfRange,
    DestPortOutOfRange,
    DestPortOccupied,
}

/// One immutable, fully-wired version of the processing graph. Once
/// compiled it is never mutated; a later edit compiles a new snapshot.
#[derive(Debug, Clone, PartialEq)]
pub struct GraphSnapshot {
    pub nodes: Vec<GraphNode>,
    pub connections: Vec<PortConnection>,
}

/// The mathematical content of a [`GraphSnapshot`].
pub struct GraphSnapshotView {
    pub nodes: Seq<GraphNode>,
    pub connections: Seq<PortConnection>,
}

impl View for GraphSnapshot {
    type V = GraphSnapshotView;

    open spec fn view(&self) -> GraphSnapshotView {
        GraphSnapshotView { nodes: self.nodes@, connections: self.connections@ }
    }
}

pub open spec fn has_node(nodes: Seq<GraphNode>, id: NodeID) -> bool {
    exists|i: int| 0 <= i < nodes.len() && nodes[i].id == id
}

/// The node with the given ID; meaningful only when `has_node` holds and
/// IDs are distinct.
pub open spec fn node_entry(nodes: Seq<GraphNode>, id: NodeID) -> GraphNode {
    nodes[choose|i: int| 0 <= i < nodes.len() && nodes[i].id == id]
}

pub open spec fn nodes_distinct(nodes: Seq<GraphNode>) -> bool {
    forall|i: int, j: int| 0 <= i < j < nodes.len() ==> nodes[i].id != nodes[j].id
}

pub open spec fn node_touches(c: PortConnection, id: NodeID) -> bool {
    c.source_node == id || c.dest_node == id
}

/// Both endpoints of the connection exist and its ports are in range.
pub open spec fn connection_valid(c: PortConnection, nodes: Seq<GraphNode>) -> bool {
    &&& has_node(nodes, c.source_node)
    &&& c.source_port < node_entry(nodes, c.source_node).audio_out_ports
    &&& has_node(nodes, c.dest_node)
    &&& c.dest_port < node_entry(nodes, c.dest_node).audio_in_ports
}

pub open spec fn connections_valid(conns: Seq<PortConnection>, nodes: Seq<GraphNode>) -> bool {
    forall|k: int| 0 <= k < conns.len() ==> connection_valid(#[trigger] conns[k], nodes)
}

/// No input port is fed by two connections of the same signal type.
pub open spec fn dests_distinct(conns: Seq<PortConnection>) -> bool {
    forall|i: int, j: int|
        0 <= i < j < conns.len() ==> !(#[trigger] conns[i].port_type == #[trigger] conns[j].port_type
            && conns[i].dest_node == conns[j].dest_node
            && conns[i].dest_port == conns[j].dest_port)
}

/// Some connection of this signal type already feeds the given input port.
pub open spec fn dest_occupied(
    conns: Seq<PortConnection>,
    port_type: PortType,
    dest: NodeID,
    dest_port: usize,
) -> bool {
    exists|k: int|
        0 <= k < conns.len() && (#[trigger] conns[k]).port_type == port_type
            && conns[k].dest_node == dest && conns[k].dest_port == dest_port
}

pub open spec fn ids_below(nodes: Seq<GraphNode>, bound: u64) -> bool {
    forall|i: int| 0 <= i < nodes.len() ==> (#[trigger] nodes[i]).id.0 < bound
}

/// The connections that survive severing one node from the graph, in order.
pub open spec fn connections_without(conns: Seq<PortConnection>, id: NodeID) -> Seq<PortConnection>
    decreases conns.len(),
{
    if conns.len() == 0 {
        Seq::empty()
    } else {
        let rest = connections_without(conns.drop_last(), id);
        if node_touches(conns.last(), id) {
            rest
        } else {
            rest.push(conns.last())
        }
    }
}

/// The mutable topology of the processing graph, owned by the control
/// domain. All edits keep `wf`.
pub struct GraphTopology {
    pub next_node_id: u64,
    pub nodes: Vec<GraphNode>,
    pub connections: Vec<PortConnection>,
}

impl GraphTopology {
    pub open spec fn wf(self) -> bool {
        &&& nodes_distinct(self.nodes@)
        &&& connections_valid(self.connections@, self.nodes@)
        &&& dests_distinct(self.connections@)
        &&& ids_below(self.nodes@, self.next_node_id)
    }

    pub fn new() -> (r: GraphTopology)
        ensures
            r.wf(),
            r.nodes@.len() == 0,
            r.connections@.len() == 0,
            r.next_node_id == 0,
    {
        GraphTopology { next_node_id: 0, nodes: Vec::new(), connections: Vec::new() }
    }

    /// Index of the node with the given ID, if present.
    pub fn find_node(&self, id: NodeID) -> (r: Option<usize>)
        ensures
            match r {
                Some(i) => i < self.nodes@.len() && self.nodes@[i as int].id == id,
                None => !has_node(self.nodes@, id),
            },
    {
        let mut k: usize = 0;
        while k < self.nodes.len()
            invariant
                k <= self.nodes@.len(),
                forall|j: int| 0 <= j < k ==> (#[trigger] self.nodes@[j]).id != id,
            decreases self.nodes@.len() - k,
        {
            if self.nodes[k].id == id {
                return Some(k);
            }
            k += 1;
        }
        None
    }

    /// Adds a node with the given port arities under a fresh ID.
    pub fn add_new_node(&mut self, audio_in_ports: usize, audio_out_ports: usize) -> (id: NodeID)
        requires
            old(self).wf(),
            old(self).next_node_id < u64::MAX,
        ensures
            final(self).wf(),
            id == NodeID(old(self).next_node_id),
            !has_node(old(self).nodes@, id),
            final(self).nodes@ == old(self).nodes@.push(
                GraphNode { id, audio_in_ports, audio_out_ports },
            ),
            final(self).connections@ == old(self).connections@,
            final(self).next_node_id == old(self).next_node_id + 1,
            has_node(final(self).nodes@, id),
            node_entry(final(self).nodes@, id) == (GraphNode {
                id,
                audio_in_ports,
                audio_out_ports,
            }),
            forall|id2: NodeID| id2 != id ==> (has_node(final(self).nodes@, id2) <==> has_node(
                old(self).nodes@,
                id2,
            )),
            forall|id2: NodeID| id2 != id && has_node(old(self).nodes@, id2) ==> node_entry(
                final(self).nodes@,
                id2,
            ) == node_entry(old(self).nodes@, id2),
    {
        let id = NodeID(self.next_node_id);
        let node = GraphNode { id, audio_in_ports, audio_out_ports };
        self.nodes.push(node);
        self.next_node_id = self.next_node_id + 1;
        proof {
            let nodes = self.nodes@;
            let n = nodes.len() - 1;
            assert(nodes[n] == node);
            assert forall|id2: NodeID| id2 != id && has_node(old(self).nodes@, id2) implies
                has_node(nodes, id2) && node_entry(nodes, id2) == node_entry(
                old(self).nodes@,
                id2,
            ) by {
                let i = choose|i: int|
                    0 <= i < old(self).nodes@.len() && old(self).nodes@[i].id == id2;
                assert(nodes[i].id == id2);
                lemma_entry_at(nodes, id2, i);
                lemma_entry_at(old(self).nodes@, id2, i);
            }
            assert forall|id2: NodeID| id2 != id && has_node(nodes, id2) implies has_node(
                old(self).nodes@,
                id2,
            ) by {
                let i = choose|i: int| 0 <= i < nodes.len() && nodes[i].id == id2;
                assert(i < n);
                assert(old(self).nodes@[i].id == id2);
            }
            lemma_entry_at(nodes, id, n);
            assert forall|k: int| 0 <= k < self.connections@.len() implies connection_valid(
                #[trigger] self.connections@[k],
                nodes,
            ) by {
                let c = self.connections@[k];
                assert(connection_valid(c, old(self).nodes@));
                assert(node_entry(old(self).nodes@, c.source_node).id == c.source_node) by {
                    lemma_entry_id(old(self).nodes@, c.source_node);
                }
                assert(node_entry(old(self).nodes@, c.dest_node).id == c.dest_node) by {
                    lemma_entry_id(old(self).nodes@, c.dest_node);
                }
            }
        }
        id
    }

    /// Removes the node and severs every connection touching it.
    pub fn remove_node(&mut self, id: NodeID) -> (r: Result<(), NotFoundError>)
        requires
            old(self).wf(),
        ensures
            final(self).wf(),
            match r {
                Ok(()) => {
                    &&& has_node(old(self).nodes@, id)
                    &&& !has_node(final(self).nodes@, id)
                    &&& final(self).connections@ == connections_without(
                        old(self).connections@,
                        id,
                    )
                    &&& forall|id2: NodeID| id2 != id ==> (has_node(final(self).nodes@, id2) <==>
                        has_node(old(self).nodes@, id2))
                    &&& forall|id2: NodeID| id2 != id && has_node(old(self).nodes@, id2) ==>
                        node_entry(final(self).nodes@, id2) == node_entry(old(self).nodes@, id2)
                    &&& final(self).next_node_id == old(self).next_node_id
                },
                Err(NotFoundError) => {
                    &&& !has_node(old(self).nodes@, id)
                    &&& *final(self) == *old(self)
                },
            },
    {
        let found = self.find_node(id);
        let i = match found {
            Some(i) => i,
            None => {
                return Err(NotFoundError);
            },
        };
        let ghost old_nodes = self.nodes@;
        let ghost old_conns = self.connections@;
        self.nodes.remove(i);
        let kept = connections_kept(&self.connections, id);
        self.connections = kept;
        proof {
            let nodes = self.nodes@;
            assert(nodes =~= old_nodes.remove(i as int));
            assert forall|id2: NodeID| id2 != id && has_node(old_nodes, id2) implies has_node(
                nodes,
                id2,
            ) && node_entry(nodes, id2) == node_entry(old_nodes, id2) by {
                let j = choose|j: int| 0 <= j < old_nodes.len() && old_nodes[j].id == id2;
                let j2: int = if j < i { j } else { j - 1 };
                assert(j != i);
                assert(nodes[j2] == old_nodes[j]);
                lemma_entry_at(nodes, id2, j2);
                lemma_entry_at(old_nodes, id2, j);
            }
            assert forall|id2: NodeID| has_node(nodes, id2) implies id2 != id && has_node(
                old_nodes,
                id2,
            ) by {
                let j2 = choose|j2: int| 0 <= j2 < nodes.len() && nodes[j2].id == id2;
                let j: int = if j2 < i { j2 } else { j2 + 1 };
                assert(old_nodes[j] == nodes[j2]);
                assert(old_nodes[i as int].id == id);
                if id2 == id {
                    assert(old_nodes[j].id == old_nodes[i as int].id);
                    assert(j != i ==> false);
                }
            }
            assert forall|m: int| 0 <= m < self.connections@.len() implies connection_valid(
                #[trigger] self.connections@[m],
                nodes,
            ) by {
                let c = self.connections@[m];
                assert(old_conns.contains(c) && !node_touches(c, id));
                let k = choose|k: int| 0 <= k < old_conns.len() && old_conns[k] == c;
                assert(connection_valid(c, old_nodes));
                lemma_entry_id(old_nodes, c.source_node);
                lemma_entry_id(old_nodes, c.dest_node);
            }
        }
        Ok(())
    }

    /// Replaces the node's port arities and severs every connection touching
    /// it, so that the caller can re-wire it coherently.
    pub fn replace_node(
        &mut self,
        id: NodeID,
        audio_in_ports: usize,
        audio_out_ports: usize,
    ) -> (r: Result<(), NotFoundError>)
        requires
            old(self).wf(),
        ensures
            final(self).wf(),
            match r {
                Ok(()) => {
                    &&& has_node(old(self).nodes@, id)
                    &&& has_node(final(self).nodes@, id)
                    &&& node_entry(final(self).nodes@, id) == (GraphNode {
                        id,
                        audio_in_ports,
                        audio_out_ports,
                    })
                    &&& final(self).connections@ == connections_without(
                        old(self).connections@,
                        id,
                    )
                    &&& forall|id2: NodeID| id2 != id ==> (has_node(final(self).nodes@, id2) <==>
                        has_node(old(self).nodes@, id2))
                    &&& forall|id2: NodeID| id2 != id && has_node(old(self).nodes@, id2) ==>
                        node_entry(final(self).nodes@, id2) == node_entry(old(self).nodes@, id2)
                    &&& final(self).next_node_id == old(self).next_node_id
                },
                Err(NotFoundError) => {
                    &&& !has_node(old(self).nodes@, id)
                    &&& *final(self) == *old(self)
                },
            },
    {
        let found = self.find_node(id);
        let i = match found {
            Some(i) => i,
            None => {
                return Err(NotFoundError);
            },
        };
        let ghost old_nodes = self.nodes@;
        let ghost old_conns = self.connections@;
        let replacement = GraphNode { id, audio_in_ports, audio_out_ports };
        self.nodes[i] = replacement;
        let kept = connections_kept(&self.connections, id);
        self.connections = kept;
        proof {
            let nodes = self.nodes@;
            assert(nodes =~= old_nodes.update(i as int, replacement));
            assert forall|id2: NodeID| id2 != id && has_node(old_nodes, id2) implies has_node(
                nodes,
                id2,
            ) && node_entry(nodes, id2) == node_entry(old_nodes, id2) by {
                let j = choose|j: int| 0 <= j < old_nodes.len() && old_nodes[j].id == id2;
                assert(j != i);
                assert(nodes[j] == old_nodes[j]);
                lemma_entry_at(nodes, id2, j);
                lemma_entry_at(old_nodes, id2, j);
            }
            assert forall|id2: NodeID| id2 != id && has_node(nodes, id2) implies has_node(
                old_nodes,
                id2,
            ) by {
                let j = choose|j: int| 0 <= j < nodes.len() && nodes[j].id == id2;
                assert(j != i);
                assert(old_nodes[j] == nodes[j]);
            }
            lemma_entry_at(nodes, id, i as int);
            assert forall|m: int| 0 <= m < self.connections@.len() implies connection_valid(
                #[trigger] self.connections@[m],
                nodes,
            ) by {
                let c = self.connections@[m];
                assert(old_conns.contains(c) && !node_touches(c, id));
                let k = choose|k: int| 0 <= k < old_conns.len() && old_conns[k] == c;
                assert(connection_valid(c, old_nodes));
                lemma_entry_id(old_nodes, c.source_node);
                lemma_entry_id(old_nodes, c.dest_node);
            }
        }
        Ok(())
    }

    /// Connects an output port to a free input port of the same signal type.
    pub fn add_port_connection(
        &mut self,
        port_type: PortType,
        source_node: NodeID,
        source_port: usize,
        dest_node: NodeID,
        dest_port: usize,
    ) -> (r: Result<(), ConnectionError>)
        requires
            old(self).wf(),
        ensures
            final(self).wf(),
            final(self).nodes@ == old(self).nodes@,
            final(self).next_node_id == old(self).next_node_id,
            ({
                let c = PortConnection { port_type, source_node, source_port, dest_node, dest_port };
                let nodes = old(self).nodes@;
                let conns = old(self).connections@;
                match r {
                    Ok(()) => {
                        &&& connection_valid(c, nodes)
                        &&& !dest_occupied(conns, port_type, dest_node, dest_port)
                        &&& final(self).connections@ == conns.push(c)
                    },
                    Err(e) => {
                        &&& final(self).connections@ == conns
                        &&& e == if !has_node(nodes, source_node) {
                            ConnectionError::SourceNodeNotFound
                        } else if !has_node(nodes, dest_node) {
                            ConnectionError::DestNodeNotFound
                        } else if source_port >= node_entry(nodes, source_node).audio_out_ports {
                            ConnectionError::SourcePortOutOfRange
                        } else if dest_port >= node_entry(nodes, dest_node).audio_in_ports {
                            ConnectionError::DestPortOutOfRange
                        } else {
                            ConnectionError::DestPortOccupied
                        }
                        &&& !(connection_valid(c, nodes) && !dest_occupied(
                            conns,
                            port_type,
                            dest_node,
                            dest_port,
                        ))
                    },
                }
            }),
    {
        let src = match self.find_node(source_node) {
            Some(i) => i,
            None => {
                return Err(ConnectionError::SourceNodeNotFound);
            },
        };
        let dst = match self.find_node(dest_node) {
            Some(i) => i,
            None => {
                return Err(ConnectionError::DestNodeNotFound);
            },
        };
        proof {
            lemma_entry_at(self.nodes@, source_node, src as int);
            lemma_entry_at(self.nodes@, dest_node, dst as int);
        }
        if source_port >= self.nodes[src].audio_out_ports {
            return Err(ConnectionError::SourcePortOutOfRange);
        }
        if dest_port >= self.nodes[dst].audio_in_ports {
            return Err(ConnectionError::DestPortOutOfRange);
        }
        let mut k: usize = 0;
        while k < self.connections.len()
            invariant
                *self == *old(self),
                self.wf(),
                k <= self.connections@.len(),
                has_node(self.nodes@, source_node),
                has_node(self.nodes@, dest_node),
                source_port < node_entry(self.nodes@, source_node).audio_out_ports,
                dest_port < node_entry(self.nodes@, dest_node).audio_in_ports,
                forall|j: int| 0 <= j < k ==> !((#[trigger] self.connections@[j]).port_type
                    == port_type && self.connections@[j].dest_node == dest_node
                    && self.connections@[j].dest_port == dest_port),
            decreases self.connections@.len() - k,
        {
            let c = self.connections[k];
            if c.port_type == port_type && c.dest_node == dest_node && c.dest_port == dest_port {
                return Err(ConnectionError::DestPortOccupied);
            }
            k += 1;
        }
        let c = PortConnection { port_type, source_node, source_port, dest_node, dest_port };
        self.connections.push(c);
        Ok(())
    }

    /// Compiles the current topology into an immutable snapshot.
    pub fn compile(&self) -> (r: GraphSnapshot)
        ensures
            r@.nodes == self.nodes@,
            r@.connections == self.connections@,
    {
        let mut nodes: Vec<GraphNode> = Vec::new();
        let mut k: usize = 0;
        while k < self.nodes.len()
            invariant
                k <= self.nodes@.len(),
                nodes@ =~= self.nodes@.subrange(0, k as int),
            decreases self.nodes@.len() - k,
        {
            nodes.push(self.nodes[k]);
            k += 1;
        }
        let mut connections: Vec<PortConnection> = Vec::new();
        let mut m: usize = 0;
        while m < self.connections.len()
            invariant
                m <= self.connections@.len(),
                connections@ =~= self.connections@.subrange(0, m as int),
            decreases self.connections@.len() - m,
        {
            connections.push(self.connections[m]);
            m += 1;
        }
        proof {
            assert(nodes@ =~= self.nodes@);
            assert(connections@ =~= self.connections@);
        }
        GraphSnapshot { nodes, connections }
    }
}

/// The connections not touching `id`, in their original order.
fn connections_kept(conns: &Vec<PortConnection>, id: NodeID) -> (kept: Vec<PortConnection>)
    ensures
        kept@ == connections_without(conns@, id),
        forall|m: int| 0 <= m < kept@.len() ==> conns@.contains(#[trigger] kept@[m])
            && !node_touches(kept@[m], id),
        dests_distinct(conns@) ==> dests_distinct(kept@),
{
    let mut kept: Vec<PortConnection> = Vec::new();
    let mut k: usize = 0;
    while k < conns.len()
        invariant
            k <= conns@.len(),
            kept@ == connections_without(conns@.subrange(0, k as int), id),
            forall|m: int| 0 <= m < kept@.len() ==> exists|j: int|
                0 <= j < k && #[trigger] kept@[m] == conns@[j] && !node_touches(conns@[j], id),
            dests_distinct(conns@) ==> dests_distinct(kept@),
        decreases conns@.len() - k,
    {
        let c = conns[k];
        let ghost prev = kept@;
        if !(c.source_node == id || c.dest_node == id) {
            kept.push(c);
            proof {
                assert forall|m: int| 0 <= m < kept@.len() implies exists|j: int|
                    0 <= j < k + 1 && #[trigger] kept@[m] == conns@[j] && !node_touches(
                    conns@[j],
                    id,
                ) by {
                    if m < prev.len() {
                        let j = choose|j: int|
                            0 <= j < k && #[trigger] prev[m] == conns@[j] && !node_touches(
                                conns@[j],
                                id,
                            );
                        assert(kept@[m] == conns@[j]);
                    } else {
                        assert(kept@[m] == conns@[k as int]);
                    }
                }
                if dests_distinct(conns@) {
                    assert forall|i: int, j: int| 0 <= i < j < kept@.len() implies !(
                    (#[trigger] kept@[i]).port_type == (#[trigger] kept@[j]).port_type
                        && kept@[i].dest_node == kept@[j].dest_node && kept@[i].dest_port
                        == kept@[j].dest_port) by {
                        if j == kept@.len() - 1 {
                            let ji = choose|ji: int|
                                0 <= ji < k && #[trigger] prev[i] == conns@[ji] && !node_touches(
                                    conns@[ji],
                                    id,
                                );
                            assert(kept@[i] == conns@[ji]);
                            assert(kept@[j] == conns@[k as int]);
                            assert(ji < k);
                        }
                    }
                }
            }
        }
        proof {
            assert(conns@.subrange(0, (k + 1) as int).drop_last() =~= conns@.subrange(
                0,
                k as int,
            ));
            assert(conns@.subrange(0, (k + 1) as int).last() == conns@[k as int]);
        }
        k += 1;
    }
    proof {
        assert(conns@.subrange(0, conns@.len() as int) =~= conns@);
        assert forall|m: int| 0 <= m < kept@.len() implies conns@.contains(#[trigger] kept@[m])
            && !node_touches(kept@[m], id) by {
            let j = choose|j: int|
                0 <= j < conns@.len() && #[trigger] kept@[m] == conns@[j] && !node_touches(
                    conns@[j],
                    id,
                );
            assert(conns@[j] == kept@[m]);
        }
    }
    kept
}

/// Severing a node keeps exactly the connections that do not touch it.
pub proof fn lemma_without_membership(conns: Seq<PortConnection>, id: NodeID)
    ensures
        forall|c: PortConnection| #[trigger] connections_without(conns, id).contains(c) <==> (
        conns.contains(c) && !node_touches(c, id)),
    decreases conns.len(),
{
    if conns.len() == 0 {
    } else {
        let prefix = conns.drop_last();
        lemma_without_membership(prefix, id);
        let rest = connections_without(prefix, id);
        let whole = connections_without(conns, id);
        let last = conns.last();
        assert forall|c: PortConnection| #[trigger] whole.contains(c) implies conns.contains(c)
            && !node_touches(c, id) by {
            if node_touches(last, id) {
                assert(rest.contains(c));
            } else {
                let m = choose|m: int| 0 <= m < whole.len() && whole[m] == c;
                if m < rest.len() {
                    assert(rest[m] == c);
                    assert(rest.contains(c));
                } else {
                    assert(c == last);
                }
            }
            if rest.contains(c) || c == last {
                if rest.contains(c) {
                    assert(prefix.contains(c));
                    let j = choose|j: int| 0 <= j < prefix.len() && prefix[j] == c;
                    assert(conns[j] == c);
                } else {
                    assert(conns[conns.len() - 1] == c);
                }
            }
        }
        assert forall|c: PortConnection| conns.contains(c) && !node_touches(c, id) implies
            #[trigger] whole.contains(c) by {
            let k = choose|k: int| 0 <= k < conns.len() && conns[k] == c;
            if k < conns.len() - 1 {
                assert(prefix[k] == c);
                assert(prefix.contains(c));
                assert(rest.contains(c));
                let m = choose|m: int| 0 <= m < rest.len() && rest[m] == c;
                if node_touches(last, id) {
                    assert(whole[m] == c);
                } else {
                    assert(whole[m] == c);
                }
            } else {
                assert(c == last);
                assert(whole.last() == c);
            }
        }
    }
}

/// If every connection touches the severed node, none survives.
pub proof fn lemma_without_all_touch(conns: Seq<PortConnection>, id: NodeID)
    requires
        forall|k: int| 0 <= k < conns.len() ==> node_touches(#[trigger] conns[k], id),
    ensures
        connections_without(conns, id) == Seq::<PortConnection>::empty(),
    decreases conns.len(),
{
    if conns.len() == 0 {
        assert(connections_without(conns, id) =~= Seq::<PortConnection>::empty());
    } else {
        let prefix = conns.drop_last();
        assert(forall|k: int| 0 <= k < prefix.len() ==> node_touches(#[trigger] prefix[k], id));
        lemma_without_all_touch(prefix, id);
        assert(node_touches(conns.last(), id));
    }
}

/// Severing a node keeps the property that every connection has a distinct
/// source node.
pub proof fn lemma_without_sources_distinct(conns: Seq<PortConnection>, id: NodeID)
    requires
        forall|k1: int, k2: int| 0 <= k1 < k2 < conns.len() ==> (
        #[trigger] conns[k1]).source_node != (#[trigger] conns[k2]).source_node,
    ensures
        forall|m1: int, m2: int|
            0 <= m1 < m2 < connections_without(conns, id).len() ==> (
            #[trigger] connections_without(conns, id)[m1]).source_node != (
            #[trigger] connections_without(conns, id)[m2]).source_node,
    decreases conns.len(),
{
    if conns.len() == 0 {
    } else {
        let prefix = conns.drop_last();
        lemma_without_sources_distinct(prefix, id);
        lemma_without_membership(prefix, id);
        let rest = connections_without(prefix, id);
        let whole = connections_without(conns, id);
        let last = conns.last();
        assert forall|m1: int, m2: int| 0 <= m1 < m2 < whole.len() implies (
        #[trigger] whole[m1]).source_node != (#[trigger] whole[m2]).source_node by {
            if node_touches(last, id) {
                assert(whole[m1] == rest[m1] && whole[m2] == rest[m2]);
            } else {
                if m2 < rest.len() {
                    assert(whole[m1] == rest[m1] && whole[m2] == rest[m2]);
                } else {
                    assert(whole[m2] == last);
                    assert(whole[m1] == rest[m1]);
                    assert(rest.contains(rest[m1]));
                    let j = choose|j: int| 0 <= j < prefix.len() && prefix[j] == rest[m1];
                    assert(conns[j] == rest[m1]);
                    assert(conns[j].source_node != conns[conns.len() - 1].source_node);
                }
            }
        }
    }
}

/// If IDs are distinct and position `i` holds `id`, then `node_entry` picks
/// that very element.
pub proof fn lemma_entry_at(nodes: Seq<GraphNode>, id: NodeID, i: int)
    requires
        nodes_distinct(nodes),
        0 <= i < nodes.len(),
        nodes[i].id == id,
    ensures
        has_node(nodes, id),
        node_entry(nodes, id) == nodes[i],
{
    assert(has_node(nodes, id));
    let j = choose|j: int| 0 <= j < nodes.len() && nodes[j].id == id;
    if i != j {
        if i < j {
            assert(nodes[i].id != nodes[j].id);
        } else {
            assert(nodes[j].id != nodes[i].id);
        }
    }
}

/// The entry found for an existing ID carries that ID.
pub proof fn lemma_entry_id(nodes: Seq<GraphNode>, id: NodeID)
    requires
        has_node(nodes, id),
    ensures
        node_entry(nodes, id).id == id,
{
    let j = choose|j: int| 0 <= j < nodes.len() && nodes[j].id == id;
    assert(node_entry(nodes, id) == nodes[j]);
}

} // verus!
