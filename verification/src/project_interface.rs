//! The project model and its orchestrator.
//!
//! [`ProjectInterface`] is the single writer of project state. Every
//! user-facing mutation goes through one of its methods, which keeps the
//! index table and the parallel handle and node-ID tables in lockstep,
//! performs a coherent batch of graph edits, and ends a structural mutation
//! by compiling exactly one new snapshot and publishing it; a partial
//! topology is never published.

use vstd::prelude::*;

use crate::graph_interface::{
    connections_without, has_node, lemma_entry_at, lemma_without_all_touch,
    lemma_without_membership, lemma_without_sources_distinct, node_entry, node_touches, GraphNode,
    GraphSnapshot, GraphSnapshotView, GraphTopology, NodeID, PortConnection, PortType,
};
use crate::reclaim::{cell_clone, cell_new, cell_publish, cell_snapshot, collector_collect,
    collector_handle, collector_new, handle_clone};
use crate::resource_loader::{
    contains_path, entry_at, entry_matches, PcmCacheEntry, ResourceLoadError, ResourceLoader,
};
use crate::timebase::{SampleRate, Seconds, TempoMap};
use crate::timeline::{
    clip_warnings, warnings_match, LoopState, TimelineTrackHandle, TimelineTrackSaveState,
    TimelineTransportHandle, TimelineTransportSaveState,
};

verus! {

/// Everything needed to persist a project: the plain, serializable mirror
/// of tracks, transport and tempo. The orchestrator can be constructed from
/// one and reduced back to one.
#[derive(Debug, PartialEq)]
pub struct ProjectSaveState {
    pub timeline_tracks: Vec<TimelineTrackSaveState>,
    pub timeline_transport: TimelineTransportSaveState,
    pub tempo_map: TempoMap,
    pub audio_clip_declick_time: Seconds,
}

/// The default declick span for audio clips: ten milliseconds.
pub open spec fn default_declick_time() -> Seconds {
    Seconds { whole: 0, micros: 10_000 }
}

impl ProjectSaveState {
    pub fn new_empty(sample_rate: SampleRate) -> (r: ProjectSaveState)
        ensures
            r.timeline_tracks@.len() == 0,
            r.timeline_transport == (TimelineTransportSaveState {
                seek_to: crate::timebase::MusicalTime { millibeats: 0 },
                loop_state: LoopState::Inactive,
            }),
            r.tempo_map == (TempoMap { millibpm: 110_000, sample_rate }),
            r.audio_clip_declick_time == default_declick_time(),
    {
        ProjectSaveState {
            timeline_tracks: Vec::new(),
            timeline_transport: TimelineTransportSaveState::default(),
            tempo_map: TempoMap::new(110_000, sample_rate),
            audio_clip_declick_time: Seconds::new(0, 10_000),
        }
    }

    /// A small demonstration project: one track holding two clips that play
    /// the same source file.
    pub fn test(sample_rate: SampleRate) -> (r: ProjectSaveState)
        ensures
            r.timeline_transport.loop_state == (LoopState::Active {
                loop_start: crate::timebase::SampleTime { frames: 0 },
                loop_end: crate::timebase::SampleTime { frames: 50_000 },
            }),
            r.tempo_map == (TempoMap { millibpm: 110_000, sample_rate }),
            r.audio_clip_declick_time == default_declick_time(),
            r.timeline_tracks@.len() == 1,
            r.timeline_tracks@[0].id@ == "Track 1"@,
            r.timeline_tracks@[0].audio_clips@.len() == 2,
            r.timeline_tracks@[0].audio_clips@[0].id@ == "Audio Clip 1"@,
            r.timeline_tracks@[0].audio_clips@[1].id@ == "Audio Clip 2"@,
            forall|j: int| 0 <= j < 2 ==> (#[trigger] r.timeline_tracks@[0].audio_clips@[j]).pcm_path@
                == "./test_files/synth_keys/synth_keys_44100_16bit.wav"@,
            r.timeline_tracks@[0].audio_clips@[0].timeline_start.millibeats == 0,
            r.timeline_tracks@[0].audio_clips@[1].timeline_start.millibeats == 1000,
            forall|j: int| 0 <= j < 2 ==> (#[trigger] r.timeline_tracks@[0].audio_clips@[j]).duration
                == (Seconds { whole: 10, micros: 0 }),
            forall|j: int| 0 <= j < 2 ==> (
            #[trigger] r.timeline_tracks@[0].audio_clips@[j]).clip_start_offset == (Seconds {
                whole: 0,
                micros: 0,
            }),
            forall|j: int| 0 <= j < 2 ==> (
            #[trigger] r.timeline_tracks@[0].audio_clips@[j]).clip_gain_millidb == -6000,
    {
        let mut new_self = ProjectSaveState::new_empty(sample_rate);

        new_self.timeline_transport.loop_state = LoopState::Active {
            loop_start: crate::timebase::SampleTime::new(0),
            loop_end: crate::timebase::SampleTime::new(50_000),
        };

        let mut audio_clips: Vec<crate::timeline::AudioClipSaveState> = Vec::new();
        audio_clips.push(
            crate::timeline::AudioClipSaveState {
                id: "Audio Clip 1".to_owned(),
                pcm_path: "./test_files/synth_keys/synth_keys_44100_16bit.wav".to_owned(),
                timeline_start: crate::timebase::MusicalTime::from_beats(0),
                duration: Seconds::new(10, 0),
                clip_start_offset: Seconds::new(0, 0),
                clip_gain_millidb: -6000,
            },
        );
        audio_clips.push(
            crate::timeline::AudioClipSaveState {
                id: "Audio Clip 2".to_owned(),
                pcm_path: "./test_files/synth_keys/synth_keys_44100_16bit.wav".to_owned(),
                timeline_start: crate::timebase::MusicalTime::from_beats(1),
                duration: Seconds::new(10, 0),
                clip_start_offset: Seconds::new(0, 0),
                clip_gain_millidb: -6000,
            },
        );
        new_self.timeline_tracks.push(
            TimelineTrackSaveState { id: "Track 1".to_owned(), audio_clips },
        );

        new_self
    }
}

pub open spec fn track_ids_distinct(tracks: Seq<TimelineTrackSaveState>) -> bool {
    forall|i: int, j: int| 0 <= i < j < tracks.len() ==> (#[trigger] tracks[i]).id@ != (
    #[trigger] tracks[j]).id@
}

pub open spec fn contains_node_id(ids: Seq<NodeID>, id: NodeID) -> bool {
    exists|i: int| 0 <= i < ids.len() && ids[i] == id
}

/// The connection wiring track `i`'s node into mixer input `port`.
pub open spec fn track_mix_connection(track_node: NodeID, mix_node: NodeID, port: usize) -> PortConnection {
    PortConnection {
        port_type: PortType::StereoAudio,
        source_node: track_node,
        source_port: 0,
        dest_node: mix_node,
        dest_port: port,
    }
}

/// Every connection wires some track's output into the master mix node,
/// and every track's node is the source of at least one connection; no node
/// is the source of two.
pub open spec fn some_conn_from(conns: Seq<PortConnection>, id: NodeID) -> bool {
    exists|k: int| 0 <= k < conns.len() && (#[trigger] conns[k]).source_node == id
}

pub open spec fn track_wiring_ok(
    conns: Seq<PortConnection>,
    ids: Seq<NodeID>,
    mix: NodeID,
) -> bool {
    &&& forall|k: int| 0 <= k < conns.len() ==> ((#[trigger] conns[k]).port_type
        == PortType::StereoAudio && conns[k].source_port == 0 && conns[k].dest_node == mix
        && contains_node_id(ids, conns[k].source_node))
    &&& forall|i: int| 0 <= i < ids.len() ==> some_conn_from(conns, #[trigger] ids[i])
    &&& forall|k1: int, k2: int| 0 <= k1 < k2 < conns.len() ==> (
    #[trigger] conns[k1]).source_node != (#[trigger] conns[k2]).source_node
}

/// Track nodes and the mix node all exist, with the right port arities, and
/// all distinct.
pub open spec fn track_nodes_ok(
    nodes: Seq<GraphNode>,
    ids: Seq<NodeID>,
    mix: NodeID,
    count: int,
) -> bool {
    &&& forall|i: int, j: int| 0 <= i < j < ids.len() ==> ids[i] != ids[j]
    &&& forall|i: int| 0 <= i < ids.len() ==> (#[trigger] ids[i]) != mix
    &&& forall|i: int| 0 <= i < ids.len() ==> has_node(nodes, #[trigger] ids[i]) && node_entry(
        nodes,
        ids[i],
    ) == (GraphNode { id: ids[i], audio_in_ports: 0, audio_out_ports: 1 })
    &&& has_node(nodes, mix)
    &&& node_entry(nodes, mix).audio_out_ports == 1
    &&& node_entry(nodes, mix).audio_in_ports >= count
}

/// A connection list that wires track `j` into mixer input `j`, for every
/// `j`, satisfies `track_wiring_ok`.
pub proof fn lemma_exact_wiring(conns: Seq<PortConnection>, ids: Seq<NodeID>, mix: NodeID)
    requires
        conns.len() == ids.len(),
        forall|j: int| 0 <= j < conns.len() ==> #[trigger] conns[j] == track_mix_connection(
            ids[j],
            mix,
            j as usize,
        ),
        forall|i: int, j: int| 0 <= i < j < ids.len() ==> ids[i] != ids[j],
    ensures
        track_wiring_ok(conns, ids, mix),
{
    assert forall|k: int| 0 <= k < conns.len() implies ((#[trigger] conns[k]).port_type
        == PortType::StereoAudio && conns[k].source_port == 0 && conns[k].dest_node == mix
        && contains_node_id(ids, conns[k].source_node)) by {
        assert(conns[k].source_node == ids[k]);
    }
    assert forall|i: int| 0 <= i < ids.len() implies some_conn_from(conns, #[trigger] ids[i]) by {
        assert(conns[i].source_node == ids[i]);
        assert(some_conn_from(conns, ids[i]));
    }
    assert forall|k1: int, k2: int| 0 <= k1 < k2 < conns.len() implies (
    #[trigger] conns[k1]).source_node != (#[trigger] conns[k2]).source_node by {
        assert(conns[k1].source_node == ids[k1]);
        assert(conns[k2].source_node == ids[k2]);
    }
}

/// Wires every track node into its own input of the mix node, track `j` to
/// input `j`, on a graph with no connections yet.
fn wire_tracks(graph: &mut GraphTopology, node_ids: &Vec<NodeID>, mix: NodeID)
    requires
        old(graph).wf(),
        old(graph).connections@.len() == 0,
        forall|i: int, j: int| 0 <= i < j < node_ids@.len() ==> node_ids@[i] != node_ids@[j],
        forall|i: int| 0 <= i < node_ids@.len() ==> (#[trigger] node_ids@[i]) != mix,
        forall|i: int| 0 <= i < node_ids@.len() ==> has_node(
            old(graph).nodes@,
            #[trigger] node_ids@[i],
        ) && node_entry(old(graph).nodes@, node_ids@[i]) == (GraphNode {
            id: node_ids@[i],
            audio_in_ports: 0,
            audio_out_ports: 1,
        }),
        has_node(old(graph).nodes@, mix),
        node_entry(old(graph).nodes@, mix).audio_in_ports >= node_ids@.len(),
    ensures
        final(graph).wf(),
        final(graph).nodes@ == old(graph).nodes@,
        final(graph).next_node_id == old(graph).next_node_id,
        final(graph).connections@.len() == node_ids@.len(),
        forall|j: int| 0 <= j < node_ids@.len() ==> #[trigger] final(graph).connections@[j]
            == track_mix_connection(node_ids@[j], mix, j as usize),
{
    let n = node_ids.len();
    let mut k: usize = 0;
    while k < n
        invariant
            n == node_ids@.len(),
            k <= n,
            graph.wf(),
            graph.nodes@ == old(graph).nodes@,
            graph.next_node_id == old(graph).next_node_id,
            forall|i: int, j: int| 0 <= i < j < n ==> node_ids@[i] != node_ids@[j],
            forall|i: int| 0 <= i < n ==> (#[trigger] node_ids@[i]) != mix,
            forall|i: int| 0 <= i < n ==> has_node(graph.nodes@, #[trigger] node_ids@[i])
                && node_entry(graph.nodes@, node_ids@[i]) == (GraphNode {
                id: node_ids@[i],
                audio_in_ports: 0,
                audio_out_ports: 1,
            }),
            has_node(graph.nodes@, mix),
            node_entry(graph.nodes@, mix).audio_in_ports >= n,
            graph.connections@.len() == k,
            forall|j: int| 0 <= j < k ==> #[trigger] graph.connections@[j]
                == track_mix_connection(node_ids@[j], mix, j as usize),
        decreases n - k,
    {
        proof {
            assert forall|c: int| 0 <= c < graph.connections@.len() implies !(
            (#[trigger] graph.connections@[c]).port_type == PortType::StereoAudio
                && graph.connections@[c].dest_node == mix && graph.connections@[c].dest_port
                == k) by {
                assert(graph.connections@[c] == track_mix_connection(
                    node_ids@[c],
                    mix,
                    c as usize,
                ));
            }
        }
        let res = graph.add_port_connection(PortType::StereoAudio, node_ids[k], 0, mix, k);
        match res {
            Ok(()) => {},
            Err(_) => unreached(),
        }
        k += 1;
    }
}

/// In every well-formed project the index table and the parallel handle and
/// node-ID tables are equal in length and consistently ordered with the
/// save state; since every mutation keeps well-formedness, this holds after
/// any sequence of track additions, removals and renames.
pub proof fn lemma_tables_in_lockstep(p: ProjectInterface)
    requires
        p.wf(),
    ensures
        p.track_index().len() == p.track_count(),
        p.track_handles().len() == p.track_count(),
        p.track_node_ids().len() == p.track_count(),
        forall|i: int| 0 <= i < p.track_count() ==> (#[trigger] p.track_index()[i])@
            == p.spec_save_state().timeline_tracks@[i].id@,
{
}

/// In every well-formed project the published snapshot is exactly the
/// compiled current topology: it contains the master mix node with input
/// arity at least the track count, and every track's node output feeds
/// exactly one mixer input.
pub proof fn lemma_published_snapshot_wired(p: ProjectInterface)
    requires
        p.wf(),
    ensures
        p.published().nodes == p.spec_graph().nodes@,
        p.published().connections == p.spec_graph().connections@,
        has_node(p.published().nodes, p.spec_mix_node_id()),
        node_entry(p.published().nodes, p.spec_mix_node_id()).audio_in_ports >= p.track_count(),
        forall|i: int| 0 <= i < p.track_count() ==> some_conn_from(
            p.published().connections,
            #[trigger] p.track_node_ids()[i],
        ),
        forall|k1: int, k2: int|
            0 <= k1 < k2 < p.published().connections.len() ==> (
            #[trigger] p.published().connections[k1]).source_node != (
            #[trigger] p.published().connections[k2]).source_node,
        forall|k: int| 0 <= k < p.published().connections.len() ==> (
        #[trigger] p.published().connections[k]).dest_node == p.spec_mix_node_id(),
{
}

/// All operations that affect the project state happen through this
/// struct's methods, which keep the state valid at every step.
pub struct ProjectInterface {
    save_state: ProjectSaveState,
    graph: GraphTopology,
    cell: basedrop::Shared<basedrop::SharedCell<GraphSnapshot>>,
    resource_loader: ResourceLoader,
    collector: basedrop::Collector,
    coll_handle: basedrop::Handle,
    timeline_track_indexes: Vec<String>,
    timeline_track_handles: Vec<TimelineTrackHandle>,
    timeline_track_node_ids: Vec<NodeID>,
    timeline_transport: TimelineTransportHandle,
    master_track_mix_in_node_id: NodeID,
    sample_rate: SampleRate,
}

impl ProjectInterface {
    pub closed spec fn spec_save_state(self) -> ProjectSaveState {
        self.save_state
    }

    pub closed spec fn spec_graph(self) -> GraphTopology {
        self.graph
    }

    pub closed spec fn spec_cell(self) -> basedrop::Shared<basedrop::SharedCell<GraphSnapshot>> {
        self.cell
    }

    pub closed spec fn spec_loader(self) -> ResourceLoader {
        self.resource_loader
    }

    pub closed spec fn track_index(self) -> Seq<String> {
        self.timeline_track_indexes@
    }

    pub closed spec fn track_handles(self) -> Seq<TimelineTrackHandle> {
        self.timeline_track_handles@
    }

    pub closed spec fn track_node_ids(self) -> Seq<NodeID> {
        self.timeline_track_node_ids@
    }

    pub closed spec fn spec_transport(self) -> TimelineTransportHandle {
        self.timeline_transport
    }

    pub closed spec fn spec_mix_node_id(self) -> NodeID {
        self.master_track_mix_in_node_id
    }

    pub closed spec fn spec_sample_rate(self) -> SampleRate {
        self.sample_rate
    }

    /// The snapshot currently published for the render domain.
    pub open spec fn published(self) -> GraphSnapshotView {
        cell_snapshot(&self.spec_cell())
    }

    pub open spec fn track_count(self) -> int {
        self.spec_save_state().timeline_tracks@.len() as int
    }

    /// The index table and the parallel handle and node-ID tables are equal
    /// in length and consistently ordered with the save state.
    pub open spec fn tables_in_lockstep(self) -> bool {
        &&& self.track_index().len() == self.track_count()
        &&& self.track_handles().len() == self.track_count()
        &&& self.track_node_ids().len() == self.track_count()
        &&& forall|i: int| 0 <= i < self.track_count() ==> (#[trigger] self.track_index()[i])@
            == self.spec_save_state().timeline_tracks@[i].id@
    }

    /// Every connection in this project's graph wires some track's output
    /// into the master mix node, each track exactly once.
    pub open spec fn wiring_ok(self) -> bool {
        track_wiring_ok(
            self.spec_graph().connections@,
            self.track_node_ids(),
            self.spec_mix_node_id(),
        )
    }

    pub open spec fn nodes_ok(self) -> bool {
        track_nodes_ok(
            self.spec_graph().nodes@,
            self.track_node_ids(),
            self.spec_mix_node_id(),
            self.track_count(),
        )
    }

    /// The full well-formedness of the project: tables in lockstep, unique
    /// track IDs, a well-formed graph whose published snapshot is exactly
    /// the compiled current topology.
    pub open spec fn wf(self) -> bool {
        &&& self.tables_in_lockstep()
        &&& track_ids_distinct(self.spec_save_state().timeline_tracks@)
        &&& self.spec_graph().wf()
        &&& self.nodes_ok()
        &&& self.wiring_ok()
        &&& self.spec_loader().wf()
        &&& self.spec_loader().spec_sample_rate() == self.spec_sample_rate()
        &&& self.published() == (GraphSnapshotView {
            nodes: self.spec_graph().nodes@,
            connections: self.spec_graph().connections@,
        })
    }

    /// Room to allocate node IDs for at least one more track.
    pub open spec fn can_allocate_node(self) -> bool {
        self.spec_graph().next_node_id < u64::MAX
    }

    /// Builds a project from its save-state representation. Returns the
    /// orchestrator, a second handle to the published-snapshot cell for the
    /// render domain, and one warning per clip whose asset is not cached.
    #[verifier::rlimit(60)]
    pub fn new(save_state: ProjectSaveState, sample_rate: SampleRate) -> (r: (
        ProjectInterface,
        basedrop::Shared<basedrop::SharedCell<GraphSnapshot>>,
        Vec<ResourceLoadError>,
    ))
        requires
            track_ids_distinct(save_state.timeline_tracks@),
            save_state.timeline_tracks@.len() + 1 < u64::MAX,
        ensures
            r.0.wf(),
            r.0.can_allocate_node(),
            r.0.spec_save_state() == save_state,
            r.0.spec_sample_rate() == sample_rate,
            r.0.spec_loader().cache().len() == 0,
            r.0.track_count() == save_state.timeline_tracks@.len(),
            node_entry(r.0.spec_graph().nodes@, r.0.spec_mix_node_id()).audio_in_ports
                == r.0.track_count(),
            r.0.spec_graph().connections@.len() == r.0.track_count(),
            forall|i: int| 0 <= i < r.0.track_count() ==> r.0.spec_graph().connections@[i]
                == track_mix_connection(
                r.0.track_node_ids()[i],
                r.0.spec_mix_node_id(),
                i as usize,
            ),
            r.0.spec_transport() == (TimelineTransportHandle {
                playing: false,
                seek_to: save_state.timeline_transport.seek_to,
                loop_state: save_state.timeline_transport.loop_state,
            }),
            save_state.timeline_tracks@.len() == 0 ==> r.2@.len() == 0,
    {
        let collector = collector_new();
        let coll_handle = collector_handle(&collector);
        let resource_loader = ResourceLoader::new(handle_clone(&coll_handle), sample_rate);

        let mut load_errors: Vec<ResourceLoadError> = Vec::new();
        let mut timeline_track_indexes: Vec<String> = Vec::new();
        let mut timeline_track_handles: Vec<TimelineTrackHandle> = Vec::new();
        let mut timeline_track_node_ids: Vec<NodeID> = Vec::new();
        let mut graph = GraphTopology::new();

        let n = save_state.timeline_tracks.len();
        let mut k: usize = 0;
        while k < n
            invariant
                n == save_state.timeline_tracks@.len(),
                n + 1 < u64::MAX,
                k <= n,
                resource_loader.wf(),
                graph.wf(),
                graph.connections@.len() == 0,
                graph.nodes@.len() == k,
                graph.next_node_id == k,
                forall|i: int| 0 <= i < k ==> graph.nodes@[i] == (GraphNode {
                    id: NodeID(i as u64),
                    audio_in_ports: 0,
                    audio_out_ports: 1,
                }),
                timeline_track_node_ids@.len() == k,
                forall|i: int| 0 <= i < k ==> timeline_track_node_ids@[i] == NodeID(i as u64),
                timeline_track_indexes@.len() == k,
                forall|i: int| 0 <= i < k ==> (#[trigger] timeline_track_indexes@[i])@
                    == save_state.timeline_tracks@[i].id@,
                timeline_track_handles@.len() == k,
                k == 0 ==> load_errors@.len() == 0,
            decreases n - k,
        {
            let track = &save_state.timeline_tracks[k];
            let (handle, mut errs) = TimelineTrackHandle::build(track, &resource_loader);
            load_errors.append(&mut errs);

            let node_id = graph.add_new_node(0, 1);
            timeline_track_indexes.push(track.id.clone());
            timeline_track_handles.push(handle);
            timeline_track_node_ids.push(node_id);
            k += 1;
        }

        // All timeline tracks are mixed into a single master track: a mix
        // node whose input arity is always the current track count.
        let master_track_mix_in_node_id = graph.add_new_node(n, 1);

        let ghost nodes_done = graph.nodes@;
        proof {
            assert(nodes_done[n as int] == (GraphNode {
                id: NodeID(n as u64),
                audio_in_ports: n,
                audio_out_ports: 1,
            }));
            lemma_entry_at(nodes_done, NodeID(n as u64), n as int);
        }

        proof {
            assert forall|i: int| 0 <= i < timeline_track_node_ids@.len() implies has_node(
                graph.nodes@,
                #[trigger] timeline_track_node_ids@[i],
            ) && node_entry(graph.nodes@, timeline_track_node_ids@[i]) == (GraphNode {
                id: timeline_track_node_ids@[i],
                audio_in_ports: 0,
                audio_out_ports: 1,
            }) by {
                lemma_entry_at(graph.nodes@, NodeID(i as u64), i);
            }
        }
        wire_tracks(&mut graph, &timeline_track_node_ids, master_track_mix_in_node_id);

        let snapshot = graph.compile();
        let cell = cell_new(&coll_handle, snapshot);
        let rt_cell = cell_clone(&cell);
        let timeline_transport = TimelineTransportHandle::new(&save_state.timeline_transport);

        let project = ProjectInterface {
            save_state,
            graph,
            cell,
            resource_loader,
            collector,
            coll_handle,
            timeline_track_indexes,
            timeline_track_handles,
            timeline_track_node_ids,
            timeline_transport,
            master_track_mix_in_node_id,
            sample_rate,
        };
        proof {
            lemma_entry_at(project.spec_graph().nodes@, NodeID(n as u64), n as int);
            assert forall|i: int| 0 <= i < project.track_node_ids().len() implies has_node(
                project.spec_graph().nodes@,
                #[trigger] project.track_node_ids()[i],
            ) && node_entry(project.spec_graph().nodes@, project.track_node_ids()[i]) == (GraphNode {
                id: project.track_node_ids()[i],
                audio_in_ports: 0,
                audio_out_ports: 1,
            }) by {
                lemma_entry_at(project.spec_graph().nodes@, NodeID(i as u64), i);
            }
            lemma_exact_wiring(
                project.spec_graph().connections@,
                project.track_node_ids(),
                project.spec_mix_node_id(),
            );
            assert(project.wf());
        }
        (project, rt_cell, load_errors)
    }

    /// Index of the track with the given ID in the index table.
    fn find_track_index(&self, id: &String) -> (r: Option<usize>)
        requires
            self.wf(),
        ensures
            match r {
                Some(i) => i < self.track_count() && self.track_index()[i as int]@ == id@ && i
                    == self.track_index_of(id@),
                None => !self.contains_track(id@),
            },
    {
        let mut k: usize = 0;
        while k < self.timeline_track_indexes.len()
            invariant
                self.wf(),
                k <= self.track_index().len(),
                forall|j: int| 0 <= j < k ==> (#[trigger] self.track_index()[j])@ != id@,
            decreases self.track_index().len() - k,
        {
            if self.timeline_track_indexes[k] == *id {
                proof {
                    let j = choose|j: int|
                        0 <= j < self.track_index().len() && (#[trigger] self.track_index()[j])@
                            == id@;
                    if j != k {
                        assert(self.spec_save_state().timeline_tracks@[j].id@ == id@);
                        assert(self.spec_save_state().timeline_tracks@[k as int].id@ == id@);
                    }
                }
                return Some(k);
            }
            k += 1;
        }
        None
    }

    pub open spec fn contains_track(self, id: Seq<char>) -> bool {
        exists|i: int| 0 <= i < self.track_index().len() && (#[trigger] self.track_index()[i])@
            == id
    }

    /// Position of the track with this ID; meaningful only when
    /// `contains_track` holds.
    pub open spec fn track_index_of(self, id: Seq<char>) -> int {
        choose|i: int| 0 <= i < self.track_index().len() && (#[trigger] self.track_index()[i])@
            == id
    }

    /// An immutable view of the timeline track with the given ID.
    pub fn timeline_track(&self, id: &String) -> (r: Option<
        (&TimelineTrackHandle, &TimelineTrackSaveState),
    >)
        requires
            self.wf(),
        ensures
            match r {
                None => !self.contains_track(id@),
                Some((h, s)) => {
                    let i = self.track_index_of(id@);
                    &&& self.contains_track(id@)
                    &&& 0 <= i < self.track_count()
                    &&& *h == self.track_handles()[i]
                    &&& *s == self.spec_save_state().timeline_tracks@[i]
                },
            },
    {
        match self.find_track_index(id) {
            Some(i) => Some(
                (&self.timeline_track_handles[i], &self.save_state.timeline_tracks[i]),
            ),
            None => None,
        }
    }

    /// Mutable access to the timeline track with the given ID: its handle,
    /// its clip list, and the resource cache to resolve new clips against.
    /// The track's ID itself changes only through `set_timeline_track_id`.
    pub fn timeline_track_mut(&mut self, id: &String) -> (r: Option<
        (&mut TimelineTrackHandle, &mut Vec<crate::timeline::AudioClipSaveState>, &mut ResourceLoader),
    >)
        requires
            old(self).wf(),
        ensures
            match r {
                None => !old(self).contains_track(id@) && *final(self) == *old(self),
                Some((h, clips, loader)) => {
                    let i = old(self).track_index_of(id@);
                    &&& old(self).contains_track(id@)
                    &&& 0 <= i < old(self).track_count()
                    &&& *h == old(self).track_handles()[i]
                    &&& *clips == old(self).spec_save_state().timeline_tracks@[i].audio_clips
                    &&& *loader == old(self).spec_loader()
                    &&& final(self).track_handles() == old(self).track_handles().update(
                        i,
                        *final(h),
                    )
                    &&& final(self).spec_save_state().timeline_tracks@ == old(
                        self,
                    ).spec_save_state().timeline_tracks@.update(
                        i,
                        TimelineTrackSaveState {
                            id: old(self).spec_save_state().timeline_tracks@[i].id,
                            audio_clips: *final(clips),
                        },
                    )
                    &&& final(self).spec_save_state().timeline_transport == old(
                        self,
                    ).spec_save_state().timeline_transport
                    &&& final(self).spec_save_state().tempo_map == old(
                        self,
                    ).spec_save_state().tempo_map
                    &&& final(self).spec_save_state().audio_clip_declick_time == old(
                        self,
                    ).spec_save_state().audio_clip_declick_time
                    &&& final(self).spec_loader() == *final(loader)
                    &&& final(self).spec_graph() == old(self).spec_graph()
                    &&& final(self).spec_cell() == old(self).spec_cell()
                    &&& final(self).track_index() == old(self).track_index()
                    &&& final(self).track_node_ids() == old(self).track_node_ids()
                    &&& final(self).spec_transport() == old(self).spec_transport()
                    &&& final(self).spec_mix_node_id() == old(self).spec_mix_node_id()
                    &&& final(self).spec_sample_rate() == old(self).spec_sample_rate()
                    &&& (final(loader).wf() && final(loader).spec_sample_rate() == old(
                        self,
                    ).spec_sample_rate() ==> final(self).wf())
                },
            },
    {
        match self.find_track_index(id) {
            Some(i) => {
                Some(
                    (
                        &mut self.timeline_track_handles[i],
                        &mut self.save_state.timeline_tracks[i].audio_clips,
                        &mut self.resource_loader,
                    ),
                )
            },
            None => None,
        }
    }

    /// Changes a track's ID, the key it is looked up under. The rename is
    /// atomic with respect to the index table: it fails if the new ID is
    /// taken (or equals the old one) or the old ID is absent, and otherwise
    /// replaces the key in the index table and the save state in one step.
    pub fn set_timeline_track_id(&mut self, old_id: &String, new_id: String) -> (r: Result<
        (),
        (),
    >)
        requires
            old(self).wf(),
        ensures
            final(self).wf(),
            match r {
                Err(()) => (old(self).contains_track(new_id@) || !old(self).contains_track(
                    old_id@,
                )) && *final(self) == *old(self),
                Ok(()) => {
                    let i = old(self).track_index_of(old_id@);
                    &&& !old(self).contains_track(new_id@)
                    &&& old(self).contains_track(old_id@)
                    &&& 0 <= i < old(self).track_count()
                    &&& final(self).track_index().len() == old(self).track_index().len()
                    &&& forall|j: int| 0 <= j < old(self).track_index().len() && j != i ==> (
                    #[trigger] final(self).track_index()[j])@ == old(self).track_index()[j]@
                    &&& final(self).track_index()[i]@ == new_id@
                    &&& final(self).spec_save_state().timeline_tracks@ == old(
                        self,
                    ).spec_save_state().timeline_tracks@.update(
                        i,
                        TimelineTrackSaveState {
                            id: new_id,
                            audio_clips: old(
                                self,
                            ).spec_save_state().timeline_tracks@[i].audio_clips,
                        },
                    )
                    &&& final(self).spec_save_state().timeline_transport == old(
                        self,
                    ).spec_save_state().timeline_transport
                    &&& final(self).spec_save_state().tempo_map == old(
                        self,
                    ).spec_save_state().tempo_map
                    &&& final(self).spec_save_state().audio_clip_declick_time == old(
                        self,
                    ).spec_save_state().audio_clip_declick_time
                    &&& final(self).track_handles() == old(self).track_handles()
                    &&& final(self).track_node_ids() == old(self).track_node_ids()
                    &&& final(self).spec_graph() == old(self).spec_graph()
                    &&& final(self).spec_cell() == old(self).spec_cell()
                    &&& final(self).spec_loader() == old(self).spec_loader()
                    &&& final(self).spec_transport() == old(self).spec_transport()
                    &&& final(self).spec_mix_node_id() == old(self).spec_mix_node_id()
                    &&& final(self).spec_sample_rate() == old(self).spec_sample_rate()
                },
            },
    {
        if self.find_track_index(&new_id).is_some() {
            return Err(());
        }
        let i = match self.find_track_index(old_id) {
            Some(i) => i,
            None => {
                return Err(());
            },
        };
        let id_for_save = new_id.clone();
        self.timeline_track_indexes[i] = new_id;
        self.save_state.timeline_tracks[i].id = id_for_save;
        proof {
            assert(self.spec_save_state().timeline_tracks@ =~= old(
                self,
            ).spec_save_state().timeline_tracks@.update(
                i as int,
                TimelineTrackSaveState {
                    id: self.spec_save_state().timeline_tracks@[i as int].id,
                    audio_clips: old(self).spec_save_state().timeline_tracks@[i as int].audio_clips,
                },
            ));
            let tracks = self.spec_save_state().timeline_tracks@;
            assert forall|a: int, b: int| 0 <= a < b < tracks.len() implies (
            #[trigger] tracks[a]).id@ != (#[trigger] tracks[b]).id@ by {
                assert(!old(self).contains_track(new_id@));
                if a != i && b != i {
                    assert(tracks[a] == old(self).spec_save_state().timeline_tracks@[a]);
                    assert(tracks[b] == old(self).spec_save_state().timeline_tracks@[b]);
                } else if a == i {
                    assert(tracks[b] == old(self).spec_save_state().timeline_tracks@[b]);
                    assert(old(self).track_index()[b]@ == tracks[b].id@);
                } else {
                    assert(tracks[a] == old(self).spec_save_state().timeline_tracks@[a]);
                    assert(old(self).track_index()[a]@ == tracks[a].id@);
                }
            }
            assert(self.wf());
        }
        Ok(())
    }

    /// The persisted representation of the whole project. Constructing a
    /// project from a save state and reducing it back through this accessor
    /// yields the same representation.
    pub fn save_state(&self) -> (r: &ProjectSaveState)
        ensures
            *r == self.spec_save_state(),
    {
        &self.save_state
    }

    pub fn sample_rate(&self) -> (r: SampleRate)
        ensures
            r == self.spec_sample_rate(),
    {
        self.sample_rate
    }

    pub fn num_timeline_tracks(&self) -> (r: usize)
        ensures
            r == self.track_count(),
    {
        self.save_state.timeline_tracks.len()
    }

    pub fn master_mix_node_id(&self) -> (r: NodeID)
        ensures
            r == self.spec_mix_node_id(),
    {
        self.master_track_mix_in_node_id
    }

    pub fn can_add_track(&self) -> (r: bool)
        ensures
            r == self.can_allocate_node(),
    {
        self.graph.next_node_id < u64::MAX
    }

    /// Read access to the resource cache.
    pub fn resource_loader(&self) -> (r: &ResourceLoader)
        ensures
            *r == self.spec_loader(),
    {
        &self.resource_loader
    }

    /// Adds a timeline track. Rejected when the ID is already present, and
    /// the project state is then left unchanged. Otherwise the track's clips
    /// are resolved against the resource cache (collecting one warning per
    /// clip whose asset is missing or failed, never aborting the add), the
    /// mix node is rebuilt to the new total input arity, every track is
    /// wired to its own mixer input, and exactly one new snapshot is
    /// published.
    #[verifier::rlimit(60)]
    pub fn add_timeline_track(&mut self, track: TimelineTrackSaveState) -> (r: Result<
        Vec<ResourceLoadError>,
        (),
    >)
        requires
            old(self).wf(),
            old(self).can_allocate_node(),
        ensures
            final(self).wf(),
            final(self).spec_sample_rate() == old(self).spec_sample_rate(),
            final(self).spec_mix_node_id() == old(self).spec_mix_node_id(),
            final(self).spec_loader() == old(self).spec_loader(),
            final(self).spec_transport() == old(self).spec_transport(),
            match r {
                Err(()) => old(self).contains_track(track.id@) && *final(self) == *old(self),
                Ok(warnings) => {
                    let n = old(self).track_count() + 1;
                    &&& !old(self).contains_track(track.id@)
                    &&& final(self).spec_save_state().timeline_tracks@ == old(
                        self,
                    ).spec_save_state().timeline_tracks@.push(track)
                    &&& final(self).spec_save_state().timeline_transport == old(
                        self,
                    ).spec_save_state().timeline_transport
                    &&& final(self).spec_save_state().tempo_map == old(
                        self,
                    ).spec_save_state().tempo_map
                    &&& final(self).spec_save_state().audio_clip_declick_time == old(
                        self,
                    ).spec_save_state().audio_clip_declick_time
                    &&& final(self).track_index().len() == n
                    &&& final(self).track_index().subrange(0, n - 1) == old(self).track_index()
                    &&& final(self).track_index().last()@ == track.id@
                    &&& final(self).track_node_ids() == old(self).track_node_ids().push(
                        NodeID(old(self).spec_graph().next_node_id),
                    )
                    &&& final(self).track_handles().len() == n
                    &&& final(self).track_handles().subrange(0, n - 1) == old(
                        self,
                    ).track_handles()
                    &&& final(self).track_handles().last().clip_pcm@.len()
                        == track.audio_clips@.len()
                    &&& forall|j: int| 0 <= j < track.audio_clips@.len()
                        ==> crate::timeline::clip_resolved(
                        old(self).spec_loader().cache(),
                        track.audio_clips@[j],
                        #[trigger] final(self).track_handles().last().clip_pcm@[j],
                    )
                    &&& node_entry(
                        final(self).spec_graph().nodes@,
                        final(self).spec_mix_node_id(),
                    ).audio_in_ports == n
                    &&& final(self).spec_graph().connections@.len() == n
                    &&& forall|j: int| 0 <= j < n
                        ==> #[trigger] final(self).spec_graph().connections@[j] == track_mix_connection(
                        final(self).track_node_ids()[j],
                        final(self).spec_mix_node_id(),
                        j as usize,
                    )
                    &&& warnings_match(
                        warnings@,
                        clip_warnings(old(self).spec_loader().cache(), track.audio_clips@),
                    )
                },
            },
    {
        if self.find_track_index(&track.id).is_some() {
            return Err(());
        }
        let (handle, warnings) = TimelineTrackHandle::build(&track, &self.resource_loader);
        let ghost prev = *self;
        let node_id = self.graph.add_new_node(0, 1);
        self.timeline_track_indexes.push(track.id.clone());
        self.timeline_track_handles.push(handle);
        self.timeline_track_node_ids.push(node_id);
        self.save_state.timeline_tracks.push(track);
        let n = self.save_state.timeline_tracks.len();

        proof {
            // The mix node predates the fresh track node, so its ID differs.
            let nodes0 = prev.spec_graph().nodes@;
            let m = choose|m: int|
                0 <= m < nodes0.len() && nodes0[m].id == prev.spec_mix_node_id();
            assert(nodes0[m].id.0 < prev.spec_graph().next_node_id);
            assert forall|i: int| 0 <= i < prev.track_node_ids().len() implies (
            #[trigger] prev.track_node_ids()[i]) != node_id by {
                let w = choose|w: int|
                    0 <= w < nodes0.len() && nodes0[w].id == prev.track_node_ids()[i];
                assert(nodes0[w].id.0 < prev.spec_graph().next_node_id);
            }
        }
        let res = self.graph.replace_node(self.master_track_mix_in_node_id, n, 1);
        match res {
            Ok(()) => {},
            Err(_) => unreached(),
        }
        proof {
            // Every connection so far ends at the mix node, so rebuilding it
            // severed them all.
            assert forall|k: int| 0 <= k < prev.spec_graph().connections@.len() implies
                node_touches(
                #[trigger] prev.spec_graph().connections@[k],
                prev.spec_mix_node_id(),
            ) by {}
            lemma_without_all_touch(prev.spec_graph().connections@, prev.spec_mix_node_id());
            assert(self.graph.connections@.len() == 0);
            assert forall|i: int| 0 <= i < self.timeline_track_node_ids@.len() implies has_node(
                self.graph.nodes@,
                #[trigger] self.timeline_track_node_ids@[i],
            ) && node_entry(self.graph.nodes@, self.timeline_track_node_ids@[i]) == (GraphNode {
                id: self.timeline_track_node_ids@[i],
                audio_in_ports: 0,
                audio_out_ports: 1,
            }) by {
                let tid = self.timeline_track_node_ids@[i];
                if i < prev.track_node_ids().len() {
                    assert(tid == prev.track_node_ids()[i]);
                } else {
                    assert(tid == node_id);
                }
            }
        }
        wire_tracks(&mut self.graph, &self.timeline_track_node_ids, self.master_track_mix_in_node_id);
        let snapshot = self.graph.compile();
        cell_publish(&mut self.cell, &self.coll_handle, snapshot);
        proof {
            lemma_exact_wiring(
                self.graph.connections@,
                self.track_node_ids(),
                self.spec_mix_node_id(),
            );
            assert(self.track_index().subrange(0, self.track_index().len() - 1) =~= prev.track_index());
            assert(self.track_handles().subrange(0, self.track_handles().len() - 1) =~= prev.track_handles());
            let tracks = self.spec_save_state().timeline_tracks@;
            assert forall|a: int, b: int| 0 <= a < b < tracks.len() implies (
            #[trigger] tracks[a]).id@ != (#[trigger] tracks[b]).id@ by {
                if b == tracks.len() - 1 {
                    assert(tracks[a] == prev.spec_save_state().timeline_tracks@[a]);
                    assert(prev.track_index()[a]@ == tracks[a].id@);
                    assert(!prev.contains_track(tracks[b].id@));
                } else {
                    assert(tracks[a] == prev.spec_save_state().timeline_tracks@[a]);
                    assert(tracks[b] == prev.spec_save_state().timeline_tracks@[b]);
                }
            }
            assert(self.wf());
        }
        Ok(warnings)
    }

    /// Removes the track with the given ID: its row leaves all four tables,
    /// its node and wiring leave the graph, and one new snapshot is
    /// published. The mix node's input arity is deliberately not shrunk;
    /// the freed input is simply left unconnected.
    #[verifier::rlimit(60)]
    pub fn remove_timeline_track(&mut self, id: &String) -> (r: Result<(), ()>)
        requires
            old(self).wf(),
        ensures
            final(self).wf(),
            final(self).spec_sample_rate() == old(self).spec_sample_rate(),
            final(self).spec_mix_node_id() == old(self).spec_mix_node_id(),
            final(self).spec_loader() == old(self).spec_loader(),
            final(self).spec_transport() == old(self).spec_transport(),
            match r {
                Err(()) => !old(self).contains_track(id@) && *final(self) == *old(self),
                Ok(()) => {
                    let i = old(self).track_index_of(id@);
                    &&& old(self).contains_track(id@)
                    &&& 0 <= i < old(self).track_count()
                    &&& final(self).spec_save_state().timeline_tracks@ == old(
                        self,
                    ).spec_save_state().timeline_tracks@.remove(i)
                    &&& final(self).spec_save_state().timeline_transport == old(
                        self,
                    ).spec_save_state().timeline_transport
                    &&& final(self).spec_save_state().tempo_map == old(
                        self,
                    ).spec_save_state().tempo_map
                    &&& final(self).spec_save_state().audio_clip_declick_time == old(
                        self,
                    ).spec_save_state().audio_clip_declick_time
                    &&& final(self).track_index() == old(self).track_index().remove(i)
                    &&& final(self).track_handles() == old(self).track_handles().remove(i)
                    &&& final(self).track_node_ids() == old(self).track_node_ids().remove(i)
                    &&& !has_node(
                        final(self).spec_graph().nodes@,
                        old(self).track_node_ids()[i],
                    )
                    &&& node_entry(
                        final(self).spec_graph().nodes@,
                        final(self).spec_mix_node_id(),
                    ).audio_in_ports == node_entry(
                        old(self).spec_graph().nodes@,
                        old(self).spec_mix_node_id(),
                    ).audio_in_ports
                    &&& final(self).spec_graph().connections@ == connections_without(
                        old(self).spec_graph().connections@,
                        old(self).track_node_ids()[i],
                    )
                },
            },
    {
        let i = match self.find_track_index(id) {
            Some(i) => i,
            None => {
                return Err(());
            },
        };
        let ghost prev = *self;
        self.timeline_track_indexes.remove(i);
        self.timeline_track_handles.remove(i);
        let node_id = self.timeline_track_node_ids.remove(i);
        self.save_state.timeline_tracks.remove(i);
        let res = self.graph.remove_node(node_id);
        match res {
            Ok(()) => {},
            Err(_) => unreached(),
        }
        let snapshot = self.graph.compile();
        cell_publish(&mut self.cell, &self.coll_handle, snapshot);
        proof {
            let removed = prev.track_node_ids()[i as int];
            let old_conns = prev.spec_graph().connections@;
            let new_conns = self.graph.connections@;
            let new_ids = self.track_node_ids();
            lemma_without_membership(old_conns, removed);
            lemma_without_sources_distinct(old_conns, removed);
            assert forall|k: int| 0 <= k < new_conns.len() implies ((
            #[trigger] new_conns[k]).port_type == PortType::StereoAudio
                && new_conns[k].source_port == 0 && new_conns[k].dest_node
                == self.spec_mix_node_id() && contains_node_id(
                new_ids,
                new_conns[k].source_node,
            )) by {
                let c = new_conns[k];
                assert(new_conns.contains(c));
                assert(old_conns.contains(c) && !node_touches(c, removed));
                let k0 = choose|k0: int| 0 <= k0 < old_conns.len() && old_conns[k0] == c;
                assert(contains_node_id(prev.track_node_ids(), c.source_node));
                let j = choose|j: int|
                    0 <= j < prev.track_node_ids().len() && prev.track_node_ids()[j]
                        == c.source_node;
                assert(j != i);
                let j2: int = if j < i { j } else { j - 1 };
                assert(new_ids[j2] == prev.track_node_ids()[j]);
                assert(contains_node_id(new_ids, c.source_node));
            }
            assert forall|t: int| 0 <= t < new_ids.len() implies some_conn_from(
                new_conns,
                #[trigger] new_ids[t],
            ) by {
                let t0: int = if t < i { t } else { t + 1 };
                assert(prev.track_node_ids()[t0] == new_ids[t]);
                assert(some_conn_from(old_conns, prev.track_node_ids()[t0]));
                let k0 = choose|k0: int|
                    0 <= k0 < old_conns.len() && (#[trigger] old_conns[k0]).source_node
                        == prev.track_node_ids()[t0];
                let c = old_conns[k0];
                assert(c.dest_node == prev.spec_mix_node_id());
                assert(new_ids[t] != removed);
                assert(prev.spec_mix_node_id() != removed);
                assert(!node_touches(c, removed));
                assert(old_conns.contains(c));
                assert(new_conns.contains(c));
                let m = choose|m: int| 0 <= m < new_conns.len() && new_conns[m] == c;
                assert((new_conns[m]).source_node == new_ids[t]);
            }
            assert(self.wf());
        }
        Ok(())
    }

    /// Mutable access to the transport's live handle together with its
    /// persisted mirror, so that transport edits keep the save state exact.
    pub fn timeline_transport_mut(&mut self) -> (r: (
        &mut TimelineTransportHandle,
        &mut TimelineTransportSaveState,
    ))
        ensures
            *r.0 == old(self).spec_transport(),
            *r.1 == old(self).spec_save_state().timeline_transport,
            final(self).spec_transport() == *final(r.0),
            final(self).spec_save_state().timeline_transport == *final(r.1),
            final(self).spec_save_state().timeline_tracks == old(
                self,
            ).spec_save_state().timeline_tracks,
            final(self).spec_save_state().tempo_map == old(self).spec_save_state().tempo_map,
            final(self).spec_save_state().audio_clip_declick_time == old(
                self,
            ).spec_save_state().audio_clip_declick_time,
            final(self).spec_graph() == old(self).spec_graph(),
            final(self).spec_cell() == old(self).spec_cell(),
            final(self).spec_loader() == old(self).spec_loader(),
            final(self).track_index() == old(self).track_index(),
            final(self).track_handles() == old(self).track_handles(),
            final(self).track_node_ids() == old(self).track_node_ids(),
            final(self).spec_mix_node_id() == old(self).spec_mix_node_id(),
            final(self).spec_sample_rate() == old(self).spec_sample_rate(),
            old(self).wf() ==> final(self).wf(),
    {
        (&mut self.timeline_transport, &mut self.save_state.timeline_transport)
    }

    /// One cycle of the background reclamation loop: release cache entries
    /// that only the cache still references, then drop every allocation
    /// whose last handle is gone. Called from the reclamation domain, never
    /// from the render domain.
    pub fn collect_cycle(&mut self)
        requires
            old(self).wf(),
        ensures
            final(self).wf(),
            final(self).spec_save_state() == old(self).spec_save_state(),
            final(self).spec_graph() == old(self).spec_graph(),
            final(self).spec_cell() == old(self).spec_cell(),
            final(self).track_index() == old(self).track_index(),
            final(self).track_handles() == old(self).track_handles(),
            final(self).track_node_ids() == old(self).track_node_ids(),
            final(self).spec_transport() == old(self).spec_transport(),
            final(self).spec_mix_node_id() == old(self).spec_mix_node_id(),
            final(self).spec_sample_rate() == old(self).spec_sample_rate(),
            forall|p: Seq<char>| contains_path(final(self).spec_loader().cache(), p)
                ==> contains_path(old(self).spec_loader().cache(), p) && entry_matches(
                entry_at(final(self).spec_loader().cache(), p),
                entry_at(old(self).spec_loader().cache(), p),
            ),
            forall|p: Seq<char>| contains_path(old(self).spec_loader().cache(), p) && entry_at(
                old(self).spec_loader().cache(),
                p,
            ).result is Err ==> contains_path(final(self).spec_loader().cache(), p),
    {
        self.resource_loader.collect();
        collector_collect(&mut self.collector);
    }

    /// Write access to the resource cache, used to store the outcome of
    /// decode attempts before tracks referencing them are added.
    pub fn resource_loader_mut(&mut self) -> (r: &mut ResourceLoader)
        ensures
            *r == old(self).spec_loader(),
            final(self).spec_loader() == *final(r),
            final(self).spec_save_state() == old(self).spec_save_state(),
            final(self).spec_graph() == old(self).spec_graph(),
            final(self).spec_cell() == old(self).spec_cell(),
            final(self).track_index() == old(self).track_index(),
            final(self).track_handles() == old(self).track_handles(),
            final(self).track_node_ids() == old(self).track_node_ids(),
            final(self).spec_transport() == old(self).spec_transport(),
            final(self).spec_mix_node_id() == old(self).spec_mix_node_id(),
            final(self).spec_sample_rate() == old(self).spec_sample_rate(),
            old(self).wf() && final(r).wf() && final(r).spec_sample_rate() == old(
                self,
            ).spec_sample_rate() ==> final(self).wf(),
    {
        &mut self.resource_loader
    }
}

} // verus!
