use daw_core::pcm::{AnyPcm, MonoPcm};
use daw_core::project_interface::{ProjectInterface, ProjectSaveState};
use daw_core::reclaim::{load_published_snapshot, pcm_contents, same_pcm_buffer, snapshot_contents};
use daw_core::resource_loader::FetchResult;
use daw_core::timebase::{MusicalTime, SampleRate, Seconds};
use daw_core::timeline::{AudioClipSaveState, LoopState, TimelineTrackSaveState};

fn sr() -> SampleRate {
    SampleRate::new(44100)
}

fn clip(id: &str, path: &str, beat: u32) -> AudioClipSaveState {
    AudioClipSaveState {
        id: id.to_owned(),
        pcm_path: path.to_owned(),
        timeline_start: MusicalTime::from_beats(beat),
        duration: Seconds::new(10, 0),
        clip_start_offset: Seconds::new(0, 0),
        clip_gain_millidb: -6000,
    }
}

fn track(id: &str, clips: Vec<AudioClipSaveState>) -> TimelineTrackSaveState {
    TimelineTrackSaveState { id: id.to_owned(), audio_clips: clips }
}

fn mono_pcm() -> AnyPcm {
    AnyPcm::Mono(MonoPcm::new(vec![1, 2, 3, 4], sr()))
}

#[test]
fn empty_project_round_trip() {
    let (project, _rt, warnings) = ProjectInterface::new(ProjectSaveState::new_empty(sr()), sr());
    assert_eq!(warnings.len(), 0);
    assert_eq!(project.num_timeline_tracks(), 0);
    let expected = ProjectSaveState::new_empty(sr());
    assert_eq!(*project.save_state(), expected);
}

#[test]
fn two_track_round_trip_with_overlapping_clips() {
    let make = || ProjectSaveState {
        timeline_tracks: vec![
            track("A", vec![clip("c1", "x.wav", 0), clip("c2", "x.wav", 0)]),
            track("B", vec![clip("c3", "y.wav", 1)]),
        ],
        ..ProjectSaveState::new_empty(sr())
    };
    let (project, _rt, _warnings) = ProjectInterface::new(make(), sr());
    assert_eq!(*project.save_state(), make());
}

#[test]
fn add_duplicate_id_leaves_state_unchanged() {
    let (mut project, _rt, _w) = ProjectInterface::new(ProjectSaveState::new_empty(sr()), sr());
    assert!(project.add_timeline_track(track("A", vec![])).is_ok());
    let before = format!("{:?}", project.save_state());
    let res = project.add_timeline_track(track("A", vec![clip("c", "z.wav", 0)]));
    assert!(res.is_err());
    assert_eq!(format!("{:?}", project.save_state()), before);
    assert_eq!(project.num_timeline_tracks(), 1);
}

#[test]
fn rename_track() {
    let (mut project, _rt, _w) = ProjectInterface::new(ProjectSaveState::new_empty(sr()), sr());
    project.add_timeline_track(track("A", vec![])).unwrap();
    project.add_timeline_track(track("B", vec![])).unwrap();

    // Renaming onto a taken ID fails, and so does renaming a missing track.
    assert!(project.set_timeline_track_id(&"A".to_owned(), "B".to_owned()).is_err());
    assert!(project.set_timeline_track_id(&"missing".to_owned(), "C".to_owned()).is_err());

    assert!(project.set_timeline_track_id(&"A".to_owned(), "C".to_owned()).is_ok());
    assert!(project.timeline_track(&"A".to_owned()).is_none());
    let (_h, s) = project.timeline_track(&"C".to_owned()).unwrap();
    assert_eq!(s.id, "C");
    assert_eq!(project.save_state().timeline_tracks[0].id, "C");
}

#[test]
fn transport_edits_mirror_into_save_state() {
    let (mut project, _rt, _w) = ProjectInterface::new(ProjectSaveState::new_empty(sr()), sr());
    let loop_state = LoopState::Active {
        loop_start: daw_core::timebase::SampleTime::new(0),
        loop_end: daw_core::timebase::SampleTime::new(50_000),
    };
    {
        let (handle, save) = project.timeline_transport_mut();
        handle.set_loop_state(loop_state, save);
        handle.seek(MusicalTime::from_beats(4), save);
    }
    assert_eq!(project.save_state().timeline_transport.loop_state, loop_state);
    assert_eq!(project.save_state().timeline_transport.seek_to.millibeats, 4000);
}

#[test]
fn scenario_add_share_remove() {
    let path = "synth.wav".to_owned();
    let (mut project, rt, warnings) =
        ProjectInterface::new(ProjectSaveState::new_empty(sr()), sr());
    assert!(warnings.is_empty());

    // One decode attempt for the path, stored ahead of the adds.
    project.resource_loader_mut().store(path.clone(), Ok(mono_pcm())).unwrap();
    assert_eq!(project.resource_loader().cached_count(), 1);

    // Track 1 holds two clips that reference the same source path.
    let t1 = track("Track 1", vec![clip("c1", "synth.wav", 0), clip("c2", "synth.wav", 1)]);
    let w1 = project.add_timeline_track(t1).unwrap();
    assert!(w1.is_empty());
    assert_eq!(project.resource_loader().cached_count(), 1); // still one decode
    {
        let (h, _s) = project.timeline_track(&"Track 1".to_owned()).unwrap();
        assert_eq!(h.clip_pcm.len(), 2);
        let a = h.clip_pcm[0].as_ref().unwrap();
        let b = h.clip_pcm[1].as_ref().unwrap();
        assert!(same_pcm_buffer(a, b)); // both clips share one buffer
    }
    let mix = project.master_mix_node_id();
    {
        let s = load_published_snapshot(&rt);
        let snap = snapshot_contents(&s);
        let mixer = snap.nodes.iter().find(|n| n.id == mix).unwrap();
        assert_eq!(mixer.audio_in_ports, 1);
        assert_eq!(snap.connections.len(), 1);
    }

    // Track 2 references the same path: a cache hit, no further decode.
    let t2 = track("Track 2", vec![clip("c3", "synth.wav", 2)]);
    let w2 = project.add_timeline_track(t2).unwrap();
    assert!(w2.is_empty());
    assert_eq!(project.resource_loader().cached_count(), 1);
    {
        let s = load_published_snapshot(&rt);
        let snap = snapshot_contents(&s);
        let mixer = snap.nodes.iter().find(|n| n.id == mix).unwrap();
        assert_eq!(mixer.audio_in_ports, 2);
        assert_eq!(snap.connections.len(), 2);
    }

    // Removing Track 1 leaves the mixer arity unshrunk, and the buffer stays
    // alive through Track 2's reference.
    project.remove_timeline_track(&"Track 1".to_owned()).unwrap();
    assert!(project.timeline_track(&"Track 1".to_owned()).is_none());
    {
        let s = load_published_snapshot(&rt);
        let snap = snapshot_contents(&s);
        let mixer = snap.nodes.iter().find(|n| n.id == mix).unwrap();
        assert_eq!(mixer.audio_in_ports, 2);
        assert_eq!(snap.connections.len(), 1);
    }
    project.collect_cycle();
    match project.resource_loader().fetch(&path) {
        FetchResult::Loaded(s) => match pcm_contents(&s) {
            AnyPcm::Mono(m) => assert_eq!(m.data(), &vec![1, 2, 3, 4]),
            _ => panic!("expected a mono buffer"),
        },
        _ => panic!("buffer should still be cached"),
    }
}

#[test]
fn superseded_snapshot_stays_readable_while_held() {
    let (mut project, rt, _w) = ProjectInterface::new(ProjectSaveState::new_empty(sr()), sr());
    let held = load_published_snapshot(&rt);
    let before = snapshot_contents(&held).clone();

    // Publish a new snapshot, then run a reclamation cycle.
    project.add_timeline_track(track("A", vec![])).unwrap();
    project.collect_cycle();
    project.collect_cycle();

    // The held handle still reads the superseded snapshot, intact.
    assert_eq!(*snapshot_contents(&held), before);
    let current = load_published_snapshot(&rt);
    assert_ne!(*snapshot_contents(&current), before);
}

#[test]
fn test_save_state_contents() {
    let s = ProjectSaveState::test(sr());
    assert_eq!(s.timeline_tracks.len(), 1);
    let t = &s.timeline_tracks[0];
    assert_eq!(t.id, "Track 1");
    assert_eq!(t.audio_clips.len(), 2);
    assert_eq!(t.audio_clips[0].id, "Audio Clip 1");
    assert_eq!(t.audio_clips[1].id, "Audio Clip 2");
    for c in &t.audio_clips {
        assert_eq!(c.pcm_path, "./test_files/synth_keys/synth_keys_44100_16bit.wav");
        assert_eq!(c.clip_gain_millidb, -6000);
        assert_eq!(c.duration, Seconds::new(10, 0));
    }
    assert_eq!(t.audio_clips[1].timeline_start.millibeats, 1000);
    match s.timeline_transport.loop_state {
        LoopState::Active { loop_start, loop_end } => {
            assert_eq!(loop_start.frames, 0);
            assert_eq!(loop_end.frames, 50_000);
        },
        _ => panic!("expected an active loop"),
    }
    assert_eq!(s.tempo_map.millibpm, 110_000);
    assert_eq!(s.audio_clip_declick_time, Seconds::new(0, 10_000));

    // A project built from it reduces back to an equal save state.
    let (project, _rt, _warnings) = ProjectInterface::new(s, sr());
    assert_eq!(*project.save_state(), ProjectSaveState::test(sr()));
}

#[test]
fn missing_assets_become_warnings_not_failures() {
    let (mut project, _rt, _w) = ProjectInterface::new(ProjectSaveState::new_empty(sr()), sr());
    let w = project
        .add_timeline_track(track("A", vec![clip("c1", "gone.wav", 0)]))
        .unwrap();
    assert_eq!(w.len(), 1);
    assert_eq!(w[0].pcm_path, "gone.wav");
    assert_eq!(w[0].error, daw_core::resource_loader::PcmLoadError::NotFound);
    // The track exists even though its clip's asset failed to load.
    let (h, _s) = project.timeline_track(&"A".to_owned()).unwrap();
    assert!(h.clip_pcm[0].is_none());
}
