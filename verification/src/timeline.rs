//! Timeline tracks, clips and the transport: their persisted save states
//! and their control-domain handles.

use vstd::prelude::*;

use crate::pcm::AnyPcm;
use crate::reclaim::{shared_pcm_id, shared_pcm_view};
use crate::resource_loader::{
    contains_path, entry_at, FetchResult, PcmCacheEntry, PcmLoadError, ResourceLoadError,
    ResourceLoader,
};
use crate::timebase::{MusicalTime, SampleTime, Seconds};

verus! {

/// The transport's loop region.
#[derive(Clone, Copy, Debug, PartialEq, Eq, Structural)]
pub enum LoopState {
    Inactive,
    Active { loop_start: SampleTime, loop_end: SampleTime },
}

/// Persisted form of one audio clip: its timeline placement, the path of
/// the asset it plays, and its gain in thousandths of a decibel.
#[derive(Debug, PartialEq)]
pub struct AudioClipSaveState {
    pub id: String,
    pub pcm_path: String,
    pub timeline_start: MusicalTime,
    pub duration: Seconds,
    pub clip_start_offset: Seconds,
    pub clip_gain_millidb: i32,
}

/// Persisted form of one timeline track.
#[derive(Debug, PartialEq)]
pub struct TimelineTrackSaveState {
    pub id: String,
    pub audio_clips: Vec<AudioClipSaveState>,
}

/// Persisted form of the transport.
#[derive(Clone, Copy, Debug, PartialEq, Eq, Structural)]
pub struct TimelineTransportSaveState {
    pub seek_to: MusicalTime,
    pub loop_state: LoopState,
}

impl Default for TimelineTransportSaveState {
    fn default() -> (r: TimelineTransportSaveState)
        ensures
            r.seek_to.millibeats == 0,
            r.loop_state == LoopState::Inactive,
    {
        TimelineTransportSaveState {
            seek_to: MusicalTime { millibeats: 0 },
            loop_state: LoopState::Inactive,
        }
    }
}

/// Control-domain handle to the transport. Edits update both the live value
/// and the project's save state, so the persisted form never lags.
#[derive(Clone, Copy, Debug, PartialEq, Eq, Structural)]
pub struct TimelineTransportHandle {
    pub playing: bool,
    pub seek_to: MusicalTime,
    pub loop_state: LoopState,
}

impl TimelineTransportHandle {
    pub fn new(save: &TimelineTransportSaveState) -> (r: TimelineTransportHandle)
        ensures
            r.playing == false,
            r.seek_to == save.seek_to,
            r.loop_state == save.loop_state,
    {
        TimelineTransportHandle {
            playing: false,
            seek_to: save.seek_to,
            loop_state: save.loop_state,
        }
    }

    pub fn set_playing(&mut self, playing: bool)
        ensures
            *final(self) == (TimelineTransportHandle { playing, ..*old(self) }),
    {
        self.playing = playing;
    }

    pub fn seek(&mut self, to: MusicalTime, save: &mut TimelineTransportSaveState)
        ensures
            *final(self) == (TimelineTransportHandle { seek_to: to, ..*old(self) }),
            *final(save) == (TimelineTransportSaveState { seek_to: to, ..*old(save) }),
    {
        self.seek_to = to;
        save.seek_to = to;
    }

    pub fn set_loop_state(&mut self, loop_state: LoopState, save: &mut TimelineTransportSaveState)
        ensures
            *final(self) == (TimelineTransportHandle { loop_state, ..*old(self) }),
            *final(save) == (TimelineTransportSaveState { loop_state, ..*old(save) }),
    {
        self.loop_state = loop_state;
        save.loop_state = loop_state;
    }
}

/// Control-domain handle to one track's render node: for each clip, the
/// buffer its asset resolved to, or `None` where the load failed.
pub struct TimelineTrackHandle {
    pub clip_pcm: Vec<Option<basedrop::Shared<AnyPcm>>>,
}

/// The warning one clip contributes: `None` when its asset is cached and
/// loaded, otherwise the load error on record (or `NotFound` for a path no
/// decode attempt reached).
pub open spec fn clip_warning(
    cache: Seq<PcmCacheEntry>,
    clip: AudioClipSaveState,
) -> Option<PcmLoadError> {
    if !contains_path(cache, clip.pcm_path@) {
        Some(PcmLoadError::NotFound)
    } else {
        match entry_at(cache, clip.pcm_path@).result {
            Ok(_) => None,
            Err(e) => Some(e),
        }
    }
}

/// The warnings a clip list produces against a cache, in clip order.
pub open spec fn clip_warnings(
    cache: Seq<PcmCacheEntry>,
    clips: Seq<AudioClipSaveState>,
) -> Seq<(Seq<char>, PcmLoadError)>
    decreases clips.len(),
{
    if clips.len() == 0 {
        Seq::empty()
    } else {
        let rest = clip_warnings(cache, clips.drop_last());
        match clip_warning(cache, clips.last()) {
            None => rest,
            Some(e) => rest.push((clips.last().pcm_path@, e)),
        }
    }
}

/// One clip's slot in a track handle agrees with the cache.
pub open spec fn clip_resolved(
    cache: Seq<PcmCacheEntry>,
    clip: AudioClipSaveState,
    slot: Option<basedrop::Shared<AnyPcm>>,
) -> bool {
    match slot {
        Some(s) => {
            &&& contains_path(cache, clip.pcm_path@)
            &&& entry_at(cache, clip.pcm_path@).result is Ok
            &&& shared_pcm_id(&s) == shared_pcm_id(&entry_at(cache, clip.pcm_path@).result->Ok_0)
            &&& shared_pcm_view(&s) == shared_pcm_view(
                &entry_at(cache, clip.pcm_path@).result->Ok_0,
            )
        },
        None => clip_warning(cache, clip) is Some,
    }
}

impl TimelineTrackHandle {
    /// Resolves every clip of a track against the resource cache: shared
    /// handles for the assets on hand, and one warning per clip whose asset
    /// is not. Nothing is decoded here, so a cached asset is shared, never
    /// loaded twice.
    pub fn build(track: &TimelineTrackSaveState, loader: &ResourceLoader) -> (r: (
        TimelineTrackHandle,
        Vec<ResourceLoadError>,
    ))
        requires
            loader.wf(),
        ensures
            r.0.clip_pcm@.len() == track.audio_clips@.len(),
            forall|j: int| 0 <= j < track.audio_clips@.len() ==> clip_resolved(
                loader.cache(),
                track.audio_clips@[j],
                #[trigger] r.0.clip_pcm@[j],
            ),
            warnings_match(r.1@, clip_warnings(loader.cache(), track.audio_clips@)),
    {
        let mut clip_pcm: Vec<Option<basedrop::Shared<AnyPcm>>> = Vec::new();
        let mut warnings: Vec<ResourceLoadError> = Vec::new();
        let clips = &track.audio_clips;
        let mut k: usize = 0;
        while k < clips.len()
            invariant
                loader.wf(),
                k <= clips@.len(),
                clip_pcm@.len() == k,
                forall|j: int| 0 <= j < k ==> clip_resolved(
                    loader.cache(),
                    clips@[j],
                    #[trigger] clip_pcm@[j],
                ),
                warnings_match(warnings@, clip_warnings(loader.cache(), clips@.subrange(0, k as int))),
            decreases clips@.len() - k,
        {
            let clip = &clips[k];
            match loader.fetch(&clip.pcm_path) {
                FetchResult::Loaded(s) => {
                    clip_pcm.push(Some(s));
                },
                FetchResult::Failed(e) => {
                    clip_pcm.push(None);
                    warnings.push(ResourceLoadError { pcm_path: clip.pcm_path.clone(), error: e });
                },
                FetchResult::Missing => {
                    clip_pcm.push(None);
                    warnings.push(
                        ResourceLoadError {
                            pcm_path: clip.pcm_path.clone(),
                            error: PcmLoadError::NotFound,
                        },
                    );
                },
            }
            proof {
                assert(clips@.subrange(0, (k + 1) as int).drop_last() =~= clips@.subrange(
                    0,
                    k as int,
                ));
                assert(clips@.subrange(0, (k + 1) as int).last() == clips@[k as int]);
            }
            k += 1;
        }
        proof {
            assert(clips@.subrange(0, clips@.len() as int) =~= clips@);
        }
        (TimelineTrackHandle { clip_pcm }, warnings)
    }
}

/// The collected warnings carry exactly the expected paths and errors.
pub open spec fn warnings_match(
    warnings: Seq<ResourceLoadError>,
    expected: Seq<(Seq<char>, PcmLoadError)>,
) -> bool {
    &&& warnings.len() == expected.len()
    &&& forall|k: int| 0 <= k < warnings.len() ==> (#[trigger] warnings[k]).pcm_path@
        == expected[k].0 && warnings[k].error == expected[k].1
}

} // verus!
