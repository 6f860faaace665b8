use daw_core::pcm::{AnyPcm, MonoPcm, StereoPcm};
use daw_core::reclaim::{pcm_contents, same_pcm_buffer};
use daw_core::resource_loader::{FetchResult, PcmLoadError, ResourceLoader};
use daw_core::timebase::{MusicalTime, SampleRate, TempoMap};

fn sr() -> SampleRate {
    SampleRate::new(44100)
}

fn loader() -> ResourceLoader {
    let collector = basedrop::Collector::new();
    ResourceLoader::new(collector.handle(), sr())
}

fn pcm(data: Vec<i32>) -> AnyPcm {
    AnyPcm::Mono(MonoPcm::new(data, sr()))
}

#[test]
fn store_then_fetch_shares_one_buffer() {
    let mut l = loader();
    let first = l.store("a.wav".to_owned(), Ok(pcm(vec![7, 8]))).unwrap();
    match l.fetch(&"a.wav".to_owned()) {
        FetchResult::Loaded(s) => assert!(same_pcm_buffer(&first, &s)),
        _ => panic!("expected a cached buffer"),
    }
    assert_eq!(l.cached_count(), 1);
}

#[test]
fn second_store_is_discarded_and_aliases_the_first() {
    let mut l = loader();
    let first = l.store("a.wav".to_owned(), Ok(pcm(vec![1]))).unwrap();
    // A second decode outcome for the same path never replaces the slot.
    let second = l.store("a.wav".to_owned(), Ok(pcm(vec![2]))).unwrap();
    assert!(same_pcm_buffer(&first, &second));
    match pcm_contents(&second) {
        AnyPcm::Mono(m) => assert_eq!(m.data(), &vec![1]),
        _ => panic!("expected mono"),
    }
    assert_eq!(l.cached_count(), 1);
}

#[test]
fn failures_are_recorded_per_path() {
    let mut l = loader();
    let err = l
        .store("bad.wav".to_owned(), Err(PcmLoadError::DecodeFailure("truncated".to_owned())))
        .err()
        .unwrap();
    assert_eq!(err, PcmLoadError::DecodeFailure("truncated".to_owned()));
    match l.fetch(&"bad.wav".to_owned()) {
        FetchResult::Failed(e) => {
            assert_eq!(e, PcmLoadError::DecodeFailure("truncated".to_owned()))
        },
        _ => panic!("expected the recorded failure"),
    }
    match l.fetch(&"unseen.wav".to_owned()) {
        FetchResult::Missing => {},
        _ => panic!("expected a miss"),
    }
    // A failed load for one path never disturbs another.
    let mut l2 = loader();
    l2.store("ok.wav".to_owned(), Ok(pcm(vec![5]))).unwrap();
    assert!(l2.store("bad.wav".to_owned(), Err(PcmLoadError::UnsupportedFormat)).is_err());
    assert!(l2.store("dev.wav".to_owned(), Err(PcmLoadError::IoError("busy".to_owned()))).is_err());
    assert!(matches!(l2.fetch(&"ok.wav".to_owned()), FetchResult::Loaded(_)));
    match l2.fetch(&"dev.wav".to_owned()) {
        FetchResult::Failed(e) => assert_eq!(e, PcmLoadError::IoError("busy".to_owned())),
        _ => panic!("expected the recorded I/O failure"),
    }
}

#[test]
fn collect_releases_unreferenced_buffers_only() {
    let mut l = loader();
    let held = l.store("held.wav".to_owned(), Ok(pcm(vec![1]))).unwrap();
    {
        let _dropped = l.store("idle.wav".to_owned(), Ok(pcm(vec![2]))).unwrap();
    }
    assert_eq!(l.cached_count(), 2);
    l.collect();
    // The idle buffer's slot is released; the held one stays.
    assert_eq!(l.cached_count(), 1);
    match l.fetch(&"held.wav".to_owned()) {
        FetchResult::Loaded(s) => assert!(same_pcm_buffer(&held, &s)),
        _ => panic!("held buffer should survive collection"),
    }
    assert!(matches!(l.fetch(&"idle.wav".to_owned()), FetchResult::Missing));
}

#[test]
fn stereo_pcm_channels_stay_equal_length() {
    let s = StereoPcm::new(vec![1, 2, 3], vec![4, 5, 6], sr());
    assert_eq!(s.len(), 3);
    assert_eq!(s.left(), &vec![1, 2, 3]);
    assert_eq!(s.right(), &vec![4, 5, 6]);
    let (l, r) = s.left_right();
    assert_eq!(l.len(), r.len());
    assert_eq!(s.sample_rate(), sr());
}

#[test]
fn mono_pcm_accessors() {
    let m = MonoPcm::new(vec![9, 9, 9], sr());
    assert_eq!(m.data().len(), 3);
    assert_eq!(m.sample_rate(), sr());
    let any = AnyPcm::Mono(m);
    assert_eq!(any.sample_rate(), sr());
}

#[test]
fn tempo_map_converts_musical_time_to_frames() {
    // 120 beats per minute at 48 kHz: one beat is half a second, 24000 frames.
    let t = TempoMap::new(120_000, SampleRate::new(48000));
    assert_eq!(t.musical_to_frames(MusicalTime::from_beats(1)), Some(24000));
    assert_eq!(t.musical_to_frames(MusicalTime::from_beats(0)), Some(0));
    // 110 bpm at 44.1 kHz, one beat: 1000 * 60 * 44100 / 110000 = 24054.
    let t2 = TempoMap::new(110_000, SampleRate::new(44100));
    assert_eq!(t2.musical_to_frames(MusicalTime::from_beats(1)), Some(24054));
    let zero = TempoMap::new(0, SampleRate::new(44100));
    assert_eq!(zero.musical_to_frames(MusicalTime::from_beats(1)), None);
}
