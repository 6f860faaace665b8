use vstd::prelude::*;

verus! {

/// Sampling rate of the audio engine, in frames per second.
#[derive(Clone, Copy, Debug, PartialEq, Eq, Structural)]
pub struct SampleRate {
    pub hz: u32,
}

impl SampleRate {
    pub fn new(hz: u32) -> (r: SampleRate)
        ensures
            r.hz == hz,
    {
        SampleRate { hz }
    }
}

/// A position on the timeline measured in whole audio frames.
#[derive(Clone, Copy, Debug, PartialEq, Eq, Structural)]
pub struct SampleTime {
    pub frames: i64,
}

impl SampleTime {
    pub fn new(frames: i64) -> (r: SampleTime)
        ensures
            r.frames == frames,
    {
        SampleTime { frames }
    }
}

/// A span of wall-clock time: whole seconds plus a sub-second part in
/// microseconds, which is kept strictly below one second.
#[derive(Clone, Copy, Debug, PartialEq, Eq, Structural)]
pub struct Seconds {
    pub whole: u64,
    pub micros: u32,
}

impl Seconds {
    pub open spec fn wf(self) -> bool {
        self.micros < 1_000_000
    }

    /// The whole span expressed in microseconds.
    pub open spec fn total_micros(self) -> int {
        self.whole * 1_000_000 + self.micros
    }

    pub fn new(whole: u64, micros: u32) -> (r: Seconds)
        requires
            micros < 1_000_000,
        ensures
            r.whole == whole,
            r.micros == micros,
            r.wf(),
    {
        Seconds { whole, micros }
    }
}

/// A position on the musical timeline, in thousandths of a beat.
#[derive(Clone, Copy, Debug, PartialEq, Eq, Structural)]
pub struct MusicalTime {
    pub millibeats: u64,
}

impl MusicalTime {
    pub fn new(millibeats: u64) -> (r: MusicalTime)
        ensures
            r.millibeats == millibeats,
    {
        MusicalTime { millibeats }
    }

    pub fn from_beats(beats: u32) -> (r: MusicalTime)
        ensures
            r.millibeats == beats * 1000,
    {
        MusicalTime { millibeats: (beats as u64) * 1000 }
    }
}

/// Tempo information for the project: a constant tempo in thousandths of a
/// beat per minute, at a given sample rate.
#[derive(Clone, Copy, Debug, PartialEq, Eq, Structural)]
pub struct TempoMap {
    pub millibpm: u64,
    pub sample_rate: SampleRate,
}

impl TempoMap {
    pub fn new(millibpm: u64, sample_rate: SampleRate) -> (r: TempoMap)
        ensures
            r.millibpm == millibpm,
            r.sample_rate == sample_rate,
    {
        TempoMap { millibpm, sample_rate }
    }

    /// The frame that a musical position falls on, rounded toward zero:
    /// `millibeats * 60 * hz / millibpm`. Returns `None` when the tempo is
    /// zero or the result does not fit in a frame count.
    pub fn musical_to_frames(&self, t: MusicalTime) -> (r: Option<i64>)
        ensures
            self.millibpm == 0 ==> r is None,
            self.millibpm != 0 ==> {
                let exact = (t.millibeats as int) * 60 * (self.sample_rate.hz as int)
                    / (self.millibpm as int);
                if exact <= i64::MAX {
                    r == Some(exact as i64)
                } else {
                    r is None
                }
            },
    {
        if self.millibpm == 0 {
            return None;
        }
        proof {
            assert((t.millibeats as int) * 60 * (self.sample_rate.hz as int) < u128::MAX)
                by (nonlinear_arith)
                requires
                    t.millibeats <= u64::MAX,
                    self.sample_rate.hz <= u32::MAX,
            ;
        }
        let wide: u128 = (t.millibeats as u128) * 60 * (self.sample_rate.hz as u128);
        let q: u128 = wide / (self.millibpm as u128);
        if q <= i64::MAX as u128 {
            Some(q as i64)
        } else {
            None
        }
    }
}

} // verus!
