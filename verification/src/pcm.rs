use vstd::prelude::*;

use crate::timebase::SampleRate;

verus! {

/// Decoded sample data for one audio asset. Samples are stored as signed
/// 32-bit integer PCM; the data is immutable once constructed.
#[non_exhaustive]
#[derive(Debug)]
pub enum AnyPcm {
    Mono(MonoPcm),
    Stereo(StereoPcm),
}

/// The mathematical content of an [`AnyPcm`] value.
pub enum PcmView {
    Mono { data: Seq<i32>, sample_rate: SampleRate },
    Stereo { left: Seq<i32>, right: Seq<i32>, sample_rate: SampleRate },
}

impl View for AnyPcm {
    type V = PcmView;

    open spec fn view(&self) -> PcmView {
        match *self {
            AnyPcm::Mono(p) => PcmView::Mono {
                data: p.spec_data(),
                sample_rate: p.spec_sample_rate(),
            },
            AnyPcm::Stereo(p) => PcmView::Stereo {
                left: p.spec_left(),
                right: p.spec_right(),
                sample_rate: p.spec_sample_rate(),
            },
        }
    }
}

impl AnyPcm {
    /// Every stereo buffer carries two channels of equal length.
    pub open spec fn wf(self) -> bool {
        match self {
            AnyPcm::Mono(_) => true,
            AnyPcm::Stereo(p) => p.spec_left().len() == p.spec_right().len(),
        }
    }

    pub fn sample_rate(&self) -> (r: SampleRate)
        ensures
            r == match *self {
                AnyPcm::Mono(p) => p.spec_sample_rate(),
                AnyPcm::Stereo(p) => p.spec_sample_rate(),
            },
    {
        match self {
            AnyPcm::Mono(p) => p.sample_rate(),
            AnyPcm::Stereo(p) => p.sample_rate(),
        }
    }
}

/// A single-channel decoded sample buffer.
#[derive(Debug)]
pub struct MonoPcm {
    data: Vec<i32>,
    sample_rate: SampleRate,
}

impl MonoPcm {
    pub closed spec fn spec_data(self) -> Seq<i32> {
        self.data@
    }

    pub closed spec fn spec_sample_rate(self) -> SampleRate {
        self.sample_rate
    }

    pub fn new(data: Vec<i32>, sample_rate: SampleRate) -> (r: MonoPcm)
        ensures
            r.spec_data() == data@,
            r.spec_sample_rate() == sample_rate,
    {
        MonoPcm { data, sample_rate }
    }

    pub fn data(&self) -> (r: &Vec<i32>)
        ensures
            r@ == self.spec_data(),
    {
        &self.data
    }

    pub fn sample_rate(&self) -> (r: SampleRate)
        ensures
            r == self.spec_sample_rate(),
    {
        self.sample_rate
    }
}

/// A two-channel decoded sample buffer; both channels always hold the same
/// number of frames.
#[derive(Debug)]
pub struct StereoPcm {
    left: Vec<i32>,
    right: Vec<i32>,
    sample_rate: SampleRate,
}

impl StereoPcm {
    pub closed spec fn spec_left(self) -> Seq<i32> {
        self.left@
    }

    pub closed spec fn spec_right(self) -> Seq<i32> {
        self.right@
    }

    pub closed spec fn spec_sample_rate(self) -> SampleRate {
        self.sample_rate
    }

    pub fn new(left: Vec<i32>, right: Vec<i32>, sample_rate: SampleRate) -> (r: StereoPcm)
        requires
            left@.len() == right@.len(),
        ensures
            r.spec_left() == left@,
            r.spec_right() == right@,
            r.spec_sample_rate() == sample_rate,
    {
        StereoPcm { left, right, sample_rate }
    }

    pub fn left(&self) -> (r: &Vec<i32>)
        ensures
            r@ == self.spec_left(),
    {
        &self.left
    }

    pub fn right(&self) -> (r: &Vec<i32>)
        ensures
            r@ == self.spec_right(),
    {
        &self.right
    }

    pub fn left_right(&self) -> (r: (&Vec<i32>, &Vec<i32>))
        ensures
            r.0@ == self.spec_left(),
            r.1@ == self.spec_right(),
    {
        (&self.left, &self.right)
    }

    pub fn len(&self) -> (r: usize)
        ensures
            r == self.spec_left().len(),
    {
        self.left.len()
    }

    pub fn sample_rate(&self) -> (r: SampleRate)
        ensures
            r == self.spec_sample_rate(),
    {
        self.sample_rate
    }
}

} // verus!
