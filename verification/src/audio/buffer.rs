use vstd::prelude::*;

verus! {

/// Raw audio held for analysis.  A sample is a fixed-point amplitude in
/// millionths of full scale, so 1_000_000 stands for 1.0 and -500_000 for
/// -0.5; the duration in milliseconds follows from the frame count and rate.
#[derive(Debug)]
pub struct AudioBuffer {
    pub samples: Vec<i32>,
    pub sample_rate: u32,
    pub channels: u16,
}

impl Clone for AudioBuffer {
    fn clone(&self) -> (r: Self)
        ensures
            r.samples@ == self.samples@,
            r.sample_rate == self.sample_rate,
            r.channels == self.channels,
    {
        AudioBuffer {
            samples: clone_samples(&self.samples),
            sample_rate: self.sample_rate,
            channels: self.channels,
        }
    }
}

/// A copy of a sample list, equal to the original.
fn clone_samples(v: &Vec<i32>) -> (r: Vec<i32>)
    ensures
        r@ == v@,
{
    let mut out: Vec<i32> = Vec::new();
    let mut i: usize = 0;
    while i < v.len()
        invariant
            i <= v@.len(),
            out@ == v@.take(i as int),
        decreases v@.len() - i,
    {
        out.push(v[i]);
        proof {
            assert(v@.take(i + 1) =~= v@.take(i as int) + seq![v@[i as int]]);
        }
        i = i + 1;
    }
    proof {
        assert(v@.take(v@.len() as int) =~= v@);
    }
    out
}

/// The buffer's length in milliseconds: frames divided by the rate,
/// truncated to whole milliseconds and saturated at u64::MAX.
pub open spec fn duration_ms_spec(len: nat, channels: nat, rate: nat) -> nat
    recommends
        channels >= 1,
        rate >= 1,
{
    let exact = ((len / channels) * 1000) / rate;
    if exact > u64::MAX {
        u64::MAX as nat
    } else {
        exact
    }
}

impl AudioBuffer {
    /// An empty buffer in the given format.
    pub fn new(sample_rate: u32, channels: u16) -> (r: Self)
        ensures
            r.samples@ == Seq::<i32>::empty(),
            r.sample_rate == sample_rate,
            r.channels == channels,
    {
        AudioBuffer { samples: Vec::new(), sample_rate, channels }
    }

    /// The duration in milliseconds, as `duration_ms_spec` describes.
    pub fn duration_ms(&self) -> (r: u64)
        requires
            self.channels >= 1,
            self.sample_rate >= 1,
        ensures
            r == duration_ms_spec(self.samples@.len(), self.channels as nat, self.sample_rate as nat),
    {
        let len: u128 = self.samples.len() as u128;
        let frames: u128 = len / (self.channels as u128);
        let ms: u128 = (frames * 1000) / (self.sample_rate as u128);
        if ms > u64::MAX as u128 {
            u64::MAX
        } else {
            ms as u64
        }
    }
}

} // verus!
