//! The stability detector's decision core: given one file-size sample per
//! second, decide whether the file's size is stationary over a bounded
//! observation window. The surrounding runtime does the sleeping and the
//! size queries; the probe holds the state and gives the verdict.

use vstd::prelude::*;

verus! {

/// The size of the observation window: how many samples are taken before
/// the probe gives up.
pub const MAX_STABILITY_SAMPLES: usize = 5;

/// The probe's answer after one sample.
#[derive(Clone, Copy, PartialEq, Eq, Structural, Debug)]
pub enum StabilityVerdict {
    /// No decision yet: take another sample.
    Pending,
    /// Two consecutive samples were equal and positive: the writer has
    /// finished.
    Stable,
    /// The size query failed (the file vanished), or the window was
    /// exhausted without two equal positive samples in a row.
    NotStable,
}

/// The detector's state between samples: the previous size seen and how
/// many samples have been consumed.
pub struct StabilityProbe {
    previous_size: u64,
    samples_taken: usize,
}

impl StabilityProbe {
    /// The size the previous sample reported; zero before any sample.
    pub closed spec fn previous(self) -> u64 {
        self.previous_size
    }

    /// How many samples the probe has consumed without a verdict.
    pub closed spec fn taken(self) -> nat {
        self.samples_taken as nat
    }

    /// A probe that has sampled nothing yet.
    pub fn new() -> (p: StabilityProbe)
        ensures
            p.previous() == 0,
            p.taken() == 0,
    {
        StabilityProbe { previous_size: 0, samples_taken: 0 }
    }

    /// Feed one size sample; `None` means the size query failed. The
    /// verdict is Stable as soon as a sample repeats the previous one and
    /// is positive, NotStable on a failed query or an exhausted window, and
    /// Pending otherwise.
    pub fn step(&mut self, sample: Option<u64>) -> (v: StabilityVerdict)
        ensures
            v == probe_verdict(*old(self), sample),
            v == StabilityVerdict::Pending ==> (sample matches Some(current)
                && final(self).previous() == current && final(self).taken() == old(self).taken()
                + 1),
            v != StabilityVerdict::Pending ==> *final(self) == *old(self),
    {
        match sample {
            None => StabilityVerdict::NotStable,
            Some(current) => {
                if current == self.previous_size && current > 0 {
                    StabilityVerdict::Stable
                } else if self.samples_taken >= MAX_STABILITY_SAMPLES - 1 {
                    StabilityVerdict::NotStable
                } else {
                    self.previous_size = current;
                    self.samples_taken = self.samples_taken + 1;
                    StabilityVerdict::Pending
                }
            },
        }
    }
}

/// The verdict one sample produces, as a function of the probe's state: a
/// repeated positive size is Stable, a failed query is NotStable, an
/// exhausted window is NotStable, and anything else is Pending.
pub open spec fn probe_verdict(p: StabilityProbe, sample: Option<u64>) -> StabilityVerdict {
    match sample {
        None => StabilityVerdict::NotStable,
        Some(current) => if current == p.previous() && current > 0 {
            StabilityVerdict::Stable
        } else if p.taken() + 1 >= MAX_STABILITY_SAMPLES {
            StabilityVerdict::NotStable
        } else {
            StabilityVerdict::Pending
        },
    }
}

} // verus!
