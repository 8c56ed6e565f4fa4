use vstd::prelude::*;

verus! {

/// The largest memory sample seen so far, in KiB (0 before any sample).
pub struct PeakTracker {
    peak_kb: u64,
}

impl View for PeakTracker {
    type V = u64;

    closed spec fn view(&self) -> u64 {
        self.peak_kb
    }
}

impl PeakTracker {
    pub fn new() -> (t: Self)
        ensures
            t@ == 0,
    {
        PeakTracker { peak_kb: 0 }
    }

    /// Records one sample.
    pub fn observe(&mut self, sample_kb: u64)
        ensures
            final(self)@ == if sample_kb > old(self)@ { sample_kb } else { old(self)@ },
    {
        if sample_kb > self.peak_kb {
            self.peak_kb = sample_kb;
        }
    }

    /// The peak so far.
    pub fn peak_kb(&self) -> (p: u64)
        ensures
            p == self@,
    {
        self.peak_kb
    }
}

/// Runs `f` while a memory monitor samples the process tree: `start` starts
/// the monitor, `f` runs holding the running monitor and hands it back, and
/// `stop` stops it, returning the peak it saw. The monitor passes from
/// `start` through `f` to `stop`, so `f` runs after the monitor has started
/// and before it stops. Returns `f`'s result and that peak, in KiB.
pub fn measure_sync_peak_kb<F, T, M, S, P>(f: F, start: S, stop: P) -> (r: (T, u64)) where
    F: FnOnce(M) -> (T, M),
    S: FnOnce() -> M,
    P: FnOnce(M) -> u64,

    requires
        start.requires(()),
        forall|m: M| start.ensures((), m) ==> f.requires((m,)),
        forall|m: M, out: (T, M)| f.ensures((m,), out) ==> stop.requires((out.1,)),
    ensures
        exists|m: M, held: M|
            #![trigger start.ensures((), m), stop.ensures((held,), r.1)]
            start.ensures((), m) && f.ensures((m,), (r.0, held)) && stop.ensures((held,), r.1),
{
    let monitor = start();
    let ghost started = monitor;
    let out = f(monitor);
    let ghost ran = out;
    let (result, held) = out;
    let peak = stop(held);
    let r = (result, peak);
    assert(exists|m: M, h: M|
        #![trigger start.ensures((), m), stop.ensures((h,), r.1)]
        start.ensures((), m) && f.ensures((m,), (r.0, h)) && stop.ensures((h,), r.1)) by {
        assert(start.ensures((), started) && stop.ensures((ran.1,), r.1));
    }
    r
}

} // verus!
