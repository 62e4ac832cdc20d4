//! What the application remembers between runs: the theme preference, a
//! calibration and the machine it belongs to, and every measured throughput.

use vstd::prelude::*;

verus! {

/// A stored theme preference: a slug, or the bare index older releases wrote.
#[derive(Debug, Clone, PartialEq, Eq)]
pub enum ThemeRef {
    Name(String),
    Index(usize),
}

/// Seconds in a day.
pub const SECONDS_PER_DAY: u64 = 86400;

/// An efficiency factor fitted to measurements on one machine, with the GPU
/// and backend it was fitted on: it applies only while they still match.
/// The factor is carried as the bit pattern of its `f64`, which nothing here
/// computes with.
#[derive(Debug, Clone)]
pub struct Calibration {
    pub efficiency_bits: u64,
    /// How many measured/estimated pairs the fit came from.
    pub samples: usize,
    /// Seconds since the Unix epoch.
    pub measured_at: u64,
    pub gpu: String,
    pub backend: String,
}

impl Calibration {
    /// Whether this calibration was taken on a machine with this GPU and
    /// backend.
    pub fn matches(&self, gpu: &str, backend: &str) -> (r: bool)
        ensures
            r == (self.gpu@ == gpu@ && self.backend@ == backend@),
    {
        crate::text::str_eq(self.gpu.as_str(), gpu) && crate::text::str_eq(self.backend.as_str(), backend)
    }

    /// Whole days from the measurement to `now` (seconds since the epoch);
    /// none when `now` is earlier.
    pub fn age_days(&self, now: u64) -> (r: u64)
        ensures
            r == (if now >= self.measured_at { (now - self.measured_at) as nat / 86400 } else { 0 }),
    {
        now.saturating_sub(self.measured_at) / SECONDS_PER_DAY
    }
}

} // verus!

verus! {

/// One throughput measurement. The rate is carried as the bit pattern of the
/// `f64` tokens per second, which nothing here computes with.
#[derive(Debug)]
pub struct MeasuredThroughput {
    pub model_id: String,
    pub quant: String,
    pub run_mode: String,
    pub tokens_per_second_bits: u64,
    pub measured_at: u64,
}

/// A measurement with the machine and runtime it was taken on.
#[derive(Debug)]
pub struct StoredMeasurement {
    pub gpu: String,
    pub backend: String,
    pub runtime: String,
    pub context: u32,
    pub throughput: MeasuredThroughput,
}

/// Every measurement taken, across machines.
#[derive(Debug)]
pub struct MeasurementStore {
    pub runs: Vec<StoredMeasurement>,
}

pub open spec fn throughput_view(t: MeasuredThroughput) -> (Seq<char>, Seq<char>, Seq<char>, u64, u64) {
    (t.model_id@, t.quant@, t.run_mode@, t.tokens_per_second_bits, t.measured_at)
}

pub open spec fn run_view(r: StoredMeasurement) -> (Seq<char>, Seq<char>, Seq<char>, u32, (Seq<char>, Seq<char>, Seq<char>, u64, u64)) {
    (r.gpu@, r.backend@, r.runtime@, r.context, throughput_view(r.throughput))
}

pub open spec fn runs_view(v: Seq<StoredMeasurement>) -> Seq<(Seq<char>, Seq<char>, Seq<char>, u32, (Seq<char>, Seq<char>, Seq<char>, u64, u64))> {
    v.map_values(|r: StoredMeasurement| run_view(r))
}

/// Two measurements answer the same question: the same placement (model,
/// quantization, run mode) on the same machine (GPU, backend) and runtime.
pub open spec fn same_question(
    a: (Seq<char>, Seq<char>, Seq<char>, u32, (Seq<char>, Seq<char>, Seq<char>, u64, u64)),
    b: (Seq<char>, Seq<char>, Seq<char>, u32, (Seq<char>, Seq<char>, Seq<char>, u64, u64)),
) -> bool {
    a.0 == b.0 && a.1 == b.1 && a.2 == b.2 && a.4.0 == b.4.0 && a.4.1 == b.4.1 && a.4.2 == b.4.2
}

/// The measurements of `v` that do not answer the same question as `r`, in order.
pub open spec fn without_repeats(
    v: Seq<(Seq<char>, Seq<char>, Seq<char>, u32, (Seq<char>, Seq<char>, Seq<char>, u64, u64))>,
    r: (Seq<char>, Seq<char>, Seq<char>, u32, (Seq<char>, Seq<char>, Seq<char>, u64, u64)),
) -> Seq<(Seq<char>, Seq<char>, Seq<char>, u32, (Seq<char>, Seq<char>, Seq<char>, u64, u64))>
    decreases v.len(),
{
    if v.len() == 0 {
        seq![]
    } else if same_question(v.last(), r) {
        without_repeats(v.drop_last(), r)
    } else {
        without_repeats(v.drop_last(), r).push(v.last())
    }
}

/// The throughputs measured on a machine with this GPU and backend, in order.
pub open spec fn on_machine(
    v: Seq<(Seq<char>, Seq<char>, Seq<char>, u32, (Seq<char>, Seq<char>, Seq<char>, u64, u64))>,
    gpu: Seq<char>,
    backend: Seq<char>,
) -> Seq<(Seq<char>, Seq<char>, Seq<char>, u64, u64)>
    decreases v.len(),
{
    if v.len() == 0 {
        seq![]
    } else if v.last().0 == gpu && v.last().1 == backend {
        on_machine(v.drop_last(), gpu, backend).push(v.last().4)
    } else {
        on_machine(v.drop_last(), gpu, backend)
    }
}

impl MeasuredThroughput {
    pub fn copy(&self) -> (r: MeasuredThroughput)
        ensures
            throughput_view(r) == throughput_view(*self),
    {
        MeasuredThroughput {
            model_id: self.model_id.clone(),
            quant: self.quant.clone(),
            run_mode: self.run_mode.clone(),
            tokens_per_second_bits: self.tokens_per_second_bits,
            measured_at: self.measured_at,
        }
    }
}

impl StoredMeasurement {
    pub fn copy(&self) -> (r: StoredMeasurement)
        ensures
            run_view(r) == run_view(*self),
    {
        StoredMeasurement {
            gpu: self.gpu.clone(),
            backend: self.backend.clone(),
            runtime: self.runtime.clone(),
            context: self.context,
            throughput: self.throughput.copy(),
        }
    }

    fn same_question_as(&self, other: &StoredMeasurement) -> (r: bool)
        ensures
            r == same_question(run_view(*self), run_view(*other)),
    {
        crate::text::str_eq(self.gpu.as_str(), other.gpu.as_str())
            && crate::text::str_eq(self.backend.as_str(), other.backend.as_str())
            && crate::text::str_eq(self.runtime.as_str(), other.runtime.as_str())
            && crate::text::str_eq(self.throughput.model_id.as_str(), other.throughput.model_id.as_str())
            && crate::text::str_eq(self.throughput.quant.as_str(), other.throughput.quant.as_str())
            && crate::text::str_eq(self.throughput.run_mode.as_str(), other.throughput.run_mode.as_str())
    }
}

impl MeasurementStore {
    pub fn new() -> (s: MeasurementStore)
        ensures
            s.runs@.len() == 0,
    {
        MeasurementStore { runs: Vec::new() }
    }

    /// Add a measurement, replacing any earlier one that answers the same
    /// question: a re-run is a better answer, not a second one.
    pub fn record(&mut self, run: StoredMeasurement)
        ensures
            runs_view(final(self).runs@) == without_repeats(runs_view(old(self).runs@), run_view(run)).push(
                run_view(run),
            ),
    {
        let ghost rv = runs_view(self.runs@);
        let ghost nv = run_view(run);
        let mut kept: Vec<StoredMeasurement> = Vec::new();
        let mut i: usize = 0;
        assert(runs_view(kept@) =~= seq![]);
        assert(rv.take(0) =~= seq![]);
        while i < self.runs.len()
            invariant
                i <= self.runs.len(),
                rv == runs_view(self.runs@),
                nv == run_view(run),
                runs_view(kept@) == without_repeats(rv.take(i as int), nv),
            decreases self.runs.len() - i,
        {
            assert(rv.take(i + 1).drop_last() =~= rv.take(i as int));
            assert(rv.take(i + 1).last() == run_view(self.runs@[i as int]));
            if !self.runs[i].same_question_as(&run) {
                let ghost before = runs_view(kept@);
                let c = self.runs[i].copy();
                kept.push(c);
                assert(runs_view(kept@) =~= before.push(run_view(self.runs@[i as int])));
            }
            i = i + 1;
        }
        assert(rv.take(i as int) =~= rv);
        let ghost before = runs_view(kept@);
        kept.push(run);
        assert(runs_view(kept@) =~= before.push(nv));
        self.runs = kept;
    }

    /// The measurements taken on a machine with this GPU and backend.
    pub fn for_machine(&self, gpu: &str, backend: &str) -> (r: Vec<MeasuredThroughput>)
        ensures
            r@.map_values(|t: MeasuredThroughput| throughput_view(t)) == on_machine(runs_view(self.runs@), gpu@, backend@),
    {
        let ghost rv = runs_view(self.runs@);
        let mut out: Vec<MeasuredThroughput> = Vec::new();
        let mut i: usize = 0;
        assert(out@.map_values(|t: MeasuredThroughput| throughput_view(t)) =~= seq![]);
        assert(rv.take(0) =~= seq![]);
        while i < self.runs.len()
            invariant
                i <= self.runs.len(),
                rv == runs_view(self.runs@),
                out@.map_values(|t: MeasuredThroughput| throughput_view(t)) == on_machine(rv.take(i as int), gpu@, backend@),
            decreases self.runs.len() - i,
        {
            assert(rv.take(i + 1).drop_last() =~= rv.take(i as int));
            assert(rv.take(i + 1).last() == run_view(self.runs@[i as int]));
            if crate::text::str_eq(self.runs[i].gpu.as_str(), gpu) && crate::text::str_eq(self.runs[i].backend.as_str(), backend) {
                let ghost before = out@.map_values(|t: MeasuredThroughput| throughput_view(t));
                let c = self.runs[i].throughput.copy();
                out.push(c);
                assert(out@.map_values(|t: MeasuredThroughput| throughput_view(t)) =~= before.push(throughput_view(self.runs@[i as int].throughput)));
            }
            i = i + 1;
        }
        assert(rv.take(i as int) =~= rv);
        out
    }
}

/// A re-run replaces the measurement it repeats: after recording, exactly one
/// stored measurement answers the new one's question, and it is the new one.
pub proof fn lemma_record_keeps_one_answer(
    v: Seq<(Seq<char>, Seq<char>, Seq<char>, u32, (Seq<char>, Seq<char>, Seq<char>, u64, u64))>,
    r: (Seq<char>, Seq<char>, Seq<char>, u32, (Seq<char>, Seq<char>, Seq<char>, u64, u64)),
)
    ensures
        forall|i: int| 0 <= i < without_repeats(v, r).len() ==> !same_question(#[trigger] without_repeats(v, r)[i], r),
        without_repeats(v, r).push(r).last() == r,
    decreases v.len(),
{
    if v.len() > 0 {
        lemma_record_keeps_one_answer(v.drop_last(), r);
    }
}

} // verus!
