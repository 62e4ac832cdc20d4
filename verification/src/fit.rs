//! Run modes, fit levels and the context lengths a placement is tried at.

use vstd::prelude::*;
use crate::text::{chars_of, eq_str, lower_seq, lower_vec, remove_chars, remove_vec, trim, trim_vec};

verus! {

/// Shortest context worth proposing.
pub const MIN_CONTEXT: u32 = 4096;

// ---------------------------------------------------------------------------
// Run modes
// ---------------------------------------------------------------------------

/// Where a model's weights live while it runs.
#[derive(Debug, Clone, Copy, PartialEq, Eq, Structural)]
pub enum RunMode {
    /// Everything resident in VRAM.
    Gpu,
    /// MoE with inactive experts offloaded to system RAM.
    Moe,
    /// Dense weights partially offloaded to system RAM.
    CpuGpu,
    /// No usable GPU; weights live in system RAM.
    Cpu,
}

pub open spec fn run_mode_label(m: RunMode) -> Seq<char> {
    match m {
        RunMode::Gpu => "GPU"@,
        RunMode::Moe => "MoE"@,
        RunMode::CpuGpu => "CPU+GPU"@,
        RunMode::Cpu => "CPU"@,
    }
}

/// The run mode a trimmed, lowercased spelling names.
pub open spec fn run_mode_for_key(k: Seq<char>) -> Option<RunMode> {
    if k == "gpu"@ {
        Some(RunMode::Gpu)
    } else if k == "moe"@ {
        Some(RunMode::Moe)
    } else if k == "cpu+gpu"@ || k == "hybrid"@ {
        Some(RunMode::CpuGpu)
    } else if k == "cpu"@ {
        Some(RunMode::Cpu)
    } else {
        None
    }
}

pub open spec fn parse_run_mode(s: Seq<char>) -> Option<RunMode> {
    run_mode_for_key(lower_seq(trim(s)))
}

impl RunMode {
    pub fn label(self) -> (r: &'static str)
        ensures
            r@ == run_mode_label(self),
    {
        match self {
            RunMode::Gpu => "GPU",
            RunMode::Moe => "MoE",
            RunMode::CpuGpu => "CPU+GPU",
            RunMode::Cpu => "CPU",
        }
    }

    pub fn parse(s: &str) -> (r: Option<RunMode>)
        ensures
            r == parse_run_mode(s@),
    {
        let raw = chars_of(s);
        let t = trim_vec(raw.as_slice());
        let k = lower_vec(t.as_slice());
        let k = k.as_slice();
        if eq_str(k, "gpu") {
            Some(RunMode::Gpu)
        } else if eq_str(k, "moe") {
            Some(RunMode::Moe)
        } else if eq_str(k, "cpu+gpu") || eq_str(k, "hybrid") {
            Some(RunMode::CpuGpu)
        } else if eq_str(k, "cpu") {
            Some(RunMode::Cpu)
        } else {
            None
        }
    }
}

// ---------------------------------------------------------------------------
// Fit levels
// ---------------------------------------------------------------------------

/// How comfortably a placement fits, worst first: the derived order is the
/// ranking order, so `Perfect` compares greatest.
#[derive(Debug, Clone, Copy, PartialEq, Eq, PartialOrd, Ord, Hash, Structural)]
pub enum FitLevel {
    TooTight,
    Marginal,
    Good,
    Perfect,
}

/// Position of a fit level in the ranking order, worst first.
pub open spec fn fit_rank(f: FitLevel) -> nat {
    match f {
        FitLevel::TooTight => 0,
        FitLevel::Marginal => 1,
        FitLevel::Good => 2,
        FitLevel::Perfect => 3,
    }
}

pub open spec fn fit_label(f: FitLevel) -> Seq<char> {
    match f {
        FitLevel::Perfect => "Perfect"@,
        FitLevel::Good => "Good"@,
        FitLevel::Marginal => "Marginal"@,
        FitLevel::TooTight => "Too Tight"@,
    }
}

pub open spec fn fit_for_key(k: Seq<char>) -> Option<FitLevel> {
    if k == "perfect"@ {
        Some(FitLevel::Perfect)
    } else if k == "good"@ {
        Some(FitLevel::Good)
    } else if k == "marginal"@ {
        Some(FitLevel::Marginal)
    } else if k == "tootight"@ {
        Some(FitLevel::TooTight)
    } else {
        None
    }
}

pub open spec fn fit_hint() -> Seq<char> {
    "perfect, good, marginal, too-tight"@
}

/// What `FitLevel::parse` reads: case, surrounding whitespace and the
/// separators `_`, `-` and space are ignored.
pub open spec fn parse_fit(s: Seq<char>) -> Option<FitLevel> {
    fit_for_key(remove_chars(lower_seq(trim(s)), seq!['_', '-', ' ']))
}

impl FitLevel {
    pub fn label(self) -> (r: &'static str)
        ensures
            r@ == fit_label(self),
    {
        match self {
            FitLevel::Perfect => "Perfect",
            FitLevel::Good => "Good",
            FitLevel::Marginal => "Marginal",
            FitLevel::TooTight => "Too Tight",
        }
    }

    /// The accepted spellings, for an error message.
    pub fn hint() -> (r: &'static str)
        ensures
            r@ == fit_hint(),
    {
        "perfect, good, marginal, too-tight"
    }

    pub fn parse(s: &str) -> (r: Option<FitLevel>)
        ensures
            r == parse_fit(s@),
    {
        let raw = chars_of(s);
        let t = trim_vec(raw.as_slice());
        let l = lower_vec(t.as_slice());
        let seps = ['_', '-', ' '];
        let k = remove_vec(l.as_slice(), seps.as_slice());
        assert(seps@ =~= seq!['_', '-', ' ']);
        let k = k.as_slice();
        if eq_str(k, "perfect") {
            Some(FitLevel::Perfect)
        } else if eq_str(k, "good") {
            Some(FitLevel::Good)
        } else if eq_str(k, "marginal") {
            Some(FitLevel::Marginal)
        } else if eq_str(k, "tootight") {
            Some(FitLevel::TooTight)
        } else {
            None
        }
    }

    pub fn is_runnable(self) -> (r: bool)
        ensures
            r == (self != FitLevel::TooTight),
    {
        self != FitLevel::TooTight
    }

    /// Position in the ranking order, worst first.
    pub fn rank(self) -> (r: u8)
        ensures
            r as nat == fit_rank(self),
    {
        match self {
            FitLevel::TooTight => 0,
            FitLevel::Marginal => 1,
            FitLevel::Good => 2,
            FitLevel::Perfect => 3,
        }
    }

    /// True when `self` fits at least as well as `floor`.
    pub fn at_least(self, floor: FitLevel) -> (r: bool)
        ensures
            r == (fit_rank(self) >= fit_rank(floor)),
    {
        self.rank() >= floor.rank()
    }
}

/// Every fit level reads back from its own label.
pub proof fn lemma_fit_label_round_trip(f: FitLevel)
    ensures
        parse_fit(fit_label(f)) == Some(f),
{
    reveal_strlit("Perfect");
    reveal_strlit("Good");
    reveal_strlit("Marginal");
    reveal_strlit("Too Tight");
    reveal_strlit("perfect");
    reveal_strlit("good");
    reveal_strlit("marginal");
    reveal_strlit("tootight");
    reveal_with_fuel(Seq::filter, 10);
    let l = fit_label(f);
    assert(trim_start_is_identity(l));
    let low = lower_seq(l);
    let key = remove_chars(low, seq!['_', '-', ' ']);
    match f {
        FitLevel::Perfect => {
            assert(low =~= seq!['p', 'e', 'r', 'f', 'e', 'c', 't']);
            assert(key =~= seq!['p', 'e', 'r', 'f', 'e', 'c', 't']);
        },
        FitLevel::Good => {
            assert(low =~= seq!['g', 'o', 'o', 'd']);
            assert(key =~= seq!['g', 'o', 'o', 'd']);
        },
        FitLevel::Marginal => {
            assert(low =~= seq!['m', 'a', 'r', 'g', 'i', 'n', 'a', 'l']);
            assert(key =~= seq!['m', 'a', 'r', 'g', 'i', 'n', 'a', 'l']);
        },
        FitLevel::TooTight => {
            assert(low =~= seq!['t', 'o', 'o', ' ', 't', 'i', 'g', 'h', 't']);
            assert(key =~= seq!['t', 'o', 'o', 't', 'i', 'g', 'h', 't']);
        },
    }
    assert("perfect"@ =~= seq!['p', 'e', 'r', 'f', 'e', 'c', 't']);
    assert("good"@ =~= seq!['g', 'o', 'o', 'd']);
    assert("marginal"@ =~= seq!['m', 'a', 'r', 'g', 'i', 'n', 'a', 'l']);
    assert("tootight"@ =~= seq!['t', 'o', 'o', 't', 'i', 'g', 'h', 't']);
}

/// Holds for the labels: they neither start nor end with whitespace.
spec fn trim_start_is_identity(s: Seq<char>) -> bool {
    crate::text::trim(s) == s
}

// ---------------------------------------------------------------------------
// Context ladder
// ---------------------------------------------------------------------------

/// The fixed context lengths tried below half of the full window.
pub open spec fn rungs() -> Seq<u32> {
    seq![65536u32, 32768u32, 16384u32, 8192u32, 4096u32]
}

/// Context lengths to try for a model whose usable window is `full`,
/// longest first: the full window, then half of it, then every fixed rung
/// below half. Half and the rungs are offered only when they reach
/// [`MIN_CONTEXT`].
pub open spec fn ladder(full: u32) -> Seq<u32> {
    let half = full / 2;
    if half >= MIN_CONTEXT {
        seq![full, half as u32] + rungs().filter(|r: u32| r < half && r >= MIN_CONTEXT)
    } else {
        seq![full]
    }
}

/// Context lengths to try, longest first.
pub fn context_ladder(full: u32) -> (r: Vec<u32>)
    ensures
        r@ == ladder(full),
        r@.len() >= 1,
        r@[0] == full,
        forall|i: int| 0 < i < r@.len() ==> #[trigger] r@[i] >= MIN_CONTEXT,
        forall|i: int, j: int| 0 <= i < j < r@.len() ==> r@[i] > r@[j],
{
    let rung_values: [u32; 5] = [65536, 32768, 16384, 8192, 4096];
    assert(rung_values@ =~= rungs());
    let mut contexts: Vec<u32> = Vec::new();
    contexts.push(full);
    let half = full / 2;
    if half >= MIN_CONTEXT {
        contexts.push(half);
        let ghost base = contexts@;
        let mut k: usize = 0;
        while k < 5
            invariant
                k <= 5,
                rung_values@ == rungs(),
                half == full / 2,
                half >= MIN_CONTEXT,
                base == seq![full, half],
                contexts@ == base + rungs().subrange(0, k as int).filter(
                    |r: u32| r < half && r >= MIN_CONTEXT,
                ),
            decreases 5 - k,
        {
            let rung = rung_values[k];
            proof {
                let q = rungs().subrange(0, k + 1);
                assert(q.drop_last() =~= rungs().subrange(0, k as int));
                reveal(Seq::filter);
                assert(q.last() == rung);
            }
            if rung < half && rung >= MIN_CONTEXT {
                contexts.push(rung);
                proof {
                    let f = |r: u32| r < half && r >= MIN_CONTEXT;
                    assert(contexts@ =~= base + rungs().subrange(0, k + 1).filter(f));
                }
            }
            k = k + 1;
        }
        assert(rungs().subrange(0, 5) =~= rungs());
    } else {
        assert(contexts@ =~= seq![full]);
    }
    proof {
        lemma_ladder_shape(full);
    }
    contexts
}

/// The ladder starts at the full window, never offers less than
/// [`MIN_CONTEXT`] after it, and strictly decreases — so no length is tried
/// twice.
pub proof fn lemma_ladder_shape(full: u32)
    ensures
        ladder(full).len() >= 1,
        ladder(full)[0] == full,
        forall|i: int| 0 < i < ladder(full).len() ==> #[trigger] ladder(full)[i] >= MIN_CONTEXT,
        forall|i: int, j: int|
            0 <= i < j < ladder(full).len() ==> ladder(full)[i] > ladder(full)[j],
{
    let half = full / 2;
    if half >= MIN_CONTEXT {
        let f = |r: u32| r < half && r >= MIN_CONTEXT;
        let tail = rungs().filter(f);
        reveal_with_fuel(Seq::filter, 6);
        let h = half as u32;
        let expected = if h > 65536 {
            seq![65536u32, 32768u32, 16384u32, 8192u32, 4096u32]
        } else if h > 32768 {
            seq![32768u32, 16384u32, 8192u32, 4096u32]
        } else if h > 16384 {
            seq![16384u32, 8192u32, 4096u32]
        } else if h > 8192 {
            seq![8192u32, 4096u32]
        } else if h > 4096 {
            seq![4096u32]
        } else {
            Seq::<u32>::empty()
        };
        assert(tail =~= expected);
        let l = seq![full, h] + tail;
        assert(l == ladder(full));
        assert forall|i: int, j: int| 0 <= i < j < l.len() implies l[i] > l[j] by {
            if i >= 2 {
                assert(l[i] == expected[i - 2]);
                assert(l[j] == expected[j - 2]);
            } else if i == 1 {
                assert(l[j] == expected[j - 2]);
            } else if j >= 2 {
                assert(l[j] == expected[j - 2]);
            }
        }
        assert forall|i: int| 0 < i < l.len() implies #[trigger] l[i] >= MIN_CONTEXT by {
            if i >= 2 {
                assert(l[i] == expected[i - 2]);
            }
        }
    }
}

} // verus!
