//! The diagnostic report: each input the recommendations rest on, with
//! whether it was measured, guessed, or missing.
//!
//! Gathering the inputs (and printing the measured figures) happens in the
//! application; which of them deserve a warning, and what to do about it, is
//! decided here.

use vstd::prelude::*;
use crate::hardware::{Backend, backend_label};
use crate::providers::{RuntimeKind, runtime_label};
use crate::text::dec_string;
use crate::text::dec;

verus! {

#[derive(Debug, Clone, Copy, PartialEq, Eq, Structural)]
pub enum Severity {
    Okay,
    Warn,
    Info,
}

pub open spec fn severity_marker(s: Severity) -> Seq<char> {
    match s {
        Severity::Okay => "ok"@,
        Severity::Warn => "warn"@,
        Severity::Info => "info"@,
    }
}

impl Severity {
    pub fn marker(self) -> (r: &'static str)
        ensures
            r@ == severity_marker(self),
    {
        match self {
            Severity::Okay => "ok",
            Severity::Warn => "warn",
            Severity::Info => "info",
        }
    }
}

/// One line of the report.
#[derive(Debug, Clone)]
pub struct Check {
    pub name: &'static str,
    pub severity: Severity,
    pub detail: String,
    /// What to do about it, when there is something to do.
    pub hint: Option<String>,
}

pub open spec fn hint_text(h: Option<String>) -> Option<Seq<char>> {
    match h {
        Some(s) => Some(s@),
        None => None,
    }
}

/// A check as the contracts see it: name, severity, detail, hint.
pub open spec fn check_view(c: Check) -> (Seq<char>, Severity, Seq<char>, Option<Seq<char>>) {
    (c.name@, c.severity, c.detail@, hint_text(c.hint))
}

impl Check {
    pub fn ok(name: &'static str, detail: String) -> (c: Check)
        ensures
            check_view(c) == (name@, Severity::Okay, detail@, None::<Seq<char>>),
    {
        Check { name, severity: Severity::Okay, detail, hint: None }
    }

    pub fn info(name: &'static str, detail: String) -> (c: Check)
        ensures
            check_view(c) == (name@, Severity::Info, detail@, None::<Seq<char>>),
    {
        Check { name, severity: Severity::Info, detail, hint: None }
    }

    pub fn warn(name: &'static str, detail: String, hint: String) -> (c: Check)
        ensures
            check_view(c) == (name@, Severity::Warn, detail@, Some(hint@)),
    {
        Check { name, severity: Severity::Warn, detail, hint: Some(hint) }
    }
}

/// The report's lines, with what the program and platform were.
#[derive(Debug, Clone)]
pub struct Report {
    pub version: String,
    pub os: String,
    pub arch: String,
    pub checks: Vec<Check>,
}

/// How many checks in `cs` are warnings.
pub open spec fn warn_count(cs: Seq<Check>) -> nat
    decreases cs.len(),
{
    if cs.len() == 0 {
        0
    } else {
        warn_count(cs.drop_last()) + if cs.last().severity == Severity::Warn {
            1nat
        } else {
            0nat
        }
    }
}

proof fn lemma_warn_count_bound(cs: Seq<Check>)
    ensures
        warn_count(cs) <= cs.len(),
    decreases cs.len(),
{
    if cs.len() > 0 {
        lemma_warn_count_bound(cs.drop_last());
    }
}

proof fn lemma_no_warning(cs: Seq<Check>)
    ensures
        warn_count(cs) == 0 <==> forall|i: int| 0 <= i < cs.len() ==> (#[trigger] cs[i]).severity != Severity::Warn,
    decreases cs.len(),
{
    if cs.len() > 0 {
        lemma_no_warning(cs.drop_last());
        assert forall|i: int| 0 <= i < cs.len() - 1 implies cs.drop_last()[i] == cs[i] by {}
        if warn_count(cs.drop_last()) != 0 {
            let i = choose|i: int| 0 <= i < cs.drop_last().len() && (#[trigger] cs.drop_last()[i]).severity == Severity::Warn;
            assert(cs[i] == cs.drop_last()[i]);
        }
    }
}

impl Report {
    /// True when nothing needs the user's attention.
    pub fn is_clean(&self) -> (r: bool)
        ensures
            r == forall|i: int| 0 <= i < self.checks.len() ==> (#[trigger] self.checks@[i]).severity != Severity::Warn,
            r == (warn_count(self.checks@) == 0),
    {
        proof {
            lemma_no_warning(self.checks@);
        }
        self.warnings() == 0
    }

    /// How many checks are warnings.
    pub fn warnings(&self) -> (r: usize)
        ensures
            r == warn_count(self.checks@),
    {
        let mut n: usize = 0;
        let mut i: usize = 0;
        assert(self.checks@.take(0) =~= seq![]);
        while i < self.checks.len()
            invariant
                i <= self.checks.len(),
                n == warn_count(self.checks@.take(i as int)),
                n <= i,
            decreases self.checks.len() - i,
        {
            assert(self.checks@.take(i + 1).drop_last() =~= self.checks@.take(i as int));
            assert(self.checks@.take(i + 1).last() == self.checks@[i as int]);
            if self.checks[i].severity == Severity::Warn {
                n = n + 1;
            }
            i = i + 1;
        }
        assert(self.checks@.take(i as int) =~= self.checks@);
        n
    }
}

/// The check for a machine with no GPU.
pub fn no_gpu_check() -> (c: Check)
    ensures
        check_view(c) == ("GPU"@, Severity::Warn, "none detected"@, Some(
            "install the vendor tools (nvidia-smi / rocm-smi) or pass --memory 8G to simulate one"@,
        )),
{
    Check::warn(
        "GPU",
        "none detected".to_owned(),
        "install the vendor tools (nvidia-smi / rocm-smi) or pass --memory 8G to simulate one".to_owned(),
    )
}

/// What one detected GPU's check says: VRAM guessed from its name, or a
/// card missing from the bandwidth table, is worth a warning. `detail` is
/// its description; the first GPU is `GPU`, the others `GPU (extra)`.
pub open spec fn gpu_check_of(first: bool, detail: Seq<char>, vram_estimated: bool, bandwidth_known: bool) -> (
    Seq<char>,
    Severity,
    Seq<char>,
    Option<Seq<char>>,
) {
    let name = if first { "GPU"@ } else { "GPU (extra)"@ };
    if vram_estimated {
        (
            name,
            Severity::Warn,
            detail + " (VRAM estimated from the model name)"@,
            Some("pass --memory to give the exact figure"@),
        )
    } else if !bandwidth_known {
        (
            name,
            Severity::Warn,
            detail,
            Some("this GPU is not in the bandwidth table; speed falls back to a per-backend constant"@),
        )
    } else {
        (name, Severity::Okay, detail, None)
    }
}

/// The check for one detected GPU.
pub fn gpu_check(first: bool, detail: String, vram_estimated: bool, bandwidth_known: bool) -> (c: Check)
    ensures
        check_view(c) == gpu_check_of(first, detail@, vram_estimated, bandwidth_known),
{
    let name: &'static str = if first { "GPU" } else { "GPU (extra)" };
    if vram_estimated {
        let mut d = detail;
        d.append(" (VRAM estimated from the model name)");
        Check::warn(name, d, "pass --memory to give the exact figure".to_owned())
    } else if !bandwidth_known {
        Check::warn(
            name,
            detail,
            "this GPU is not in the bandwidth table; speed falls back to a per-backend constant".to_owned(),
        )
    } else {
        Check::ok(name, detail)
    }
}

/// The GPU section of the report: a warning when there is no GPU, else one
/// check per GPU and, with more than one, a note that their VRAM is counted
/// together. `total_vram` is the aggregated VRAM as written in the note.
pub open spec fn gpu_section_ok(gpus: Seq<(String, bool, bool)>, total_vram: Seq<char>, r: Seq<Check>) -> bool {
    if gpus.len() == 0 {
        r.len() == 1 && check_view(r[0]) == ("GPU"@, Severity::Warn, "none detected"@, Some(
            "install the vendor tools (nvidia-smi / rocm-smi) or pass --memory 8G to simulate one"@,
        ))
    } else {
        &&& r.len() == gpus.len() + if gpus.len() > 1 { 1int } else { 0int }
        &&& forall|i: int| 0 <= i < gpus.len() ==> check_view(#[trigger] r[i]) == gpu_check_of(
            i == 0,
            gpus[i].0@,
            gpus[i].1,
            gpus[i].2,
        )
        &&& gpus.len() > 1 ==> check_view(r[gpus.len() as int]) == (
            "Multi-GPU"@,
            Severity::Info,
            dec(gpus.len()) + " GPUs, "@ + total_vram + " GB VRAM aggregated — assumes tensor parallelism across all of them"@,
            None::<Seq<char>>,
        )
    }
}

/// The checks for the detected GPUs.
pub fn gpu_checks(gpus: &[(String, bool, bool)], total_vram: &str) -> (r: Vec<Check>)
    ensures
        gpu_section_ok(gpus@, total_vram@, r@),
{
    if gpus.len() == 0 {
        return vec![no_gpu_check()];
    }
    let mut out: Vec<Check> = Vec::new();
    let mut i: usize = 0;
    while i < gpus.len()
        invariant
            i <= gpus.len(),
            out.len() == i,
            forall|k: int| 0 <= k < i ==> check_view(#[trigger] out@[k]) == gpu_check_of(
                k == 0,
                gpus@[k].0@,
                gpus@[k].1,
                gpus@[k].2,
            ),
        decreases gpus.len() - i,
    {
        let c = gpu_check(i == 0, gpus[i].0.clone(), gpus[i].1, gpus[i].2);
        out.push(c);
        i = i + 1;
    }
    if gpus.len() > 1 {
        let mut d = dec_string(gpus.len() as u64);
        d.append(" GPUs, ");
        d.append(total_vram);
        d.append(" GB VRAM aggregated — assumes tensor parallelism across all of them");
        out.push(Check::info("Multi-GPU", d));
    }
    out
}

/// The backend check: a CPU backend on a machine that has a GPU means the
/// vendor could not be identified.
pub fn backend_check(backend: Backend, has_gpu: bool) -> (c: Check)
    ensures
        (backend == Backend::CpuX86 || backend == Backend::CpuArm) && has_gpu ==> check_view(c) == (
            "Backend"@,
            Severity::Warn,
            backend_label(backend) + " despite a detected GPU"@,
            Some("the GPU vendor could not be identified; pass --memory to size VRAM by hand"@),
        ),
        !((backend == Backend::CpuX86 || backend == Backend::CpuArm) && has_gpu) ==> check_view(c) == (
            "Backend"@,
            Severity::Okay,
            backend_label(backend),
            None::<Seq<char>>,
        ),
{
    if (backend == Backend::CpuX86 || backend == Backend::CpuArm) && has_gpu {
        let mut d = crate::text::owned(backend.label());
        d.append(" despite a detected GPU");
        Check::warn(
            "Backend",
            d,
            "the GPU vendor could not be identified; pass --memory to size VRAM by hand".to_owned(),
        )
    } else {
        Check::ok("Backend", crate::text::owned(backend.label()))
    }
}

/// Every runtime's display name, comma-separated.
pub open spec fn all_runtime_labels() -> Seq<char> {
    runtime_label(RuntimeKind::Ollama) + ", "@ + runtime_label(RuntimeKind::LlamaCpp) + ", "@
        + runtime_label(RuntimeKind::LmStudio) + ", "@ + runtime_label(RuntimeKind::Vllm) + ", "@
        + runtime_label(RuntimeKind::DockerModelRunner) + ", "@ + runtime_label(RuntimeKind::Mlx)
}

/// `name at url (n models)` for each live runtime, joined with `; `.
pub open spec fn runtimes_summary(live: Seq<(Seq<char>, Seq<char>, nat)>) -> Seq<char>
    decreases live.len(),
{
    if live.len() == 0 {
        seq![]
    } else {
        let e = live.last();
        let one = e.0 + " at "@ + e.1 + " ("@ + dec(e.2) + " models)"@;
        if live.len() == 1 {
            one
        } else {
            runtimes_summary(live.drop_last()) + "; "@ + one
        }
    }
}

pub open spec fn live_view(v: Seq<(String, String, usize)>) -> Seq<(Seq<char>, Seq<char>, nat)> {
    v.map_values(|e: (String, String, usize)| (e.0@, e.1@, e.2 as nat))
}

/// The runtimes check, from the runtimes found answering: each as its name,
/// base URL and model count.
pub fn runtimes_check(live: &Vec<(String, String, usize)>) -> (c: Check)
    ensures
        live.len() == 0 ==> check_view(c) == (
            "Runtimes"@,
            Severity::Warn,
            "none responding (tried "@ + all_runtime_labels() + ")"@,
            Some("start one — e.g. `ollama serve` — to enable `llmspec bench` and installed-model detection"@),
        ),
        live.len() > 0 ==> check_view(c) == ("Runtimes"@, Severity::Okay, runtimes_summary(live_view(live@)), None::<Seq<char>>),
{
    if live.len() == 0 {
        let mut d = crate::text::owned("none responding (tried ");
        d.append(RuntimeKind::Ollama.label());
        d.append(", ");
        d.append(RuntimeKind::LlamaCpp.label());
        d.append(", ");
        d.append(RuntimeKind::LmStudio.label());
        d.append(", ");
        d.append(RuntimeKind::Vllm.label());
        d.append(", ");
        d.append(RuntimeKind::DockerModelRunner.label());
        d.append(", ");
        d.append(RuntimeKind::Mlx.label());
        d.append(")");
        return Check::warn(
            "Runtimes",
            d,
            "start one — e.g. `ollama serve` — to enable `llmspec bench` and installed-model detection".to_owned(),
        );
    }
    let ghost lv = live_view(live@);
    let mut d = String::new();
    let mut i: usize = 0;
    assert(lv.take(0) =~= seq![]);
    while i < live.len()
        invariant
            i <= live.len(),
            lv == live_view(live@),
            d@ == runtimes_summary(lv.take(i as int)),
        decreases live.len() - i,
    {
        assert(lv.take(i + 1).drop_last() =~= lv.take(i as int));
        assert(lv.take(i + 1).last() == (live@[i as int].0@, live@[i as int].1@, live@[i as int].2 as nat));
        if i > 0 {
            d.append("; ");
        }
        d.append(live[i].0.as_str());
        d.append(" at ");
        d.append(live[i].1.as_str());
        d.append(" (");
        d.append(dec_string(live[i].2 as u64).as_str());
        d.append(" models)");
        i = i + 1;
    }
    assert(lv.take(i as int) =~= lv);
    Check::ok("Runtimes", d)
}

/// The note added when the hardware figures are simulated.
pub fn overrides_check() -> (c: Check)
    ensures
        check_view(c) == ("Overrides"@, Severity::Info, "hardware values are simulated — results do not describe this machine"@, None::<Seq<char>>),
{
    Check::info("Overrides", "hardware values are simulated — results do not describe this machine".to_owned())
}

} // verus!
