use llmspec::doctor::{
    backend_check, gpu_check, gpu_checks, no_gpu_check, overrides_check, runtimes_check, Check, Report, Severity,
};
use llmspec::hardware::Backend;

fn report(checks: Vec<Check>) -> Report {
    Report { version: "0".into(), os: "linux".into(), arch: "x86_64".into(), checks }
}

#[test]
fn a_missing_gpu_is_a_warning_with_a_hint() {
    let check = no_gpu_check();
    assert_eq!(check.severity, Severity::Warn);
    assert!(check.hint.as_ref().unwrap().contains("--memory"));
    assert!(!report(vec![check]).is_clean());
}

#[test]
fn guessed_vram_and_unknown_bandwidth_are_flagged_differently() {
    let guessed = gpu_check(true, "RTX 4090".into(), true, true);
    assert_eq!(guessed.severity, Severity::Warn);
    assert!(guessed.detail.contains("estimated"));
    let unknown = gpu_check(true, "Some New GPU".into(), false, false);
    assert_eq!(unknown.severity, Severity::Warn);
    assert!(unknown.hint.as_ref().unwrap().contains("bandwidth table"));
    let healthy = gpu_check(false, "RTX 4090".into(), false, true);
    assert_eq!(healthy.severity, Severity::Okay);
    assert_eq!(healthy.name, "GPU (extra)");
}

#[test]
fn a_cpu_backend_beside_a_gpu_is_a_warning() {
    assert_eq!(backend_check(Backend::CpuX86, true).severity, Severity::Warn);
    assert_eq!(backend_check(Backend::CpuX86, false).severity, Severity::Okay);
    let cuda = backend_check(Backend::Cuda, true);
    assert_eq!(cuda.severity, Severity::Okay);
    assert_eq!(cuda.detail, "CUDA");
}

#[test]
fn runtimes_are_listed_or_their_absence_explained() {
    let none = runtimes_check(&Vec::new());
    assert_eq!(none.severity, Severity::Warn);
    assert_eq!(
        none.detail,
        "none responding (tried Ollama, llama.cpp, LM Studio, vLLM, Docker Model Runner, MLX)"
    );
    let live = runtimes_check(&vec![
        ("Ollama".to_string(), "http://127.0.0.1:11434".to_string(), 3),
        ("vLLM".to_string(), "http://127.0.0.1:8000".to_string(), 1),
    ]);
    assert_eq!(live.severity, Severity::Okay);
    assert_eq!(
        live.detail,
        "Ollama at http://127.0.0.1:11434 (3 models); vLLM at http://127.0.0.1:8000 (1 models)"
    );
}

#[test]
fn warnings_are_counted_and_info_is_not_one() {
    let r = report(vec![no_gpu_check(), overrides_check(), backend_check(Backend::CpuArm, true)]);
    assert_eq!(r.warnings(), 2);
    assert!(!r.is_clean());
    let clean = report(vec![overrides_check(), Check::ok("CPU", "x".into())]);
    assert!(clean.is_clean());
    assert_eq!(clean.warnings(), 0);
    assert_eq!(Severity::Info.marker(), "info");
    assert_eq!(Severity::Okay.marker(), "ok");
}

fn find<'a>(checks: &'a [Check], name: &str) -> &'a Check {
    checks.iter().find(|c| c.name == name).expect("check present")
}

fn gpu(name: &str, estimated: bool, bandwidth: Option<f64>) -> (String, bool, bool) {
    let bw = match bandwidth {
        Some(b) => format!("{b:.0} GB/s"),
        None => "bandwidth unknown".to_string(),
    };
    (format!("{name} [NVIDIA] — 24.0 GB VRAM, {bw}"), estimated, bandwidth.is_some())
}

#[test]
fn missing_gpu_is_a_warning_with_a_hint() {
    let checks = gpu_checks(&[], "0.0");
    let check = find(&checks, "GPU");
    assert_eq!(check.severity, Severity::Warn);
    assert!(check.hint.as_ref().unwrap().contains("--memory"));
    assert!(!report(checks.clone()).is_clean());
}

#[test]
fn estimated_vram_is_flagged() {
    let checks = gpu_checks(&[gpu("RTX 4090", true, Some(1008.0))], "24.0");
    let check = find(&checks, "GPU");
    assert_eq!(check.severity, Severity::Warn);
    assert!(check.detail.contains("estimated"));
}

#[test]
fn unknown_bandwidth_is_flagged_separately() {
    let checks = gpu_checks(&[gpu("Some New GPU", false, None)], "24.0");
    let check = find(&checks, "GPU");
    assert_eq!(check.severity, Severity::Warn);
    assert!(check.hint.as_ref().unwrap().contains("bandwidth table"));
}

#[test]
fn healthy_gpu_passes() {
    let checks = gpu_checks(&[gpu("RTX 4090", false, Some(1008.0))], "24.0");
    assert_eq!(find(&checks, "GPU").severity, Severity::Okay);
    assert_eq!(checks.len(), 1);
    assert_eq!(backend_check(Backend::Cuda, true).severity, Severity::Okay);
}

#[test]
fn multi_gpu_adds_an_aggregation_note() {
    let g = gpu("RTX 4090", false, Some(1008.0));
    let checks = gpu_checks(&[g.clone(), g], "48.0");
    assert_eq!(checks.len(), 3);
    assert_eq!(checks[1].name, "GPU (extra)");
    let check = find(&checks, "Multi-GPU");
    assert_eq!(check.severity, Severity::Info);
    assert!(check.detail.contains("48.0 GB"));
    assert_eq!(check.detail, "2 GPUs, 48.0 GB VRAM aggregated — assumes tensor parallelism across all of them");
}

#[test]
fn cpu_backend_with_a_gpu_present_is_a_warning() {
    assert_eq!(backend_check(Backend::CpuX86, true).severity, Severity::Warn);
    assert_eq!(backend_check(Backend::CpuX86, false).severity, Severity::Okay);
}

#[test]
fn simulated_hardware_is_announced() {
    let check = overrides_check();
    assert_eq!(check.name, "Overrides");
    assert_eq!(check.severity, Severity::Info);
}
