use llmspec::config::{Calibration, MeasuredThroughput, MeasurementStore, StoredMeasurement};

fn run(gpu: &str, quant: &str, tps: f64, at: u64) -> StoredMeasurement {
    StoredMeasurement {
        gpu: gpu.to_string(),
        backend: "CUDA".to_string(),
        runtime: "Ollama".to_string(),
        context: 4096,
        throughput: MeasuredThroughput {
            model_id: "Qwen/Qwen2.5-7B-Instruct".to_string(),
            quant: quant.to_string(),
            run_mode: "GPU".to_string(),
            tokens_per_second_bits: tps.to_bits(),
            measured_at: at,
        },
    }
}

#[test]
fn a_rerun_replaces_the_measurement_it_repeats() {
    let mut store = MeasurementStore::new();
    store.record(run("RTX 4060", "Q4_K_M", 48.0, 1));
    store.record(run("RTX 4060", "Q4_K_M", 51.1, 2));
    store.record(run("RTX 4060", "Q8_0", 30.0, 3));
    store.record(run("RTX 4090", "Q4_K_M", 140.0, 4));
    assert_eq!(store.runs.len(), 3);

    let here = store.for_machine("RTX 4060", "CUDA");
    assert_eq!(here.len(), 2);
    assert!(here
        .iter()
        .any(|m| m.quant == "Q4_K_M" && f64::from_bits(m.tokens_per_second_bits) == 51.1));
    assert!(here.iter().all(|m| f64::from_bits(m.tokens_per_second_bits) != 140.0));
}

#[test]
fn a_rerun_moves_to_the_end_and_other_runtimes_are_kept() {
    let mut store = MeasurementStore::new();
    store.record(run("RTX 4060", "Q4_K_M", 48.0, 1));
    store.record(run("RTX 4060", "Q8_0", 30.0, 2));
    let mut other = run("RTX 4060", "Q4_K_M", 60.0, 3);
    other.runtime = "llama.cpp".to_string();
    store.record(other);
    store.record(run("RTX 4060", "Q4_K_M", 50.0, 4));
    let order: Vec<u64> = store.runs.iter().map(|r| r.throughput.measured_at).collect();
    assert_eq!(order, vec![2, 3, 4]);
    assert!(store.for_machine("RTX 4060", "Metal").is_empty());
}

#[test]
fn a_calibration_belongs_to_the_machine_it_was_measured_on() {
    let calibration = Calibration {
        efficiency_bits: 0.62f64.to_bits(),
        samples: 2,
        measured_at: 0,
        gpu: "RTX 4060".to_string(),
        backend: "CUDA".to_string(),
    };
    assert!(calibration.matches("RTX 4060", "CUDA"));
    assert!(!calibration.matches("RTX 4090", "CUDA"), "a different card");
    assert!(!calibration.matches("RTX 4060", "Metal"), "a different backend");
}

#[test]
fn a_calibration_reports_its_age_in_whole_days() {
    let calibration = Calibration {
        efficiency_bits: 0.62f64.to_bits(),
        samples: 1,
        measured_at: 1_000_000,
        gpu: "RTX 4060".to_string(),
        backend: "CUDA".to_string(),
    };
    assert_eq!(calibration.age_days(1_000_000 + 3 * 86_400 + 5), 3);
    assert_eq!(calibration.age_days(1_000_000 + 86_399), 0);
    assert_eq!(calibration.age_days(5), 0, "a clock set back is not a negative age");
}
