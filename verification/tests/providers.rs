use llmspec::providers::bench_targets;
use llmspec::providers::{is_fresh, normalize_url, Runtime, RuntimeKind};

#[test]
fn runtime_slugs_round_trip() {
    for kind in RuntimeKind::ALL {
        assert_eq!(RuntimeKind::parse(kind.slug()), Some(kind));
        assert_eq!(RuntimeKind::parse(kind.label()), Some(kind));
    }
}

#[test]
fn runtime_aliases_parse() {
    assert_eq!(RuntimeKind::parse("llama.cpp"), Some(RuntimeKind::LlamaCpp));
    assert_eq!(RuntimeKind::parse("LM-Studio"), Some(RuntimeKind::LmStudio));
    assert_eq!(RuntimeKind::parse("dmr"), Some(RuntimeKind::DockerModelRunner));
    assert_eq!(RuntimeKind::parse("nonesuch"), None);
}

#[test]
fn gguf_runtimes_are_marked() {
    assert!(RuntimeKind::Ollama.needs_gguf());
    assert!(RuntimeKind::LlamaCpp.needs_gguf());
    assert!(!RuntimeKind::Mlx.needs_gguf());
    assert!(!RuntimeKind::Vllm.needs_gguf());
}

#[test]
fn urls_get_a_scheme_and_lose_trailing_slashes() {
    assert_eq!(normalize_url("127.0.0.1:11434"), "http://127.0.0.1:11434");
    assert_eq!(normalize_url("http://localhost:8080/"), "http://localhost:8080");
    assert_eq!(normalize_url("https://gpu.internal:9000"), "https://gpu.internal:9000");
}

#[test]
fn install_hints_are_runtime_specific() {
    assert_eq!(
        RuntimeKind::Ollama.install_hint("llama3.2:1b").unwrap(),
        "ollama pull llama3.2:1b"
    );
    assert!(RuntimeKind::Vllm
        .install_hint("Qwen/Qwen2.5-7B-Instruct")
        .unwrap()
        .starts_with("vllm serve"));
}

#[test]
fn every_runtime_has_an_install_command() {
    assert_eq!(RuntimeKind::DockerModelRunner.install_hint("m").unwrap(), "docker model pull m");
    assert_eq!(RuntimeKind::Mlx.install_hint("m").unwrap(), "mlx_lm.generate --model m");
    assert_eq!(RuntimeKind::LlamaCpp.install_hint("m").unwrap(), "llama-server -hf m");
    assert_eq!(RuntimeKind::LmStudio.install_hint("m").unwrap(), "lms get m");
}

#[test]
fn aliases_ignore_case_and_separators() {
    assert_eq!(RuntimeKind::parse("  LLAMA_SERVER "), Some(RuntimeKind::LlamaCpp));
    assert_eq!(RuntimeKind::parse("mlx-lm"), Some(RuntimeKind::Mlx));
    assert_eq!(RuntimeKind::parse("Docker Model Runner"), Some(RuntimeKind::DockerModelRunner));
    assert_eq!(RuntimeKind::parse("ggml"), Some(RuntimeKind::LlamaCpp));
    assert_eq!(RuntimeKind::parse(""), None);
}

#[test]
fn urls_are_trimmed_before_anything_else() {
    assert_eq!(normalize_url("  localhost:1234// "), "http://localhost:1234");
    assert_eq!(normalize_url(""), "http://");
}

#[test]
fn a_runtime_uses_the_configured_address_or_its_default() {
    let default = Runtime::new(RuntimeKind::Ollama, None);
    assert_eq!(default.base_url, "http://127.0.0.1:11434");
    let configured = Runtime::new(RuntimeKind::Ollama, Some("10.0.0.5:11434/"));
    assert_eq!(configured.base_url, "http://10.0.0.5:11434");
    assert_eq!(RuntimeKind::Mlx.default_url(), "http://127.0.0.1:8080");
    assert_eq!(RuntimeKind::Vllm.env_var(), "VLLM_HOST");
}

#[test]
fn listing_asks_the_right_path_or_reports_the_closed_port() {
    let ollama = Runtime::with_url(RuntimeKind::Ollama, "http://127.0.0.1:11434/");
    assert_eq!(ollama.list_models(true).unwrap(), "http://127.0.0.1:11434/api/tags");
    assert_eq!(
        ollama.list_models(false).unwrap_err(),
        "nothing listening at http://127.0.0.1:11434"
    );
    let docker = Runtime::with_url(RuntimeKind::DockerModelRunner, "localhost:12434");
    assert_eq!(docker.list_models(true).unwrap(), "http://localhost:12434/engines/v1/models");
    let lms = Runtime::with_url(RuntimeKind::LmStudio, "localhost:1234");
    assert_eq!(lms.url(RuntimeKind::LmStudio.chat_path()), "http://localhost:1234/v1/chat/completions");
}

#[test]
fn only_ollama_can_pull_and_the_others_say_what_to_run() {
    let ollama = Runtime::new(RuntimeKind::Ollama, None);
    assert_eq!(ollama.pull("llama3.2:1b").unwrap(), "http://127.0.0.1:11434/api/pull");
    let vllm = Runtime::new(RuntimeKind::Vllm, None);
    assert_eq!(
        vllm.pull("Qwen/Qwen2.5-7B-Instruct").unwrap_err(),
        "vLLM has no pull API — run: vllm serve Qwen/Qwen2.5-7B-Instruct"
    );
}

#[test]
fn discovery_results_stay_fresh_for_five_minutes() {
    assert!(is_fresh(1000, 1000));
    assert!(is_fresh(1299, 1000));
    assert!(!is_fresh(1300, 1000));
    assert!(is_fresh(5, 10));
}

use llmspec::providers::{can_load, select_runtime, suggested_runtime};

#[test]
fn the_suggested_runtime_follows_what_is_running() {
    // With nothing running, a tagged model gets Ollama and any other llama.cpp.
    assert_eq!(suggested_runtime(None, None, true), RuntimeKind::Ollama);
    assert_eq!(suggested_runtime(None, None, false), RuntimeKind::LlamaCpp);
    // A live runtime wins over the fallback, and an explicit choice over both.
    assert_eq!(suggested_runtime(None, Some(RuntimeKind::Vllm), true), RuntimeKind::Vllm);
    assert_eq!(suggested_runtime(Some(RuntimeKind::Mlx), Some(RuntimeKind::Vllm), true), RuntimeKind::Mlx);
}

#[test]
fn a_benchmark_runs_against_the_runtime_asked_for_or_the_first_running() {
    let running = [RuntimeKind::LmStudio, RuntimeKind::Ollama];
    assert_eq!(select_runtime(&running, None), Ok(0));
    assert_eq!(select_runtime(&running, Some(RuntimeKind::Ollama)), Ok(1));
    assert_eq!(
        select_runtime(&running, Some(RuntimeKind::Vllm)),
        Err("vLLM is not running on this machine".to_string())
    );
    assert_eq!(
        select_runtime(&[], None),
        Err("no local runtime is running (tried Ollama, llama.cpp, LM Studio, vLLM, Docker Model Runner)".to_string())
    );
}

#[test]
fn gguf_loaders_only_list_models_with_a_gguf_build() {
    assert!(!can_load(Some(RuntimeKind::Ollama), false));
    assert!(can_load(Some(RuntimeKind::Ollama), true));
    assert!(can_load(Some(RuntimeKind::Vllm), false));
    assert!(can_load(None, false));
}

#[test]
fn a_named_model_is_benchmarked_without_the_listing() {
    let installed = vec!["qwen2.5:7b".to_string(), "llama3.1:8b".to_string()];
    assert_eq!(bench_targets("phi4", false, RuntimeKind::Ollama, &[]), Ok(vec!["phi4".to_string()]));
    assert_eq!(bench_targets("", false, RuntimeKind::Ollama, &installed), Ok(vec!["qwen2.5:7b".to_string()]));
    assert_eq!(bench_targets("phi4", true, RuntimeKind::Ollama, &installed), Ok(installed.clone()));
    assert_eq!(
        bench_targets("", true, RuntimeKind::LmStudio, &[]),
        Err("LM Studio reports no installed models — name one explicitly".to_string())
    );
}
