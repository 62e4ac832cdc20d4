use llmspec::models::find;
use llmspec::models::{merge, Keyed};
use llmspec::fit::{context_ladder, FitLevel, RunMode};
use llmspec::models::{Quant, UseCase};

#[test]
fn use_cases_parse_their_names_and_aliases() {
    for u in UseCase::ALL {
        assert_eq!(UseCase::parse(u.as_str()), Some(u));
    }
    assert_eq!(UseCase::parse(" Code "), Some(UseCase::Coding));
    assert_eq!(UseCase::parse("vision"), Some(UseCase::Multimodal));
    assert_eq!(UseCase::parse("telepathy"), None);
}

#[test]
fn quantizations_parse_in_any_spelling() {
    for q in Quant::HIERARCHY {
        assert_eq!(Quant::parse(q.label()), Some(q));
    }
    assert_eq!(Quant::parse("q4-k-m"), Some(Quant::Q4KM));
    assert_eq!(Quant::parse("Q8"), Some(Quant::Q8_0));
    assert_eq!(Quant::parse("fp16"), None);
}

#[test]
fn fit_levels_and_run_modes_read_back_from_their_labels() {
    for f in [FitLevel::Perfect, FitLevel::Good, FitLevel::Marginal, FitLevel::TooTight] {
        assert_eq!(FitLevel::parse(f.label()), Some(f));
    }
    assert_eq!(FitLevel::parse("too_tight"), Some(FitLevel::TooTight));
    assert!(FitLevel::Marginal.is_runnable());
    assert!(!FitLevel::TooTight.is_runnable());
    assert!(FitLevel::Good.at_least(FitLevel::Marginal));
    assert!(!FitLevel::Marginal.at_least(FitLevel::Good));
    assert_eq!(RunMode::parse(RunMode::Gpu.label()), Some(RunMode::Gpu));
}

#[test]
fn the_context_ladder_steps_down_from_the_full_context() {
    let ladder = context_ladder(32768);
    assert_eq!(ladder[0], 32768);
    assert!(ladder.windows(2).all(|w| w[0] > w[1]));
    assert!(ladder[1..].iter().all(|&c| c >= 4096));
}

use llmspec::models::Searchable;

fn qwen() -> Searchable {
    Searchable {
        id: "Qwen/Qwen2.5-Coder-7B-Instruct".to_string(),
        name: "Qwen2.5 Coder 7B".to_string(),
        provider: "Alibaba".to_string(),
        use_case: UseCase::Coding,
        params: "8b".to_string(),
        capabilities: vec!["Tool-Use".to_string(), "fim".to_string()],
        tag: Some("qwen2.5-coder:7b".to_string()),
    }
}

#[test]
fn every_term_must_be_found_somewhere() {
    let e = qwen();
    assert!(e.matches("qwen"));
    assert!(e.matches("QWEN coder"));
    assert!(e.matches("  alibaba   8b "));
    assert!(e.matches("coding"));
    assert!(e.matches("tool-use"), "capabilities are searched with case ignored");
    assert!(!e.matches("qwen llama"), "one missing term rejects the entry");
    assert!(!e.matches("9b"));
}

#[test]
fn a_blank_query_matches_everything() {
    let e = qwen();
    assert!(e.matches(""));
    assert!(e.matches(" \t "));
}

#[test]
fn the_use_case_and_size_are_matched_as_written() {
    let mut e = qwen();
    e.use_case = UseCase::Chat;
    assert!(!e.matches("coding"));
    assert!(e.matches("CHAT"), "the query is lowercased before matching");
    assert!(!e.matches("b8"));
}

fn llama() -> Searchable {
    Searchable {
        id: "meta-llama/Llama-3.1-8B-Instruct".to_string(),
        name: "Llama 3.1 8B".to_string(),
        provider: "Meta".to_string(),
        use_case: UseCase::General,
        params: "8b".to_string(),
        capabilities: vec!["tool-use".to_string()],
        tag: None,
    }
}

#[test]
fn an_exact_id_name_or_tag_wins_over_an_earlier_search_hit() {
    let entries = vec![llama(), qwen()];
    // "8b" is a search hit for both, but nothing is named that.
    assert_eq!(find(&entries, "8b"), Some(0));
    assert_eq!(find(&entries, "  QWEN2.5-CODER:7B "), Some(1), "the tag, case aside");
    assert_eq!(find(&entries, "qwen2.5 coder 7b"), Some(1), "the name, case aside");
    assert_eq!(find(&entries, "Qwen/Qwen2.5-Coder-7B-Instruct"), Some(1));
    assert_eq!(find(&entries, "tool-use"), Some(0), "first search hit");
    assert_eq!(find(&entries, "mistral"), None);
    assert_eq!(find(&[], "llama"), None);
}

fn entry(id: &str, name: &str) -> Keyed<String> {
    Keyed { id: id.to_string(), value: name.to_string() }
}

#[test]
fn merging_adds_new_models_and_replaces_matching_ids() {
    let mut db = vec![entry("meta-llama/Llama-3.1-8B-Instruct", "Llama 3.1 8B"), entry("Qwen/Qwen2.5-7B-Instruct", "Qwen2.5 7B")];
    let before = db.len();
    let existing_id = db[0].id.clone();
    merge(
        &mut db,
        vec![entry(&existing_id, "Renamed By User"), entry("local/private-model", "Private Model")],
    );
    assert_eq!(db.len(), before + 1, "only the new id should grow the db");
    assert_eq!(db[0].id, existing_id);
    assert_eq!(db[0].value, "Renamed By User");
    assert_eq!(db[1].value, "Qwen2.5 7B");
    assert_eq!(db[2].id, "local/private-model");
}

#[test]
fn a_repeated_id_in_the_additions_keeps_the_last() {
    let mut db = vec![entry("a", "first")];
    merge(&mut db, vec![entry("b", "one"), entry("b", "two"), entry("A", "case matters")]);
    let ids: Vec<&str> = db.iter().map(|k| k.id.as_str()).collect();
    assert_eq!(ids, vec!["a", "b", "A"]);
    assert_eq!(db[1].value, "two");
}
