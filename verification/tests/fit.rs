use llmspec::fit::{FitLevel, RunMode};
use llmspec::models::{Quant, UseCase};
use llmspec::theme::Theme;

#[test]
fn run_modes_read_back_from_their_labels_and_spellings() {
    for m in [RunMode::Gpu, RunMode::Moe, RunMode::CpuGpu, RunMode::Cpu] {
        assert_eq!(RunMode::parse(m.label()), Some(m));
        assert_eq!(RunMode::parse(&format!(" {} ", m.label().to_lowercase())), Some(m));
    }
    assert_eq!(RunMode::parse(" Hybrid "), Some(RunMode::CpuGpu));
    assert_eq!(RunMode::parse("quantum"), None);
}

#[test]
fn fit_levels_read_back_from_their_labels_and_spellings() {
    for f in [FitLevel::Perfect, FitLevel::Good, FitLevel::Marginal, FitLevel::TooTight] {
        assert_eq!(FitLevel::parse(f.label()), Some(f));
    }
    assert_eq!(FitLevel::parse("Too Tight"), Some(FitLevel::TooTight));
    assert_eq!(FitLevel::parse("too_tight"), Some(FitLevel::TooTight));
    assert_eq!(FitLevel::parse("too-tight"), Some(FitLevel::TooTight));
    assert_eq!(FitLevel::parse("flawless"), None);
}

#[test]
fn use_cases_and_quantizations_read_back_from_their_spellings() {
    for u in UseCase::ALL {
        assert_eq!(UseCase::parse(u.as_str()), Some(u));
    }
    assert_eq!(UseCase::parse("code"), Some(UseCase::Coding));
    assert_eq!(UseCase::parse("vision"), Some(UseCase::Multimodal));
    assert_eq!(UseCase::parse("embed"), Some(UseCase::Embedding));
    assert_eq!(UseCase::parse("telepathy"), None);
    for q in Quant::HIERARCHY {
        assert_eq!(Quant::parse(q.label()), Some(q));
    }
    assert_eq!(Quant::parse("q4_k_m"), Some(Quant::Q4KM));
    assert_eq!(Quant::parse("Q4"), Some(Quant::Q4KM));
    assert_eq!(Quant::parse("q9"), None);
}

#[test]
fn theme_slugs_are_distinct_lowercase_words() {
    let mut seen: Vec<&str> = Vec::new();
    for t in Theme::ALL {
        let s = t.slug();
        assert!(!s.is_empty());
        assert!(s.chars().all(|c| c.is_ascii_lowercase() || c == '-'), "{s}");
        assert!(!seen.contains(&s), "{s} twice");
        seen.push(s);
    }
    assert_eq!(seen.len(), 21);
}
