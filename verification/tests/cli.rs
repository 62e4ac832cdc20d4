use llmspec::cli::{parse_quant, resolve_min_fit, unknown};
use llmspec::fit::FitLevel;
use llmspec::models::Quant;

#[test]
fn unknown_values_name_what_was_accepted() {
    assert_eq!(unknown("runtime", "x", "a, b"), "unknown runtime 'x' (try: a, b)");
    assert_eq!(parse_quant("q4km"), Ok(Quant::Q4KM));
    assert_eq!(
        parse_quant("q9").unwrap_err(),
        "unknown quantization 'q9' (try: Q8_0, Q6_K, Q5_K_M, Q4_K_M, Q3_K_M, Q2_K)"
    );
}

#[test]
fn the_minimum_fit_follows_the_flags_in_order() {
    assert_eq!(resolve_min_fit(true, true, Some("good")), Ok(Some(FitLevel::Perfect)));
    assert_eq!(resolve_min_fit(false, true, Some("good")), Ok(Some(FitLevel::Good)));
    assert_eq!(resolve_min_fit(false, true, None), Ok(Some(FitLevel::Marginal)));
    assert_eq!(resolve_min_fit(false, false, None), Ok(None));
    assert!(resolve_min_fit(false, false, Some("great")).unwrap_err().starts_with("unknown fit level 'great'"));
}

use llmspec::cli::context_cap;

#[test]
fn the_context_cap_comes_from_the_flag_then_the_environment() {
    assert_eq!(context_cap(Some(4096), Some("8192")), Some(4096));
    assert_eq!(context_cap(None, Some(" 8192 ")), Some(8192));
    assert_eq!(context_cap(None, Some("lots")), None);
    assert_eq!(context_cap(None, Some("99999999999")), None);
    assert_eq!(context_cap(None, None), None);
}
