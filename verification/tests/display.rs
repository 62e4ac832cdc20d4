use llmspec::display::{format_context, pad, row, rpad, truncate};

#[test]
fn truncation_keeps_width() {
    assert_eq!(truncate("short", 10), "short");
    assert_eq!(truncate("a-very-long-model-name", 10).chars().count(), 10);
    assert_eq!(pad("x", 5).chars().count(), 5);
    assert_eq!(rpad("x", 5).chars().count(), 5);
}

#[test]
fn context_formatting() {
    assert_eq!(format_context(131072), "128K");
    assert_eq!(format_context(8192), "8K");
    assert_eq!(format_context(512), "512");
}

#[test]
fn truncation_marks_the_cut_with_a_tilde() {
    assert_eq!(truncate("abcdefghij", 4), "abc~");
    assert_eq!(truncate("abcd", 4), "abcd");
    assert_eq!(truncate("abc", 0), "~");
    assert_eq!(truncate("", 0), "");
}

#[test]
fn padding_aligns_on_the_requested_side() {
    assert_eq!(pad("ab", 5), "ab   ");
    assert_eq!(rpad("ab", 5), "   ab");
    assert_eq!(pad("abcdefgh", 5), "abcd~");
    assert_eq!(rpad("abcdefgh", 5), "abcd~");
}

#[test]
fn context_rounds_down_to_whole_kilotokens() {
    assert_eq!(format_context(1023), "1023");
    assert_eq!(format_context(1024), "1K");
    assert_eq!(format_context(2047), "1K");
    assert_eq!(format_context(0), "0");
}

#[test]
fn detail_rows_put_the_label_in_a_fixed_column() {
    assert_eq!(row("Quantization", "Q4_K_M"), "  Quantization   Q4_K_M\n");
    assert_eq!(row("A label longer than 14", "x"), "  A label longer than 14 x\n");
}
