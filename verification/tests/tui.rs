use llmspec::fit::FitLevel;
use llmspec::tui::{
    clamp_selection, last_row, move_selection, status_button_at, status_button_layout, truncate,
    Availability, ButtonKey, FitFilter, Mode, SortColumn,
};

#[test]
fn mode_classification_is_exhaustive() {
    for mode in [
        Mode::Normal,
        Mode::Search,
        Mode::Help,
        Mode::Detail,
        Mode::Plan,
        Mode::SimulateHardware,
        Mode::AdvancedConfig,
        Mode::Comparison,
    ] {
        assert!(!(mode.is_panel() && mode.is_popup()), "{mode:?}");
    }
    assert!(Mode::Detail.is_panel());
    assert!(Mode::Help.is_popup());
    assert!(!Mode::Normal.is_panel() && !Mode::Normal.is_popup());
}

#[test]
fn the_fit_filter_cycle_wraps_and_restricts() {
    let mut f = FitFilter::All;
    let mut seen = vec![f];
    for _ in 0..FitFilter::CYCLE.len() - 1 {
        f = f.next();
        seen.push(f);
    }
    assert_eq!(seen.to_vec(), FitFilter::CYCLE.to_vec());
    assert_eq!(f.next(), FitFilter::All);
    assert!(FitFilter::Runnable.accepts(FitLevel::Marginal));
    assert!(!FitFilter::Runnable.accepts(FitLevel::TooTight));
    assert!(FitFilter::Perfect.accepts(FitLevel::Perfect));
    assert!(!FitFilter::Good.accepts(FitLevel::Perfect));
    assert!(FitFilter::All.accepts(FitLevel::TooTight));
}

#[test]
fn sort_and_availability_cycles_wrap() {
    let mut s = SortColumn::Score;
    for _ in 0..SortColumn::CYCLE.len() {
        s = s.next();
    }
    assert_eq!(s, SortColumn::Score);
    assert_eq!(SortColumn::Speed.label(), "tok/s");
    assert_eq!(SortColumn::UseCase.label(), "Use Case");
    assert_eq!(Availability::Installed.next(), Availability::All);
    assert_eq!(Availability::Gguf.label(), "GGUF");
    assert!(!Availability::Gguf.accepts(false, true));
    assert!(Availability::Installed.accepts(false, true));
}

#[test]
fn cursor_movement_stays_in_bounds() {
    assert_eq!(move_selection(0, 10, -10), 0);
    assert_eq!(move_selection(3, 10, 3), 6);
    assert_eq!(move_selection(8, 10, 5), 9);
    assert_eq!(move_selection(2, 0, 5), 2);
    assert_eq!(move_selection(5, 10, isize::MIN), 0);
    assert_eq!(move_selection(5, 10, isize::MAX), 9);
    assert_eq!(last_row(10), 9);
    assert_eq!(last_row(0), 0);
    assert_eq!(clamp_selection(12, 4), 3);
    assert_eq!(clamp_selection(2, 4), 2);
    assert_eq!(clamp_selection(2, 0), 0);
}

#[test]
fn cells_are_cut_with_an_ellipsis() {
    assert_eq!(truncate("Qwen2.5-Coder-32B", 8), "Qwen2.5…");
    assert_eq!(truncate("short", 8), "short");
}

#[test]
fn status_buttons_sit_after_the_prefix_with_gaps() {
    let layout = status_button_layout(200);
    assert_eq!(layout.len(), 9);
    assert_eq!(layout[0], (11, 21, ButtonKey::Char('/')));
    assert_eq!(layout[1], (22, 29, ButtonKey::Char('f')));
    assert_eq!(layout[6].2, ButtonKey::Enter);
    for pair in layout.windows(2) {
        assert!(pair[0].1 < pair[1].0);
    }
}

#[test]
fn buttons_that_do_not_fit_are_dropped_not_clipped() {
    let layout = status_button_layout(28);
    assert_eq!(layout.len(), 1);
    assert!(status_button_layout(20).is_empty());
    assert!(layout.iter().all(|b| b.1 <= 28));
}

#[test]
fn a_click_lands_on_the_button_under_it_or_nothing() {
    assert_eq!(status_button_at(200, 11), Some(ButtonKey::Char('/')));
    assert_eq!(status_button_at(200, 20), Some(ButtonKey::Char('/')));
    assert_eq!(status_button_at(200, 21), None);
    assert_eq!(status_button_at(200, 22), Some(ButtonKey::Char('f')));
    assert_eq!(status_button_at(200, 3), None);
    assert_eq!(status_button_at(28, 23), None);
}

use llmspec::tui::{centred, reselect, Area};

#[test]
fn selection_survives_refilter() {
    let before = ["a/one", "b/two", "c/three", "d/four"].map(String::from);
    let anchor = before[3].clone();
    // Re-sorting moves the model to another row; the cursor follows it.
    let after = ["d/four", "c/three", "b/two", "a/one"].map(String::from);
    let row = reselect(&after, Some(&anchor));
    assert_eq!(after[row], anchor);
    // A model filtered out sends the cursor to the first row.
    let narrowed = ["b/two", "c/three"].map(String::from);
    assert_eq!(reselect(&narrowed, Some(&anchor)), 0);
    assert_eq!(reselect(&after, None), 0);
}

#[test]
fn navigation_stays_in_bounds() {
    let rows = 12;
    assert_eq!(move_selection(0, rows, -10), 0);
    let last = last_row(rows);
    assert_eq!(last, rows - 1);
    assert_eq!(move_selection(last, rows, 50), last);
}

#[test]
fn empty_result_set_does_not_panic() {
    let narrowed: [String; 0] = [];
    let row = reselect(&narrowed, Some("a/one"));
    assert_eq!(row, 0);
    assert_eq!(clamp_selection(row, 0), 0);
    assert_eq!(last_row(0), 0);
}

#[test]
fn popups_are_centred_and_shrink_to_fit() {
    let screen = Area { x: 0, y: 0, width: 100, height: 40 };
    assert_eq!(centred(screen, 60, 20), Area { x: 20, y: 10, width: 60, height: 20 });
    assert_eq!(centred(screen, 200, 50), screen);
    let inner = Area { x: 5, y: 3, width: 11, height: 4 };
    assert_eq!(centred(inner, 4, 1), Area { x: 8, y: 4, width: 4, height: 1 });
}

fn table_row(fit: FitLevel, gguf: bool, installed: bool, name: Option<&str>) -> llmspec::tui::TableRow {
    llmspec::tui::TableRow {
        fit,
        gguf,
        installed,
        entry: name.map(|n| llmspec::models::Searchable {
            id: format!("org/{n}"),
            name: n.to_string(),
            provider: "Org".to_string(),
            use_case: llmspec::models::UseCase::General,
            params: "7b".to_string(),
            capabilities: vec![],
            tag: None,
        }),
    }
}

#[test]
fn the_table_shows_the_rows_every_filter_lets_through_in_order() {
    let rows = vec![
        table_row(FitLevel::Perfect, true, false, Some("Qwen 7B")),
        table_row(FitLevel::TooTight, true, true, Some("Qwen 72B")),
        table_row(FitLevel::Good, false, true, Some("Llama 8B")),
        table_row(FitLevel::Marginal, true, false, None),
    ];
    assert_eq!(llmspec::tui::filter_rows(&rows, FitFilter::All, Availability::All, ""), vec![0, 1, 2, 3]);
    assert_eq!(llmspec::tui::filter_rows(&rows, FitFilter::Runnable, Availability::All, ""), vec![0, 2, 3]);
    assert_eq!(llmspec::tui::filter_rows(&rows, FitFilter::All, Availability::Gguf, ""), vec![0, 1, 3]);
    assert_eq!(llmspec::tui::filter_rows(&rows, FitFilter::All, Availability::Installed, ""), vec![1, 2]);
    assert_eq!(llmspec::tui::filter_rows(&rows, FitFilter::All, Availability::All, "qwen"), vec![0, 1]);
    assert_eq!(llmspec::tui::filter_rows(&rows, FitFilter::Runnable, Availability::Gguf, "qwen"), vec![0]);
    assert!(llmspec::tui::filter_rows(&rows, FitFilter::All, Availability::All, "mistral").is_empty());
}
