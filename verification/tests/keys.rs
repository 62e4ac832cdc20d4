use llmspec::form::{Field, Form};
use llmspec::keys::{Context, Controls, Effect, Key, Row, PAGE};
use llmspec::models::UseCase;
use llmspec::theme::Theme;
use llmspec::tui::{Availability, FitFilter, Mode, SortColumn};

/// The rows an application would show: id, name and Ollama tag.
const MODELS: [(&str, &str, Option<&str>); 30] = [
    ("Qwen/Qwen2.5-7B-Instruct", "Qwen2.5 7B", Some("qwen2.5:7b")),
    ("meta-llama/Llama-3.1-8B-Instruct", "Llama 3.1 8B", Some("llama3.1:8b")),
    ("microsoft/phi-4", "Phi-4", Some("phi4")),
    ("org/untagged-1", "Untagged 1", None),
    ("org/m4", "M4", Some("m4")),
    ("org/m5", "M5", Some("m5")),
    ("org/m6", "M6", Some("m6")),
    ("org/m7", "M7", Some("m7")),
    ("org/m8", "M8", Some("m8")),
    ("org/m9", "M9", Some("m9")),
    ("org/m10", "M10", Some("m10")),
    ("org/m11", "M11", Some("m11")),
    ("org/m12", "M12", Some("m12")),
    ("org/m13", "M13", Some("m13")),
    ("org/m14", "M14", Some("m14")),
    ("org/m15", "M15", Some("m15")),
    ("org/m16", "M16", Some("m16")),
    ("org/m17", "M17", Some("m17")),
    ("org/m18", "M18", Some("m18")),
    ("org/m19", "M19", Some("m19")),
    ("org/m20", "M20", Some("m20")),
    ("org/m21", "M21", Some("m21")),
    ("org/m22", "M22", Some("m22")),
    ("org/m23", "M23", Some("m23")),
    ("org/m24", "M24", Some("m24")),
    ("org/m25", "M25", Some("m25")),
    ("org/m26", "M26", Some("m26")),
    ("org/m27", "M27", Some("m27")),
    ("org/m28", "M28", Some("m28")),
    ("org/m29", "M29", Some("m29")),
];

fn bits(lo: f64, hi: f64) -> (u64, u64) {
    (lo.to_bits(), hi.to_bits())
}

fn simulation_form() -> Form {
    Form::new(vec![
        Field::new("VRAM (GB)", "accelerator memory available to the model", "12.0".to_string(), bits(0.0, 2048.0)),
        Field::new("RAM (GB)", "system memory, the ceiling for CPU and hybrid placement", "32.0".to_string(), bits(0.5, 8192.0)),
        Field::new("CPU cores", "physical cores; affects CPU-only throughput", "8".to_string(), bits(1.0, 512.0)),
    ])
}

fn speed_form() -> Form {
    Form::new(vec![
        Field::new("Efficiency", "share of peak memory bandwidth inference achieves", "0.55".to_string(), bits(0.01, 1.0)),
        Field::new("GPU factor", "multiplier applied to fully-resident placements", "1.00".to_string(), bits(0.1, 2.0)),
        Field::new("CPU offload", "penalty when dense weights spill to system RAM", "0.50".to_string(), bits(0.1, 1.0)),
        Field::new("MoE offload", "penalty when inactive experts stream from RAM", "0.80".to_string(), bits(0.1, 1.0)),
    ])
}

fn controls() -> Controls {
    let mut c = Controls::new(UseCase::General, Theme::Default, simulation_form(), speed_form());
    c.rows = MODELS.len();
    c
}

/// What the application would report for the current cursor row.
fn context(c: &Controls) -> Context {
    let selected = MODELS.get(c.selected).filter(|_| c.rows > 0).map(|(id, name, tag)| Row {
        id: id.to_string(),
        name: name.to_string(),
        tag: tag.map(|t| t.to_string()),
    });
    let marked_present = c.marked.as_deref().is_some_and(|m| MODELS.iter().any(|(id, _, _)| *id == m));
    Context { selected, marked_present, nothing_installed: true }
}

fn press(c: &mut Controls, key: Key) -> Effect {
    let ctx = context(c);
    c.handle_key(key, false, &ctx)
}

fn press_ctrl(c: &mut Controls, key: Key) -> Effect {
    let ctx = context(c);
    c.handle_key(key, true, &ctx)
}

fn type_text(c: &mut Controls, text: &str) {
    for ch in text.chars() {
        press(c, Key::Char(ch));
    }
}

#[test]
fn quits_on_q_and_on_ctrl_c() {
    let mut c = controls();
    press(&mut c, Key::Char('q'));
    assert!(c.should_quit);

    let mut c = controls();
    press_ctrl(&mut c, Key::Char('c'));
    assert!(c.should_quit);

    let mut c = controls();
    press(&mut c, Key::Esc);
    assert!(c.should_quit);
}

#[test]
fn navigates_with_vim_keys() {
    let mut c = controls();
    press(&mut c, Key::Char('j'));
    assert_eq!(c.selected, 1);
    press(&mut c, Key::Char('k'));
    assert_eq!(c.selected, 0);
    press(&mut c, Key::Char('G'));
    assert_eq!(c.selected, c.rows - 1);
    press(&mut c, Key::Char('g'));
    assert_eq!(c.selected, 0);
}

#[test]
fn ctrl_navigation_pages_rather_than_downloading() {
    let mut c = controls();
    let effect = press_ctrl(&mut c, Key::Char('d'));
    assert_eq!(c.selected, PAGE as usize);
    assert_eq!(effect, Effect::Nothing);
    assert!(c.downloading.is_none(), "Ctrl-D must not start a pull");

    let use_case_before = c.target;
    let effect = press_ctrl(&mut c, Key::Char('u'));
    assert_eq!(c.selected, 0);
    assert_eq!(effect, Effect::Nothing);
    assert_eq!(c.target, use_case_before, "Ctrl-U must not re-rank");
}

#[test]
fn page_keys_stop_at_the_ends_of_the_list() {
    let mut c = controls();
    press(&mut c, Key::PageUp);
    assert_eq!(c.selected, 0);
    for _ in 0..5 {
        press(&mut c, Key::PageDown);
    }
    assert_eq!(c.selected, MODELS.len() - 1);
    press(&mut c, Key::Home);
    assert_eq!(c.selected, 0);
    press(&mut c, Key::End);
    assert_eq!(c.selected, MODELS.len() - 1);
}

#[test]
fn search_mode_types_and_filters() {
    let mut c = controls();
    press(&mut c, Key::Char('/'));
    assert_eq!(c.mode, Mode::Search);
    for ch in "qwen".chars() {
        assert_eq!(press(&mut c, Key::Char(ch)), Effect::Refilter);
    }
    assert_eq!(c.search, "qwen");

    assert_eq!(press(&mut c, Key::Backspace), Effect::Refilter);
    assert_eq!(c.search, "qwe");

    assert_eq!(press_ctrl(&mut c, Key::Char('u')), Effect::Refilter);
    assert!(c.search.is_empty());

    press(&mut c, Key::Enter);
    assert_eq!(c.mode, Mode::Normal);
}

#[test]
fn every_normal_key_is_typed_text_inside_search() {
    let mut c = controls();
    press(&mut c, Key::Char('/'));
    for ch in "qfsu".chars() {
        press(&mut c, Key::Char(ch));
    }
    assert!(!c.should_quit);
    assert_eq!(c.search, "qfsu");
    assert_eq!(c.fit_filter, FitFilter::All);
    assert_eq!(c.sort, SortColumn::Score);
}

#[test]
fn arrow_keys_move_the_cursor_during_search() {
    let mut c = controls();
    press(&mut c, Key::Char('/'));
    press(&mut c, Key::Down);
    assert_eq!(c.selected, 1);
    assert!(c.search.is_empty(), "arrows are not typed into the query");
}

#[test]
fn filters_and_sorting_cycle() {
    let mut c = controls();
    assert_eq!(press(&mut c, Key::Char('f')), Effect::Refilter);
    assert_eq!(c.fit_filter, FitFilter::Runnable);
    assert_eq!(c.status, "fit filter: Runnable");

    assert_eq!(press(&mut c, Key::Char('a')), Effect::Refilter);
    assert_eq!(c.availability, Availability::Gguf);

    let sort_before = c.sort;
    assert_eq!(press(&mut c, Key::Char('s')), Effect::Refilter);
    assert_ne!(c.sort, sort_before);
    assert!(c.status.starts_with("sorted by "), "{}", c.status);
}

#[test]
fn an_empty_installed_filter_explains_itself() {
    let mut c = controls();
    press(&mut c, Key::Char('a'));
    assert_eq!(c.status, format!("showing: {}", c.availability.label()));
    press(&mut c, Key::Char('a'));
    assert_eq!(c.availability, Availability::Installed);
    assert_eq!(c.status, "showing installed only — nothing detected yet, press r to re-probe");
}

#[test]
fn the_use_case_key_reranks() {
    let mut c = controls();
    assert_eq!(press(&mut c, Key::Char('u')), Effect::Recompute);
    assert_eq!(c.target, UseCase::Coding);
    assert_eq!(c.status, "use case: coding");
    for _ in 0..5 {
        press(&mut c, Key::Char('u'));
    }
    assert_eq!(c.target, UseCase::General, "six presses come back round");
}

#[test]
fn detail_and_help_toggle() {
    let mut c = controls();
    press(&mut c, Key::Enter);
    assert_eq!(c.mode, Mode::Detail);
    press(&mut c, Key::Enter);
    assert_eq!(c.mode, Mode::Normal);

    press(&mut c, Key::Char('h'));
    assert_eq!(c.mode, Mode::Help);
    press(&mut c, Key::Char('x'));
    assert_eq!(c.mode, Mode::Normal);

    press(&mut c, Key::Char('?'));
    assert_eq!(c.mode, Mode::Help);
}

#[test]
fn navigation_works_while_the_detail_panel_is_open() {
    let mut c = controls();
    press(&mut c, Key::Enter);
    press(&mut c, Key::Char('j'));
    assert_eq!(c.mode, Mode::Detail);
    assert_eq!(c.selected, 1);
}

#[test]
fn theme_cycles_and_is_remembered_in_state() {
    let mut c = controls();
    let before = c.theme;
    press(&mut c, Key::Char('t'));
    assert_ne!(c.theme, before);
    assert!(c.status.contains("theme"));
    assert_eq!(c.status, format!("theme: {}", c.theme.name()));
}

#[test]
fn comparison_needs_a_mark_and_two_distinct_models() {
    let mut c = controls();
    press(&mut c, Key::Char('c'));
    assert_eq!(c.mode, Mode::Normal);
    assert!(c.status.contains("mark a model"));

    press(&mut c, Key::Char('m'));
    press(&mut c, Key::Char('c'));
    assert_eq!(c.mode, Mode::Normal, "a model cannot compare with itself");
    assert!(c.status.contains("different model"));

    press(&mut c, Key::Char('j'));
    press(&mut c, Key::Char('c'));
    assert_eq!(c.mode, Mode::Comparison);
    press(&mut c, Key::Char('x'));
    assert_eq!(c.mode, Mode::Normal, "any key closes the comparison");
}

#[test]
fn marking_the_same_model_twice_clears_it() {
    let mut c = controls();
    press(&mut c, Key::Char('m'));
    assert_eq!(c.marked.as_deref(), Some(MODELS[0].0));
    assert_eq!(c.status, "marked Qwen2.5 7B — press c to compare");
    press(&mut c, Key::Char('m'));
    assert!(c.marked.is_none());
    assert_eq!(c.status, "comparison mark cleared");
}

#[test]
fn comparison_mark_follows_the_model_not_the_row() {
    let mut c = controls();
    press(&mut c, Key::Char('j'));
    press(&mut c, Key::Char('j'));
    press(&mut c, Key::Char('m'));
    assert_eq!(c.marked.as_deref(), Some(MODELS[2].0));
    // The rows are re-sorted by the application; the mark is an id, so it
    // stays on the model whatever row it lands on.
    press(&mut c, Key::Char('s'));
    c.selected = 0;
    assert_eq!(c.marked.as_deref(), Some(MODELS[2].0));
}

#[test]
fn plan_panel_opens_and_closes() {
    let mut c = controls();
    press(&mut c, Key::Char('p'));
    assert_eq!(c.mode, Mode::Plan);
    press(&mut c, Key::Char('x'));
    assert_eq!(c.mode, Mode::Normal);
}

#[test]
fn the_plan_needs_a_selected_model() {
    let mut c = controls();
    c.rows = 0;
    press(&mut c, Key::Char('p'));
    assert_eq!(c.mode, Mode::Normal);
}

#[test]
fn the_simulation_popup_edits_applies_and_cancels() {
    let mut c = controls();
    assert_eq!(press(&mut c, Key::Char('S')), Effect::FillSimulation);
    assert_eq!(c.mode, Mode::SimulateHardware);

    // Esc abandons the edit.
    press(&mut c, Key::Esc);
    assert_eq!(c.mode, Mode::Normal);

    press(&mut c, Key::Char('S'));
    press_ctrl(&mut c, Key::Char('u'));
    type_text(&mut c, "24");
    assert_eq!(c.simulation.fields()[0].value, "24");
    assert_eq!(press(&mut c, Key::Enter), Effect::ApplySimulation);
    assert_eq!(c.mode, Mode::Normal);
    assert_eq!(c.status, "hardware simulation applied");
}

#[test]
fn form_navigation_keys_are_not_typed_into_the_field() {
    let mut c = controls();
    press(&mut c, Key::Char('S'));
    press_ctrl(&mut c, Key::Char('u'));
    // `j` and `k` move between fields; only digits reach the value.
    type_text(&mut c, "1j2k3");
    let typed: String = c.simulation.fields().iter().map(|f| f.value.clone()).collect();
    assert!(!typed.contains('j') && !typed.contains('k'), "{typed}");
    assert_eq!(c.simulation.fields()[0].value, "13");
}

#[test]
fn tab_and_backtab_move_between_form_fields() {
    let mut c = controls();
    press(&mut c, Key::Char('S'));
    assert_eq!(c.simulation.active(), 0);
    press(&mut c, Key::Tab);
    assert_eq!(c.simulation.active(), 1);
    press(&mut c, Key::BackTab);
    assert_eq!(c.simulation.active(), 0);
    press(&mut c, Key::Up);
    assert_eq!(c.simulation.active(), 2, "moving up from the first field wraps");
}

#[test]
fn ctrl_r_restores_the_simulation_fields() {
    let mut c = controls();
    press(&mut c, Key::Char('S'));
    let original = c.simulation.fields()[0].value.clone();
    press_ctrl(&mut c, Key::Char('u'));
    assert!(c.simulation.fields()[0].value.is_empty());
    assert_eq!(press_ctrl(&mut c, Key::Char('r')), Effect::FillSimulation);
    // The application refills the form from the hardware it detected.
    c.simulation.reset(&["12.0".to_string(), "32.0".to_string(), "8".to_string()]);
    assert_eq!(c.simulation.fields()[0].value, original);
}

#[test]
fn ctrl_r_does_nothing_in_the_speed_form() {
    let mut c = controls();
    press(&mut c, Key::Char('A'));
    assert_eq!(press_ctrl(&mut c, Key::Char('r')), Effect::Nothing);
    assert_eq!(c.mode, Mode::AdvancedConfig);
}

#[test]
fn the_advanced_config_popup_shares_the_same_handler() {
    let mut c = controls();
    assert_eq!(press(&mut c, Key::Char('A')), Effect::FillSpeed);
    assert_eq!(c.mode, Mode::AdvancedConfig);
    press_ctrl(&mut c, Key::Char('u'));
    type_text(&mut c, "0.8");
    assert_eq!(c.speed.fields()[0].value, "0.8");
    assert_eq!(c.simulation.fields()[0].value, "12.0", "only the open form is edited");
    assert_eq!(press(&mut c, Key::Enter), Effect::ApplySpeed);
    assert_eq!(c.mode, Mode::Normal);
    assert_eq!(c.status, "speed model updated");
}

#[test]
fn download_without_a_tag_explains_itself() {
    let mut c = controls();
    c.selected = 3;
    assert_eq!(press(&mut c, Key::Char('d')), Effect::Nothing);
    assert!(c.downloading.is_none());
    assert!(c.status.contains("no Ollama tag"));
}

#[test]
fn download_with_a_tag_starts_a_pull() {
    let mut c = controls();
    assert_eq!(press(&mut c, Key::Char('d')), Effect::Pull);
    assert_eq!(c.downloading.as_deref(), Some("qwen2.5:7b"));
    assert_eq!(c.status, "pulling qwen2.5:7b…");
}

#[test]
fn a_second_pull_is_refused_while_one_is_running() {
    let mut c = controls();
    c.downloading = Some("busy:7b".to_string());
    assert_eq!(press(&mut c, Key::Char('d')), Effect::Nothing);
    assert_eq!(c.downloading.as_deref(), Some("busy:7b"));
    assert!(c.status.contains("already downloading"));
    assert_eq!(c.status, "already downloading busy:7b");
}

#[test]
fn a_finished_pull_marks_the_model_installed() {
    let mut c = controls();
    c.downloading = Some("qwen2.5:7b".to_string());
    assert_eq!(c.on_pulled("qwen2.5:7b"), Effect::Installed);
    assert!(c.downloading.is_none());
    assert!(c.status.contains("pulled"));
    assert_eq!(c.status, "pulled qwen2.5:7b");
}

#[test]
fn a_failed_pull_reports_the_error_and_clears_the_slot() {
    let mut c = controls();
    c.downloading = Some("broken:7b".to_string());
    assert_eq!(c.on_pull_failed("broken:7b", "connection refused"), Effect::Nothing);
    assert!(c.downloading.is_none());
    assert!(c.status.contains("connection refused"));
    assert_eq!(c.status, "pull of broken:7b failed: connection refused");
}

#[test]
fn refresh_reports_that_it_started() {
    let mut c = controls();
    assert_eq!(press(&mut c, Key::Char('r')), Effect::Refresh);
    assert!(c.status.contains("refreshing"), "{}", c.status);
    assert!(c.refreshing);
    assert_eq!(press(&mut c, Key::Char('r')), Effect::Nothing, "probes do not stack");
    assert_eq!(c.status, "already refreshing…");
}

#[test]
fn a_discovery_result_updates_the_installed_set() {
    let mut c = controls();
    c.refreshing = true;
    assert_eq!(c.on_discovered(&["Ollama".to_string()], 2), Effect::Adopt);
    assert!(c.status.contains("Ollama"), "{}", c.status);
    assert_eq!(c.status, "Ollama — 2 model(s) installed");
    assert!(!c.refreshing, "the refresh slot is released");

    c.on_discovered(&["Ollama".to_string(), "llama.cpp".to_string()], 0);
    assert_eq!(c.status, "Ollama, llama.cpp running, no models installed");
}

#[test]
fn discovery_with_no_runtime_says_so() {
    let mut c = controls();
    c.refreshing = true;
    c.on_discovered(&[], 0);
    assert!(c.status.contains("no local runtime"), "{}", c.status);
}

#[test]
fn a_failed_discovery_is_reported_without_wiping_what_is_known() {
    let mut c = controls();
    c.refreshing = true;
    assert_eq!(c.on_discovery_failed("no runtime"), Effect::Nothing);
    assert!(c.status.contains("no runtime"));
    assert!(!c.refreshing);
}

#[test]
fn unbound_keys_are_ignored() {
    let mut c = controls();
    let selected = c.selected;
    for key in [Key::Char('z'), Key::Other, Key::Tab] {
        assert_eq!(press(&mut c, key), Effect::Nothing);
    }
    assert_eq!(c.mode, Mode::Normal);
    assert_eq!(c.selected, selected);
    assert!(!c.should_quit);
}
