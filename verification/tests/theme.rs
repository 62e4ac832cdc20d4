use llmspec::config::ThemeRef;
use llmspec::theme::{Color, Theme};

#[test]
fn indexes_round_trip() {
    for theme in Theme::ALL {
        assert_eq!(Theme::from_index(theme.index()), theme);
    }
}

#[test]
fn an_out_of_range_stored_index_falls_back_to_default() {
    assert_eq!(Theme::from_index(999), Theme::Default);
    assert_eq!(Theme::from_legacy_index(999), Theme::Default);
}

#[test]
fn slugs_tolerate_the_spellings_a_hand_edited_config_may_use() {
    assert_eq!(Theme::from_slug("  Tokyo_Night "), Some(Theme::TokyoNight));
    assert_eq!(Theme::from_slug("ROSE PINE"), Some(Theme::RosePine));
    assert_eq!(Theme::from_slug("colorblind-safe"), Some(Theme::ColourblindSafe));
    assert_eq!(Theme::from_slug("colourblind-safe"), Some(Theme::ColourblindSafe));
    assert_eq!(Theme::from_slug("no-such-theme"), None);
}

#[test]
fn legacy_indexes_still_resolve_to_the_theme_they_were_written_for() {
    let shipped = [
        (0, Theme::Default),
        (1, Theme::Dracula),
        (2, Theme::Nord),
        (3, Theme::Solarized),
        (4, Theme::Gruvbox),
        (5, Theme::Monokai),
        (6, Theme::TokyoNight),
        (7, Theme::Ocean),
        (8, Theme::Forest),
        (9, Theme::Sunset),
    ];
    for (index, expected) in shipped {
        assert_eq!(Theme::from_legacy_index(index), expected, "legacy index {index} moved");
    }
}

#[test]
fn stored_preferences_resolve_in_both_forms() {
    for theme in Theme::ALL {
        assert_eq!(Theme::from_ref(&theme.to_ref()), theme);
    }
    assert_eq!(Theme::from_ref(&ThemeRef::Index(5)), Theme::Monokai);
    assert_eq!(
        Theme::from_ref(&ThemeRef::Name("retired-theme".into())),
        Theme::Default
    );
}

#[test]
fn cycling_visits_every_theme_and_returns_to_the_start() {
    let mut theme = Theme::Default;
    let mut seen = Vec::new();
    for _ in 0..Theme::ALL.len() {
        seen.push(theme);
        theme = theme.next();
    }
    assert_eq!(theme, Theme::Default, "cycling wraps");
    assert_eq!(seen.len(), Theme::ALL.len());
    for candidate in Theme::ALL {
        assert!(seen.contains(&candidate), "{} was skipped", candidate.name());
    }
}

#[test]
fn slugs_round_trip_and_are_unique() {
    for theme in Theme::ALL {
        assert_eq!(Theme::from_slug(theme.slug()), Some(theme), "{} does not round-trip", theme.name());
    }
    let mut slugs: Vec<_> = Theme::ALL.iter().map(|t| t.slug()).collect();
    let count = slugs.len();
    slugs.sort_unstable();
    slugs.dedup();
    assert_eq!(slugs.len(), count, "two themes share a slug");
}

#[test]
fn every_theme_distinguishes_its_verdict_colours() {
    for theme in Theme::ALL {
        let p = theme.palette();
        let verdicts = [p.good, p.ok, p.warn, p.bad];
        for (i, a) in verdicts.iter().enumerate() {
            for b in &verdicts[i + 1..] {
                assert_ne!(a, b, "{} reuses a verdict colour", theme.name());
            }
        }
        assert_ne!(p.dim, p.text, "{} cannot dim anything", theme.name());
    }
}

#[test]
fn the_default_theme_uses_the_terminals_own_colours() {
    let p = Theme::Default.palette();
    assert_eq!(p.good, Color::Green);
    assert_eq!(p.bad, Color::Red);
    assert_eq!(p.text, Color::Reset);
}

#[test]
fn only_the_default_theme_uses_named_colours() {
    for theme in Theme::ALL {
        if theme == Theme::Default {
            continue;
        }
        let p = theme.palette();
        for (role, colour) in [
            ("accent", p.accent),
            ("text", p.text),
            ("dim", p.dim),
            ("selection", p.selection),
            ("good", p.good),
            ("ok", p.ok),
            ("warn", p.warn),
            ("bad", p.bad),
            ("special", p.special),
        ] {
            assert!(matches!(colour, Color::Rgb(..)), "{}'s {role} is not RGB", theme.name());
        }
    }
}

fn rgb(color: Color) -> (f64, f64, f64) {
    match color {
        Color::Rgb(r, g, b) => (r as f64, g as f64, b as f64),
        _ => panic!("an RGB colour was expected"),
    }
}

fn luminance(color: Color) -> f64 {
    let (r, g, b) = rgb(color);
    let channel = |c: f64| {
        let c = c / 255.0;
        if c <= 0.03928 {
            c / 12.92
        } else {
            ((c + 0.055) / 1.055).powf(2.4)
        }
    };
    0.2126 * channel(r) + 0.7152 * channel(g) + 0.0722 * channel(b)
}

fn deuteranope_coords(color: Color) -> (f64, f64) {
    let (r, g, b) = rgb(color);
    let lightness = 0.2126 * r + 0.7152 * g + 0.0722 * b;
    let blue_yellow = b - (r + g) / 2.0;
    (lightness, blue_yellow)
}

#[test]
fn the_colourblind_theme_keeps_its_verdicts_apart_without_red_and_green() {
    let p = Theme::ColourblindSafe.palette();
    let verdicts = [("good", p.good), ("ok", p.ok), ("warn", p.warn), ("bad", p.bad)];
    for (i, (name_a, a)) in verdicts.iter().enumerate() {
        for (name_b, b) in &verdicts[i + 1..] {
            let (la, ba) = deuteranope_coords(*a);
            let (lb, bb) = deuteranope_coords(*b);
            assert!(
                (la - lb).abs() > 30.0 || (ba - bb).abs() > 30.0,
                "{name_a} and {name_b} collapse together for a deuteranope"
            );
        }
    }
}

#[test]
fn a_red_green_theme_is_what_the_colourblind_theme_exists_to_avoid() {
    let p = Theme::Gruvbox.palette();
    let (good_l, good_by) = deuteranope_coords(p.good);
    let (warn_l, warn_by) = deuteranope_coords(p.warn);
    assert!(
        (good_l - warn_l).abs() <= 30.0 && (good_by - warn_by).abs() <= 30.0,
        "Gruvbox no longer demonstrates the red-green collision"
    );
}

#[test]
fn the_high_contrast_theme_is_legible_on_a_black_terminal() {
    let p = Theme::HighContrast.palette();
    for (role, colour) in [
        ("accent", p.accent),
        ("text", p.text),
        ("dim", p.dim),
        ("good", p.good),
        ("ok", p.ok),
        ("warn", p.warn),
        ("bad", p.bad),
        ("special", p.special),
    ] {
        let ratio = (luminance(colour) + 0.05) / 0.05;
        assert!(ratio >= 4.5, "high contrast {role} is only {ratio:.1}:1 against black");
    }
}

#[test]
fn names_and_slugs_are_the_documented_ones() {
    assert_eq!(Theme::RosePine.name(), "Rosé Pine");
    assert_eq!(Theme::RosePine.slug(), "rose-pine");
    assert_eq!(Theme::HighContrast.index(), 20);
    assert_eq!(Theme::HighContrast.next(), Theme::Default);
    assert_eq!(Theme::Default.palette().selection, Color::Rgb(40, 45, 60));
}

use llmspec::fit::{FitLevel, RunMode};

#[test]
fn verdicts_and_run_modes_take_their_palette_slots() {
    for theme in Theme::ALL {
        let p = theme.palette();
        assert_eq!(p.fit_colour(FitLevel::Perfect), p.good);
        assert_eq!(p.fit_colour(FitLevel::Good), p.ok);
        assert_eq!(p.fit_colour(FitLevel::Marginal), p.warn);
        assert_eq!(p.fit_colour(FitLevel::TooTight), p.bad);
        assert_eq!(p.mode_colour(RunMode::Gpu), p.good);
        assert_eq!(p.mode_colour(RunMode::Moe), p.special);
        assert_eq!(p.mode_colour(RunMode::CpuGpu), p.warn);
        assert_eq!(p.mode_colour(RunMode::Cpu), p.dim);
    }
}
