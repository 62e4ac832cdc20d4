use llmspec::form::{Field, Form};

fn form() -> Form {
    Form::new(vec![
        Field::new("Alpha", "first", "1.0".into(), (0.0f64.to_bits(), 2.0f64.to_bits())),
        Field::new("Beta", "second", "0.5".into(), (0.1f64.to_bits(), 1.0f64.to_bits())),
        Field::new("Gamma", "third", "8".into(), (1.0f64.to_bits(), 64.0f64.to_bits())),
    ])
}

#[test]
fn focus_wraps_in_both_directions() {
    let mut f = form();
    assert_eq!(f.active(), 0);
    f.focus_prev();
    assert_eq!(f.active(), 2, "moving up from the first field wraps to last");
    f.focus_next();
    assert_eq!(f.active(), 0);
    f.focus_next();
    f.focus_next();
    f.focus_next();
    assert_eq!(f.active(), 0, "moving down past the last field wraps");
}

#[test]
fn editing_only_touches_the_active_field() {
    let mut f = form();
    f.focus_next();
    f.push('7');
    assert_eq!(f.fields()[0].value, "1.0");
    assert_eq!(f.fields()[1].value, "0.57");
    f.backspace();
    assert_eq!(f.fields()[1].value, "0.5");
    f.clear_active();
    assert_eq!(f.fields()[1].value, "");
    assert_eq!(f.fields()[0].value, "1.0", "other fields are untouched");
}

#[test]
fn only_number_characters_are_accepted() {
    let mut f = form();
    f.clear_active();
    for c in "1a2.b3".chars() {
        f.push(c);
    }
    assert_eq!(f.fields()[0].value, "12.3");
}

/// The number a field reads as, clamped to its range, as the application
/// reads it when a form is applied.
fn parse(f: &Form, index: usize) -> Option<f64> {
    let field = f.fields().get(index)?;
    let value: f64 = field.value.trim().parse().ok()?;
    let (lo, hi) = (f64::from_bits(field.range_bits.0), f64::from_bits(field.range_bits.1));
    Some(value.clamp(lo, hi))
}

#[test]
fn a_second_decimal_point_is_refused() {
    let mut f = form();
    f.clear_active();
    for c in "1.2.3".chars() {
        f.push(c);
    }
    assert_eq!(f.fields()[0].value, "1.23");
    assert_eq!(parse(&f, 0), Some(1.23));
}

#[test]
fn reset_restores_values_and_the_cursor() {
    let mut f = form();
    f.focus_next();
    f.clear_active();
    f.reset(&["2.0".into(), "0.9".into(), "16".into()]);
    assert_eq!(f.active(), 0);
    assert_eq!(f.fields()[1].value, "0.9");
    assert_eq!(f.fields()[2].value, "16");
    assert!(f.is_active(0));
    assert_eq!(parse(&f, 2), Some(16.0));
}

#[test]
fn an_empty_form_does_not_panic() {
    let mut f = Form::new(Vec::new());
    f.focus_next();
    f.focus_prev();
    f.push('1');
    f.backspace();
    f.clear_active();
    assert_eq!(f.active(), 0);
}
