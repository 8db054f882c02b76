use alcohol_calc::decimal::parse_decimal;
use alcohol_calc::display::to_lp_string;
use alcohol_calc::mixture::{AlcoholCalculator, Message};
use alcohol_calc::ratio::Ratio;

fn value(r: Ratio) -> f64 {
    r.num as f64 / r.den as f64
}

fn edit(c: &mut AlcoholCalculator, m: Message) {
    c.update(m);
}

fn weight(t: &str) -> Message {
    Message::AlcoholPercentageWeightChanged(t.to_string())
}

fn volume(t: &str) -> Message {
    Message::AlcoholPercentageVolumeChanged(t.to_string())
}

fn mass(t: &str) -> Message {
    Message::PureAlcoholAmountChanged(t.to_string())
}

fn total_mass(t: &str) -> Message {
    Message::TotalAmountWeightChanged(t.to_string())
}

fn total_volume(t: &str) -> Message {
    Message::TotalAmountVolumeChanged(t.to_string())
}

#[test]
fn default_state() {
    let c = AlcoholCalculator::new();
    assert_eq!(c.pure_alcohol_in_grams.num, 0);
    assert_eq!(c.alcohol_percentage_weight, Ratio::new(31829, 1000000));
    assert_eq!(c.title(), "Alcohol calculator");
    let t = c.field_texts();
    assert_eq!(t, vec!["0.00", "3.18", "0.00", "4.00", "0.00"]);
}

#[test]
fn mass_then_total_mass_scenario() {
    let mut c = AlcoholCalculator::new();
    edit(&mut c, mass("10"));
    assert_eq!(value(c.pure_alcohol_in_grams), 10.0);
    let total = c.get_total_amount_by_weight().unwrap();
    assert!((value(total) - 10.0 / 0.031829).abs() < 1e-9);
    assert_eq!(c.field_texts()[2], "314.18");
}

#[test]
fn fifty_percent_by_weight_scenario() {
    let mut c = AlcoholCalculator::new();
    edit(&mut c, weight("50"));
    assert_eq!(value(c.alcohol_percentage_weight), 0.5);
    let vf = c.get_alcohol_percentage_by_volume().unwrap();
    let expected = 0.5 / (0.789 * 0.5 + 0.5);
    assert!((value(vf) - expected).abs() < 1e-12);
    assert!((value(vf) * 100.0 - 55.88).abs() < 0.05);
    assert_eq!(c.field_texts()[3], "55.90");
}

#[test]
fn zero_weight_then_total_mass_scenario() {
    let mut c = AlcoholCalculator::new();
    edit(&mut c, weight("0"));
    edit(&mut c, total_mass("100"));
    assert_eq!(c.pure_alcohol_in_grams.num, 0);
    assert_eq!(c.get_total_amount_by_weight(), None);
    assert_eq!(c.get_total_amount_by_volume(), None);
    let t = c.field_texts();
    assert_eq!(t[2], "NaN");
    assert_eq!(t[4], "NaN");
}

#[test]
fn weight_percent_is_clamped() {
    let mut c = AlcoholCalculator::new();
    edit(&mut c, weight("150"));
    let w = c.alcohol_percentage_weight;
    assert_eq!(w.num, w.den);
    edit(&mut c, weight("-10"));
    assert_eq!(c.alcohol_percentage_weight.num, 0);
}

#[test]
fn volume_percent_is_clamped() {
    let mut c = AlcoholCalculator::new();
    edit(&mut c, volume("250"));
    let w = c.alcohol_percentage_weight;
    assert_eq!(w.num, w.den);
    edit(&mut c, volume("-3"));
    assert_eq!(c.alcohol_percentage_weight.num, 0);
}

#[test]
fn unreadable_text_changes_nothing() {
    let mut c = AlcoholCalculator::new();
    edit(&mut c, mass("10"));
    let before = c;
    for m in [mass("abc"), weight("abc"), volume("1.2.3"), total_mass(""), total_volume("-")] {
        edit(&mut c, m);
        assert_eq!(c, before);
    }
    assert_eq!(value(c.pure_alcohol_in_grams), 10.0);
}

#[test]
fn negative_mass_is_refused() {
    let mut c = AlcoholCalculator::new();
    edit(&mut c, mass("4"));
    edit(&mut c, mass("-2"));
    assert_eq!(value(c.pure_alcohol_in_grams), 4.0);
}

#[test]
fn mass_edit_keeps_weight_fraction() {
    let mut c = AlcoholCalculator::new();
    edit(&mut c, weight("12.5"));
    let w = c.alcohol_percentage_weight;
    edit(&mut c, mass("33.3"));
    assert_eq!(c.alcohol_percentage_weight, w);
}

#[test]
fn same_edit_twice_is_same_as_once() {
    let edits = [mass("7"), weight("40"), volume("12"), total_mass("250"), total_volume("330")];
    for m in edits {
        let mut once = AlcoholCalculator::new();
        edit(&mut once, weight("20"));
        edit(&mut once, mass("5"));
        let mut twice = once;
        edit(&mut once, m.clone());
        edit(&mut twice, m.clone());
        edit(&mut twice, m);
        assert_eq!(once, twice);
    }
}

#[test]
fn weight_volume_round_trip() {
    for w in ["0.5", "3.1829", "25", "50", "99.9"] {
        let mut c = AlcoholCalculator::new();
        edit(&mut c, weight(w));
        let wf = value(c.alcohol_percentage_weight);
        let vf = value(c.get_alcohol_percentage_by_volume().unwrap());
        let back = vf * 0.789 / (1.0 - vf + vf * 0.789);
        assert!((back - wf).abs() < 1e-9);
        let text = format!("{}", vf * 100.0);
        edit(&mut c, volume(&text));
        assert!((value(c.alcohol_percentage_weight) - wf).abs() < 1e-9);
    }
}

#[test]
fn total_mass_sets_pure_alcohol() {
    let mut c = AlcoholCalculator::new();
    edit(&mut c, weight("40"));
    edit(&mut c, total_mass("250"));
    assert_eq!(value(c.pure_alcohol_in_grams), 100.0);
    assert_eq!(c.field_texts()[0], "100.00");
    assert_eq!(c.field_texts()[2], "250.00");
}

#[test]
fn total_volume_of_half_and_half() {
    let mut c = AlcoholCalculator::new();
    edit(&mut c, weight("50"));
    edit(&mut c, mass("10"));
    let v = value(c.get_total_amount_by_volume().unwrap());
    assert!((v - (10.0 + 10.0 / 0.789)).abs() < 1e-9);
    assert_eq!(c.field_texts()[4], "22.67");
}

#[test]
fn total_volume_sets_pure_alcohol() {
    let mut c = AlcoholCalculator::new();
    edit(&mut c, weight("50"));
    edit(&mut c, total_volume("100"));
    let expected = 100.0 * (0.5 / (0.789 * 0.5 + 0.5)) * 0.789;
    assert!((value(c.pure_alcohol_in_grams) - expected).abs() < 1e-9);
    assert_eq!(c.field_texts()[0], "44.10");
}

#[test]
fn full_strength_by_volume() {
    let mut c = AlcoholCalculator::new();
    edit(&mut c, volume("100"));
    let w = c.alcohol_percentage_weight;
    assert_eq!(w.num, w.den);
    edit(&mut c, mass("8"));
    assert_eq!(c.field_texts()[2], "8.00");
}

#[test]
fn too_large_result_is_refused() {
    let mut c = AlcoholCalculator::new();
    edit(&mut c, volume("33.333333333333333"));
    let before = c;
    edit(&mut c, total_volume("999999999999999999"));
    assert_eq!(c, before);
}

#[test]
fn parses_decimals() {
    assert_eq!(parse_decimal("12.5"), Some(Ratio::new(125, 10)));
    assert_eq!(parse_decimal("-3"), Some(Ratio::new(-3, 1)));
    assert_eq!(parse_decimal("+.5"), Some(Ratio::new(5, 10)));
    assert_eq!(parse_decimal("5."), Some(Ratio::new(5, 1)));
    assert_eq!(parse_decimal("007"), Some(Ratio::new(7, 1)));
    assert_eq!(parse_decimal("123456789012345678"), Some(Ratio::new(123456789012345678, 1)));
}

#[test]
fn refuses_non_decimals() {
    for t in ["", ".", "-", "+", "abc", "1.2.3", "1e5", " 1", "1 ", "--1", "1234567890123456789", "inf", "NaN"] {
        assert_eq!(parse_decimal(t), None, "{}", t);
    }
}

#[test]
fn writes_two_decimals() {
    assert_eq!(to_lp_string(Some(Ratio::new(1, 3))), "0.33");
    assert_eq!(to_lp_string(Some(Ratio::new(2, 3))), "0.67");
    assert_eq!(to_lp_string(Some(Ratio::new(-1, 8))), "-0.13");
    assert_eq!(to_lp_string(Some(Ratio::new(5, 1000))), "0.01");
    assert_eq!(to_lp_string(Some(Ratio::new(123456, 10))), "12345.60");
    assert_eq!(to_lp_string(Some(Ratio::new(0, 7))), "0.00");
    assert_eq!(to_lp_string(Some(Ratio::new(-1, 1000))), "-0.00");
    assert_eq!(to_lp_string(Some(Ratio::new(1, 1000))), "0.00");
    assert_eq!(to_lp_string(Some(Ratio::new(-5, 1000))), "-0.01");
    assert_eq!(to_lp_string(Some(Ratio::new(-250, 1))), "-250.00");
    assert_eq!(to_lp_string(None), "NaN");
    assert_eq!(to_lp_string(Some(Ratio::new(i128::MAX, 1))), "NaN");
}

#[test]
fn small_negative_mass_keeps_its_sign() {
    let mut c = AlcoholCalculator::new();
    edit(&mut c, weight("50"));
    edit(&mut c, total_mass("-0.001"));
    assert_eq!(value(c.pure_alcohol_in_grams), -0.0005);
    assert_eq!(c.field_texts()[0], "-0.00");
    assert_eq!(c.field_texts()[2], "-0.00");
}

#[test]
fn fifty_percent_field_texts() {
    let mut c = AlcoholCalculator::new();
    edit(&mut c, weight("50"));
    assert_eq!(c.field_texts(), vec!["0.00", "50.00", "0.00", "55.90", "0.00"]);
}
