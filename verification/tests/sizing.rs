use solver_pipeline::decimal::Decimal;
use solver_pipeline::sizing::{parse_sizes, SizingToken};

fn dec(mantissa: u64, scale: u32) -> Decimal {
    Decimal { negative: false, mantissa, scale }
}

#[test]
fn empty_string_yields_empty_sequence() {
    assert_eq!(parse_sizes("").unwrap(), vec![]);
}

#[test]
fn token_count_matches_nonempty_parts() {
    assert_eq!(parse_sizes("60%, e, 2.5x").unwrap().len(), 3);
    assert_eq!(parse_sizes("60%,,e").unwrap().len(), 2);
    assert_eq!(parse_sizes(" , ,").unwrap().len(), 0);
    assert_eq!(parse_sizes("a").unwrap().len(), 1);
}

#[test]
fn percentage_and_effective_stack() {
    let toks = parse_sizes("60%,e").unwrap();
    assert_eq!(
        toks,
        vec![SizingToken::PotPercent(dec(60, 0)), SizingToken::EffectiveStack]
    );
}

#[test]
fn multiplier_with_fraction() {
    let toks = parse_sizes("2.5x").unwrap();
    assert_eq!(toks, vec![SizingToken::Multiplier(dec(25, 1))]);
}

#[test]
fn all_in_shorthand() {
    assert_eq!(parse_sizes("a").unwrap(), vec![SizingToken::AllIn]);
}

#[test]
fn unrecognized_token_is_grammar_error() {
    let e = parse_sizes("foo").unwrap_err();
    assert_eq!(e.token, "foo");
    assert_eq!(e.position, 0);
}

#[test]
fn error_position_counts_comma_parts() {
    let e = parse_sizes("a, b, e").unwrap_err();
    assert_eq!(e.token, "b");
    assert_eq!(e.position, 1);
}

#[test]
fn whitespace_is_trimmed() {
    let toks = parse_sizes("  75% ,\te ").unwrap();
    assert_eq!(
        toks,
        vec![SizingToken::PotPercent(dec(75, 0)), SizingToken::EffectiveStack]
    );
}

#[test]
fn bare_percent_sign_is_rejected() {
    let e = parse_sizes("%").unwrap_err();
    assert_eq!(e.token, "%");
    assert_eq!(e.position, 0);
}

#[test]
fn bare_multiplier_sign_is_rejected() {
    assert!(parse_sizes("x").is_err());
}

#[test]
fn two_decimal_points_are_rejected() {
    assert!(parse_sizes("1.2.3x").is_err());
}

#[test]
fn lone_decimal_point_is_rejected() {
    assert!(parse_sizes(".%").is_err());
}

#[test]
fn leading_and_trailing_point_numerals() {
    assert_eq!(parse_sizes(".5x").unwrap(), vec![SizingToken::Multiplier(dec(5, 1))]);
    assert_eq!(parse_sizes("5.x").unwrap(), vec![SizingToken::Multiplier(dec(5, 0))]);
}

#[test]
fn interior_whitespace_is_rejected() {
    assert!(parse_sizes("60 %").is_err());
}

#[test]
fn nineteen_digits_fit() {
    let toks = parse_sizes("9999999999999999999%").unwrap();
    assert_eq!(toks, vec![SizingToken::PotPercent(dec(9999999999999999999, 0))]);
}

#[test]
fn twenty_digits_are_rejected() {
    assert!(parse_sizes("99999999999999999999%").is_err());
    assert!(parse_sizes("00000000000000000000x").is_err());
}

#[test]
fn zero_percent_parses() {
    assert_eq!(parse_sizes("0%").unwrap(), vec![SizingToken::PotPercent(dec(0, 0))]);
}

#[test]
fn mixed_specification() {
    let toks = parse_sizes("33.33%,a,e,1x").unwrap();
    assert_eq!(
        toks,
        vec![
            SizingToken::PotPercent(dec(3333, 2)),
            SizingToken::AllIn,
            SizingToken::EffectiveStack,
            SizingToken::Multiplier(dec(1, 0)),
        ]
    );
}

#[test]
fn decimal_scale_by_is_exact() {
    let d = dec(5, 3); // 0.005
    let t = d.scale_by(100).unwrap();
    assert_eq!(t, dec(500, 3));
}

#[test]
fn decimal_scale_by_overflow_is_none() {
    let d = dec(u64::MAX, 0);
    assert!(d.scale_by(2).is_none());
    assert!(d.scale_by(1).is_some());
}

#[test]
fn decimal_from_integer_keeps_sign() {
    let d = Decimal::from_integer(-3);
    assert!(d.negative);
    assert_eq!(d.mantissa, 3);
    assert_eq!(d.scale, 0);
    let p = Decimal::from_integer(7);
    assert!(!p.negative);
    assert_eq!(p.mantissa, 7);
}
