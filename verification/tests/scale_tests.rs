use image_converter::matcher::parse_quality;
use image_converter::scale::{parse_scale, Scale};

#[test]
fn parse_whole_and_fractional_multipliers() {
    let s = parse_scale("1.0").unwrap();
    assert_eq!(s, Scale { num: 10, den: 10 });
    let s = parse_scale("0.5").unwrap();
    assert_eq!(s, Scale { num: 5, den: 10 });
    let s = parse_scale("2").unwrap();
    assert_eq!(s, Scale { num: 2, den: 1 });
    let s = parse_scale(".5").unwrap();
    assert_eq!(s, Scale { num: 5, den: 10 });
    let s = parse_scale("1.25").unwrap();
    assert_eq!(s, Scale { num: 125, den: 100 });
}

#[test]
fn reject_malformed_multipliers() {
    assert!(parse_scale("").is_none());
    assert!(parse_scale("abc").is_none());
    assert!(parse_scale("1.2.3").is_none());
    assert!(parse_scale("0").is_none());
    assert!(parse_scale("0.0").is_none());
    assert!(parse_scale(".").is_none());
    assert!(parse_scale("1234567890").is_none());
    assert!(parse_scale("-1").is_none());
}

#[test]
fn unit_multiplier_keeps_dimensions() {
    let s = parse_scale("1.0").unwrap();
    assert_eq!(s.apply(100), 100);
    assert_eq!(s.apply(1), 1);
    assert_eq!(s.apply(0), 0);
    assert_eq!(s.apply(u32::MAX), u32::MAX);
    let s = parse_scale("1").unwrap();
    assert_eq!(s.apply(12345), 12345);
}

#[test]
fn scaling_rounds_to_nearest() {
    let half = parse_scale("0.5").unwrap();
    assert_eq!(half.apply(100), 50);
    // 101 * 0.5 = 50.5 rounds up
    assert_eq!(half.apply(101), 51);
    let double = parse_scale("2").unwrap();
    assert_eq!(double.apply(100), 200);
    let tenth = parse_scale("0.1").unwrap();
    // 25 * 0.1 = 2.5 rounds up
    assert_eq!(tenth.apply(25), 3);
    assert_eq!(tenth.apply(24), 2);
}

#[test]
fn scaling_saturates_at_the_largest_dimension() {
    let double = parse_scale("2").unwrap();
    assert_eq!(double.apply(u32::MAX), u32::MAX);
}

#[test]
fn parse_quality_bounds() {
    assert_eq!(parse_quality("100"), Some(100));
    assert_eq!(parse_quality("0"), Some(0));
    assert_eq!(parse_quality("80"), Some(80));
    assert_eq!(parse_quality("007"), Some(7));
    assert_eq!(parse_quality("101"), None);
    assert_eq!(parse_quality("255"), None);
    assert_eq!(parse_quality("abc"), None);
    assert_eq!(parse_quality(""), None);
    assert_eq!(parse_quality("-1"), None);
}
