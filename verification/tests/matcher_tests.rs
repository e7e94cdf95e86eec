use image_converter::matcher::{Matcher, UsageError};
use image_converter::scale::Scale;

#[test]
fn list_flag_short_circuits_everything() {
    let m = Matcher::new(true, None, None, None, None).unwrap();
    assert!(m.show_list());
    assert!(m.get_input_file_path().is_none());
    assert!(m.get_extension().is_none());
    assert!(m.get_quality().is_none());
    assert!(m.get_multiplier().is_none());
}

#[test]
fn missing_input_is_a_usage_error() {
    let r = Matcher::new(false, None, None, None, None);
    assert!(matches!(r, Err(UsageError::MissingInput)));
}

#[test]
fn defaults_apply_when_nothing_is_given() {
    let m = Matcher::new(false, Some("a.png".to_string()), None, None, None).unwrap();
    assert!(!m.show_list());
    assert_eq!(m.get_input_file_path().as_deref(), Some("a.png"));
    assert_eq!(m.get_extension().as_deref(), Some("webp"));
    assert_eq!(m.get_quality(), Some(100));
    assert_eq!(*m.get_multiplier(), Some(Scale { num: 1, den: 1 }));
}

#[test]
fn explicit_values_are_kept() {
    let m = Matcher::new(
        false,
        Some("a.png".to_string()),
        Some("jpg".to_string()),
        Some("80".to_string()),
        Some("0.5".to_string()),
    )
    .unwrap();
    assert_eq!(m.get_extension().as_deref(), Some("jpg"));
    assert_eq!(m.get_quality(), Some(80));
    assert_eq!(*m.get_multiplier(), Some(Scale { num: 5, den: 10 }));
}

#[test]
fn bad_quality_is_a_usage_error() {
    let r = Matcher::new(
        false,
        Some("a.png".to_string()),
        None,
        Some("256".to_string()),
        None,
    );
    assert!(matches!(r, Err(UsageError::InvalidQuality)));
    let r = Matcher::new(
        false,
        Some("a.png".to_string()),
        None,
        Some("soft".to_string()),
        None,
    );
    assert!(matches!(r, Err(UsageError::InvalidQuality)));
}

#[test]
fn bad_multiplier_is_a_usage_error() {
    let r = Matcher::new(
        false,
        Some("a.png".to_string()),
        None,
        None,
        Some("0".to_string()),
    );
    assert!(matches!(r, Err(UsageError::InvalidMultiplier)));
    let r = Matcher::new(
        false,
        Some("a.png".to_string()),
        None,
        None,
        Some("1.2.3".to_string()),
    );
    assert!(matches!(r, Err(UsageError::InvalidMultiplier)));
}

#[test]
fn quality_is_checked_before_multiplier() {
    let r = Matcher::new(
        false,
        Some("a.png".to_string()),
        None,
        Some("bad".to_string()),
        Some("bad".to_string()),
    );
    assert!(matches!(r, Err(UsageError::InvalidQuality)));
}
