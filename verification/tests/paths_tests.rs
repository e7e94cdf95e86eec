use image_converter::paths::{format_file_name, new_file_name, strip_extension};

#[test]
fn plain_resolution_keeps_base_and_swaps_extension() {
    let existing: Vec<String> = Vec::new();
    let r = format_file_name(&"photo.png".to_string(), "webp", &existing);
    assert_eq!(r, "photo.webp");
}

#[test]
fn resolution_result_ends_with_target_extension() {
    let existing: Vec<String> = vec!["a.webp".to_string(), "b.webp".to_string()];
    let r = format_file_name(&"a.png".to_string(), "webp", &existing);
    assert!(r.ends_with(".webp"));
    assert!(!existing.contains(&r));
}

#[test]
fn collision_produces_a_distinct_fresh_name() {
    let existing: Vec<String> = vec!["photo.webp".to_string()];
    let r = format_file_name(&"photo.png".to_string(), "webp", &existing);
    assert_eq!(r, "photo_new.webp");
    assert!(!existing.contains(&r));
}

#[test]
fn second_collision_lengthens_again() {
    let existing: Vec<String> = vec!["photo.webp".to_string(), "photo_new.webp".to_string()];
    let r = format_file_name(&"photo.png".to_string(), "webp", &existing);
    assert_eq!(r, "photo_new_new.webp");
}

#[test]
fn resolution_is_idempotent_while_nothing_is_created() {
    let existing: Vec<String> = vec!["photo.webp".to_string()];
    let r1 = format_file_name(&"photo.png".to_string(), "webp", &existing);
    let r2 = format_file_name(&"photo.png".to_string(), "webp", &existing);
    assert_eq!(r1, r2);
}

#[test]
fn converting_twice_names_the_second_file_differently() {
    // The collision scenario: photo.png -> photo.webp, then a second run
    // with the first output still present.
    let mut existing: Vec<String> = Vec::new();
    let first = format_file_name(&"photo.png".to_string(), "webp", &existing);
    assert_eq!(first, "photo.webp");
    existing.push(first.clone());
    let second = format_file_name(&"photo.png".to_string(), "webp", &existing);
    assert_ne!(first, second);
    assert_eq!(second, "photo_new.webp");
}

#[test]
fn only_the_final_extension_is_stripped() {
    let existing: Vec<String> = Vec::new();
    let r = format_file_name(&"archive.tar.gz".to_string(), "png", &existing);
    assert_eq!(r, "archive.tar.png");
}

#[test]
fn path_without_extension_keeps_its_whole_base() {
    let existing: Vec<String> = Vec::new();
    let r = format_file_name(&"photo".to_string(), "webp", &existing);
    assert_eq!(r, "photo.webp");
}

#[test]
fn strip_extension_cases() {
    assert_eq!(strip_extension(&"photo.png".to_string()), "photo");
    assert_eq!(strip_extension(&"archive.tar.gz".to_string()), "archive.tar");
    assert_eq!(strip_extension(&"photo".to_string()), "photo");
    assert_eq!(strip_extension(&".bashrc".to_string()), ".bashrc");
    assert_eq!(strip_extension(&"dir/.bashrc".to_string()), "dir/.bashrc");
    assert_eq!(strip_extension(&"dir.v2/photo".to_string()), "dir.v2/photo");
    assert_eq!(strip_extension(&"dir.v2/photo.png".to_string()), "dir.v2/photo");
    assert_eq!(strip_extension(&"photo.".to_string()), "photo");
}

#[test]
fn new_file_name_probes_in_order() {
    let existing: Vec<String> = vec![
        "out.webp".to_string(),
        "out_new.webp".to_string(),
        "out_new_new.webp".to_string(),
    ];
    let r = new_file_name(&"out".to_string(), "webp", &existing);
    assert_eq!(r, "out_new_new_new.webp");
}
