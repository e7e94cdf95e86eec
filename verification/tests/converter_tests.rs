use image::GenericImageView;
use image_converter::converter::{
    target_format_of, ConversionOutput, ConvertError, ImageConverter, TargetFormat,
};
use image_converter::extensions::{FormatKind, ImageExtension};
use image_converter::matcher::Matcher;

fn conversion_matcher(input: &str, ext: &str, quality: &str, multiplier: &str) -> Matcher {
    Matcher::new(
        false,
        Some(input.to_string()),
        Some(ext.to_string()),
        Some(quality.to_string()),
        Some(multiplier.to_string()),
    )
    .unwrap()
}

#[test]
fn unsupported_extension_fails_and_produces_no_output() {
    let img = image::DynamicImage::new_rgb8(10, 10);
    let matcher = conversion_matcher("photo.png", "xyz", "100", "1.0");
    let existing: Vec<String> = Vec::new();
    let converter = ImageConverter::new(img, &matcher, &existing);
    let r = converter.convert();
    assert!(matches!(r, Err(ConvertError::UnsupportedFormat)));
}

#[test]
fn dispatch_table_matches_the_supported_set() {
    assert_eq!(target_format_of("webp"), Some(TargetFormat::Webp));
    assert_eq!(target_format_of("png"), Some(TargetFormat::Png));
    assert_eq!(target_format_of("jpg"), Some(TargetFormat::Jpeg));
    assert_eq!(target_format_of("jpeg"), Some(TargetFormat::Jpeg));
    assert_eq!(target_format_of("gif"), Some(TargetFormat::Gif));
    assert_eq!(target_format_of("bmp"), Some(TargetFormat::Bmp));
    assert_eq!(target_format_of("ico"), Some(TargetFormat::Ico));
    assert_eq!(target_format_of("tiff"), Some(TargetFormat::Tiff));
    assert_eq!(target_format_of("tga"), Some(TargetFormat::Tga));
    assert_eq!(target_format_of("xyz"), None);
    assert_eq!(target_format_of(""), None);
    assert_eq!(target_format_of("WEBP"), None);
}

#[test]
fn webp_round_trip_halves_a_hundred_pixel_png() {
    // A 100 by 100 PNG, converted to WebP at multiplier 0.5 and quality
    // 80: the output is valid WebP with dimensions 50 by 50.
    let source = image::DynamicImage::new_rgb8(100, 100);
    let mut png_bytes = std::io::Cursor::new(Vec::new());
    source
        .write_to(&mut png_bytes, image::ImageOutputFormat::Png)
        .unwrap();
    let decoded = image::load_from_memory(&png_bytes.into_inner()).unwrap();
    assert_eq!(decoded.dimensions(), (100, 100));

    let matcher = conversion_matcher("sample.png", "webp", "80", "0.5");
    let existing: Vec<String> = Vec::new();
    let converter = ImageConverter::new(decoded, &matcher, &existing);
    match converter.convert().unwrap() {
        ConversionOutput::WebpPlan { path, image, quality } => {
            assert_eq!(path, "sample.webp");
            assert_eq!(quality, 80);
            assert_eq!(image.dimensions(), (50, 50));
            let encoder = webp::Encoder::from_image(&image).unwrap();
            let data = encoder.encode(quality as f32);
            let webp_img = webp::Decoder::new(&data).decode().unwrap();
            assert_eq!(webp_img.width(), 50);
            assert_eq!(webp_img.height(), 50);
        },
        ConversionOutput::Encoded { .. } => panic!("webp must be returned as a plan"),
    }
}

#[test]
fn png_target_yields_png_bytes_at_the_resolved_path() {
    let img = image::DynamicImage::new_rgb8(8, 8);
    let matcher = conversion_matcher("shot.bmp", "png", "100", "1.0");
    let existing: Vec<String> = Vec::new();
    let converter = ImageConverter::new(img, &matcher, &existing);
    match converter.convert().unwrap() {
        ConversionOutput::Encoded { path, bytes } => {
            assert_eq!(path, "shot.png");
            assert!(bytes.len() > 8);
            assert_eq!(&bytes[1..4], b"PNG");
        },
        ConversionOutput::WebpPlan { .. } => panic!("png must be encoded directly"),
    }
}

#[test]
fn jpeg_target_honors_quality_and_resizes() {
    let img = image::DynamicImage::new_rgb8(64, 64);
    let matcher = conversion_matcher("pic.png", "jpg", "10", "0.5");
    let existing: Vec<String> = Vec::new();
    let converter = ImageConverter::new(img, &matcher, &existing);
    match converter.convert().unwrap() {
        ConversionOutput::Encoded { path, bytes } => {
            assert_eq!(path, "pic.jpg");
            let back = image::load_from_memory(&bytes).unwrap();
            assert_eq!(back.dimensions(), (32, 32));
        },
        ConversionOutput::WebpPlan { .. } => panic!("jpeg must be encoded directly"),
    }
}

#[test]
fn resolved_path_avoids_existing_outputs() {
    let img = image::DynamicImage::new_rgb8(4, 4);
    let matcher = conversion_matcher("photo.png", "webp", "100", "1.0");
    let existing: Vec<String> = vec!["photo.webp".to_string()];
    let converter = ImageConverter::new(img, &matcher, &existing);
    match converter.convert().unwrap() {
        ConversionOutput::WebpPlan { path, .. } => assert_eq!(path, "photo_new.webp"),
        ConversionOutput::Encoded { .. } => panic!("webp must be returned as a plan"),
    }
}

#[test]
fn directory_prefix_is_kept_in_the_resolved_path() {
    let img = image::DynamicImage::new_rgb8(4, 4);
    let matcher = conversion_matcher("shots/day.one/photo.png", "webp", "100", "1.0");
    let existing: Vec<String> = vec!["shots/day.one/photo.webp".to_string()];
    let converter = ImageConverter::new(img, &matcher, &existing);
    match converter.convert().unwrap() {
        ConversionOutput::WebpPlan { path, .. } => {
            assert_eq!(path, "shots/day.one/photo_new.webp")
        }
        ConversionOutput::Encoded { .. } => panic!("webp must be returned as a plan"),
    }
}

#[test]
fn encoder_failure_is_reported_not_swallowed() {
    // The ICO encoder refuses dimensions above 256.
    let img = image::DynamicImage::new_rgb8(512, 512);
    let matcher = conversion_matcher("big.png", "ico", "100", "1.0");
    let existing: Vec<String> = Vec::new();
    let converter = ImageConverter::new(img, &matcher, &existing);
    let r = converter.convert();
    assert!(matches!(r, Err(ConvertError::EncodeFailed(_))));
}

#[test]
fn capability_table_lists_png_as_readable_and_writable() {
    let table = ImageConverter::get_extensions_table();
    assert!(!table.is_empty());
    let png_row = format!("| {:<6} | {:<9} | {:<8} |\n", "png", "true", "true");
    assert!(table.contains(&png_row));
    assert!(table.starts_with("+--------+-----------+----------+\n"));
    assert!(table.contains("| Format | Readable  | Writable |\n"));
}

#[test]
fn capability_rows_report_the_library_tables() {
    let rows = ImageExtension::vec_from(&FormatKind::Jpeg);
    let exts: Vec<String> = rows.iter().map(|r| r.get_extension().clone()).collect();
    assert_eq!(exts, vec!["jpg".to_string(), "jpeg".to_string()]);
    for row in &rows {
        assert!(*row.is_readable());
        assert!(*row.is_writable());
    }
    let rows = ImageExtension::vec_from(&FormatKind::Dds);
    for row in &rows {
        assert!(!*row.is_readable());
        assert!(!*row.is_writable());
    }
}
