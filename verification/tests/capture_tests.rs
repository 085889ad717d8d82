use base64::Engine;
use helldivers2_cn_helper::capture::{
    normalize_ocr_text, preferred_chinese_ocr_language, preferred_english_ocr_language, CapturedImage,
    OcrLanguage,
};

#[test]
fn crops_using_normalized_coordinates() {
    let image = CapturedImage {
        width: 4,
        height: 2,
        bgra: (0u8..32).collect(),
    };
    // The region x 0.5, y 0.0, width 0.5, height 1.0 of a 4 x 2 image.
    let crop = image.crop_pixels(2, 0, 2, 2).unwrap();
    assert_eq!((crop.width, crop.height), (2, 2));
    assert_eq!(
        crop.bgra,
        vec![8, 9, 10, 11, 12, 13, 14, 15, 24, 25, 26, 27, 28, 29, 30, 31]
    );
}

#[test]
fn normalizes_ocr_lines() {
    assert_eq!(normalize_ocr_text("  hello  \r\n\r\n world "), "hello\nworld");
}

#[test]
fn selects_an_installed_english_ocr_language() {
    let languages = vec![
        OcrLanguage {
            tag: "zh-Hans-CN".to_owned(),
            display_name: "Chinese".to_owned(),
            native_name: "简体中文".to_owned(),
        },
        OcrLanguage {
            tag: "en-GB".to_owned(),
            display_name: "English (United Kingdom)".to_owned(),
            native_name: "English (United Kingdom)".to_owned(),
        },
    ];
    assert_eq!(preferred_english_ocr_language(&languages).as_deref(), Some("en-GB"));
    assert_eq!(preferred_english_ocr_language(&languages[..1]), None);
}

#[test]
fn selects_an_installed_simplified_chinese_ocr_language() {
    let languages = vec![
        OcrLanguage {
            tag: "zh-Hant-TW".to_owned(),
            display_name: "Chinese (Traditional)".to_owned(),
            native_name: "繁體中文".to_owned(),
        },
        OcrLanguage {
            tag: "zh-Hans-CN".to_owned(),
            display_name: "Chinese (Simplified)".to_owned(),
            native_name: "简体中文".to_owned(),
        },
    ];
    assert_eq!(
        preferred_chinese_ocr_language(&languages).as_deref(),
        Some("zh-Hans-CN")
    );
}

#[test]
fn pixels_are_reordered_to_rgba() {
    assert_eq!(
        helldivers2_cn_helper::capture::bgra_to_rgba(&[1, 2, 3, 4, 5, 6, 7, 8, 9]),
        vec![3, 2, 1, 4, 7, 6, 5, 8]
    );
}

#[test]
fn crops_outside_the_image_are_refused() {
    let image = CapturedImage {
        width: 4,
        height: 2,
        bgra: (0u8..32).collect(),
    };
    assert!(image.crop_pixels(3, 0, 2, 1).is_err());
    assert!(image.crop_pixels(0, 2, 1, 1).is_err());
}

#[test]
fn previews_are_png_data_urls() {
    let image = CapturedImage {
        width: 2,
        height: 1,
        bgra: vec![10, 20, 30, 255, 40, 50, 60, 128],
    };
    let preview = image.calibration_preview().unwrap();
    assert_eq!((preview.width, preview.height), (2, 1));
    let encoded = preview
        .data_url
        .strip_prefix("data:image/png;base64,")
        .expect("data URL prefix");
    let png = base64::engine::general_purpose::STANDARD
        .decode(encoded)
        .expect("standard base64");
    assert_eq!(&png[..8], b"\x89PNG\r\n\x1a\n");
    let decoded = image::load_from_memory(&png).expect("a PNG").to_rgba8();
    assert_eq!(decoded.dimensions(), (2, 1));
    assert_eq!(decoded.into_raw(), vec![30, 20, 10, 255, 60, 50, 40, 128]);
}

#[test]
fn previews_of_short_buffers_are_refused() {
    let image = CapturedImage {
        width: 2,
        height: 2,
        bgra: vec![0; 8],
    };
    assert_eq!(
        image.calibration_preview(),
        Err(helldivers2_cn_helper::translation::TranslationError::Response(
            "截图像素数据无效".to_owned()
        ))
    );
}

#[test]
fn previews_of_oversized_buffers_are_refused() {
    let image = CapturedImage {
        width: 1,
        height: 1,
        bgra: vec![0; 8],
    };
    assert_eq!(
        image.calibration_preview(),
        Err(helldivers2_cn_helper::translation::TranslationError::Response(
            "截图像素数据无效".to_owned()
        ))
    );
}
