use busy::cmd::asset::{rename_warning, resize_warning, would_upload};
use busy::image::prepare;
use busy::model::Screen;
use image::{DynamicImage, ImageFormat};
use std::io::Cursor;

fn encoded(width: u32, height: u32, format: ImageFormat) -> Vec<u8> {
    let mut out = Cursor::new(Vec::new());
    DynamicImage::new_rgb8(width, height)
        .write_to(&mut out, format)
        .expect("encoding a blank image should not fail");
    out.into_inner()
}

const FRONT: (u32, u32) = (72, 16);
const BACK: (u32, u32) = (160, 80);

#[test]
fn an_oversized_image_is_scaled_down_preserving_aspect() {
    let out = prepare(&encoded(200, 100, ImageFormat::Png), FRONT).expect("should prepare");
    assert_eq!(out.original, (200, 100));
    assert_eq!(out.final_size, (32, 16));
    assert!(out.was_resized());
}

#[test]
fn a_small_image_is_never_enlarged() {
    let out = prepare(&encoded(8, 8, ImageFormat::Png), FRONT).expect("should prepare");
    assert_eq!(out.final_size, (8, 8));
    assert!(!out.was_resized());
}

#[test]
fn an_exactly_panel_sized_image_passes_through() {
    let out = prepare(&encoded(72, 16, ImageFormat::Png), FRONT).expect("should prepare");
    assert_eq!(out.final_size, (72, 16));
    assert!(!out.was_resized());
}

#[test]
fn a_portrait_source_is_width_limited_on_the_back_panel() {
    let out = prepare(&encoded(50, 200, ImageFormat::Png), BACK).expect("should prepare");
    assert_eq!(out.final_size, (20, 80));
}

#[test]
fn the_output_is_always_png_whatever_went_in() {
    let out = prepare(&encoded(40, 10, ImageFormat::Jpeg), FRONT).expect("should prepare");
    assert_eq!(&out.png[..8], b"\x89PNG\r\n\x1a\n", "PNG magic bytes");
    assert_eq!(out.final_size, (40, 10));
}

#[test]
fn the_format_is_sniffed_from_content_not_a_filename() {
    assert!(prepare(&encoded(8, 8, ImageFormat::Jpeg), FRONT).is_ok());
}

#[test]
fn every_accepted_input_format_decodes() {
    for format in [ImageFormat::Png, ImageFormat::Jpeg, ImageFormat::Gif] {
        let out = prepare(&encoded(40, 10, format), FRONT).expect("should decode");
        assert_eq!(out.final_size, (40, 10), "{format:?}");
        assert_eq!(&out.png[..8], b"\x89PNG\r\n\x1a\n", "{format:?} must become PNG");
    }
}

#[test]
fn undecodable_bytes_name_the_formats_we_accept() {
    let error = prepare(b"this is not an image at all", FRONT).expect_err("should reject").message();
    assert!(error.contains("PNG"), "got {error}");
    assert!(error.contains("JPEG"), "got {error}");
    assert!(error.contains("GIF"), "got {error}");
    assert!(error.starts_with("could not decode the image: "), "got {error}");
    assert!(error.ends_with("\n`busy` reads PNG, JPEG, and GIF, and uploads PNG (the only format the bar decodes)."), "got {error}");
}

#[test]
fn an_upload_reports_what_happened_to_it() {
    let out = prepare(&encoded(200, 100, ImageFormat::Png), FRONT).expect("should prepare");
    assert_eq!(
        resize_warning(&out, Screen::Front),
        Some("resized 200x100 to 32x16 to fit the front panel; the bar refuses to draw anything larger".to_owned())
    );
    assert_eq!(
        would_upload(&out, "logo.png"),
        format!("would upload {} bytes as `logo.png` (32x16)", out.png.len())
    );
    let small = prepare(&encoded(8, 8, ImageFormat::Png), FRONT).expect("should prepare");
    assert_eq!(resize_warning(&small, Screen::Back), None);
    assert_eq!(
        rename_warning("./pics/logo.jpeg", "logo.png"),
        Some("stored as `logo.png`: the bar only decodes PNG, so `logo.jpeg` was re-encoded".to_owned())
    );
    assert_eq!(rename_warning("./pics/logo.png", "logo.png"), None);
}
