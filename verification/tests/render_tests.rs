use qr_image::errors::QrError;
use qr_image::matrix::encode;
use qr_image::options::RenderOptions;
use qr_image::render::generate;
use qr_image::render::render;

fn plain_options() -> RenderOptions {
    RenderOptions { add_logo: false, add_gradient: false, add_transparency: None }
}

fn solid_png(w: u32, h: u32, rgba: [u8; 4]) -> Vec<u8> {
    let img = image::RgbaImage::from_pixel(w, h, image::Rgba(rgba));
    let mut out: Vec<u8> = Vec::new();
    img.write_to(&mut std::io::Cursor::new(&mut out), image::ImageFormat::Png).unwrap();
    out
}

fn decode_qr(png: &[u8]) -> Vec<u8> {
    let img = image::load_from_memory(png).unwrap().to_luma8();
    let (w, h) = img.dimensions();
    let pad = 64u32;
    let mut canvas =
        image::GrayImage::from_pixel(w + 2 * pad, h + 2 * pad, image::Luma([255u8]));
    for y in 0..h {
        for x in 0..w {
            canvas.put_pixel(x + pad, y + pad, *img.get_pixel(x, y));
        }
    }
    let mut decoder = quircs::Quirc::new();
    let codes = decoder.identify(
        canvas.width() as usize,
        canvas.height() as usize,
        canvas.as_raw(),
    );
    for code in codes {
        let code = code.unwrap();
        if let Ok(data) = code.decode() {
            return data.payload;
        }
    }
    panic!("no QR code decoded");
}

#[test]
fn undersized_target_is_image_generation_error() {
    let m = encode("12345").unwrap();
    let r = render(&m, &plain_options(), &[], 20);
    assert!(matches!(r, Err(QrError::ImageGenerationError)));
    let r = render(&m, &plain_options(), &[], 0);
    assert!(matches!(r, Err(QrError::ImageGenerationError)));
}

#[test]
fn roundtrip_numeric_payload() {
    let png = generate("12345", &plain_options(), &[], 420).unwrap();
    assert_eq!(decode_qr(&png), b"12345");
}

#[test]
fn roundtrip_url_payload() {
    let png = generate("https://example.com", &plain_options(), &[], 420).unwrap();
    assert_eq!(decode_qr(&png), b"https://example.com");
}

#[test]
fn roundtrip_near_capacity_payload() {
    let payload = "A".repeat(2300);
    let png = generate(&payload, &plain_options(), &[], 1770).unwrap();
    assert_eq!(decode_qr(&png), payload.as_bytes());
}

#[test]
fn generation_is_deterministic() {
    let opts = RenderOptions { add_logo: false, add_gradient: true, add_transparency: None };
    let a = generate("same payload", &opts, &[], 420).unwrap();
    let b = generate("same payload", &opts, &[], 420).unwrap();
    assert_eq!(a, b);
}

#[test]
fn output_image_has_requested_size() {
    let png = generate("12345", &plain_options(), &[], 430).unwrap();
    let img = image::load_from_memory(&png).unwrap();
    assert_eq!(img.width(), 430);
    assert_eq!(img.height(), 430);
}

#[test]
fn flat_colors_are_black_on_white() {
    // Side 21 at 420 px: scale 20, no margin. Pixel (10, 10) lies on the dark
    // finder corner module; pixel (150, 10) lies on the light separator.
    let png = generate("12345", &plain_options(), &[], 420).unwrap();
    let img = image::load_from_memory(&png).unwrap().to_rgba8();
    assert_eq!(img.get_pixel(10, 10).0, [0, 0, 0, 255]);
    assert_eq!(img.get_pixel(150, 10).0, [255, 255, 255, 255]);
}

#[test]
fn gradient_samples_anchor_at_origin() {
    let opts = RenderOptions { add_logo: false, add_gradient: true, add_transparency: None };
    let png = generate("12345", &opts, &[], 420).unwrap();
    let img = image::load_from_memory(&png).unwrap().to_rgba8();
    // The dark module at the origin takes the exact start anchor color.
    assert_eq!(img.get_pixel(0, 0).0, [13, 71, 161, 255]);
    // Light modules stay at the background color.
    assert_eq!(img.get_pixel(150, 10).0, [255, 255, 255, 255]);
}

#[test]
fn transparency_clears_background_alpha_only() {
    let on = RenderOptions { add_logo: false, add_gradient: false, add_transparency: Some(true) };
    let off = plain_options();
    let png_on = generate("12345", &on, &[], 420).unwrap();
    let png_off = generate("12345", &off, &[], 420).unwrap();
    let img_on = image::load_from_memory(&png_on).unwrap().to_rgba8();
    let img_off = image::load_from_memory(&png_off).unwrap().to_rgba8();
    // Background pixels: same white color, alpha drops from 255 to 0.
    assert_eq!(img_on.get_pixel(150, 10).0, [255, 255, 255, 0]);
    assert_eq!(img_off.get_pixel(150, 10).0, [255, 255, 255, 255]);
    // Dark-module pixels are identical under both settings.
    assert_eq!(img_on.get_pixel(10, 10).0, [0, 0, 0, 255]);
    assert_eq!(img_off.get_pixel(10, 10).0, [0, 0, 0, 255]);
}

#[test]
fn logo_changes_only_center_box() {
    let logo = solid_png(8, 8, [255, 0, 0, 255]);
    let with = RenderOptions { add_logo: true, add_gradient: false, add_transparency: None };
    let png_with = generate("12345", &with, &logo, 420).unwrap();
    let png_without = generate("12345", &plain_options(), &logo, 420).unwrap();
    let img_with = image::load_from_memory(&png_with).unwrap().to_rgba8();
    let img_without = image::load_from_memory(&png_without).unwrap().to_rgba8();
    // The logo box is 105 px wide, centered: columns and rows 157 through 261.
    let lo = 157u32;
    let hi = 157 + 105;
    for y in 0..420u32 {
        for x in 0..420u32 {
            let inside = x >= lo && x < hi && y >= lo && y < hi;
            if inside {
                // The solid logo fully replaces the module pixels.
                assert_eq!(img_with.get_pixel(x, y).0, [255, 0, 0, 255]);
            } else {
                assert_eq!(img_with.get_pixel(x, y).0, img_without.get_pixel(x, y).0);
            }
        }
    }
}

#[test]
fn logo_survives_scanning() {
    let logo = solid_png(8, 8, [255, 0, 0, 255]);
    let with = RenderOptions { add_logo: true, add_gradient: false, add_transparency: None };
    let png = generate("https://example.com", &with, &logo, 500).unwrap();
    assert_eq!(decode_qr(&png), b"https://example.com");
}

#[test]
fn invalid_logo_bytes_are_image_generation_error() {
    let with = RenderOptions { add_logo: true, add_gradient: false, add_transparency: None };
    let r = generate("12345", &with, b"not an image", 420);
    assert!(matches!(r, Err(QrError::ImageGenerationError)));
}

#[test]
fn generate_empty_payload_is_invalid_input() {
    let r = generate("", &plain_options(), &[], 420);
    assert!(matches!(r, Err(QrError::InvalidInput)));
}

#[test]
fn generate_oversized_payload_is_encoding_error() {
    let payload = "9".repeat(6000);
    let r = generate(&payload, &plain_options(), &[], 420);
    assert!(matches!(r, Err(QrError::EncodingError)));
}
