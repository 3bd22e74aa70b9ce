use qr_image::errors::{CodedError, QrError};
use qr_image::matrix::encode;
use qr_image::options::{select_logo, RenderOptions};

#[test]
fn empty_payload_is_invalid_input() {
    let r = encode("");
    assert!(matches!(r, Err(QrError::InvalidInput)));
}

#[test]
fn oversized_payload_is_encoding_error() {
    let payload = "1".repeat(5597);
    let r = encode(&payload);
    assert!(matches!(r, Err(QrError::EncodingError)));
}

#[test]
fn far_oversized_payload_is_encoding_error() {
    let payload = "x".repeat(20_000);
    let r = encode(&payload);
    assert!(matches!(r, Err(QrError::EncodingError)));
}

#[test]
fn numeric_payload_fits_version_one() {
    let m = encode("12345").unwrap();
    assert_eq!(m.side(), 21);
    // The top-left finder pattern corner is always dark.
    assert!(m.is_dark(0, 0));
    assert!(m.is_dark(0, 20));
    assert!(m.is_dark(20, 0));
    // The separator next to the finder pattern is always light.
    assert!(!m.is_dark(7, 7));
}

#[test]
fn url_payload_side_matches_version_table() {
    let m = encode("https://example.com").unwrap();
    let side = m.side();
    assert!(side >= 21 && side <= 177);
    assert_eq!(side % 4, 1);
}

#[test]
fn near_capacity_payload_encodes() {
    let payload = "A".repeat(2330);
    let m = encode(&payload).unwrap();
    let side = m.side();
    assert!(side >= 21 && side <= 177);
    assert_eq!(side % 4, 1);
}

#[test]
fn encode_is_deterministic() {
    let a = encode("deterministic payload 123").unwrap();
    let b = encode("deterministic payload 123").unwrap();
    assert_eq!(a, b);
}

#[test]
fn transparency_option_resolution() {
    let none = RenderOptions { add_logo: false, add_gradient: false, add_transparency: None };
    let off = Some(false);
    let off = RenderOptions { add_logo: false, add_gradient: false, add_transparency: off };
    let on = RenderOptions { add_logo: false, add_gradient: false, add_transparency: Some(true) };
    assert!(!none.wants_transparency());
    assert!(!off.wants_transparency());
    assert!(on.wants_transparency());
}

#[test]
fn logo_selection_follows_transparency() {
    let opaque_asset: &[u8] = &[1u8, 2, 3];
    let transparent_asset: &[u8] = &[4u8, 5, 6];
    let on = RenderOptions { add_logo: true, add_gradient: false, add_transparency: Some(true) };
    let off = RenderOptions { add_logo: true, add_gradient: false, add_transparency: None };
    assert_eq!(select_logo(&on, opaque_asset, transparent_asset), transparent_asset);
    assert_eq!(select_logo(&off, opaque_asset, transparent_asset), opaque_asset);
}

#[test]
fn coded_error_mapping() {
    let a = CodedError::from_error(&QrError::InvalidInput);
    assert_eq!(a.code, 100);
    assert_eq!(a.message, "Geçersiz girdi");
    let b = CodedError::from_error(&QrError::EncodingError);
    assert_eq!(b.code, 101);
    assert_eq!(b.message, "Kodlama hatası");
    let c = CodedError::from_error(&QrError::ImageGenerationError);
    assert_eq!(c.code, 102);
    assert_eq!(c.message, "Görüntü oluşturma hatası");
}

#[test]
fn byte_mode_payload_over_capacity_is_encoding_error() {
    // Lowercase letters need byte mode, whose capacity at the Medium level is
    // 2331 bytes, so 3000 of them exceed every supported version.
    let payload = "x".repeat(3000);
    assert!(matches!(encode(&payload), Err(QrError::EncodingError)));
}

#[test]
fn numeric_payload_over_byte_bound_still_fits() {
    // 5000 digits are far over the guaranteed byte bound but fit in numeric
    // mode, whose capacity at the Medium level is 5596 characters.
    assert!(encode(&"1".repeat(5000)).is_ok());
}
