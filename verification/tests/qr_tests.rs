use base64::Engine;
use ephemeral_file_share::qr::{generate_qr_code, image_to_data_url, render_qr_modules};

#[test]
fn test_generate_qr_code() {
    let qr = generate_qr_code("test-data", 256).ok().unwrap();
    assert_eq!(qr.width(), 256);
    assert_eq!(qr.height(), 256);
}

#[test]
fn test_image_to_data_url() {
    let qr = generate_qr_code("test-data", 100).ok().unwrap();
    let data_url = image_to_data_url(&qr).ok().unwrap();

    assert!(data_url.starts_with("data:image/png;base64,"));
    assert!(!data_url.ends_with(','));
}

/// The modules of the QR code of `data`, row by row, `true` for dark.
fn modules_of(data: &str) -> (usize, Vec<bool>) {
    let code = qrcode::QrCode::new(data.as_bytes()).unwrap();
    let modules = code.to_colors().into_iter().map(|c| c == qrcode::Color::Dark).collect();
    (code.width(), modules)
}

#[test]
fn image_shows_the_modules_of_the_code() {
    let (width, modules) = modules_of("test-data");
    assert_eq!(width, 21);
    let size: usize = 290;
    let qr = generate_qr_code("test-data", size as u32).ok().unwrap();
    let pixels = qr.pixels();
    assert_eq!(pixels.len(), 4 * size * size);
    assert_eq!(qr.channel_count(), 4 * size * size);
    let span = width + 8;
    for y in 0..size {
        for x in 0..size {
            let mx = x * span / size;
            let my = y * span / size;
            let dark = mx >= 4 && mx < 4 + width && my >= 4 && my < 4 + width
                && modules[(my - 4) * width + (mx - 4)];
            let v = if dark { 0 } else { 255 };
            let i = 4 * (y * size + x);
            assert_eq!(&pixels[i..i + 4], &[v, v, v, 255], "pixel ({x}, {y})");
        }
    }
}

#[test]
fn quiet_zone_is_white_and_finder_corner_is_black() {
    // 29 modules with the quiet zone, 10 pixels each.
    let qr = generate_qr_code("test-data", 290).ok().unwrap();
    let pixels = qr.pixels();
    let at = |x: usize, y: usize| &pixels[4 * (y * 290 + x)..4 * (y * 290 + x) + 4];
    assert_eq!(at(0, 0), &[255, 255, 255, 255]);
    assert_eq!(at(39, 39), &[255, 255, 255, 255]);
    assert_eq!(at(40, 40), &[0, 0, 0, 255]);
    assert_eq!(at(289, 289), &[255, 255, 255, 255]);
}

#[test]
fn different_data_give_different_images() {
    let a = generate_qr_code("a", 21).ok().unwrap();
    let b = generate_qr_code("b", 21).ok().unwrap();
    assert_ne!(a.pixels(), b.pixels());
}

#[test]
fn rendering_given_modules() {
    // A 1-module code: 9 modules with the quiet zone, one pixel each.
    let qr = render_qr_modules(1, &[true], 9);
    let pixels = qr.pixels();
    for y in 0..9 {
        for x in 0..9 {
            let v = if x == 4 && y == 4 { 0 } else { 255 };
            let i = 4 * (y * 9 + x);
            assert_eq!(&pixels[i..i + 4], &[v, v, v, 255]);
        }
    }
    let light = render_qr_modules(1, &[false], 9);
    assert!(light.pixels().iter().all(|&b| b == 255));
}

#[test]
fn data_too_long_for_a_qr_code() {
    let data = "x".repeat(5000);
    let e = generate_qr_code(&data, 10).err().unwrap();
    assert!(e.message.starts_with("Failed to generate QR code: "));
}

#[test]
fn empty_image() {
    let qr = generate_qr_code("x", 0).ok().unwrap();
    assert_eq!(qr.width(), 0);
    assert!(qr.pixels().is_empty());
}

#[test]
fn data_url_holds_the_png_of_the_image() {
    let qr = generate_qr_code("x", 50).ok().unwrap();
    let url = image_to_data_url(&qr).ok().unwrap();
    // base64 of the 8-byte PNG signature 89 50 4E 47 0D 0A 1A 0A
    assert!(url.starts_with("data:image/png;base64,iVBORw0KGgo"));
    let png = base64::engine::general_purpose::STANDARD
        .decode(&url["data:image/png;base64,".len()..])
        .unwrap();
    let decoded = image::load_from_memory(&png).unwrap().to_rgba8();
    assert_eq!(decoded.width(), 50);
    assert_eq!(decoded.into_raw(), qr.pixels());
}

#[test]
fn empty_image_cannot_be_encoded() {
    let qr = generate_qr_code("x", 0).ok().unwrap();
    let e = image_to_data_url(&qr).err().unwrap();
    assert!(e.message.starts_with("Failed to encode image: "));
}
