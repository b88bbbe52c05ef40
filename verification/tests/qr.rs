use ams_yt_dw::qr::{generate_qr_image, render_qr_rgba};

#[test]
fn qr_picture_of_short_text() {
    let img = generate_qr_image("hello").unwrap();
    // version 1: 21 modules, plus 4 on each side, 6 pixels a module
    assert_eq!(img.side, (21 + 8) * 6);
    assert_eq!(img.rgba.len(), img.side * img.side * 4);
}

#[test]
fn qr_picture_matches_the_symbol() {
    let data = "00020101021126470014br.gov.bcb.pix0125pixcafe@silvestrehost.com";
    let img = generate_qr_image(data).unwrap();
    let code = qrcode::QrCode::with_error_correction_level(data.as_bytes(), qrcode::EcLevel::M).unwrap();
    let w = code.width();
    assert_eq!(img.side, (w + 8) * 6);
    let colors = code.to_colors();
    for y in 0..img.side {
        for x in 0..img.side {
            let i = (y * img.side + x) * 4;
            let (mx, my) = (x / 6, y / 6);
            let dark = mx >= 4 && my >= 4 && mx - 4 < w && my - 4 < w
                && colors[(my - 4) * w + (mx - 4)] == qrcode::Color::Dark;
            let v = if dark { 0 } else { 255 };
            assert_eq!(&img.rgba[i..i + 4], &[v, v, v, 255]);
        }
    }
}

#[test]
fn qr_border_is_white() {
    let img = generate_qr_image("border").unwrap();
    for i in 0..(24 * img.side * 4) {
        assert_eq!(img.rgba[i], 255);
    }
}

#[test]
fn qr_too_long_is_none() {
    let data = "x".repeat(3000);
    assert!(generate_qr_image(&data).is_none());
}

#[test]
fn render_small_symbol() {
    // a 1-module symbol, dark
    let px = render_qr_rgba(1, &vec![true]);
    let side = 9 * 6;
    assert_eq!(px.len(), side * side * 4);
    let at = |x: usize, y: usize| px[(y * side + x) * 4];
    assert_eq!(at(24, 24), 0);
    assert_eq!(at(29, 29), 0);
    assert_eq!(at(30, 24), 255);
    assert_eq!(at(23, 24), 255);
    assert_eq!(px[(24 * side + 24) * 4 + 3], 255);
}
