//! The QR code image shown for the Pix donation: the symbol comes from the
//! `qrcode` crate, the picture (white quiet zone, black modules, six pixels a
//! module) is drawn here.
use vstd::arithmetic::div_mod::lemma_fundamental_div_mod_converse;
use vstd::prelude::*;
use vstd::utf8::encode_utf8;

verus! {

broadcast use vstd::string::group_string_axioms;

/// The QR symbol that `qrcode` builds for `data` at error correction level M,
/// in the smallest version that holds it: the number of modules on a side,
/// then the modules row by row, `true` for a dark one. Nothing when the data
/// fits in no version.
pub uninterp spec fn qr_symbol_m(data: Seq<u8>) -> Option<(usize, Seq<bool>)>;

/// `qrcode::QrCode::with_error_correction_level(data, EcLevel::M)`, read out
/// through `QrCode::width` and `QrCode::to_colors`.
///
/// Claimed of it: the result is `qr_symbol_m(data)`; when there is one, the
/// side is that of a normal QR version (21 to 177 modules, since the automatic
/// encoder only picks normal versions 1 to 40) and there is one module for
/// each of the side × side positions (the canvas is allocated that way).
/// Nothing is said of which modules are dark.
#[verifier::external_body]
fn encode_qr_m(data: &[u8]) -> (r: Option<(usize, Vec<bool>)>)
    ensures
        match r {
            Some((w, m)) => {
                &&& qr_symbol_m(data@) == Some((w, m@))
                &&& 21 <= w <= 177
                &&& m@.len() == w * w
            },
            None => qr_symbol_m(data@) is None,
        },
{
    match qrcode::QrCode::with_error_correction_level(data, qrcode::EcLevel::M) {
        Ok(code) => Some(
            (code.width(), code.to_colors().iter().map(|c| *c == qrcode::Color::Dark).collect()),
        ),
        Err(_) => None,
    }
}

/// Pixels per module.
pub const QR_SCALE: usize = 6;

/// Width of the white border, in modules.
pub const QR_QUIET: usize = 4;

/// The side of the picture, in pixels, for a symbol of `width` modules.
pub open spec fn qr_side(width: int) -> int {
    (width + 2 * QR_QUIET) * QR_SCALE
}

/// Whether pixel `(x, y)` of the picture falls on a dark module.
pub open spec fn qr_pixel_dark(width: int, modules: Seq<bool>, x: int, y: int) -> bool {
    let mx = x / QR_SCALE as int - QR_QUIET;
    let my = y / QR_SCALE as int - QR_QUIET;
    0 <= mx < width && 0 <= my < width && modules[my * width + mx]
}

/// Byte `i` of the RGBA picture: red, green and blue are 0 on a dark module
/// and 255 elsewhere; alpha is always 255.
pub open spec fn qr_rgba_byte(width: int, modules: Seq<bool>, i: int) -> u8 {
    let p = i / 4;
    let c = i % 4;
    let side = qr_side(width);
    if c < 3 && qr_pixel_dark(width, modules, p % side, p / side) {
        0
    } else {
        255
    }
}

/// The RGBA picture of a symbol, row by row, four bytes a pixel.
pub open spec fn qr_rgba(width: int, modules: Seq<bool>) -> Seq<u8> {
    Seq::new((qr_side(width) * qr_side(width) * 4) as nat, |i: int| qr_rgba_byte(width, modules, i))
}

/// Whether pixel `(x, y)` falls on a dark module; false in the quiet zone.
fn pixel_is_dark(width: usize, modules: &Vec<bool>, x: usize, y: usize) -> (b: bool)
    requires
        1 <= width <= 177,
        modules@.len() == width * width,
    ensures
        b == qr_pixel_dark(width as int, modules@, x as int, y as int),
{
    let qx = x / QR_SCALE;
    let qy = y / QR_SCALE;
    if qx < QR_QUIET || qy < QR_QUIET {
        return false;
    }
    let mx = qx - QR_QUIET;
    let my = qy - QR_QUIET;
    if mx >= width || my >= width {
        return false;
    }
    assert(my * width + mx < width * width && width * width <= 177 * 177) by (nonlinear_arith)
        requires
            mx < width,
            my < width,
            width <= 177,
    ;
    modules[my * width + mx]
}

/// The RGBA picture of a symbol of `width` modules a side.
pub fn render_qr_rgba(width: usize, modules: &Vec<bool>) -> (px: Vec<u8>)
    requires
        1 <= width <= 177,
        modules@.len() == width * width,
    ensures
        px@ == qr_rgba(width as int, modules@),
{
    let side = (width + 2 * QR_QUIET) * QR_SCALE;
    let mut px: Vec<u8> = Vec::new();
    assert(0 * side * 4 == 0) by (nonlinear_arith);
    for y in 0..side
        invariant
            1 <= width <= 177,
            modules@.len() == width * width,
            side == qr_side(width as int),
            px@.len() == y * side * 4,
            forall|i: int| 0 <= i < px@.len() ==> #[trigger] px@[i] == qr_rgba_byte(width as int, modules@, i),
    {
        for x in 0..side
            invariant
                1 <= width <= 177,
                modules@.len() == width * width,
                side == qr_side(width as int),
                y < side,
                px@.len() == (y * side + x) * 4,
                forall|i: int| 0 <= i < px@.len() ==> #[trigger] px@[i] == qr_rgba_byte(width as int, modules@, i),
        {
            let dark = pixel_is_dark(width, modules, x, y);
            let shade: u8 = if dark { 0 } else { 255 };
            let ghost p = y * side + x;
            assert(p < side * side) by (nonlinear_arith)
                requires
                    p == y * side + x,
                    x < side,
                    y < side,
            ;
            proof {
                lemma_fundamental_div_mod_converse(p as int, side as int, y as int, x as int);
                assert forall|c: int| 0 <= c < 4 implies #[trigger] qr_rgba_byte(width as int, modules@, p * 4 + c)
                    == (if c < 3 && dark { 0u8 } else { 255u8 }) by {
                    lemma_fundamental_div_mod_converse(p * 4 + c, 4, p as int, c);
                }
            }
            px.push(shade);
            px.push(shade);
            px.push(shade);
            px.push(255);
        }
        assert((y + 1) * side * 4 == (y * side + side) * 4) by (nonlinear_arith);
    }
    assert(px@ =~= qr_rgba(width as int, modules@));
    px
}

/// A picture: its side in pixels and its RGBA bytes, row by row.
pub struct QrImage {
    /// Pixels on a side.
    pub side: usize,
    /// Four bytes a pixel, row by row.
    pub rgba: Vec<u8>,
}

/// The picture of the QR code of `data` (error correction level M, smallest
/// version, four-module border, six pixels a module); nothing when the data is
/// too long for any QR version.
pub fn generate_qr_image(data: &str) -> (img: Option<QrImage>)
    ensures
        match img {
            Some(i) => match qr_symbol_m(encode_utf8(data@)) {
                Some((w, m)) => i.side == qr_side(w as int) && i.rgba@ == qr_rgba(w as int, m),
                None => false,
            },
            None => qr_symbol_m(encode_utf8(data@)) is None,
        },
{
    match encode_qr_m(data.as_bytes()) {
        Some((width, modules)) => {
            let rgba = render_qr_rgba(width, &modules);
            Some(QrImage { side: (width + 2 * QR_QUIET) * QR_SCALE, rgba })
        },
        None => None,
    }
}

// ─── Laws ───────────────────────────────────────────────────────────────────

/// Pixel `(x, y)` of the picture is black on a dark module and white
/// elsewhere, and always opaque.
pub proof fn law_qr_pixel(width: int, modules: Seq<bool>, x: int, y: int, c: int)
    requires
        width >= 1,
        0 <= x < qr_side(width),
        0 <= y < qr_side(width),
        0 <= c < 4,
    ensures
        ({
            let side = qr_side(width);
            let i = (y * side + x) * 4 + c;
            &&& 0 <= i < qr_rgba(width, modules).len()
            &&& qr_rgba(width, modules)[i] == (if c < 3 && qr_pixel_dark(width, modules, x, y) {
                0u8
            } else {
                255u8
            })
        }),
{
    let side = qr_side(width);
    let p = y * side + x;
    assert(0 <= p < side * side) by (nonlinear_arith)
        requires
            p == y * side + x,
            0 <= x < side,
            0 <= y < side,
    ;
    lemma_fundamental_div_mod_converse(p, side, y, x);
    lemma_fundamental_div_mod_converse(p * 4 + c, 4, p, c);
}

/// The four-module border of the picture is white: no pixel within 24 pixels
/// of an edge falls on a dark module.
pub proof fn law_qr_border_is_white(width: int, modules: Seq<bool>, x: int, y: int)
    requires
        width >= 1,
        0 <= x < qr_side(width),
        0 <= y < qr_side(width),
        x < 24 || y < 24 || x >= qr_side(width) - 24 || y >= qr_side(width) - 24,
    ensures
        !qr_pixel_dark(width, modules, x, y),
{
}

} // verus!
