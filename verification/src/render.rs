use vstd::prelude::*;

use vstd::arithmetic::div_mod::{
    lemma_div_by_self, lemma_div_is_ordered, lemma_div_multiples_vanish,
    lemma_fundamental_div_mod, lemma_mod_bound, lemma_multiply_divide_lt,
};
use vstd::arithmetic::mul::{
    lemma_mul_inequality, lemma_mul_is_commutative, lemma_mul_is_distributive_add_other_way,
    lemma_mul_nonnegative,
};
use vstd::string::StringSliceAdditionalSpecFns;

use crate::errors::QrError;
use crate::matrix::{qr_fits, qr_matrix, SymbolMatrix};
use crate::options::RenderOptions;
use crate::pixmap::{channel, lemma_flat_index, pixel_at, push_pixel, Pixmap, Rgba};

verus! {

/// Gradient anchor at the top-left corner of the canvas.
pub const GRADIENT_START_R: u8 = 13;

pub const GRADIENT_START_G: u8 = 71;

pub const GRADIENT_START_B: u8 = 161;

/// Gradient anchor at the bottom-right corner of the canvas.
pub const GRADIENT_END_R: u8 = 0;

pub const GRADIENT_END_G: u8 = 188;

pub const GRADIENT_END_B: u8 = 212;

/// The logo box spans this fraction of the canvas side.
pub const LOGO_FRACTION: usize = 4;

/// The RGBA decode of an image file: its pixel width, its pixel height, and
/// its row-major RGBA bytes, a function of the encoded bytes alone.
pub uninterp spec fn decoded_logo(bytes: Seq<u8>) -> (int, int, Seq<u8>);

/// Whether the bytes decode as an image at all: the decoder's accept-or-reject
/// decision, a function of the bytes alone.
pub uninterp spec fn png_decodable(bytes: Seq<u8>) -> bool;

/// The RGBA bytes of a `w` by `h` image resampled to `nw` by `nh`, a function
/// of the source buffer and the dimensions alone.
pub uninterp spec fn resized_rgba(w: int, h: int, data: Seq<u8>, nw: int, nh: int) -> Seq<u8>;

/// The PNG encoding of a `w` by `h` RGBA image, a function of the dimensions
/// and pixel bytes alone.
pub uninterp spec fn png_bytes(w: int, h: int, data: Seq<u8>) -> Seq<u8>;

/// Relies on image::load_from_memory and DynamicImage::to_rgba8: whether the
/// bytes decode, and to what, is deterministic in the input bytes alone; an
/// ImageBuffer holds exactly width * height * 4 RGBA bytes in row-major
/// order, and its dimensions are `u32` values.
#[verifier::external_body]
fn decode_logo(bytes: &[u8]) -> (r: Result<Pixmap, QrError>)
    ensures
        r is Ok <==> png_decodable(bytes@),
        r is Ok ==> r->Ok_0.wf(),
        r is Ok ==> r->Ok_0.width <= 0xFFFF_FFFF && r->Ok_0.height <= 0xFFFF_FFFF,
        r is Ok ==> r->Ok_0.width as int == decoded_logo(bytes@).0 && r->Ok_0.height as int
            == decoded_logo(bytes@).1 && r->Ok_0.data@ == decoded_logo(bytes@).2,
        r is Err ==> r->Err_0 == QrError::ImageGenerationError,
{
    match image::load_from_memory(bytes) {
        Ok(img) => {
            let rgba = img.to_rgba8();
            let width = rgba.width() as usize;
            let height = rgba.height() as usize;
            Ok(Pixmap { width, height, data: rgba.into_raw() })
        },
        Err(_) => Err(QrError::ImageGenerationError),
    }
}

/// Relies on image::imageops::resize with the Triangle filter: resampling is
/// deterministic in the source pixels and the requested dimensions, and the
/// result holds exactly `nw * nh * 4` RGBA bytes. `ImageBuffer::from_raw`
/// returns `Some` because the buffer length matches the dimensions.
#[verifier::external_body]
fn resize_logo(src: &Pixmap, nw: usize, nh: usize) -> (r: Pixmap)
    requires
        src.wf(),
        src.width <= 0xFFFF_FFFF,
        src.height <= 0xFFFF_FFFF,
        0 < nw <= 0xFFFF_FFFF,
        0 < nh <= 0xFFFF_FFFF,
    ensures
        r.wf(),
        r.width == nw,
        r.height == nh,
        r.data@ == resized_rgba(src.width as int, src.height as int, src.data@, nw as int, nh as int),
{
    let buffer: image::RgbaImage = image::ImageBuffer::from_raw(
        src.width as u32,
        src.height as u32,
        src.data.clone(),
    ).expect("buffer length matches the dimensions");
    let resized = image::imageops::resize(
        &buffer,
        nw as u32,
        nh as u32,
        image::imageops::FilterType::Triangle,
    );
    Pixmap { width: nw, height: nh, data: resized.into_raw() }
}

/// Relies on ImageBuffer::write_to with the PNG format: the encoder writes a
/// deterministic function of the dimensions and pixel bytes to the output,
/// and `ImageBuffer::from_raw` returns `Some` because the buffer length
/// matches the dimensions. The call succeeds: with nonzero dimensions within
/// the PNG limit, a valid color type, and a buffer of exactly
/// width * height * 4 bytes, the png encoder's only remaining error paths are
/// writer faults, and writing into a `Vec` cannot fail.
#[verifier::external_body]
fn encode_png(p: &Pixmap) -> (r: Result<Vec<u8>, QrError>)
    requires
        p.wf(),
        0 < p.width <= 0x7FFF_FFFF,
        0 < p.height <= 0x7FFF_FFFF,
    ensures
        r is Ok,
        r is Ok ==> r->Ok_0@ == png_bytes(p.width as int, p.height as int, p.data@),
{
    let buffer: image::RgbaImage = image::ImageBuffer::from_raw(
        p.width as u32,
        p.height as u32,
        p.data.clone(),
    ).expect("buffer length matches the dimensions");
    let mut out: Vec<u8> = Vec::new();
    match buffer.write_to(&mut std::io::Cursor::new(&mut out), image::ImageFormat::Png) {
        Ok(()) => Ok(out),
        Err(_) => Err(QrError::ImageGenerationError),
    }
}

/// Integer interpolation from `a` to `b` at position `num` of `den`.
pub open spec fn spec_lerp(a: u8, b: u8, num: int, den: int) -> u8 {
    if den <= 0 {
        a
    } else if a <= b {
        (a + (b - a) * num / den) as u8
    } else {
        (a - (a - b) * num / den) as u8
    }
}

/// The gradient sample at `(x, y)`: each channel interpolated between the two
/// anchors along the diagonal of the canvas.
pub open spec fn spec_gradient(target: int, x: int, y: int) -> Rgba {
    Rgba {
        r: spec_lerp(GRADIENT_START_R, GRADIENT_END_R, x + y, 2 * (target - 1)),
        g: spec_lerp(GRADIENT_START_G, GRADIENT_END_G, x + y, 2 * (target - 1)),
        b: spec_lerp(GRADIENT_START_B, GRADIENT_END_B, x + y, 2 * (target - 1)),
        a: 255,
    }
}

/// Color of a dark module's pixels: the gradient sample, or flat black.
pub open spec fn spec_foreground(gradient: bool, target: int, x: int, y: int) -> Rgba {
    if gradient {
        spec_gradient(target, x, y)
    } else {
        Rgba { r: 0, g: 0, b: 0, a: 255 }
    }
}

/// Color of light modules and of the margin: white, fully transparent when a
/// transparent background was requested and fully opaque otherwise.
pub open spec fn spec_background(transparent: bool) -> Rgba {
    Rgba { r: 255, g: 255, b: 255, a: if transparent { 0 } else { 255 } }
}

/// Pixels per module: the largest whole scale that fits the canvas.
pub open spec fn spec_scale(side: int, target: int) -> int {
    target / side
}

/// Leftover pixels are split evenly into a margin around the grid.
pub open spec fn spec_margin(side: int, target: int) -> int {
    (target - spec_scale(side, target) * side) / 2
}

/// Whether canvas pixel `(x, y)` lies on the scaled module grid.
pub open spec fn spec_in_grid(side: int, target: int, x: int, y: int) -> bool {
    let s = spec_scale(side, target);
    let m = spec_margin(side, target);
    &&& m <= x < m + s * side
    &&& m <= y < m + s * side
}

/// Whether canvas pixel `(x, y)` is covered by a dark module of grid `g`.
pub open spec fn spec_covered_dark(g: Seq<Seq<bool>>, target: int, x: int, y: int) -> bool {
    let side = g.len() as int;
    let s = spec_scale(side, target);
    let m = spec_margin(side, target);
    spec_in_grid(side, target, x, y) && g[(y - m) / s][(x - m) / s]
}

/// The pixel at `(x, y)` of the base canvas: the foreground color where a dark
/// module's block covers the pixel, the background color elsewhere.
pub open spec fn spec_base_pixel(
    g: Seq<Seq<bool>>,
    gradient: bool,
    transparent: bool,
    target: int,
    x: int,
    y: int,
) -> Rgba {
    if spec_covered_dark(g, target, x, y) {
        spec_foreground(gradient, target, x, y)
    } else {
        spec_background(transparent)
    }
}

/// The whole base canvas, as row-major RGBA bytes.
pub open spec fn spec_canvas_data(
    g: Seq<Seq<bool>>,
    gradient: bool,
    transparent: bool,
    target: int,
) -> Seq<u8> {
    Seq::new(
        (4 * (target * target)) as nat,
        |k: int|
            channel(
                spec_base_pixel(g, gradient, transparent, target, (k / 4) % target, (k / 4) / target),
                k % 4,
            ),
    )
}

/// The canvas bytes after a logo of `lw` by `lh` pixels replaces the centered
/// box of the same size; every pixel outside the box is unchanged.
pub open spec fn spec_overlay_data(
    base: Seq<u8>,
    bw: int,
    bh: int,
    logo: Seq<u8>,
    lw: int,
    lh: int,
) -> Seq<u8> {
    Seq::new(
        base.len(),
        |k: int|
            {
                let x = (k / 4) % bw;
                let y = (k / 4) / bw;
                let x0 = (bw - lw) / 2;
                let y0 = (bh - lh) / 2;
                if x0 <= x < x0 + lw && y0 <= y < y0 + lh {
                    channel(pixel_at(logo, lw, x - x0, y - y0), k % 4)
                } else {
                    base[k]
                }
            },
    )
}

/// Side length of the centered logo box on a canvas of side `target`.
pub open spec fn spec_logo_box(target: int) -> int {
    target / (LOGO_FRACTION as int)
}

/// Whether canvas pixel `(x, y)` lies inside the centered logo box.
pub open spec fn spec_in_logo_box(target: int, x: int, y: int) -> bool {
    let l = spec_logo_box(target);
    let o = (target - l) / 2;
    &&& o <= x < o + l
    &&& o <= y < o + l
}

/// The pixel bytes of the finished image: the base canvas, with the logo
/// composed over the centered box when `add_logo` is set.
pub open spec fn spec_output_data(
    g: Seq<Seq<bool>>,
    add_logo: bool,
    gradient: bool,
    transparent: bool,
    logo_bytes: Seq<u8>,
    target: int,
) -> Seq<u8> {
    let base = spec_canvas_data(g, gradient, transparent, target);
    if add_logo {
        let d = decoded_logo(logo_bytes);
        let l = spec_logo_box(target);
        spec_overlay_data(base, target, target, resized_rgba(d.0, d.1, d.2, l, l), l, l)
    } else {
        base
    }
}

/// When `render` fails: the canvas is smaller than the module grid, the
/// canvas side is over the PNG dimension limit, the pixel buffer would not
/// fit in memory, or a requested logo does not decode. Everything is a
/// function of the arguments, so failure is too.
pub open spec fn spec_render_fails(
    side: int,
    add_logo: bool,
    logo_bytes: Seq<u8>,
    target: int,
) -> bool {
    ||| target < side
    ||| target > 0x7FFF_FFFF
    ||| target * target > usize::MAX as int / 4
    ||| (add_logo && !png_decodable(logo_bytes))
}

/// The PNG bytes of a successful `generate` call: a function of the payload,
/// the style options, the logo bytes and the target size alone.
pub open spec fn spec_generated_bytes(
    payload: Seq<char>,
    add_logo: bool,
    gradient: bool,
    transparent: bool,
    logo_bytes: Seq<u8>,
    target: int,
) -> Seq<u8> {
    png_bytes(
        target,
        target,
        spec_output_data(qr_matrix(payload), add_logo, gradient, transparent, logo_bytes, target),
    )
}

/// The ghost view of a byte-buffer result: the bytes of a success, the error
/// of a failure.
pub open spec fn spec_result_bytes(r: Result<Vec<u8>, QrError>) -> Result<Seq<u8>, QrError> {
    match r {
        Ok(v) => Ok(v@),
        Err(e) => Err(e),
    }
}

/// The full outcome of `generate`: which error comes on which inputs, if and
/// only if, and the exact bytes of a success. `InvalidInput` marks exactly the
/// empty payload; `EncodingError` exactly a payload that no supported symbol
/// carries; `ImageGenerationError` exactly a rendering fault; everything else
/// succeeds with the image bytes determined by the inputs alone.
pub open spec fn spec_generate_post(
    payload: Seq<char>,
    add_logo: bool,
    gradient: bool,
    transparent: bool,
    logo_bytes: Seq<u8>,
    target: int,
    r: Result<Seq<u8>, QrError>,
) -> bool {
    &&& (r == Err::<Seq<u8>, QrError>(QrError::InvalidInput) <==> payload.len() == 0)
    &&& (r == Err::<Seq<u8>, QrError>(QrError::EncodingError) <==> payload.len() > 0 && !qr_fits(
        payload,
    ))
    &&& (r == Err::<Seq<u8>, QrError>(QrError::ImageGenerationError) <==> payload.len() > 0
        && qr_fits(payload) && spec_render_fails(
        qr_matrix(payload).len() as int,
        add_logo,
        logo_bytes,
        target,
    ))
    &&& (r is Ok ==> r->Ok_0 == spec_generated_bytes(
        payload,
        add_logo,
        gradient,
        transparent,
        logo_bytes,
        target,
    ))
}

/// The interpolation step is bounded: the scaled difference never exceeds the
/// channel difference itself, and the product fits well under the division.
proof fn lemma_lerp_step(diff: int, num: int, den: int)
    requires
        0 <= diff <= 255,
        0 <= num <= den,
        0 < den,
    ensures
        0 <= diff * num <= 255 * den,
        diff * num / den <= diff,
{
    lemma_mul_is_commutative(diff, num);
    lemma_mul_is_commutative(diff, den);
    lemma_mul_inequality(diff, 255, num);
    lemma_mul_is_commutative(255, num);
    lemma_mul_inequality(num, den, diff);
    lemma_mul_inequality(num, den, 255);
    lemma_mul_is_commutative(255, den);
    lemma_div_is_ordered(diff * num, diff * den, den);
    lemma_div_multiples_vanish(diff, den);
    lemma_mul_nonnegative(diff, num);
}

fn lerp_channel(a: u8, b: u8, num: usize, den: usize) -> (r: u8)
    requires
        num <= den,
        den <= 0xFFFF_FFFF,
    ensures
        r == spec_lerp(a, b, num as int, den as int),
{
    if den == 0 {
        return a;
    }
    if a <= b {
        let diff: u64 = (b - a) as u64;
        proof {
            lemma_lerp_step(diff as int, num as int, den as int);
        }
        let step: u64 = diff * (num as u64) / (den as u64);
        a + (step as u8)
    } else {
        let diff: u64 = (a - b) as u64;
        proof {
            lemma_lerp_step(diff as int, num as int, den as int);
        }
        let step: u64 = diff * (num as u64) / (den as u64);
        a - (step as u8)
    }
}

fn background(transparent: bool) -> (p: Rgba)
    ensures
        p == spec_background(transparent),
{
    Rgba { r: 255, g: 255, b: 255, a: if transparent { 0 } else { 255 } }
}

fn foreground(gradient: bool, target: usize, x: usize, y: usize) -> (p: Rgba)
    requires
        x < target,
        y < target,
        2 * target <= 0xFFFF_FFFF,
    ensures
        p == spec_foreground(gradient, target as int, x as int, y as int),
{
    if gradient {
        let den: usize = 2 * (target - 1);
        let num: usize = x + y;
        Rgba {
            r: lerp_channel(GRADIENT_START_R, GRADIENT_END_R, num, den),
            g: lerp_channel(GRADIENT_START_G, GRADIENT_END_G, num, den),
            b: lerp_channel(GRADIENT_START_B, GRADIENT_END_B, num, den),
            a: 255,
        }
    } else {
        Rgba { r: 0, g: 0, b: 0, a: 255 }
    }
}

/// The layout facts behind the scaled grid: the scale is positive, the grid
/// fits the canvas, and the margin leaves room for the whole grid.
proof fn lemma_layout(side: int, target: int)
    requires
        0 < side <= target,
    ensures
        1 <= spec_scale(side, target),
        spec_scale(side, target) * side <= target,
        0 <= spec_margin(side, target),
        spec_margin(side, target) + spec_scale(side, target) * side <= target,
{
    let s = spec_scale(side, target);
    let m = spec_margin(side, target);
    lemma_div_is_ordered(side, target, side);
    lemma_div_by_self(side);
    lemma_fundamental_div_mod(target, side);
    lemma_mod_bound(target, side);
    assert(s * side == side * s) by (nonlinear_arith);
    lemma_fundamental_div_mod(target - s * side, 2);
    lemma_mod_bound(target - s * side, 2);
}

fn canvas_pixel(
    matrix: &SymbolMatrix,
    gradient: bool,
    transparent: bool,
    target: usize,
    scale: usize,
    margin: usize,
    x: usize,
    y: usize,
) -> (p: Rgba)
    requires
        matrix.wf(),
        matrix@.len() <= target,
        2 * target <= 0xFFFF_FFFF,
        scale as int == spec_scale(matrix@.len() as int, target as int),
        margin as int == spec_margin(matrix@.len() as int, target as int),
        x < target,
        y < target,
    ensures
        p == spec_base_pixel(matrix@, gradient, transparent, target as int, x as int, y as int),
{
    let side = matrix.side();
    proof {
        lemma_layout(side as int, target as int);
    }
    let grid: usize = scale * side;
    if x >= margin && x < margin + grid && y >= margin && y < margin + grid {
        let c = (x - margin) / scale;
        let r = (y - margin) / scale;
        proof {
            lemma_multiply_divide_lt((x - margin) as int, scale as int, side as int);
            lemma_multiply_divide_lt((y - margin) as int, scale as int, side as int);
        }
        if matrix.is_dark(r, c) {
            foreground(gradient, target, x, y)
        } else {
            background(transparent)
        }
    } else {
        background(transparent)
    }
}

/// Builds the base canvas: every module of the grid scaled to a square block
/// of pixels, centered by a uniform margin, dark modules in the foreground
/// color and everything else in the background color.
pub fn base_canvas(matrix: &SymbolMatrix, gradient: bool, transparent: bool, target: usize) -> (p:
    Pixmap)
    requires
        matrix.wf(),
        matrix@.len() <= target,
        target <= 0x7FFF_FFFF,
        4 * (target * target) <= usize::MAX,
    ensures
        p.wf(),
        p.width == target,
        p.height == target,
        p.data@ == spec_canvas_data(matrix@, gradient, transparent, target as int),
{
    let ghost gspec = spec_canvas_data(matrix@, gradient, transparent, target as int);
    let side = matrix.side();
    proof {
        lemma_layout(side as int, target as int);
    }
    let scale: usize = target / side;
    let margin: usize = (target - scale * side) / 2;
    let mut data: Vec<u8> = Vec::new();
    let mut y: usize = 0;
    while y < target
        invariant
            matrix.wf(),
            matrix@.len() <= target,
            4 * (target * target) <= usize::MAX,
            2 * target <= 0xFFFF_FFFF,
            scale as int == spec_scale(matrix@.len() as int, target as int),
            margin as int == spec_margin(matrix@.len() as int, target as int),
            y <= target,
            data@.len() == 4 * (y * target),
            gspec == spec_canvas_data(matrix@, gradient, transparent, target as int),
            forall|k: int| 0 <= k < data@.len() ==> data@[k] == gspec[k],
        decreases target - y,
    {
        let mut x: usize = 0;
        proof {
            lemma_mul_inequality(y as int, target as int, target as int);
        }
        while x < target
            invariant
                matrix.wf(),
                matrix@.len() <= target,
                4 * (target * target) <= usize::MAX,
                2 * target <= 0xFFFF_FFFF,
                scale as int == spec_scale(matrix@.len() as int, target as int),
                margin as int == spec_margin(matrix@.len() as int, target as int),
                y < target,
                x <= target,
                data@.len() == 4 * (y * target + x),
                gspec == spec_canvas_data(matrix@, gradient, transparent, target as int),
                forall|k: int| 0 <= k < data@.len() ==> data@[k] == gspec[k],
            decreases target - x,
        {
            let px = canvas_pixel(matrix, gradient, transparent, target, scale, margin, x, y);
            let ghost prev = data@;
            proof {
                lemma_mul_inequality(y as int, target as int - 1, target as int);
                assert((target as int - 1) * target as int + target as int == target as int
                    * target as int) by (nonlinear_arith);
            }
            push_pixel(&mut data, px);
            proof {
                assert forall|k: int| 0 <= k < data@.len() implies data@[k] == gspec[k] by {
                    if k < prev.len() {
                        assert(data@[k] == prev[k]);
                    } else {
                        let c = k - 4 * (y as int * target as int + x as int);
                        lemma_flat_index(target as int, x as int, y as int, c);
                        assert(data@[k] == channel(px, c));
                    }
                }
            }
            x += 1;
        }
        proof {
            lemma_mul_is_distributive_add_other_way(target as int, y as int, 1);
        }
        y += 1;
    }
    proof {
        assert(y * target == target * target) by (nonlinear_arith)
            requires
                y == target,
        ;
        assert(data@ =~= gspec);
    }
    Pixmap { width: target, height: target, data }
}

/// Reads the pixel at `(x, y)`.
pub fn get_pixel(p: &Pixmap, x: usize, y: usize) -> (r: Rgba)
    requires
        p.wf(),
        x < p.width,
        y < p.height,
    ensures
        r == p.pixel(x as int, y as int),
{
    let n = p.data.len();
    proof {
        lemma_mul_inequality(y as int, p.height as int - 1, p.width as int);
        assert((p.height as int - 1) * p.width as int + p.width as int == p.width as int
            * p.height as int) by (nonlinear_arith);
        assert(4 * (y as int * p.width as int + x as int) + 3 < n as int);
    }
    let idx: usize = 4 * (y * p.width + x);
    Rgba { r: p.data[idx], g: p.data[idx + 1], b: p.data[idx + 2], a: p.data[idx + 3] }
}

/// Composes the logo over the canvas: inside the centered box of the logo's
/// size, the logo's pixels fully replace the canvas pixels; every pixel
/// outside the box is unchanged.
pub fn overlay(base: &Pixmap, logo: &Pixmap) -> (r: Pixmap)
    requires
        base.wf(),
        logo.wf(),
        logo.width <= base.width,
        logo.height <= base.height,
    ensures
        r.wf(),
        r.width == base.width,
        r.height == base.height,
        r.data@ == spec_overlay_data(
            base.data@,
            base.width as int,
            base.height as int,
            logo.data@,
            logo.width as int,
            logo.height as int,
        ),
{
    let ghost gspec = spec_overlay_data(
        base.data@,
        base.width as int,
        base.height as int,
        logo.data@,
        logo.width as int,
        logo.height as int,
    );
    let bw = base.width;
    let bh = base.height;
    let lw = logo.width;
    let lh = logo.height;
    proof {
        lemma_fundamental_div_mod((bw - lw) as int, 2);
        lemma_mod_bound((bw - lw) as int, 2);
        lemma_fundamental_div_mod((bh - lh) as int, 2);
        lemma_mod_bound((bh - lh) as int, 2);
    }
    let x0: usize = (bw - lw) / 2;
    let y0: usize = (bh - lh) / 2;
    let mut data: Vec<u8> = Vec::new();
    let mut y: usize = 0;
    while y < bh
        invariant
            base.wf(),
            logo.wf(),
            logo.width <= base.width,
            logo.height <= base.height,
            bw == base.width,
            bh == base.height,
            lw == logo.width,
            lh == logo.height,
            x0 as int == (bw as int - lw as int) / 2,
            y0 as int == (bh as int - lh as int) / 2,
            x0 + lw <= bw,
            y0 + lh <= bh,
            y <= bh,
            data@.len() == 4 * (y * bw),
            gspec == spec_overlay_data(
                base.data@,
                base.width as int,
                base.height as int,
                logo.data@,
                logo.width as int,
                logo.height as int,
            ),
            forall|k: int| 0 <= k < data@.len() ==> data@[k] == gspec[k],
        decreases bh - y,
    {
        let mut x: usize = 0;
        proof {
            lemma_mul_inequality(y as int, bh as int, bw as int);
        }
        while x < bw
            invariant
                base.wf(),
                logo.wf(),
                logo.width <= base.width,
                logo.height <= base.height,
                bw == base.width,
                bh == base.height,
                lw == logo.width,
                lh == logo.height,
                x0 as int == (bw as int - lw as int) / 2,
                y0 as int == (bh as int - lh as int) / 2,
                x0 + lw <= bw,
                y0 + lh <= bh,
                y < bh,
                x <= bw,
                data@.len() == 4 * (y * bw + x),
                gspec == spec_overlay_data(
                    base.data@,
                    base.width as int,
                    base.height as int,
                    logo.data@,
                    logo.width as int,
                    logo.height as int,
                ),
                forall|k: int| 0 <= k < data@.len() ==> data@[k] == gspec[k],
            decreases bw - x,
        {
            let px: Rgba = if x >= x0 && x < x0 + lw && y >= y0 && y < y0 + lh {
                get_pixel(logo, x - x0, y - y0)
            } else {
                get_pixel(base, x, y)
            };
            let ghost prev = data@;
            proof {
                lemma_mul_inequality(y as int, bh as int - 1, bw as int);
                assert((bh as int - 1) * bw as int + bw as int == bw as int * bh as int)
                    by (nonlinear_arith);
            }
            push_pixel(&mut data, px);
            proof {
                assert forall|k: int| 0 <= k < data@.len() implies data@[k] == gspec[k] by {
                    if k < prev.len() {
                        assert(data@[k] == prev[k]);
                    } else {
                        let c = k - 4 * (y as int * bw as int + x as int);
                        lemma_flat_index(bw as int, x as int, y as int, c);
                        assert(data@[k] == channel(px, c));
                    }
                }
            }
            x += 1;
        }
        proof {
            lemma_mul_is_distributive_add_other_way(bw as int, y as int, 1);
        }
        y += 1;
    }
    proof {
        assert(y * bw == bw * bh) by (nonlinear_arith)
            requires
                y == bh,
        ;
        assert(data@ =~= gspec);
    }
    Pixmap { width: bw, height: bh, data }
}

/// Rasterizes the symbol to a PNG image of exactly
/// `target_size_px` by `target_size_px` pixels, applying the gradient,
/// transparency and logo options. Fails, always with `ImageGenerationError`,
/// exactly when the canvas is smaller than the module grid, the canvas side
/// is over the PNG dimension limit, the pixel buffer would not fit in memory,
/// or a requested logo does not decode; on every other input it succeeds, and
/// the bytes are the PNG encoding of the composed canvas, a function of the
/// inputs alone.
pub fn render(
    matrix: &SymbolMatrix,
    options: &RenderOptions,
    logo: &[u8],
    target_size_px: usize,
) -> (r: Result<Vec<u8>, QrError>)
    requires
        matrix.wf(),
    ensures
        r is Err <==> spec_render_fails(
            matrix@.len() as int,
            options.add_logo,
            logo@,
            target_size_px as int,
        ),
        target_size_px < matrix@.len() ==> r == Err::<Vec<u8>, QrError>(
            QrError::ImageGenerationError,
        ),
        r is Err ==> r->Err_0 == QrError::ImageGenerationError,
        r is Ok ==> matrix@.len() <= target_size_px && r->Ok_0@ == png_bytes(
            target_size_px as int,
            target_size_px as int,
            spec_output_data(
                matrix@,
                options.add_logo,
                options.add_gradient,
                options.spec_transparent(),
                logo@,
                target_size_px as int,
            ),
        ),
{
    let side = matrix.side();
    if target_size_px < side {
        return Err(QrError::ImageGenerationError);
    }
    if target_size_px > 0x7FFF_FFFF {
        return Err(QrError::ImageGenerationError);
    }
    proof {
        lemma_fundamental_div_mod(usize::MAX as int, 4);
        lemma_mod_bound(usize::MAX as int, 4);
    }
    let area = match target_size_px.checked_mul(target_size_px) {
        Some(a) => a,
        None => {
            return Err(QrError::ImageGenerationError);
        },
    };
    if area > usize::MAX / 4 {
        return Err(QrError::ImageGenerationError);
    }
    let base = base_canvas(matrix, options.add_gradient, options.wants_transparency(), target_size_px);
    let composed: Pixmap = if options.add_logo {
        let box_px: usize = target_size_px / LOGO_FRACTION;
        proof {
            lemma_div_is_ordered(21, target_size_px as int, 4);
            lemma_multiply_divide_lt(target_size_px as int, 4, target_size_px as int);
        }
        let decoded = match decode_logo(logo) {
            Ok(p) => p,
            Err(e) => {
                return Err(e);
            },
        };
        let resized = resize_logo(&decoded, box_px, box_px);
        overlay(&base, &resized)
    } else {
        base
    };
    encode_png(&composed)
}

/// Encodes the payload and renders the symbol in one step: the boundary
/// contract of the whole pipeline, `spec_generate_post`. Fails with
/// `InvalidInput` exactly on an empty payload, with `EncodingError` exactly
/// when the payload cannot be carried by any supported symbol, and with
/// `ImageGenerationError` exactly for rendering faults, an undersized canvas
/// included; on every other input it succeeds, and the bytes are the PNG
/// encoding of the styled symbol of the payload, a function of the inputs
/// alone. The last clause owes success outright on a payload within the
/// guaranteed byte capacity, a canvas that fits the largest symbol within the
/// PNG and memory limits, and a decodable logo where one is requested.
pub fn generate(
    payload: &str,
    options: &RenderOptions,
    logo: &[u8],
    target_size_px: usize,
) -> (r: Result<Vec<u8>, QrError>)
    ensures
        spec_generate_post(
            payload@,
            options.add_logo,
            options.add_gradient,
            options.spec_transparent(),
            logo@,
            target_size_px as int,
            spec_result_bytes(r),
        ),
        payload@.len() == 0 <==> r == Err::<Vec<u8>, QrError>(QrError::InvalidInput),
        payload@.len() > crate::matrix::MAX_CAPACITY_CHARS ==> r == Err::<Vec<u8>, QrError>(
            QrError::EncodingError,
        ),
        r is Ok ==> r->Ok_0@ == spec_generated_bytes(
            payload@,
            options.add_logo,
            options.add_gradient,
            options.spec_transparent(),
            logo@,
            target_size_px as int,
        ),
        payload@.len() > 0 && payload.spec_bytes().len() <= crate::matrix::SAFE_CAPACITY_BYTES
            && 177 <= target_size_px <= 0x7FFF_FFFF && target_size_px * target_size_px
            <= usize::MAX / 4 && (options.add_logo ==> png_decodable(logo@)) ==> r is Ok,
{
    let matrix = match crate::matrix::encode(payload) {
        Ok(m) => m,
        Err(e) => {
            return Err(e);
        },
    };
    render(&matrix, options, logo, target_size_px)
}

} // verus!
