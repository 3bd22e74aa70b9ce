use vstd::prelude::*;

use vstd::arithmetic::mul::lemma_mul_inequality;

use crate::errors::QrError;
use crate::options::RenderOptions;
use crate::pixmap::lemma_flat_index;
use crate::render::{
    spec_background, spec_base_pixel, spec_covered_dark, spec_generate_post, spec_in_logo_box,
    spec_output_data,
};

verus! {

/// Law: generation is deterministic. The whole outcome of `generate` -- the
/// choice of variant, the error of a failure, and the bytes of a success --
/// is a function of the payload, the three style switches, the logo bytes and
/// the target size alone, so two runs with the same payload and equivalent
/// options return identical results: the identical error, or byte-identical
/// images of the identical matrix.
pub proof fn lemma_generate_deterministic(
    payload: Seq<char>,
    o1: RenderOptions,
    o2: RenderOptions,
    logo_bytes: Seq<u8>,
    target: int,
    r1: Result<Seq<u8>, QrError>,
    r2: Result<Seq<u8>, QrError>,
)
    requires
        o1.add_logo == o2.add_logo,
        o1.add_gradient == o2.add_gradient,
        o1.spec_transparent() == o2.spec_transparent(),
        spec_generate_post(
            payload,
            o1.add_logo,
            o1.add_gradient,
            o1.spec_transparent(),
            logo_bytes,
            target,
            r1,
        ),
        spec_generate_post(
            payload,
            o2.add_logo,
            o2.add_gradient,
            o2.spec_transparent(),
            logo_bytes,
            target,
            r2,
        ),
    ensures
        r1 == r2,
{
    if r1 is Err {
        match r1->Err_0 {
            QrError::InvalidInput => {},
            QrError::EncodingError => {},
            QrError::ImageGenerationError => {},
        }
    }
    if r2 is Err {
        match r2->Err_0 {
            QrError::InvalidInput => {},
            QrError::EncodingError => {},
            QrError::ImageGenerationError => {},
        }
    }
}

/// Law: the logo changes only the centered logo box. For any pixel outside
/// that box, every channel byte of the output is the same whether the logo
/// was composed or not.
pub proof fn lemma_logo_changes_only_center(
    g: Seq<Seq<bool>>,
    gradient: bool,
    transparent: bool,
    logo_bytes: Seq<u8>,
    target: int,
    x: int,
    y: int,
    c: int,
)
    requires
        0 <= x < target,
        0 <= y < target,
        0 <= c < 4,
        !spec_in_logo_box(target, x, y),
    ensures
        spec_output_data(g, true, gradient, transparent, logo_bytes, target)[4 * (y * target + x)
            + c] == spec_output_data(g, false, gradient, transparent, logo_bytes, target)[4 * (y
            * target + x) + c],
{
    lemma_mul_inequality(y, target - 1, target);
    assert((target - 1) * target + target == target * target) by (nonlinear_arith);
    lemma_flat_index(target, x, y, c);
}

/// Law: the transparency switch changes only the alpha channel of background
/// pixels. A pixel covered by a dark module is identical under both settings;
/// every other pixel keeps its white color and goes from fully opaque
/// (alpha 255) to fully transparent (alpha 0).
pub proof fn lemma_transparency_only_background_alpha(
    g: Seq<Seq<bool>>,
    gradient: bool,
    target: int,
    x: int,
    y: int,
)
    ensures
        spec_covered_dark(g, target, x, y) ==> spec_base_pixel(g, gradient, true, target, x, y)
            == spec_base_pixel(g, gradient, false, target, x, y),
        !spec_covered_dark(g, target, x, y) ==> {
            let with_alpha = spec_base_pixel(g, gradient, true, target, x, y);
            let opaque = spec_base_pixel(g, gradient, false, target, x, y);
            &&& with_alpha.a == 0
            &&& opaque.a == 255
            &&& with_alpha.r == opaque.r
            &&& with_alpha.g == opaque.g
            &&& with_alpha.b == opaque.b
            &&& with_alpha == spec_background(true)
            &&& opaque == spec_background(false)
        },
{
}

} // verus!
