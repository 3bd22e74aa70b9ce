use vstd::prelude::*;

use vstd::arithmetic::div_mod::lemma_fundamental_div_mod_converse;

verus! {

/// One pixel, one byte per channel.
#[derive(Clone, Copy, Debug, PartialEq, Eq, Structural)]
pub struct Rgba {
    pub r: u8,
    pub g: u8,
    pub b: u8,
    pub a: u8,
}

/// The channel of a pixel at byte offset `c`: red, green, blue, alpha in
/// order.
pub open spec fn channel(p: Rgba, c: int) -> u8 {
    if c == 0 {
        p.r
    } else if c == 1 {
        p.g
    } else if c == 2 {
        p.b
    } else {
        p.a
    }
}

/// The pixel at `(x, y)` of a row-major RGBA byte sequence whose rows are `w`
/// pixels wide.
pub open spec fn pixel_at(data: Seq<u8>, w: int, x: int, y: int) -> Rgba {
    Rgba {
        r: data[4 * (y * w + x)],
        g: data[4 * (y * w + x) + 1],
        b: data[4 * (y * w + x) + 2],
        a: data[4 * (y * w + x) + 3],
    }
}

/// A raster image: row-major RGBA bytes, four per pixel.
#[derive(Debug)]
pub struct Pixmap {
    pub width: usize,
    pub height: usize,
    pub data: Vec<u8>,
}

impl Pixmap {
    /// The byte buffer holds exactly four bytes per pixel.
    pub open spec fn wf(&self) -> bool {
        self.data@.len() == 4 * (self.width * self.height)
    }

    /// The pixel at `(x, y)`.
    pub open spec fn pixel(&self, x: int, y: int) -> Rgba {
        pixel_at(self.data@, self.width as int, x, y)
    }
}

/// Appends the four channel bytes of one pixel.
pub fn push_pixel(data: &mut Vec<u8>, p: Rgba)
    ensures
        final(data)@ == old(data)@ + seq![p.r, p.g, p.b, p.a],
{
    data.push(p.r);
    data.push(p.g);
    data.push(p.b);
    data.push(p.a);
    proof {
        assert(data@ =~= old(data)@ + seq![p.r, p.g, p.b, p.a]);
    }
}

/// In a row-major RGBA buffer of row width `w`, the flat byte index built
/// from pixel `(x, y)` and channel `c` decomposes back into `x`, `y` and `c`
/// by division and remainder.
pub proof fn lemma_flat_index(w: int, x: int, y: int, c: int)
    requires
        0 <= x < w,
        0 <= y,
        0 <= c < 4,
    ensures
        (4 * (y * w + x) + c) / 4 == y * w + x,
        (4 * (y * w + x) + c) % 4 == c,
        (y * w + x) / w == y,
        (y * w + x) % w == x,
{
    lemma_fundamental_div_mod_converse(4 * (y * w + x) + c, 4, y * w + x, c);
    lemma_fundamental_div_mod_converse(y * w + x, w, y, x);
}

} // verus!
