use vstd::prelude::*;

verus! {

/// Style options for one render call. `add_transparency` is optional at the
/// boundary; an absent value means an opaque background.
#[derive(Clone, Copy, Debug)]
pub struct RenderOptions {
    pub add_logo: bool,
    pub add_gradient: bool,
    pub add_transparency: Option<bool>,
}

impl RenderOptions {
    /// True when the caller asked for a transparent background.
    pub open spec fn spec_transparent(&self) -> bool {
        self.add_transparency == Some(true)
    }

    pub fn wants_transparency(&self) -> (r: bool)
        ensures
            r == self.spec_transparent(),
    {
        match self.add_transparency {
            Some(true) => true,
            _ => false,
        }
    }
}

/// Picks the logo asset matching the transparency option: the variant with a
/// transparent background when transparency is requested, the opaque one
/// otherwise.
pub fn select_logo<'a>(
    options: &RenderOptions,
    opaque_logo: &'a [u8],
    transparent_logo: &'a [u8],
) -> (r: &'a [u8])
    ensures
        r@ == (if options.spec_transparent() {
            transparent_logo@
        } else {
            opaque_logo@
        }),
{
    if options.wants_transparency() {
        transparent_logo
    } else {
        opaque_logo
    }
}

} // verus!
