//! Texture bitmaps from the `image` crate, held opaquely. The bitmap's pixel
//! grid and its dimensions are given names, and the two calls the sampler
//! needs carry contracts over those names.
use image::GenericImageView;
use vstd::prelude::*;

verus! {

#[verifier::external_type_specification]
#[verifier::external_body]
pub struct ExDynamicImage(image::DynamicImage);

/// Width in pixels of a texture bitmap.
pub uninterp spec fn tex_width(t: image::DynamicImage) -> u32;

/// Height in pixels of a texture bitmap.
pub uninterp spec fn tex_height(t: image::DynamicImage) -> u32;

/// The pixel grid of a texture bitmap: gamma-encoded channel values keyed by
/// column and row, indexed from the top left.
pub uninterp spec fn tex_pixels(t: image::DynamicImage) -> Map<(u32, u32), (u8, u8, u8, u8)>;

/// Relies on `image::GenericImageView::width` and `::height` for
/// `DynamicImage`: the bitmap's dimensions in pixels.
#[verifier::external_body]
pub fn tex_dimensions(t: &image::DynamicImage) -> (r: (u32, u32))
    ensures
        r.0 == tex_width(*t),
        r.1 == tex_height(*t),
{
    (t.width(), t.height())
}

/// Relies on `image::GenericImageView::get_pixel` for `DynamicImage`: the
/// RGBA channels of the pixel at (x, y), indexed from the top left. The call
/// panics out of bounds, so the bounds are required here.
#[verifier::external_body]
pub fn tex_get_pixel(t: &image::DynamicImage, x: u32, y: u32) -> (r: (u8, u8, u8, u8))
    requires
        x < tex_width(*t),
        y < tex_height(*t),
    ensures
        r == tex_pixels(*t)[(x, y)],
{
    let p = t.get_pixel(x, y);
    (p.0[0], p.0[1], p.0[2], p.0[3])
}

} // verus!
