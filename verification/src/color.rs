//! Colors packed as `0xRRGGBB` and the materials that carry them.
use vstd::prelude::*;

verus! {

/// A color packed as `0xRRGGBB` in the low 24 bits.
pub type Color = u32;

/// The red, green and blue bytes of a packed color, in that order.
pub open spec fn spec_channels(color: Color) -> (u8, u8, u8) {
    (((color / 0x10000) % 0x100) as u8, ((color / 0x100) % 0x100) as u8, (color % 0x100) as u8)
}

/// Splits a packed color into its red, green and blue bytes, the three
/// channels a renderer scales to `[0, 1]`.
pub fn color_channels(color: Color) -> (rgb: (u8, u8, u8))
    ensures
        rgb == spec_channels(color),
        rgb.0 * 0x10000 + rgb.1 * 0x100 + rgb.2 == color % 0x100_0000,
{
    let r = (color >> 16) & 0xFF;
    let g = (color >> 8) & 0xFF;
    let b = color & 0xFF;
    assert(r == (color / 0x10000) % 0x100 && g == (color / 0x100) % 0x100 && b == color % 0x100
        && r < 0x100 && g < 0x100 && b < 0x100) by (bit_vector)
        requires
            r == (color >> 16) & 0xFF,
            g == (color >> 8) & 0xFF,
            b == color & 0xFF,
    ;
    assert(((color >> 16) & 0xFF) * 0x10000 + ((color >> 8) & 0xFF) * 0x100 + (color & 0xFF)
        == color % 0x100_0000) by (bit_vector);
    (r as u8, g as u8, b as u8)
}

/// How a visual object is drawn.
#[derive(Clone, Copy, Debug, PartialEq, Eq, Structural)]
pub enum Material {
    /// Lines of one color.
    LineBasic { color: Color },
}

impl Material {
    /// The color that the material draws with.
    pub fn color(&self) -> (c: Color)
        ensures
            c == self->color,
    {
        match self {
            Material::LineBasic { color } => *color,
        }
    }
}

} // verus!
