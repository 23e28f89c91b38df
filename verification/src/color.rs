//! A color with 8 bit components, stored packed in one integer.

use vstd::prelude::*;

verus! {

/// A color with 8 bit components.
///
/// Stored internally as a single big-endian-packed integer: red in the top
/// byte, then green, blue, and alpha.
#[derive(Clone, Copy, PartialEq, Eq, Structural, Debug)]
pub struct Color(u32);

impl Color {
    /// The red component.
    pub closed spec fn spec_red(&self) -> u8 {
        (self.0 >> 24) as u8
    }

    /// The green component.
    pub closed spec fn spec_green(&self) -> u8 {
        (self.0 >> 16) as u8
    }

    /// The blue component.
    pub closed spec fn spec_blue(&self) -> u8 {
        (self.0 >> 8) as u8
    }

    /// The alpha component.
    pub closed spec fn spec_alpha(&self) -> u8 {
        self.0 as u8
    }

    /// A fully opaque color from its three components.
    pub fn rgb(r: u8, g: u8, b: u8) -> (c: Color)
        ensures
            c.spec_red() == r,
            c.spec_green() == g,
            c.spec_blue() == b,
            c.spec_alpha() == u8::MAX,
    {
        Color::rgba(r, g, b, u8::MAX)
    }

    /// A color from its four components.
    pub fn rgba(r: u8, g: u8, b: u8, a: u8) -> (c: Color)
        ensures
            c.spec_red() == r,
            c.spec_green() == g,
            c.spec_blue() == b,
            c.spec_alpha() == a,
    {
        let rw = r as u32;
        let gw = g as u32;
        let bw = b as u32;
        let aw = a as u32;
        let v = rw << 24 | gw << 16 | bw << 8 | aw;
        proof {
            assert(((rw << 24 | gw << 16 | bw << 8 | aw) >> 24) as u8 == rw as u8)
                by (bit_vector)
                requires
                    rw < 256 && gw < 256 && bw < 256 && aw < 256,
            ;
            assert(((rw << 24 | gw << 16 | bw << 8 | aw) >> 16) as u8 == gw as u8)
                by (bit_vector)
                requires
                    rw < 256 && gw < 256 && bw < 256 && aw < 256,
            ;
            assert(((rw << 24 | gw << 16 | bw << 8 | aw) >> 8) as u8 == bw as u8)
                by (bit_vector)
                requires
                    rw < 256 && gw < 256 && bw < 256 && aw < 256,
            ;
            assert((rw << 24 | gw << 16 | bw << 8 | aw) as u8 == aw as u8) by (bit_vector)
                requires
                    rw < 256 && gw < 256 && bw < 256 && aw < 256,
            ;
        }
        Color(v)
    }

    /// Gets the red component.
    pub fn red(&self) -> (r: u8)
        ensures
            r == self.spec_red(),
    {
        (self.0 >> 24) as u8
    }

    /// Gets the green component.
    pub fn green(&self) -> (r: u8)
        ensures
            r == self.spec_green(),
    {
        (self.0 >> 16) as u8
    }

    /// Gets the blue component.
    pub fn blue(&self) -> (r: u8)
        ensures
            r == self.spec_blue(),
    {
        (self.0 >> 8) as u8
    }

    /// Gets the alpha component.
    pub fn alpha(&self) -> (r: u8)
        ensures
            r == self.spec_alpha(),
    {
        self.0 as u8
    }
}

} // verus!
