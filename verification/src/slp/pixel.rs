use std::collections::HashMap;
use vstd::prelude::*;

use crate::util::pixel::RGBAConvertible;

verus! {

/// Pixel type in an SLP frame.
#[derive(Clone, Copy, Debug, PartialEq, Eq, Structural)]
pub enum SLPPixelType {
    /// 8-bit palette index
    Palette,
    /// Shadow color
    Shadow,
    /// Transparency
    Transparent,
    /// non-outline Player color
    Player,
    /// Player color outline color
    Special1,
    /// Black outline color
    Special2,
    /// Shadow color used in SLPv4
    ShadowV4,
    /// non-outline Player color used in SLPv4
    PlayerV4,
}

/// Pixel in an SLP frame using palette indices for colors.
#[derive(Clone, Copy, Debug, PartialEq, Eq, Structural)]
pub struct PalettePixel {
    /// Pixel type
    pub pixel_type: SLPPixelType,
    /// Palette index
    pub index: u8,
}

/// The RGBA bytes a palette pixel resolves to when no palette is supplied.
pub open spec fn spec_pixel_rgba(p: PalettePixel) -> Seq<u8> {
    match p.pixel_type {
        SLPPixelType::Palette => seq![p.index, p.index, p.index, 255u8],
        SLPPixelType::Transparent => seq![0u8, 0u8, 0u8, 0u8],
        SLPPixelType::Shadow => seq![0u8, 0u8, 0u8, 100u8],
        SLPPixelType::ShadowV4 => seq![0u8, 0u8, 0u8, 100u8],
        SLPPixelType::Player => seq![0u8, p.index, 0u8, 254u8],
        SLPPixelType::PlayerV4 => seq![0u8, p.index, 0u8, 254u8],
        SLPPixelType::Special1 => seq![0u8, 0u8, 0u8, 252u8],
        SLPPixelType::Special2 => seq![0u8, 0u8, 0u8, 250u8],
    }
}

impl PalettePixel {
    /// Create a new palette pixel.
    pub fn new(pixel_type: SLPPixelType, index: u8) -> (p: Self)
        ensures
            p.pixel_type == pixel_type,
            p.index == index,
    {
        Self { pixel_type, index }
    }
}

impl RGBAConvertible for PalettePixel {
    fn to_rgba(&self, _lookup: HashMap<usize, [u8; 4]>) -> (rgba: [u8; 4])
        ensures
            rgba@ == spec_pixel_rgba(*self),
    {
        let rgba: [u8; 4] = match self.pixel_type {
            SLPPixelType::Palette => [self.index, self.index, self.index, 255],
            SLPPixelType::Transparent => [0, 0, 0, 0],
            SLPPixelType::Shadow => [0, 0, 0, 100],
            SLPPixelType::ShadowV4 => [0, 0, 0, 100],
            SLPPixelType::Player => [0, self.index, 0, 254],
            SLPPixelType::PlayerV4 => [0, self.index, 0, 254],
            SLPPixelType::Special1 => [0, 0, 0, 252],
            SLPPixelType::Special2 => [0, 0, 0, 250],
        };
        proof {
            assert(rgba@ =~= spec_pixel_rgba(*self));
        }
        rgba
    }
}

/// Pixel in an SLP frame using RGBA colors.
#[derive(Clone, Copy, Debug, PartialEq, Eq, Structural)]
pub struct RGBAPixel {
    /// Pixel type
    pub pixel_type: SLPPixelType,
    /// Red color component
    pub r: u8,
    /// Green color component
    pub g: u8,
    /// Blue color component
    pub b: u8,
    /// Alpha color component
    pub a: u8,
}

impl RGBAPixel {
    /// Create a new RGBA pixel.
    pub fn new(pixel_type: SLPPixelType, r: u8, g: u8, b: u8, a: u8) -> (p: Self)
        ensures
            p.pixel_type == pixel_type,
            p.r == r,
            p.g == g,
            p.b == b,
            p.a == a,
    {
        Self { pixel_type, r, g, b, a }
    }
}

} // verus!
