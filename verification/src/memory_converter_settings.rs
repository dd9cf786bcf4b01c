//! Settings for the pixel preprocessing / memory converter unit on the
//! controller.
//!
//! The three settings collapse into a single 16-bit argument word,
//! `(endianness << 8) | (bits_per_pixel << 4) | rotation`, passed with every
//! image load command.

use vstd::prelude::*;

verus! {

/// Endianness of the pixel data sent to the controller.
#[derive(Clone, Copy, PartialEq, Eq, Structural, Debug)]
pub enum MemoryConverterEndianness {
    /// pixel data is little endian
    LittleEndian,
    /// pixel data is big endian
    BigEndian,
}

impl MemoryConverterEndianness {
    /// The controller's encoding of this setting.
    pub open spec fn spec_value(self) -> u16 {
        match self {
            MemoryConverterEndianness::LittleEndian => 0,
            MemoryConverterEndianness::BigEndian => 1,
        }
    }
}

/// Number of bits that encode one pixel's gray level in the data sent to the
/// controller.
#[derive(Clone, Copy, PartialEq, Eq, Structural, Debug)]
pub enum MemoryConverterBitPerPixel {
    /// each pixel value is given by 2 bits
    BitsPerPixel2,
    /// each pixel value is given by 3 bits
    BitsPerPixel3,
    /// each pixel value is given by 4 bits
    BitsPerPixel4,
    /// each pixel value is given by 8 bits
    BitsPerPixel8,
}

impl MemoryConverterBitPerPixel {
    /// The controller's encoding of this setting.
    pub open spec fn spec_value(self) -> u16 {
        match self {
            MemoryConverterBitPerPixel::BitsPerPixel2 => 0,
            MemoryConverterBitPerPixel::BitsPerPixel3 => 1,
            MemoryConverterBitPerPixel::BitsPerPixel4 => 2,
            MemoryConverterBitPerPixel::BitsPerPixel8 => 3,
        }
    }
}

/// The memory converter supports rotating the written pixel data.
#[derive(Clone, Copy, PartialEq, Eq, Structural, Debug)]
pub enum MemoryConverterRotation {
    /// don't rotate the image
    Rotate0,
    /// rotate the image by 90 degrees
    Rotate90,
    /// rotate the image by 180 degrees
    Rotate180,
    /// rotate the image by 270 degrees
    Rotate270,
}

impl MemoryConverterRotation {
    /// The controller's encoding of this setting.
    pub open spec fn spec_value(self) -> u16 {
        match self {
            MemoryConverterRotation::Rotate0 => 0,
            MemoryConverterRotation::Rotate90 => 1,
            MemoryConverterRotation::Rotate180 => 2,
            MemoryConverterRotation::Rotate270 => 3,
        }
    }
}

/// Memory converter settings: pixel data sent by the load image commands is
/// converted by the controller according to these.
#[derive(Clone, Copy, PartialEq, Eq, Structural, Debug)]
pub struct MemoryConverterSetting {
    /// pixel data endianness
    pub endianness: MemoryConverterEndianness,
    /// encoding of each pixel
    pub bit_per_pixel: MemoryConverterBitPerPixel,
    /// image rotation setting
    pub rotation: MemoryConverterRotation,
}

impl MemoryConverterSetting {
    /// The single argument word the controller expects:
    /// `(endianness << 8) | (bits_per_pixel << 4) | rotation`.
    pub open spec fn spec_arg(self) -> u16 {
        (self.endianness.spec_value() * 0x100 + self.bit_per_pixel.spec_value() * 0x10
            + self.rotation.spec_value()) as u16
    }

    /// Collapse the settings into the controller's argument word.
    pub fn into_arg(self) -> (r: u16)
        ensures
            r == self.spec_arg(),
    {
        let endianness: u16 = match self.endianness {
            MemoryConverterEndianness::LittleEndian => 0,
            MemoryConverterEndianness::BigEndian => 1,
        };
        let bit_per_pixel: u16 = match self.bit_per_pixel {
            MemoryConverterBitPerPixel::BitsPerPixel2 => 0,
            MemoryConverterBitPerPixel::BitsPerPixel3 => 1,
            MemoryConverterBitPerPixel::BitsPerPixel4 => 2,
            MemoryConverterBitPerPixel::BitsPerPixel8 => 3,
        };
        let rotation: u16 = match self.rotation {
            MemoryConverterRotation::Rotate0 => 0,
            MemoryConverterRotation::Rotate90 => 1,
            MemoryConverterRotation::Rotate180 => 2,
            MemoryConverterRotation::Rotate270 => 3,
        };
        endianness * 0x100 + bit_per_pixel * 0x10 + rotation
    }
}

impl Default for MemoryConverterSetting {
    /// Little-endian, 4 bits per pixel, no rotation.
    fn default() -> (r: Self)
        ensures
            r == (MemoryConverterSetting {
                endianness: MemoryConverterEndianness::LittleEndian,
                bit_per_pixel: MemoryConverterBitPerPixel::BitsPerPixel4,
                rotation: MemoryConverterRotation::Rotate0,
            }),
    {
        MemoryConverterSetting {
            endianness: MemoryConverterEndianness::LittleEndian,
            bit_per_pixel: MemoryConverterBitPerPixel::BitsPerPixel4,
            rotation: MemoryConverterRotation::Rotate0,
        }
    }
}

} // verus!
