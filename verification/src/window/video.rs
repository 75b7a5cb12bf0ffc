//! How a decoded frame of each variant is laid out for the GPU.
use vstd::prelude::*;

use crate::frameconv::filetypes::VideoVariant;

verus! {

/// The block-compressed texture formats that decoded frames are uploaded as.
#[derive(Debug, Clone, Copy, PartialEq, Eq, Structural)]
pub enum TextureKind {
    /// BC1 (DXT1), RGBA, normalised.
    Bc1RgbaUnorm,
    /// BC3 (DXT5), RGBA, normalised.
    Bc3RgbaUnorm,
    /// BC6H, RGB, unsigned float.
    Bc6hRgbUfloat,
}

/// Bytes in one 4x4 block of the variant's texture format.
pub open spec fn block_bytes(v: VideoVariant) -> int {
    match v {
        VideoVariant::HAP => 8,
        _ => 16,
    }
}

/// Bytes in one row of 4x4 blocks of a frame `width` pixels wide: one block
/// per whole four columns.
pub open spec fn spec_bytes_per_row(v: VideoVariant, width: u32) -> int {
    (width / 4) as int * block_bytes(v)
}

/// The bytes per row of blocks of a frame of a known variant.
pub fn bytes_per_row(variant: VideoVariant, width: u32) -> (res: u32)
    requires
        variant != VideoVariant::UNKOWN,
        spec_bytes_per_row(variant, width) <= u32::MAX,
    ensures
        res == spec_bytes_per_row(variant, width),
{
    match variant {
        VideoVariant::HAP => (width / 4) * 8,
        VideoVariant::HAPALPHA | VideoVariant::HAPQ => (width / 4) * 16,
        VideoVariant::NOTCHLC => (width / 4) * 16,
        VideoVariant::UNKOWN => 0,
    }
}

/// The texture format of each known variant.
pub open spec fn spec_texture_format(v: VideoVariant) -> TextureKind {
    match v {
        VideoVariant::HAP => TextureKind::Bc1RgbaUnorm,
        VideoVariant::NOTCHLC => TextureKind::Bc6hRgbUfloat,
        _ => TextureKind::Bc3RgbaUnorm,
    }
}

/// The texture format that frames of a known variant are uploaded as.
pub fn texture_format(variant: VideoVariant) -> (res: TextureKind)
    requires
        variant != VideoVariant::UNKOWN,
    ensures
        res == spec_texture_format(variant),
{
    match variant {
        VideoVariant::HAP => TextureKind::Bc1RgbaUnorm,
        VideoVariant::HAPALPHA => TextureKind::Bc3RgbaUnorm,
        VideoVariant::HAPQ => TextureKind::Bc3RgbaUnorm,
        VideoVariant::NOTCHLC => TextureKind::Bc6hRgbUfloat,
        VideoVariant::UNKOWN => TextureKind::Bc3RgbaUnorm,
    }
}

/// The shader flag that selects YCoCg-to-RGB conversion: set for HAP Q only.
pub fn ycocg_flag(variant: VideoVariant) -> (res: u32)
    ensures
        res == if variant == VideoVariant::HAPQ {
            1u32
        } else {
            0u32
        },
{
    if variant == VideoVariant::HAPQ {
        1
    } else {
        0
    }
}

/// Bytes in one 4x4 block of each block-compressed format: BC1 packs a block
/// into 8 bytes, BC3 and BC6H into 16.
pub open spec fn format_block_bytes(k: TextureKind) -> int {
    match k {
        TextureKind::Bc1RgbaUnorm => 8,
        TextureKind::Bc3RgbaUnorm => 16,
        TextureKind::Bc6hRgbUfloat => 16,
    }
}

/// A frame's row pitch is one block of its texture format per four columns:
/// the rows that `bytes_per_row` gives are exactly as long as the blocks of
/// the format that `texture_format` uploads the frame as.
pub proof fn lemma_row_pitch_matches_texture_format(v: VideoVariant, width: u32)
    requires
        v != VideoVariant::UNKOWN,
    ensures
        spec_bytes_per_row(v, width) == (width / 4) as int * format_block_bytes(spec_texture_format(v)),
{
}

} // verus!
