use vstd::prelude::*;

verus! {

/// The texture-compressed codecs the player recognises, identified by the
/// four-character code that the container stores as the stream's codec tag.
#[derive(Debug, Clone, Copy, PartialEq, Eq, Structural)]
pub enum VideoVariant {
    HAP,
    HAPALPHA,
    HAPQ,
    NOTCHLC,
    UNKOWN,
}

/// Codec tag `Hap1` (little-endian four-character code).
pub const HAP_TAG: u32 = 0x31706148;
/// Codec tag `Hap5`.
pub const HAPALPHA_TAG: u32 = 0x35706148;
/// Codec tag `HapY`.
pub const HAPQ_TAG: u32 = 0x59706148;
/// Codec tag `NTLC`.
pub const NOTCHLC_TAG: u32 = 0x434C544E;

/// The codec tag that identifies a variant; `None` for the unknown variant.
pub open spec fn spec_codec_tag(v: VideoVariant) -> Option<u32> {
    match v {
        VideoVariant::HAP => Some(HAP_TAG),
        VideoVariant::HAPALPHA => Some(HAPALPHA_TAG),
        VideoVariant::HAPQ => Some(HAPQ_TAG),
        VideoVariant::NOTCHLC => Some(NOTCHLC_TAG),
        VideoVariant::UNKOWN => None,
    }
}

/// The variant that a codec tag names; every other tag is `UNKOWN`.
pub open spec fn spec_variant_from_codec_tag(tag: u32) -> VideoVariant {
    if tag == HAP_TAG {
        VideoVariant::HAP
    } else if tag == HAPALPHA_TAG {
        VideoVariant::HAPALPHA
    } else if tag == HAPQ_TAG {
        VideoVariant::HAPQ
    } else if tag == NOTCHLC_TAG {
        VideoVariant::NOTCHLC
    } else {
        VideoVariant::UNKOWN
    }
}

impl VideoVariant {
    /// The codec tag of this variant, if it is a known one.
    pub fn codec_tag(self) -> (res: Option<u32>)
        ensures
            res == spec_codec_tag(self),
    {
        match self {
            VideoVariant::HAP => Some(HAP_TAG),
            VideoVariant::HAPALPHA => Some(HAPALPHA_TAG),
            VideoVariant::HAPQ => Some(HAPQ_TAG),
            VideoVariant::NOTCHLC => Some(NOTCHLC_TAG),
            VideoVariant::UNKOWN => None,
        }
    }

    /// Identifies the variant of a stream from its codec tag.
    pub fn from_codec_tag(tag: u32) -> (res: VideoVariant)
        ensures
            res == spec_variant_from_codec_tag(tag),
    {
        if tag == HAP_TAG {
            VideoVariant::HAP
        } else if tag == HAPALPHA_TAG {
            VideoVariant::HAPALPHA
        } else if tag == HAPQ_TAG {
            VideoVariant::HAPQ
        } else if tag == NOTCHLC_TAG {
            VideoVariant::NOTCHLC
        } else {
            VideoVariant::UNKOWN
        }
    }
}

/// A known variant's tag names that variant again, and a tag that names a
/// known variant is that variant's tag.
pub proof fn lemma_codec_tag_roundtrip(v: VideoVariant, tag: u32)
    ensures
        v != VideoVariant::UNKOWN ==> spec_variant_from_codec_tag(spec_codec_tag(v).unwrap()) == v,
        spec_variant_from_codec_tag(tag) != VideoVariant::UNKOWN ==> spec_codec_tag(
            spec_variant_from_codec_tag(tag),
        ) == Some(tag),
{
}

} // verus!
