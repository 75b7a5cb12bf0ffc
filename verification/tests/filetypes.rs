use glasses::frameconv::filetypes::VideoVariant;
use glasses::window::video::{bytes_per_row, texture_format, ycocg_flag, TextureKind};

#[test]
fn codec_tags_identify_variants() {
    assert_eq!(VideoVariant::from_codec_tag(0x31706148), VideoVariant::HAP);
    assert_eq!(VideoVariant::from_codec_tag(0x35706148), VideoVariant::HAPALPHA);
    assert_eq!(VideoVariant::from_codec_tag(0x59706148), VideoVariant::HAPQ);
    assert_eq!(VideoVariant::from_codec_tag(0x434C544E), VideoVariant::NOTCHLC);
    assert_eq!(VideoVariant::from_codec_tag(0x31637661), VideoVariant::UNKOWN);
    assert_eq!(VideoVariant::from_codec_tag(u32::from_le_bytes(*b"Hap1")), VideoVariant::HAP);
}

#[test]
fn codec_tag_roundtrip() {
    for v in [VideoVariant::HAP, VideoVariant::HAPALPHA, VideoVariant::HAPQ, VideoVariant::NOTCHLC] {
        assert_eq!(VideoVariant::from_codec_tag(v.codec_tag().unwrap()), v);
    }
    assert_eq!(VideoVariant::UNKOWN.codec_tag(), None);
}

#[test]
fn bytes_per_row_by_block_size() {
    assert_eq!(bytes_per_row(VideoVariant::HAP, 1920), 3840);
    assert_eq!(bytes_per_row(VideoVariant::HAPALPHA, 1920), 7680);
    assert_eq!(bytes_per_row(VideoVariant::HAPQ, 1922), 7680);
    assert_eq!(bytes_per_row(VideoVariant::NOTCHLC, 3), 0);
}

#[test]
fn texture_formats_by_variant() {
    assert_eq!(texture_format(VideoVariant::HAP), TextureKind::Bc1RgbaUnorm);
    assert_eq!(texture_format(VideoVariant::HAPALPHA), TextureKind::Bc3RgbaUnorm);
    assert_eq!(texture_format(VideoVariant::HAPQ), TextureKind::Bc3RgbaUnorm);
    assert_eq!(texture_format(VideoVariant::NOTCHLC), TextureKind::Bc6hRgbUfloat);
}

#[test]
fn only_hap_q_uses_ycocg() {
    assert_eq!(ycocg_flag(VideoVariant::HAPQ), 1);
    assert_eq!(ycocg_flag(VideoVariant::HAP), 0);
    assert_eq!(ycocg_flag(VideoVariant::HAPALPHA), 0);
}
