use eye_hal::error::Error;
use eye_hal::format::pix::{Compressed, Uncompressed};
use eye_hal::format::{ImageFormat, PixelFormat};
use eye_hal::hal::v4l2::{
    from_native_tag, to_native_tag, AB24, AR24, BGR3, GREY, MJPG, RGB3, Y16, Z16,
};

fn table() -> Vec<([u8; 4], PixelFormat)> {
    vec![
        (*b"GREY", PixelFormat::Uncompressed(Uncompressed::Gray(8))),
        (*b"Y16 ", PixelFormat::Uncompressed(Uncompressed::Gray(16))),
        (*b"Z16 ", PixelFormat::Uncompressed(Uncompressed::Depth(16))),
        (*b"BGR3", PixelFormat::Uncompressed(Uncompressed::Bgr(24))),
        (*b"AR24", PixelFormat::Uncompressed(Uncompressed::Bgra(32))),
        (*b"RGB3", PixelFormat::Uncompressed(Uncompressed::Rgb(24))),
        (*b"AB24", PixelFormat::Uncompressed(Uncompressed::Rgba(32))),
        (*b"MJPG", PixelFormat::Compressed(Compressed::Jpeg)),
    ]
}

#[test]
fn tag_constants_spell_their_codes() {
    assert_eq!(&GREY, b"GREY");
    assert_eq!(&Y16, b"Y16 ");
    assert_eq!(&Z16, b"Z16 ");
    assert_eq!(&BGR3, b"BGR3");
    assert_eq!(&AR24, b"AR24");
    assert_eq!(&RGB3, b"RGB3");
    assert_eq!(&AB24, b"AB24");
    assert_eq!(&MJPG, b"MJPG");
}

#[test]
fn every_known_tag_reads_as_its_format() {
    for (tag, format) in table() {
        assert_eq!(from_native_tag(&tag), format);
    }
}

#[test]
fn every_known_format_writes_as_its_tag() {
    for (tag, format) in table() {
        assert_eq!(to_native_tag(&format), Ok(tag));
    }
}

#[test]
fn known_tags_round_trip() {
    for (tag, _) in table() {
        assert_eq!(to_native_tag(&from_native_tag(&tag)), Ok(tag));
    }
}

#[test]
fn known_formats_round_trip() {
    for (_, format) in table() {
        let tag = to_native_tag(&format).unwrap();
        assert_eq!(from_native_tag(&tag), format);
    }
}

#[test]
fn rgba_not_rgb_owns_the_alpha_tag() {
    assert_eq!(
        from_native_tag(b"AB24"),
        PixelFormat::Uncompressed(Uncompressed::Rgba(32))
    );
    assert_eq!(
        to_native_tag(&PixelFormat::Uncompressed(Uncompressed::Rgba(32))),
        Ok(*b"AB24")
    );
    assert_eq!(
        to_native_tag(&PixelFormat::Uncompressed(Uncompressed::Rgb(32))),
        Err(Error::Unsupported)
    );
}

#[test]
fn unknown_tag_becomes_custom_with_its_text() {
    assert_eq!(
        from_native_tag(b"YUYV"),
        PixelFormat::Custom(String::from("YUYV"))
    );
    assert_eq!(
        from_native_tag(b"H264"),
        PixelFormat::Custom(String::from("H264"))
    );
    assert_eq!(
        from_native_tag(b"grey"),
        PixelFormat::Custom(String::from("grey"))
    );
}

#[test]
fn unknown_tag_does_not_round_trip() {
    assert_eq!(
        to_native_tag(&from_native_tag(b"YUYV")),
        Err(Error::Unsupported)
    );
}

#[test]
fn multibyte_tag_is_decoded() {
    let tag = [0xc3, 0xa9, b'A', b'B'];
    assert_eq!(
        from_native_tag(&tag),
        PixelFormat::Custom(String::from("\u{e9}AB"))
    );
}

#[test]
fn tag_that_is_not_utf8_is_read_byte_by_byte() {
    let tag = [0xff, 0x00, b'A', 0x80];
    assert_eq!(
        from_native_tag(&tag),
        PixelFormat::Custom(String::from("\u{ff}\u{0}A\u{80}"))
    );
    let big_endian = [b'Y', b'1', b'6', 0xa0];
    assert_eq!(
        from_native_tag(&big_endian),
        PixelFormat::Custom(String::from("Y16\u{a0}"))
    );
}

#[test]
fn every_tag_reads_as_some_format() {
    let bytes = [0x00u8, 0x20, 0x41, 0x7f, 0x80, 0xc3, 0xa9, 0xff];
    for a in bytes {
        for b in bytes {
            for c in bytes {
                for d in bytes {
                    let format = from_native_tag(&[a, b, c, d]);
                    assert!(matches!(format, PixelFormat::Custom(_)));
                    assert_eq!(to_native_tag(&format), Err(Error::Unsupported));
                }
            }
        }
    }
}

#[test]
fn custom_format_has_no_tag() {
    assert_eq!(
        to_native_tag(&PixelFormat::Custom(String::from("GREY"))),
        Err(Error::Unsupported)
    );
    assert_eq!(
        to_native_tag(&PixelFormat::Custom(String::new())),
        Err(Error::Unsupported)
    );
}

#[test]
fn depth_without_a_tag_is_unsupported() {
    let formats = [
        Uncompressed::Gray(12),
        Uncompressed::Gray(0),
        Uncompressed::Depth(8),
        Uncompressed::Bgr(32),
        Uncompressed::Bgra(24),
        Uncompressed::Rgb(16),
        Uncompressed::Rgba(24),
    ];
    for layout in formats {
        assert_eq!(
            to_native_tag(&PixelFormat::Uncompressed(layout)),
            Err(Error::Unsupported)
        );
    }
}

#[test]
fn pixel_formats_compare_by_structure() {
    let gray = PixelFormat::Uncompressed(Uncompressed::Gray(8));
    assert_eq!(gray, PixelFormat::Uncompressed(Uncompressed::Gray(8)));
    assert_ne!(gray, PixelFormat::Uncompressed(Uncompressed::Gray(16)));
    assert_ne!(gray, PixelFormat::Uncompressed(Uncompressed::Depth(8)));
    assert_ne!(gray, PixelFormat::Compressed(Compressed::Jpeg));
    assert_eq!(
        PixelFormat::Custom(String::from("abcd")),
        PixelFormat::Custom(String::from("abcd"))
    );
    assert_ne!(
        PixelFormat::Custom(String::from("abcd")),
        PixelFormat::Custom(String::from("abce"))
    );
    assert_eq!(gray.clone(), gray);
    let custom = PixelFormat::Custom(String::from("abcd"));
    assert_eq!(custom.clone(), custom);
}

#[test]
fn image_format_keeps_what_it_was_made_of() {
    let format = ImageFormat::new(640, 480, PixelFormat::Compressed(Compressed::Jpeg));
    assert_eq!(format.width, 640);
    assert_eq!(format.height, 480);
    assert_eq!(format.pixfmt, PixelFormat::Compressed(Compressed::Jpeg));
    assert_eq!(format.stride, None);
    let copy = format.clone();
    assert_eq!(copy.width, 640);
    assert_eq!(copy.height, 480);
    assert_eq!(copy.pixfmt, format.pixfmt);
    assert_eq!(copy.stride, None);
}

#[test]
fn four_byte_character_is_one_character_of_text() {
    let tag = [0xf0, 0x9f, 0x8e, 0xa5];
    assert_eq!(
        from_native_tag(&tag),
        PixelFormat::Custom(String::from("\u{1f3a5}"))
    );
    let three_and_one = [0xe2, 0x82, 0xac, b'1'];
    assert_eq!(
        from_native_tag(&three_and_one),
        PixelFormat::Custom(String::from("\u{20ac}1"))
    );
}

#[test]
fn ill_formed_sequences_are_read_byte_by_byte() {
    let overlong = [0xc0, 0x80, b'A', b'B'];
    assert_eq!(
        from_native_tag(&overlong),
        PixelFormat::Custom(String::from("\u{c0}\u{80}AB"))
    );
    let surrogate = [0xed, 0xa0, 0x80, b'A'];
    assert_eq!(
        from_native_tag(&surrogate),
        PixelFormat::Custom(String::from("\u{ed}\u{a0}\u{80}A"))
    );
    let beyond_the_last_character = [0xf4, 0x90, 0x80, 0x80];
    assert_eq!(
        from_native_tag(&beyond_the_last_character),
        PixelFormat::Custom(String::from("\u{f4}\u{90}\u{80}\u{80}"))
    );
    let cut_short = [b'A', b'B', 0xe2, 0x82];
    assert_eq!(
        from_native_tag(&cut_short),
        PixelFormat::Custom(String::from("AB\u{e2}\u{82}"))
    );
    let lone_continuation = [0x80, b'A', b'B', b'C'];
    assert_eq!(
        from_native_tag(&lone_continuation),
        PixelFormat::Custom(String::from("\u{80}ABC"))
    );
}

#[test]
fn distinct_tags_read_as_distinct_formats() {
    let bytes = [0x00u8, 0x41, 0x7f, 0x80, 0xc3, 0xa9, 0xff];
    let mut seen: Vec<([u8; 4], PixelFormat)> = Vec::new();
    for a in bytes {
        for b in bytes {
            for c in [0x41u8, 0xa9] {
                for d in [0x42u8, 0x80] {
                    let tag = [a, b, c, d];
                    let format = from_native_tag(&tag);
                    for (other, earlier) in &seen {
                        assert_ne!(&format, earlier, "{:?} and {:?}", tag, other);
                    }
                    seen.push((tag, format));
                }
            }
        }
    }
}
