//! The Video for Linux backend: its four-character codes and its device
//! nodes.

use crate::error::Error;
use crate::format::pix::{Compressed, Uncompressed};
use crate::format::{FormatModel, PixelFormat};
use crate::text::{decimal, push_decimal};
use vstd::prelude::*;
use vstd::utf8::{
    decode_utf8, decode_utf8_encode_utf8, encode_scalar, encode_utf8, encode_utf8_decode_utf8,
    encode_utf8_valid_utf8, has_width_1_encoding, is_ascii_chars, is_ascii_chars_encode_utf8,
    valid_utf8,
};

verus! {

/// `GREY`: 8-bit luminance.
pub const GREY: [u8; 4] = [0x47, 0x52, 0x45, 0x59];

/// `Y16 `: 16-bit luminance.
pub const Y16: [u8; 4] = [0x59, 0x31, 0x36, 0x20];

/// `Z16 `: 16-bit depth.
pub const Z16: [u8; 4] = [0x5a, 0x31, 0x36, 0x20];

/// `BGR3`: 24-bit blue, green, red.
pub const BGR3: [u8; 4] = [0x42, 0x47, 0x52, 0x33];

/// `AR24`: 32-bit blue, green, red, alpha.
pub const AR24: [u8; 4] = [0x41, 0x52, 0x32, 0x34];

/// `RGB3`: 24-bit red, green, blue.
pub const RGB3: [u8; 4] = [0x52, 0x47, 0x42, 0x33];

/// `AB24`: 32-bit red, green, blue, alpha.
pub const AB24: [u8; 4] = [0x41, 0x42, 0x32, 0x34];

/// `MJPG`: motion JPEG.
pub const MJPG: [u8; 4] = [0x4d, 0x4a, 0x50, 0x47];

/// The number of rows of the table.
pub const ROWS: usize = 8;

/// The codes this backend knows, each with the format it stands for. A code
/// and a format stand in at most one row, so the table reads both ways.
/// `AB24` carries an alpha channel and so stands for `Rgba(32)`; `Rgb(32)`
/// has no code.
pub open spec fn table() -> Seq<(Seq<u8>, FormatModel)> {
    seq![
        (GREY@, FormatModel::Uncompressed(Uncompressed::Gray(8))),
        (Y16@, FormatModel::Uncompressed(Uncompressed::Gray(16))),
        (Z16@, FormatModel::Uncompressed(Uncompressed::Depth(16))),
        (BGR3@, FormatModel::Uncompressed(Uncompressed::Bgr(24))),
        (AR24@, FormatModel::Uncompressed(Uncompressed::Bgra(32))),
        (RGB3@, FormatModel::Uncompressed(Uncompressed::Rgb(24))),
        (AB24@, FormatModel::Uncompressed(Uncompressed::Rgba(32))),
        (MJPG@, FormatModel::Compressed(Compressed::Jpeg)),
    ]
}

/// Row `i` of the table.
fn row(i: usize) -> (r: ([u8; 4], PixelFormat))
    requires
        i < ROWS,
    ensures
        r.0@ == table()[i as int].0,
        r.1@ == table()[i as int].1,
{
    let r = match i {
        0 => (GREY, PixelFormat::Uncompressed(Uncompressed::Gray(8))),
        1 => (Y16, PixelFormat::Uncompressed(Uncompressed::Gray(16))),
        2 => (Z16, PixelFormat::Uncompressed(Uncompressed::Depth(16))),
        3 => (BGR3, PixelFormat::Uncompressed(Uncompressed::Bgr(24))),
        4 => (AR24, PixelFormat::Uncompressed(Uncompressed::Bgra(32))),
        5 => (RGB3, PixelFormat::Uncompressed(Uncompressed::Rgb(24))),
        6 => (AB24, PixelFormat::Uncompressed(Uncompressed::Rgba(32))),
        _ => (MJPG, PixelFormat::Compressed(Compressed::Jpeg)),
    };
    r
}

/// Row `i` of the table holds the code `tag`.
pub open spec fn tag_at(i: int, tag: Seq<u8>) -> bool {
    0 <= i < table().len() && table()[i].0 == tag
}

/// Row `i` of the table holds `format`.
pub open spec fn format_at(i: int, format: FormatModel) -> bool {
    0 <= i < table().len() && table()[i].1 == format
}

/// The table holds the code `tag`.
pub open spec fn known_tag(tag: Seq<u8>) -> bool {
    exists|i: int| tag_at(i, tag)
}

/// The text of a code: its characters where it is UTF-8, else each byte as
/// the character of that code point.
pub open spec fn text_of(tag: Seq<u8>) -> Seq<char> {
    if valid_utf8(tag) {
        decode_utf8(tag)
    } else {
        Seq::new(tag.len(), |i: int| tag[i] as char)
    }
}

/// The format a code stands for: the table's where it holds the code, else
/// a custom format that carries the code's text.
pub open spec fn format_of(tag: Seq<u8>) -> FormatModel {
    if known_tag(tag) {
        table()[choose|i: int| tag_at(i, tag)].1
    } else {
        FormatModel::Custom(text_of(tag))
    }
}

/// The code of a format: the table's where it holds the format, else none.
pub open spec fn tag_of(format: FormatModel) -> Option<Seq<u8>> {
    if exists|i: int| format_at(i, format) {
        Some(table()[choose|i: int| format_at(i, format)].0)
    } else {
        None
    }
}

/// No code and no format stands in two rows.
pub proof fn lemma_rows_differ(i: int, j: int)
    requires
        0 <= i < table().len(),
        0 <= j < table().len(),
        i != j,
    ensures
        table()[i].0 != table()[j].0,
        table()[i].1 != table()[j].1,
{
}

fn same_tag(a: &[u8; 4], b: &[u8; 4]) -> (r: bool)
    ensures
        r == (a@ == b@),
{
    let r = a[0] == b[0] && a[1] == b[1] && a[2] == b[2] && a[3] == b[3];
    assert(r == (a@ =~= b@));
    r
}

fn tag_text(tag: &[u8; 4]) -> (text: String)
    ensures
        text@ == text_of(tag@),
{
    match core::str::from_utf8(tag.as_slice()) {
        Ok(s) => {
            proof {
                encode_utf8_decode_utf8(s@);
            }
            s.to_owned()
        },
        Err(_) => {
            let mut text = String::new();
            let mut i: usize = 0;
            while i < 4
                invariant
                    i <= 4,
                    text@ == Seq::new(i as nat, |k: int| tag@[k] as char),
                decreases 4 - i,
            {
                text.push(tag[i] as char);
                i += 1;
                assert(text@ =~= Seq::new(i as nat, |k: int| tag@[k] as char));
            }
            text
        },
    }
}

/// Reads a four-character code. Every code gives a format: one that the
/// table does not hold gives a custom format with the code's text.
pub fn from_native_tag(tag: &[u8; 4]) -> (format: PixelFormat)
    ensures
        format@ == format_of(tag@),
{
    let mut i: usize = 0;
    while i < ROWS
        invariant
            i <= ROWS,
            forall|j: int| 0 <= j < i ==> !tag_at(j, tag@),
        decreases ROWS - i,
    {
        let (code, format) = row(i);
        if same_tag(&code, tag) {
            proof {
                assert(tag_at(i as int, tag@));
                let k = choose|k: int| tag_at(k, tag@);
                if k != i {
                    lemma_rows_differ(k, i as int);
                }
            }
            return format;
        }
        i += 1;
    }
    PixelFormat::Custom(tag_text(tag))
}

/// Writes a format as its four-character code. A custom format has none,
/// nor has a layout at a depth that the table does not hold.
pub fn to_native_tag(format: &PixelFormat) -> (r: Result<[u8; 4], Error>)
    ensures
        (match r {
            Ok(tag) => tag_of(format@) == Some(tag@),
            Err(e) => e == Error::Unsupported && tag_of(format@) is None,
        }),
{
    let mut i: usize = 0;
    while i < ROWS
        invariant
            i <= ROWS,
            forall|j: int| 0 <= j < i ==> !format_at(j, format@),
        decreases ROWS - i,
    {
        let (code, known) = row(i);
        if known == *format {
            proof {
                assert(format_at(i as int, format@));
                let k = choose|k: int| format_at(k, format@);
                if k != i {
                    lemma_rows_differ(k, i as int);
                }
            }
            return Ok(code);
        }
        i += 1;
    }
    Err(Error::Unsupported)
}

/// Each row reads both ways: its code stands for its format, and its
/// format is written as its code.
pub proof fn lemma_row_reads_both_ways(i: int)
    requires
        0 <= i < ROWS,
    ensures
        format_of(table()[i].0) == table()[i].1,
        tag_of(table()[i].1) == Some(table()[i].0),
{
    assert(tag_at(i, table()[i].0));
    assert(format_at(i, table()[i].1));
    let j = choose|j: int| tag_at(j, table()[i].0);
    let k = choose|k: int| format_at(k, table()[i].1);
    if i != j {
        lemma_rows_differ(i, j);
    }
    if i != k {
        lemma_rows_differ(i, k);
    }
}

/// A code that the table holds is read and written back unchanged.
pub proof fn lemma_tag_round_trip(tag: Seq<u8>)
    requires
        known_tag(tag),
    ensures
        tag_of(format_of(tag)) == Some(tag),
{
    let i = choose|i: int| tag_at(i, tag);
    assert(format_at(i, format_of(tag)));
    let j = choose|j: int| format_at(j, format_of(tag));
    if i != j {
        lemma_rows_differ(i, j);
    }
}

/// A format that has a code is written and read back unchanged.
pub proof fn lemma_format_round_trip(format: FormatModel)
    requires
        tag_of(format) is Some,
    ensures
        format_of(tag_of(format).unwrap()) == format,
{
    let i = choose|i: int| format_at(i, format);
    let tag = table()[i].0;
    assert(tag_at(i, tag));
    let j = choose|j: int| tag_at(j, tag);
    if i != j {
        lemma_rows_differ(i, j);
    }
}

/// A code that the table does not hold is read as a custom format, which
/// has no code to be written as.
pub proof fn lemma_unknown_tag_is_custom(tag: Seq<u8>)
    requires
        !known_tag(tag),
    ensures
        format_of(tag) == FormatModel::Custom(text_of(tag)),
        tag_of(format_of(tag)) is None,
{
    assert forall|i: int| !format_at(i, format_of(tag)) by {
        if 0 <= i < table().len() {
            assert(table()[i].1 !is Custom);
        }
    }
}

/// The text of a code made of ASCII bytes is those bytes, each as the
/// character it encodes.
pub proof fn lemma_text_of_ascii(tag: Seq<u8>)
    requires
        forall|i: int| 0 <= i < tag.len() ==> tag[i] < 128,
    ensures
        text_of(tag) == Seq::new(tag.len(), |i: int| tag[i] as char),
{
    let chars = Seq::new(tag.len(), |i: int| tag[i] as char);
    assert(is_ascii_chars(chars));
    is_ascii_chars_encode_utf8(chars);
    assert forall|i: int| 0 <= i < tag.len() implies encode_utf8(chars)[i] == tag[i] by {
        assert(chars[i] as u8 == encode_utf8(chars)[i]);
    }
    assert(encode_utf8(chars) =~= tag);
    encode_utf8_valid_utf8(chars);
    encode_utf8_decode_utf8(chars);
}

proof fn lemma_one_byte_is_ascii(c: char)
    requires
        has_width_1_encoding(c as u32),
    ensures
        '\0' <= c <= '\u{7f}',
{
}

proof fn lemma_encoding_len(chars: Seq<char>)
    ensures
        encode_utf8(chars).len() >= chars.len(),
        encode_utf8(chars).len() == chars.len() ==> is_ascii_chars(chars),
    decreases chars.len(),
{
    if chars.len() > 0 {
        let rest = chars.drop_first();
        lemma_encoding_len(rest);
        assert(encode_scalar(chars[0] as u32).len() >= 1);
        if encode_utf8(chars).len() == chars.len() {
            assert forall|i: int| 0 <= i < chars.len() implies '\0' <= #[trigger] chars[i]
                <= '\u{7f}' by {
                if i > 0 {
                    assert(chars[i] == rest[i - 1]);
                } else {
                    lemma_one_byte_is_ascii(chars[0]);
                }
            }
        }
    }
}

/// Two codes of one length that have the same text are the same code.
pub proof fn lemma_text_tells_codes_apart(a: Seq<u8>, b: Seq<u8>)
    requires
        a.len() == b.len(),
        text_of(a) == text_of(b),
    ensures
        a == b,
{
    if valid_utf8(a) && valid_utf8(b) {
        decode_utf8_encode_utf8(a);
        decode_utf8_encode_utf8(b);
    } else if !valid_utf8(a) && !valid_utf8(b) {
        assert forall|i: int| 0 <= i < a.len() implies a[i] == b[i] by {
            assert(text_of(a)[i] == a[i] as char);
            assert(text_of(b)[i] == b[i] as char);
        }
        assert(a =~= b);
    } else {
        let (well, ill) = if valid_utf8(a) {
            (a, b)
        } else {
            (b, a)
        };
        let chars = text_of(well);
        decode_utf8_encode_utf8(well);
        lemma_encoding_len(chars);
        is_ascii_chars_encode_utf8(chars);
        assert forall|i: int| 0 <= i < well.len() implies well[i] == ill[i] by {
            assert(chars[i] == ill[i] as char);
            assert(chars[i] as u8 == encode_utf8(chars)[i]);
        }
        assert(well =~= ill);
    }
}

/// Distinct codes stand for distinct formats: no two codes are folded into
/// one format, whether the table holds them or not.
pub proof fn lemma_format_tells_codes_apart(a: Seq<u8>, b: Seq<u8>)
    requires
        a.len() == 4,
        b.len() == 4,
        format_of(a) == format_of(b),
    ensures
        a == b,
{
    if known_tag(a) && known_tag(b) {
        let i = choose|i: int| tag_at(i, a);
        let j = choose|j: int| tag_at(j, b);
        if i != j {
            lemma_rows_differ(i, j);
        }
    } else if known_tag(a) {
        let i = choose|i: int| tag_at(i, a);
        assert(table()[i].1 !is Custom);
    } else if known_tag(b) {
        let j = choose|j: int| tag_at(j, b);
        assert(table()[j].1 !is Custom);
    } else {
        lemma_text_tells_codes_apart(a, b);
    }
}

/// Capability bit: the node captures video.
pub const VIDEO_CAPTURE: u32 = 0x0000_0001;

/// Capability bit: the node streams frames through buffers.
pub const STREAMING: u32 = 0x0400_0000;

/// What probing one device node found.
#[derive(Clone, Copy, Debug, PartialEq, Eq)]
pub struct Node {
    /// The number in the node's name.
    pub index: usize,
    /// The node's capability bits; none where the node could not be opened
    /// or did not tell.
    pub capabilities: Option<u32>,
}

/// A node can be captured from when it told its capabilities and both
/// captures video and streams.
pub open spec fn usable(node: Node) -> bool {
    node.capabilities matches Some(bits) && bits & VIDEO_CAPTURE == VIDEO_CAPTURE && bits
        & STREAMING == STREAMING
}

/// The path of the device node with the number `index`.
pub open spec fn path_of(index: usize) -> Seq<char> {
    seq!['/', 'd', 'e', 'v', '/', 'v', 'i', 'd', 'e', 'o'] + decimal(index as nat)
}

/// The paths of the usable nodes among `nodes`, in their order.
pub open spec fn paths_of(nodes: Seq<Node>) -> Seq<Seq<char>>
    decreases nodes.len(),
{
    if nodes.len() == 0 {
        seq![]
    } else if usable(nodes.last()) {
        paths_of(nodes.drop_last()).push(path_of(nodes.last().index))
    } else {
        paths_of(nodes.drop_last())
    }
}

fn device_path(index: usize) -> (path: String)
    ensures
        path@ == path_of(index),
{
    let mut path = "/dev/video".to_owned();
    proof {
        reveal_strlit("/dev/video");
        assert(path@ =~= seq!['/', 'd', 'e', 'v', '/', 'v', 'i', 'd', 'e', 'o']);
    }
    push_decimal(&mut path, index);
    path
}

/// The paths of the devices that can be captured from, out of the nodes
/// that were probed: those that told their capabilities and both capture
/// video and stream, in the order they came in.
pub fn devices(nodes: &Vec<Node>) -> (paths: Vec<String>)
    ensures
        paths.deep_view() == paths_of(nodes@),
{
    let mut paths: Vec<String> = Vec::new();
    let mut i: usize = 0;
    while i < nodes.len()
        invariant
            i <= nodes.len(),
            paths.deep_view() == paths_of(nodes@.take(i as int)),
        decreases nodes.len() - i,
    {
        let node = nodes[i];
        let fit = match node.capabilities {
            Some(bits) => bits & VIDEO_CAPTURE == VIDEO_CAPTURE && bits & STREAMING == STREAMING,
            None => false,
        };
        assert(nodes@.take(i + 1).drop_last() =~= nodes@.take(i as int));
        if fit {
            let ghost before = paths.deep_view();
            paths.push(device_path(node.index));
            assert(paths.deep_view() =~= before.push(path_of(node.index)));
        }
        i += 1;
    }
    assert(nodes@.take(nodes.len() as int) =~= nodes@);
    paths
}

} // verus!
