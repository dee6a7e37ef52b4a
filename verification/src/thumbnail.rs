//! Wallpaper thumbnails are handed to the user interface as `data:` URLs:
//! the image is decoded, shrunk and encoded as JPEG by the image crate, and
//! its bytes are encoded here in standard base64 (RFC 4648, padded).

use vstd::prelude::*;

use crate::text::push_char;

verus! {

/// The base64 digit of a six-bit value `v` (`0 <= v < 64`): `A`–`Z`,
/// `a`–`z`, `0`–`9`, `+`, `/`.
pub open spec fn base64_digit(v: int) -> char {
    if v < 26 {
        ((65 + v) as u8) as char
    } else if v < 52 {
        ((97 + v - 26) as u8) as char
    } else if v < 62 {
        ((48 + v - 52) as u8) as char
    } else if v == 62 {
        '+'
    } else {
        '/'
    }
}

/// The four characters that encode a group of one to three bytes; a short
/// group is padded with `=`.
pub open spec fn base64_group(group: Seq<u8>) -> Seq<char> {
    let b0 = group[0] as int;
    let b1 = if group.len() > 1 {
        group[1] as int
    } else {
        0
    };
    let b2 = if group.len() > 2 {
        group[2] as int
    } else {
        0
    };
    seq![
        base64_digit(b0 / 4),
        base64_digit((b0 % 4) * 16 + b1 / 16),
        if group.len() > 1 {
            base64_digit((b1 % 16) * 4 + b2 / 64)
        } else {
            '='
        },
        if group.len() > 2 {
            base64_digit(b2 % 64)
        } else {
            '='
        },
    ]
}

/// The base64 encoding of `bytes`: each group of three bytes (the last one
/// possibly shorter) in turn.
pub open spec fn base64(bytes: Seq<u8>) -> Seq<char>
    decreases bytes.len(),
{
    if bytes.len() == 0 {
        Seq::empty()
    } else if bytes.len() <= 3 {
        base64_group(bytes)
    } else {
        base64_group(bytes.take(3)) + base64(bytes.skip(3))
    }
}

fn digit(v: u8) -> (res: char)
    requires
        v < 64,
    ensures
        res == base64_digit(v as int),
{
    if v < 26 {
        (65 + v) as char
    } else if v < 52 {
        (97 + v - 26) as char
    } else if v < 62 {
        (48 + v - 52) as char
    } else if v == 62 {
        '+'
    } else {
        '/'
    }
}

/// Standard base64 (RFC 4648) with padding.
pub fn encode_base64(input: &[u8]) -> (res: String)
    ensures
        res@ == base64(input@),
{
    let mut out = String::new();
    let len = input.len();
    let mut i: usize = 0;
    assert(input@.skip(0) =~= input@);
    while i < len
        invariant
            len == input@.len(),
            i <= len,
            base64(input@) == out@ + base64(input@.skip(i as int)),
        decreases len - i,
    {
        let n: usize = if len - i >= 3 {
            3
        } else {
            len - i
        };
        let b0 = input[i];
        let b1: u8 = if n > 1 {
            input[i + 1]
        } else {
            0
        };
        let b2: u8 = if n > 2 {
            input[i + 2]
        } else {
            0
        };
        let ghost rest = input@.skip(i as int);
        let ghost before = out@;
        push_char(&mut out, digit(b0 / 4));
        push_char(&mut out, digit((b0 % 4) * 16 + b1 / 16));
        if n > 1 {
            push_char(&mut out, digit((b1 % 16) * 4 + b2 / 64));
        } else {
            push_char(&mut out, '=');
        }
        if n > 2 {
            push_char(&mut out, digit(b2 % 64));
        } else {
            push_char(&mut out, '=');
        }
        proof {
            let group = rest.take(n as int);
            assert(group[0] == b0);
            assert(n > 1 ==> group[1] == b1);
            assert(n > 2 ==> group[2] == b2);
            assert(out@ =~= before + base64_group(group));
            if rest.len() <= 3 {
                assert(group =~= rest);
                assert(input@.skip(i + n) =~= Seq::<u8>::empty());
            } else {
                assert(rest.skip(3) =~= input@.skip(i + 3));
            }
        }
        i = i + n;
    }
    out
}

/// The `data:` URL of a JPEG image with the given bytes.
pub fn jpeg_data_url(jpeg: &[u8]) -> (res: String)
    ensures
        res@ == jpeg_url(jpeg@),
{
    let mut url = String::from_str("data:image/jpeg;base64,");
    let encoded = encode_base64(jpeg);
    url.append(encoded.as_str());
    url
}

/// The width and height of the image that `encoded` holds, read as the
/// format that the file extension `extension` names; none if the extension
/// names no format the decoder knows or the bytes do not decode.
pub uninterp spec fn decoded_size(encoded: Seq<u8>, extension: Seq<char>) -> Option<(u32, u32)>;

/// The JPEG bytes (at `quality`) of the image that `encoded` holds, read as
/// for `decoded_size`, resized to exactly `width` by `height` with the
/// triangle filter and converted to 8-bit RGB; none if decoding or encoding
/// fails.
pub uninterp spec fn jpeg_thumbnail_of(
    encoded: Seq<u8>,
    extension: Seq<char>,
    width: u32,
    height: u32,
    quality: u8,
) -> Option<Seq<u8>>;

/// The size of the decoded image.
///
/// Trusted: wraps `image::ImageFormat::from_extension`,
/// `image::load_from_memory_with_format` and `DynamicImage::width` and
/// `height` (as `image::open` reads a file: by the format its extension
/// names). The result is named, not stated: it is what the decoder makes of
/// the bytes, and depends on them and on the extension alone.
#[verifier::external_body]
fn image_size(encoded: &[u8], extension: &str) -> (res: Option<(u32, u32)>)
    ensures
        res == decoded_size(encoded@, extension@),
{
    let format = image::ImageFormat::from_extension(extension)?;
    let source = image::load_from_memory_with_format(encoded, format).ok()?;
    Some((source.width(), source.height()))
}

/// The JPEG thumbnail of the decoded image.
///
/// Trusted: wraps the decoding of `image_size`, then
/// `DynamicImage::resize_exact` with `FilterType::Triangle`,
/// `DynamicImage::to_rgb8` and `JpegEncoder::new_with_quality` with
/// `JpegEncoder::encode` (8-bit RGB). The bytes are named, not stated. The
/// target size is at most the source size, so that the resized image is
/// no larger than the decoded one.
#[verifier::external_body]
fn jpeg_thumbnail(encoded: &[u8], extension: &str, width: u32, height: u32, quality: u8) -> (res:
    Option<Vec<u8>>)
    requires
        fits_source(encoded@, extension@, width, height),
    ensures
        res is Some <==> jpeg_thumbnail_of(encoded@, extension@, width, height, quality) is Some,
        res matches Some(bytes) ==> bytes@ == jpeg_thumbnail_of(
            encoded@,
            extension@,
            width,
            height,
            quality,
        ).unwrap(),
{
    let format = image::ImageFormat::from_extension(extension)?;
    let source = image::load_from_memory_with_format(encoded, format).ok()?;
    let thumb = source.resize_exact(width, height, image::imageops::FilterType::Triangle).to_rgb8();
    let mut buffer = Vec::new();
    image::codecs::jpeg::JpegEncoder::new_with_quality(&mut std::io::Cursor::new(&mut buffer), quality)
        .encode(&thumb, width, height, image::ExtendedColorType::Rgb8).ok()?;
    Some(buffer)
}

/// A size is usable for a thumbnail: the image decoded and is not empty.
pub open spec fn usable_size(size: Option<(u32, u32)>) -> Option<(u32, u32)> {
    match size {
        Some((w, h)) => if w > 0 && h > 0 {
            size
        } else {
            None
        },
        None => None,
    }
}

/// The size of the image that a thumbnail is made from; none if the bytes
/// do not decode (as the format that the extension names) or the image is
/// empty.
pub fn thumbnail_source_size(encoded: &[u8], extension: &str) -> (res: Option<(u32, u32)>)
    ensures
        res == usable_size(decoded_size(encoded@, extension@)),
{
    match image_size(encoded, extension) {
        Some((w, h)) => if w > 0 && h > 0 {
            Some((w, h))
        } else {
            None
        },
        None => None,
    }
}

/// A target size for a thumbnail of the decoded image: at least one pixel
/// each way, and no larger than the image.
pub open spec fn fits_source(encoded: Seq<u8>, extension: Seq<char>, width: u32, height: u32) -> bool {
    decoded_size(encoded, extension) matches Some((w, h)) && 1 <= width <= w && 1 <= height <= h
}

/// The text of the `data:` URL of a JPEG image with the given bytes.
pub open spec fn jpeg_url(jpeg: Seq<u8>) -> Seq<char> {
    "data:image/jpeg;base64,"@ + base64(jpeg)
}

/// The `data:` URL of the thumbnail of the encoded image at the target
/// size: none if the target does not fit the image or the thumbnail cannot
/// be made.
pub open spec fn thumbnail_url(
    encoded: Seq<u8>,
    extension: Seq<char>,
    width: u32,
    height: u32,
    quality: u8,
) -> Option<Seq<char>> {
    if fits_source(encoded, extension, width, height) {
        match jpeg_thumbnail_of(encoded, extension, width, height, quality) {
            Some(jpeg) => Some(jpeg_url(jpeg)),
            None => None,
        }
    } else {
        None
    }
}

/// The `data:` URL of a JPEG thumbnail (at `quality`) of the image that
/// `encoded` holds, resized to `width` by `height`; none if that size does
/// not fit the image or the image cannot be decoded or encoded.
pub fn thumbnail_data_url(encoded: &[u8], extension: &str, width: u32, height: u32, quality: u8) -> (res:
    Option<String>)
    ensures
        res is Some <==> thumbnail_url(encoded@, extension@, width, height, quality) is Some,
        res matches Some(url) ==> url@ == thumbnail_url(
            encoded@,
            extension@,
            width,
            height,
            quality,
        ).unwrap(),
{
    let fits = match image_size(encoded, extension) {
        Some((w, h)) => 1 <= width && width <= w && 1 <= height && height <= h,
        None => false,
    };
    if !fits {
        return None;
    }
    match jpeg_thumbnail(encoded, extension, width, height, quality) {
        Some(jpeg) => Some(jpeg_data_url(jpeg.as_slice())),
        None => None,
    }
}

/// Every three bytes take four characters; a short last group is padded to
/// four as well.
pub proof fn law_base64_length(bytes: Seq<u8>)
    ensures
        base64(bytes).len() == 4 * ((bytes.len() + 2) / 3),
    decreases bytes.len(),
{
    if bytes.len() > 3 {
        law_base64_length(bytes.skip(3));
    }
}

/// A character of the base64 alphabet: `A`–`Z`, `a`–`z`, `0`–`9`, `+`, `/`.
pub open spec fn is_base64_symbol(c: char) -> bool {
    ('A' <= c && c <= 'Z') || ('a' <= c && c <= 'z') || ('0' <= c && c <= '9') || c == '+' || c
        == '/'
}

/// How many `=` pad an encoding of `n` bytes.
pub open spec fn padding(n: nat) -> nat {
    ((3 - n % 3) % 3) as nat
}

proof fn lemma_digit_is_symbol(v: int)
    requires
        0 <= v < 64,
    ensures
        is_base64_symbol(base64_digit(v)),
{
}

proof fn lemma_group_shape(group: Seq<u8>)
    requires
        1 <= group.len() <= 3,
    ensures
        base64_group(group).len() == 4,
        forall|i: int|
            0 <= i < 4 - padding(group.len()) ==> is_base64_symbol(#[trigger] base64_group(group)[i]),
        forall|i: int| 4 - padding(group.len()) <= i < 4 ==> #[trigger] base64_group(group)[i] == '=',
{
    let b0 = group[0] as int;
    let b1 = if group.len() > 1 {
        group[1] as int
    } else {
        0
    };
    let b2 = if group.len() > 2 {
        group[2] as int
    } else {
        0
    };
    lemma_digit_is_symbol(b0 / 4);
    lemma_digit_is_symbol((b0 % 4) * 16 + b1 / 16);
    lemma_digit_is_symbol((b1 % 16) * 4 + b2 / 64);
    lemma_digit_is_symbol(b2 % 64);
}

/// The encoding of a whole number of three-byte groups followed by more
/// bytes is the encoding of the groups followed by that of the rest.
pub proof fn law_base64_concatenates(a: Seq<u8>, b: Seq<u8>)
    requires
        a.len() % 3 == 0,
    ensures
        base64(a + b) == base64(a) + base64(b),
    decreases a.len(),
{
    if a.len() == 0 {
        assert(a + b =~= b);
        assert(base64(a) + base64(b) =~= base64(b));
    } else {
        let ab = a + b;
        assert(ab.take(3) =~= a.take(3));
        assert(ab.skip(3) =~= a.skip(3) + b);
        law_base64_concatenates(a.skip(3), b);
        if a.len() == 3 {
            assert(a.take(3) =~= a);
            assert(a.skip(3) =~= Seq::<u8>::empty());
            if b.len() == 0 {
                assert(ab =~= a);
                assert(base64(a) + base64(b) =~= base64(a));
            } else {
                assert(base64(a.skip(3)) =~= Seq::<char>::empty());
            }
        }
    }
}

/// An encoding is made of base64 symbols followed by exactly as many `=`
/// as pad the last group: two after one byte, one after two, none after a
/// whole group.
pub proof fn law_base64_alphabet_and_padding(bytes: Seq<u8>)
    ensures
        base64(bytes).len() == 4 * ((bytes.len() + 2) / 3),
        forall|i: int|
            0 <= i < base64(bytes).len() - padding(bytes.len()) ==> is_base64_symbol(
                #[trigger] base64(bytes)[i],
            ),
        forall|i: int|
            base64(bytes).len() - padding(bytes.len()) <= i < base64(bytes).len() ==> #[trigger] base64(
                bytes,
            )[i] == '=',
    decreases bytes.len(),
{
    law_base64_length(bytes);
    if bytes.len() == 0 {
    } else if bytes.len() <= 3 {
        lemma_group_shape(bytes);
    } else {
        let head = base64_group(bytes.take(3));
        let rest = bytes.skip(3);
        lemma_group_shape(bytes.take(3));
        law_base64_alphabet_and_padding(rest);
        assert(padding(bytes.len()) == padding(rest.len()));
        let e = base64(bytes);
        assert(e == head + base64(rest));
        assert forall|i: int| 0 <= i < e.len() - padding(bytes.len()) implies is_base64_symbol(
            #[trigger] e[i],
        ) by {
            if i >= 4 {
                assert(e[i] == base64(rest)[i - 4]);
            } else {
                assert(e[i] == head[i]);
            }
        }
        assert forall|i: int| e.len() - padding(bytes.len()) <= i < e.len() implies #[trigger] e[i]
            == '=' by {
            assert(e[i] == base64(rest)[i - 4]);
        }
    }
}

/// The six-bit value of a base64 symbol (the inverse of `base64_digit`).
pub open spec fn symbol_value(c: char) -> int {
    if 'A' <= c && c <= 'Z' {
        c as int - 65
    } else if 'a' <= c && c <= 'z' {
        c as int - 97 + 26
    } else if '0' <= c && c <= '9' {
        c as int - 48 + 52
    } else if c == '+' {
        62
    } else {
        63
    }
}

/// The bytes that four characters of an encoding stand for: three, or
/// fewer where the group is padded with `=`.
pub open spec fn decode_group(group: Seq<char>) -> Seq<u8> {
    let v0 = symbol_value(group[0]);
    let v1 = symbol_value(group[1]);
    let v2 = symbol_value(group[2]);
    let v3 = symbol_value(group[3]);
    let b0 = (v0 * 4 + v1 / 16) as u8;
    let b1 = ((v1 % 16) * 16 + v2 / 4) as u8;
    let b2 = ((v2 % 4) * 64 + v3) as u8;
    if group[2] == '=' {
        seq![b0]
    } else if group[3] == '=' {
        seq![b0, b1]
    } else {
        seq![b0, b1, b2]
    }
}

/// The bytes that a padded base64 text stands for, four characters at a
/// time.
pub open spec fn base64_decode(text: Seq<char>) -> Seq<u8>
    decreases text.len(),
{
    if text.len() < 4 {
        Seq::empty()
    } else {
        decode_group(text.take(4)) + base64_decode(text.skip(4))
    }
}

proof fn lemma_symbol_value(v: int)
    requires
        0 <= v < 64,
    ensures
        symbol_value(base64_digit(v)) == v,
        base64_digit(v) != '=',
{
}

proof fn lemma_group_decodes(group: Seq<u8>)
    requires
        1 <= group.len() <= 3,
    ensures
        decode_group(base64_group(group)) == group,
{
    let b0 = group[0] as int;
    let b1 = if group.len() > 1 {
        group[1] as int
    } else {
        0
    };
    let b2 = if group.len() > 2 {
        group[2] as int
    } else {
        0
    };
    let v0 = b0 / 4;
    let v1 = (b0 % 4) * 16 + b1 / 16;
    let v2 = (b1 % 16) * 4 + b2 / 64;
    let v3 = b2 % 64;
    lemma_symbol_value(v0);
    lemma_symbol_value(v1);
    lemma_symbol_value(v2);
    lemma_symbol_value(v3);
    assert(v0 * 4 + v1 / 16 == b0);
    assert((v1 % 16) * 16 + v2 / 4 == b1);
    assert((v2 % 4) * 64 + v3 == b2);
    let e = base64_group(group);
    assert(symbol_value(e[0]) == v0);
    assert(symbol_value(e[1]) == v1);
    if group.len() > 1 {
        assert(symbol_value(e[2]) == v2);
    }
    if group.len() > 2 {
        assert(symbol_value(e[3]) == v3);
    }
    assert(decode_group(e) =~= group);
}

/// Decoding an encoding gives the bytes back: a standard decoder reads
/// what `encode_base64` writes.
pub proof fn law_base64_decodes_back(bytes: Seq<u8>)
    ensures
        base64_decode(base64(bytes)) == bytes,
    decreases bytes.len(),
{
    if bytes.len() == 0 {
    } else if bytes.len() <= 3 {
        lemma_group_decodes(bytes);
        let e = base64_group(bytes);
        assert(e.take(4) =~= e);
        assert(e.skip(4) =~= Seq::<char>::empty());
        assert(base64_decode(e.skip(4)) =~= Seq::<u8>::empty());
        assert(base64_decode(e) =~= decode_group(e));
    } else {
        let head = base64_group(bytes.take(3));
        let rest = base64(bytes.skip(3));
        lemma_group_decodes(bytes.take(3));
        law_base64_decodes_back(bytes.skip(3));
        let e = head + rest;
        assert(e.take(4) =~= head);
        assert(e.skip(4) =~= rest);
        assert(bytes =~= bytes.take(3) + bytes.skip(3));
    }
}

/// A thumbnail is made at exactly the size asked for: when that size is at
/// least one pixel each way and no larger than the decoded image, the URL
/// carries the base64 of the JPEG that the image crate makes at that width
/// and height (none if it makes none); for any other size there is none.
pub proof fn law_thumbnail_has_the_requested_size(
    encoded: Seq<u8>,
    extension: Seq<char>,
    width: u32,
    height: u32,
    quality: u8,
)
    ensures
        (decoded_size(encoded, extension) matches Some((w, h)) && 1 <= width <= w && 1 <= height
            <= h) ==> thumbnail_url(encoded, extension, width, height, quality) == match jpeg_thumbnail_of(
            encoded,
            extension,
            width,
            height,
            quality,
        ) {
            Some(jpeg) => Some("data:image/jpeg;base64,"@ + base64(jpeg)),
            None => None::<Seq<char>>,
        },
        !(decoded_size(encoded, extension) matches Some((w, h)) && 1 <= width <= w && 1 <= height
            <= h) ==> thumbnail_url(encoded, extension, width, height, quality) is None,
{
}

} // verus!
