use duoswitch::thumbnail::{
    encode_base64, jpeg_data_url, thumbnail_data_url, thumbnail_source_size,
};

#[test]
fn base64_matches_rfc4648_vectors() {
    assert_eq!(encode_base64(b""), "");
    assert_eq!(encode_base64(b"f"), "Zg==");
    assert_eq!(encode_base64(b"fo"), "Zm8=");
    assert_eq!(encode_base64(b"foo"), "Zm9v");
    assert_eq!(encode_base64(b"foob"), "Zm9vYg==");
    assert_eq!(encode_base64(b"fooba"), "Zm9vYmE=");
    assert_eq!(encode_base64(b"foobar"), "Zm9vYmFy");
}

#[test]
fn base64_handles_high_bytes() {
    assert_eq!(encode_base64(&[0xFF, 0xFE, 0xFD]), "//79");
    assert_eq!(encode_base64(&[0x00, 0x00, 0x00]), "AAAA");
}

#[test]
fn base64_length_is_four_per_started_group() {
    for n in 0..40usize {
        let bytes: Vec<u8> = (0..n).map(|i| (i * 37 % 256) as u8).collect();
        assert_eq!(encode_base64(&bytes).len(), 4 * ((n + 2) / 3));
    }
}

#[test]
fn data_url_carries_the_jpeg_prefix() {
    assert_eq!(jpeg_data_url(&[0xFF, 0xD8, 0xFF]), "data:image/jpeg;base64,/9j/");
    assert_eq!(jpeg_data_url(&[]), "data:image/jpeg;base64,");
}

#[test]
fn base64_uses_the_alphabet_then_padding() {
    for n in 0..12usize {
        let bytes: Vec<u8> = (0..n).map(|i| (i * 91 + 7) as u8).collect();
        let text = encode_base64(&bytes);
        let pad = (3 - n % 3) % 3;
        let (body, tail) = text.split_at(text.len() - pad);
        assert!(body.chars().all(|c| c.is_ascii_alphanumeric() || c == '+' || c == '/'));
        assert!(tail.chars().all(|c| c == '='));
    }
}

#[test]
fn base64_of_whole_groups_concatenates() {
    let a = [0x14u8, 0xFB, 0x9C, 0x03, 0xD9, 0x7E];
    let b = [0x01u8, 0x02];
    let joined: Vec<u8> = a.iter().chain(b.iter()).copied().collect();
    assert_eq!(encode_base64(&joined), encode_base64(&a) + &encode_base64(&b));
    assert_eq!(encode_base64(&joined), "FPucA9l+AQI=");
}

fn png_bytes(width: u32, height: u32) -> Vec<u8> {
    let picture = image::RgbImage::from_pixel(width, height, image::Rgb([200, 30, 30]));
    let mut out = std::io::Cursor::new(Vec::new());
    picture.write_to(&mut out, image::ImageFormat::Png).expect("PNG");
    out.into_inner()
}

#[test]
fn source_size_is_read_by_the_extension() {
    let png = png_bytes(4, 2);
    assert_eq!(thumbnail_source_size(&png, "png"), Some((4, 2)));
    assert_eq!(thumbnail_source_size(&png, "PNG"), Some((4, 2)));
    assert_eq!(thumbnail_source_size(&png, "jpg"), None);
    assert_eq!(thumbnail_source_size(&png, ""), None);
    assert_eq!(thumbnail_source_size(b"not an image", "png"), None);
}

#[test]
fn thumbnail_is_a_jpeg_data_url() {
    let png = png_bytes(4, 2);
    let url = thumbnail_data_url(&png, "png", 2, 1, 72).expect("缩略图");
    assert!(url.starts_with("data:image/jpeg;base64,/9j/"), "{url}");
    assert!(url.len() > "data:image/jpeg;base64,".len() + 4);
    assert_eq!(thumbnail_data_url(&png, "png", 5, 1, 72), None);
    assert_eq!(thumbnail_data_url(&png, "png", 0, 1, 72), None);
    assert_eq!(thumbnail_data_url(&png, "png", 2, 3, 72), None);
    assert_eq!(thumbnail_data_url(b"not an image", "png", 1, 1, 72), None);
}

fn decode(text: &str) -> Vec<u8> {
    let value = |c: u8| -> u32 {
        match c {
            b'A'..=b'Z' => (c - b'A') as u32,
            b'a'..=b'z' => (c - b'a') as u32 + 26,
            b'0'..=b'9' => (c - b'0') as u32 + 52,
            b'+' => 62,
            b'/' => 63,
            _ => 0,
        }
    };
    let mut out = Vec::new();
    for group in text.as_bytes().chunks(4) {
        let n = (value(group[0]) << 18) | (value(group[1]) << 12) | (value(group[2]) << 6) | value(group[3]);
        out.push((n >> 16) as u8);
        if group[2] != b'=' {
            out.push((n >> 8) as u8);
        }
        if group[3] != b'=' {
            out.push(n as u8);
        }
    }
    out
}

#[test]
fn base64_decodes_back() {
    for n in 0..20usize {
        let bytes: Vec<u8> = (0..n).map(|i| (i * 53 + 200) as u8).collect();
        assert_eq!(decode(&encode_base64(&bytes)), bytes);
    }
}
