use std::io::Write;

use flate2::write::{ZlibDecoder, ZlibEncoder};
use flate2::Compression;
use xyz::{body_of, decode, encode, frame, header, parse_body, Image, XyzError};

fn compress(bytes: &[u8]) -> Vec<u8> {
    let mut e = ZlibEncoder::new(Vec::new(), Compression::default());
    e.write_all(bytes).unwrap();
    e.finish().unwrap()
}

fn decompress(bytes: &[u8]) -> Vec<u8> {
    let mut d = ZlibDecoder::new(Vec::new());
    d.write_all(bytes).unwrap();
    d.finish().unwrap()
}

fn sample_image(width: u16, height: u16) -> Image {
    let mut palette = [[0u8; 3]; 256];
    for (i, slot) in palette.iter_mut().enumerate() {
        *slot = [i as u8, (i * 7) as u8, (255 - i) as u8];
    }
    let n = width as usize * height as usize;
    let buffer = (0..n).map(|i| (i * 31 % 256) as u8).collect();
    Image { width, height, palette, buffer }
}

/// A file with a valid header for `width` by `height` and the given body.
fn file_with_body(width: u16, height: u16, body: &[u8]) -> Vec<u8> {
    frame(width, height, &compress(body))
}

#[test]
fn round_trip_keeps_every_field() {
    for &(w, h) in &[(1u16, 1u16), (3, 5), (16, 9), (300, 2)] {
        let img = sample_image(w, h);
        let data = encode(&img);
        let back = decode(&data).unwrap();
        assert_eq!(back.width, w);
        assert_eq!(back.height, h);
        assert_eq!(back.palette, img.palette);
        assert_eq!(back.buffer, img.buffer);
    }
}

#[test]
fn wrong_magic_is_invalid_header() {
    let img = sample_image(2, 2);
    let mut data = encode(&img);
    data[3] = b'2';
    assert_eq!(decode(&data).unwrap_err(), XyzError::InvalidHeader);
    assert_eq!(decode(b"PNG\x89rest of it").unwrap_err(), XyzError::InvalidHeader);
    assert_eq!(decode(&[0, 0, 0, 0]).unwrap_err(), XyzError::InvalidHeader);
}

#[test]
fn short_header_is_truncated_header() {
    assert_eq!(decode(&[]).unwrap_err(), XyzError::TruncatedHeader);
    assert_eq!(decode(b"XYZ").unwrap_err(), XyzError::TruncatedHeader);
    assert_eq!(decode(b"XYZ1\x02\x00\x01").unwrap_err(), XyzError::TruncatedHeader);
}

#[test]
fn short_body_is_truncated_palette() {
    let data = file_with_body(1, 1, &[0u8; 767]);
    assert_eq!(decode(&data).unwrap_err(), XyzError::TruncatedPalette);
    let data = file_with_body(0, 0, &[]);
    assert_eq!(decode(&data).unwrap_err(), XyzError::TruncatedPalette);
}

#[test]
fn missing_pixels_are_truncated_buffer() {
    let data = file_with_body(2, 2, &[0u8; 768 + 3]);
    assert_eq!(decode(&data).unwrap_err(), XyzError::TruncatedBuffer);
    let data = file_with_body(2, 2, &[0u8; 768]);
    assert_eq!(decode(&data).unwrap_err(), XyzError::TruncatedBuffer);
}

#[test]
fn extra_bytes_are_trailing_data() {
    let data = file_with_body(2, 2, &[0u8; 768 + 5]);
    assert_eq!(decode(&data).unwrap_err(), XyzError::TrailingData);
    let data = file_with_body(0, 0, &[0u8; 769]);
    assert_eq!(decode(&data).unwrap_err(), XyzError::TrailingData);
}

#[test]
fn malformed_stream_is_compression_error() {
    let mut data = header(1, 1);
    data.extend_from_slice(&[1, 2, 3, 4, 5, 6]);
    assert_eq!(decode(&data).unwrap_err(), XyzError::Compression);
}

#[test]
fn rgb_expansion_replaces_indices_by_colours() {
    let mut palette = [[0u8; 3]; 256];
    palette[5] = [10, 20, 30];
    palette[7] = [40, 50, 60];
    let img = Image { width: 2, height: 1, palette, buffer: vec![5, 7] };
    assert_eq!(img.to_rgb_buffer(), vec![10, 20, 30, 40, 50, 60]);
}

#[test]
fn rgb_expansion_of_empty_image_is_empty() {
    let img = sample_image(0, 7);
    assert!(img.to_rgb_buffer().is_empty());
}

#[test]
fn zero_size_image_body_is_the_palette() {
    let img = sample_image(0, 0);
    let data = encode(&img);
    assert_eq!(&data[..8], &[0x58, 0x59, 0x5a, 0x31, 0, 0, 0, 0]);
    let body = decompress(&data[8..]);
    assert_eq!(body.len(), 768);
    assert_eq!(body, body_of(&img));
    let back = decode(&data).unwrap();
    assert!(back.buffer.is_empty());
    assert_eq!(back.palette, img.palette);
}

#[test]
fn single_red_pixel_scenario() {
    let mut palette = [[0u8; 3]; 256];
    palette[0] = [255, 0, 0];
    let img = Image { width: 1, height: 1, palette, buffer: vec![0] };
    let data = encode(&img);
    let back = decode(&data).unwrap();
    assert_eq!(back.buffer, vec![0]);
    assert_eq!(back.palette[0], [255, 0, 0]);
}

#[test]
fn header_is_magic_then_little_endian_sizes() {
    assert_eq!(header(0x1234, 0xabcd), vec![0x58, 0x59, 0x5a, 0x31, 0x34, 0x12, 0xcd, 0xab]);
    assert_eq!(&header(2, 1)[..4], b"XYZ1");
}

#[test]
fn encoded_body_is_compressed() {
    let img = sample_image(4, 4);
    let data = encode(&img);
    let body = body_of(&img);
    assert_eq!(&data[..8], header(4, 4).as_slice());
    assert_ne!(&data[8..], body.as_slice());
    assert_eq!(decompress(&data[8..]), body);
}

#[test]
fn body_layout_is_palette_then_pixels() {
    let mut palette = [[0u8; 3]; 256];
    palette[1] = [1, 2, 3];
    palette[255] = [7, 8, 9];
    let img = Image { width: 3, height: 1, palette, buffer: vec![1, 255, 0] };
    let body = body_of(&img);
    assert_eq!(body.len(), 771);
    assert_eq!(&body[3..6], &[1, 2, 3]);
    assert_eq!(&body[765..768], &[7, 8, 9]);
    assert_eq!(&body[768..], &[1, 255, 0]);
}

#[test]
fn parse_body_reads_palette_and_pixels() {
    let mut body = vec![0u8; 768];
    body[0] = 9;
    body[4] = 11;
    body.extend_from_slice(&[1, 0]);
    let img = parse_body(2, 1, &body).unwrap();
    assert_eq!(img.palette[0], [9, 0, 0]);
    assert_eq!(img.palette[1], [0, 11, 0]);
    assert_eq!(img.buffer, vec![1, 0]);
    assert_eq!(img.to_rgb_buffer(), vec![0, 11, 0, 9, 0, 0]);
}

#[test]
fn decode_of_foreign_encoder_output() {
    let mut body = vec![3u8; 768];
    body.extend_from_slice(&[0, 1, 2, 3, 4, 5]);
    let data = file_with_body(3, 2, &body);
    let img = decode(&data).unwrap();
    assert_eq!((img.width, img.height), (3, 2));
    assert_eq!(img.buffer, vec![0, 1, 2, 3, 4, 5]);
    assert_eq!(img.palette[200], [3, 3, 3]);
}

#[test]
fn header_sizes_are_little_endian() {
    let img = Image {
        width: 0x0102,
        height: 0x0304,
        palette: [[0u8; 3]; 256],
        buffer: vec![0u8; 0x0102 * 0x0304],
    };
    let data = encode(&img);
    assert_eq!(&data[..8], &[0x58, 0x59, 0x5a, 0x31, 0x02, 0x01, 0x04, 0x03]);
    assert_eq!(decode(&data).unwrap().buffer.len(), 0x0102 * 0x0304);
}

#[test]
fn mismatched_buffer_is_written_whole() {
    let mut img = sample_image(2, 2);
    img.buffer = vec![1, 2, 3, 4, 5, 6];
    let data = encode(&img);
    let body = decompress(&data[8..]);
    assert_eq!(body.len(), 768 + 6);
    assert_eq!(&body[768..], &[1, 2, 3, 4, 5, 6]);
    assert_eq!(decode(&data).unwrap_err(), XyzError::TrailingData);
    img.buffer = vec![1];
    assert_eq!(decode(&encode(&img)).unwrap_err(), XyzError::TruncatedBuffer);
}

#[test]
fn reencoding_keeps_header_and_body() {
    let mut body = vec![9u8; 768];
    body.extend_from_slice(&[4, 3, 2]);
    let data = file_with_body(3, 1, &body);
    let again = encode(&decode(&data).unwrap());
    assert_eq!(&again[..8], &data[..8]);
    assert_eq!(decompress(&again[8..]), decompress(&data[8..]));
}

#[test]
fn encoded_body_has_zlib_header() {
    let data = encode(&sample_image(5, 3));
    assert_eq!(data[8] & 0x0f, 8);
    assert_eq!((data[8] as u32 * 256 + data[9] as u32) % 31, 0);
}
