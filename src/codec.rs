//! Framing of an XYZ file: header, compressed body, palette and pixels.
use vstd::prelude::*;
use crate::image::{Image, ImageView, Rgb};
use crate::zlib::{deflate, inflate, zlib_inflated};

verus! {

/// The magic number, "XYZ1" read as a little-endian `u32`.
pub const MAGIC_NUMBER: u32 = 0x315a5958;

/// Bytes before the compressed body: magic, width and height.
pub const HEADER_LEN: usize = 8;

/// Bytes of the palette at the start of the body: 256 colours of three bytes.
pub const PALETTE_LEN: usize = 768;

/// Why an XYZ file could not be read.
#[derive(Clone, Copy, Debug, PartialEq, Eq, Structural)]
pub enum XyzError {
    /// The input ends inside the eight header bytes.
    TruncatedHeader,
    /// The first four bytes are not the magic number.
    InvalidHeader,
    /// The zlib stream could not be decompressed.
    Compression,
    /// The body ends inside the palette.
    TruncatedPalette,
    /// The body ends inside the pixel buffer.
    TruncatedBuffer,
    /// The body holds bytes after the pixel buffer.
    TrailingData,
}

/// Little-endian value of two bytes.
pub open spec fn le16_value(lo: u8, hi: u8) -> u16 {
    (lo as int + 256 * (hi as int)) as u16
}

/// Little-endian value of four bytes.
pub open spec fn le32_value(b: Seq<u8>) -> u32 {
    (b[0] as int + 256 * (b[1] as int) + 65536 * (b[2] as int) + 16777216 * (b[3] as int)) as u32
}

/// Little-endian bytes of a `u16`.
pub open spec fn le16(v: u16) -> Seq<u8> {
    seq![(v % 256) as u8, (v / 256) as u8]
}

/// Little-endian bytes of a `u32`.
pub open spec fn le32(v: u32) -> Seq<u8> {
    seq![(v % 256) as u8, (v / 256 % 256) as u8, (v / 65536 % 256) as u8, (v / 16777216) as u8]
}

/// The eight header bytes of an image of the given size.
pub open spec fn header_bytes(width: u16, height: u16) -> Seq<u8> {
    le32(MAGIC_NUMBER) + le16(width) + le16(height)
}

/// The palette as consecutive red, green, blue bytes.
pub open spec fn palette_bytes(palette: Seq<Rgb>) -> Seq<u8> {
    Seq::new(3 * palette.len(), |k: int| palette[k / 3][k % 3])
}

/// The uncompressed body of an image: palette, then pixel buffer.
pub open spec fn body_bytes(img: ImageView) -> Seq<u8> {
    palette_bytes(img.palette) + img.buffer
}

/// The colour at palette index `i` of a body.
pub open spec fn colour_at(body: Seq<u8>, i: int) -> Rgb {
    [body[3 * i], body[3 * i + 1], body[3 * i + 2]]
}

/// What a body decodes to for the given dimensions.
pub open spec fn parsed_body(width: u16, height: u16, body: Seq<u8>) -> Result<ImageView, XyzError> {
    let n = (width as nat) * (height as nat);
    if body.len() < PALETTE_LEN {
        Err(XyzError::TruncatedPalette)
    } else if body.len() < PALETTE_LEN + n {
        Err(XyzError::TruncatedBuffer)
    } else if body.len() > PALETTE_LEN + n {
        Err(XyzError::TrailingData)
    } else {
        Ok(ImageView {
            width,
            height,
            palette: Seq::new(256, |i: int| colour_at(body, i)),
            buffer: body.subrange(PALETTE_LEN as int, body.len() as int),
        })
    }
}

/// What a whole XYZ file decodes to.
pub open spec fn decoded(data: Seq<u8>) -> Result<ImageView, XyzError> {
    if data.len() < 4 {
        Err(XyzError::TruncatedHeader)
    } else if le32_value(data) != MAGIC_NUMBER {
        Err(XyzError::InvalidHeader)
    } else if data.len() < HEADER_LEN {
        Err(XyzError::TruncatedHeader)
    } else {
        match zlib_inflated(data.subrange(HEADER_LEN as int, data.len() as int)) {
            None => Err(XyzError::Compression),
            Some(body) => parsed_body(le16_value(data[4], data[5]), le16_value(data[6], data[7]), body),
        }
    }
}

/// `data` is an encoding of `img`: its header, then a zlib stream of its body.
pub open spec fn encoded(img: ImageView, data: Seq<u8>) -> bool {
    &&& data.len() >= HEADER_LEN
    &&& data.subrange(0, HEADER_LEN as int) == header_bytes(img.width, img.height)
    &&& zlib_inflated(data.subrange(HEADER_LEN as int, data.len() as int)) == Some(body_bytes(img))
}

/// The view of a decoding result.
pub open spec fn result_view(r: Result<Image, XyzError>) -> Result<ImageView, XyzError> {
    match r {
        Ok(img) => Ok(img@),
        Err(e) => Err(e),
    }
}

fn push_le16(out: &mut Vec<u8>, v: u16)
    ensures
        final(out)@ == old(out)@ + le16(v),
{
    out.push((v % 256) as u8);
    out.push((v / 256) as u8);
    assert(out@ =~= old(out)@ + le16(v));
}

fn push_le32(out: &mut Vec<u8>, v: u32)
    ensures
        final(out)@ == old(out)@ + le32(v),
{
    out.push((v % 256) as u8);
    out.push((v / 256 % 256) as u8);
    out.push((v / 65536 % 256) as u8);
    out.push((v / 16777216) as u8);
    assert(out@ =~= old(out)@ + le32(v));
}

/// The eight header bytes of an image of the given size.
pub fn header(width: u16, height: u16) -> (r: Vec<u8>)
    ensures
        r@ == header_bytes(width, height),
{
    let mut out: Vec<u8> = Vec::with_capacity(HEADER_LEN);
    push_le32(&mut out, MAGIC_NUMBER);
    push_le16(&mut out, width);
    push_le16(&mut out, height);
    assert(out@ =~= header_bytes(width, height));
    out
}

/// The uncompressed body of an image: its palette, then its pixel buffer.
pub fn body_of(image: &Image) -> (r: Vec<u8>)
    requires
        image.buffer@.len() + PALETTE_LEN <= usize::MAX,
    ensures
        r@ == body_bytes(image@),
{
    let n = image.buffer.len();
    let mut out: Vec<u8> = Vec::with_capacity(PALETTE_LEN + n);
    let mut i: usize = 0;
    while i < 256
        invariant
            i <= 256,
            image.palette@.len() == 256,
            out@.len() == 3 * i,
            forall|k: int| 0 <= k < 3 * i ==> out@[k] == #[trigger] palette_bytes(image.palette@)[k],
        decreases 256 - i,
    {
        let colour: Rgb = image.palette[i];
        out.push(colour[0]);
        out.push(colour[1]);
        out.push(colour[2]);
        proof {
            assert forall|k: int| 0 <= k < 3 * (i + 1) implies out@[k] == #[trigger] palette_bytes(image.palette@)[k] by {
                if k >= 3 * i {
                    assert(k / 3 == i);
                }
            }
        }
        i = i + 1;
    }
    assert(out@ =~= palette_bytes(image.palette@));
    let mut j: usize = 0;
    while j < n
        invariant
            n == image.buffer@.len(),
            j <= n,
            out@ =~= palette_bytes(image.palette@) + image.buffer@.subrange(0, j as int),
        decreases n - j,
    {
        out.push(image.buffer[j]);
        j = j + 1;
        assert(out@ =~= palette_bytes(image.palette@) + image.buffer@.subrange(0, j as int));
    }
    assert(image.buffer@.subrange(0, n as int) =~= image.buffer@);
    out
}

/// A whole XYZ file from its header fields and an already compressed body.
pub fn frame(width: u16, height: u16, stream: &[u8]) -> (r: Vec<u8>)
    ensures
        r@ == header_bytes(width, height) + stream@,
{
    let mut out = header(width, height);
    out.extend_from_slice(stream);
    out
}

/// Decodes an uncompressed body for an image of the given dimensions.
pub fn parse_body(width: u16, height: u16, body: &[u8]) -> (r: Result<Image, XyzError>)
    ensures
        result_view(r) == parsed_body(width, height, body@),
{
    assert((width as nat) * (height as nat) <= 0xffff * 0xffff) by (nonlinear_arith)
        requires
            width <= 0xffff,
            height <= 0xffff,
    ;
    let n: usize = (width as usize) * (height as usize);
    if body.len() < PALETTE_LEN {
        return Err(XyzError::TruncatedPalette);
    }
    if body.len() - PALETTE_LEN < n {
        return Err(XyzError::TruncatedBuffer);
    }
    if body.len() - PALETTE_LEN > n {
        return Err(XyzError::TrailingData);
    }
    let mut palette: [Rgb; 256] = [[0u8; 3]; 256];
    let mut i: usize = 0;
    while i < 256
        invariant
            i <= 256,
            body@.len() >= PALETTE_LEN,
            palette@.len() == 256,
            forall|k: int| 0 <= k < i ==> palette@[k] == #[trigger] colour_at(body@, k),
        decreases 256 - i,
    {
        palette[i] = [body[3 * i], body[3 * i + 1], body[3 * i + 2]];
        i = i + 1;
    }
    let mut buffer: Vec<u8> = Vec::with_capacity(n);
    let mut j: usize = 0;
    while j < n
        invariant
            body@.len() == PALETTE_LEN + n,
            body@.len() <= usize::MAX,
            j <= n,
            buffer@ =~= body@.subrange(PALETTE_LEN as int, PALETTE_LEN + j),
        decreases n - j,
    {
        buffer.push(body[PALETTE_LEN + j]);
        j = j + 1;
        assert(buffer@ =~= body@.subrange(PALETTE_LEN as int, PALETTE_LEN + j));
    }
    let image = Image { width, height, palette, buffer };
    assert(image.palette@ =~= Seq::new(256, |k: int| colour_at(body@, k)));
    Ok(image)
}

fn le16_at(data: &[u8], i: usize) -> (r: u16)
    requires
        i + 1 < data@.len(),
    ensures
        r == le16_value(data@[i as int], data@[i + 1]),
{
    data[i] as u16 + 256 * (data[i + 1] as u16)
}

fn le32_at(data: &[u8]) -> (r: u32)
    requires
        data@.len() >= 4,
    ensures
        r == le32_value(data@),
{
    data[0] as u32 + 256 * (data[1] as u32) + 65536 * (data[2] as u32) + 16777216 * (data[3] as u32)
}

/// Decodes a whole XYZ file: header, zlib stream, palette and pixels.
pub fn decode(data: &[u8]) -> (r: Result<Image, XyzError>)
    ensures
        result_view(r) == decoded(data@),
{
    if data.len() < 4 {
        return Err(XyzError::TruncatedHeader);
    }
    if le32_at(data) != MAGIC_NUMBER {
        return Err(XyzError::InvalidHeader);
    }
    if data.len() < HEADER_LEN {
        return Err(XyzError::TruncatedHeader);
    }
    let width = le16_at(data, 4);
    let height = le16_at(data, 6);
    let stream = vstd::slice::slice_subrange(data, HEADER_LEN, data.len());
    match inflate(stream) {
        Ok(body) => parse_body(width, height, body.as_slice()),
        Err(_) => Err(XyzError::Compression),
    }
}

/// Encodes an image as a whole XYZ file: the header, then a zlib stream of
/// the palette and the pixel buffer. The buffer is written as it is,
/// whatever its length.
pub fn encode(image: &Image) -> (r: Vec<u8>)
    requires
        image.buffer@.len() + PALETTE_LEN <= usize::MAX,
    ensures
        encoded(image@, r@),
{
    let body = body_of(image);
    let stream = deflate(body.as_slice()).unwrap();
    let data = frame(image.width, image.height, stream.as_slice());
    assert(data@.subrange(0, HEADER_LEN as int) =~= header_bytes(image.width, image.height));
    assert(data@.subrange(HEADER_LEN as int, data@.len() as int) =~= stream@);
    data
}

} // verus!
