//! Laws that relate encoding and decoding.
use vstd::prelude::*;
use crate::codec::{
    body_bytes, decoded, encoded, header_bytes, le16, le16_value, le32, le32_value, palette_bytes,
    parsed_body, colour_at, XyzError, HEADER_LEN, MAGIC_NUMBER, PALETTE_LEN,
};
use crate::image::ImageView;
use crate::zlib::zlib_inflated;

verus! {

/// The four magic bytes, "XYZ1".
pub open spec fn magic_bytes() -> Seq<u8> {
    seq![0x58u8, 0x59u8, 0x5au8, 0x31u8]
}

/// A file that starts with the header of a `width` by `height` image decodes
/// as its decompressed body does for those dimensions.
pub proof fn lemma_header_read(data: Seq<u8>, width: u16, height: u16)
    requires
        data.len() >= HEADER_LEN,
        data.subrange(0, HEADER_LEN as int) == header_bytes(width, height),
    ensures
        decoded(data) == match zlib_inflated(data.subrange(HEADER_LEN as int, data.len() as int)) {
            None => Err(XyzError::Compression),
            Some(body) => parsed_body(width, height, body),
        },
{
    let h = header_bytes(width, height);
    assert(h =~= seq![
        (MAGIC_NUMBER % 256) as u8, (MAGIC_NUMBER / 256 % 256) as u8,
        (MAGIC_NUMBER / 65536 % 256) as u8, (MAGIC_NUMBER / 16777216) as u8,
        (width % 256) as u8, (width / 256) as u8, (height % 256) as u8, (height / 256) as u8,
    ]);
    assert forall|i: int| 0 <= i < HEADER_LEN implies data[i] == h[i] by {
        assert(data[i] == data.subrange(0, HEADER_LEN as int)[i]);
    }
    assert(le32_value(data) == MAGIC_NUMBER);
    assert(le16_value(data[4], data[5]) == width);
    assert(le16_value(data[6], data[7]) == height);
}

/// Decoding an encoding of a well-formed image gives back that image.
pub proof fn lemma_round_trip(img: ImageView, data: Seq<u8>)
    requires
        img.well_formed(),
        encoded(img, data),
    ensures
        decoded(data) == Ok::<ImageView, XyzError>(img),
{
    lemma_header_read(data, img.width, img.height);
    let body = body_bytes(img);
    assert(body.len() == PALETTE_LEN + img.pixel_count());
    assert forall|i: int| 0 <= i < 256 implies #[trigger] colour_at(body, i) == img.palette[i] by {
        let c = colour_at(body, i);
        assert forall|j: int| 0 <= j < 3 implies c[j] == img.palette[i][j] by {
            assert(body[3 * i + j] == palette_bytes(img.palette)[3 * i + j]);
            assert((3 * i + j) / 3 == i);
            assert((3 * i + j) % 3 == j);
        }
        assert(c =~= img.palette[i]);
    }
    assert(Seq::new(256, |i: int| colour_at(body, i)) =~= img.palette);
    assert(body.subrange(PALETTE_LEN as int, body.len() as int) =~= img.buffer);
}

/// A file whose first four bytes are not the magic bytes is rejected as an
/// invalid header, whatever follows them.
pub proof fn lemma_magic_rejected(data: Seq<u8>)
    requires
        data.len() >= 4,
        data.subrange(0, 4) != magic_bytes(),
    ensures
        decoded(data) == Err::<ImageView, XyzError>(XyzError::InvalidHeader),
{
    if le32_value(data) == MAGIC_NUMBER {
        lemma_magic_value(data);
    }
}

/// Only the magic bytes have the magic number as their little-endian value.
proof fn lemma_magic_value(data: Seq<u8>)
    requires
        data.len() >= 4,
        le32_value(data) == MAGIC_NUMBER,
    ensures
        data.subrange(0, 4) == magic_bytes(),
        magic_bytes() == le32(MAGIC_NUMBER),
{
    let (b0, b1, b2, b3) = (data[0] as int, data[1] as int, data[2] as int, data[3] as int);
    assert(b0 == 0x58 && b1 == 0x59 && b2 == 0x5a && b3 == 0x31) by (nonlinear_arith)
        requires
            0 <= b0 < 256,
            0 <= b1 < 256,
            0 <= b2 < 256,
            0 <= b3 < 256,
            (b0 + 256 * b1 + 65536 * b2 + 16777216 * b3) as u32 == 0x315a5958,
    ;
    assert(data.subrange(0, 4) =~= magic_bytes());
    assert(magic_bytes() =~= le32(MAGIC_NUMBER));
}

/// Two bytes are the little-endian encoding of their own value.
proof fn lemma_le16_bytes(lo: u8, hi: u8)
    ensures
        le16(le16_value(lo, hi)) == seq![lo, hi],
{
    let v = le16_value(lo, hi);
    assert(v as int == lo as int + 256 * (hi as int));
    assert(v % 256 == lo);
    assert(v / 256 == hi);
    assert(le16(v) =~= seq![lo, hi]);
}

/// Whatever decodes successfully is an encoding of the image it decodes to,
/// and that image is well formed.
pub proof fn lemma_decoded_is_encoded(data: Seq<u8>)
    requires
        decoded(data) is Ok,
    ensures
        decoded(data)->Ok_0.well_formed(),
        encoded(decoded(data)->Ok_0, data),
{
    let img = decoded(data)->Ok_0;
    lemma_magic_value(data);
    lemma_le16_bytes(data[4], data[5]);
    lemma_le16_bytes(data[6], data[7]);
    assert(data.subrange(0, HEADER_LEN as int) =~= header_bytes(img.width, img.height));
    let body = zlib_inflated(data.subrange(HEADER_LEN as int, data.len() as int))->Some_0;
    let pal = palette_bytes(img.palette);
    assert forall|k: int| 0 <= k < PALETTE_LEN implies #[trigger] pal[k] == body[k] by {
        assert(3 * (k / 3) + k % 3 == k);
    }
    assert(body_bytes(img) =~= body);
}

/// Encoding a decoded image again gives the same header and a stream that
/// decompresses to the same body, though the compressed bytes may differ.
pub proof fn lemma_reencode(data: Seq<u8>, again: Seq<u8>)
    requires
        decoded(data) is Ok,
        encoded(decoded(data)->Ok_0, again),
    ensures
        again.subrange(0, HEADER_LEN as int) == data.subrange(0, HEADER_LEN as int),
        zlib_inflated(again.subrange(HEADER_LEN as int, again.len() as int))
            == zlib_inflated(data.subrange(HEADER_LEN as int, data.len() as int)),
{
    lemma_decoded_is_encoded(data);
}

/// A file with a valid header whose body is shorter than the palette is
/// rejected as a truncated palette; one whose body holds the palette but not
/// every pixel is rejected as a truncated buffer.
pub proof fn lemma_truncation_rejected(data: Seq<u8>, width: u16, height: u16, body: Seq<u8>)
    requires
        data.len() >= HEADER_LEN,
        data.subrange(0, HEADER_LEN as int) == header_bytes(width, height),
        zlib_inflated(data.subrange(HEADER_LEN as int, data.len() as int)) == Some(body),
    ensures
        body.len() < PALETTE_LEN ==> decoded(data) == Err::<ImageView, XyzError>(XyzError::TruncatedPalette),
        PALETTE_LEN <= body.len() < PALETTE_LEN + (width as nat) * (height as nat)
            ==> decoded(data) == Err::<ImageView, XyzError>(XyzError::TruncatedBuffer),
{
    lemma_header_read(data, width, height);
}

/// A file with a valid header whose body runs past the last pixel is
/// rejected as holding trailing data.
pub proof fn lemma_trailing_rejected(data: Seq<u8>, width: u16, height: u16, body: Seq<u8>)
    requires
        data.len() >= HEADER_LEN,
        data.subrange(0, HEADER_LEN as int) == header_bytes(width, height),
        zlib_inflated(data.subrange(HEADER_LEN as int, data.len() as int)) == Some(body),
        body.len() > PALETTE_LEN + (width as nat) * (height as nat),
    ensures
        decoded(data) == Err::<ImageView, XyzError>(XyzError::TrailingData),
{
    lemma_header_read(data, width, height);
}

/// An image of no pixels encodes to a body that is exactly its palette, and
/// decodes back with an empty buffer.
pub proof fn lemma_empty_image(img: ImageView, data: Seq<u8>)
    requires
        img.width == 0,
        img.height == 0,
        img.well_formed(),
        encoded(img, data),
    ensures
        zlib_inflated(data.subrange(HEADER_LEN as int, data.len() as int))
            == Some(palette_bytes(img.palette)),
        palette_bytes(img.palette).len() == PALETTE_LEN,
        decoded(data) == Ok::<ImageView, XyzError>(img),
        img.buffer.len() == 0,
{
    assert(body_bytes(img) =~= palette_bytes(img.palette));
    lemma_round_trip(img, data);
}

} // verus!
