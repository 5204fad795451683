//! The GIF89a byte layout that the `gif` crate's encoder writes, and the
//! trusted items through which the library drives that encoder.
//!
//! Everything the encoder emits is stated here byte by byte, except the LZW
//! compression of a frame's pixels, which is named (`gif_lzw_data`).

use vstd::prelude::*;

verus! {

/// `std::io::Error`, carried through as an opaque value.
#[verifier::external_type_specification]
#[verifier::external_body]
pub struct ExIoError(std::io::Error);

/// `gif::EncodingError`, carried through as an opaque value.
#[verifier::external_type_specification]
#[verifier::external_body]
pub struct ExEncodingError(gif::EncodingError);

/// `gif::Repeat`: how often a decoder should loop the animation.
#[verifier::external_type_specification]
pub struct ExRepeat(gif::Repeat);

/// The `gif` crate's streaming encoder, writing into a byte vector.
///
/// The encoder is held in a private field of a struct of the library's own:
/// Verus does not accept a declaration of `gif::Encoder<W>`, whose bound
/// `W: std::io::Write` it cannot resolve. Its state is described by the
/// names `gif_written` and `gif_has_global_palette`.
#[verifier::external_body]
pub struct GifEncoder {
    inner: gif::Encoder<Vec<u8>>,
}

/// The bytes an encoder has written into its `Vec<u8>` writer and that have
/// not been taken out of it yet.
pub uninterp spec fn gif_written(encoder: GifEncoder) -> Seq<u8>;

/// Whether the encoder was created with a non-empty global colour table
/// (frames without a local palette need one).
pub uninterp spec fn gif_has_global_palette(encoder: GifEncoder) -> bool;

/// The result of the `gif` crate's LZW compression of a frame's indexed
/// pixels: the minimum code size byte followed by the compressed code stream.
pub uninterp spec fn gif_lzw_data(pixels: Seq<u8>) -> Seq<u8>;

/// A `u16` as two little-endian bytes.
pub open spec fn le16(v: u16) -> Seq<u8> {
    seq![(v % 256) as u8, (v / 256) as u8]
}

/// The signature and version that open every GIF89a file: `"GIF89a"`.
pub open spec fn gif_signature() -> Seq<u8> {
    seq![0x47u8, 0x49u8, 0x46u8, 0x38u8, 0x39u8, 0x61u8]
}

/// The size field of a colour table with `n` colours: the table holds
/// `2^(field + 1)` entries, the smallest such power of two that fits `n`
/// (at least 2, at most 256).
pub open spec fn color_table_size_field(n: nat) -> nat {
    if n <= 2 {
        0
    } else if n <= 4 {
        1
    } else if n <= 8 {
        2
    } else if n <= 16 {
        3
    } else if n <= 32 {
        4
    } else if n <= 64 {
        5
    } else if n <= 128 {
        6
    } else {
        7
    }
}

/// `2^(field + 1)`: the number of entries of a colour table with that size field.
pub open spec fn color_table_entries(field: nat) -> nat {
    if field == 0 {
        2
    } else if field == 1 {
        4
    } else if field == 2 {
        8
    } else if field == 3 {
        16
    } else if field == 4 {
        32
    } else if field == 5 {
        64
    } else if field == 6 {
        128
    } else {
        256
    }
}

/// `k` zero bytes.
pub open spec fn zero_bytes(k: nat) -> Seq<u8> {
    Seq::new(k, |i: int| 0u8)
}

/// The colour table written for `palette` (`[r, g, b, ...]`): its whole
/// colours, padded with black entries up to the table's power-of-two size.
pub open spec fn gif_color_table(palette: Seq<u8>) -> Seq<u8> {
    let n = palette.len() / 3;
    let field = color_table_size_field(n);
    palette.take(3 * n as int) + zero_bytes((3 * (color_table_entries(field) - n)) as nat)
}

/// Header, logical screen descriptor and global colour table, as written
/// by `gif::Encoder::new(w, width, height, palette)`.
pub open spec fn gif_screen(width: u16, height: u16, palette: Seq<u8>) -> Seq<u8> {
    let field = color_table_size_field(palette.len() / 3);
    gif_signature() + le16(width) + le16(height) + seq![
        (0x80 + field + 16 * field) as u8,
        0u8,
        0u8,
    ] + gif_color_table(palette)
}

/// The application identifier of the looping extension: `"NETSCAPE2.0"`.
pub open spec fn netscape_id() -> Seq<u8> {
    seq![0x4Eu8, 0x45u8, 0x54u8, 0x53u8, 0x43u8, 0x41u8, 0x50u8, 0x45u8, 0x32u8, 0x2Eu8, 0x30u8]
}

/// The loop count that the looping extension records: 0 means forever.
pub open spec fn repeat_count(repeat: gif::Repeat) -> u16 {
    match repeat {
        gif::Repeat::Finite(k) => k,
        gif::Repeat::Infinite => 0,
    }
}

/// The looping (NETSCAPE2.0 application) extension written by
/// `Encoder::set_repeat`; nothing at all for `Finite(0)`.
pub open spec fn gif_repeat_extension(repeat: gif::Repeat) -> Seq<u8> {
    if repeat == gif::Repeat::Finite(0) {
        Seq::empty()
    } else {
        seq![0x21u8, 0xFFu8, 0x0Bu8] + netscape_id() + seq![0x03u8, 0x01u8] + le16(
            repeat_count(repeat),
        ) + seq![0x00u8]
    }
}

/// Graphic control extension of a frame built by `Frame::from_indexed_pixels`
/// with no transparent index: disposal "keep", the given delay (in 10 ms units).
pub open spec fn gif_control_extension(delay: u16) -> Seq<u8> {
    seq![0x21u8, 0xF9u8, 0x04u8, 0x04u8] + le16(delay) + seq![0x00u8, 0x00u8]
}

/// Image descriptor of a full-screen, non-interlaced frame at the origin
/// that uses the global colour table.
pub open spec fn gif_image_descriptor(width: u16, height: u16) -> Seq<u8> {
    seq![0x2Cu8, 0u8, 0u8, 0u8, 0u8] + le16(width) + le16(height) + seq![0x00u8]
}

/// Data split into GIF sub-blocks: runs of 255 bytes, then the rest, each
/// preceded by its length.
pub open spec fn gif_sub_blocks(data: Seq<u8>) -> Seq<u8>
    decreases data.len(),
{
    if data.len() == 0 {
        Seq::empty()
    } else if data.len() >= 255 {
        seq![255u8] + data.take(255) + gif_sub_blocks(data.skip(255))
    } else {
        seq![data.len() as u8] + data
    }
}

/// Table-based image data: the LZW minimum code size, the code stream in
/// sub-blocks, and the block terminator 0.
pub open spec fn gif_image_data(lzw: Seq<u8>) -> Seq<u8> {
    if lzw.len() == 0 {
        seq![2u8, 0u8]
    } else {
        seq![lzw[0]] + gif_sub_blocks(lzw.drop_first()) + seq![0u8]
    }
}

/// Everything `Encoder::write_frame` writes for a frame made by
/// `Frame::from_indexed_pixels(width, height, pixels, None)` with the given
/// delay, when the encoder has a global colour table.
pub open spec fn gif_frame_block(width: u16, height: u16, pixels: Seq<u8>, delay: u16) -> Seq<u8> {
    gif_control_extension(delay) + gif_image_descriptor(width, height) + gif_image_data(
        gif_lzw_data(pixels),
    )
}

/// The trailer byte that closes a GIF file.
pub open spec fn gif_trailer() -> Seq<u8> {
    seq![0x3Bu8]
}

/// Calls `gif::Encoder::new` on an empty `Vec<u8>`.
///
/// Claims what the `gif` source shows: the call fails exactly when the
/// palette holds more than 256 colours (writes into a `Vec<u8>` append and
/// do not fail); on success the vector holds the signature, logical screen
/// descriptor and global colour table (`gif_screen`), and the encoder has a
/// global palette exactly when the palette holds a whole colour.
#[verifier::external_body]
pub(crate) fn gif_encoder_new(width: u16, height: u16, palette: &[u8]) -> (r: Result<
    GifEncoder,
    gif::EncodingError,
>)
    ensures
        r is Err <==> palette@.len() / 3 > 256,
        r matches Ok(encoder) ==> gif_written(encoder) == gif_screen(width, height, palette@)
            && gif_has_global_palette(encoder) == (palette@.len() / 3 > 0),
{
    match gif::Encoder::new(Vec::new(), width, height, palette) {
        Ok(inner) => Ok(GifEncoder { inner }),
        Err(err) => Err(err),
    }
}

/// Calls `gif::Encoder::set_repeat`.
///
/// Claims what the `gif` source shows: the call succeeds (its only failure
/// is a failing writer, and writes into a `Vec<u8>` do not fail) and
/// appends the looping extension (`gif_repeat_extension`); `Finite(0)`
/// writes nothing.
#[verifier::external_body]
pub(crate) fn gif_set_repeat(encoder: &mut GifEncoder, repeat: gif::Repeat) -> (r: Result<
    (),
    gif::EncodingError,
>)
    ensures
        gif_has_global_palette(*final(encoder)) == gif_has_global_palette(*old(encoder)),
        r is Ok,
        gif_written(*final(encoder)) == gif_written(*old(encoder)) + gif_repeat_extension(repeat),
        repeat == gif::Repeat::Finite(0) ==> *final(encoder) == *old(encoder),
{
    encoder.inner.set_repeat(repeat)
}

/// Calls `gif::Encoder::write_frame` on the frame that
/// `gif::Frame::from_indexed_pixels(width, height, pixels, None)` builds,
/// with its `delay` set (in units of 10 ms).
///
/// Claims what the `gif` source shows: the call fails exactly when the
/// encoder has no global palette (the frame has no local one); otherwise
/// the frame's control extension, image descriptor and image data (see
/// `gif_frame_block`) are appended. Writes into a `Vec<u8>` do not fail,
/// and running out of memory (the reservation for the compressed data) is
/// not modelled, as for every allocation. The LZW compression itself is
/// named, not stated, and what the failing call leaves in the vector is not
/// stated.
#[verifier::external_body]
pub(crate) fn gif_write_indexed_frame(
    encoder: &mut GifEncoder,
    width: u16,
    height: u16,
    pixels: Vec<u8>,
    delay: u16,
) -> (r: Result<(), gif::EncodingError>)
    requires
        pixels@.len() == width as int * height as int,
    ensures
        gif_has_global_palette(*final(encoder)) == gif_has_global_palette(*old(encoder)),
        r is Err <==> !gif_has_global_palette(*old(encoder)),
        r is Ok ==> gif_written(*final(encoder)) == gif_written(*old(encoder))
            + gif_control_extension(delay) + gif_image_descriptor(width, height) + gif_image_data(
            gif_lzw_data(pixels@),
        ),
{
    let mut frame = gif::Frame::from_indexed_pixels(width, height, pixels, None);
    frame.delay = delay;
    encoder.inner.write_frame(&frame)
}

/// Takes the written bytes out of the encoder's vector through
/// `gif::Encoder::get_mut`, leaving the vector empty.
#[verifier::external_body]
pub(crate) fn gif_take_written(encoder: &mut GifEncoder) -> (r: Vec<u8>)
    ensures
        r@ == gif_written(*old(encoder)),
        gif_written(*final(encoder)) == Seq::<u8>::empty(),
        gif_has_global_palette(*final(encoder)) == gif_has_global_palette(*old(encoder)),
{
    std::mem::take(encoder.inner.get_mut())
}

/// Calls `gif::Encoder::into_inner`, which writes the trailer and hands the
/// vector back. Claims that it succeeds (writes into a `Vec<u8>` do not
/// fail) and that the vector holds what was written followed by the
/// trailer byte 0x3B.
#[verifier::external_body]
pub(crate) fn gif_finish(encoder: GifEncoder) -> (r: Result<Vec<u8>, std::io::Error>)
    ensures
        r is Ok,
        r matches Ok(bytes) ==> bytes@ == gif_written(encoder) + gif_trailer(),
{
    encoder.inner.into_inner()
}

/// Turns a `gif::EncodingError` into an `std::io::Error` of kind `Other`
/// that carries its message. Nothing is claimed of the result.
#[verifier::external_body]
pub(crate) fn encoding_to_io(err: gif::EncodingError) -> std::io::Error {
    std::io::Error::other(err.to_string())
}

} // verus!
