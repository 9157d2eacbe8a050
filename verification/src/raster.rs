//! The raster bridge: buffer validation, still-image, image-sequence and
//! animated-GIF export, and image import, delegating pixel encoding to
//! the `image` codec behind trusted wrappers.

use vstd::prelude::*;

use crate::codec::push_all;
use crate::errors::CommandError;
use crate::messages::{ImageMessage, ImageSize, ImagesMessage, ImagesMessageGif};
use crate::textnum::{dec_digits, format_decimal};

verus! {

/// A raster buffer is well formed when it holds exactly four bytes
/// (one RGBA sample) for every pixel of a `width` by `height` image.
pub open spec fn buffer_valid(width: u32, height: u32, data: Seq<u8>) -> bool {
    data.len() == width * height * 4
}

/// Every buffer of a batch is well formed for the shared dimensions.
pub open spec fn buffers_valid(width: u32, height: u32, data: Seq<Seq<u8>>) -> bool {
    forall|i: int| 0 <= i < data.len() ==> buffer_valid(width, height, #[trigger] data[i])
}

/// Decides `buffer_valid` for an in-memory buffer.
pub fn check_buffer(width: u32, height: u32, data: &Vec<u8>) -> (r: bool)
    ensures
        r == buffer_valid(width, height, data@),
{
    let w: u128 = width as u128;
    let h: u128 = height as u128;
    proof {
        assert(w * h * 4 <= 0xffff_ffff * 0xffff_ffff * 4) by (nonlinear_arith)
            requires
                w <= 0xffff_ffff,
                h <= 0xffff_ffff,
        ;
    }
    let need: u128 = w * h * 4;
    (data.len() as u128) == need
}

/// Decides `buffers_valid` for a batch of buffers.
pub fn check_buffers(width: u32, height: u32, data: &Vec<Vec<u8>>) -> (r: bool)
    ensures
        r == buffers_valid(width, height, data@.map_values(|b: Vec<u8>| b@)),
{
    let ghost views = data@.map_values(|b: Vec<u8>| b@);
    let mut i: usize = 0;
    while i < data.len()
        invariant
            0 <= i <= data.len(),
            views == data@.map_values(|b: Vec<u8>| b@),
            forall|k: int| 0 <= k < i ==> buffer_valid(width, height, #[trigger] views[k]),
        decreases data.len() - i,
    {
        if !check_buffer(width, height, &data[i]) {
            assert(views[i as int] == data@[i as int]@);
            return false;
        }
        i += 1;
    }
    true
}

/// The PNG encoding of an RGBA8 buffer of the given dimensions.  The
/// codec's output is a function of the dimensions and bytes alone.
pub uninterp spec fn png_bytes(width: u32, height: u32, data: Seq<u8>) -> Seq<u8>;

/// The animated-GIF encoding of a run of RGBA8 frames of the given
/// dimensions, looping forever with a uniform per-frame delay in
/// milliseconds.  The codec's output is a function of these alone.
pub uninterp spec fn gif_bytes(width: u32, height: u32, frames: Seq<Seq<u8>>, delay_ms: u32) -> Seq<
    u8,
>;

/// Relies on image::RgbaImage::from_raw (accepts a buffer that holds
/// the dimensions' worth of samples) and ImageBuffer::write_to with the
/// PNG format: deterministic in-memory PNG encoding of the buffer.
/// The png writer rejects only a zero width or height (RGBA8 at eight
/// bits is a valid combination), and writes to an in-memory cursor
/// cannot fail, so encoding of a nonzero-sized valid buffer succeeds.
#[verifier::external_body]
fn png_encode_rgba(width: u32, height: u32, data: &Vec<u8>) -> (r: Result<Vec<u8>, String>)
    requires
        buffer_valid(width, height, data@),
    ensures
        r matches Ok(b) ==> b@ == png_bytes(width, height, data@),
        width >= 1 && height >= 1 ==> r is Ok,
{
    let img: image::RgbaImage = match image::RgbaImage::from_raw(width, height, data.clone()) {
        Some(img) => img,
        None => return Err("the buffer does not match the dimensions".to_string()),
    };
    let mut out = std::io::Cursor::new(Vec::new());
    match img.write_to(&mut out, image::ImageOutputFormat::Png) {
        Ok(()) => Ok(out.into_inner()),
        Err(e) => Err(e.to_string()),
    }
}

/// Relies on image's GifEncoder: repeat set to infinite, each buffer
/// becomes one full frame with the same millisecond delay, frames are
/// committed in input order; deterministic in-memory GIF encoding.
/// The encoder rejects only a dimension beyond the format's 16-bit
/// limit, writes into a plain byte vector cannot fail, and with no
/// frames nothing is written at all, so those encodings succeed.
#[verifier::external_body]
fn gif_encode_rgba(width: u32, height: u32, frames: &Vec<Vec<u8>>, delay_ms: u32) -> (r: Result<
    Vec<u8>,
    String,
>)
    requires
        buffers_valid(width, height, frames@.map_values(|b: Vec<u8>| b@)),
    ensures
        r matches Ok(b) ==> b@ == gif_bytes(
            width,
            height,
            frames@.map_values(|b: Vec<u8>| b@),
            delay_ms,
        ),
        frames@.len() == 0 ==> r is Ok,
        width <= 0xffff && height <= 0xffff ==> r is Ok,
{
    let delay = image::Delay::from_numer_denom_ms(delay_ms, 1);
    let mut out: Vec<u8> = Vec::new();
    let mut enc = image::codecs::gif::GifEncoder::new(&mut out);
    enc.set_repeat(image::codecs::gif::Repeat::Infinite).map_err(|e| e.to_string())?;
    for data in frames.iter() {
        let img = image::RgbaImage::from_raw(width, height, data.clone())
            .ok_or_else(|| "a buffer does not match the dimensions".to_string())?;
        enc.encode_frame(image::Frame::from_parts(img, 0, 0, delay)).map_err(|e| e.to_string())?;
    }
    drop(enc);
    Ok(out)
}

/// Whether the image codec can decode these bytes at all: a function
/// of the bytes alone.
pub uninterp spec fn image_decodable(bytes: Seq<u8>) -> bool;

/// The RGBA8 pixels of decodable bytes after a nearest-neighbor resize
/// to the given dimensions: a function of the bytes and dimensions.
pub uninterp spec fn resized_rgba(bytes: Seq<u8>, width: u32, height: u32) -> Seq<u8>;

/// Relies on image::load_from_memory (whether it decodes depends on
/// the bytes alone), DynamicImage::resize_exact with nearest-neighbor
/// sampling (exactly the requested dimensions), and to_rgba8 /
/// into_raw (four bytes per pixel).  The resized buffer's allocation
/// demands that the pixel count fit the machine, hence the bound.
#[verifier::external_body]
fn decode_resize_rgba(bytes: &Vec<u8>, width: u32, height: u32) -> (r: Result<Vec<u8>, String>)
    requires
        width * height * 4 <= usize::MAX,
    ensures
        r is Ok <==> image_decodable(bytes@),
        r matches Ok(d) ==> d@ == resized_rgba(bytes@, width, height) && buffer_valid(
            width,
            height,
            d@,
        ),
{
    let img = match image::load_from_memory(bytes.as_slice()) {
        Ok(img) => img,
        Err(e) => return Err(e.to_string()),
    };
    let resized = img.resize_exact(width, height, image::imageops::FilterType::Nearest);
    Ok(resized.to_rgba8().into_raw())
}

/// The name of the file holding entry `index` of an exported sequence:
/// `<name>-<index>.png`.
pub open spec fn sequence_name(name: Seq<u8>, index: nat) -> Seq<u8> {
    name + seq![45u8] + dec_digits(index) + seq![46u8, 112u8, 110u8, 103u8]
}

/// Builds the file name of entry `index` of an exported sequence.
pub fn sequence_file_name(name: &Vec<u8>, index: usize) -> (r: Vec<u8>)
    ensures
        r@ == sequence_name(name@, index as nat),
{
    let mut out: Vec<u8> = Vec::new();
    push_all(&mut out, name);
    out.push(45);
    let digits = format_decimal(index);
    push_all(&mut out, &digits);
    out.push(46);
    out.push(112);
    out.push(110);
    out.push(103);
    assert(out@ =~= sequence_name(name@, index as nat));
    out
}

/// The name a save dialog suggests for its destination:
/// `<name>.<extension>`.
pub open spec fn suggested_name(name: Seq<u8>, extension: Seq<u8>) -> Seq<u8> {
    name + seq![46u8] + extension
}

/// Builds the suggested dialog file name `<name>.<extension>`.
pub fn suggested_file_name(name: &Vec<u8>, extension: &Vec<u8>) -> (r: Vec<u8>)
    ensures
        r@ == suggested_name(name@, extension@),
{
    let mut out: Vec<u8> = Vec::new();
    push_all(&mut out, name);
    out.push(46);
    push_all(&mut out, extension);
    assert(out@ =~= suggested_name(name@, extension@));
    out
}

/// The compute core of a still-image export: rejects a malformed
/// buffer, otherwise encodes it to PNG bytes for the host to write.
pub fn export_image_png(msg: &ImageMessage) -> (r: Result<Vec<u8>, CommandError>)
    ensures
        !buffer_valid(msg.width, msg.height, msg.data@) ==> (r matches Err(e) && e
            is InvalidBuffer),
        buffer_valid(msg.width, msg.height, msg.data@) ==> match r {
            Ok(b) => b@ == png_bytes(msg.width, msg.height, msg.data@),
            Err(e) => e is EncodeFailure,
        },
        buffer_valid(msg.width, msg.height, msg.data@) && msg.width >= 1 && msg.height >= 1 ==> r
            is Ok,
{
    if !check_buffer(msg.width, msg.height, &msg.data) {
        return Err(CommandError::InvalidBuffer);
    }
    match png_encode_rgba(msg.width, msg.height, &msg.data) {
        Ok(b) => Ok(b),
        Err(e) => Err(CommandError::EncodeFailure(e)),
    }
}

/// The compute core of a sequence export: a single mismatched buffer
/// fails the whole batch before anything is encoded; otherwise every
/// buffer becomes one `(file name, PNG bytes)` pair, named
/// `<name>-0.png` through `<name>-(N-1).png` in input order.
pub fn export_sequence_pngs(msg: &ImagesMessage) -> (r: Result<
    Vec<(Vec<u8>, Vec<u8>)>,
    CommandError,
>)
    ensures
        !buffers_valid(msg.width, msg.height, msg.data@.map_values(|b: Vec<u8>| b@)) ==> (r
            matches Err(e) && e is InvalidBuffer),
        buffers_valid(msg.width, msg.height, msg.data@.map_values(|b: Vec<u8>| b@)) ==> match r {
            Ok(files) => {
                &&& files@.len() == msg.data@.len()
                &&& forall|i: int|
                    0 <= i < files@.len() ==> (#[trigger] files@[i]).0@ == sequence_name(
                        msg.name@,
                        i as nat,
                    ) && files@[i].1@ == png_bytes(msg.width, msg.height, msg.data@[i]@)
            },
            Err(e) => e is EncodeFailure,
        },
        buffers_valid(msg.width, msg.height, msg.data@.map_values(|b: Vec<u8>| b@)) && (
        msg.data@.len() == 0 || (msg.width >= 1 && msg.height >= 1)) ==> r is Ok,
{
    let ghost views = msg.data@.map_values(|b: Vec<u8>| b@);
    if !check_buffers(msg.width, msg.height, &msg.data) {
        return Err(CommandError::InvalidBuffer);
    }
    let mut files: Vec<(Vec<u8>, Vec<u8>)> = Vec::new();
    let mut i: usize = 0;
    while i < msg.data.len()
        invariant
            0 <= i <= msg.data.len(),
            views == msg.data@.map_values(|b: Vec<u8>| b@),
            buffers_valid(msg.width, msg.height, views),
            files@.len() == i,
            forall|k: int|
                0 <= k < i ==> (#[trigger] files@[k]).0@ == sequence_name(msg.name@, k as nat)
                    && files@[k].1@ == png_bytes(msg.width, msg.height, msg.data@[k]@),
        decreases msg.data.len() - i,
    {
        assert(views[i as int] == msg.data@[i as int]@);
        let file_name = sequence_file_name(&msg.name, i);
        match png_encode_rgba(msg.width, msg.height, &msg.data[i]) {
            Ok(bytes) => {
                files.push((file_name, bytes));
            },
            Err(e) => {
                return Err(CommandError::EncodeFailure(e));
            },
        }
        i += 1;
    }
    Ok(files)
}

/// The per-frame display time of an animated GIF: one second split by
/// the frame rate, rounded to the nearest millisecond.
pub open spec fn spec_frame_delay_ms(fps: u32) -> int
    recommends
        fps >= 1,
{
    (2000 + fps) / (2 * fps)
}

/// Computes the per-frame delay in milliseconds for a frame rate.
pub fn frame_delay_ms(fps: u32) -> (r: u32)
    requires
        fps >= 1,
    ensures
        r == spec_frame_delay_ms(fps),
{
    let delay = (2000u64 + fps as u64) / (2 * fps as u64);
    proof {
        assert(delay <= 1000) by (nonlinear_arith)
            requires
                delay == (2000 + fps) / (2 * fps as u64),
                fps >= 1,
        ;
    }
    delay as u32
}

/// The compute core of an animated-GIF export: validates every buffer
/// first, then the frame rate, then encodes the infinitely-looping GIF
/// with the uniform rounded per-frame delay.
pub fn export_animated_gif(msg: &ImagesMessageGif) -> (r: Result<Vec<u8>, CommandError>)
    ensures
        !buffers_valid(msg.width, msg.height, msg.data@.map_values(|b: Vec<u8>| b@)) ==> (r
            matches Err(e) && e is InvalidBuffer),
        buffers_valid(msg.width, msg.height, msg.data@.map_values(|b: Vec<u8>| b@)) && msg.fps == 0
            ==> (r matches Err(e) && e is InvalidInput),
        buffers_valid(msg.width, msg.height, msg.data@.map_values(|b: Vec<u8>| b@)) && msg.fps >= 1
            ==> match r {
            Ok(b) => b@ == gif_bytes(
                msg.width,
                msg.height,
                msg.data@.map_values(|b: Vec<u8>| b@),
                spec_frame_delay_ms(msg.fps) as u32,
            ),
            Err(e) => e is EncodeFailure,
        },
        buffers_valid(msg.width, msg.height, msg.data@.map_values(|b: Vec<u8>| b@)) && msg.fps >= 1
            && (msg.data@.len() == 0 || (msg.width <= 0xffff && msg.height <= 0xffff)) ==> r is Ok,
{
    if !check_buffers(msg.width, msg.height, &msg.data) {
        return Err(CommandError::InvalidBuffer);
    }
    if msg.fps == 0 {
        return Err(CommandError::InvalidInput);
    }
    let delay = frame_delay_ms(msg.fps);
    match gif_encode_rgba(msg.width, msg.height, &msg.data, delay) {
        Ok(b) => Ok(b),
        Err(e) => Err(CommandError::EncodeFailure(e)),
    }
}

/// The compute core of an image import: decodes whatever file bytes the
/// host read, resizes to exactly the requested dimensions with
/// nearest-neighbor sampling, and carries the original file name along
/// as the suggested layer name.  Succeeds exactly when the codec can
/// decode the bytes; the target pixel count must fit the machine.
pub fn import_from_bytes(file_bytes: &Vec<u8>, file_name: Vec<u8>, size: &ImageSize) -> (r: Result<
    ImageMessage,
    CommandError,
>)
    requires
        size.width * size.height * 4 <= usize::MAX,
    ensures
        r is Ok <==> image_decodable(file_bytes@),
        match r {
            Ok(m) => m.width == size.width && m.height == size.height && m.data@ == resized_rgba(
                file_bytes@,
                size.width,
                size.height,
            ) && buffer_valid(size.width, size.height, m.data@) && m.name@ == file_name@,
            Err(e) => e is DecodeFailure,
        },
{
    match decode_resize_rgba(file_bytes, size.width, size.height) {
        Err(e) => Err(CommandError::DecodeFailure(e)),
        Ok(data) => Ok(
            ImageMessage {
                width: size.width,
                height: size.height,
                name: file_name,
                data,
            },
        ),
    }
}

} // verus!
