//! Raw pixel buffers from the clipboard: channel order and PNG encoding.

use vstd::prelude::*;
use vstd::string::*;

verus! {

/// The PNG file that the `image` crate encodes from a buffer of RGBA pixels,
/// four bytes to a pixel and row after row, for an image of the given width
/// and height; none where its encoder reports an error.
pub uninterp spec fn png_encoding(pixels: Seq<u8>, width: u32, height: u32) -> Option<Seq<u8>>;

/// Wraps the pixels in an `image::ImageBuffer` (`from_raw`, which takes any
/// buffer that holds at least four bytes for each pixel) and encodes it with
/// `write_to` in the PNG format. The encoder's error is handed back as its
/// message.
#[verifier::external_body]
fn encode_png(pixels: Vec<u8>, width: u32, height: u32) -> (out: Result<Vec<u8>, String>)
    requires
        4 * width * height <= pixels@.len(),
    ensures
        match out {
            Ok(bytes) => png_encoding(pixels@, width, height) == Some(bytes@),
            Err(_) => png_encoding(pixels@, width, height) is None,
        },
{
    match image::ImageBuffer::<image::Rgba<u8>, Vec<u8>>::from_raw(width, height, pixels) {
        Some(buffer) => {
            let mut file = std::io::Cursor::new(Vec::new());
            match buffer.write_to(&mut file, image::ImageFormat::Png) {
                Ok(()) => Ok(file.into_inner()),
                Err(e) => Err(e.to_string()),
            }
        },
        None => Err(String::new()),
    }
}

/// Where the byte at position `i` of an RGBA buffer stands in the BGRA
/// buffer: the first and the third byte of every pixel change places.
pub open spec fn source_index(i: int) -> int {
    if i % 4 == 0 {
        i + 2
    } else if i % 4 == 2 {
        i - 2
    } else {
        i
    }
}

/// A buffer of BGRA pixels in RGBA order. Bytes after the last whole pixel
/// are dropped.
pub open spec fn rgba_of_bgra(data: Seq<u8>) -> Seq<u8> {
    Seq::new((4 * (data.len() / 4)) as nat, |i: int| data[source_index(i)])
}

/// Reorders BGRA pixels to RGBA.
pub fn bgra_to_rgba(data: &Vec<u8>) -> (out: Vec<u8>)
    ensures
        out@ == rgba_of_bgra(data@),
{
    let count = data.len() / 4;
    let mut out: Vec<u8> = Vec::new();
    let mut p: usize = 0;
    while p < count
        invariant
            count == data.len() / 4,
            p <= count,
            out@.len() == 4 * p,
            forall|i: int| 0 <= i < 4 * p ==> #[trigger] out@[i] == data@[source_index(i)],
        decreases count - p,
    {
        let base = 4 * p;
        out.push(data[base + 2]);
        out.push(data[base + 1]);
        out.push(data[base]);
        out.push(data[base + 3]);
        p += 1;
    }
    assert(out@ =~= rgba_of_bgra(data@));
    out
}

/// Why a pixel buffer could not be turned into a PNG file.
#[derive(Debug)]
pub enum ConvertError {
    /// The buffer holds fewer than four bytes for each pixel.
    BufferTooSmall,
    /// The encoder failed, with its message.
    Encoding(String),
}

impl ConvertError {
    pub fn message(&self) -> (out: String)
        ensures
            match self {
                ConvertError::BufferTooSmall => out@ == "Failed to create image buffer"@,
                ConvertError::Encoding(detail) => out@ == "Failed to encode PNG: "@ + detail@,
            },
    {
        match self {
            ConvertError::BufferTooSmall => String::from_str("Failed to create image buffer"),
            ConvertError::Encoding(detail) => {
                let mut out = String::from_str("Failed to encode PNG: ");
                out.append(detail.as_str());
                out
            },
        }
    }
}

/// The pixels in RGBA order, whichever order they came in.
pub open spec fn normalized(data: Seq<u8>, bgra: bool) -> Seq<u8> {
    if bgra {
        rgba_of_bgra(data)
    } else {
        data
    }
}

/// What the conversion of a pixel buffer gives: the PNG file, or, for a
/// failure, whether the buffer was too small.
pub open spec fn png_of(data: Seq<u8>, width: u32, height: u32, bgra: bool) -> Result<
    Seq<u8>,
    bool,
> {
    let pixels = normalized(data, bgra);
    if 4 * width * height > pixels.len() {
        Err(true)
    } else {
        match png_encoding(pixels, width, height) {
            Some(bytes) => Ok(bytes),
            None => Err(false),
        }
    }
}

/// Turns the pixel buffer of an image into a PNG file. `bgra` says that the
/// platform delivers the pixels in BGRA order; they are brought into RGBA
/// order first. A buffer with fewer than four bytes for each pixel is
/// refused.
pub fn convert_to_png(data: &Vec<u8>, width: u32, height: u32, bgra: bool) -> (out: Result<
    Vec<u8>,
    ConvertError,
>)
    ensures
        match out {
            Ok(bytes) => png_of(data@, width, height, bgra) == Ok::<Seq<u8>, bool>(bytes@),
            Err(ConvertError::BufferTooSmall) => png_of(data@, width, height, bgra) == Err::<
                Seq<u8>,
                bool,
            >(true),
            Err(ConvertError::Encoding(_)) => png_of(data@, width, height, bgra) == Err::<
                Seq<u8>,
                bool,
            >(false),
        },
{
    let pixels = if bgra {
        bgra_to_rgba(data)
    } else {
        data.clone()
    };
    assert(pixels@ == normalized(data@, bgra));
    assert(width * height <= 0xffff_ffff * 0xffff_ffff) by (nonlinear_arith)
        requires
            0 <= width <= 0xffff_ffff,
            0 <= height <= 0xffff_ffff,
    ;
    let area: u64 = (width as u64) * (height as u64);
    let needed: u128 = 4 * (area as u128);
    assert(needed == 4 * width * height) by (nonlinear_arith)
        requires
            needed == 4 * area,
            area == width * height,
    ;
    if needed > pixels.len() as u128 {
        return Err(ConvertError::BufferTooSmall);
    }
    match encode_png(pixels, width, height) {
        Ok(bytes) => Ok(bytes),
        Err(detail) => Err(ConvertError::Encoding(detail)),
    }
}

} // verus!
