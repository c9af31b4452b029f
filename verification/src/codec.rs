//! Encodings that outside libraries and the standard library compute: base64,
//! PNG images, lossy UTF-8.

use vstd::prelude::*;
use vstd::string::*;
use vstd::utf8::*;
use base64::Engine;
use crate::png::header_dimensions;

verus! {

/// The text that the standard base64 alphabet, with padding, gives for some
/// bytes.
pub uninterp spec fn base64_text(bytes: Seq<u8>) -> Seq<char>;

/// What decoding a text as standard base64 gives: the bytes, or the
/// description of what is wrong with the text.
pub uninterp spec fn base64_bytes(text: Seq<char>) -> Result<Seq<u8>, Seq<char>>;

/// Why an image could not be cropped: it could not be read as a PNG, or what
/// was cut out could not be written as one. Each carries a description.
#[derive(Clone, Debug, PartialEq, Eq)]
pub enum CropFailure<T> {
    Decode(T),
    Encode(T),
}

/// What cutting a rectangle out of a PNG image gives: the PNG of what the
/// rectangle and the image have in common, or the reason why there is none.
pub uninterp spec fn cropped_png(png: Seq<u8>, x: u32, y: u32, width: u32, height: u32) -> Result<
    Seq<u8>,
    CropFailure<Seq<char>>,
>;

/// An image, pixel by pixel.
pub struct Raster {
    pub width: u32,
    pub height: u32,
    /// The bits of each sample.
    pub bits: u8,
    /// The rows from top to bottom, the pixels of each from left to right, and
    /// the samples of each pixel.
    pub rows: Seq<Seq<Seq<u16>>>,
}

impl Raster {
    /// The samples of the pixel in column `x` and row `y`.
    pub open spec fn pixel(self, x: int, y: int) -> Seq<u16> {
        self.rows[y][x]
    }
}

/// What decoding a PNG file gives, as `load_from_memory_with_format` of the
/// `image` crate does it: the image, with eight or sixteen bits a sample, or the
/// description of what is wrong with the file.
pub uninterp spec fn decoded_png(png: Seq<u8>) -> Result<Raster, Seq<char>>;

/// How much of a stretch of length `wanted` from `start` on lies before `end`.
pub open spec fn clipped(wanted: u32, start: u32, end: u32) -> u32 {
    if wanted <= end - start {
        wanted
    } else {
        (end - start) as u32
    }
}

/// The part of `image` that a rectangle takes in.
pub open spec fn cut(image: Raster, x: u32, y: u32, width: u32, height: u32) -> Raster {
    let columns = clipped(width, x, image.width);
    let rows = clipped(height, y, image.height);
    Raster {
        width: columns,
        height: rows,
        bits: image.bits,
        rows: Seq::new(
            rows as nat,
            |j: int| Seq::new(columns as nat, |i: int| image.pixel(x + i, y + j)),
        ),
    }
}

/// Whether a rectangle takes in a pixel of `image`.
pub open spec fn takes_in(image: Raster, x: u32, y: u32, width: u32, height: u32) -> bool {
    x < image.width && y < image.height && width > 0 && height > 0
}

/// Whether `result` is what cutting a rectangle out of a PNG file comes to, by
/// what decoding the file gave.
pub open spec fn crops_as(
    decoded: Result<Raster, Seq<char>>,
    x: u32,
    y: u32,
    width: u32,
    height: u32,
    result: Result<Seq<u8>, CropFailure<Seq<char>>>,
) -> bool {
    match decoded {
        Err(error) => result == Err::<Seq<u8>, CropFailure<Seq<char>>>(CropFailure::Decode(error)),
        Ok(image) => if takes_in(image, x, y, width, height) {
            let part = cut(image, x, y, width, height);
            &&& result matches Ok(cropped)
            &&& decoded_png(cropped) == Ok::<Raster, Seq<char>>(part)
            &&& header_dimensions(cropped) == Some((part.width, part.height))
        } else {
            result matches Err(CropFailure::Encode(_))
        },
    }
}

/// A pixel of what was cut out is the pixel of the image that stands as far
/// from the corner of the rectangle.
pub proof fn law_cut_keeps_pixels(
    image: Raster,
    x: u32,
    y: u32,
    width: u32,
    height: u32,
    i: int,
    j: int,
)
    requires
        takes_in(image, x, y, width, height),
        0 <= i < cut(image, x, y, width, height).width,
        0 <= j < cut(image, x, y, width, height).height,
    ensures
        cut(image, x, y, width, height).width == if width <= image.width - x {
            width as int
        } else {
            image.width - x
        },
        cut(image, x, y, width, height).height == if height <= image.height - y {
            height as int
        } else {
            image.height - y
        },
        cut(image, x, y, width, height).bits == image.bits,
        cut(image, x, y, width, height).pixel(i, j) == image.pixel(x + i, y + j),
        x + i < image.width,
        y + j < image.height,
{
}

/// The text that lossy UTF-8 decoding gives for some bytes.
pub uninterp spec fn lossy_text(bytes: Seq<u8>) -> Seq<char>;

/// The view of bytes or of the description of an error.
pub open spec fn decoded_view(result: Result<Vec<u8>, String>) -> Result<Seq<u8>, Seq<char>> {
    match result {
        Ok(bytes) => Ok(bytes@),
        Err(error) => Err(error@),
    }
}

/// The view of the result of a crop.
pub open spec fn crop_view(result: Result<Vec<u8>, CropFailure<String>>) -> Result<
    Seq<u8>,
    CropFailure<Seq<char>>,
> {
    match result {
        Ok(bytes) => Ok(bytes@),
        Err(CropFailure::Decode(error)) => Err(CropFailure::Decode(error@)),
        Err(CropFailure::Encode(error)) => Err(CropFailure::Encode(error@)),
    }
}

/// `Engine::encode` of the `base64` crate with the `STANDARD` engine: its
/// result depends on the bytes alone, and decoding it with the same engine
/// gives the bytes back. It panics only where the length of the text exceeds
/// `usize`, which the length of a slice, at most `isize::MAX`, rules out.
#[verifier::external_body]
pub(crate) fn base64_encode(bytes: &[u8]) -> (text: String)
    ensures
        text@ == base64_text(bytes@),
        base64_bytes(text@) is Ok,
        base64_bytes(text@)->Ok_0 == bytes@,
{
    base64::engine::general_purpose::STANDARD.encode(bytes)
}

/// `Engine::decode` of the `base64` crate with the `STANDARD` engine: its
/// result, and the description of its error, depend on the text alone.
#[verifier::external_body]
pub(crate) fn base64_decode(text: &str) -> (result: Result<Vec<u8>, String>)
    ensures
        decoded_view(result) == base64_bytes(text@),
{
    base64::engine::general_purpose::STANDARD.decode(text).map_err(|error| error.to_string())
}

/// `load_from_memory_with_format`, `DynamicImage::crop_imm` and
/// `DynamicImage::write_to` of the `image` crate, in this order, all for PNG.
/// The result depends on the arguments alone, a lack of memory left aside. It
/// fails to decode exactly where the first of the three fails, and the image
/// that this one gives is as large as the header of its file says. Where the
/// rectangle takes in a pixel, what is cut out of the image, as far as the
/// rectangle lies inside it, is written, and without loss: decoding the new
/// file gives the same samples, and its header gives the size. Where it takes
/// in none, nothing can be written. The description of an error names its
/// causes too, as `anyhow` writes them.
#[verifier::external_body]
pub(crate) fn crop_png(png: &[u8], x: u32, y: u32, width: u32, height: u32) -> (result: Result<
    Vec<u8>,
    CropFailure<String>,
>)
    ensures
        crop_view(result) == cropped_png(png@, x, y, width, height),
        crops_as(decoded_png(png@), x, y, width, height, crop_view(result)),
        result is Ok ==> header_dimensions(png@) == Some(
            (decoded_png(png@)->Ok_0.width, decoded_png(png@)->Ok_0.height),
        ),
{
    let image = image::load_from_memory_with_format(png, image::ImageFormat::Png)
        .map_err(|error| CropFailure::Decode(format!("{:#}", anyhow::Error::new(error))))?;
    let mut cropped = std::io::Cursor::new(Vec::new());
    image.crop_imm(x, y, width, height)
        .write_to(&mut cropped, image::ImageFormat::Png)
        .map_err(|error| CropFailure::Encode(format!("{:#}", anyhow::Error::new(error))))?;
    Ok(cropped.into_inner())
}

/// `String::from_utf8_lossy`: its result depends on the bytes alone, and valid
/// UTF-8 is decoded as it stands.
#[verifier::external_body]
pub(crate) fn decode_lossy(bytes: &[u8]) -> (text: String)
    ensures
        text@ == lossy_text(bytes@),
        valid_utf8(bytes@) ==> text@ == decode_utf8(bytes@),
{
    String::from_utf8_lossy(bytes).into_owned()
}

/// What a crop gives, by what decoding the file gave: the same error where
/// there is no image; a file that decodes to the pixels of the rectangle where
/// it takes in any; and an error where it takes in none.
pub proof fn law_what_a_crop_gives(
    image: Raster,
    error: Seq<char>,
    x: u32,
    y: u32,
    width: u32,
    height: u32,
    result: Result<Seq<u8>, CropFailure<Seq<char>>>,
)
    ensures
        crops_as(Err(error), x, y, width, height, result) ==> result == Err::<
            Seq<u8>,
            CropFailure<Seq<char>>,
        >(CropFailure::Decode(error)),
        crops_as(Ok(image), x, y, width, height, result) && (width == 0 || height == 0 || x
            >= image.width || y >= image.height) ==> result matches Err(CropFailure::Encode(_)),
        crops_as(Ok(image), x, y, width, height, result) && width > 0 && height > 0 && x
            < image.width && y < image.height ==> {
            &&& result matches Ok(cropped)
            &&& decoded_png(cropped) matches Ok(part)
            &&& header_dimensions(cropped) == Some((part.width, part.height))
            &&& part.width == if width <= image.width - x {
                width as int
            } else {
                image.width - x
            }
            &&& part.height == if height <= image.height - y {
                height as int
            } else {
                image.height - y
            }
            &&& forall|i: int, j: int|
                0 <= i < part.width && 0 <= j < part.height ==> #[trigger] part.pixel(i, j)
                    == image.pixel(x + i, y + j)
        },
{
}

/// The view of a result is that of what it holds.
pub proof fn law_views_of_results(bytes: Vec<u8>, error: String)
    ensures
        decoded_view(Ok(bytes)) == Ok::<Seq<u8>, Seq<char>>(bytes@),
        decoded_view(Err(error)) == Err::<Seq<u8>, Seq<char>>(error@),
        crop_view(Ok(bytes)) == Ok::<Seq<u8>, CropFailure<Seq<char>>>(bytes@),
        crop_view(Err(CropFailure::Decode(error))) == Err::<Seq<u8>, CropFailure<Seq<char>>>(
            CropFailure::Decode(error@),
        ),
        crop_view(Err(CropFailure::Encode(error))) == Err::<Seq<u8>, CropFailure<Seq<char>>>(
            CropFailure::Encode(error@),
        ),
{
}

} // verus!
