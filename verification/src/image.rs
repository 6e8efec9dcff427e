//! Fitting an image to a panel and re-encoding it as PNG.
//!
//! The bar decodes PNG only, and refuses to draw anything larger than the
//! display. So an upload is decoded, scaled down when it does not fit (never
//! up), and re-encoded as PNG. Decoding, scaling and encoding are the `image`
//! crate's; deciding whether to scale is this module's.

use vstd::prelude::*;
use vstd::string::*;

use crate::error::CliError;

verus! {

/// An image ready to upload.
#[derive(Debug)]
pub struct Prepared {
    pub png: Vec<u8>,
    pub original: (u32, u32),
    pub final_size: (u32, u32),
}

impl Prepared {
    /// Whether fitting changed the size.
    pub fn was_resized(&self) -> (r: bool)
        ensures
            r == (self.original != self.final_size),
    {
        self.original.0 != self.final_size.0 || self.original.1 != self.final_size.1
    }
}

/// Why the `image` crate could not take the bytes.
#[derive(Debug, Clone, PartialEq, Eq)]
pub enum ImageFault {
    /// The format could not be sniffed.
    Unreadable(String),
    /// The format was known but the data did not decode.
    Undecodable(String),
}

/// What the `image` crate makes of these bytes, the format sniffed from the
/// content: the decoded width and height, or the words of its decoding
/// error.
pub uninterp spec fn decoding(bytes: Seq<u8>) -> Result<(u32, u32), Seq<char>>;

/// The width and height decoded from these bytes; `None` when they do not
/// decode.
pub open spec fn decoded_size(bytes: Seq<u8>) -> Option<(u32, u32)> {
    match decoding(bytes) {
        Ok(d) => Some(d),
        Err(_) => None,
    }
}

/// `image::ImageReader::new(..).with_guessed_format()`, then `decode`, then
/// `width` and `height`. The contract claims the result is `decoding`: the
/// size, or a decoding failure in the crate's words. Format guessing only
/// reads, seeks and copies at most 16 bytes of an in-memory `Cursor`, none
/// of which can fail.
#[verifier::external_body]
fn read_dimensions(bytes: &[u8]) -> (r: Result<(u32, u32), ImageFault>)
    ensures
        match decoding(bytes@) {
            Ok(d) => r == Ok::<(u32, u32), ImageFault>(d),
            Err(t) => r matches Err(ImageFault::Undecodable(s)) && s@ == t,
        },
{
    let reader = image::ImageReader::new(std::io::Cursor::new(bytes))
        .with_guessed_format()
        .map_err(|error| ImageFault::Unreadable(error.to_string()))?;
    let decoded = reader.decode().map_err(|error| ImageFault::Undecodable(error.to_string()))?;
    Ok((decoded.width(), decoded.height()))
}

/// The size `image`'s `DynamicImage::resize` gives an image of `width` by
/// `height` asked to fit `max_width` by `max_height`: aspect ratio kept,
/// scaled to the largest size within the bounds.
pub uninterp spec fn fitted_size(width: u32, height: u32, max_width: u32, max_height: u32) -> (
    u32,
    u32,
);

/// The eight bytes every PNG file begins with.
pub open spec fn png_signature() -> Seq<u8> {
    seq![137u8, 80u8, 78u8, 71u8, 13u8, 10u8, 26u8, 10u8]
}

/// Whether bytes begin with the PNG signature.
pub open spec fn starts_as_png(v: Seq<u8>) -> bool {
    v.len() >= 8 && v.subrange(0, 8) == png_signature()
}

/// The PNG encoding of the decoded image, unscaled; `None` when encoding
/// fails.
pub uninterp spec fn png_encoding(bytes: Seq<u8>) -> Option<Seq<u8>>;

/// The PNG encoding of the decoded image scaled to fit; `None` when
/// encoding fails.
pub uninterp spec fn fitted_png_encoding(bytes: Seq<u8>, max_width: u32, max_height: u32) -> Option<
    Seq<u8>,
>;

/// `image::load_from_memory`, which decodes as `read_dimensions` does, then
/// `DynamicImage::write_to` with
/// `ImageFormat::Png`. The contract claims the bytes are `png_encoding`,
/// that they begin with the PNG signature (the `png` encoder writes it
/// first), and that a failure comes back in the crate's words.
#[verifier::external_body]
fn encode_png(bytes: &[u8]) -> (r: Result<Vec<u8>, String>)
    ensures
        match png_encoding(bytes@) {
            Some(p) => r matches Ok(v) && v@ == p,
            None => r is Err,
        },
        r matches Ok(v) ==> starts_as_png(v@),
{
    let decoded = image::load_from_memory(bytes).map_err(|error| error.to_string())?;
    let mut out = std::io::Cursor::new(Vec::new());
    decoded.write_to(&mut out, image::ImageFormat::Png).map_err(|error| error.to_string())?;
    Ok(out.into_inner())
}

/// `image::load_from_memory`, then `DynamicImage::resize` to fit with the
/// Lanczos3 filter, then
/// encode as `encode_png` does, returning the PNG and its width and height.
/// The contract claims the bytes are `fitted_png_encoding` and the size is
/// `fitted_size` of the decoded size, that they begin with the PNG
/// signature as `encode_png`'s do; and, as the crate documents
/// ("scaled to the maximum possible size that fits within the bounds"),
/// that the size lies within nonzero bounds.
#[verifier::external_body]
fn encode_fitted_png(bytes: &[u8], max_width: u32, max_height: u32) -> (r: Result<
    (Vec<u8>, u32, u32),
    String,
>)
    ensures
        match fitted_png_encoding(bytes@, max_width, max_height) {
            Some(p) => r matches Ok((v, _, _)) && v@ == p,
            None => r is Err,
        },
        r matches Ok((_, w, h)) ==> decoded_size(bytes@) matches Some(d) && (w, h) == fitted_size(
            d.0,
            d.1,
            max_width,
            max_height,
        ),
        max_width > 0 && max_height > 0 ==> (r matches Ok((_, w, h)) ==> w <= max_width && h
            <= max_height),
        r matches Ok((v, _, _)) ==> starts_as_png(v@),
{
    let decoded = image::load_from_memory(bytes).map_err(|error| error.to_string())?;
    let fitted = decoded.resize(max_width, max_height, image::imageops::FilterType::Lanczos3);
    let mut out = std::io::Cursor::new(Vec::new());
    fitted.write_to(&mut out, image::ImageFormat::Png).map_err(|error| error.to_string())?;
    Ok((out.into_inner(), fitted.width(), fitted.height()))
}

/// Whether an image of this size must be scaled down for the panel.
pub open spec fn oversized(size: (u32, u32), target: (u32, u32)) -> bool {
    size.0 > target.0 || size.1 > target.1
}

/// Why bytes that do not decode are refused: the crate's words, and the
/// formats that are read.
pub open spec fn undecodable_text(detail: Seq<char>) -> Seq<char> {
    "could not decode the image: "@ + detail
        + "\n`busy` reads PNG, JPEG, and GIF, and uploads PNG (the only format the bar decodes)."@
}

/// Decode `bytes`, scale down to fit `target` when larger (never up, aspect
/// ratio kept), and re-encode as PNG.
pub fn prepare(bytes: &[u8], target: (u32, u32)) -> (res: Result<Prepared, CliError>)
    ensures
        decoding(bytes@) matches Err(detail) ==> (res matches Err(CliError::Usage(m)) && m@
            == undecodable_text(detail)),
        res matches Ok(p) ==> starts_as_png(p.png@),
        res matches Ok(p) ==> (target.0 > 0 && target.1 > 0 ==> p.final_size.0 <= target.0
            && p.final_size.1 <= target.1),
        res matches Ok(p) ==> (p.original.0 <= target.0 && p.original.1 <= target.1
            ==> p.final_size == p.original),
        decoded_size(bytes@) matches Some(size) ==> match res {
            Ok(p) => p.original == size && if oversized(size, target) {
                &&& p.final_size == fitted_size(size.0, size.1, target.0, target.1)
                &&& target.0 > 0 && target.1 > 0 ==> p.final_size.0 <= target.0
                    && p.final_size.1 <= target.1
                &&& Some(p.png@) == fitted_png_encoding(bytes@, target.0, target.1)
            } else {
                &&& p.final_size == size
                &&& Some(p.png@) == png_encoding(bytes@)
            },
            Err(e) => e is Runtime && if oversized(size, target) {
                fitted_png_encoding(bytes@, target.0, target.1) is None
            } else {
                png_encoding(bytes@) is None
            },
        },
{
    let original = match read_dimensions(bytes) {
        Ok(size) => size,
        Err(ImageFault::Unreadable(detail)) => {
            return Err(CliError::usage_with("could not read the image: ", detail.as_str()));
        },
        Err(ImageFault::Undecodable(detail)) => {
            let mut m = String::from_str("could not decode the image: ");
            m.append(detail.as_str());
            m.append(
                "\n`busy` reads PNG, JPEG, and GIF, and uploads PNG (the only format the bar decodes).",
            );
            assert(m@ == undecodable_text(detail@));
            return Err(CliError::Usage(m));
        },
    };
    let (target_width, target_height) = target;
    if original.0 > target_width || original.1 > target_height {
        match encode_fitted_png(bytes, target_width, target_height) {
            Ok((png, width, height)) => Ok(Prepared { png, original, final_size: (width, height) }),
            Err(detail) => Err(CliError::runtime_with("could not encode as PNG: ", detail.as_str())),
        }
    } else {
        match encode_png(bytes) {
            Ok(png) => Ok(Prepared { png, original, final_size: original }),
            Err(detail) => Err(CliError::runtime_with("could not encode as PNG: ", detail.as_str())),
        }
    }
}

/// An image that does not fit is always scaled, and one that fits never
/// is: a prepared image was resized exactly when it was larger than the
/// panel.
pub proof fn lemma_resized_iff_oversized(bytes: Seq<u8>, target: (u32, u32), p: Prepared)
    requires
        target.0 > 0 && target.1 > 0,
        decoded_size(bytes) matches Some(size) && p.original == size && if oversized(size, target) {
            p.final_size == fitted_size(size.0, size.1, target.0, target.1) && p.final_size.0
                <= target.0 && p.final_size.1 <= target.1
        } else {
            p.final_size == size
        },
    ensures
        (p.original != p.final_size) == oversized(p.original, target),
        (p.original != p.final_size) == (p.original.0 > target.0 || p.original.1 > target.1),
        p.final_size.0 <= target.0 && p.final_size.1 <= target.1,
{
}

} // verus!
