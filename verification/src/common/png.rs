use super::bitmap::{raster_len, GrayBitmap, RgbaBitmap};
use vstd::prelude::*;

verus! {

#[verifier::external_type_specification]
#[verifier::external_body]
pub struct ExImageError(image::ImageError);

/// Why an encoded image could not be turned into pixels, or pixels into an encoded image.
#[derive(Debug)]
pub enum CodecError {
    /// The bytes are not a PNG image that the decoder accepts.
    Decode(image::ImageError),
    /// The decoder handed out a buffer that does not hold exactly the pixels it announced.
    Malformed,
    /// The encoder failed.
    Encode(image::ImageError),
}

/// What decoding `bytes` as PNG and converting to 8-bit RGBA gives: width, height and the
/// row-major buffer; `None` where the decoder reports an error.
pub uninterp spec fn png_rgba_pixels(bytes: Seq<u8>) -> Option<(u32, u32, Seq<u8>)>;

/// What decoding `bytes` as PNG and converting to 8-bit luma gives: width, height and the
/// row-major buffer; `None` where the decoder reports an error.
pub uninterp spec fn png_gray_pixels(bytes: Seq<u8>) -> Option<(u32, u32, Seq<u8>)>;

/// The PNG encoding of a `width` by `height` RGBA buffer; `None` where the encoder reports an
/// error.
pub uninterp spec fn rgba_png_bytes(width: u32, height: u32, data: Seq<u8>) -> Option<Seq<u8>>;

/// The PNG encoding of a `width` by `height` luma buffer; `None` where the encoder reports an
/// error.
pub uninterp spec fn gray_png_bytes(width: u32, height: u32, data: Seq<u8>) -> Option<Seq<u8>>;

/// `image::ImageReader::decode` on an in-memory reader whose format is set to PNG, followed by
/// `DynamicImage::to_rgba8`. Nothing is claimed of the pixels but that they are the ones named
/// by `png_rgba_pixels`: the same bytes always decode to the same image or fail alike.
#[verifier::external_body]
fn decode_rgba(bytes: Vec<u8>) -> (r: Result<(u32, u32, Vec<u8>), image::ImageError>)
    ensures
        match r {
            Ok((w, h, d)) => png_rgba_pixels(bytes@) == Some((w, h, d@)),
            Err(_) => png_rgba_pixels(bytes@).is_none(),
        },
{
    let mut reader = image::ImageReader::new(std::io::Cursor::new(bytes));
    reader.set_format(image::ImageFormat::Png);
    let img = reader.decode()?.to_rgba8();
    Ok((img.width(), img.height(), img.into_raw()))
}

/// `image::ImageReader::decode` on an in-memory reader whose format is set to PNG, followed by
/// `DynamicImage::to_luma8`. Nothing is claimed of the pixels but that they are the ones named
/// by `png_gray_pixels`.
#[verifier::external_body]
fn decode_gray(bytes: Vec<u8>) -> (r: Result<(u32, u32, Vec<u8>), image::ImageError>)
    ensures
        match r {
            Ok((w, h, d)) => png_gray_pixels(bytes@) == Some((w, h, d@)),
            Err(_) => png_gray_pixels(bytes@).is_none(),
        },
{
    let mut reader = image::ImageReader::new(std::io::Cursor::new(bytes));
    reader.set_format(image::ImageFormat::Png);
    let img = reader.decode()?.to_luma8();
    Ok((img.width(), img.height(), img.into_raw()))
}

/// `ImageBuffer::write_to` with the PNG format, into an in-memory writer, on the RGBA image
/// that `ImageBuffer::from_raw` makes of the buffer. `from_raw` accepts every buffer that is
/// long enough, which `requires` asks for.
#[verifier::external_body]
fn encode_rgba(width: u32, height: u32, data: Vec<u8>) -> (r: Result<Vec<u8>, image::ImageError>)
    requires
        data@.len() == raster_len(width as nat, height as nat, 4),
    ensures
        match r {
            Ok(bytes) => rgba_png_bytes(width, height, data@) == Some(bytes@),
            Err(_) => rgba_png_bytes(width, height, data@).is_none(),
        },
{
    let img = image::RgbaImage::from_raw(width, height, data).unwrap();
    let mut cursor = std::io::Cursor::new(Vec::<u8>::new());
    img.write_to(&mut cursor, image::ImageFormat::Png)?;
    Ok(cursor.into_inner())
}

/// `ImageBuffer::write_to` with the PNG format, into an in-memory writer, on the luma image
/// that `ImageBuffer::from_raw` makes of the buffer.
#[verifier::external_body]
fn encode_gray(width: u32, height: u32, data: Vec<u8>) -> (r: Result<Vec<u8>, image::ImageError>)
    requires
        data@.len() == raster_len(width as nat, height as nat, 1),
    ensures
        match r {
            Ok(bytes) => gray_png_bytes(width, height, data@) == Some(bytes@),
            Err(_) => gray_png_bytes(width, height, data@).is_none(),
        },
{
    let img = image::GrayImage::from_raw(width, height, data).unwrap();
    let mut cursor = std::io::Cursor::new(Vec::<u8>::new());
    img.write_to(&mut cursor, image::ImageFormat::Png)?;
    Ok(cursor.into_inner())
}

/// The pixels that a decoder's announcement stands for, where its buffer has the length that
/// the announced size asks for.
pub open spec fn well_sized(decoded: Option<(u32, u32, Seq<u8>)>, channels: nat) -> bool {
    decoded matches Some((w, h, d)) && d.len() == raster_len(w as nat, h as nat, channels)
}

/// An image as PNG-encoded bytes: the form in which images are stored and fetched.
#[derive(Clone, PartialEq, Eq, Debug)]
pub struct ImagePng(Vec<u8>);

impl View for ImagePng {
    type V = Seq<u8>;

    closed spec fn view(&self) -> Seq<u8> {
        self.0@
    }
}

impl ImagePng {
    pub fn into_inner(self) -> (bytes: Vec<u8>)
        ensures
            bytes@ == self@,
    {
        self.0
    }

    pub fn new(raw_data: Vec<u8>) -> (img: Self)
        ensures
            img@ == raw_data@,
    {
        Self(raw_data)
    }

    /// Decodes to RGBA. Succeeds exactly where the decoder does and its buffer is well sized.
    pub fn try_to_rgba(self) -> (r: Result<RgbaBitmap, CodecError>)
        ensures
            r.is_ok() <==> well_sized(png_rgba_pixels(self@), 4),
            r matches Ok(b) ==> png_rgba_pixels(self@) == Some(
                (b.spec_width() as u32, b.spec_height() as u32, b@),
            ) && b.wf(),
            r matches Err(e) ==> (e is Decode <==> png_rgba_pixels(self@).is_none()) && !(e is Encode),
    {
        match decode_rgba(self.0) {
            Err(e) => Err(CodecError::Decode(e)),
            Ok((w, h, d)) => match RgbaBitmap::from_raw(w, h, d) {
                Some(b) => Ok(b),
                None => Err(CodecError::Malformed),
            },
        }
    }

    /// Decodes to luma. Succeeds exactly where the decoder does and its buffer is well sized.
    pub fn try_to_gray(self) -> (r: Result<GrayBitmap, CodecError>)
        ensures
            r.is_ok() <==> well_sized(png_gray_pixels(self@), 1),
            r matches Ok(b) ==> png_gray_pixels(self@) == Some(
                (b.spec_width() as u32, b.spec_height() as u32, b@),
            ) && b.wf(),
            r matches Err(e) ==> (e is Decode <==> png_gray_pixels(self@).is_none()) && !(e is Encode),
    {
        match decode_gray(self.0) {
            Err(e) => Err(CodecError::Decode(e)),
            Ok((w, h, d)) => match GrayBitmap::from_raw(w, h, d) {
                Some(b) => Ok(b),
                None => Err(CodecError::Malformed),
            },
        }
    }

    /// Encodes an RGBA raster. Succeeds exactly where the encoder does.
    pub fn try_from_rgba(value: RgbaBitmap) -> (r: Result<Self, CodecError>)
        ensures
            match r {
                Ok(img) => rgba_png_bytes(
                    value.spec_width() as u32,
                    value.spec_height() as u32,
                    value@,
                ) == Some(img@),
                Err(e) => e is Encode && rgba_png_bytes(
                    value.spec_width() as u32,
                    value.spec_height() as u32,
                    value@,
                ).is_none(),
            },
    {
        let (w, h) = value.dimensions();
        match encode_rgba(w, h, value.into_raw()) {
            Ok(bytes) => Ok(Self(bytes)),
            Err(e) => Err(CodecError::Encode(e)),
        }
    }

    /// Encodes a luma raster. Succeeds exactly where the encoder does.
    pub fn try_from_gray(value: GrayBitmap) -> (r: Result<Self, CodecError>)
        ensures
            match r {
                Ok(img) => gray_png_bytes(
                    value.spec_width() as u32,
                    value.spec_height() as u32,
                    value@,
                ) == Some(img@),
                Err(e) => e is Encode && gray_png_bytes(
                    value.spec_width() as u32,
                    value.spec_height() as u32,
                    value@,
                ).is_none(),
            },
    {
        let (w, h) = value.dimensions();
        match encode_gray(w, h, value.into_raw()) {
            Ok(bytes) => Ok(Self(bytes)),
            Err(e) => Err(CodecError::Encode(e)),
        }
    }
}

} // verus!
