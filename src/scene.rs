use crate::error::Error;
use vstd::prelude::*;

verus! {

/// An encoded image file, tied to the view it was taken from.
#[derive(Clone, Debug, Default, PartialEq)]
pub struct Image {
    pub image_encoded: Vec<u8>,
    pub view_id: u32,
}

/// One pixel: red, green, blue.
#[derive(Clone, Copy, Debug, PartialEq, Eq)]
pub struct Rgb(pub [u8; 3]);

/// A decoded raster of 8-bit RGB pixels, row by row, three bytes a pixel.
#[derive(Clone, Debug, PartialEq)]
pub struct RgbImage {
    width: u32,
    height: u32,
    pixels: Vec<u8>,
}

/// What the built-in PNG codec makes of encoded bytes: width, height and the
/// RGB bytes of the decoded raster, or the codec's message.
pub uninterp spec fn rgb_decoding(encoded: Seq<u8>) -> Result<(u32, u32, Seq<u8>), Seq<char>>;

/// Relies on `image::load_from_memory_with_format` with `ImageFormat::Png`
/// and on `DynamicImage::into_rgb8`. With the format given, the reader goes
/// straight to the built-in PNG decoder and consults no registered hook, so
/// the outcome depends on the encoded bytes alone. The RGB buffer holds at
/// least three bytes for each pixel (`ImageBuffer::from_raw` refuses a shorter
/// container, `ImageBuffer::new` allocates exactly that many).
#[verifier::external_body]
fn load_rgb(encoded: &[u8]) -> (r: Result<(u32, u32, Vec<u8>), String>)
    ensures
        match r {
            Ok((w, h, px)) => rgb_decoding(encoded@) == Ok::<(u32, u32, Seq<u8>), Seq<char>>(
                (w, h, px@),
            ) && 3 * w * h <= px@.len(),
            Err(m) => rgb_decoding(encoded@) == Err::<(u32, u32, Seq<u8>), Seq<char>>(m@),
        },
{
    match ::image::load_from_memory_with_format(encoded, ::image::ImageFormat::Png) {
        Ok(decoded) => {
            let rgb = decoded.into_rgb8();
            let (w, h) = rgb.dimensions();
            Ok((w, h, rgb.into_raw()))
        },
        Err(e) => Err(e.to_string()),
    }
}

impl RgbImage {
    /// Enough pixel bytes for the dimensions.
    pub open spec fn wf(&self) -> bool {
        3 * self.spec_width() * self.spec_height() <= self.spec_pixels().len()
    }

    pub closed spec fn spec_width(&self) -> u32 {
        self.width
    }

    pub closed spec fn spec_height(&self) -> u32 {
        self.height
    }

    pub closed spec fn spec_pixels(&self) -> Seq<u8> {
        self.pixels@
    }

    /// Builds a raster from what the codec returned: its message becomes an
    /// `ImageCodec` error, and a pixel buffer too short for the dimensions is
    /// refused as well.
    pub fn from_decoded(decoded: Result<(u32, u32, Vec<u8>), String>) -> (r: Result<
        RgbImage,
        Error,
    >)
        ensures
            match decoded {
                Ok((w, h, px)) => if 3 * w * h <= px@.len() {
                    r is Ok && r->Ok_0.spec_width() == w && r->Ok_0.spec_height() == h
                        && r->Ok_0.spec_pixels() == px@
                } else {
                    r is Err && r->Err_0 is ImageCodec
                },
                Err(m) => r == Err::<RgbImage, Error>(Error::ImageCodec(m)),
            },
            r is Ok ==> r->Ok_0.wf(),
    {
        match decoded {
            Ok((w, h, px)) => {
                assert(w * h <= 0xffff_ffff * 0xffff_ffff && 3 * w * h == 3 * (w * h))
                    by (nonlinear_arith)
                    requires
                        w <= 0xffff_ffff,
                        h <= 0xffff_ffff,
                ;
                let n = (w as u128) * (h as u128);
                if 3 * n <= px.len() as u128 {
                    Ok(RgbImage { width: w, height: h, pixels: px })
                } else {
                    Err(Error::ImageCodec(String::from_str("pixel buffer shorter than the image")))
                }
            },
            Err(m) => Err(Error::ImageCodec(m)),
        }
    }

    pub fn width(&self) -> (r: u32)
        ensures
            r == self.spec_width(),
    {
        self.width
    }

    pub fn height(&self) -> (r: u32)
        ensures
            r == self.spec_height(),
    {
        self.height
    }

    /// The pixel in column `x` of row `y`.
    pub fn get_pixel(&self, x: u32, y: u32) -> (r: Rgb)
        requires
            self.wf(),
            x < self.spec_width(),
            y < self.spec_height(),
        ensures
            r.0@ == self.spec_pixels().subrange(
                3 * (y * self.spec_width() + x),
                3 * (y * self.spec_width() + x) + 3,
            ),
    {
        let len = self.pixels.len();
        let w = self.width as u64;
        let ghost ww = self.width as int;
        let ghost hh = self.height as int;
        assert(y * ww + x + 1 <= hh * ww && y * ww <= 0xffff_ffff * 0xffff_ffff)
            by (nonlinear_arith)
            requires
                x < ww,
                y < hh,
                ww <= 0xffff_ffff,
        ;
        assert(3 * (y * ww + x) + 3 <= len) by (nonlinear_arith)
            requires
                y * ww + x + 1 <= hh * ww,
                3 * ww * hh <= len,
        ;
        let k = (y as u64) * w + x as u64;
        let i = (3 * k) as usize;
        let pixel = Rgb([self.pixels[i], self.pixels[i + 1], self.pixels[i + 2]]);
        assert(pixel.0@ =~= self.pixels@.subrange(i as int, i + 3));
        pixel
    }
}

impl Image {
    /// Decodes the encoded bytes, read as PNG, into an RGB raster. The outcome
    /// is a function of the encoded bytes alone.
    pub fn decode_rgb(&self) -> (r: Result<RgbImage, Error>)
        ensures
            match rgb_decoding(self.image_encoded@) {
                Ok((w, h, px)) => r is Ok && r->Ok_0.spec_width() == w && r->Ok_0.spec_height()
                    == h && r->Ok_0.spec_pixels() == px,
                Err(m) => r is Err && r->Err_0 is ImageCodec && r->Err_0->ImageCodec_0@ == m,
            },
            r is Ok ==> r->Ok_0.wf(),
    {
        RgbImage::from_decoded(load_rgb(self.image_encoded.as_slice()))
    }
}

} // verus!
