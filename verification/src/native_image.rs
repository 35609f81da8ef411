//! RGBA images: creation (empty, decoded, or from raw pixels), size,
//! resizing, cropping, thumbnails and PNG encoding. Pixel resampling,
//! cropping, decoding and encoding are the `image` crate's.

use vstd::prelude::*;
use crate::crypto::{base64_encode, base64_spec};
use crate::text::{chars_of, push_str, string_from};

verus! {

/// Width and height in pixels.
#[derive(Debug)]
pub struct ImageSize {
    /// Width.
    pub width: u32,
    /// Height.
    pub height: u32,
}

/// A crop region.
#[derive(Debug)]
pub struct CropRect {
    /// Left edge.
    pub x: u32,
    /// Top edge.
    pub y: u32,
    /// Width.
    pub width: u32,
    /// Height.
    pub height: u32,
}

/// Resize options (a missing dimension keeps the current one).
#[derive(Debug)]
pub struct ResizeOptions {
    /// Target width.
    pub width: Option<u32>,
    /// Target height.
    pub height: Option<u32>,
    /// JPEG quality.
    pub quality: Option<u8>,
}

/// Why an image operation failed.
#[derive(Debug, Clone, Copy, PartialEq, Eq, Structural)]
pub enum ImageError {
    /// A target dimension is zero.
    InvalidDimensions,
    /// The crop region leaves the image.
    CropOutOfBounds,
    /// The bytes are no image and no raw pixels of the given size.
    UndecodableBuffer,
    /// The encoder failed.
    EncodingFailed,
}

/// The number of bytes of RGBA pixels for a size.
pub open spec fn rgba_len(width: u32, height: u32) -> nat {
    (width as nat) * (height as nat) * 4
}

/// What `image::imageops::resize` with the Lanczos3 filter gives for RGBA
/// pixels of one size resampled to another.
pub uninterp spec fn resize_spec(width: u32, height: u32, data: Seq<u8>, new_width: u32, new_height: u32) -> Seq<u8>;

/// The pixels of a region of an RGBA image of `width` by `height` pixels:
/// the `ch` rows of `cw` pixels (four bytes each) whose top left corner is
/// `(x, y)`, row by row.
pub open spec fn crop_spec(width: u32, height: u32, data: Seq<u8>, x: u32, y: u32, cw: u32, ch: u32) -> Seq<u8> {
    Seq::new(
        rgba_len(cw, ch),
        |i: int|
            {
                let p = i / 4;
                data[((y as int + p / (cw as int)) * (width as int) + x as int + p % (cw as int)) * 4 + i % 4]
            },
    )
}

/// What `image::load_from_memory` decodes from bytes, as RGBA pixels with
/// their size.
pub uninterp spec fn decode_spec(bytes: Seq<u8>) -> Option<(u32, u32, Seq<u8>)>;

/// The PNG file that the `image` crate writes for RGBA pixels.
pub uninterp spec fn png_spec(width: u32, height: u32, data: Seq<u8>) -> Option<Seq<u8>>;

/// `image::imageops::resize` (Lanczos3) on an RGBA buffer: the pixels are
/// named; there are as many as the new size holds.
#[verifier::external_body]
fn image_resize(width: u32, height: u32, data: &[u8], new_width: u32, new_height: u32) -> (r: Vec<u8>)
    requires
        data@.len() == rgba_len(width, height),
        rgba_len(new_width, new_height) <= usize::MAX,
    ensures
        r@ == resize_spec(width, height, data@, new_width, new_height),
        r@.len() == rgba_len(new_width, new_height),
{
    let img = image::RgbaImage::from_raw(width, height, data.to_vec()).unwrap();
    image::imageops::resize(&img, new_width, new_height, image::imageops::FilterType::Lanczos3).into_raw()
}

/// `image::imageops::crop_imm(..).to_image()` on an RGBA buffer for a region
/// inside it: the region's pixels, copied row by row.
#[verifier::external_body]
fn image_crop(width: u32, height: u32, data: &[u8], x: u32, y: u32, cw: u32, ch: u32) -> (r: Vec<u8>)
    requires
        data@.len() == rgba_len(width, height),
        x + cw <= width,
        y + ch <= height,
    ensures
        r@ == crop_spec(width, height, data@, x, y, cw, ch),
        r@.len() == rgba_len(cw, ch),
{
    let img = image::RgbaImage::from_raw(width, height, data.to_vec()).unwrap();
    image::imageops::crop_imm(&img, x, y, cw, ch).to_image().into_raw()
}

/// `image::load_from_memory(..).to_rgba8()`: the size and pixels are named;
/// there are as many pixels as the size holds.
#[verifier::external_body]
fn image_decode(bytes: &[u8]) -> (r: Option<(u32, u32, Vec<u8>)>)
    ensures
        match r {
            Some((w, h, d)) => decode_spec(bytes@) == Some((w, h, d@)) && d@.len() == rgba_len(w, h),
            None => decode_spec(bytes@) is None,
        },
{
    match image::load_from_memory(bytes) {
        Ok(img) => {
            let rgba = img.to_rgba8();
            let (w, h) = rgba.dimensions();
            Some((w, h, rgba.into_raw()))
        },
        Err(_) => None,
    }
}

/// `RgbaImage::write_to` with `ImageFormat::Png` into memory: the file is named.
#[verifier::external_body]
fn image_png(width: u32, height: u32, data: &[u8]) -> (r: Option<Vec<u8>>)
    requires
        data@.len() == rgba_len(width, height),
    ensures
        match r {
            Some(p) => png_spec(width, height, data@) == Some(p@),
            None => png_spec(width, height, data@) is None,
        },
{
    let img = image::RgbaImage::from_raw(width, height, data.to_vec()).unwrap();
    let mut buffer = std::io::Cursor::new(Vec::new());
    match img.write_to(&mut buffer, image::ImageFormat::Png) {
        Ok(()) => Some(buffer.into_inner()),
        Err(_) => None,
    }
}

/// An RGBA image.
#[derive(Debug)]
pub struct NativeImage {
    data: Vec<u8>,
    width: u32,
    height: u32,
    is_template_image: bool,
}

impl NativeImage {
    #[verifier::type_invariant]
    spec fn well_formed(&self) -> bool {
        self.data@.len() == rgba_len(self.width, self.height)
    }

    /// The pixels, four bytes per pixel, row by row.
    pub closed spec fn pixels(&self) -> Seq<u8> {
        self.data@
    }

    /// The width.
    pub closed spec fn width_spec(&self) -> u32 {
        self.width
    }

    /// The height.
    pub closed spec fn height_spec(&self) -> u32 {
        self.height
    }

    /// Whether it is a template image (macOS light and dark mode).
    pub closed spec fn template_spec(&self) -> bool {
        self.is_template_image
    }

    /// A transparent black image of the given size.
    pub fn create_empty(width: u32, height: u32) -> (r: NativeImage)
        requires
            rgba_len(width, height) <= u32::MAX,
        ensures
            r.width_spec() == width,
            r.height_spec() == height,
            r.pixels() == Seq::new(rgba_len(width, height), |i: int| 0u8),
            !r.template_spec(),
    {
        assert((width as nat) * (height as nat) * 4 == width * height * 4) by (nonlinear_arith);
        let n = (width * height * 4) as usize;
        let mut data: Vec<u8> = Vec::new();
        let mut i: usize = 0;
        while i < n
            invariant
                0 <= i <= n,
                data@ == Seq::new(i as nat, |k: int| 0u8),
            decreases n - i,
        {
            data.push(0u8);
            assert(data@ =~= Seq::new(i as nat + 1, |k: int| 0u8));
            i = i + 1;
        }
        NativeImage { data, width, height, is_template_image: false }
    }

    /// Decodes an image file held in memory; where the bytes are no image
    /// and a size is given, they are taken as raw RGBA pixels of that size
    /// (the first bytes, where there are enough).
    pub fn create_from_buffer(buffer: &[u8], options: Option<&ImageSize>) -> (r: Result<NativeImage, ImageError>)
        requires
            decode_spec(buffer@) is None ==> match options {
                Some(s) => rgba_len(s.width, s.height) <= u32::MAX,
                None => true,
            },
        ensures
            match decode_spec(buffer@) {
                Some((w, h, d)) => r is Ok && r->Ok_0.width_spec() == w && r->Ok_0.height_spec() == h
                    && r->Ok_0.pixels() == d && !r->Ok_0.template_spec(),
                None => match options {
                    Some(s) => if buffer@.len() >= rgba_len(s.width, s.height) {
                        r is Ok && r->Ok_0.width_spec() == s.width && r->Ok_0.height_spec() == s.height
                            && r->Ok_0.pixels() == buffer@.take(rgba_len(s.width, s.height) as int)
                            && !r->Ok_0.template_spec()
                    } else {
                        r == Err::<NativeImage, ImageError>(ImageError::UndecodableBuffer)
                    },
                    None => r == Err::<NativeImage, ImageError>(ImageError::UndecodableBuffer),
                },
            },
    {
        if let Some((w, h, d)) = image_decode(buffer) {
            return Ok(NativeImage { data: d, width: w, height: h, is_template_image: false });
        }
        if let Some(size) = options {
            assert((size.width as nat) * (size.height as nat) * 4 == size.width * size.height * 4) by (nonlinear_arith);
            let expected = (size.width * size.height * 4) as usize;
            if buffer.len() >= expected {
                let mut data: Vec<u8> = Vec::new();
                let mut i: usize = 0;
                while i < expected
                    invariant
                        expected <= buffer@.len(),
                        0 <= i <= expected,
                        data@ == buffer@.take(i as int),
                    decreases expected - i,
                {
                    data.push(buffer[i]);
                    assert(buffer@.take(i as int + 1) =~= buffer@.take(i as int).push(buffer@[i as int]));
                    i = i + 1;
                }
                return Ok(NativeImage { data, width: size.width, height: size.height, is_template_image: false });
            }
        }
        Err(ImageError::UndecodableBuffer)
    }

    /// The image resampled to the given size (a missing dimension keeps the
    /// current one); a zero dimension is refused.
    pub fn resize(&self, options: &ResizeOptions) -> (r: Result<NativeImage, ImageError>)
        requires
            ({
                let w = match options.width { Some(v) => v, None => self.width_spec() };
                let h = match options.height { Some(v) => v, None => self.height_spec() };
                w != 0 && h != 0 ==> rgba_len(w, h) <= usize::MAX
            }),
        ensures
            ({
                let w = match options.width { Some(v) => v, None => self.width_spec() };
                let h = match options.height { Some(v) => v, None => self.height_spec() };
                if w == 0 || h == 0 {
                    r == Err::<NativeImage, ImageError>(ImageError::InvalidDimensions)
                } else {
                    r is Ok && r->Ok_0.width_spec() == w && r->Ok_0.height_spec() == h
                        && r->Ok_0.pixels() == resize_spec(self.width_spec(), self.height_spec(), self.pixels(), w, h)
                        && r->Ok_0.template_spec() == self.template_spec()
                }
            }),
    {
        proof {
            use_type_invariant(self);
        }
        let new_width = match options.width {
            Some(v) => v,
            None => self.width,
        };
        let new_height = match options.height {
            Some(v) => v,
            None => self.height,
        };
        if new_width == 0 || new_height == 0 {
            return Err(ImageError::InvalidDimensions);
        }
        let data = image_resize(self.width, self.height, self.data.as_slice(), new_width, new_height);
        Ok(NativeImage { data, width: new_width, height: new_height, is_template_image: self.is_template_image })
    }

    /// The region `rect` of the image; one that leaves the image is refused.
    pub fn crop(&self, rect: &CropRect) -> (r: Result<NativeImage, ImageError>)
        requires
            rect.x + rect.width <= u32::MAX,
            rect.y + rect.height <= u32::MAX,
        ensures
            if rect.x + rect.width > self.width_spec() || rect.y + rect.height > self.height_spec() {
                r == Err::<NativeImage, ImageError>(ImageError::CropOutOfBounds)
            } else {
                r is Ok && r->Ok_0.width_spec() == rect.width && r->Ok_0.height_spec() == rect.height
                    && r->Ok_0.pixels() == crop_spec(self.width_spec(), self.height_spec(), self.pixels(), rect.x, rect.y, rect.width, rect.height)
                    && r->Ok_0.template_spec() == self.template_spec()
            },
    {
        proof {
            use_type_invariant(self);
        }
        if rect.x + rect.width > self.width || rect.y + rect.height > self.height {
            return Err(ImageError::CropOutOfBounds);
        }
        let data = image_crop(self.width, self.height, self.data.as_slice(), rect.x, rect.y, rect.width, rect.height);
        Ok(NativeImage { data, width: rect.width, height: rect.height, is_template_image: self.is_template_image })
    }

    /// The size.
    pub fn get_size(&self) -> (r: ImageSize)
        ensures
            r.width == self.width_spec(),
            r.height == self.height_spec(),
    {
        ImageSize { width: self.width, height: self.height }
    }

    /// The width.
    pub fn width(&self) -> (r: u32)
        ensures
            r == self.width_spec(),
    {
        self.width
    }

    /// The height.
    pub fn height(&self) -> (r: u32)
        ensures
            r == self.height_spec(),
    {
        self.height
    }

    /// The PNG file of the image.
    pub fn to_png(&self) -> (r: Result<Vec<u8>, ImageError>)
        ensures
            match png_spec(self.width_spec(), self.height_spec(), self.pixels()) {
                Some(p) => r is Ok && r->Ok_0@ == p,
                None => r == Err::<Vec<u8>, ImageError>(ImageError::EncodingFailed),
            },
    {
        proof {
            use_type_invariant(self);
        }
        match image_png(self.width, self.height, self.data.as_slice()) {
            Some(p) => Ok(p),
            None => Err(ImageError::EncodingFailed),
        }
    }

    /// A `data:image/png;base64,` URL of the image.
    pub fn to_data_url(&self) -> (r: Result<String, ImageError>)
        ensures
            match png_spec(self.width_spec(), self.height_spec(), self.pixels()) {
                Some(p) => r is Ok && r->Ok_0@ == "data:image/png;base64,"@ + base64_spec(p),
                None => r == Err::<String, ImageError>(ImageError::EncodingFailed),
            },
    {
        let png = match self.to_png() {
            Ok(p) => p,
            Err(e) => return Err(e),
        };
        let b64 = base64_encode(png.as_slice());
        let mut v = chars_of("data:image/png;base64,");
        push_str(&mut v, b64.as_str());
        Ok(string_from(v.as_slice()))
    }

    /// The pixels (RGBA).
    pub fn get_bitmap(&self) -> (r: &[u8])
        ensures
            r@ == self.pixels(),
    {
        self.data.as_slice()
    }

    /// Whether it is a template image.
    pub fn is_template_image(&self) -> (r: bool)
        ensures
            r == self.template_spec(),
    {
        self.is_template_image
    }

    /// Marks it as a template image, or not.
    pub fn set_template_image(&mut self, is_template: bool)
        ensures
            final(self).template_spec() == is_template,
            final(self).pixels() == old(self).pixels(),
            final(self).width_spec() == old(self).width_spec(),
            final(self).height_spec() == old(self).height_spec(),
    {
        proof {
            use_type_invariant(&*self);
        }
        self.is_template_image = is_template;
    }

    /// The image itself where both sides reach `min_size`, else the image
    /// resampled to `min_size` square.
    pub fn ensure_min_size(&self, min_size: u32) -> (r: Result<NativeImage, ImageError>)
        requires
            rgba_len(min_size, min_size) <= usize::MAX,
        ensures
            if self.width_spec() >= min_size && self.height_spec() >= min_size {
                r is Ok && r->Ok_0.pixels() == self.pixels() && r->Ok_0.width_spec() == self.width_spec()
                    && r->Ok_0.height_spec() == self.height_spec() && r->Ok_0.template_spec() == self.template_spec()
            } else if min_size == 0 {
                r == Err::<NativeImage, ImageError>(ImageError::InvalidDimensions)
            } else {
                r is Ok && r->Ok_0.width_spec() == min_size && r->Ok_0.height_spec() == min_size
                    && r->Ok_0.pixels() == resize_spec(self.width_spec(), self.height_spec(), self.pixels(), min_size, min_size)
                    && r->Ok_0.template_spec() == self.template_spec()
            },
    {
        proof {
            use_type_invariant(self);
        }
        if self.width >= min_size && self.height >= min_size {
            let data = vstd::slice::slice_to_vec(self.data.as_slice());
            return Ok(NativeImage { data, width: self.width, height: self.height, is_template_image: self.is_template_image });
        }
        self.resize(&ResizeOptions { width: Some(min_size), height: Some(min_size), quality: None })
    }

    /// The thumbnail size within `max_size`: the longer side becomes
    /// `max_size`, the other scales with it (at least 1).
    pub open spec fn thumbnail_size(width: u32, height: u32, max_size: u32) -> (u32, u32) {
        if width > height {
            let q = (height as int) * (max_size as int) / (width as int);
            (max_size, if q >= 1 { q as u32 } else { 1 })
        } else {
            let q = (width as int) * (max_size as int) / (height as int);
            (if q >= 1 { q as u32 } else { 1 }, max_size)
        }
    }

    /// A thumbnail that keeps the aspect ratio within `max_size`.
    pub fn create_thumbnail(&self, max_size: u32) -> (r: Result<NativeImage, ImageError>)
        requires
            self.width_spec() > self.height_spec() ==> self.height_spec() * max_size <= u32::MAX,
            self.width_spec() <= self.height_spec() ==> self.height_spec() > 0 && self.width_spec() * max_size <= u32::MAX,
            ({
                let (w, h) = Self::thumbnail_size(self.width_spec(), self.height_spec(), max_size);
                w != 0 && h != 0 ==> rgba_len(w, h) <= usize::MAX
            }),
        ensures
            ({
                let (w, h) = Self::thumbnail_size(self.width_spec(), self.height_spec(), max_size);
                if max_size == 0 {
                    r == Err::<NativeImage, ImageError>(ImageError::InvalidDimensions)
                } else {
                    r is Ok && r->Ok_0.width_spec() == w && r->Ok_0.height_spec() == h
                        && r->Ok_0.pixels() == resize_spec(self.width_spec(), self.height_spec(), self.pixels(), w, h)
                        && r->Ok_0.template_spec() == self.template_spec()
                }
            }),
    {
        let (new_w, new_h) = if self.width > self.height {
            let q = self.height * max_size / self.width;
            (max_size, if q >= 1 { q } else { 1 })
        } else {
            let q = self.width * max_size / self.height;
            (if q >= 1 { q } else { 1 }, max_size)
        };
        self.resize(&ResizeOptions { width: Some(new_w), height: Some(new_h), quality: None })
    }
}

/// Decodes an image held in memory.
pub fn create_from_buffer(buffer: &[u8]) -> (r: Result<NativeImage, ImageError>)
    ensures
        match decode_spec(buffer@) {
            Some((w, h, d)) => r is Ok && r->Ok_0.width_spec() == w && r->Ok_0.height_spec() == h
                && r->Ok_0.pixels() == d,
            None => r == Err::<NativeImage, ImageError>(ImageError::UndecodableBuffer),
        },
{
    NativeImage::create_from_buffer(buffer, None)
}

/// A transparent black image of the given size.
pub fn create_empty(width: u32, height: u32) -> (r: NativeImage)
    requires
        rgba_len(width, height) <= u32::MAX,
    ensures
        r.width_spec() == width,
        r.height_spec() == height,
        r.pixels() == Seq::new(rgba_len(width, height), |i: int| 0u8),
{
    NativeImage::create_empty(width, height)
}

} // verus!
