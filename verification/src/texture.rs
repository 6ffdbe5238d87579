//! Textures: a grid of texels read row after row, and the decoding of image
//! files into 8-bit RGB texels.
use vstd::prelude::*;

verus! {

/// The error type of the `image` crate, carried through unread.
#[verifier::external_type_specification]
#[verifier::external_body]
pub struct ExImageError(image::ImageError);

/// Why an image could not be made into a texture.
#[derive(Debug)]
pub enum TextureError {
    /// The bytes are no image in a format that the decoder reads.
    Image(image::ImageError),
}

/// A grid of `width` by `height` texels, row after row: the texel in column
/// `x` and row `y` is `data[y * width + x]`.
pub struct Texture<T> {
    pub width: usize,
    pub height: usize,
    pub data: Vec<T>,
}

/// `value` made to lie in `0..=max`, as `usize::clamp(value, 0, max)` does.
pub open spec fn clamp_to(value: usize, max: usize) -> usize {
    if value > max {
        max
    } else {
        value
    }
}

/// `value - 1`, or 0 where `value` is 0, as `usize::saturating_sub(value, 1)`.
pub open spec fn last_index(value: usize) -> usize {
    if value == 0 {
        0
    } else {
        (value - 1) as usize
    }
}

impl<T: Copy> Texture<T> {
    /// A texture of the given size over `data`.
    pub fn new(width: usize, height: usize, data: Vec<T>) -> (t: Self)
        ensures
            t.width == width,
            t.height == height,
            t.data@ == data@,
    {
        Texture { width, height, data }
    }

    /// The entry that a lookup at column `x`, row `y` reads, once both are
    /// clamped into the grid.
    pub open spec fn texel_index(&self, x: usize, y: usize) -> int {
        clamp_to(y, last_index(self.height)) * self.width + clamp_to(x, last_index(self.width))
    }

    /// The texel at column `x`, row `y`, each first clamped to the last
    /// column and row; `None` where the data holds no such entry.
    pub fn texel(&self, x: usize, y: usize) -> (t: Option<T>)
        ensures
            t == (if self.texel_index(x, y) < self.data@.len() {
                Some(self.data@[self.texel_index(x, y)])
            } else {
                None
            }),
    {
        let last_x = self.width.saturating_sub(1);
        let last_y = self.height.saturating_sub(1);
        let cx = if x > last_x {
            last_x
        } else {
            x
        };
        let cy = if y > last_y {
            last_y
        } else {
            y
        };
        assert(cy * self.width + cx == self.texel_index(x, y));
        let row = cy.checked_mul(self.width);
        match row {
            Some(r) => {
                if r < self.data.len() && cx < self.data.len() - r {
                    Some(self.data[r + cx])
                } else {
                    None
                }
            },
            None => None,
        }
    }
}

/// The image that the `image` crate's built-in decoders make of the bytes of
/// an image file, in the format that its leading bytes name, as 8-bit RGB: its width, its height and its raw samples, three per pixel,
/// row after row. `None` where it cannot decode them.
pub uninterp spec fn decoded_rgb8(bytes: Seq<u8>) -> Option<(u32, u32, Seq<u8>)>;

/// Decodes `bytes` with `image::load_from_memory_with_format`, in the
/// built-in format that `image::guess_format` reads from the leading bytes,
/// and converts the image with `DynamicImage::to_rgb8`. That path consults
/// none of the decoding or format hooks that can be registered at run time.
/// Trusted: the result is the decoded image named by `decoded_rgb8` (a
/// function of the bytes alone), and its sample buffer holds at least three
/// samples per pixel, as every `ImageBuffer` does. Which bytes decode, and to
/// what, is not stated.
#[verifier::external_body]
fn decode_rgb8(bytes: &[u8]) -> (r: Result<(u32, u32, Vec<u8>), image::ImageError>)
    ensures
        r is Ok <==> decoded_rgb8(bytes@) is Some,
        r matches Ok((w, h, raw)) ==> decoded_rgb8(bytes@) == Some((w, h, raw@)) && 3 * w * h
            <= raw@.len(),
{
    let decoded = match image::guess_format(bytes) {
        Ok(format) => image::load_from_memory_with_format(bytes, format),
        Err(e) => Err(e),
    };
    match decoded {
        Ok(img) => {
            let rgb = img.to_rgb8();
            let (w, h) = rgb.dimensions();
            Ok((w, h, rgb.into_raw()))
        },
        Err(e) => Err(e),
    }
}

/// The first `n` pixels of the RGB samples `raw`, each as the triple of its
/// three samples.
pub open spec fn rgb_texels(raw: Seq<u8>, n: nat) -> Seq<(u8, u8, u8)> {
    Seq::new(n, |i: int| (raw[3 * i], raw[3 * i + 1], raw[3 * i + 2]))
}

impl Texture<(u8, u8, u8)> {
    /// The texture of a `width` by `height` RGB image whose samples `raw`
    /// run three per pixel, row after row.
    pub fn from_rgb8(width: u32, height: u32, raw: &Vec<u8>) -> (t: Self)
        requires
            3 * width * height <= raw@.len(),
        ensures
            t.width == width,
            t.height == height,
            t.data@ == rgb_texels(raw@, (width * height) as nat),
    {
        let w = width as usize;
        let h = height as usize;
        proof {
            assert(3 * width * height == 3 * (w * h)) by (nonlinear_arith)
                requires
                    w == width,
                    h == height,
            ;
            assert(raw@.len() == raw.len());
        }
        let n = w * h;
        let mut data: Vec<(u8, u8, u8)> = Vec::new();
        for i in 0..n
            invariant
                n == w * h,
                3 * n <= raw@.len(),
                data@ == rgb_texels(raw@, i as nat),
                width * height == n,
                raw@.len() <= usize::MAX,
        {
            let p = (raw[3 * i], raw[3 * i + 1], raw[3 * i + 2]);
            data.push(p);
            assert(data@ =~= rgb_texels(raw@, (i + 1) as nat));
        }
        Texture { width: w, height: h, data }
    }

    /// Decodes the bytes of an image file (PNG or JPEG) into a texture of
    /// 8-bit RGB texels.
    pub fn decode(bytes: &[u8]) -> (r: Result<Self, TextureError>)
        ensures
            r is Ok <==> decoded_rgb8(bytes@) is Some,
            r matches Ok(t) ==> decoded_rgb8(bytes@) matches Some((w, h, raw)) && t.width == w
                && t.height == h && t.data@ == rgb_texels(raw, (w * h) as nat),
    {
        match decode_rgb8(bytes) {
            Ok((w, h, raw)) => Ok(Self::from_rgb8(w, h, &raw)),
            Err(e) => Err(TextureError::Image(e)),
        }
    }
}

/// A lookup into a texture whose data fills its grid, at least one texel
/// wide and high, always finds a texel, wherever it looks.
pub proof fn lemma_texel_within_grid<T: Copy>(t: Texture<T>, x: usize, y: usize)
    requires
        t.width > 0,
        t.height > 0,
        t.data@.len() == t.width * t.height,
    ensures
        0 <= t.texel_index(x, y) < t.data@.len(),
{
    let cx = clamp_to(x, last_index(t.width));
    let cy = clamp_to(y, last_index(t.height));
    assert(cy * t.width + cx < t.width * t.height) by (nonlinear_arith)
        requires
            cx < t.width,
            cy < t.height,
    ;
    assert(0 <= cy * t.width) by (nonlinear_arith);
}

} // verus!
