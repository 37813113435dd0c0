//! What the catalog holds of an image: its size and reduced aspect ratio,
//! its format, its perceptual hash as text, and the facts of its file.

use vstd::prelude::*;
use crate::errors::{AppError, AppResult};
use crate::image_format::{format_name, is_format_name, ImageFormat, ImageFormatExt};
use crate::text::{decimal, hex_fixed, push_char, push_decimal, push_hex};
use crate::time::Timestamp;

verus! {

/// Greatest common divisor by Euclid's rule; `gcd_spec(0, 0)` is 0.
pub open spec fn gcd_spec(x: nat, y: nat) -> nat
    decreases y,
{
    if y == 0 {
        x
    } else {
        gcd_spec(y, x % y)
    }
}

/// Width and height of an image, in pixels.
#[derive(Clone, Copy, Debug, PartialEq, Eq)]
pub struct Dimensions {
    pub height: u32,
    pub width: u32,
}

pub fn gcd(x: u32, y: u32) -> (g: u32)
    ensures
        g as nat == gcd_spec(x as nat, y as nat),
    decreases y,
{
    if y == 0 {
        x
    } else {
        gcd(y, x % y)
    }
}

/// `d` divides `n`.
pub open spec fn divides(d: nat, n: nat) -> bool {
    exists|k: nat| n == #[trigger] product(d, k)
}

/// `a` times `b`.
pub open spec fn product(a: nat, b: nat) -> nat {
    a * b
}

/// The reduced aspect ratio of a `w` by `h` image: both divided by their
/// greatest common divisor; `(0, 0)` for an image of no size.
pub open spec fn ratio_spec(w: nat, h: nat) -> (nat, nat) {
    let g = gcd_spec(w, h);
    if g == 0 {
        (0, 0)
    } else {
        (w / g, h / g)
    }
}

/// The greatest common divisor is 0 only of 0 and 0.
pub proof fn lemma_gcd_zero(x: nat, y: nat)
    ensures
        gcd_spec(x, y) == 0 <==> (x == 0 && y == 0),
    decreases y,
{
    if y != 0 {
        lemma_gcd_zero(y, x % y);
    }
}

/// The greatest common divisor divides both numbers.
pub proof fn lemma_gcd_divides(x: nat, y: nat)
    ensures
        divides(gcd_spec(x, y), x),
        divides(gcd_spec(x, y), y),
    decreases y,
{
    let g = gcd_spec(x, y);
    if y == 0 {
        assert(x == product(g, 1));
        assert(y == product(g, 0));
    } else {
        lemma_gcd_divides(y, x % y);
        let ky = choose|k: nat| y == #[trigger] product(g, k);
        let kr = choose|k: nat| x % y == #[trigger] product(g, k);
        let q = x / y;
        vstd::arithmetic::div_mod::lemma_fundamental_div_mod(x as int, y as int);
        assert(x == g * (ky * q + kr)) by (nonlinear_arith)
            requires
                x == y * q + x % y,
                y == g * ky,
                x % y == g * kr,
        ;
        assert(x == product(g, ky * q + kr));
    }
}

/// Whatever divides both numbers divides their greatest common divisor.
pub proof fn lemma_gcd_greatest(x: nat, y: nat, d: nat)
    requires
        divides(d, x),
        divides(d, y),
    ensures
        divides(d, gcd_spec(x, y)),
    decreases y,
{
    if y != 0 {
        let kx = choose|k: nat| x == #[trigger] product(d, k);
        let ky = choose|k: nat| y == #[trigger] product(d, k);
        let q = x / y;
        vstd::arithmetic::div_mod::lemma_fundamental_div_mod(x as int, y as int);
        let k = kx - ky * q;
        let rem = x % y;
        assert(y * q == d * (ky * q)) by (nonlinear_arith)
            requires
                y == d * ky,
        ;
        assert(d * kx - d * (ky * q) == d * (kx - ky * q)) by (nonlinear_arith);
        assert(rem == d * k);
        assert(d > 0) by (nonlinear_arith)
            requires
                y == d * ky,
                y != 0,
        ;
        assert(k >= 0) by (nonlinear_arith)
            requires
                rem == d * k,
                rem >= 0,
                d > 0,
        ;
        assert(x % y == product(d, k as nat));
        lemma_gcd_greatest(y, x % y, d);
    }
}

/// The aspect ratio is in lowest terms and in proportion to the size: for a
/// size that is not 0 by 0, with `g` the greatest common divisor of `w` and
/// `h`, the ratio is `(w / g, h / g)`, its two numbers have no common divisor
/// but 1, and `ratio.0 * h == ratio.1 * w`. The ratio of 0 by 0 is `(0, 0)`.
pub proof fn lemma_ratio_law(w: nat, h: nat)
    ensures
        ratio_spec(0, 0) == (0nat, 0nat),
        w != 0 || h != 0 ==> {
            let g = gcd_spec(w, h);
            &&& g > 0
            &&& ratio_spec(w, h) == (w / g, h / g)
            &&& ratio_spec(w, h).0 * g == w
            &&& ratio_spec(w, h).1 * g == h
            &&& gcd_spec(ratio_spec(w, h).0, ratio_spec(w, h).1) == 1
            &&& ratio_spec(w, h).0 * h == ratio_spec(w, h).1 * w
        },
{
    if w != 0 || h != 0 {
        let g = gcd_spec(w, h);
        lemma_gcd_zero(w, h);
        lemma_gcd_divides(w, h);
        let kw = choose|k: nat| w == #[trigger] product(g, k);
        let kh = choose|k: nat| h == #[trigger] product(g, k);
        assert(w / g == kw) by (nonlinear_arith)
            requires
                w == g * kw,
                g > 0,
        ;
        assert(h / g == kh) by (nonlinear_arith)
            requires
                h == g * kh,
                g > 0,
        ;
        assert(kw * g == w && kh * g == h && kw * h == kh * w) by (nonlinear_arith)
            requires
                w == g * kw,
                h == g * kh,
        ;
        let r = gcd_spec(kw, kh);
        lemma_gcd_divides(kw, kh);
        let ja = choose|k: nat| kw == #[trigger] product(r, k);
        let jb = choose|k: nat| kh == #[trigger] product(r, k);
        assert(w == (g * r) * ja && h == (g * r) * jb) by (nonlinear_arith)
            requires
                w == g * kw,
                h == g * kh,
                kw == r * ja,
                kh == r * jb,
        ;
        assert(w == product(g * r, ja));
        assert(h == product(g * r, jb));
        lemma_gcd_greatest(w, h, g * r);
        let m = choose|k: nat| g == #[trigger] product(g * r, k);
        assert(r == 1) by (nonlinear_arith)
            requires
                g == (g * r) * m,
                g > 0,
        ;
    }
}

impl Dimensions {
    /// The aspect ratio in lowest terms: width and height divided by their
    /// greatest common divisor, `(0, 0)` for 0 by 0.
    pub fn ratio(&self) -> (ratio: (u32, u32))
        ensures
            (ratio.0 as nat, ratio.1 as nat) == ratio_spec(self.width as nat, self.height as nat),
    {
        let divisor = gcd(self.width, self.height);
        if divisor == 0 {
            (0, 0)
        } else {
            (self.width / divisor, self.height / divisor)
        }
    }
}

/// What the file system says of a file.
#[derive(Clone, Debug, PartialEq, Eq)]
pub struct FileMeta {
    /// The canonical path.
    pub path: String,
    /// The size in bytes.
    pub size: u32,
    pub created: Option<Timestamp>,
    pub modified: Option<Timestamp>,
    pub accessed: Option<Timestamp>,
}

/// What the catalog holds of an image.
#[derive(Clone, Debug, PartialEq, Eq)]
pub struct Meta {
    /// Whether the image has more than one frame.
    pub animation: bool,
    /// The perceptual hash as 16 hexadecimal digits, where it was computed.
    pub dhash: Option<String>,
    pub dimensions: Dimensions,
    pub file: FileMeta,
    /// The name of the format.
    pub format: &'static str,
}

/// What a look at the head of an image file tells.
#[derive(Clone, Copy, Debug, PartialEq, Eq)]
pub struct ImageProbe {
    pub format: ImageFormat,
    pub dimensions: Dimensions,
    /// Whether the file holds more than one frame.
    pub animation: bool,
}

impl ImageFormatExt for ImageProbe {
    open spec fn name(&self) -> Seq<char> {
        format_name(self.format)
    }

    fn to_str(&self) -> (name: &'static str) {
        self.format.to_str()
    }
}

/// What a [`Meta`] holds, as mathematical values.
pub struct MetaView {
    pub animation: bool,
    pub dhash: Option<Seq<char>>,
    pub width: u32,
    pub height: u32,
    pub path: Seq<char>,
    pub size: u32,
    pub created: Option<Timestamp>,
    pub modified: Option<Timestamp>,
    pub accessed: Option<Timestamp>,
    pub format: Seq<char>,
}

impl View for Meta {
    type V = MetaView;

    open spec fn view(&self) -> MetaView {
        MetaView {
            animation: self.animation,
            dhash: match self.dhash {
                Some(text) => Some(text@),
                None => None,
            },
            width: self.dimensions.width,
            height: self.dimensions.height,
            path: self.file.path@,
            size: self.file.size,
            created: self.file.created,
            modified: self.file.modified,
            accessed: self.file.accessed,
            format: self.format@,
        }
    }
}

/// The text of a perceptual hash: its 16 hexadecimal digits in lower case.
pub open spec fn dhash_text(hash: u64) -> Seq<char> {
    hex_fixed(hash as nat, 16)
}

/// A record is sound where its format is the name of a format and its hash,
/// if it has one, is the text of a hash.
pub open spec fn meta_wf(meta: MetaView) -> bool {
    &&& is_format_name(meta.format)
    &&& meta.dhash matches Some(text) ==> exists|hash: u64| #[trigger] dhash_text(hash) == text
}

/// How a record is written for a reader: path, size in pixels, format,
/// whether it is animated, and the hash where there is one.
pub open spec fn describe_spec(meta: MetaView) -> Seq<char> {
    meta.path + ": dim="@ + decimal(meta.width as nat) + "x"@ + decimal(meta.height as nat)
        + " format="@ + meta.format + " anim="@ + (if meta.animation {
        "true"@
    } else {
        "false"@
    }) + (match meta.dhash {
        Some(text) => " dhash="@ + text,
        None => Seq::empty(),
    })
}

/// `content` begins with the bytes `prefix`.
pub open spec fn starts_with(content: Seq<u8>, prefix: Seq<u8>) -> bool {
    prefix.len() <= content.len() && content.subrange(0, prefix.len() as int) == prefix
}

/// The format that the first bytes of a file announce, if they announce
/// one: each format has its signatures, and the content is held against
/// them.
pub open spec fn guessed_format(content: Seq<u8>) -> Option<ImageFormat> {
    if starts_with(content, seq![0x89u8, 0x50, 0x4e, 0x47, 0x0d, 0x0a, 0x1a, 0x0a]) {
        // 0x89 "PNG" CR LF 0x1a LF
        Some(ImageFormat::Png)
    } else if starts_with(content, seq![0xffu8, 0xd8, 0xff]) {
        Some(ImageFormat::Jpeg)
    } else if starts_with(content, seq![0x47u8, 0x49, 0x46, 0x38, 0x39, 0x61]) || starts_with(
        content,
        seq![0x47u8, 0x49, 0x46, 0x38, 0x37, 0x61],
    ) {
        // "GIF89a", "GIF87a"
        Some(ImageFormat::Gif)
    } else if starts_with(content, seq![0x52u8, 0x49, 0x46, 0x46]) {
        // "RIFF"
        Some(ImageFormat::Webp)
    } else if starts_with(content, seq![0x4du8, 0x4d, 0x2e, 0x2a]) || starts_with(
        content,
        seq![0x49u8, 0x49, 0x2a, 0x2e],
    ) {
        // "MM.*", "II*."
        Some(ImageFormat::Tiff)
    } else if starts_with(content, seq![0x42u8, 0x4d]) {
        // "BM"
        Some(ImageFormat::Bmp)
    } else if starts_with(content, seq![0u8, 0, 1, 0]) {
        Some(ImageFormat::Ico)
    } else if starts_with(
        content,
        seq![0x23u8, 0x3f, 0x52, 0x41, 0x44, 0x49, 0x41, 0x4e, 0x43, 0x45],
    ) {
        // "#?RADIANCE"
        Some(ImageFormat::Hdr)
    } else if content.len() >= 2 && content[0] == 0x50 && 0x31 <= content[1] <= 0x37 {
        // "P1" to "P7"
        Some(ImageFormat::Pnm)
    } else {
        None
    }
}

/// `image::guess_format`: the format whose signature the content begins
/// with, by image's table of signatures; an error where it begins with
/// none of them.
#[verifier::external_body]
fn guess_format(content: &[u8]) -> (format: Option<ImageFormat>)
    ensures
        format == guessed_format(content@),
{
    match image::guess_format(content) {
        Ok(image::ImageFormat::PNG) => Some(ImageFormat::Png),
        Ok(image::ImageFormat::JPEG) => Some(ImageFormat::Jpeg),
        Ok(image::ImageFormat::GIF) => Some(ImageFormat::Gif),
        Ok(image::ImageFormat::WEBP) => Some(ImageFormat::Webp),
        Ok(image::ImageFormat::PNM) => Some(ImageFormat::Pnm),
        Ok(image::ImageFormat::TIFF) => Some(ImageFormat::Tiff),
        Ok(image::ImageFormat::TGA) => Some(ImageFormat::Tga),
        Ok(image::ImageFormat::BMP) => Some(ImageFormat::Bmp),
        Ok(image::ImageFormat::ICO) => Some(ImageFormat::Ico),
        Ok(image::ImageFormat::HDR) => Some(ImageFormat::Hdr),
        Err(_) => None,
    }
}

/// The message of the error for content of no known format.
pub open spec fn unsupported_message() -> Seq<char> {
    "Unsupported image format"@
}

/// The format of the image in `content`, told by its first bytes. Content of
/// no known format is refused with `ImageLoading`.
pub fn detect_format(content: &[u8]) -> (result: AppResult<ImageFormat>)
    ensures
        match guessed_format(content@) {
            Some(format) => result == Ok::<ImageFormat, AppError>(format),
            None => result matches Err(AppError::ImageLoading(message)) && message@
                == unsupported_message(),
        },
{
    format_or_error(guess_format(content))
}

/// The guessed format, or the error for a missing one.
pub fn format_or_error(guess: Option<ImageFormat>) -> (result: AppResult<ImageFormat>)
    ensures
        match guess {
            Some(format) => result == Ok::<ImageFormat, AppError>(format),
            None => result matches Err(AppError::ImageLoading(message)) && message@
                == unsupported_message(),
        },
{
    match guess {
        Some(format) => Ok(format),
        None => Err(AppError::ImageLoading("Unsupported image format".to_owned())),
    }
}

/// The text of a perceptual hash.
pub fn format_dhash(hash: u64) -> (text: String)
    ensures
        text@ == dhash_text(hash),
{
    let mut text = String::new();
    push_hex(&mut text, hash, 16);
    text
}

impl Meta {
    /// The record of a file whose head was probed and whose content was not
    /// decoded: format, size and animation are the probe's; there is no hash.
    pub fn without_hashing(probe: &ImageProbe, file: FileMeta) -> (meta: Meta)
        ensures
            meta.animation == probe.animation,
            meta.dhash is None,
            meta.dimensions == probe.dimensions,
            meta.file == file,
            meta.format@ == format_name(probe.format),
            meta_wf(meta@),
    {
        Meta {
            animation: probe.animation,
            dhash: None,
            dimensions: Dimensions {
                height: probe.dimensions.height,
                width: probe.dimensions.width,
            },
            file,
            format: probe.to_str(),
        }
    }

    /// The record of a file whose content was decoded: the size and the
    /// format are the decoder's, whatever the probe said; the hash is written
    /// as text; whether it is animated is the probe's word.
    pub fn with_hashing(
        probe: &ImageProbe,
        format: ImageFormat,
        width: u32,
        height: u32,
        hash: u64,
        file: FileMeta,
    ) -> (meta: Meta)
        ensures
            meta.animation == probe.animation,
            meta.dhash matches Some(text) && text@ == dhash_text(hash),
            meta.dimensions.width == width,
            meta.dimensions.height == height,
            meta.file == file,
            meta.format@ == format_name(format),
            meta_wf(meta@),
    {
        Meta {
            animation: probe.animation,
            dhash: Some(format_dhash(hash)),
            dimensions: Dimensions { height, width },
            file,
            format: format.to_str(),
        }
    }

    /// The record in words, for a log.
    pub fn describe(&self) -> (text: String)
        ensures
            text@ == describe_spec(self@),
    {
        let mut text = String::new();
        text.append(self.file.path.as_str());
        text.append(": dim=");
        push_decimal(&mut text, self.dimensions.width as u64);
        text.append("x");
        push_decimal(&mut text, self.dimensions.height as u64);
        text.append(" format=");
        text.append(self.format);
        text.append(" anim=");
        if self.animation {
            text.append("true");
        } else {
            text.append("false");
        }
        match &self.dhash {
            Some(hash) => {
                text.append(" dhash=");
                text.append(hash.as_str());
            },
            None => {},
        }
        assert(text@ =~= describe_spec(self@));
        text
    }
}

} // verus!
