//! The image formats that the catalog knows, and their names.

use vstd::prelude::*;
use crate::text::text_eq;

verus! {

/// A format of image files.
#[derive(Clone, Copy, Debug, PartialEq, Eq)]
pub enum ImageFormat {
    Bmp,
    Gif,
    Hdr,
    Ico,
    Jpeg,
    Png,
    Pnm,
    Tga,
    Tiff,
    Webp,
}

/// The name under which the catalog stores a format.
pub open spec fn format_name(format: ImageFormat) -> Seq<char> {
    match format {
        ImageFormat::Bmp => "bmp"@,
        ImageFormat::Gif => "gif"@,
        ImageFormat::Hdr => "hdr"@,
        ImageFormat::Ico => "ico"@,
        ImageFormat::Jpeg => "jpeg"@,
        ImageFormat::Png => "png"@,
        ImageFormat::Pnm => "pnm"@,
        ImageFormat::Tga => "tga"@,
        ImageFormat::Tiff => "tiff"@,
        ImageFormat::Webp => "webp"@,
    }
}

/// Whether `name` is the name of a format.
pub open spec fn is_format_name(name: Seq<char>) -> bool {
    exists|format: ImageFormat| #[trigger] format_name(format) == name
}

/// Things that have the name of an image format.
pub trait ImageFormatExt {
    /// The name, as a mathematical value.
    spec fn name(&self) -> Seq<char>;

    /// The name under which the catalog stores the format.
    fn to_str(&self) -> (name: &'static str)
        ensures
            name@ == self.name(),
            is_format_name(name@),
    ;
}

impl ImageFormatExt for ImageFormat {
    open spec fn name(&self) -> Seq<char> {
        format_name(*self)
    }

    fn to_str(&self) -> (name: &'static str) {
        let name = match self {
            ImageFormat::Bmp => "bmp",
            ImageFormat::Gif => "gif",
            ImageFormat::Hdr => "hdr",
            ImageFormat::Ico => "ico",
            ImageFormat::Jpeg => "jpeg",
            ImageFormat::Png => "png",
            ImageFormat::Pnm => "pnm",
            ImageFormat::Tga => "tga",
            ImageFormat::Tiff => "tiff",
            ImageFormat::Webp => "webp",
        };
        assert(format_name(*self) == name@);
        name
    }
}

/// The format named `name`; `None` where no format has that name.
pub fn from_str(name: &str) -> (format: Option<ImageFormat>)
    ensures
        match format {
            Some(f) => format_name(f) == name@,
            None => !is_format_name(name@),
        },
{
    if text_eq(name, "bmp") {
        Some(ImageFormat::Bmp)
    } else if text_eq(name, "gif") {
        Some(ImageFormat::Gif)
    } else if text_eq(name, "hdr") {
        Some(ImageFormat::Hdr)
    } else if text_eq(name, "ico") {
        Some(ImageFormat::Ico)
    } else if text_eq(name, "jpeg") {
        Some(ImageFormat::Jpeg)
    } else if text_eq(name, "png") {
        Some(ImageFormat::Png)
    } else if text_eq(name, "pnm") {
        Some(ImageFormat::Pnm)
    } else if text_eq(name, "tga") {
        Some(ImageFormat::Tga)
    } else if text_eq(name, "tiff") {
        Some(ImageFormat::Tiff)
    } else if text_eq(name, "webp") {
        Some(ImageFormat::Webp)
    } else {
        assert forall|f: ImageFormat| #[trigger] format_name(f) != name@ by {}
        None
    }
}

} // verus!
