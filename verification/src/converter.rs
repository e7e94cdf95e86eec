//! One image conversion: resolved output path, resize, and dispatch by
//! target format.
//!
//! The converter owns the decoded image, the resolved output path and the
//! validated parameters. Converting resizes when the computed dimensions
//! differ from the source and encodes by the target format; an extension
//! outside the dispatch set is reported as unsupported, never a process
//! abort. WebP encoding is not performed here: the caller receives the
//! resized image, the path and the quality as a plan, since that encoder
//! lives outside this library's reach.

use vstd::prelude::*;

use crate::extensions::{
    all_format_kinds, all_image_extensions, entries_of_kinds, render_table, table_text,
};
use crate::imaging::{
    clone_image, encoded_of, height_of, image_height, image_width, resize_lanczos, resized_of,
    width_of, write_image_bytes,
};
use crate::matcher::Matcher;
use crate::paths::{ends_with_dot_ext, format_file_name, in_existing, resolved, stripped_base};
use crate::scale::{clamp_dim, lemma_unit_scale, Scale};
use crate::text::str_eq;

verus! {

/// The formats the conversion dispatcher can target.
#[derive(Clone, Copy, PartialEq, Eq, Structural, Debug)]
pub enum TargetFormat {
    Webp,
    Png,
    Jpeg,
    Gif,
    Bmp,
    Ico,
    Tiff,
    Tga,
}

/// The dispatch table: which target format an extension selects, `None`
/// outside the supported set.
pub open spec fn spec_target_format(s: Seq<char>) -> Option<TargetFormat> {
    if s == "webp"@ {
        Some(TargetFormat::Webp)
    } else if s == "png"@ {
        Some(TargetFormat::Png)
    } else if s == "jpg"@ || s == "jpeg"@ {
        Some(TargetFormat::Jpeg)
    } else if s == "gif"@ {
        Some(TargetFormat::Gif)
    } else if s == "bmp"@ {
        Some(TargetFormat::Bmp)
    } else if s == "ico"@ {
        Some(TargetFormat::Ico)
    } else if s == "tiff"@ {
        Some(TargetFormat::Tiff)
    } else if s == "tga"@ {
        Some(TargetFormat::Tga)
    } else {
        None
    }
}

/// Looks an extension up in the dispatch table.
pub fn target_format_of(ext: &str) -> (r: Option<TargetFormat>)
    ensures
        r == spec_target_format(ext@),
{
    if str_eq(ext, "webp") {
        Some(TargetFormat::Webp)
    } else if str_eq(ext, "png") {
        Some(TargetFormat::Png)
    } else if str_eq(ext, "jpg") || str_eq(ext, "jpeg") {
        Some(TargetFormat::Jpeg)
    } else if str_eq(ext, "gif") {
        Some(TargetFormat::Gif)
    } else if str_eq(ext, "bmp") {
        Some(TargetFormat::Bmp)
    } else if str_eq(ext, "ico") {
        Some(TargetFormat::Ico)
    } else if str_eq(ext, "tiff") {
        Some(TargetFormat::Tiff)
    } else if str_eq(ext, "tga") {
        Some(TargetFormat::Tga)
    } else {
        None
    }
}

/// What one conversion produced.
pub enum ConversionOutput {
    /// Encoded bytes, ready to be written at the resolved path.
    Encoded { path: String, bytes: Vec<u8> },
    /// A plan for the WebP encoder: the resized image, the resolved path
    /// and the quality level.
    WebpPlan { path: String, image: image::DynamicImage, quality: u8 },
}

/// The resolved path an output is destined for.
pub open spec fn output_path_of(out: ConversionOutput) -> Seq<char> {
    match out {
        ConversionOutput::Encoded { path, .. } => path@,
        ConversionOutput::WebpPlan { path, .. } => path@,
    }
}

/// Why a conversion failed.
#[derive(Debug)]
pub enum ConvertError {
    /// The target extension is not in the dispatch set.
    UnsupportedFormat,
    /// The imaging library failed to encode; the message is its own.
    EncodeFailed(String),
}

/// One conversion: the decoded image, its dimensions, the resolved output
/// path and the validated parameters.
pub struct ImageConverter {
    pub img: image::DynamicImage,
    pub width: u32,
    pub height: u32,
    pub output_file_name: String,
    pub multiplier: Scale,
    pub quality: u8,
    pub extension: String,
}

impl ImageConverter {
    pub open spec fn wf(self) -> bool {
        &&& self.multiplier.wf()
        &&& self.quality <= 100
    }

    /// Builds one conversion from a decoded image, a conversion
    /// configuration and the list of existing paths. The output path is
    /// resolved here, once, and never recomputed.
    pub fn new(img: image::DynamicImage, matcher: &Matcher, existing: &Vec<String>) -> (r:
        ImageConverter)
        requires
            matcher.wf(),
            !matcher.show_list,
        ensures
            r.wf(),
            r.img == img,
            r.width == width_of(img),
            r.height == height_of(img),
            (matcher.quality matches Some(q) && r.quality == q),
            (matcher.multiplier matches Some(m) && r.multiplier == m),
            (matcher.extension matches Some(e) && r.extension@ == e@),
            (matcher.input_file_path matches Some(p) && {
                &&& resolved(stripped_base(p@), r.extension@, existing@, r.output_file_name@)
                &&& !in_existing(existing@, r.output_file_name@)
                &&& ends_with_dot_ext(r.output_file_name@, r.extension@)
            }),
    {
        let width = image_width(&img);
        let height = image_height(&img);
        let input: &String = match &matcher.input_file_path {
            Some(p) => p,
            None => vstd::pervasive::unreached(),
        };
        let ext: &String = match &matcher.extension {
            Some(e) => e,
            None => vstd::pervasive::unreached(),
        };
        let quality: u8 = match matcher.quality {
            Some(q) => q,
            None => vstd::pervasive::unreached(),
        };
        let multiplier: Scale = match &matcher.multiplier {
            Some(m) => *m,
            None => vstd::pervasive::unreached(),
        };
        let output_file_name = format_file_name(input, ext.as_str(), existing);
        let extension = ext.clone();
        ImageConverter { img, width, height, output_file_name, multiplier, quality, extension }
    }

    /// The image a conversion writes out: the source image itself when
    /// the computed dimensions equal the source dimensions (the no-op
    /// resize is skipped and the output is pixel-identical), the Lanczos
    /// resample toward the computed dimensions otherwise.
    pub open spec fn spec_resized(self) -> image::DynamicImage {
        let tw = clamp_dim(self.multiplier.spec_apply(self.width)) as u32;
        let th = clamp_dim(self.multiplier.spec_apply(self.height)) as u32;
        if tw == self.width && th == self.height {
            self.img
        } else {
            resized_of(self.img, tw, th)
        }
    }

    /// The output dimensions: each source dimension scaled by the
    /// multiplier, rounded to the nearest integer, saturating at
    /// `u32::MAX`.
    pub fn target_dimensions(&self) -> (r: (u32, u32))
        requires
            self.wf(),
        ensures
            r.0 as nat == clamp_dim(self.multiplier.spec_apply(self.width)),
            r.1 as nat == clamp_dim(self.multiplier.spec_apply(self.height)),
    {
        (self.multiplier.apply(self.width), self.multiplier.apply(self.height))
    }

    /// Performs the conversion: resolves the target format, resizes when
    /// the computed dimensions differ from the source, and encodes. The
    /// WebP target is returned as a plan for the caller's encoder. A
    /// supported non-WebP target succeeds exactly when the encoder does,
    /// with the encoded bytes of the resized image at the configured
    /// quality; an encoder failure propagates its message unchanged.
    pub fn convert(&self) -> (r: Result<ConversionOutput, ConvertError>)
        requires
            self.wf(),
        ensures
            (r matches Err(e) && e is UnsupportedFormat) <==> spec_target_format(
                self.extension@,
            ) is None,
            spec_target_format(self.extension@) == Some(TargetFormat::Webp) ==> (r matches Ok(out)
                && out matches ConversionOutput::WebpPlan { path, image, quality } && path@
                == self.output_file_name@ && image == self.spec_resized() && quality
                == self.quality),
            spec_target_format(self.extension@) matches Some(f) ==> f == TargetFormat::Webp
                || match r {
                Ok(out) => out matches ConversionOutput::Encoded { path, bytes } && path@
                    == self.output_file_name@ && encoded_of(self.spec_resized(), f, self.quality)
                    == Ok::<Seq<u8>, Seq<char>>(bytes@),
                Err(e) => e matches ConvertError::EncodeFailed(message) && encoded_of(
                    self.spec_resized(),
                    f,
                    self.quality,
                ) == Err::<Seq<u8>, Seq<char>>(message@),
            },
            r matches Ok(out) ==> output_path_of(out) == self.output_file_name@,
    {
        let fmt = target_format_of(self.extension.as_str());
        match fmt {
            None => Err(ConvertError::UnsupportedFormat),
            Some(f) => {
                let dims = self.target_dimensions();
                let resized = if dims.0 == self.width && dims.1 == self.height {
                    clone_image(&self.img)
                } else {
                    resize_lanczos(&self.img, dims.0, dims.1)
                };
                match f {
                    TargetFormat::Webp => Ok(
                        ConversionOutput::WebpPlan {
                            path: self.output_file_name.clone(),
                            image: resized,
                            quality: self.quality,
                        },
                    ),
                    _ => {
                        match write_image_bytes(&resized, &f, self.quality) {
                            Ok(bytes) => Ok(
                                ConversionOutput::Encoded {
                                    path: self.output_file_name.clone(),
                                    bytes,
                                },
                            ),
                            Err(msg) => Err(ConvertError::EncodeFailed(msg)),
                        }
                    },
                }
            },
        }
    }

    /// The rendered capability table.
    pub fn get_extensions_table() -> (r: String)
        ensures
            r@ == table_text(entries_of_kinds(all_format_kinds())),
    {
        let rows = all_image_extensions();
        render_table(&rows)
    }
}

/// A multiplier whose numerator and denominator agree — the parse of
/// `1.0` or `1` — leaves both computed dimensions unchanged.
pub proof fn lemma_unit_multiplier_keeps_dimensions(c: ImageConverter)
    requires
        c.wf(),
        c.multiplier.num == c.multiplier.den,
    ensures
        clamp_dim(c.multiplier.spec_apply(c.width)) == c.width as nat,
        clamp_dim(c.multiplier.spec_apply(c.height)) == c.height as nat,
{
    lemma_unit_scale(c.width, c.multiplier.num as nat, c.multiplier.den as nat);
    lemma_unit_scale(c.height, c.multiplier.num as nat, c.multiplier.den as nat);
}

} // verus!
