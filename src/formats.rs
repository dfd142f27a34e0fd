//! Which inputs are accepted, which output format is chosen, and the size
//! limits of each encoder.

use vstd::prelude::*;
use crate::dimensions::ImageInfo;
use crate::parameters::{Format, UrlParameters};
use crate::pipeline::PipelineError;
use crate::text::{
    chars_of, contains_chars, contains_seq, eq_str, find_last, lower_of, lowercase, slice_chars,
    string_of, last_index_of,
};

verus! {

/// The encoded formats that the pipeline writes.
#[derive(Copy, Clone, Debug, PartialEq, Eq, Structural)]
pub enum OutputFormat {
    Avif,
    Webp,
    Jpg,
    Png,
    Pdf,
}

/// The file extension of each output format.
pub open spec fn output_extension(f: OutputFormat) -> Seq<char> {
    match f {
        OutputFormat::Avif => "avif"@,
        OutputFormat::Webp => "webp"@,
        OutputFormat::Jpg => "jpg"@,
        OutputFormat::Png => "png"@,
        OutputFormat::Pdf => "pdf"@,
    }
}

impl OutputFormat {
    /// The file extension of the format.
    pub fn to_string(&self) -> (r: String)
        ensures
            r@ == output_extension(*self),
    {
        let s: &str = match self {
            OutputFormat::Avif => "avif",
            OutputFormat::Webp => "webp",
            OutputFormat::Jpg => "jpg",
            OutputFormat::Png => "png",
            OutputFormat::Pdf => "pdf",
        };
        s.to_owned()
    }
}

/// `p` without the `/` characters at its end.
pub open spec fn trim_end_slashes(p: Seq<char>) -> Seq<char>
    decreases p.len(),
{
    if p.len() > 0 && p.last() == '/' {
        trim_end_slashes(p.drop_last())
    } else {
        p
    }
}

/// The last component of a path: what follows its last `/`, trailing `/`
/// characters aside.
pub open spec fn file_name_of(p: Seq<char>) -> Seq<char> {
    let t = trim_end_slashes(p);
    t.subrange(last_index_of(t, '/') + 1, t.len() as int)
}

/// The extension of a path: what follows the last `.` of its file name,
/// where that `.` is not the name's first character; none for `..`.
pub open spec fn extension_of(p: Seq<char>) -> Option<Seq<char>> {
    let n = file_name_of(p);
    let d = last_index_of(n, '.');
    if n == seq!['.', '.'] || d <= 0 {
        None
    } else {
        Some(n.subrange(d + 1, n.len() as int))
    }
}

/// The lowercased extension of a path, or the empty text where it has none.
pub open spec fn extension_or_empty(p: Seq<char>) -> Seq<char> {
    match extension_of(p) {
        Some(e) => lower_of(e),
        None => Seq::empty(),
    }
}

/// Extensions of raster images.
pub open spec fn is_raster_extension(e: Seq<char>) -> bool {
    e == "jpg"@ || e == "jpeg"@ || e == "png"@ || e == "webp"@ || e == "gif"@ || e == "bmp"@
        || e == "tif"@ || e == "tiff"@ || e == "ico"@ || e == "svg"@ || e == "heic"@ || e == "heif"@
        || e == "jp2"@ || e == "jpm"@ || e == "jpx"@ || e == "jpf"@ || e == "avif"@ || e == "avifs"@
}

/// Extensions of office documents, which are converted to PDF first.
pub open spec fn is_document_extension(e: Seq<char>) -> bool {
    e == "doc"@ || e == "docx"@ || e == "odt"@ || e == "xls"@ || e == "xlsx"@ || e == "ods"@
        || e == "ppt"@ || e == "pptx"@ || e == "odp"@ || e == "rtf"@
}

/// Extensions of videos, from which a still frame is taken.
pub open spec fn is_video_extension(e: Seq<char>) -> bool {
    e == "mp4"@ || e == "mkv"@ || e == "webm"@ || e == "avi"@ || e == "mov"@ || e == "flv"@
        || e == "wmv"@ || e == "mpg"@ || e == "mpeg"@ || e == "3gp"@ || e == "ogv"@ || e == "m4v"@
}

/// Extensions that the pipeline accepts, videos only where frame extraction
/// is enabled.
pub open spec fn is_supported_extension(e: Seq<char>, video: bool) -> bool {
    is_raster_extension(e) || e == "pdf"@ || is_document_extension(e) || (video
        && is_video_extension(e))
}

/// Extensions rendered through a page thumbnail: PDF and documents.
pub open spec fn is_thumbnail_extension(e: Seq<char>) -> bool {
    e == "pdf"@ || is_document_extension(e)
}

/// `p` with its trailing `/` characters removed.
fn trim_slashes(p: &Vec<char>) -> (r: Vec<char>)
    ensures
        r@ == trim_end_slashes(p@),
{
    let mut n: usize = p.len();
    assert(p@.subrange(0, n as int) =~= p@);
    while n > 0 && p[n - 1] == '/'
        invariant
            n <= p.len(),
            trim_end_slashes(p@) == trim_end_slashes(p@.subrange(0, n as int)),
        decreases n,
    {
        assert(p@.subrange(0, n as int).drop_last() =~= p@.subrange(0, n - 1));
        n -= 1;
    }
    slice_chars(p, 0, n)
}

/// The extension of `path` as the characters that follow its last `.`.
pub fn extension_chars(path: &Vec<char>) -> (r: Option<Vec<char>>)
    ensures
        r is Some == extension_of(path@) is Some,
        r is Some ==> r->0@ == extension_of(path@)->0,
{
    let t = trim_slashes(path);
    proof { crate::text::lemma_last_index_bounds(t@, '/'); }
    let start: usize = match find_last(&t, '/') {
        Some(k) => k + 1,
        None => 0,
    };
    let name = slice_chars(&t, start, t.len());
    proof { crate::text::lemma_last_index_bounds(name@, '.'); }
    let dot = find_last(&name, '.');
    let two_dots = name.len() == 2 && name[0] == '.' && name[1] == '.';
    assert(two_dots == (name@ == seq!['.', '.'])) by {
        if name@ == seq!['.', '.'] {
            assert(name@[0] == '.' && name@[1] == '.');
        }
        if two_dots {
            assert(name@ =~= seq!['.', '.']);
        }
    }
    match dot {
        Some(d) => {
            if two_dots || d == 0 {
                None
            } else {
                Some(slice_chars(&name, d + 1, name.len()))
            }
        },
        None => None,
    }
}

/// The extension of `path`, lowercased; `Err` where the file name has none.
pub fn get_extension(path: &str) -> (r: Result<String, ()>)
    ensures
        r is Ok == extension_of(path@) is Some,
        r is Ok ==> r->Ok_0@ == lower_of(extension_of(path@)->0),
{
    let p = chars_of(path);
    match extension_chars(&p) {
        Some(e) => {
            let s = string_of(&e);
            Ok(lowercase(s.as_str()))
        },
        None => Err(()),
    }
}


/// The lowercased extension of `path`, or nothing where it has none.
pub(crate) fn lower_extension(path: &str) -> (r: Vec<char>)
    ensures
        r@ == extension_or_empty(path@),
{
    match get_extension(path) {
        Ok(e) => chars_of(e.as_str()),
        Err(_) => Vec::new(),
    }
}

fn raster_ext(e: &Vec<char>) -> (r: bool)
    ensures
        r == is_raster_extension(e@),
{
    eq_str(e, "jpg") || eq_str(e, "jpeg") || eq_str(e, "png") || eq_str(e, "webp") || eq_str(e, "gif")
        || eq_str(e, "bmp") || eq_str(e, "tif") || eq_str(e, "tiff") || eq_str(e, "ico") || eq_str(e, "svg")
        || eq_str(e, "heic") || eq_str(e, "heif") || eq_str(e, "jp2") || eq_str(e, "jpm") || eq_str(e, "jpx")
        || eq_str(e, "jpf") || eq_str(e, "avif") || eq_str(e, "avifs")
}

pub(crate) fn document_ext(e: &Vec<char>) -> (r: bool)
    ensures
        r == is_document_extension(e@),
{
    eq_str(e, "doc") || eq_str(e, "docx") || eq_str(e, "odt") || eq_str(e, "xls") || eq_str(e, "xlsx")
        || eq_str(e, "ods") || eq_str(e, "ppt") || eq_str(e, "pptx") || eq_str(e, "odp") || eq_str(e, "rtf")
}

pub(crate) fn video_ext(e: &Vec<char>) -> (r: bool)
    ensures
        r == is_video_extension(e@),
{
    eq_str(e, "mp4") || eq_str(e, "mkv") || eq_str(e, "webm") || eq_str(e, "avi") || eq_str(e, "mov")
        || eq_str(e, "flv") || eq_str(e, "wmv") || eq_str(e, "mpg") || eq_str(e, "mpeg") || eq_str(e, "3gp")
        || eq_str(e, "ogv") || eq_str(e, "m4v")
}

/// Whether the pipeline accepts a source with the (lowercased) extension
/// `extension`; videos only where `video` is set.
pub fn is_supported_input_extension(extension: &str, video: bool) -> (r: bool)
    ensures
        r == is_supported_extension(extension@, video),
{
    let e = chars_of(extension);
    raster_ext(&e) || eq_str(&e, "pdf") || document_ext(&e) || (video && video_ext(&e))
}

/// Whether the pipeline accepts `path` as a source; videos only where
/// frame extraction is enabled.
pub fn supported_input(path: &str, video: bool) -> (r: bool)
    ensures
        r == (extension_of(path@) is Some && is_supported_extension(extension_or_empty(path@), video)),
{
    match get_extension(path) {
        Ok(e) => is_supported_input_extension(e.as_str(), video),
        Err(_) => false,
    }
}

/// `Ok` where the pipeline accepts `path` as a source, videos aside.
pub fn check_supported_input_formats(path: &str) -> (r: Result<(), ()>)
    ensures
        r is Ok == (extension_of(path@) is Some && is_supported_extension(extension_or_empty(path@), false)),
{
    if supported_input(path, false) {
        Ok(())
    } else {
        Err(())
    }
}

/// Whether a source with the (lowercased) extension `extension` is rendered
/// through a page thumbnail.
pub fn thumbnail_extension(extension: &str) -> (r: bool)
    ensures
        r == is_thumbnail_extension(extension@),
{
    let e = chars_of(extension);
    eq_str(&e, "pdf") || document_ext(&e)
}

/// Whether `path` is rendered through a page thumbnail: a PDF or a document.
pub fn is_thumbnail_format(path: &str) -> (r: bool)
    ensures
        r == is_thumbnail_extension(extension_or_empty(path@)),
{
    let e = lower_extension(path);
    eq_str(&e, "pdf") || document_ext(&e)
}

/// Whether `path` is an SVG drawing.
pub fn is_svg(path: &str) -> (r: bool)
    ensures
        r == (extension_or_empty(path@) == "svg"@),
{
    let e = lower_extension(path);
    eq_str(&e, "svg")
}

/// Whether `path` is a document that is converted to PDF before rendering.
pub fn is_generated(path: &str) -> (r: bool)
    ensures
        r == is_document_extension(extension_or_empty(path@)),
{
    let e = lower_extension(path);
    document_ext(&e)
}

/// Whether `path` is a video, rendered through a still frame.
pub fn is_video(path: &str) -> (r: bool)
    ensures
        r == is_video_extension(extension_or_empty(path@)),
{
    let e = lower_extension(path);
    video_ext(&e)
}

/// Whether the source format of `path` can hold transparency: all but JPEG.
pub fn supports_transparency(path: &str) -> (r: bool)
    ensures
        r == !(extension_or_empty(path@) == "jpg"@ || extension_or_empty(path@) == "jpeg"@),
{
    let e = lower_extension(path);
    !(eq_str(&e, "jpg") || eq_str(&e, "jpeg"))
}

/// The output format for a request: the one it names, else AVIF where that
/// is enabled and the client accepts it, else WebP where the client accepts
/// it, else JPEG.
pub open spec fn output_format_spec(format: Format, accept: Option<Seq<char>>, avif_enabled: bool) -> OutputFormat {
    match format {
        Format::Jpg => OutputFormat::Jpg,
        Format::Png => OutputFormat::Png,
        Format::Webp => OutputFormat::Webp,
        Format::Avif => OutputFormat::Avif,
        Format::Pdf => OutputFormat::Pdf,
        Format::Auto => match accept {
            Some(a) => if avif_enabled && contains_seq(a, "image/avif"@) {
                OutputFormat::Avif
            } else if contains_seq(a, "image/webp"@) {
                OutputFormat::Webp
            } else {
                OutputFormat::Jpg
            },
            None => OutputFormat::Jpg,
        },
    }
}

/// Chooses the output format from the request, the client's `Accept` header
/// and whether AVIF output is enabled.
pub fn determine_output_format(url_parameters: &UrlParameters, accept: Option<&str>, avif_enabled: bool) -> (r: OutputFormat)
    ensures
        r == output_format_spec(url_parameters.format, match accept {
            Some(a) => Some(a@),
            None => None,
        }, avif_enabled),
{
    match url_parameters.format {
        Format::Jpg => OutputFormat::Jpg,
        Format::Png => OutputFormat::Png,
        Format::Webp => OutputFormat::Webp,
        Format::Avif => OutputFormat::Avif,
        Format::Pdf => OutputFormat::Pdf,
        Format::Auto => match accept {
            Some(a) => {
                let a = chars_of(a);
                if avif_enabled && contains_chars(&a, &chars_of("image/avif")) {
                    OutputFormat::Avif
                } else if contains_chars(&a, &chars_of("image/webp")) {
                    OutputFormat::Webp
                } else {
                    OutputFormat::Jpg
                }
            },
            None => OutputFormat::Jpg,
        },
    }
}

/// The largest WebP side.
pub const WEBP_MAX_SIDE: u64 = 16383;

/// The largest WebP area, in pixels.
pub const WEBP_MAX_PIXELS: u64 = 170000000;

/// The largest AVIF side.
pub const AVIF_MAX_SIDE: u64 = 16384;

/// The largest PNG side.
pub const PNG_MAX_SIDE: u64 = 16384;

/// Whether a `w` by `h` image is within what the encoder of `f` writes.
pub open spec fn within_ceiling(f: OutputFormat, w: nat, h: nat) -> bool {
    match f {
        OutputFormat::Webp => w <= WEBP_MAX_SIDE && h <= WEBP_MAX_SIDE && w * h <= WEBP_MAX_PIXELS,
        OutputFormat::Avif => w <= AVIF_MAX_SIDE && h <= AVIF_MAX_SIDE,
        OutputFormat::Png => w <= PNG_MAX_SIDE && h <= PNG_MAX_SIDE,
        _ => true,
    }
}

/// The format used instead of `f` for an image beyond its ceiling: PNG for a
/// WebP with transparency that PNG can hold, else JPEG.
pub open spec fn fallback_format(f: OutputFormat, w: nat, h: nat, alpha: bool) -> OutputFormat {
    if f == OutputFormat::Webp && alpha && within_ceiling(OutputFormat::Png, w, h) {
        OutputFormat::Png
    } else {
        OutputFormat::Jpg
    }
}

/// The message of the error for an image too large for the requested format.
pub open spec fn too_large_message() -> Seq<char> {
    "Failed to save image: too large"@
}

/// Holds `output_format` against the encoder's limits for `image`: within
/// them it stands; beyond them a format the request left open falls back to
/// PNG or JPEG, and a format the request named is an error.
pub fn validate_output_format(image: &ImageInfo, url_parameters: &UrlParameters, output_format: &OutputFormat) -> (r: Result<OutputFormat, PipelineError>)
    ensures
        within_ceiling(*output_format, image.width as nat, image.height as nat) ==> r == Ok::<OutputFormat, PipelineError>(*output_format),
        !within_ceiling(*output_format, image.width as nat, image.height as nat) ==> {
            &&& url_parameters.format == Format::Auto ==> r == Ok::<OutputFormat, PipelineError>(fallback_format(*output_format, image.width as nat, image.height as nat, image.has_alpha))
            &&& url_parameters.format != Format::Auto ==> r is Err && r->Err_0.0@ == too_large_message()
        },
        r is Ok ==> within_ceiling(r->Ok_0, image.width as nat, image.height as nat),
{
    let w = image.width as u64;
    let h = image.height as u64;
    assert(w * h <= u32::MAX * u32::MAX) by (nonlinear_arith)
        requires w <= u32::MAX, h <= u32::MAX;
    let within = match output_format {
        OutputFormat::Webp => w <= WEBP_MAX_SIDE && h <= WEBP_MAX_SIDE && w * h <= WEBP_MAX_PIXELS,
        OutputFormat::Avif => w <= AVIF_MAX_SIDE && h <= AVIF_MAX_SIDE,
        OutputFormat::Png => w <= PNG_MAX_SIDE && h <= PNG_MAX_SIDE,
        _ => true,
    };
    if within {
        return Ok(*output_format);
    }
    if url_parameters.format != Format::Auto {
        return Err(PipelineError("Failed to save image: too large".to_owned()));
    }
    if *output_format == OutputFormat::Webp && image.has_alpha && w <= PNG_MAX_SIDE && h <= PNG_MAX_SIDE {
        Ok(OutputFormat::Png)
    } else {
        Ok(OutputFormat::Jpg)
    }
}

} // verus!
