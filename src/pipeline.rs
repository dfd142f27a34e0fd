//! The decisions of the processing pipeline: which stages run, in what order,
//! on what values, and how a change of output format restarts the tail.

use vstd::prelude::*;
use crate::dimensions::{get_output_dimensions, get_rasterize_dimensions, output_spec, rasterize_spec, ImageInfo};
use crate::formats::{
    document_ext, extension_or_empty, is_document_extension, is_video_extension, lower_extension,
    supports_transparency, video_ext, OutputFormat,
};
use crate::formats::{fallback_format, too_large_message, validate_output_format, within_ceiling};
use crate::parameters::{Background, Format, Quality, Rotate, Thumbnail, UrlParameters};
use crate::text::{chars_of, contains_chars, contains_seq, eq_str, lower_of, lowercase};

verus! {

/// A stage failure, with a message for the log.
#[derive(Debug)]
pub struct PipelineError(pub String);

/// What a pipeline run hands back: the path of the finished file, or the
/// output format that the run must be repeated with.
#[derive(Debug)]
pub enum PipelineOutput {
    Image(String),
    OutputFormat(OutputFormat),
}


/// How a source is turned into an image.
#[derive(Copy, Clone, Debug, PartialEq, Eq, Structural)]
pub enum SourceKind {
    /// A raster image, loaded as it is.
    Raster,
    /// An SVG drawing, loaded and then rendered at the size needed.
    Svg,
    /// A PDF, rendered through a page thumbnail.
    Pdf,
    /// An office document, converted to PDF first.
    Document,
    /// A video, rendered through a still frame.
    Video,
}

/// How the source at `path` is turned into an image.
pub open spec fn source_kind_spec(path: Seq<char>) -> SourceKind {
    let e = extension_or_empty(path);
    if e == "pdf"@ {
        SourceKind::Pdf
    } else if is_document_extension(e) {
        SourceKind::Document
    } else if e == "svg"@ {
        SourceKind::Svg
    } else if is_video_extension(e) {
        SourceKind::Video
    } else {
        SourceKind::Raster
    }
}

/// How the source at `path` is turned into an image.
pub fn source_kind(path: &str) -> (r: SourceKind)
    ensures
        r == source_kind_spec(path@),
{
    let e = lower_extension(path);
    if eq_str(&e, "pdf") {
        SourceKind::Pdf
    } else if document_ext(&e) {
        SourceKind::Document
    } else if eq_str(&e, "svg") {
        SourceKind::Svg
    } else if video_ext(&e) {
        SourceKind::Video
    } else {
        SourceKind::Raster
    }
}

/// Whether a drawing loaded at the size of `image` must be rendered again,
/// larger, to serve the request.
pub fn needs_rasterize(image: &ImageInfo, url_parameters: &UrlParameters) -> (r: bool)
    requires
        image.wf(),
    ensures
        r == !(rasterize_spec(*image, url_parameters).0 <= image.width as nat
            && rasterize_spec(*image, url_parameters).1 <= image.height as nat),
{
    let (w, h) = get_rasterize_dimensions(image, url_parameters);
    !(w <= image.width && h <= image.height)
}

/// The zero-based page of a PDF of `pages` pages to render: the requested
/// page (the first by default), kept within the document.
pub fn pdf_page(thumbnail: &Thumbnail, pages: u32) -> (r: u32)
    ensures
        ({
            let want: int = match thumbnail.page {
                Some(p) => if p >= 1 { p - 1 } else { 0 },
                None => 0,
            };
            let last: int = if pages >= 1 { pages - 1 } else { 0 };
            r == if want < last { want } else { last }
        }),
{
    let want: u32 = match thumbnail.page {
        Some(p) => if p >= 1 { p - 1 } else { 0 },
        None => 0,
    };
    let last: u32 = if pages >= 1 { pages - 1 } else { 0 };
    if want < last {
        want
    } else {
        last
    }
}

/// What was learnt of an image's embedded colour profile.
#[derive(Debug, PartialEq, Eq)]
pub enum IccProbe {
    /// The image declares no profile, or its data cannot be read.
    NoProfile,
    /// The profile data does not decode.
    Undecodable,
    /// The profile has no description.
    NoDescription,
    /// The profile's description.
    Description(String),
}

/// Whether a lowercased profile description names sRGB.
pub fn is_srgb_description(lowered: &str) -> (r: bool)
    ensures
        r == contains_seq(lowered@, "srgb"@),
{
    contains_chars(&chars_of(lowered), &chars_of("srgb"))
}

/// Whether an image already uses an sRGB(-like) profile, so that no colour
/// transform is needed: images without a profile do; undecodable profiles
/// and profiles without description do not; otherwise the description
/// decides, whatever its case.
pub fn uses_srgb_color_profile(probe: &IccProbe) -> (r: bool)
    ensures
        r == match probe {
            IccProbe::NoProfile => true,
            IccProbe::Undecodable => false,
            IccProbe::NoDescription => false,
            IccProbe::Description(d) => contains_seq(lower_of(d@), "srgb"@),
        },
{
    match probe {
        IccProbe::NoProfile => true,
        IccProbe::Undecodable => false,
        IccProbe::NoDescription => false,
        IccProbe::Description(d) => {
            let l = lowercase(d.as_str());
            is_srgb_description(l.as_str())
        },
    }
}

/// One stage of the pipeline after the output format is settled.
#[derive(Copy, Clone, Debug, PartialEq, Eq, Structural)]
pub enum Stage {
    /// Shrink (never enlarge) to fit, cropping from the centre.
    Resize { width: u32, height: u32 },
    /// Rotate clockwise.
    Rotate(Rotate),
    /// Lay the image over a background colour.
    Background(Background),
    /// Transform the colours to sRGB.
    IccTransform,
    /// Encode to the output format.
    Encode(OutputFormat),
}

/// The stages that follow the settling of the output format, in order:
/// resize where a size was requested, rotate where a rotation was, lay over
/// a visible background where the source can hold transparency and the
/// output is not JPEG, transform the colours where needed, and encode.
pub open spec fn stages_spec(req: &UrlParameters, image: ImageInfo, output: OutputFormat, needs_icc: bool) -> Seq<Stage> {
    let (w, h) = output_spec(image, req);
    let e = extension_or_empty(req.path@);
    let resize = if req.width is Some || req.height is Some {
        seq![Stage::Resize { width: w as u32, height: h as u32 }]
    } else {
        Seq::empty()
    };
    let rotate = if req.rotate != Rotate::No { seq![Stage::Rotate(req.rotate)] } else { Seq::empty() };
    let background = match req.background {
        Some(b) => if !(e == "jpg"@ || e == "jpeg"@) && output != OutputFormat::Jpg && b.3 > 0 {
            seq![Stage::Background(b)]
        } else {
            Seq::empty()
        },
        None => Seq::empty(),
    };
    let icc = if needs_icc { seq![Stage::IccTransform] } else { Seq::empty() };
    resize + rotate + background + icc + seq![Stage::Encode(output)]
}

/// The stages to run on `image` (already turned upright) to produce the
/// derivative in `output`.
pub fn plan_stages(url_parameters: &UrlParameters, image: &ImageInfo, output: OutputFormat, needs_icc: bool) -> (r: Vec<Stage>)
    requires
        image.wf(),
    ensures
        r@ == stages_spec(url_parameters, *image, output, needs_icc),
{
    let mut v: Vec<Stage> = Vec::new();
    if url_parameters.width.is_some() || url_parameters.height.is_some() {
        let (w, h) = get_output_dimensions(image, url_parameters);
        v.push(Stage::Resize { width: w, height: h });
    }
    if url_parameters.rotate != Rotate::No {
        v.push(Stage::Rotate(url_parameters.rotate));
    }
    match url_parameters.background {
        Some(b) => if supports_transparency(url_parameters.path.as_str()) && output != OutputFormat::Jpg
            && !b.is_invisible() {
            v.push(Stage::Background(b));
        },
        None => {},
    }
    if needs_icc {
        v.push(Stage::IccTransform);
    }
    v.push(Stage::Encode(output));
    assert(v@ =~= stages_spec(url_parameters, *image, output, needs_icc));
    v
}

/// The encoder settings for one output.
#[derive(Copy, Clone, Debug, PartialEq, Eq, Structural)]
pub struct EncodeOptions {
    pub format: OutputFormat,
    pub quality: i32,
    /// PNG dithering, in tenths.
    pub dither_tenths: u8,
    pub palette: bool,
    pub optimize_coding: bool,
    pub smart_subsample: bool,
    pub alpha_quality: i32,
    pub bitdepth: i32,
    pub effort: i32,
}

/// The quality for an image of `area` pixels between `lo` and `hi`: `hi` up
/// to a quarter of a megapixel, `lo` from eight megapixels, falling evenly
/// in between (rounded down).
pub open spec fn dynamic_quality_spec(area: nat, lo: nat, hi: nat) -> nat {
    let t: nat = if area >= 8000000 {
        0
    } else if 8000000 - area > 7750000 {
        7750000
    } else {
        (8000000 - area) as nat
    };
    lo + t * ((hi - lo) as nat) / 7750000
}

/// The quality for an image of `width` by `height` pixels between `lo` and
/// `hi`.
pub fn dynamic_quality(width: u32, height: u32, lo: u8, hi: u8) -> (r: i32)
    requires
        lo <= hi,
    ensures
        r == dynamic_quality_spec(width as nat * height as nat, lo as nat, hi as nat),
        lo <= r <= hi,
{
    assert(width as u64 * height as u64 <= u32::MAX * u32::MAX) by (nonlinear_arith)
        requires width <= u32::MAX, height <= u32::MAX;
    let area: u64 = width as u64 * height as u64;
    let t: u64 = if area >= 8000000 {
        0
    } else if 8000000 - area > 7750000 {
        7750000
    } else {
        8000000 - area
    };
    let span: u64 = (hi - lo) as u64;
    assert(t * span <= 7750000 * span) by (nonlinear_arith) requires t <= 7750000;
    assert(t * span / 7750000 <= span) by (nonlinear_arith) requires t <= 7750000, span <= 255;
    (lo as u64 + t * span / 7750000) as i32
}

/// The quality to encode with: the requested one, else the format's own.
pub open spec fn quality_spec(format: OutputFormat, quality: Quality, width: nat, height: nat) -> int {
    match quality {
        Quality::Custom(q) => q as int,
        Quality::Default => match format {
            OutputFormat::Avif => dynamic_quality_spec(width * height, 40, 59) as int,
            OutputFormat::Webp => dynamic_quality_spec(width * height, 16, 78) as int,
            OutputFormat::Png => 78,
            _ => dynamic_quality_spec(width * height, 40, 75) as int,
        },
    }
}

/// The encoder settings for an image of `width` by `height` pixels in
/// `format`: the quality as `quality_spec` says; PNG with a palette and
/// dithering 0.8 below quality 90, 1.0 from there; JPEG with optimised
/// coding; WebP with smart subsampling and alpha quality 50; AVIF at 8 bits
/// and effort 1. No format keeps metadata.
pub fn encode_options(format: OutputFormat, quality: Quality, width: u32, height: u32) -> (r: EncodeOptions)
    ensures
        r.format == format,
        r.quality == quality_spec(format, quality, width as nat, height as nat),
        r.dither_tenths == (if r.quality < 90 { 8u8 } else { 10u8 }),
        r.palette == (format == OutputFormat::Png),
        r.optimize_coding == (format == OutputFormat::Jpg || format == OutputFormat::Pdf),
        r.smart_subsample == (format == OutputFormat::Webp),
        r.alpha_quality == 50,
        r.bitdepth == 8,
        r.effort == 1,
{
    let q: i32 = match quality {
        Quality::Custom(q) => q as i32,
        Quality::Default => match format {
            OutputFormat::Avif => dynamic_quality(width, height, 40, 59),
            OutputFormat::Webp => dynamic_quality(width, height, 16, 78),
            OutputFormat::Png => 78,
            _ => dynamic_quality(width, height, 40, 75),
        },
    };
    EncodeOptions {
        format,
        quality: q,
        dither_tenths: if q < 90 { 8 } else { 10 },
        palette: format == OutputFormat::Png,
        optimize_coding: format == OutputFormat::Jpg || format == OutputFormat::Pdf,
        smart_subsample: format == OutputFormat::Webp,
        alpha_quality: 50,
        bitdepth: 8,
        effort: 1,
    }
}


/// Where a pipeline run stands.
#[derive(Copy, Clone, Debug, PartialEq, Eq, Structural)]
pub enum Phase {
    /// Nothing done yet.
    Start,
    /// The source is being turned into an image.
    Loading,
    /// The image is being turned upright.
    Rotating,
    /// The stages are running; the next one to hand out is at this index.
    Staging(usize),
    /// The run is over.
    Done,
}

/// What the run reports back after an action.
#[derive(Debug)]
pub enum Event {
    /// The run begins.
    Started,
    /// The source is loaded; what its colour profile is.
    Loaded(IccProbe),
    /// The image is upright; what it now measures.
    Upright(ImageInfo),
    /// The stage handed out last is done.
    StageDone,
}

/// What the run does next.
#[derive(Debug)]
pub enum Action {
    /// PDF output: hand back the source's PDF without touching it.
    Bypass(SourceKind),
    /// Turn the source into an image.
    Load(SourceKind),
    /// Turn the image upright by its recorded orientation.
    Autorotate,
    /// Run one stage.
    Apply(Stage),
    /// The derivative is written.
    Finish,
    /// The output format must change; the run is to be repeated with it.
    Restart(OutputFormat),
    /// The run failed.
    Fail(PipelineError),
}

/// One pipeline run for a request, in the order load, colour probe,
/// autorotate, output-format check, then the planned stages.
pub struct PipelineRun {
    pub output: OutputFormat,
    pub phase: Phase,
    pub needs_icc: bool,
    pub stages: Vec<Stage>,
}

/// The message for an event that does not fit the phase.
pub open spec fn out_of_order_message() -> Seq<char> {
    "pipeline event out of order"@
}

impl PipelineRun {
    /// A run that is to produce `output`.
    pub fn new(output: OutputFormat) -> (r: PipelineRun)
        ensures
            r.output == output,
            r.phase == Phase::Start,
            !r.needs_icc,
            r.stages@.len() == 0,
    {
        PipelineRun { output, phase: Phase::Start, needs_icc: false, stages: Vec::new() }
    }

    /// Takes the run one step on: from the event that the last action led
    /// to, to the next action.
    pub fn step(&mut self, url_parameters: &UrlParameters, event: Event) -> (r: Action)
        ensures
            final(self).output == old(self).output,
            match (old(self).phase, event) {
                (Phase::Start, Event::Started) => {
                    let kind = source_kind_spec(url_parameters.path@);
                    if old(self).output == OutputFormat::Pdf {
                        r is Bypass && r->Bypass_0 == kind && final(self).phase == Phase::Done
                    } else {
                        r is Load && r->Load_0 == kind && final(self).phase == Phase::Loading
                    }
                },
                (Phase::Loading, Event::Loaded(probe)) => {
                    &&& r is Autorotate
                    &&& final(self).phase == Phase::Rotating
                    &&& final(self).needs_icc == !match probe {
                        IccProbe::NoProfile => true,
                        IccProbe::Undecodable => false,
                        IccProbe::NoDescription => false,
                        IccProbe::Description(d) => contains_seq(lower_of(d@), "srgb"@),
                    }
                },
                (Phase::Rotating, Event::Upright(image)) => {
                    let (w, h) = (image.width as nat, image.height as nat);
                    let out = old(self).output;
                    if !image.wf() {
                        r is Fail && r->Fail_0.0@ == "Image has no pixels"@ && final(self).phase == Phase::Done
                    } else if within_ceiling(out, w, h) {
                        let plan = stages_spec(url_parameters, image, out, old(self).needs_icc);
                        &&& final(self).stages@ == plan
                        &&& r is Apply && r->Apply_0 == plan[0]
                        &&& final(self).phase == Phase::Staging(1)
                    } else if url_parameters.format == Format::Auto {
                        r is Restart && r->Restart_0 == fallback_format(out, w, h, image.has_alpha)
                            && final(self).phase == Phase::Done
                    } else {
                        r is Fail && r->Fail_0.0@ == too_large_message() && final(self).phase == Phase::Done
                    }
                },
                (Phase::Staging(i), Event::StageDone) => {
                    &&& final(self).stages@ == old(self).stages@
                    &&& if i < old(self).stages@.len() {
                        r is Apply && r->Apply_0 == old(self).stages@[i as int] && final(self).phase == Phase::Staging((i + 1) as usize)
                    } else {
                        r is Finish && final(self).phase == Phase::Done
                    }
                },
                _ => r is Fail && r->Fail_0.0@ == out_of_order_message() && final(self).phase == Phase::Done,
            },
    {
        match (self.phase, event) {
            (Phase::Start, Event::Started) => {
                let kind = source_kind(url_parameters.path.as_str());
                if self.output == OutputFormat::Pdf {
                    self.phase = Phase::Done;
                    Action::Bypass(kind)
                } else {
                    self.phase = Phase::Loading;
                    Action::Load(kind)
                }
            },
            (Phase::Loading, Event::Loaded(probe)) => {
                self.needs_icc = !uses_srgb_color_profile(&probe);
                self.phase = Phase::Rotating;
                Action::Autorotate
            },
            (Phase::Rotating, Event::Upright(image)) => {
                self.phase = Phase::Done;
                if image.width == 0 || image.height == 0 {
                    return Action::Fail(PipelineError("Image has no pixels".to_owned()));
                }
                match validate_output_format(&image, url_parameters, &self.output) {
                    Ok(f) => if f == self.output {
                        let plan = plan_stages(url_parameters, &image, self.output, self.needs_icc);
                        let first = plan[0];
                        self.stages = plan;
                        self.phase = Phase::Staging(1);
                        Action::Apply(first)
                    } else {
                        Action::Restart(f)
                    },
                    Err(e) => Action::Fail(e),
                }
            },
            (Phase::Staging(i), Event::StageDone) => {
                if i < self.stages.len() {
                    self.phase = Phase::Staging(i + 1);
                    Action::Apply(self.stages[i])
                } else {
                    self.phase = Phase::Done;
                    Action::Finish
                }
            },
            _ => {
                self.phase = Phase::Done;
                Action::Fail(PipelineError("pipeline event out of order".to_owned()))
            },
        }
    }
}

} // verus!
