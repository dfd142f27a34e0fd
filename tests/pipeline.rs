use picturium::dimensions::ImageInfo;
use picturium::formats::OutputFormat;
use picturium::parameters::{Background, Quality, RawUrlParameters, Rotate, Thumbnail, UrlParameters};
use picturium::pipeline::{
    dynamic_quality, encode_options, needs_rasterize, pdf_page, plan_stages, source_kind,
    uses_srgb_color_profile, Action, Event, IccProbe, Phase, PipelineError, PipelineOutput, PipelineRun,
    SourceKind, Stage,
};
use picturium::cache::Freshness;
use picturium::service::{after_run, cache_hit, conversion_succeeded, route, NextStep, Route};

fn request(path: &str, w: Option<u16>, h: Option<u16>, rot: Option<&str>, bg: Option<&str>) -> UrlParameters {
    UrlParameters::new(
        path,
        RawUrlParameters {
            w,
            h,
            q: None,
            dpr: None,
            crop: None,
            thumb: None,
            original: None,
            rot: rot.map(|s| s.to_string()),
            bg: bg.map(|s| s.to_string()),
            f: None,
            token: None,
        },
    )
}

fn image(width: u32, height: u32) -> ImageInfo {
    ImageInfo { width, height, has_alpha: true, pages: 1 }
}

#[test]
fn source_kinds() {
    assert_eq!(source_kind("/a.pdf"), SourceKind::Pdf);
    assert_eq!(source_kind("/a.docx"), SourceKind::Document);
    assert_eq!(source_kind("/a.svg"), SourceKind::Svg);
    assert_eq!(source_kind("/a.mov"), SourceKind::Video);
    assert_eq!(source_kind("/a.jpg"), SourceKind::Raster);
}

#[test]
fn pdf_page_is_clamped() {
    assert_eq!(pdf_page(&Thumbnail { page: Some(2) }, 3), 1);
    assert_eq!(pdf_page(&Thumbnail { page: Some(9) }, 3), 2);
    assert_eq!(pdf_page(&Thumbnail { page: Some(0) }, 3), 0);
    assert_eq!(pdf_page(&Thumbnail { page: None }, 0), 0);
}

#[test]
fn rasterize_only_when_larger() {
    let img = image(100, 100);
    assert!(needs_rasterize(&img, &request("/a.svg", Some(300), None, None, None)));
    assert!(!needs_rasterize(&img, &request("/a.svg", Some(50), None, None, None)));
}

#[test]
fn colour_profiles() {
    assert!(uses_srgb_color_profile(&IccProbe::NoProfile));
    assert!(!uses_srgb_color_profile(&IccProbe::Undecodable));
    assert!(!uses_srgb_color_profile(&IccProbe::NoDescription));
    assert!(uses_srgb_color_profile(&IccProbe::Description("sRGB IEC61966-2.1".to_string())));
    assert!(!uses_srgb_color_profile(&IccProbe::Description("Display P3".to_string())));
}

#[test]
fn stage_plan() {
    let req = request("/img/a.png", Some(100), Some(100), Some("90"), Some("#ff000080"));
    let plan = plan_stages(&req, &image(1000, 500), OutputFormat::Webp, true);
    assert_eq!(
        plan,
        vec![
            Stage::Resize { width: 100, height: 100 },
            Stage::Rotate(Rotate::Left),
            Stage::Background(Background(255, 0, 0, 128)),
            Stage::IccTransform,
            Stage::Encode(OutputFormat::Webp),
        ]
    );
    let plan = plan_stages(&req, &image(1000, 500), OutputFormat::Jpg, false);
    assert_eq!(plan.len(), 3);
    let plain = request("/img/a.jpg", None, None, None, Some("black"));
    assert_eq!(plan_stages(&plain, &image(10, 10), OutputFormat::Png, false), vec![Stage::Encode(OutputFormat::Png)]);
    let invisible = request("/img/a.png", None, None, None, Some("transparent"));
    assert_eq!(plan_stages(&invisible, &image(10, 10), OutputFormat::Png, false), vec![Stage::Encode(OutputFormat::Png)]);
}

#[test]
fn dynamic_quality_bounds() {
    assert_eq!(dynamic_quality(100, 100, 40, 75), 75);
    assert_eq!(dynamic_quality(4000, 2000, 40, 75), 40);
    assert_eq!(dynamic_quality(10000, 10000, 16, 78), 16);
    // 2 MPix: 6 / 7.75 * 35 + 40 = 67.09...
    assert_eq!(dynamic_quality(2000, 1000, 40, 75), 67);
    let o = encode_options(OutputFormat::Png, Quality::Default, 10, 10);
    assert_eq!((o.quality, o.dither_tenths, o.palette), (78, 8, true));
    let o = encode_options(OutputFormat::Png, Quality::Custom(95), 10, 10);
    assert_eq!((o.quality, o.dither_tenths), (95, 10));
    let o = encode_options(OutputFormat::Avif, Quality::Default, 100, 100);
    assert_eq!((o.quality, o.bitdepth, o.effort), (59, 8, 1));
}

#[test]
fn routes() {
    assert_eq!(route(false, true, false, true), Route::Forbidden);
    assert_eq!(route(true, false, false, true), Route::NotFound);
    assert_eq!(route(true, true, true, true), Route::Original);
    assert_eq!(route(true, true, true, false), Route::Original);
    assert_eq!(route(true, true, false, false), Route::Unsupported);
    assert_eq!(route(true, true, false, true), Route::Derivative);
}

#[test]
fn one_restart_at_most() {
    assert!(matches!(after_run(true, Ok(PipelineOutput::Image("/c/x.jpg".to_string()))), NextStep::Serve(p) if p == "/c/x.jpg"));
    assert!(matches!(after_run(true, Ok(PipelineOutput::OutputFormat(OutputFormat::Jpg))), NextStep::Retry(OutputFormat::Jpg)));
    assert!(matches!(after_run(false, Ok(PipelineOutput::OutputFormat(OutputFormat::Jpg))), NextStep::Fail(m) if m == "detected output format resolution recursion"));
    assert!(matches!(after_run(false, Err(PipelineError("boom".to_string()))), NextStep::Fail(m) if m == "boom"));
}

#[test]
fn run_steps_in_order() {
    let req = request("/img/a.png", Some(100), None, None, None);
    let mut run = PipelineRun::new(OutputFormat::Webp);
    assert!(matches!(run.step(&req, Event::Started), Action::Load(SourceKind::Raster)));
    assert!(matches!(run.step(&req, Event::Loaded(IccProbe::Description("Display P3".to_string()))), Action::Autorotate));
    assert!(run.needs_icc);
    assert!(matches!(run.step(&req, Event::Upright(image(1000, 500))), Action::Apply(Stage::Resize { width: 100, height: 50 })));
    assert!(matches!(run.step(&req, Event::StageDone), Action::Apply(Stage::IccTransform)));
    assert!(matches!(run.step(&req, Event::StageDone), Action::Apply(Stage::Encode(OutputFormat::Webp))));
    assert!(matches!(run.step(&req, Event::StageDone), Action::Finish));
    assert_eq!(run.phase, Phase::Done);
    assert!(matches!(run.step(&req, Event::StageDone), Action::Fail(_)));
}

#[test]
fn run_restarts_or_bypasses() {
    let req = request("/img/a.png", None, None, None, None);
    let mut run = PipelineRun::new(OutputFormat::Webp);
    run.step(&req, Event::Started);
    run.step(&req, Event::Loaded(IccProbe::NoProfile));
    assert!(matches!(run.step(&req, Event::Upright(image(16384, 100))), Action::Restart(OutputFormat::Png)));
    let mut run = PipelineRun::new(OutputFormat::Pdf);
    assert!(matches!(run.step(&request("/d/a.docx", None, None, None, None), Event::Started), Action::Bypass(SourceKind::Document)));
}

#[test]
fn cache_hits_and_conversions() {
    assert!(cache_hit(true, Freshness::Fresh));
    assert!(!cache_hit(false, Freshness::Fresh));
    assert!(!cache_hit(true, Freshness::Stale));
    assert!(!cache_hit(true, Freshness::Missing));
    assert!(conversion_succeeded(true, true));
    assert!(!conversion_succeeded(true, false));
    assert!(!conversion_succeeded(false, true));
}

#[test]
fn too_large_named_format_fails_the_run() {
    let mut r = RawUrlParameters {
        w: None,
        h: None,
        q: None,
        dpr: None,
        crop: None,
        thumb: None,
        original: None,
        rot: None,
        bg: None,
        f: None,
        token: None,
    };
    r.f = Some("webp".to_string());
    let req = UrlParameters::new("/img/a.png", r);
    let mut run = PipelineRun::new(OutputFormat::Webp);
    run.step(&req, Event::Started);
    run.step(&req, Event::Loaded(IccProbe::NoProfile));
    assert!(matches!(run.step(&req, Event::Upright(image(20000, 100))), Action::Fail(e) if e.0 == "Failed to save image: too large"));
}
