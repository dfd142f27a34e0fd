use picturium::cache::{bust_cache, get_path_from_url_parameters, index, FileTimes, IndexEntry};
use picturium::crypto::{json_hash, string_hash};
use picturium::dimensions::{get_output_dimensions, ImageInfo};
use picturium::formats::{determine_output_format, validate_output_format, OutputFormat};
use picturium::parameters::{RawUrlParameters, UrlParameters};
use picturium::pipeline::{pdf_page, plan_stages, Stage};
use picturium::service::{route, Route};

fn raw() -> RawUrlParameters {
    RawUrlParameters {
        w: None,
        h: None,
        q: None,
        dpr: None,
        crop: None,
        thumb: None,
        original: None,
        rot: None,
        bg: None,
        f: None,
        token: None,
    }
}

#[test]
fn scenario_square_crop_of_wide_jpeg() {
    let mut r = raw();
    r.w = Some(100);
    r.h = Some(100);
    let req = UrlParameters::new("/img/a.jpg", r);
    let img = ImageInfo { width: 1000, height: 500, has_alpha: false, pages: 1 };
    let out = determine_output_format(&req, Some("text/html"), false);
    assert_eq!(out, OutputFormat::Jpg);
    assert_eq!(get_output_dimensions(&img, &req), (100, 100));
    assert_eq!(plan_stages(&req, &img, out, false), vec![Stage::Resize { width: 100, height: 100 }, Stage::Encode(OutputFormat::Jpg)]);
    let path = get_path_from_url_parameters("/cache", "{\"w\":100}", &req, &out);
    let h = json_hash("{\"w\":100}");
    let stem = string_hash("/img/a.jpg");
    assert_eq!(path, format!("/cache/{}/{}/{}/{}.jpg", &h[0..2], &h[2..4], &h[4..6], stem));
    let record = index(&path, "/img/a.jpg");
    assert_eq!(record.path, format!("/cache/{}/{}/{}/{}.index", &h[0..2], &h[2..4], &h[4..6], stem));
    assert_eq!(record.content, "/img/a.jpg");
}

#[test]
fn scenario_second_pdf_page() {
    let mut r = raw();
    r.w = Some(300);
    r.thumb = Some("p:2".to_string());
    let req = UrlParameters::new("/doc.pdf", r);
    assert_eq!(pdf_page(&req.thumbnail, 3), 1);
    let page = ImageInfo { width: 600, height: 800, has_alpha: false, pages: 3 };
    assert_eq!(get_output_dimensions(&page, &req), (300, 400));
}

#[test]
fn scenario_huge_png_falls_back_to_jpeg() {
    let mut r = raw();
    r.w = Some(20000);
    r.h = Some(20000);
    r.f = Some("auto".to_string());
    let req = UrlParameters::new("/huge.png", r);
    let img = ImageInfo { width: 20000, height: 20000, has_alpha: false, pages: 1 };
    assert_eq!(validate_output_format(&img, &req, &OutputFormat::Png).unwrap(), OutputFormat::Jpg);
}

#[test]
fn scenario_missing_and_forbidden() {
    assert_eq!(route(true, false, false, true), Route::NotFound);
    // an existing text file, not asked for as the original, is refused with 400
    assert_eq!(route(true, true, false, false), Route::Unsupported);
    let mut r = raw();
    r.w = Some(10);
    r.token = Some("bad".to_string());
    let query = vec![("w".to_string(), "10".to_string()), ("token".to_string(), "bad".to_string())];
    let check = r.verify_token(Some("secret"), "/a.jpg", &query);
    assert_eq!(check, Err("Invalid token"));
    assert_eq!(route(check.is_ok(), true, false, true), Route::Forbidden);
}

#[test]
fn scenario_touched_source_is_busted() {
    let fresh = Some(FileTimes { mtime: 100, ctime: 100 });
    let entries = vec![
        IndexEntry { path: "/c/11/22/33/10.index".to_string(), source_times: Some(FileTimes { mtime: 500, ctime: 90 }), index_times: fresh },
        IndexEntry { path: "/c/44/55/66/20.index".to_string(), source_times: Some(FileTimes { mtime: 90, ctime: 90 }), index_times: fresh },
    ];
    let files: Vec<String> = ["/c/11/22/33/10.index", "/c/11/22/33/10.jpg", "/c/44/55/66/20.index", "/c/44/55/66/20.webp"]
        .iter()
        .map(|s| s.to_string())
        .collect();
    let removed = bust_cache(20 * 1048576, 10 * 1048576, &entries, &files);
    assert_eq!(removed, vec!["/c/11/22/33/10.index".to_string(), "/c/11/22/33/10.jpg".to_string()]);
}
