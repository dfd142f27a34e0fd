use picturium::dimensions::{get_output_dimensions, get_rasterize_dimensions, get_requested_dimensions, ImageInfo};
use picturium::parameters::{RawUrlParameters, UrlParameters};

fn request(w: Option<u16>, h: Option<u16>, rot: Option<&str>) -> UrlParameters {
    UrlParameters::new(
        "/img/a.jpg",
        RawUrlParameters {
            w,
            h,
            q: None,
            dpr: None,
            crop: None,
            thumb: None,
            original: None,
            rot: rot.map(|s| s.to_string()),
            bg: None,
            f: None,
            token: None,
        },
    )
}

fn image(width: u32, height: u32) -> ImageInfo {
    ImageInfo { width, height, has_alpha: false, pages: 1 }
}

#[test]
fn requested_fills_missing_side() {
    let img = image(1000, 500);
    assert_eq!(get_requested_dimensions(&img, &request(Some(100), Some(100), None)), (100, 100));
    assert_eq!(get_requested_dimensions(&img, &request(Some(100), None, None)), (100, 50));
    assert_eq!(get_requested_dimensions(&img, &request(None, Some(100), None)), (200, 100));
    assert_eq!(get_requested_dimensions(&img, &request(None, None, None)), (1000, 500));
    // 3 * 500 / 1000 = 1.5 rounds to 2, 5 * 500 / 1000 = 2.5 rounds to 2
    assert_eq!(get_requested_dimensions(&img, &request(Some(3), None, None)), (3, 2));
    assert_eq!(get_requested_dimensions(&img, &request(Some(5), None, None)), (5, 2));
}

#[test]
fn output_swaps_for_quarter_turns() {
    let img = image(1000, 500);
    assert_eq!(get_output_dimensions(&img, &request(Some(100), None, Some("90"))), (200, 100));
    assert_eq!(get_output_dimensions(&img, &request(Some(100), None, Some("180"))), (100, 50));
    assert_eq!(get_output_dimensions(&img, &request(Some(100), Some(40), Some("270"))), (40, 100));
}

#[test]
fn output_keeps_aspect() {
    let img = image(1920, 1080);
    let (w, h) = get_output_dimensions(&img, &request(Some(333), None, None));
    assert_eq!(w, 333);
    let err = (2 * h as i64 * 1920 - 2 * w as i64 * 1080).abs();
    assert!(err <= 1920);
}

#[test]
fn rasterize_pads_quarter_turns() {
    let img = image(1000, 500);
    assert_eq!(get_rasterize_dimensions(&img, &request(Some(100), Some(40), Some("90"))), (42, 100));
    assert_eq!(get_rasterize_dimensions(&img, &request(Some(40), Some(100), Some("90"))), (80, 42));
    assert_eq!(get_rasterize_dimensions(&img, &request(Some(40), Some(100), None)), (40, 100));
}
