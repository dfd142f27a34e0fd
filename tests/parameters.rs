use picturium::parameters::{
    AspectRatio, Background, Crop, Format, Origin, Quality, RawUrlParameters, Rotate, Thumbnail,
    UrlParameters,
};

#[test]
fn test_thumbnail_default() {
    let thumbnail = Thumbnail::default();
    assert_eq!(thumbnail.page, Some(1));
}

#[test]
fn test_thumbnail_from_none() {
    let thumbnail = Thumbnail::from(&None);
    assert_eq!(thumbnail, Thumbnail::default());
}

#[test]
fn test_thumbnail_from_empty() {
    let thumbnail = Thumbnail::from(&Some("".to_string()));
    assert_eq!(thumbnail, Thumbnail::default());
}

#[test]
fn test_thumbnail_from_valid_page() {
    let thumbnail = Thumbnail::from(&Some("p:2".to_string()));
    assert_eq!(thumbnail.page, Some(2));
}

#[test]
fn thumbnail_page_zero_and_garbage_fall_back_to_first() {
    assert_eq!(Thumbnail::from(&Some("p:0".to_string())).page, Some(1));
    assert_eq!(Thumbnail::from(&Some("p:x".to_string())).page, Some(1));
    assert_eq!(Thumbnail::from(&Some("q:5,p:7".to_string())).page, Some(7));
    assert_eq!(Thumbnail::from(&Some("p:3,p:4".to_string())).page, Some(4));
}

#[test]
fn test_crop_from() {
    let crop = Crop::from(&Some("video,100,200,top,10,20".to_string())).unwrap();
    assert_eq!(crop.aspect_ratio, AspectRatio::Video);
    assert_eq!(crop.width, Some(100));
    assert_eq!(crop.height, Some(200));
    assert_eq!(crop.gravity, Origin::TopCenter);
    assert_eq!(crop.offset, (10, 20));

    let crop = Crop::from(&Some("square,100,200,top,10,20".to_string())).unwrap();
    assert_eq!(crop.aspect_ratio, AspectRatio::Square);
    assert_eq!(crop.width, Some(100));
    assert_eq!(crop.height, Some(200));
    assert_eq!(crop.gravity, Origin::TopCenter);
    assert_eq!(crop.offset, (10, 20));

    let crop = Crop::from(&Some("free,100,200,top,10,20".to_string())).unwrap();
    assert_eq!(crop.aspect_ratio, AspectRatio::Free);
    assert_eq!(crop.width, Some(100));
    assert_eq!(crop.height, Some(200));
    assert_eq!(crop.gravity, Origin::TopCenter);
    assert_eq!(crop.offset, (10, 20));

    let crop = Crop::from(&Some("16:9,100,200,top,10,20".to_string())).unwrap();
    assert_eq!(crop.aspect_ratio, AspectRatio::Custom(16, 9));
    assert_eq!(crop.width, Some(100));
    assert_eq!(crop.height, Some(200));
    assert_eq!(crop.gravity, Origin::TopCenter);
    assert_eq!(crop.offset, (10, 20));

    let crop = Crop::from(&Some("video".to_string())).unwrap();
    assert_eq!(crop.aspect_ratio, AspectRatio::Video);
    assert_eq!(crop.width, None);
    assert_eq!(crop.height, None);
    assert_eq!(crop.gravity, Origin::Center);
    assert_eq!(crop.offset, (0, 0));

    let crop = Crop::from(&Some("square,0".to_string())).unwrap();
    assert_eq!(crop.aspect_ratio, AspectRatio::Square);
    assert_eq!(crop.width, None);
    assert_eq!(crop.height, None);
    assert_eq!(crop.gravity, Origin::Center);
    assert_eq!(crop.offset, (0, 0));

    let crop = Crop::from(&Some("square,100".to_string())).unwrap();
    assert_eq!(crop.aspect_ratio, AspectRatio::Square);
    assert_eq!(crop.width, Some(100));
    assert_eq!(crop.height, None);
    assert_eq!(crop.gravity, Origin::Center);
    assert_eq!(crop.offset, (0, 0));

    let crop = Crop::from(&Some("square,100,0".to_string())).unwrap();
    assert_eq!(crop.aspect_ratio, AspectRatio::Square);
    assert_eq!(crop.width, Some(100));
    assert_eq!(crop.height, None);
    assert_eq!(crop.gravity, Origin::Center);
    assert_eq!(crop.offset, (0, 0));

    let crop = Crop::from(&Some("square,100,200".to_string())).unwrap();
    assert_eq!(crop.aspect_ratio, AspectRatio::Square);
    assert_eq!(crop.width, Some(100));
    assert_eq!(crop.height, Some(200));
    assert_eq!(crop.gravity, Origin::Center);
    assert_eq!(crop.offset, (0, 0));

    let crop = Crop::from(&Some("square,100,200,top".to_string())).unwrap();
    assert_eq!(crop.aspect_ratio, AspectRatio::Square);
    assert_eq!(crop.width, Some(100));
    assert_eq!(crop.height, Some(200));
    assert_eq!(crop.gravity, Origin::TopCenter);
    assert_eq!(crop.offset, (0, 0));

    let crop = Crop::from(&Some("square,100,200,top,10".to_string())).unwrap();
    assert_eq!(crop.aspect_ratio, AspectRatio::Square);
    assert_eq!(crop.width, Some(100));
    assert_eq!(crop.height, Some(200));
    assert_eq!(crop.gravity, Origin::TopCenter);
    assert_eq!(crop.offset, (10, 0));

    let crop = Crop::from(&Some("square,100,200,xyz".to_string())).unwrap();
    assert_eq!(crop.aspect_ratio, AspectRatio::Square);
    assert_eq!(crop.width, Some(100));
    assert_eq!(crop.height, Some(200));
    assert_eq!(crop.gravity, Origin::Center);
    assert_eq!(crop.offset, (0, 0));
}

#[test]
fn crop_rejects_bad_shapes() {
    assert_eq!(Crop::from(&None), None);
    assert_eq!(Crop::from(&Some("free,100".to_string())), None);
    assert_eq!(Crop::from(&Some("free,0,100".to_string())), None);
    assert_eq!(Crop::from(&Some("wide,100".to_string())), None);
    assert_eq!(Crop::from(&Some("300:9".to_string())), None);
    let crop = Crop::from(&Some("square,100,200,left,-5,-32768".to_string())).unwrap();
    assert_eq!(crop.gravity, Origin::LeftCenter);
    assert_eq!(crop.offset, (-5, -32768));
    let crop = Crop::from(&Some("square,70000,200,top,99999".to_string())).unwrap();
    assert_eq!(crop.width, None);
    assert_eq!(crop.offset, (0, 0));
}

#[test]
fn test_background_from_predefined() {
    assert_eq!(Background::from(&Some("transparent".to_string())), Some(Background(0, 0, 0, 0)));
    // only transparent, black and white are names
    assert_eq!(Background::from(&Some("red".to_string())), None);
    assert_eq!(Background::from(&Some("maroon".to_string())), None);
    assert_eq!(Background::from(&Some("cyan".to_string())), None);
}

#[test]
fn test_background_from_rgb() {
    assert_eq!(Background::from(&Some("rgb:255,0,0".to_string())), Some(Background(255, 0, 0, 255)));
    assert_eq!(Background::from(&Some("rgb:0,255,0".to_string())), Some(Background(0, 255, 0, 255)));
    assert_eq!(Background::from(&Some("rgb:0,0,255".to_string())), Some(Background(0, 0, 255, 255)));
    // alpha is a number from 0 to 255, not a percentage
    assert_eq!(Background::from(&Some("rgb:73,125,188,69%".to_string())), None);
    assert_eq!(Background::from(&Some("rgb:73,125,188,176".to_string())), Some(Background(73, 125, 188, 176)));
}

#[test]
fn background_names_ignore_case() {
    assert_eq!(Background::parse("Black"), Some(Background(0, 0, 0, 255)));
    assert_eq!(Background::parse("WHITE"), Some(Background(255, 255, 255, 255)));
    assert_eq!(Background::parse("TransParent"), Some(Background(0, 0, 0, 0)));
}

#[test]
fn test_background_from_hex() {
    assert_eq!(Background::from(&Some("hex:ff0000".to_string())), Some(Background(255, 0, 0, 255)));
    assert_eq!(Background::from(&Some("hex:00ff00".to_string())), Some(Background(0, 255, 0, 255)));
    assert_eq!(Background::from(&Some("hex:0000ff".to_string())), Some(Background(0, 0, 255, 255)));
    assert_eq!(Background::from(&Some("hex:497dbcb0".to_string())), Some(Background(73, 125, 188, 176)));
}

#[test]
fn it_checks_background_visibility() {
    assert_eq!(Background::from(&Some("black".to_string())).unwrap().is_invisible(), false);
    assert_eq!(Background::from(&Some("transparent".to_string())).unwrap().is_invisible(), true);
    assert_eq!(Background::from(&Some("hex:45ef00aa".to_string())).unwrap().is_invisible(), false);
    assert_eq!(Background::from(&Some("hex:45ef0000".to_string())).unwrap().is_invisible(), true);
}

#[test]
fn background_forms() {
    assert_eq!(Background::parse("#FF8000"), Some(Background(255, 128, 0, 255)));
    assert_eq!(Background::parse("#ff800080"), Some(Background(255, 128, 0, 128)));
    assert_eq!(Background::parse("10,20,30"), Some(Background(10, 20, 30, 255)));
    assert_eq!(Background::parse("10,20,30,40"), Some(Background(10, 20, 30, 40)));
    assert_eq!(Background::parse("white"), Some(Background(255, 255, 255, 255)));
    assert_eq!(Background::parse("transparent"), Some(Background(0, 0, 0, 0)));
    assert_eq!(Background::parse("#12345"), None);
    assert_eq!(Background::parse("#gg0000"), None);
    assert_eq!(Background::parse("10,20,300"), None);
    assert_eq!(Background::parse("10,20"), None);
    assert_eq!(Background::parse("cyan"), None);
    assert_eq!(Background::from(&None), None);
}

#[test]
fn background_round_trip() {
    for b in [Background(0, 0, 0, 0), Background(255, 255, 255, 255), Background(73, 125, 188, 176), Background(1, 2, 3, 4)] {
        assert_eq!(Background::parse(&b.to_string()), Some(b));
    }
    assert_eq!(Background(73, 125, 188, 176).to_string(), "#497DBCB0");
}

#[test]
fn rotate_round_trip() {
    for r in [Rotate::No, Rotate::Left, Rotate::UpsideDown, Rotate::Right] {
        assert_eq!(Rotate::parse(&format!("{}", r.degrees())), r);
    }
    assert_eq!(Rotate::from(&Some("left".to_string())), Rotate::Right);
    assert_eq!(Rotate::from(&Some("clockwise".to_string())), Rotate::Left);
    assert_eq!(Rotate::from(&Some("upside-down".to_string())), Rotate::UpsideDown);
    assert_eq!(Rotate::from(&Some("45".to_string())), Rotate::No);
    assert_eq!(Rotate::from(&None), Rotate::No);
}

#[test]
fn format_keywords() {
    assert_eq!(Format::from(&Some("jpeg".to_string())), Format::Jpg);
    assert_eq!(Format::from(&Some("jpg".to_string())), Format::Jpg);
    assert_eq!(Format::from(&Some("webp".to_string())), Format::Webp);
    assert_eq!(Format::from(&Some("gif".to_string())), Format::Auto);
    assert_eq!(Format::from(&None), Format::Auto);
    assert_eq!(Format::Avif.as_str(), "avif");
    assert_eq!(Format::Auto.as_str(), "auto");
}

#[test]
fn origin_keywords() {
    assert_eq!(Origin::from("center-bottom"), Origin::BottomCenter);
    assert_eq!(Origin::from("right-top"), Origin::TopRight);
    assert_eq!(Origin::from("nowhere"), Origin::Center);
}

#[test]
fn quality_is_clamped() {
    assert_eq!(Quality::from(Some(0)), Quality::Custom(1));
    assert_eq!(Quality::from(Some(150)), Quality::Custom(100));
    assert_eq!(Quality::from(Some(42)), Quality::Custom(42));
    assert_eq!(Quality::from(None), Quality::Default);
}

fn raw() -> RawUrlParameters {
    RawUrlParameters {
        w: None,
        h: None,
        q: None,
        dpr: None,
        crop: None,
        thumb: None,
        original: None,
        rot: None,
        bg: None,
        f: None,
        token: None,
    }
}

#[test]
fn request_folds_pixel_ratio() {
    let mut r = raw();
    r.w = Some(100);
    r.h = Some(33);
    r.dpr = Some("1.5".to_string());
    let p = UrlParameters::new("/img/a.jpg", r);
    assert_eq!(p.width, Some(150));
    // 49.5 rounds away from zero
    assert_eq!(p.height, Some(50));
    assert_eq!(p.path, "/img/a.jpg");

    let mut r = raw();
    r.w = Some(101);
    r.dpr = Some("0.5".to_string());
    assert_eq!(UrlParameters::new("/a.png", r).width, Some(51));

    let mut r = raw();
    r.w = Some(3);
    r.dpr = Some("1.5".to_string());
    assert_eq!(UrlParameters::new("/a.png", r).width, Some(5));

    let mut r = raw();
    r.w = Some(60000);
    r.dpr = Some("2".to_string());
    assert_eq!(UrlParameters::new("/a.png", r).width, Some(65535));

    let mut r = raw();
    r.w = Some(100);
    r.dpr = Some("abc".to_string());
    assert_eq!(UrlParameters::new("/a.png", r).width, Some(100));
}

#[test]
fn request_defaults() {
    let mut r = raw();
    r.q = Some(80);
    r.f = Some("png".to_string());
    r.rot = Some("180".to_string());
    r.bg = Some("#00000000".to_string());
    r.original = Some(true);
    let p = UrlParameters::new("/a.png", r);
    assert_eq!(p.quality, Quality::Custom(80));
    assert_eq!(p.format, Format::Png);
    assert_eq!(p.rotate, Rotate::UpsideDown);
    assert_eq!(p.background, Some(Background(0, 0, 0, 0)));
    assert!(p.original);
    assert_eq!(p.thumbnail.page, Some(1));
    assert_eq!(p.crop, None);
    assert_eq!(p.width, None);
}
