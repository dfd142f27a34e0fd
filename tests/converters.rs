use picturium::converters::{
    converted_pdf_path, mpv_arguments, soffice_arguments, video_directory, video_frame_path,
    video_position, video_step, VideoStep,
};
use picturium::crypto::string_hash;

#[test]
fn video_positions_in_order() {
    assert_eq!(video_position(0), Some("25%"));
    assert_eq!(video_position(3), Some("0"));
    assert_eq!(video_position(4), None);
}

#[test]
fn video_frame_names() {
    let p = video_frame_path("/cache", "/v/a.mp4", "25%");
    assert_eq!(p, format!("/cache/video/mpv-thumbnailer-{}-25.png", string_hash("/v/a.mp4")));
    assert_eq!(video_directory("/cache"), "/cache/video");
}

#[test]
fn mpv_command_line() {
    let a = mpv_arguments(Some(640), "20%", "/c/video/f.png", "/v/a.mp4");
    assert_eq!(
        a,
        vec!["--really-quiet", "--no-config", "--aid=no", "--sid=no", "--vf=scale=640:640/dar", "--start=20%", "--frames=1", "--o=/c/video/f.png", "/v/a.mp4"]
    );
    assert_eq!(mpv_arguments(None, "0", "o", "i")[4], "--vf=scale=300:300/dar");
}

#[test]
fn first_non_empty_frame_wins() {
    assert_eq!(video_step(0, Some(10)), VideoStep::Use);
    assert_eq!(video_step(0, Some(0)), VideoStep::Try(1));
    assert_eq!(video_step(2, None), VideoStep::Try(3));
    assert_eq!(video_step(3, None), VideoStep::Fail);
}

#[test]
fn document_conversion() {
    assert_eq!(soffice_arguments("/c/00/01/23", "/d/report.docx"), vec!["--headless", "--convert-to", "pdf", "--outdir", "/c/00/01/23", "/d/report.docx"]);
    assert_eq!(converted_pdf_path("/c/00/01/23", "/d/report.docx"), Some("/c/00/01/23/report.pdf".to_string()));
    assert_eq!(converted_pdf_path("/c", "/d/"), None);
}
