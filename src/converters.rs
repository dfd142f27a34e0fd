//! The decisions around the two external converters: the command lines, the
//! files they write, and which video frame is kept.

use vstd::prelude::*;
use crate::cache::{file_stem, file_stem_of, texts};
use crate::crypto::{hash_value, text_hash};
use crate::text::{chars_of, decimal, decimal_chars, extend_chars, extend_str, string_of};

verus! {

/// The positions at which a video frame is tried, in order.
pub open spec fn video_positions() -> Seq<Seq<char>> {
    seq!["25%"@, "20%"@, "15%"@, "0"@]
}

/// How many positions are tried.
pub const VIDEO_ATTEMPTS: usize = 4;

/// The position tried at attempt `attempt`, from the first.
pub fn video_position(attempt: usize) -> (r: Option<&'static str>)
    ensures
        attempt < VIDEO_ATTEMPTS ==> r is Some && r->0@ == video_positions()[attempt as int],
        attempt >= VIDEO_ATTEMPTS ==> r is None,
{
    if attempt == 0 {
        Some("25%")
    } else if attempt == 1 {
        Some("20%")
    } else if attempt == 2 {
        Some("15%")
    } else if attempt == 3 {
        Some("0")
    } else {
        None
    }
}

/// `s` without its `%` characters.
pub open spec fn without_percent(s: Seq<char>) -> Seq<char>
    decreases s.len(),
{
    if s.len() == 0 {
        s
    } else if s.last() == '%' {
        without_percent(s.drop_last())
    } else {
        without_percent(s.drop_last()).push(s.last())
    }
}

fn without_percent_exec(s: &Vec<char>) -> (r: Vec<char>)
    ensures
        r@ == without_percent(s@),
{
    let mut r: Vec<char> = Vec::new();
    let mut i: usize = 0;
    assert(s@.subrange(0, 0) =~= Seq::<char>::empty());
    while i < s.len()
        invariant
            i <= s.len(),
            r@ == without_percent(s@.subrange(0, i as int)),
        decreases s.len() - i,
    {
        assert(s@.subrange(0, i + 1).drop_last() =~= s@.subrange(0, i as int));
        if s[i] != '%' {
            r.push(s[i]);
        }
        i += 1;
    }
    assert(s@.subrange(0, s.len() as int) =~= s@);
    r
}

/// `<root>/video/mpv-thumbnailer-<hash of source>-<position without %>.png`.
pub open spec fn video_frame_path_spec(root: Seq<char>, source: Seq<char>, position: Seq<char>) -> Seq<char> {
    root + "/video/mpv-thumbnailer-"@ + decimal(text_hash(source) as nat) + seq!['-'] + without_percent(position)
        + ".png"@
}

/// Where the frame of `source` taken at `position` is written.
pub fn video_frame_path(root: &str, source: &str, position: &str) -> (r: String)
    ensures
        r@ == video_frame_path_spec(root@, source@, position@),
{
    let mut p = chars_of(root);
    extend_str(&mut p, "/video/mpv-thumbnailer-");
    extend_chars(&mut p, &decimal_chars(hash_value(source)));
    p.push('-');
    extend_chars(&mut p, &without_percent_exec(&chars_of(position)));
    extend_str(&mut p, ".png");
    string_of(&p)
}

/// The directory that holds video frames under `root`.
pub fn video_directory(root: &str) -> (r: String)
    ensures
        r@ == root@ + "/video"@,
{
    let mut p = chars_of(root);
    extend_str(&mut p, "/video");
    string_of(&p)
}

/// The arguments of the frame extractor: no audio, no subtitles, one frame
/// scaled to `width` (300 where none was requested) taken at `position`,
/// written to `output`.
pub open spec fn mpv_arguments_spec(width: Option<u16>, position: Seq<char>, output: Seq<char>, input: Seq<char>) -> Seq<Seq<char>> {
    let w = decimal(match width {
        Some(x) => x as nat,
        None => 300,
    });
    seq![
        "--really-quiet"@,
        "--no-config"@,
        "--aid=no"@,
        "--sid=no"@,
        "--vf=scale="@ + w + seq![':'] + w + "/dar"@,
        "--start="@ + position,
        "--frames=1"@,
        "--o="@ + output,
        input,
    ]
}

fn owned(s: &str) -> (r: String)
    ensures
        r@ == s@,
{
    s.to_owned()
}

fn joined(a: &str, b: &Vec<char>) -> (r: String)
    ensures
        r@ == a@ + b@,
{
    let mut p = chars_of(a);
    extend_chars(&mut p, b);
    string_of(&p)
}

/// The arguments of the frame extractor for one attempt.
pub fn mpv_arguments(width: Option<u16>, position: &str, output: &str, input: &str) -> (r: Vec<String>)
    ensures
        texts(r@) == mpv_arguments_spec(width, position@, output@, input@),
{
    let n: u64 = match width {
        Some(x) => x as u64,
        None => 300,
    };
    let w = decimal_chars(n);
    let mut scale = decimal_chars(n);
    scale.push(':');
    extend_chars(&mut scale, &w);
    extend_str(&mut scale, "/dar");
    let ghost spec_w = decimal(match width {
        Some(x) => x as nat,
        None => 300,
    });
    assert(w@ == spec_w);
    assert("--vf=scale="@ + scale@ =~= "--vf=scale="@ + spec_w + seq![':'] + spec_w + "/dar"@);
    let mut r: Vec<String> = Vec::new();
    r.push(owned("--really-quiet"));
    r.push(owned("--no-config"));
    r.push(owned("--aid=no"));
    r.push(owned("--sid=no"));
    r.push(joined("--vf=scale=", &scale));
    r.push(joined("--start=", &chars_of(position)));
    r.push(owned("--frames=1"));
    r.push(joined("--o=", &chars_of(output)));
    r.push(owned(input));
    assert(texts(r@) =~= mpv_arguments_spec(width, position@, output@, input@));
    r
}

/// What follows one attempt at taking a video frame.
#[derive(Copy, Clone, Debug, PartialEq, Eq, Structural)]
pub enum VideoStep {
    /// Use the frame just written.
    Use,
    /// Try the position of this attempt.
    Try(usize),
    /// No position gave a frame.
    Fail,
}

/// The step after attempt `attempt`, whose frame file has `frame_size` bytes
/// (none where the extractor failed or wrote nothing): the first non-empty
/// frame is used; otherwise the next position is tried, while there is one.
pub fn video_step(attempt: usize, frame_size: Option<u64>) -> (r: VideoStep)
    ensures
        r == (match frame_size {
            Some(n) if n > 0 => VideoStep::Use,
            _ => if attempt + 1 < VIDEO_ATTEMPTS { VideoStep::Try((attempt + 1) as usize) } else { VideoStep::Fail },
        }),
{
    match frame_size {
        Some(n) if n > 0 => VideoStep::Use,
        _ => if attempt < VIDEO_ATTEMPTS - 1 { VideoStep::Try(attempt + 1) } else { VideoStep::Fail },
    }
}

/// The arguments of the document converter: headless, to PDF, into
/// `out_dir`.
pub fn soffice_arguments(out_dir: &str, input: &str) -> (r: Vec<String>)
    ensures
        texts(r@) == seq!["--headless"@, "--convert-to"@, "pdf"@, "--outdir"@, out_dir@, input@],
{
    let mut r: Vec<String> = Vec::new();
    r.push(owned("--headless"));
    r.push(owned("--convert-to"));
    r.push(owned("pdf"));
    r.push(owned("--outdir"));
    r.push(owned(out_dir));
    r.push(owned(input));
    assert(texts(r@) =~= seq!["--headless"@, "--convert-to"@, "pdf"@, "--outdir"@, out_dir@, input@]);
    r
}

/// The PDF that the converter writes for `input` into `out_dir`:
/// `<out_dir>/<stem of input>.pdf`; none where `input` has no file name.
pub fn converted_pdf_path(out_dir: &str, input: &str) -> (r: Option<String>)
    ensures
        r is Some == file_stem_of(input@) is Some,
        r is Some ==> r->0@ == out_dir@ + seq!['/'] + file_stem_of(input@)->0 + ".pdf"@,
{
    match file_stem(input) {
        Some(stem) => {
            let mut p = chars_of(out_dir);
            p.push('/');
            extend_chars(&mut p, &chars_of(stem.as_str()));
            extend_str(&mut p, ".pdf");
            Some(string_of(&p))
        },
        None => None,
    }
}

} // verus!
