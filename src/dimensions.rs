//! The sizes that the pipeline works to: what was asked for, what the output
//! will measure, and what a vector or paged source must be rendered at.

use vstd::prelude::*;
use crate::parameters::{Rotate, UrlParameters};

verus! {

/// What the pipeline reads of a decoded image.
#[derive(Copy, Clone, Debug, PartialEq, Eq, Structural)]
pub struct ImageInfo {
    pub width: u32,
    pub height: u32,
    pub has_alpha: bool,
    pub pages: u32,
}

impl ImageInfo {
    /// A decoded image has at least one pixel each way.
    pub open spec fn wf(&self) -> bool {
        self.width > 0 && self.height > 0
    }
}

/// `n / d` rounded to the nearest integer, halves to the even neighbour.
pub open spec fn round_div(n: nat, d: nat) -> nat
    recommends
        d > 0,
{
    let q = n / d;
    let r = n % d;
    if 2 * r < d {
        q
    } else if 2 * r > d {
        q + 1
    } else if q % 2 == 0 {
        q
    } else {
        q + 1
    }
}

/// `n / d` rounded to the nearest integer, halves to the even neighbour.
pub fn round_div_exec(n: u64, d: u64) -> (r: u64)
    requires
        d > 0,
        n <= u64::MAX / 4,
        d <= u64::MAX / 4,
    ensures
        r == round_div(n as nat, d as nat),
{
    let q = n / d;
    let r = n % d;
    if 2 * r < d {
        q
    } else if 2 * r > d {
        q + 1
    } else if q % 2 == 0 {
        q
    } else {
        q + 1
    }
}

/// The rounded value differs from the exact quotient by at most a half.
pub proof fn lemma_round_div_close(n: nat, d: nat)
    requires
        d > 0,
    ensures
        -(d as int) <= 2 * (round_div(n, d) * d) - 2 * n <= d,
{
    let q = n / d;
    let r = n % d;
    vstd::arithmetic::div_mod::lemma_fundamental_div_mod(n as int, d as int);
    assert(n == q * d + r);
    assert((q + 1) * d == q * d + d) by (nonlinear_arith);
}

/// `n`, or the largest `u16` where `n` is larger: the most that one side of
/// a request can ask for.
pub open spec fn sat16(n: nat) -> nat {
    if n > 65535 {
        65535
    } else {
        n
    }
}

/// Fills in the side that was not given from the other one, keeping the
/// proportions of a `w0` by `h0` image; the width of the image where neither
/// was given. No side exceeds the largest `u16`.
pub open spec fn fill_spec(w: Option<u16>, h: Option<u16>, w0: nat, h0: nat) -> (nat, nat) {
    match (w, h) {
        (Some(a), Some(b)) => (a as nat, b as nat),
        (Some(a), None) => (a as nat, sat16(round_div(a as nat * h0, w0))),
        (None, Some(b)) => (sat16(round_div(b as nat * w0, h0)), b as nat),
        (None, None) => (sat16(w0), sat16(round_div(sat16(w0) * h0, w0))),
    }
}

/// The requested size, the missing side filled from the image's proportions.
pub open spec fn requested_spec(image: ImageInfo, req: &UrlParameters) -> (nat, nat) {
    fill_spec(req.width, req.height, image.width as nat, image.height as nat)
}

/// The size of the output: as requested, where a quarter turn makes the
/// requested width apply to the source's height and the other way round.
pub open spec fn output_spec(image: ImageInfo, req: &UrlParameters) -> (nat, nat) {
    if req.rotate == Rotate::Left || req.rotate == Rotate::Right {
        fill_spec(req.height, req.width, image.width as nat, image.height as nat)
    } else {
        fill_spec(req.width, req.height, image.width as nat, image.height as nat)
    }
}

/// The largest `i32`, the most that the imaging backend takes for a side.
pub const MAX_SIDE: u64 = 2147483647;

/// The size to render a vector or paged source at, so that after a quarter
/// turn the output size is met without enlarging: the longer requested side
/// becomes the shorter one plus two pixels and the other is scaled with it.
pub open spec fn rasterize_spec(image: ImageInfo, req: &UrlParameters) -> (nat, nat) {
    let (w, h) = requested_spec(image, req);
    if req.rotate == Rotate::Left || req.rotate == Rotate::Right {
        if w > h {
            (h + 2, w)
        } else {
            let x = round_div(image.width as nat * w, image.height as nat);
            (if x > MAX_SIDE { MAX_SIDE as nat } else { x }, w + 2)
        }
    } else {
        (w, h)
    }
}

fn sat16_exec(n: u64) -> (r: u32)
    ensures
        r == sat16(n as nat),
{
    if n > 65535 {
        65535
    } else {
        n as u32
    }
}

fn fill(w: Option<u16>, h: Option<u16>, w0: u32, h0: u32) -> (r: (u32, u32))
    requires
        w0 > 0,
        h0 > 0,
    ensures
        (r.0 as nat, r.1 as nat) == fill_spec(w, h, w0 as nat, h0 as nat),
        r.0 <= 65535,
        r.1 <= 65535,
{
    match (w, h) {
        (Some(a), Some(b)) => (a as u32, b as u32),
        (Some(a), None) => {
            assert((a as u64) * (h0 as u64) <= 65535 * u32::MAX) by (nonlinear_arith)
                requires a <= 65535, h0 <= u32::MAX;
            (a as u32, sat16_exec(round_div_exec((a as u64) * (h0 as u64), w0 as u64)))
        },
        (None, Some(b)) => {
            assert((b as u64) * (w0 as u64) <= 65535 * u32::MAX) by (nonlinear_arith)
                requires b <= 65535, w0 <= u32::MAX;
            (sat16_exec(round_div_exec((b as u64) * (w0 as u64), h0 as u64)), b as u32)
        },
        (None, None) => {
            let a = sat16_exec(w0 as u64);
            assert((a as u64) * (h0 as u64) <= 65535 * u32::MAX) by (nonlinear_arith)
                requires a <= 65535, h0 <= u32::MAX;
            (a, sat16_exec(round_div_exec((a as u64) * (h0 as u64), w0 as u64)))
        },
    }
}

/// The size that was asked for, the missing side filled from the image's
/// proportions.
pub fn get_requested_dimensions(image: &ImageInfo, url_parameters: &UrlParameters) -> (r: (u32, u32))
    requires
        image.wf(),
    ensures
        (r.0 as nat, r.1 as nat) == requested_spec(*image, url_parameters),
{
    fill(url_parameters.width, url_parameters.height, image.width, image.height)
}

/// The size of the finished output.
pub fn get_output_dimensions(image: &ImageInfo, url_parameters: &UrlParameters) -> (r: (u32, u32))
    requires
        image.wf(),
    ensures
        (r.0 as nat, r.1 as nat) == output_spec(*image, url_parameters),
{
    if url_parameters.rotate.is_quarter_turn() {
        fill(url_parameters.height, url_parameters.width, image.width, image.height)
    } else {
        fill(url_parameters.width, url_parameters.height, image.width, image.height)
    }
}

/// The size to render a vector or paged source at before the other stages.
pub fn get_rasterize_dimensions(image: &ImageInfo, url_parameters: &UrlParameters) -> (r: (u32, u32))
    requires
        image.wf(),
    ensures
        (r.0 as nat, r.1 as nat) == rasterize_spec(*image, url_parameters),
{
    let (w, h) = get_requested_dimensions(image, url_parameters);
    if url_parameters.rotate.is_quarter_turn() {
        if w > h {
            (h + 2, w)
        } else {
            assert((image.width as u64) * (w as u64) <= u32::MAX * 65535) by (nonlinear_arith)
                requires image.width <= u32::MAX, w <= 65535;
            let x = round_div_exec((image.width as u64) * (w as u64), image.height as u64);
            (if x > MAX_SIDE { MAX_SIDE as u32 } else { x as u32 }, w + 2)
        }
    } else {
        (w, h)
    }
}

/// Where exactly one side is given, the output keeps the image's proportions
/// to within half a pixel on the side that was filled in, unless that side
/// had to be cut to the largest `u16`.
pub proof fn lemma_output_keeps_aspect(image: ImageInfo, req: &UrlParameters)
    requires
        image.wf(),
        req.width is Some != req.height is Some,
    ensures
        ({
            let (w, h) = output_spec(image, req);
            let (w0, h0) = (image.width as int, image.height as int);
            let quarter = req.rotate == Rotate::Left || req.rotate == Rotate::Right;
            let width_given = if quarter { req.height is Some } else { req.width is Some };
            (width_given && h < 65535 ==> -w0 <= 2 * (h * w0) - 2 * (w * h0) <= w0)
            && (!width_given && w < 65535 ==> -h0 <= 2 * (w * h0) - 2 * (h * w0) <= h0)
        }),
{
    let (w0, h0) = (image.width as nat, image.height as nat);
    let quarter = req.rotate == Rotate::Left || req.rotate == Rotate::Right;
    let (a, b) = if quarter { (req.height, req.width) } else { (req.width, req.height) };
    match (a, b) {
        (Some(x), None) => {
            lemma_round_div_close(x as nat * h0, w0);
        },
        (None, Some(y)) => {
            lemma_round_div_close(y as nat * w0, h0);
        },
        _ => {},
    }
}

} // verus!
