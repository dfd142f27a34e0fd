//! The typed request: each query parameter parsed into its own type. Parsing
//! never fails: a value that does not parse leaves the field at its default.

use vstd::prelude::*;
use vstd::utf8::encode_utf8;
use crate::crypto::{is_signed_text, token_check_spec, verify_token};
use crate::dimensions::sat16;
use crate::text::{
    all_digits, digits_value, extend_chars, parse_digits,
    chars_of, decimal, eq_str, lemma_split_len, parse_i16, parse_i16_spec, parse_unsigned,
    parse_unsigned_spec, slice_chars, split_chars, split_on, string_of, lower_of, lowercase,
};

verus! {

/// The output format that the client asked for.
#[derive(Default, Copy, Clone, Debug, PartialEq, Eq, Structural)]
pub enum Format {
    #[default]
    Auto,
    Jpg,
    Png,
    Webp,
    Avif,
    Pdf,
}

/// The format that the text `v` names.
pub open spec fn format_spec(v: Seq<char>) -> Format {
    if v == "jpg"@ || v == "jpeg"@ {
        Format::Jpg
    } else if v == "png"@ {
        Format::Png
    } else if v == "webp"@ {
        Format::Webp
    } else if v == "avif"@ {
        Format::Avif
    } else if v == "pdf"@ {
        Format::Pdf
    } else {
        Format::Auto
    }
}

/// The keyword of each format.
pub open spec fn format_keyword(f: Format) -> Seq<char> {
    match f {
        Format::Auto => "auto"@,
        Format::Jpg => "jpg"@,
        Format::Png => "png"@,
        Format::Webp => "webp"@,
        Format::Avif => "avif"@,
        Format::Pdf => "pdf"@,
    }
}

impl Format {
    /// The format named by the `f` parameter; `Auto` when it is absent or
    /// names no format.
    pub fn from(value: &Option<String>) -> (r: Format)
        ensures
            r == match value {
                Some(v) => format_spec(v@),
                None => Format::Auto,
            },
    {
        let v = match value {
            Some(v) => chars_of(v.as_str()),
            None => return Format::Auto,
        };
        if eq_str(&v, "jpg") || eq_str(&v, "jpeg") {
            Format::Jpg
        } else if eq_str(&v, "png") {
            Format::Png
        } else if eq_str(&v, "webp") {
            Format::Webp
        } else if eq_str(&v, "avif") {
            Format::Avif
        } else if eq_str(&v, "pdf") {
            Format::Pdf
        } else {
            Format::Auto
        }
    }

    /// The keyword of the format.
    pub fn as_str(&self) -> (r: &'static str)
        ensures
            r@ == format_keyword(*self),
    {
        match self {
            Format::Auto => "auto",
            Format::Jpg => "jpg",
            Format::Png => "png",
            Format::Webp => "webp",
            Format::Avif => "avif",
            Format::Pdf => "pdf",
        }
    }
}

/// The clockwise rotation applied after the orientation that the image
/// itself records.
#[derive(Default, Copy, Clone, Debug, PartialEq, Eq, Structural)]
pub enum Rotate {
    #[default]
    No,
    Left,
    UpsideDown,
    Right,
}

/// The clockwise degrees of each rotation.
pub open spec fn degrees_spec(r: Rotate) -> nat {
    match r {
        Rotate::No => 0,
        Rotate::Left => 90,
        Rotate::UpsideDown => 180,
        Rotate::Right => 270,
    }
}

/// The rotation that the text `v` names.
pub open spec fn rotate_spec(v: Seq<char>) -> Rotate {
    if v == "90"@ || v == "right"@ || v == "clockwise"@ {
        Rotate::Left
    } else if v == "180"@ || v == "bottom-up"@ || v == "upside-down"@ {
        Rotate::UpsideDown
    } else if v == "270"@ || v == "left"@ || v == "anticlockwise"@ {
        Rotate::Right
    } else {
        Rotate::No
    }
}

impl Rotate {
    /// The rotation named by the `rot` parameter: clockwise degrees, or a
    /// word; `No` when it is absent or names no rotation.
    pub fn from(value: &Option<String>) -> (r: Rotate)
        ensures
            r == match value {
                Some(v) => rotate_spec(v@),
                None => Rotate::No,
            },
    {
        match value {
            Some(v) => Rotate::parse(v.as_str()),
            None => Rotate::No,
        }
    }

    /// The rotation that `value` names.
    pub fn parse(value: &str) -> (r: Rotate)
        ensures
            r == rotate_spec(value@),
    {
        let v = chars_of(value);
        if eq_str(&v, "90") || eq_str(&v, "right") || eq_str(&v, "clockwise") {
            Rotate::Left
        } else if eq_str(&v, "180") || eq_str(&v, "bottom-up") || eq_str(&v, "upside-down") {
            Rotate::UpsideDown
        } else if eq_str(&v, "270") || eq_str(&v, "left") || eq_str(&v, "anticlockwise") {
            Rotate::Right
        } else {
            Rotate::No
        }
    }

    /// The clockwise degrees of the rotation.
    pub fn degrees(&self) -> (r: u16)
        ensures
            r == degrees_spec(*self),
    {
        match self {
            Rotate::No => 0,
            Rotate::Left => 90,
            Rotate::UpsideDown => 180,
            Rotate::Right => 270,
        }
    }

    /// Whether the rotation turns the image on its side, so that width and
    /// height trade places.
    pub fn is_quarter_turn(&self) -> (r: bool)
        ensures
            r == (*self == Rotate::Left || *self == Rotate::Right),
    {
        matches!(self, Rotate::Left | Rotate::Right)
    }
}

/// Rendering a rotation as its degrees and parsing that text gives the same
/// rotation back.
pub proof fn lemma_rotate_round_trip(r: Rotate)
    ensures
        rotate_spec(decimal(degrees_spec(r))) == r,
{
    reveal_strlit("90");
    reveal_strlit("180");
    reveal_strlit("270");
    reveal_strlit("right");
    reveal_strlit("clockwise");
    reveal_strlit("bottom-up");
    reveal_strlit("upside-down");
    reveal_strlit("left");
    reveal_strlit("anticlockwise");
    assert(decimal(0) =~= seq!['0']);
    assert("90"@ =~= seq!['9', '0']);
    assert("180"@ =~= seq!['1', '8', '0']);
    assert("270"@ =~= seq!['2', '7', '0']);
    match r {
        Rotate::No => {
            assert(seq!['0'] != "90"@);
            assert(seq!['0'] != "180"@);
            assert(seq!['0'] != "270"@);
        },
        _ => {},
    }
    assert(decimal(9) =~= seq!['9']);
    assert(decimal(90) =~= seq!['9', '0']);
    assert(decimal(1) =~= seq!['1']);
    assert(decimal(18) =~= seq!['1', '8']);
    assert(decimal(180) =~= seq!['1', '8', '0']);
    assert(decimal(2) =~= seq!['2']);
    assert(decimal(27) =~= seq!['2', '7']);
    assert(decimal(270) =~= seq!['2', '7', '0']);
}

/// The point of the image that a crop keeps.
#[derive(Default, Copy, Clone, Debug, PartialEq, Eq, Structural)]
pub enum Origin {
    #[default]
    Center,
    TopLeft,
    TopCenter,
    TopRight,
    LeftCenter,
    RightCenter,
    BottomLeft,
    BottomCenter,
    BottomRight,
}

/// The origin that the text `v` names.
pub open spec fn origin_spec(v: Seq<char>) -> Origin {
    if v == "top-left"@ || v == "left-top"@ {
        Origin::TopLeft
    } else if v == "top-center"@ || v == "center-top"@ || v == "top"@ {
        Origin::TopCenter
    } else if v == "top-right"@ || v == "right-top"@ {
        Origin::TopRight
    } else if v == "left-center"@ || v == "center-left"@ || v == "left"@ {
        Origin::LeftCenter
    } else if v == "right-center"@ || v == "center-right"@ || v == "right"@ {
        Origin::RightCenter
    } else if v == "bottom-left"@ || v == "left-bottom"@ {
        Origin::BottomLeft
    } else if v == "bottom-center"@ || v == "center-bottom"@ || v == "bottom"@ {
        Origin::BottomCenter
    } else if v == "bottom-right"@ || v == "right-bottom"@ {
        Origin::BottomRight
    } else {
        Origin::Center
    }
}

impl Origin {
    /// The origin that `value` names; `Center` for any other text.
    pub fn from(value: &str) -> (r: Origin)
        ensures
            r == origin_spec(value@),
    {
        let v = chars_of(value);
        Origin::from_chars(&v)
    }

    /// The origin that the characters `v` name.
    pub fn from_chars(v: &Vec<char>) -> (r: Origin)
        ensures
            r == origin_spec(v@),
    {
        if eq_str(v, "top-left") || eq_str(v, "left-top") {
            Origin::TopLeft
        } else if eq_str(v, "top-center") || eq_str(v, "center-top") || eq_str(v, "top") {
            Origin::TopCenter
        } else if eq_str(v, "top-right") || eq_str(v, "right-top") {
            Origin::TopRight
        } else if eq_str(v, "left-center") || eq_str(v, "center-left") || eq_str(v, "left") {
            Origin::LeftCenter
        } else if eq_str(v, "right-center") || eq_str(v, "center-right") || eq_str(v, "right") {
            Origin::RightCenter
        } else if eq_str(v, "bottom-left") || eq_str(v, "left-bottom") {
            Origin::BottomLeft
        } else if eq_str(v, "bottom-center") || eq_str(v, "center-bottom") || eq_str(v, "bottom") {
            Origin::BottomCenter
        } else if eq_str(v, "bottom-right") || eq_str(v, "right-bottom") {
            Origin::BottomRight
        } else {
            Origin::Center
        }
    }
}

/// The encoder quality: the format's own default, or a fixed value.
#[derive(Copy, Clone, Debug, PartialEq, Eq, Structural)]
pub enum Quality {
    Default,
    Custom(u8),
}

impl Quality {
    /// The quality that the `q` parameter asks for, kept within 1 to 100.
    pub fn from(value: Option<u8>) -> (r: Quality)
        ensures
            r == match value {
                Some(q) => Quality::Custom(if q < 1 { 1u8 } else if q > 100 { 100u8 } else { q }),
                None => Quality::Default,
            },
    {
        match value {
            Some(q) => Quality::Custom(if q < 1 { 1 } else if q > 100 { 100 } else { q }),
            None => Quality::Default,
        }
    }
}

/// Which page of a multi-page source to render.
#[derive(Debug, PartialEq, Eq)]
pub struct Thumbnail {
    pub page: Option<u32>,
}

impl Default for Thumbnail {
    fn default() -> (r: Thumbnail)
        ensures
            r.page == Some(1u32),
    {
        Thumbnail { page: Some(1) }
    }
}

/// The page that one `key:value` item sets: its last `:`-separated piece as
/// a number of at least one, and the first page where that does not parse.
pub open spec fn page_of_item(item: Seq<char>) -> u32 {
    let pair = split_on(item, ':');
    match parse_unsigned_spec(pair.last(), u32::MAX as nat) {
        Some(n) => if n < 1 { 1u32 } else { n as u32 },
        None => 1u32,
    }
}

/// Whether a `key:value` item has the key `p`.
pub open spec fn is_page_item(item: Seq<char>) -> bool {
    split_on(item, ':')[0] == seq!['p']
}

/// The page that the items set: that of the last item whose key is `p`, and
/// the first page where there is none.
pub open spec fn page_of_items(items: Seq<Seq<char>>) -> u32
    decreases items.len(),
{
    if items.len() == 0 {
        1u32
    } else if is_page_item(items.last()) {
        page_of_item(items.last())
    } else {
        page_of_items(items.drop_last())
    }
}

impl Thumbnail {
    /// Parses the `thumb` parameter: comma-separated `key:value` items, of
    /// which `p:<page>` is the one known.
    pub fn from(value: &Option<String>) -> (r: Thumbnail)
        ensures
            r.page == Some(match value {
                Some(v) => page_of_items(split_on(v@, ',')),
                None => 1u32,
            }),
    {
        let v = match value {
            Some(v) => chars_of(v.as_str()),
            None => return Thumbnail { page: Some(1) },
        };
        let items = split_chars(&v, ',');
        let mut page: u32 = 1;
        let mut i: usize = 0;
        assert(items.deep_view().subrange(0, 0) =~= Seq::<Seq<char>>::empty());
        while i < items.len()
            invariant
                i <= items.len(),
                items.deep_view() == split_on(v@, ','),
                page == page_of_items(items.deep_view().subrange(0, i as int)),
            decreases items.len() - i,
        {
            let ghost pre = items.deep_view().subrange(0, i as int);
            assert(items.deep_view().subrange(0, i + 1).drop_last() =~= pre);
            assert(items.deep_view()[i as int] == items[i as int]@);
            let pair = split_chars(&items[i], ':');
            proof { lemma_split_len(items[i as int]@, ':'); }
            assert(pair.deep_view()[0] == pair[0]@);
            assert(pair.deep_view()[pair.len() - 1] == pair[pair.len() - 1]@);
            let ghost item = items[i as int]@;
            assert(items.deep_view().subrange(0, i + 1).last() == item);
            proof { reveal_strlit("p"); }
            assert("p"@ =~= seq!['p']);
            if eq_str(&pair[0], "p") {
                assert(is_page_item(item));
                page = match parse_unsigned(&pair[pair.len() - 1], 4294967295) {
                    Some(n) => if n < 1 { 1 } else { n as u32 },
                    None => 1,
                };
                assert(page == page_of_item(item));
            } else {
                assert(!is_page_item(item));
            }
            i += 1;
        }
        assert(items.deep_view().subrange(0, items.len() as int) =~= items.deep_view());
        Thumbnail { page: Some(page) }
    }
}


/// The shape that a crop keeps.
#[derive(Default, Copy, Clone, Debug, PartialEq, Eq, Structural)]
pub enum AspectRatio {
    #[default]
    Video,
    Square,
    Custom(u8, u8),
    Free,
}

/// A crop of the source image.
#[derive(Copy, Clone, Debug, PartialEq, Eq)]
pub struct Crop {
    pub aspect_ratio: AspectRatio,
    pub width: Option<u16>,
    pub height: Option<u16>,
    pub gravity: Origin,
    pub offset: (i16, i16),
}

/// The number that `s` writes as a `u16`, or zero where it writes none.
pub open spec fn u16_or_zero(s: Seq<char>) -> nat {
    match parse_unsigned_spec(s, 65535) {
        Some(n) => n,
        None => 0,
    }
}

/// The number that `s` writes as an `i16`, or zero where it writes none.
pub open spec fn i16_or_zero(s: Seq<char>) -> int {
    match parse_i16_spec(s) {
        Some(n) => n,
        None => 0,
    }
}

/// The shape that the first item of a crop names, if any: a keyword, or
/// `N:M` with both numbers in `u8`.
pub open spec fn aspect_spec(a: Seq<char>) -> Option<AspectRatio> {
    if a == "video"@ {
        Some(AspectRatio::Video)
    } else if a == "square"@ {
        Some(AspectRatio::Square)
    } else if a == "free"@ {
        Some(AspectRatio::Free)
    } else {
        let r = split_on(a, ':');
        if r.len() < 2 {
            None
        } else {
            match (parse_unsigned_spec(r[0], 255), parse_unsigned_spec(r[1], 255)) {
                (Some(x), Some(y)) => Some(AspectRatio::Custom(x as u8, y as u8)),
                _ => None,
            }
        }
    }
}

/// The crop that `aspect[,width[,height[,gravity[,offset_x[,offset_y]]]]]`
/// describes. A width or height of zero, or one that does not parse, is
/// absent; a free crop needs both; offsets that do not parse are zero.
pub open spec fn crop_spec(v: Seq<char>) -> Option<Crop> {
    let p = split_on(v, ',');
    let w = if p.len() > 1 { u16_or_zero(p[1]) } else { 0 };
    let h = if p.len() > 2 { u16_or_zero(p[2]) } else { 0 };
    match aspect_spec(p[0]) {
        None => None,
        Some(aspect) => if aspect == AspectRatio::Free && (h == 0 || w == 0) {
            None
        } else {
            Some(Crop {
                aspect_ratio: aspect,
                width: if w == 0 { None } else { Some(w as u16) },
                height: if h == 0 { None } else { Some(h as u16) },
                gravity: if p.len() > 3 { origin_spec(p[3]) } else { Origin::Center },
                offset: (
                    if p.len() > 4 { i16_or_zero(p[4]) as i16 } else { 0i16 },
                    if p.len() > 5 { i16_or_zero(p[5]) as i16 } else { 0i16 },
                ),
            })
        },
    }
}

fn u16_or_zero_exec(s: &Vec<char>) -> (r: u16)
    ensures
        r as nat == u16_or_zero(s@),
{
    match parse_unsigned(s, 65535) {
        Some(n) => n as u16,
        None => 0,
    }
}

fn i16_or_zero_exec(s: &Vec<char>) -> (r: i16)
    ensures
        r as int == i16_or_zero(s@),
{
    match parse_i16(s) {
        Some(n) => n,
        None => 0,
    }
}

fn aspect_exec(a: &Vec<char>) -> (r: Option<AspectRatio>)
    ensures
        r == aspect_spec(a@),
{
    if eq_str(a, "video") {
        Some(AspectRatio::Video)
    } else if eq_str(a, "square") {
        Some(AspectRatio::Square)
    } else if eq_str(a, "free") {
        Some(AspectRatio::Free)
    } else {
        let r = split_chars(a, ':');
        if r.len() < 2 {
            return None;
        }
        assert(r.deep_view()[0] == r[0]@ && r.deep_view()[1] == r[1]@);
        match (parse_unsigned(&r[0], 255), parse_unsigned(&r[1], 255)) {
            (Some(x), Some(y)) => Some(AspectRatio::Custom(x as u8, y as u8)),
            _ => None,
        }
    }
}

impl Crop {
    /// Parses the `crop` parameter; `None` where it is absent, its shape is
    /// not understood, or a free crop lacks a side.
    pub fn from(value: &Option<String>) -> (r: Option<Crop>)
        ensures
            r == match value {
                Some(v) => crop_spec(v@),
                None => None,
            },
    {
        let v = match value {
            Some(v) => chars_of(v.as_str()),
            None => return None,
        };
        let p = split_chars(&v, ',');
        proof { lemma_split_len(v@, ','); }
        let ghost pv = p.deep_view();
        assert(forall|k: int| 0 <= k < p.len() ==> pv[k] == (#[trigger] p[k])@);
        let aspect = match aspect_exec(&p[0]) {
            Some(a) => a,
            None => return None,
        };
        let w: u16 = if p.len() > 1 { u16_or_zero_exec(&p[1]) } else { 0 };
        let h: u16 = if p.len() > 2 { u16_or_zero_exec(&p[2]) } else { 0 };
        if aspect == AspectRatio::Free && (h == 0 || w == 0) {
            return None;
        }
        let gravity = if p.len() > 3 { Origin::from_chars(&p[3]) } else { Origin::Center };
        let ox: i16 = if p.len() > 4 { i16_or_zero_exec(&p[4]) } else { 0 };
        let oy: i16 = if p.len() > 5 { i16_or_zero_exec(&p[5]) } else { 0 };
        Some(Crop {
            aspect_ratio: aspect,
            width: if w == 0 { None } else { Some(w) },
            height: if h == 0 { None } else { Some(h) },
            gravity,
            offset: (ox, oy),
        })
    }
}

/// A background colour: red, green, blue and alpha, each 0 to 255.
#[derive(Default, Copy, Clone, Debug, PartialEq, Eq, Structural)]
pub struct Background(pub u8, pub u8, pub u8, pub u8);

/// The value of a hexadecimal digit of either case.
pub open spec fn hex_value(c: char) -> Option<nat> {
    if '0' <= c && c <= '9' {
        Some((c as nat - '0' as nat) as nat)
    } else if 'a' <= c && c <= 'f' {
        Some((c as nat - 'a' as nat + 10) as nat)
    } else if 'A' <= c && c <= 'F' {
        Some((c as nat - 'A' as nat + 10) as nat)
    } else {
        None
    }
}

/// The byte that the two hexadecimal digits at `i` of `s` write.
pub open spec fn hex_byte(s: Seq<char>, i: int) -> Option<u8> {
    match (hex_value(s[i]), hex_value(s[i + 1])) {
        (Some(a), Some(b)) => Some((a * 16 + b) as u8),
        _ => None,
    }
}

/// The colour that six or eight hexadecimal digits write: red, green, blue
/// and, where given, alpha (opaque otherwise).
pub open spec fn hex_colour(d: Seq<char>) -> Option<Background> {
    if d.len() != 6 && d.len() != 8 {
        None
    } else {
        match (hex_byte(d, 0), hex_byte(d, 2), hex_byte(d, 4)) {
            (Some(r), Some(g), Some(b)) => if d.len() == 8 {
                match hex_byte(d, 6) {
                    Some(a) => Some(Background(r, g, b, a)),
                    None => None,
                }
            } else {
                Some(Background(r, g, b, 255))
            },
            _ => None,
        }
    }
}

/// The colour that `R,G,B` or `R,G,B,A` writes, each item 0 to 255.
pub open spec fn list_colour(s: Seq<char>) -> Option<Background> {
    let p = split_on(s, ',');
    if p.len() != 3 && p.len() != 4 {
        None
    } else {
        let a = if p.len() == 4 { parse_unsigned_spec(p[3], 255) } else { Some(255nat) };
        match (parse_unsigned_spec(p[0], 255), parse_unsigned_spec(p[1], 255), parse_unsigned_spec(p[2], 255), a) {
            (Some(r), Some(g), Some(b), Some(a)) => Some(Background(r as u8, g as u8, b as u8, a as u8)),
            _ => None,
        }
    }
}

/// The colour that a name given in lowercase stands for: `transparent`,
/// `black` or `white`.
pub open spec fn named_colour(n: Seq<char>) -> Option<Background> {
    if n == "transparent"@ {
        Some(Background(0, 0, 0, 0))
    } else if n == "black"@ {
        Some(Background(0, 0, 0, 255))
    } else if n == "white"@ {
        Some(Background(255, 255, 255, 255))
    } else {
        None
    }
}

/// The colour that a `bg` value names: `#` or `hex:` then six or eight
/// hexadecimal digits; `transparent`, `black` or `white`, in any case;
/// `rgb:` or nothing, then a list of three or four numbers from 0 to 255.
pub open spec fn background_spec(s: Seq<char>) -> Option<Background> {
    if s.len() > 0 && s[0] == '#' {
        hex_colour(s.drop_first())
    } else if s.len() >= 4 && s.subrange(0, 4) == "hex:"@ {
        hex_colour(s.subrange(4, s.len() as int))
    } else if named_colour(lower_of(s)) is Some {
        named_colour(lower_of(s))
    } else if s.len() >= 4 && s.subrange(0, 4) == "rgb:"@ {
        list_colour(s.subrange(4, s.len() as int))
    } else {
        list_colour(s)
    }
}

/// The uppercase hexadecimal digit of a value below sixteen.
pub open spec fn hex_digit(v: nat) -> char {
    if v < 10 {
        ((v + '0' as nat) as u32) as char
    } else {
        ((v - 10 + 'A' as nat) as u32) as char
    }
}

/// `#RRGGBBAA`, in uppercase hexadecimal.
pub open spec fn background_text(b: Background) -> Seq<char> {
    seq!['#', hex_digit(b.0 as nat / 16), hex_digit(b.0 as nat % 16), hex_digit(b.1 as nat / 16),
        hex_digit(b.1 as nat % 16), hex_digit(b.2 as nat / 16), hex_digit(b.2 as nat % 16),
        hex_digit(b.3 as nat / 16), hex_digit(b.3 as nat % 16)]
}

fn hex_value_exec(c: char) -> (r: Option<u8>)
    ensures
        r.is_some() == hex_value(c).is_some(),
        r.is_some() ==> r.unwrap() as nat == hex_value(c).unwrap(),
{
    if '0' <= c && c <= '9' {
        Some((c as u32 - '0' as u32) as u8)
    } else if 'a' <= c && c <= 'f' {
        Some((c as u32 - 'a' as u32 + 10) as u8)
    } else if 'A' <= c && c <= 'F' {
        Some((c as u32 - 'A' as u32 + 10) as u8)
    } else {
        None
    }
}

fn hex_byte_exec(s: &Vec<char>, i: usize) -> (r: Option<u8>)
    requires
        i + 1 < s.len(),
    ensures
        r == hex_byte(s@, i as int),
{
    match (hex_value_exec(s[i]), hex_value_exec(s[i + 1])) {
        (Some(a), Some(b)) => Some(a * 16 + b),
        _ => None,
    }
}

fn hex_colour_exec(d: &Vec<char>) -> (r: Option<Background>)
    ensures
        r == hex_colour(d@),
{
    if d.len() != 6 && d.len() != 8 {
        return None;
    }
    match (hex_byte_exec(d, 0), hex_byte_exec(d, 2), hex_byte_exec(d, 4)) {
        (Some(r), Some(g), Some(b)) => if d.len() == 8 {
            match hex_byte_exec(d, 6) {
                Some(a) => Some(Background(r, g, b, a)),
                None => None,
            }
        } else {
            Some(Background(r, g, b, 255))
        },
        _ => None,
    }
}

fn list_colour_exec(s: &Vec<char>) -> (r: Option<Background>)
    ensures
        r == list_colour(s@),
{
    let p = split_chars(s, ',');
    if p.len() != 3 && p.len() != 4 {
        return None;
    }
    let ghost pv = p.deep_view();
    assert(forall|k: int| 0 <= k < p.len() ==> pv[k] == (#[trigger] p[k])@);
    let a = if p.len() == 4 { parse_unsigned(&p[3], 255) } else { Some(255) };
    match (parse_unsigned(&p[0], 255), parse_unsigned(&p[1], 255), parse_unsigned(&p[2], 255), a) {
        (Some(r), Some(g), Some(b), Some(a)) => Some(Background(r as u8, g as u8, b as u8, a as u8)),
        _ => None,
    }
}

fn hex_digit_exec(v: u8) -> (r: char)
    requires
        v < 16,
    ensures
        r == hex_digit(v as nat),
{
    if v < 10 {
        ((v as u32) + ('0' as u32)) as u8 as char
    } else {
        ((v as u32) - 10 + ('A' as u32)) as u8 as char
    }
}

proof fn lemma_hex_digit_back(v: nat)
    requires
        v < 16,
    ensures
        hex_value(hex_digit(v)) == Some(v),
{
}

impl Background {
    /// Whether the colour is fully transparent.
    pub fn is_invisible(&self) -> (r: bool)
        ensures
            r == (self.3 == 0),
    {
        self.3 == 0
    }

    /// The colour that `value` names; `None` where it names none.
    pub fn parse(value: &str) -> (r: Option<Background>)
        ensures
            r == background_spec(value@),
    {
        let s = chars_of(value);
        if s.len() > 0 && s[0] == '#' {
            let d = slice_chars(&s, 1, s.len());
            assert(d@ =~= s@.drop_first());
            return hex_colour_exec(&d);
        }
        if s.len() >= 4 && eq_str(&slice_chars(&s, 0, 4), "hex:") {
            return hex_colour_exec(&slice_chars(&s, 4, s.len()));
        }
        let lowered = lowercase(value);
        match Background::named(lowered.as_str()) {
            Some(b) => return Some(b),
            None => {},
        }
        if s.len() >= 4 && eq_str(&slice_chars(&s, 0, 4), "rgb:") {
            list_colour_exec(&slice_chars(&s, 4, s.len()))
        } else {
            list_colour_exec(&s)
        }
    }

    /// The colour that a lowercase name stands for.
    pub fn named(lowered: &str) -> (r: Option<Background>)
        ensures
            r == named_colour(lowered@),
    {
        let n = chars_of(lowered);
        if eq_str(&n, "transparent") {
            Some(Background(0, 0, 0, 0))
        } else if eq_str(&n, "black") {
            Some(Background(0, 0, 0, 255))
        } else if eq_str(&n, "white") {
            Some(Background(255, 255, 255, 255))
        } else {
            None
        }
    }

    /// Parses the `bg` parameter; `None` where it is absent or names no
    /// colour.
    pub fn from(value: &Option<String>) -> (r: Option<Background>)
        ensures
            r == match value {
                Some(v) => background_spec(v@),
                None => None,
            },
    {
        match value {
            Some(v) => Background::parse(v.as_str()),
            None => None,
        }
    }

    /// The colour as `#RRGGBBAA`, in uppercase hexadecimal.
    pub fn to_string(&self) -> (r: String)
        ensures
            r@ == background_text(*self),
    {
        let mut c: Vec<char> = Vec::new();
        c.push('#');
        c.push(hex_digit_exec(self.0 / 16));
        c.push(hex_digit_exec(self.0 % 16));
        c.push(hex_digit_exec(self.1 / 16));
        c.push(hex_digit_exec(self.1 % 16));
        c.push(hex_digit_exec(self.2 / 16));
        c.push(hex_digit_exec(self.2 % 16));
        c.push(hex_digit_exec(self.3 / 16));
        c.push(hex_digit_exec(self.3 % 16));
        assert(c@ =~= background_text(*self));
        string_of(&c)
    }
}

/// Parsing the `#RRGGBBAA` rendering of a colour gives that colour back.
pub proof fn lemma_background_round_trip(b: Background)
    ensures
        background_spec(background_text(b)) == Some(b),
{
    let t = background_text(b);
    let d = t.drop_first();
    assert forall|x: nat| x < 256 implies #[trigger] ((x / 16) * 16 + x % 16) == x by {}
    lemma_hex_digit_back(b.0 as nat / 16);
    lemma_hex_digit_back(b.0 as nat % 16);
    lemma_hex_digit_back(b.1 as nat / 16);
    lemma_hex_digit_back(b.1 as nat % 16);
    lemma_hex_digit_back(b.2 as nat / 16);
    lemma_hex_digit_back(b.2 as nat % 16);
    lemma_hex_digit_back(b.3 as nat / 16);
    lemma_hex_digit_back(b.3 as nat % 16);
    assert(hex_byte(d, 0) == Some(b.0));
    assert(hex_byte(d, 2) == Some(b.1));
    assert(hex_byte(d, 4) == Some(b.2));
    assert(hex_byte(d, 6) == Some(b.3));
}

/// The request for one derivative of one source file.
#[derive(Debug, PartialEq, Eq)]
pub struct UrlParameters {
    pub path: String,
    pub width: Option<u16>,
    pub height: Option<u16>,
    pub quality: Quality,
    pub crop: Option<Crop>,
    pub thumbnail: Thumbnail,
    pub original: bool,
    pub rotate: Rotate,
    pub background: Option<Background>,
    pub format: Format,
}


/// The query parameters of a request as they arrive, each optional.
#[derive(Debug, PartialEq, Eq)]
pub struct RawUrlParameters {
    pub w: Option<u16>,
    pub h: Option<u16>,
    pub q: Option<u8>,
    pub dpr: Option<String>,
    pub crop: Option<String>,
    pub thumb: Option<String>,
    pub original: Option<bool>,
    pub rot: Option<String>,
    pub bg: Option<String>,
    pub f: Option<String>,
    pub token: Option<String>,
}

impl RawUrlParameters {
    /// Checks the request's signature against the server key `key` (none
    /// where the server requires no signature), for the source `path` and
    /// all query items `url_parameters`.
    pub fn verify_token(&self, key: Option<&str>, path: &str, url_parameters: &Vec<(String, String)>) -> (r: Result<(), &'static str>)
        ensures
            exists|m: Seq<char>| is_signed_text(path@, url_parameters@, m) && match token_check_spec(
                match key { Some(k) => Some(encode_utf8(k@)), None => None },
                match self.token { Some(t) => Some(encode_utf8(t@)), None => None },
                encode_utf8(m),
            ) {
                Ok(_) => r is Ok,
                Err(msg) => r is Err && r->Err_0@ == msg,
            },
    {
        let token: Option<&str> = match &self.token {
            Some(t) => Some(t.as_str()),
            None => None,
        };
        verify_token(key, token, path, url_parameters)
    }
}

/// Ten to the power `n`.
pub open spec fn pow10(n: nat) -> nat
    decreases n,
{
    if n == 0 {
        1
    } else {
        10 * pow10((n - 1) as nat)
    }
}

/// The largest value of the digits of a pixel ratio.
pub const DPR_MAX_DIGITS_VALUE: u64 = 1000000000000;

/// The pixel ratio that `s` writes, as a fraction `(n, d)`: digits with at
/// most one `.`, at most nine of them after it, and a value of at most
/// `DPR_MAX_DIGITS_VALUE` once the point is dropped.
pub open spec fn dpr_spec(s: Seq<char>) -> Option<(nat, nat)> {
    let p = split_on(s, '.');
    let whole = p[0];
    let frac = if p.len() == 2 { p[1] } else { Seq::<char>::empty() };
    let d = whole + frac;
    if (p.len() == 1 || p.len() == 2) && d.len() > 0 && all_digits(d)
        && digits_value(d) <= DPR_MAX_DIGITS_VALUE && frac.len() <= 9 {
        Some((digits_value(d), pow10(frac.len())))
    } else {
        None
    }
}

/// `n / d` rounded to the nearest integer, halves away from zero.
pub open spec fn round_half_up(n: nat, d: nat) -> nat
    recommends
        d > 0,
{
    (2 * n + d) / (2 * d)
}

/// A requested side multiplied by the pixel ratio, rounded (halves away from
/// zero) and kept within `u16`; unchanged without a valid ratio.
pub open spec fn scale_side(v: Option<u16>, dpr: Option<(nat, nat)>) -> Option<u16> {
    match v {
        None => None,
        Some(x) => match dpr {
            None => Some(x),
            Some((n, d)) => Some(sat16(round_half_up(x as nat * n, d)) as u16),
        },
    }
}

fn pow10_exec(n: usize) -> (r: u64)
    requires
        n <= 9,
    ensures
        r == pow10(n as nat),
        r <= 1000000000,
    decreases n,
{
    if n == 0 {
        1
    } else {
        let p = pow10_exec(n - 1);
        assert(pow10(n as nat) == 10 * pow10((n - 1) as nat));
        assert(pow10((n - 1) as nat) <= 100000000) by {
            lemma_pow10_bound((n - 1) as nat);
        }
        10 * p
    }
}

proof fn lemma_pow10_bound(n: nat)
    requires
        n <= 8,
    ensures
        pow10(n) <= 100000000,
        pow10(n) >= 1,
    decreases n,
{
    if n > 0 {
        lemma_pow10_bound((n - 1) as nat);
        assert(pow10(n) == 10 * pow10((n - 1) as nat));
        if n <= 8 {
            lemma_pow10_le(n);
        }
    }
}

proof fn lemma_pow10_le(n: nat)
    requires
        n <= 8,
    ensures
        pow10(n) <= 100000000,
    decreases n,
{
    reveal_with_fuel(pow10, 9);
}

/// A pixel ratio as the fraction `num / den`.
#[derive(Copy, Clone, Debug, PartialEq, Eq, Structural)]
pub struct Ratio {
    pub num: u64,
    pub den: u64,
}

/// The pixel ratio that `s` writes, as a fraction.
pub fn parse_dpr(s: &Vec<char>) -> (r: Option<Ratio>)
    ensures
        match r {
            Some(x) => dpr_spec(s@) == Some((x.num as nat, x.den as nat)) && x.den > 0
                && x.num <= DPR_MAX_DIGITS_VALUE && x.den <= 1000000000,
            None => dpr_spec(s@) is None,
        },
{
    let p = split_chars(s, '.');
    proof { lemma_split_len(s@, '.'); }
    if p.len() != 1 && p.len() != 2 {
        return None;
    }
    let ghost pv = p.deep_view();
    assert(forall|k: int| 0 <= k < p.len() ==> pv[k] == (#[trigger] p[k])@);
    let mut d: Vec<char> = Vec::new();
    extend_chars(&mut d, &p[0]);
    let flen: usize = if p.len() == 2 { p[1].len() } else { 0 };
    if p.len() == 2 {
        extend_chars(&mut d, &p[1]);
    }
    let ghost frac = if p.len() == 2 { p[1]@ } else { Seq::<char>::empty() };
    assert(d@ =~= p[0]@ + frac);
    if flen > 9 {
        return None;
    }
    assert(d@.subrange(0, d@.len() as int) =~= d@);
    match parse_digits(&d, 0, DPR_MAX_DIGITS_VALUE) {
        Some(n) => {
            let den = pow10_exec(flen);
            proof { if flen > 0 { lemma_pow10_bound((flen - 1) as nat); } }
            Some(Ratio { num: n, den })
        },
        None => None,
    }
}

fn scale_side_exec(v: Option<u16>, dpr: Option<Ratio>) -> (r: Option<u16>)
    requires
        match dpr {
            Some(x) => x.den > 0 && x.num <= DPR_MAX_DIGITS_VALUE && x.den <= 1000000000,
            None => true,
        },
    ensures
        r == scale_side(v, match dpr {
            Some(x) => Some((x.num as nat, x.den as nat)),
            None => None,
        }),
{
    match v {
        None => None,
        Some(x) => match dpr {
            None => Some(x),
            Some(ratio) => {
                let n = ratio.num;
                assert((x as u64) * n <= 65535 * DPR_MAX_DIGITS_VALUE) by (nonlinear_arith)
                    requires x <= 65535, n <= DPR_MAX_DIGITS_VALUE;
                let m = (x as u64) * n;
                let d = ratio.den;
                let y = (2 * m + d) / (2 * d);
                Some(if y > 65535 { 65535 } else { y as u16 })
            },
        },
    }
}

/// The pixel ratio of a request: none where it is absent or unreadable, so
/// that sizes stay as requested.
pub open spec fn request_dpr(raw: &RawUrlParameters) -> Option<(nat, nat)> {
    match raw.dpr {
        Some(t) => dpr_spec(t@),
        None => None,
    }
}

impl UrlParameters {
    /// The typed request for the source `path` from its raw parameters; each
    /// field that does not parse takes its default.
    pub fn new(path: &str, value: RawUrlParameters) -> (r: UrlParameters)
        ensures
            r.path@ == path@,
            r.width == scale_side(value.w, request_dpr(&value)),
            r.height == scale_side(value.h, request_dpr(&value)),
            r.quality == match value.q {
                Some(q) => Quality::Custom(if q < 1 { 1u8 } else if q > 100 { 100u8 } else { q }),
                None => Quality::Default,
            },
            r.crop == match value.crop {
                Some(v) => crop_spec(v@),
                None => None,
            },
            r.thumbnail.page == Some(match value.thumb {
                Some(v) => page_of_items(split_on(v@, ',')),
                None => 1u32,
            }),
            r.original == match value.original {
                Some(b) => b,
                None => false,
            },
            r.rotate == match value.rot {
                Some(v) => rotate_spec(v@),
                None => Rotate::No,
            },
            r.background == match value.bg {
                Some(v) => background_spec(v@),
                None => None,
            },
            r.format == match value.f {
                Some(v) => format_spec(v@),
                None => Format::Auto,
            },
    {
        let dpr = match &value.dpr {
            Some(t) => parse_dpr(&chars_of(t.as_str())),
            None => None,
        };
        UrlParameters {
            path: string_of(&chars_of(path)),
            width: scale_side_exec(value.w, dpr),
            height: scale_side_exec(value.h, dpr),
            quality: Quality::from(value.q),
            crop: Crop::from(&value.crop),
            thumbnail: Thumbnail::from(&value.thumb),
            original: match value.original {
                Some(b) => b,
                None => false,
            },
            rotate: Rotate::from(&value.rot),
            background: Background::from(&value.bg),
            format: Format::from(&value.f),
        }
    }
}

} // verus!
