//! Character-level helpers shared by the parameter parsers and the cache.

use vstd::prelude::*;
use vstd::string::*;

verus! {

/// Relies on `String::push`: the character is appended at the end.
#[verifier::external_body]
pub(crate) fn push_char(s: &mut String, c: char)
    ensures
        final(s)@ == old(s)@.push(c),
{
    s.push(c);
}

/// The characters of `s`, in order.
pub fn chars_of(s: &str) -> (r: Vec<char>)
    ensures
        r@ == s@,
{
    let n = s.unicode_len();
    let mut v: Vec<char> = Vec::new();
    let mut i: usize = 0;
    while i < n
        invariant
            n == s@.len(),
            i <= n,
            v@ == s@.subrange(0, i as int),
        decreases n - i,
    {
        v.push(s.get_char(i));
        i += 1;
    }
    assert(v@ =~= s@);
    v
}

/// A string holding exactly the characters `c`.
pub fn string_of(c: &Vec<char>) -> (r: String)
    ensures
        r@ == c@,
{
    let mut s = String::new();
    let mut i: usize = 0;
    while i < c.len()
        invariant
            i <= c.len(),
            s@ == c@.subrange(0, i as int),
        decreases c.len() - i,
    {
        push_char(&mut s, c[i]);
        i += 1;
    }
    assert(s@ =~= c@);
    s
}

/// Appends the characters of `t` to `s`.
pub fn extend_chars(s: &mut Vec<char>, t: &Vec<char>)
    ensures
        final(s)@ == old(s)@ + t@,
{
    let mut i: usize = 0;
    while i < t.len()
        invariant
            i <= t.len(),
            s@ == old(s)@ + t@.subrange(0, i as int),
        decreases t.len() - i,
    {
        s.push(t[i]);
        i += 1;
    }
    assert(t@.subrange(0, t.len() as int) =~= t@);
}

/// Appends the characters of the literal `t` to `s`.
pub fn extend_str(s: &mut Vec<char>, t: &str)
    ensures
        final(s)@ == old(s)@ + t@,
{
    let tc = chars_of(t);
    extend_chars(s, &tc);
}

/// Whether the characters `a` spell out `b`.
pub fn eq_str(a: &Vec<char>, b: &str) -> (r: bool)
    ensures
        r == (a@ == b@),
{
    let n = b.unicode_len();
    if a.len() != n {
        return false;
    }
    let mut i: usize = 0;
    while i < n
        invariant
            n == b@.len(),
            n == a@.len(),
            i <= n,
            a@.subrange(0, i as int) == b@.subrange(0, i as int),
        decreases n - i,
    {
        if a[i] != b.get_char(i) {
            assert(a@[i as int] != b@[i as int]);
            return false;
        }
        assert(a@.subrange(0, i + 1) =~= a@.subrange(0, i as int).push(a@[i as int]));
        assert(b@.subrange(0, i + 1) =~= b@.subrange(0, i as int).push(b@[i as int]));
        i += 1;
    }
    assert(a@ =~= a@.subrange(0, n as int));
    assert(b@ =~= b@.subrange(0, n as int));
    true
}

/// Whether the two character sequences are equal.
pub fn eq_chars(a: &Vec<char>, b: &Vec<char>) -> (r: bool)
    ensures
        r == (a@ == b@),
{
    if a.len() != b.len() {
        return false;
    }
    let mut i: usize = 0;
    while i < a.len()
        invariant
            a.len() == b.len(),
            i <= a.len(),
            a@.subrange(0, i as int) == b@.subrange(0, i as int),
        decreases a.len() - i,
    {
        if a[i] != b[i] {
            assert(a@[i as int] != b@[i as int]);
            return false;
        }
        assert(a@.subrange(0, i + 1) =~= a@.subrange(0, i as int).push(a@[i as int]));
        assert(b@.subrange(0, i + 1) =~= b@.subrange(0, i as int).push(b@[i as int]));
        i += 1;
    }
    assert(a@ =~= a@.subrange(0, a.len() as int));
    assert(b@ =~= b@.subrange(0, b.len() as int));
    true
}


/// The pieces of `s` between occurrences of `sep`, as `str::split` yields
/// them: `s` itself when `sep` does not occur, and an empty piece at each end
/// where `s` starts or ends with `sep`.
pub open spec fn split_on(s: Seq<char>, sep: char) -> Seq<Seq<char>>
    decreases s.len(),
{
    if s.len() == 0 {
        seq![Seq::<char>::empty()]
    } else {
        let prev = split_on(s.drop_last(), sep);
        if s.last() == sep {
            prev.push(Seq::<char>::empty())
        } else {
            prev.update(prev.len() - 1, prev.last().push(s.last()))
        }
    }
}

/// There is always at least one piece, and never more than one more than
/// there are characters.
pub proof fn lemma_split_len(s: Seq<char>, sep: char)
    ensures
        1 <= split_on(s, sep).len() <= s.len() + 1,
    decreases s.len(),
{
    if s.len() > 0 {
        lemma_split_len(s.drop_last(), sep);
    }
}

proof fn lemma_push_deep(before: Vec<Vec<char>>, after: Vec<Vec<char>>, x: Vec<char>)
    requires
        after@ == before@.push(x),
    ensures
        after.deep_view() == before.deep_view().push(x@),
{
    assert(x.deep_view() =~= x@);
    assert(after.deep_view() =~= before.deep_view().push(x@));
}

/// `s` cut at each `sep`.
pub fn split_chars(s: &Vec<char>, sep: char) -> (r: Vec<Vec<char>>)
    ensures
        r.deep_view() == split_on(s@, sep),
{
    let mut parts: Vec<Vec<char>> = Vec::new();
    let mut cur: Vec<char> = Vec::new();
    let mut i: usize = 0;
    assert(s@.subrange(0, 0) =~= Seq::<char>::empty());
    assert(parts.deep_view().push(cur@) =~= split_on(Seq::<char>::empty(), sep));
    while i < s.len()
        invariant
            i <= s.len(),
            parts.deep_view().push(cur@) == split_on(s@.subrange(0, i as int), sep),
        decreases s.len() - i,
    {
        let ghost pre = s@.subrange(0, i as int);
        let ghost nxt = s@.subrange(0, i + 1);
        assert(nxt.drop_last() =~= pre);
        assert(nxt.last() == s@[i as int]);
        proof { lemma_split_len(pre, sep); }
        let ghost old_parts = parts;
        if s[i] == sep {
            let ghost moved = cur;
            parts.push(cur);
            cur = Vec::new();
            proof { lemma_push_deep(old_parts, parts, moved); }
            assert(parts.deep_view().push(cur@) =~= split_on(nxt, sep));
        } else {
            let ghost old_cur = cur@;
            cur.push(s[i]);
            assert(parts.deep_view().push(cur@) =~= split_on(nxt, sep));
        }
        i += 1;
    }
    assert(s@.subrange(0, s.len() as int) =~= s@);
    let ghost before = parts;
    let ghost last = cur;
    parts.push(cur);
    proof { lemma_push_deep(before, parts, last); }
    parts
}

/// Whether `w` occurs in `s` as a contiguous run starting at `i`.
pub open spec fn occurs_at(s: Seq<char>, w: Seq<char>, i: int) -> bool {
    0 <= i && i + w.len() <= s.len() && s.subrange(i, i + w.len()) == w
}

/// Whether `w` occurs anywhere in `s`.
pub open spec fn contains_seq(s: Seq<char>, w: Seq<char>) -> bool {
    exists|i: int| occurs_at(s, w, i)
}

/// Whether the characters `w` start at position `i` of `s`.
fn matches_at(s: &Vec<char>, w: &Vec<char>, i: usize) -> (r: bool)
    requires
        i + w.len() <= s.len(),
    ensures
        r == occurs_at(s@, w@, i as int),
{
    let mut j: usize = 0;
    while j < w.len()
        invariant
            i + w.len() <= s.len(),
            j <= w.len(),
            s@.subrange(i as int, i + j) == w@.subrange(0, j as int),
        decreases w.len() - j,
    {
        if s[i + j] != w[j] {
            assert(s@.subrange(i as int, i + w.len())[j as int] != w@[j as int]);
            return false;
        }
        assert(s@.subrange(i as int, i + j + 1) =~= s@.subrange(i as int, i + j).push(s@[i + j]));
        assert(w@.subrange(0, j + 1) =~= w@.subrange(0, j as int).push(w@[j as int]));
        j += 1;
    }
    assert(w@.subrange(0, w.len() as int) =~= w@);
    true
}

/// Whether `w` occurs in `s`.
pub fn contains_chars(s: &Vec<char>, w: &Vec<char>) -> (r: bool)
    ensures
        r == contains_seq(s@, w@),
{
    if w.len() > s.len() {
        assert forall|k: int| !occurs_at(s@, w@, k) by {}
        return false;
    }
    let last = s.len() - w.len();
    let mut i: usize = 0;
    while i <= last
        invariant
            last == s.len() - w.len(),
            w.len() <= s.len(),
            i <= last + 1,
            forall|k: int| 0 <= k < i ==> !occurs_at(s@, w@, k),
        decreases last + 1 - i,
    {
        if matches_at(s, w, i) {
            return true;
        }
        if i == last {
            assert forall|k: int| !occurs_at(s@, w@, k) by {
                if 0 <= k <= i {
                }
            }
            return false;
        }
        i += 1;
    }
    assert forall|k: int| !occurs_at(s@, w@, k) by {
        if 0 <= k < i {
        }
    }
    false
}

/// Whether `s` ends with `w`.
pub open spec fn ends_with_seq(s: Seq<char>, w: Seq<char>) -> bool {
    w.len() <= s.len() && s.subrange(s.len() - w.len(), s.len() as int) == w
}

/// Whether `s` ends with the literal `w`.
pub fn ends_with_str(s: &Vec<char>, w: &str) -> (r: bool)
    ensures
        r == ends_with_seq(s@, w@),
{
    let wc = chars_of(w);
    if wc.len() > s.len() {
        return false;
    }
    matches_at(s, &wc, s.len() - wc.len())
}

/// The value of a decimal digit.
pub open spec fn digit_value(c: char) -> nat {
    (c as nat - '0' as nat) as nat
}

/// Whether `c` is one of `0` to `9`.
pub open spec fn is_digit(c: char) -> bool {
    '0' <= c && c <= '9'
}

/// Whether `s` is made of decimal digits only.
pub open spec fn all_digits(s: Seq<char>) -> bool {
    forall|i: int| 0 <= i < s.len() ==> is_digit(#[trigger] s[i])
}

/// The number that the digits `s` spell, most significant first.
pub open spec fn digits_value(s: Seq<char>) -> nat
    decreases s.len(),
{
    if s.len() == 0 {
        0
    } else {
        digits_value(s.drop_last()) * 10 + digit_value(s.last())
    }
}

/// The magnitude that `s` writes as an unsigned integer literal, in the form
/// that `u64::from_str` accepts: an optional `+`, then at least one digit.
pub open spec fn unsigned_text(s: Seq<char>) -> Option<nat> {
    let d = if s.len() > 0 && s[0] == '+' { s.drop_first() } else { s };
    if d.len() > 0 && all_digits(d) {
        Some(digits_value(d))
    } else {
        None
    }
}

/// What parsing `s` as an unsigned integer no larger than `max` gives.
pub open spec fn parse_unsigned_spec(s: Seq<char>, max: nat) -> Option<nat> {
    match unsigned_text(s) {
        Some(v) => if v <= max { Some(v) } else { None },
        None => None,
    }
}

proof fn lemma_digits_grow(s: Seq<char>, c: char)
    requires
        is_digit(c),
    ensures
        digits_value(s.push(c)) >= digits_value(s),
        digits_value(s.push(c)) == digits_value(s) * 10 + digit_value(c),
{
    assert(s.push(c).drop_last() =~= s);
}

proof fn lemma_digits_monotone(s: Seq<char>, t: Seq<char>)
    requires
        all_digits(t),
    ensures
        digits_value(s + t) >= digits_value(s),
    decreases t.len(),
{
    if t.len() > 0 {
        let t0 = t.drop_last();
        assert(all_digits(t0)) by {
            assert forall|i: int| 0 <= i < t0.len() implies is_digit(#[trigger] t0[i]) by {
                assert(t0[i] == t[i]);
            }
        }
        lemma_digits_monotone(s, t0);
        assert((s + t0).push(t.last()) =~= s + t);
        assert(is_digit(t[t.len() - 1]));
        lemma_digits_grow(s + t0, t.last());
    } else {
        assert(s + t =~= s);
    }
}

/// Parses the digits of `s` from position `start` as a number no larger than
/// `max`.
pub fn parse_digits(s: &Vec<char>, start: usize, max: u64) -> (r: Option<u64>)
    requires
        start <= s.len(),
        max <= 1000000000000000000,
    ensures
        r == (if s@.len() > start && all_digits(s@.subrange(start as int, s@.len() as int))
            && digits_value(s@.subrange(start as int, s@.len() as int)) <= max {
            Some(digits_value(s@.subrange(start as int, s@.len() as int)) as u64)
        } else {
            None::<u64>
        }),
{
    let ghost d = s@.subrange(start as int, s@.len() as int);
    if start == s.len() {
        return None;
    }
    let mut acc: u64 = 0;
    let mut i: usize = start;
    assert(s@.subrange(start as int, start as int) =~= Seq::<char>::empty());
    while i < s.len()
        invariant
            start < s.len(),
            start <= i <= s.len(),
            max <= 1000000000000000000,
            d == s@.subrange(start as int, s@.len() as int),
            all_digits(s@.subrange(start as int, i as int)),
            acc == digits_value(s@.subrange(start as int, i as int)),
            acc <= max,
        decreases s.len() - i,
    {
        let c = s[i];
        let ghost pre = s@.subrange(start as int, i as int);
        assert(s@.subrange(start as int, i + 1) =~= pre.push(c));
        if !('0' <= c && c <= '9') {
            assert(d[i - start] == c);
            return None;
        }
        proof { lemma_digits_grow(pre, c); }
        let v = acc * 10 + (c as u64 - '0' as u64);
        if v > max {
            proof {
                let rest = s@.subrange(i + 1, s@.len() as int);
                assert(d =~= pre.push(c) + rest);
                if all_digits(d) {
                    assert(all_digits(rest)) by {
                        assert forall|k: int| 0 <= k < rest.len() implies is_digit(#[trigger] rest[k]) by {
                            assert(rest[k] == d[k + i + 1 - start]);
                        }
                    }
                    lemma_digits_monotone(pre.push(c), rest);
                }
            }
            return None;
        }
        acc = v;
        i += 1;
        assert(all_digits(s@.subrange(start as int, i as int))) by {
            let q = s@.subrange(start as int, i as int);
            assert forall|k: int| 0 <= k < q.len() implies is_digit(#[trigger] q[k]) by {
                if k < q.len() - 1 {
                    assert(q[k] == pre[k]);
                }
            }
        }
    }
    Some(acc)
}

/// Parses `s` as an unsigned integer no larger than `max`, as
/// `u8::from_str`, `u16::from_str` or `u32::from_str` do for their maxima.
/// The bound on `max` keeps the digits of a 64-bit value apart from
/// overflow.
pub fn parse_unsigned(s: &Vec<char>, max: u64) -> (r: Option<u64>)
    requires
        max <= 1000000000000000000,
    ensures
        r.is_some() == parse_unsigned_spec(s@, max as nat).is_some(),
        r.is_some() ==> r.unwrap() as nat == parse_unsigned_spec(s@, max as nat).unwrap(),
{
    let start: usize = if s.len() > 0 && s[0] == '+' { 1 } else { 0 };
    let ghost d = if s@.len() > 0 && s@[0] == '+' { s@.drop_first() } else { s@ };
    assert(d =~= s@.subrange(start as int, s@.len() as int));
    parse_digits(s, start, max)
}

/// What parsing `s` as an `i16` gives: an optional sign, then at least one
/// digit, within the range of the type.
pub open spec fn parse_i16_spec(s: Seq<char>) -> Option<int> {
    if s.len() > 0 && s[0] == '-' {
        let d = s.drop_first();
        if d.len() > 0 && all_digits(d) && digits_value(d) <= 32768 {
            Some(-(digits_value(d) as int))
        } else {
            None
        }
    } else {
        match parse_unsigned_spec(s, 32767) {
            Some(v) => Some(v as int),
            None => None,
        }
    }
}

/// Parses `s` as `i16::from_str` does.
pub fn parse_i16(s: &Vec<char>) -> (r: Option<i16>)
    ensures
        r.is_some() == parse_i16_spec(s@).is_some(),
        r.is_some() ==> r.unwrap() as int == parse_i16_spec(s@).unwrap(),
{
    if s.len() > 0 && s[0] == '-' {
        assert(s@.drop_first() =~= s@.subrange(1, s@.len() as int));
        match parse_digits(s, 1, 32768) {
            Some(v) => Some((0 - v as i32) as i16),
            None => None,
        }
    } else {
        match parse_unsigned(s, 32767) {
            Some(v) => Some(v as i16),
            None => None,
        }
    }
}

/// The decimal digits of `n`, most significant first, without leading zeros
/// (`0` for zero).
pub open spec fn decimal(n: nat) -> Seq<char>
    decreases n,
{
    if n < 10 {
        seq![digit_char(n)]
    } else {
        decimal(n / 10).push(digit_char(n % 10))
    }
}

/// The digit character for a value below ten.
pub open spec fn digit_char(d: nat) -> char {
    if d == 0 {
        '0'
    } else if d == 1 {
        '1'
    } else if d == 2 {
        '2'
    } else if d == 3 {
        '3'
    } else if d == 4 {
        '4'
    } else if d == 5 {
        '5'
    } else if d == 6 {
        '6'
    } else if d == 7 {
        '7'
    } else if d == 8 {
        '8'
    } else {
        '9'
    }
}

/// The digit character for a value below ten.
fn digit_to_char(d: u64) -> (r: char)
    requires
        d < 10,
    ensures
        r == digit_char(d as nat),
{
    if d == 0 {
        '0'
    } else if d == 1 {
        '1'
    } else if d == 2 {
        '2'
    } else if d == 3 {
        '3'
    } else if d == 4 {
        '4'
    } else if d == 5 {
        '5'
    } else if d == 6 {
        '6'
    } else if d == 7 {
        '7'
    } else if d == 8 {
        '8'
    } else {
        '9'
    }
}

/// The decimal rendering of `n`, as `u64::to_string` writes it.
pub fn decimal_chars(n: u64) -> (r: Vec<char>)
    ensures
        r@ == decimal(n as nat),
    decreases n,
{
    if n < 10 {
        let c = digit_to_char(n);
        let mut v: Vec<char> = Vec::new();
        v.push(c);
        assert(v@ =~= seq![digit_char(n as nat)]);
        v
    } else {
        let mut v = decimal_chars(n / 10);
        let c = digit_to_char(n % 10);
        v.push(c);
        v
    }
}


/// What `str::to_lowercase` makes of a text.
pub uninterp spec fn lower_of(s: Seq<char>) -> Seq<char>;

/// Relies on `str::to_lowercase`: the result depends on the characters alone,
/// and the empty text stays empty.
#[verifier::external_body]
pub(crate) fn lowercase(s: &str) -> (r: String)
    ensures
        r@ == lower_of(s@),
        s@.len() == 0 ==> r@.len() == 0,
{
    s.to_lowercase()
}

/// The position of the last `c` in `s`, or -1 where there is none.
pub open spec fn last_index_of(s: Seq<char>, c: char) -> int
    decreases s.len(),
{
    if s.len() == 0 {
        -1
    } else if s.last() == c {
        s.len() - 1
    } else {
        last_index_of(s.drop_last(), c)
    }
}

pub proof fn lemma_last_index_bounds(s: Seq<char>, c: char)
    ensures
        -1 <= last_index_of(s, c) < s.len(),
        last_index_of(s, c) >= 0 ==> s[last_index_of(s, c)] == c,
        forall|k: int| last_index_of(s, c) < k < s.len() ==> s[k] != c,
    decreases s.len(),
{
    if s.len() > 0 && s.last() != c {
        lemma_last_index_bounds(s.drop_last(), c);
        let p = s.drop_last();
        assert forall|k: int| last_index_of(s, c) < k < s.len() implies s[k] != c by {
            if k < s.len() - 1 {
                assert(s[k] == p[k]);
            }
        }
    }
}

/// The position of the last `c` in `s`, if any.
pub fn find_last(s: &Vec<char>, c: char) -> (r: Option<usize>)
    ensures
        r is None ==> last_index_of(s@, c) == -1,
        r is Some ==> r->0 == last_index_of(s@, c),
{
    let mut i: usize = s.len();
    assert(s@.subrange(0, i as int) =~= s@);
    while i > 0
        invariant
            i <= s.len(),
            last_index_of(s@, c) == last_index_of(s@.subrange(0, i as int), c),
        decreases i,
    {
        let ghost pre = s@.subrange(0, i as int);
        assert(pre.drop_last() =~= s@.subrange(0, i - 1));
        if s[i - 1] == c {
            return Some(i - 1);
        }
        i -= 1;
    }
    None
}

/// The characters of `s` from `from` up to `to`.
pub fn slice_chars(s: &Vec<char>, from: usize, to: usize) -> (r: Vec<char>)
    requires
        from <= to <= s.len(),
    ensures
        r@ == s@.subrange(from as int, to as int),
{
    let mut v: Vec<char> = Vec::new();
    let mut i: usize = from;
    while i < to
        invariant
            from <= i <= to,
            to <= s.len(),
            v@ == s@.subrange(from as int, i as int),
        decreases to - i,
    {
        v.push(s[i]);
        i += 1;
    }
    v
}

} // verus!
