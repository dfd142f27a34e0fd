//! The content-addressed derivative cache: where a derivative lives, whether
//! it is still fresh, its index record, and what the periodic buster removes.

use vstd::prelude::*;
use crate::crypto::{hash_value, text_hash};
use crate::formats::{output_extension, OutputFormat};
use crate::parameters::UrlParameters;
use crate::text::{
    chars_of, decimal, decimal_chars, ends_with_seq, ends_with_str, eq_chars, extend_chars,
    extend_str, find_last, last_index_of, lemma_last_index_bounds, parse_unsigned, parse_unsigned_spec,
    slice_chars, string_of,
};

verus! {

/// `d` left-padded with zeros to at least six characters.
pub open spec fn pad6(d: Seq<char>) -> Seq<char>
    decreases 6 - d.len(),
{
    if d.len() >= 6 {
        d
    } else {
        pad6(seq!['0'] + d)
    }
}

/// `<root>/<h0>/<h1>/<h2>/<name>.<ext>`, where `h0`, `h1` and `h2` are the
/// first three pairs of digits of the request hash, zero-padded to six.
pub open spec fn cache_path_spec(root: Seq<char>, params_hash: u64, path_hash: u64, ext: Seq<char>) -> Seq<char> {
    let d = pad6(decimal(params_hash as nat));
    root + seq!['/'] + d.subrange(0, 2) + seq!['/'] + d.subrange(2, 4) + seq!['/'] + d.subrange(4, 6)
        + seq!['/'] + decimal(path_hash as nat) + seq!['.'] + ext
}

fn pad6_exec(d: Vec<char>) -> (r: Vec<char>)
    ensures
        r@ == pad6(d@),
        r@.len() >= 6,
    decreases 6 - d.len(),
{
    if d.len() >= 6 {
        d
    } else {
        let mut z: Vec<char> = Vec::new();
        z.push('0');
        extend_chars(&mut z, &d);
        pad6_exec(z)
    }
}

/// The directory of the cache path for the request hash `params_hash`.
fn bucket(root: &str, params_hash: u64) -> (r: Vec<char>)
    ensures
        ({
            let d = pad6(decimal(params_hash as nat));
            r@ == root@ + seq!['/'] + d.subrange(0, 2) + seq!['/'] + d.subrange(2, 4) + seq!['/']
                + d.subrange(4, 6)
        }),
{
    let d = pad6_exec(decimal_chars(params_hash));
    let mut r = chars_of(root);
    r.push('/');
    extend_chars(&mut r, &slice_chars(&d, 0, 2));
    r.push('/');
    extend_chars(&mut r, &slice_chars(&d, 2, 4));
    r.push('/');
    extend_chars(&mut r, &slice_chars(&d, 4, 6));
    r
}

/// The path of a cached file from its hashes.
pub fn cache_path(root: &str, params_hash: u64, path_hash: u64, ext: &str) -> (r: String)
    ensures
        r@ == cache_path_spec(root@, params_hash, path_hash, ext@),
{
    let mut r = bucket(root, params_hash);
    r.push('/');
    extend_chars(&mut r, &decimal_chars(path_hash));
    r.push('.');
    extend_str(&mut r, ext);
    string_of(&r)
}

/// The directory that holds the derivatives of a request: the directory
/// part of its cache path, which the caller creates before writing.
pub fn bucket_directory(root: &str, serialized: &str) -> (r: String)
    ensures
        ({
            let d = pad6(decimal(text_hash(serialized@) as nat));
            r@ == root@ + seq!['/'] + d.subrange(0, 2) + seq!['/'] + d.subrange(2, 4) + seq!['/']
                + d.subrange(4, 6)
        }),
{
    string_of(&bucket(root, hash_value(serialized)))
}

/// Where the derivative of a request in `output_format` lives under `root`:
/// sharded by the hash of the request's serialization `serialized`, named by
/// the hash of its source path.
pub fn get_path_from_url_parameters(root: &str, serialized: &str, url_parameters: &UrlParameters, output_format: &OutputFormat) -> (r: String)
    ensures
        r@ == cache_path_spec(root@, text_hash(serialized@),
            text_hash(url_parameters.path@), output_extension(*output_format)),
{
    let ext = output_format.to_string();
    cache_path(root, hash_value(serialized), hash_value(url_parameters.path.as_str()), ext.as_str())
}

/// Where the PDF that a document is converted to lives under `root`.
pub fn get_document_path_from_url_parameters(root: &str, serialized: &str, url_parameters: &UrlParameters) -> (r: String)
    ensures
        r@ == cache_path_spec(root@, text_hash(serialized@),
            text_hash(url_parameters.path@), output_extension(OutputFormat::Pdf)),
{
    get_path_from_url_parameters(root, serialized, url_parameters, &OutputFormat::Pdf)
}

/// The modification and change times of a file, in seconds.
#[derive(Copy, Clone, Debug, PartialEq, Eq, Structural)]
pub struct FileTimes {
    pub mtime: i64,
    pub ctime: i64,
}

/// The later of a file's two times.
pub open spec fn latest(t: FileTimes) -> i64 {
    if t.mtime >= t.ctime {
        t.mtime
    } else {
        t.ctime
    }
}

impl FileTimes {
    /// The later of the two times.
    pub fn latest(&self) -> (r: i64)
        ensures
            r == latest(*self),
    {
        if self.mtime >= self.ctime {
            self.mtime
        } else {
            self.ctime
        }
    }
}

/// The state of a cached derivative against its source.
#[derive(Copy, Clone, Debug, PartialEq, Eq, Structural)]
pub enum Freshness {
    /// No cached file.
    Missing,
    /// The cached file can be served.
    Fresh,
    /// The source changed after the cached file was written; the cached file
    /// is to be removed.
    Stale,
}

/// A cached file is fresh unless its source changed after it was written;
/// with the source gone it is served as it is.
pub open spec fn freshness_spec(cached: Option<FileTimes>, source: Option<FileTimes>) -> Freshness {
    match (cached, source) {
        (None, _) => Freshness::Missing,
        (Some(_), None) => Freshness::Fresh,
        (Some(c), Some(s)) => if latest(c) < latest(s) { Freshness::Stale } else { Freshness::Fresh },
    }
}

/// The state of a cached file with times `cached` (none where it does not
/// exist) against its source with times `source` (none where it cannot be
/// read).
pub fn freshness(cached: Option<FileTimes>, source: Option<FileTimes>) -> (r: Freshness)
    ensures
        r == freshness_spec(cached, source),
{
    match (cached, source) {
        (None, _) => Freshness::Missing,
        (Some(_), None) => Freshness::Fresh,
        (Some(c), Some(s)) => if c.latest() < s.latest() { Freshness::Stale } else { Freshness::Fresh },
    }
}

/// Whether a cached file can be served.
pub fn is_cached(cached: Option<FileTimes>, source: Option<FileTimes>) -> (r: bool)
    ensures
        r == (freshness_spec(cached, source) == Freshness::Fresh),
{
    freshness(cached, source) == Freshness::Fresh
}

/// A derivative written no earlier than its source last changed is fresh,
/// so `is_cached` holds of it and `freshness` does not mark it for removal.
pub proof fn lemma_written_after_source_is_fresh(cached: FileTimes, source: Option<FileTimes>)
    requires
        source is Some ==> latest(cached) >= latest(source->0),
    ensures
        freshness_spec(Some(cached), source) == Freshness::Fresh,
{
}

/// The start of the file name within `p`: just after its last `/`.
pub open spec fn name_start(p: Seq<char>) -> int {
    last_index_of(p, '/') + 1
}

/// The file name of `p` without its final extension; the whole name where
/// it has no `.` but at its start; none for an empty name or `..`.
pub open spec fn file_stem_of(p: Seq<char>) -> Option<Seq<char>> {
    let n = p.subrange(name_start(p), p.len() as int);
    let d = last_index_of(n, '.');
    if n.len() == 0 || n == seq!['.', '.'] {
        None
    } else if d <= 0 {
        Some(n)
    } else {
        Some(n.subrange(0, d))
    }
}

/// The index record beside the file `p`: same directory, same stem,
/// extension `index`.
pub open spec fn index_path_spec(p: Seq<char>) -> Seq<char> {
    let n = p.subrange(name_start(p), p.len() as int);
    let d = last_index_of(n, '.');
    let stem = if d <= 0 { n } else { n.subrange(0, d) };
    p.subrange(0, name_start(p)) + stem + "index"@.insert(0, '.')
}

fn name_start_exec(p: &Vec<char>) -> (r: usize)
    ensures
        r == name_start(p@),
        r <= p.len(),
{
    proof { lemma_last_index_bounds(p@, '/'); }
    let n = p.len();
    match find_last(p, '/') {
        Some(k) => {
            assert(k < n);
            k + 1
        },
        None => 0,
    }
}

fn stem_chars(p: &Vec<char>) -> (r: Option<Vec<char>>)
    ensures
        r is Some == file_stem_of(p@) is Some,
        r is Some ==> r->0@ == file_stem_of(p@)->0,
{
    let s = name_start_exec(p);
    let n = slice_chars(p, s, p.len());
    proof { lemma_last_index_bounds(n@, '.'); }
    let two_dots = n.len() == 2 && n[0] == '.' && n[1] == '.';
    assert(two_dots == (n@ == seq!['.', '.'])) by {
        if n@ == seq!['.', '.'] {
            assert(n@[0] == '.' && n@[1] == '.');
        }
        if two_dots {
            assert(n@ =~= seq!['.', '.']);
        }
    }
    if n.len() == 0 || two_dots {
        return None;
    }
    match find_last(&n, '.') {
        Some(d) => if d == 0 { Some(n) } else { Some(slice_chars(&n, 0, d)) },
        None => Some(n),
    }
}

/// The stem of the file `path`.
pub fn file_stem(path: &str) -> (r: Option<String>)
    ensures
        r is Some == file_stem_of(path@) is Some,
        r is Some ==> r->0@ == file_stem_of(path@)->0,
{
    match stem_chars(&chars_of(path)) {
        Some(s) => Some(string_of(&s)),
        None => None,
    }
}

proof fn lemma_last_index_concat(a: Seq<char>, b: Seq<char>, c: char)
    requires
        forall|i: int| 0 <= i < b.len() ==> b[i] != c,
    ensures
        last_index_of(a + b, c) == last_index_of(a, c),
    decreases b.len(),
{
    if b.len() == 0 {
        assert(a + b =~= a);
    } else {
        assert((a + b).drop_last() =~= a + b.drop_last());
        assert((a + b).last() == b.last());
        lemma_last_index_concat(a, b.drop_last(), c);
    }
}

/// The index record of a derivative has the derivative's stem, so that the
/// buster, which removes by stem, removes both together.
pub proof fn lemma_index_shares_stem(p: Seq<char>)
    requires
        file_stem_of(p) is Some,
    ensures
        file_stem_of(index_path_spec(p)) == file_stem_of(p),
{
    let s0 = name_start(p);
    lemma_last_index_bounds(p, '/');
    let n = p.subrange(s0, p.len() as int);
    let d = last_index_of(n, '.');
    lemma_last_index_bounds(n, '.');
    let stem = if d <= 0 { n } else { n.subrange(0, d) };
    let ext = "index"@.insert(0, '.');
    reveal_strlit("index");
    let prefix = p.subrange(0, s0);
    let q = index_path_spec(p);
    assert(q == prefix + stem + ext);
    assert forall|i: int| 0 <= i < n.len() implies n[i] != '/' by {
        assert(n[i] == p[s0 + i]);
    }
    assert(forall|i: int| 0 <= i < ext.len() ==> ext[i] != '/');
    assert forall|i: int| 0 <= i < stem.len() implies stem[i] != '/' by {
        assert(stem[i] == n[i]);
    }
    let tail = stem + ext;
    assert forall|i: int| 0 <= i < tail.len() implies tail[i] != '/' by {
        if i < stem.len() {
            assert(tail[i] == stem[i]);
        } else {
            assert(tail[i] == ext[i - stem.len()]);
        }
    }
    assert(q =~= prefix + tail);
    lemma_last_index_concat(prefix, tail, '/');
    if s0 > 0 {
        assert(prefix.drop_last() =~= p.subrange(0, s0 - 1));
        assert(prefix.last() == '/');
    } else {
        assert(prefix =~= Seq::<char>::empty());
    }
    assert(name_start(q) == s0);
    assert(q.subrange(s0, q.len() as int) =~= tail);
    assert(ext =~= seq!['.'] + "index"@);
    assert(forall|i: int| 0 <= i < "index"@.len() ==> "index"@[i] != '.');
    assert(tail =~= (stem + seq!['.']) + "index"@);
    lemma_last_index_concat(stem + seq!['.'], "index"@, '.');
    assert((stem + seq!['.']).drop_last() =~= stem);
    assert(last_index_of(tail, '.') == stem.len());
    assert(tail.subrange(0, stem.len() as int) =~= stem);
    assert(n.len() > 0);
    if d > 0 {
        assert(stem.len() > 0);
    }
    if tail == seq!['.', '.'] {
        assert(tail.len() == 2);
        assert(false);
    }
}

/// An index record: the file to write and what it holds.
#[derive(Debug, PartialEq, Eq)]
pub struct IndexRecord {
    pub path: String,
    pub content: String,
}

/// The index record of the derivative at `cache_path`, made from the
/// source `file_path`: beside the derivative, with the same stem, holding
/// the source's path.
pub fn index(cache_path: &str, file_path: &str) -> (r: IndexRecord)
    ensures
        r.path@ == index_path_spec(cache_path@),
        r.content@ == file_path@,
{
    let p = chars_of(cache_path);
    let s = name_start_exec(&p);
    let n = slice_chars(&p, s, p.len());
    proof { lemma_last_index_bounds(n@, '.'); }
    let stem = match find_last(&n, '.') {
        Some(d) => if d == 0 { n } else { slice_chars(&n, 0, d) },
        None => n,
    };
    let mut r = slice_chars(&p, 0, s);
    extend_chars(&mut r, &stem);
    r.push('.');
    extend_str(&mut r, "index");
    proof { reveal_strlit("index"); }
    assert(r@ =~= index_path_spec(cache_path@));
    IndexRecord { path: string_of(&r), content: string_of(&chars_of(file_path)) }
}


/// Whether a file name ends in `.index`.
pub fn is_index_file(name: &str) -> (r: bool)
    ensures
        r == ends_with_seq(name@, "index"@.insert(0, '.')),
{
    let n = chars_of(name);
    let mut w: Vec<char> = Vec::new();
    w.push('.');
    extend_str(&mut w, "index");
    proof { reveal_strlit("index"); }
    assert(w@ =~= "index"@.insert(0, '.'));
    let wt = string_of(&w);
    ends_with_str(&n, wt.as_str())
}

/// One index record that the buster's scan found.
#[derive(Debug, PartialEq, Eq)]
pub struct IndexEntry {
    /// Where the index record lies.
    pub path: String,
    /// The times of the source that it names, where that source can be read.
    pub source_times: Option<FileTimes>,
    /// The times of the index record itself, where they can be read.
    pub index_times: Option<FileTimes>,
}

/// An index record is out of date when its source changed after it was
/// written.
pub open spec fn entry_out_of_date(e: IndexEntry) -> bool {
    match (e.source_times, e.index_times) {
        (Some(s), Some(i)) => latest(s) > latest(i),
        _ => false,
    }
}

/// Whether some out-of-date index record has the stem `stem`.
pub open spec fn busted_by(entries: Seq<IndexEntry>, stem: Seq<char>) -> bool {
    exists|i: int| 0 <= i < entries.len() && entry_out_of_date(#[trigger] entries[i])
        && file_stem_of(entries[i].path@) == Some(stem)
}

/// The texts of a sequence of strings.
pub open spec fn texts(v: Seq<String>) -> Seq<Seq<char>> {
    v.map_values(|s: String| s@)
}

/// Whether a file's stem is among `busted`.
pub open spec fn stem_in(busted: Seq<Seq<char>>, f: Seq<char>) -> bool {
    match file_stem_of(f) {
        Some(st) => busted.contains(st),
        None => false,
    }
}

/// Whether the buster removes the file `f` given the index records found:
/// its stem is that of an out-of-date one.
pub open spec fn removed_by(entries: Seq<IndexEntry>, f: Seq<char>) -> bool {
    match file_stem_of(f) {
        Some(st) => busted_by(entries, st),
        None => false,
    }
}

proof fn lemma_texts_push(v: Seq<String>, s: String)
    ensures
        texts(v.push(s)) == texts(v).push(s@),
{
    assert(texts(v.push(s)) =~= texts(v).push(s@));
}

/// The stems of the out-of-date index records among `entries`.
pub fn detect_out_of_date(entries: &Vec<IndexEntry>) -> (r: Vec<String>)
    ensures
        forall|s: Seq<char>| texts(r@).contains(s) <==> busted_by(entries@, s),
{
    let mut bust: Vec<String> = Vec::new();
    let mut k: usize = 0;
    while k < entries.len()
        invariant
            k <= entries.len(),
            forall|s: Seq<char>| texts(bust@).contains(s) <==> busted_by(entries@.subrange(0, k as int), s),
        decreases entries.len() - k,
    {
        let e = &entries[k];
        let ghost pre = entries@.subrange(0, k as int);
        let ghost nxt = entries@.subrange(0, k + 1);
        assert(nxt =~= pre.push(entries@[k as int]));
        let stale = match (e.source_times, e.index_times) {
            (Some(s), Some(i)) => s.latest() > i.latest(),
            _ => false,
        };
        let stem = if stale { file_stem(e.path.as_str()) } else { None };
        let ghost old_bust = bust@;
        match stem {
            Some(st) => {
                let ghost stv = st@;
                bust.push(st);
                proof { lemma_texts_push(old_bust, st); }
                assert forall|s: Seq<char>| texts(bust@).contains(s) <==> busted_by(nxt, s) by {
                    if texts(bust@).contains(s) {
                        if s == stv {
                            assert(entry_out_of_date(nxt[k as int]));
                        } else {
                            assert(texts(old_bust).contains(s)) by {
                                let j = choose|j: int| 0 <= j < texts(bust@).len() && texts(bust@)[j] == s;
                                assert(j < old_bust.len());
                                assert(texts(old_bust)[j] == s);
                            }
                            assert(busted_by(pre, s));
                            let i = choose|i: int| 0 <= i < pre.len() && entry_out_of_date(#[trigger] pre[i])
                                && file_stem_of(pre[i].path@) == Some(s);
                            assert(nxt[i] == pre[i]);
                        }
                    }
                    if busted_by(nxt, s) {
                        let i = choose|i: int| 0 <= i < nxt.len() && entry_out_of_date(#[trigger] nxt[i])
                            && file_stem_of(nxt[i].path@) == Some(s);
                        if i < k {
                            assert(pre[i] == nxt[i]);
                            assert(busted_by(pre, s));
                            assert(texts(old_bust).contains(s));
                            let j = choose|j: int| 0 <= j < texts(old_bust).len() && texts(old_bust)[j] == s;
                            assert(texts(bust@)[j] == s);
                        } else {
                            assert(texts(bust@)[old_bust.len() as int] == s);
                        }
                    }
                }
            },
            None => {
                assert forall|s: Seq<char>| texts(bust@).contains(s) <==> busted_by(nxt, s) by {
                    if busted_by(nxt, s) {
                        let i = choose|i: int| 0 <= i < nxt.len() && entry_out_of_date(#[trigger] nxt[i])
                            && file_stem_of(nxt[i].path@) == Some(s);
                        if i < k {
                            assert(pre[i] == nxt[i]);
                            assert(busted_by(pre, s));
                        } else {
                            assert(nxt[i] == entries@[k as int]);
                            assert(false);
                        }
                    }
                    if busted_by(pre, s) {
                        let i = choose|i: int| 0 <= i < pre.len() && entry_out_of_date(#[trigger] pre[i])
                            && file_stem_of(pre[i].path@) == Some(s);
                        assert(nxt[i] == pre[i]);
                    }
                }
            },
        }
        k += 1;
    }
    assert(entries@.subrange(0, entries.len() as int) =~= entries@);
    bust
}

/// Whether `s` is among `v`.
fn contains_text(v: &Vec<String>, s: &Vec<char>) -> (r: bool)
    ensures
        r == texts(v@).contains(s@),
{
    let mut i: usize = 0;
    while i < v.len()
        invariant
            i <= v.len(),
            forall|j: int| 0 <= j < i ==> texts(v@)[j] != s@,
        decreases v.len() - i,
    {
        if eq_chars(&chars_of(v[i].as_str()), s) {
            assert(texts(v@)[i as int] == s@);
            return true;
        }
        i += 1;
    }
    false
}

/// The files among `files` whose stem is among `busted`, in their order.
pub fn remove_out_of_date(files: &Vec<String>, busted: &Vec<String>) -> (r: Vec<String>)
    ensures
        forall|f: Seq<char>| texts(r@).contains(f) <==> (texts(files@).contains(f) && stem_in(texts(busted@), f)),
{
    let mut out: Vec<String> = Vec::new();
    let mut k: usize = 0;
    while k < files.len()
        invariant
            k <= files.len(),
            forall|f: Seq<char>| texts(out@).contains(f) <==> (texts(files@.subrange(0, k as int)).contains(f)
                && stem_in(texts(busted@), f)),
        decreases files.len() - k,
    {
        let ghost pre = files@.subrange(0, k as int);
        let ghost nxt = files@.subrange(0, k + 1);
        assert(nxt =~= pre.push(files@[k as int]));
        proof { lemma_texts_push(pre, files@[k as int]); }
        let hit = match stem_chars(&chars_of(files[k].as_str())) {
            Some(st) => contains_text(busted, &st),
            None => false,
        };
        assert(hit == stem_in(texts(busted@), files[k as int]@));
        let ghost old_out = out@;
        if hit {
            let f = string_of(&chars_of(files[k].as_str()));
            out.push(f);
            proof { lemma_texts_push(old_out, f); }
        }
        assert forall|f: Seq<char>| texts(out@).contains(f) <==> (texts(nxt).contains(f) && stem_in(texts(busted@), f)) by {
            if texts(out@).contains(f) {
                let j = choose|j: int| 0 <= j < texts(out@).len() && texts(out@)[j] == f;
                if j < old_out.len() {
                    assert(texts(old_out)[j] == f);
                    assert(texts(old_out).contains(f));
                    assert(texts(pre).contains(f) && stem_in(texts(busted@), f));
                    let m = choose|m: int| 0 <= m < texts(pre).len() && texts(pre)[m] == f;
                    assert(texts(nxt)[m] == f);
                } else {
                    assert(texts(nxt)[k as int] == f);
                }
            }
            if texts(nxt).contains(f) && stem_in(texts(busted@), f) {
                let m = choose|m: int| 0 <= m < texts(nxt).len() && texts(nxt)[m] == f;
                if m < k {
                    assert(texts(pre)[m] == f);
                    assert(texts(pre).contains(f));
                    assert(texts(old_out).contains(f));
                    let j = choose|j: int| 0 <= j < texts(old_out).len() && texts(old_out)[j] == f;
                    assert(texts(out@)[j] == f);
                } else {
                    assert(texts(out@)[old_out.len() as int] == f);
                }
            }
        }
        k += 1;
    }
    assert(files@.subrange(0, files.len() as int) =~= files@);
    out
}

/// Whether a cache of `size_kb` kilobytes is over a capacity of
/// `capacity_kb`.
pub fn max_size_exceeded(size_kb: u64, capacity_kb: u64) -> (r: bool)
    ensures
        r == (size_kb > capacity_kb),
{
    size_kb > capacity_kb
}

/// The files that one run of the buster removes, given the cache's size,
/// its capacity, the index records found and the files found: none while the
/// cache is within capacity; otherwise exactly those whose stem is that of an
/// index record whose source changed after it was written.
pub fn bust_cache(size_kb: u64, capacity_kb: u64, entries: &Vec<IndexEntry>, files: &Vec<String>) -> (r: Vec<String>)
    ensures
        size_kb <= capacity_kb ==> r@.len() == 0,
        size_kb > capacity_kb ==> forall|f: Seq<char>| texts(r@).contains(f) <==> (texts(files@).contains(f)
            && removed_by(entries@, f)),
{
    if !max_size_exceeded(size_kb, capacity_kb) {
        return Vec::new();
    }
    let busted = detect_out_of_date(entries);
    let r = remove_out_of_date(files, &busted);
    assert forall|f: Seq<char>| stem_in(texts(busted@), f) == removed_by(entries@, f) by {}
    r
}

/// The capacity in kilobytes of `gb` gigabytes, where that fits in 64 bits.
pub fn capacity_kb(gb: u64) -> (r: Option<u64>)
    ensures
        r is Some == (gb * 1048576 <= u64::MAX),
        r is Some ==> r->0 == gb * 1048576,
{
    if gb <= 17592186044415 {
        Some(gb * 1048576)
    } else {
        None
    }
}

/// The size in kilobytes that `du -s` reports: the first item of its
/// output, after any leading blanks.
pub open spec fn du_size_spec(out: Seq<char>) -> Option<nat> {
    let start = leading_blanks(out);
    let rest = out.subrange(start, out.len() as int);
    parse_unsigned_spec(rest.subrange(0, token_len(rest)), 1000000000000000000)
}

/// Whether `c` separates items in command output.
pub open spec fn is_blank(c: char) -> bool {
    c == ' ' || c == '\t' || c == '\n' || c == '\r'
}

/// How many blanks `s` starts with.
pub open spec fn leading_blanks(s: Seq<char>) -> int
    decreases s.len(),
{
    if s.len() > 0 && is_blank(s[0]) {
        1 + leading_blanks(s.drop_first())
    } else {
        0
    }
}

/// How many characters `s` starts with before its first blank.
pub open spec fn token_len(s: Seq<char>) -> int
    decreases s.len(),
{
    if s.len() > 0 && !is_blank(s[0]) {
        1 + token_len(s.drop_first())
    } else {
        0
    }
}

fn count_prefix(s: &Vec<char>, from: usize, blank: bool) -> (r: usize)
    requires
        from <= s.len(),
    ensures
        from <= r <= s.len(),
        blank ==> r - from == leading_blanks(s@.subrange(from as int, s.len() as int)),
        !blank ==> r - from == token_len(s@.subrange(from as int, s.len() as int)),
    decreases s.len() - from,
{
    let ghost t = s@.subrange(from as int, s.len() as int);
    if from < s.len() {
        let c = s[from];
        let b = c == ' ' || c == '\t' || c == '\n' || c == '\r';
        if b == blank {
            assert(t.drop_first() =~= s@.subrange(from + 1, s.len() as int));
            return count_prefix(s, from + 1, blank);
        }
    }
    from
}

/// The size that the output of `du -s` reports, in kilobytes.
pub fn parse_du_output(out: &str) -> (r: Option<u64>)
    ensures
        r is Some == du_size_spec(out@) is Some,
        r is Some ==> r->0 as nat == du_size_spec(out@)->0,
{
    let s = chars_of(out);
    let start = count_prefix(&s, 0, true);
    let end = count_prefix(&s, start, false);
    assert(s@.subrange(0, s.len() as int) =~= s@);
    let ghost rest = s@.subrange(start as int, s.len() as int);
    assert(rest.subrange(0, token_len(rest)) =~= s@.subrange(start as int, end as int));
    parse_unsigned(&slice_chars(&s, start, end), 1000000000000000000)
}

} // verus!
