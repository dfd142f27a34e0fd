//! Hashes that key the cache, and the check of a request's signature.

use vstd::prelude::*;
use vstd::string::StringSliceAdditionalSpecFns;
use vstd::utf8::encode_utf8;
use crate::text::{chars_of, decimal, decimal_chars, eq_str, extend_chars, string_of};

verus! {

/// The 64-bit XXH3 hash of a byte string.
pub uninterp spec fn xxh3_of(data: Seq<u8>) -> u64;

/// Relies on `xxhash_rust::xxh3::xxh3_64`: a hash of the bytes alone.
#[verifier::external_body]
fn xxh3(data: &[u8]) -> (r: u64)
    ensures
        r == xxh3_of(data@),
{
    xxhash_rust::xxh3::xxh3_64(data)
}

/// The XXH3 hash of the UTF-8 encoding of a text.
pub open spec fn text_hash(s: Seq<char>) -> u64 {
    xxh3_of(encode_utf8(s))
}

/// The decimal hash of a text, as it names cache files.
pub open spec fn hash_text(s: Seq<char>) -> Seq<char> {
    decimal(text_hash(s) as nat)
}

/// The XXH3 hash of the UTF-8 bytes of `data`.
pub fn hash_value(data: &str) -> (r: u64)
    ensures
        r == text_hash(data@),
{
    xxh3(data.as_bytes())
}

/// The XXH3 hash of the UTF-8 bytes of `data`, in decimal.
pub fn string_hash(data: &str) -> (r: String)
    ensures
        r@ == hash_text(data@),
{
    string_of(&decimal_chars(hash_value(data)))
}

/// The fingerprint of a request: the decimal XXH3 hash of its canonical
/// serialization. The same serialization always gives the same fingerprint.
pub fn json_hash(serialized: &str) -> (r: String)
    ensures
        r@ == hash_text(serialized@),
{
    string_hash(serialized)
}

/// Fingerprints are a function of the serialization: the same request,
/// serialized the same way, always has the same fingerprint.
pub proof fn lemma_fingerprint_deterministic(a: Seq<char>, b: Seq<char>)
    requires
        a == b,
    ensures
        hash_text(a) == hash_text(b),
{
}

/// The HMAC-SHA256 tag of `data` under `key`.
pub uninterp spec fn hmac_sha256_of(key: Seq<u8>, data: Seq<u8>) -> Seq<u8>;

/// Relies on `ring::hmac::Key::new` and `ring::hmac::verify`: the check
/// passes exactly when `tag` is the HMAC-SHA256 tag of `data` under `key`.
#[verifier::external_body]
fn hmac_sha256_verify(key: &[u8], data: &[u8], tag: &[u8]) -> (r: bool)
    ensures
        r == (tag@ == hmac_sha256_of(key@, data@)),
{
    let key = ring::hmac::Key::new(ring::hmac::HMAC_SHA256, key);
    ring::hmac::verify(&key, data, tag).is_ok()
}

/// The value of a lowercase hexadecimal digit.
pub open spec fn lower_hex_value(c: u8) -> Option<nat> {
    if 48 <= c && c <= 57 {
        Some((c - 48) as nat)
    } else if 97 <= c && c <= 102 {
        Some((c - 87) as nat)
    } else {
        None
    }
}

/// Whether `s` is an even number of lowercase hexadecimal digits.
pub open spec fn is_lower_hex(s: Seq<u8>) -> bool {
    s.len() % 2 == 0 && forall|i: int| 0 <= i < s.len() ==> (#[trigger] lower_hex_value(s[i])) is Some
}

/// The bytes that the lowercase hexadecimal digits `s` write, two digits a
/// byte, the high half first.
pub open spec fn lower_hex_bytes(s: Seq<u8>) -> Seq<u8> {
    Seq::new(
        s.len() / 2,
        |i: int| (lower_hex_value(s[2 * i])->0 * 16 + lower_hex_value(s[2 * i + 1])->0) as u8,
    )
}

/// Relies on `data_encoding::HEXLOWER.decode`: an even number of lowercase
/// hexadecimal digits decodes two digits a byte, the high half first; any
/// other input is refused.
#[verifier::external_body]
fn decode_lower_hex(s: &[u8]) -> (r: Result<Vec<u8>, ()>)
    ensures
        r is Ok == is_lower_hex(s@),
        r is Ok ==> r->Ok_0@ == lower_hex_bytes(s@),
{
    match data_encoding::HEXLOWER.decode(s) {
        Ok(v) => Ok(v),
        Err(_) => Err(()),
    }
}

/// Whether `code`, in lowercase hexadecimal, is the HMAC-SHA256 tag of
/// `data` under `key`. A code that is not lowercase hexadecimal fails.
pub fn verify_hmac(data: &str, key: &str, code: &str) -> (r: bool)
    ensures
        r == (is_lower_hex(code.spec_bytes())
            && lower_hex_bytes(code.spec_bytes()) == hmac_sha256_of(key.spec_bytes(), data.spec_bytes())),
{
    match decode_lower_hex(code.as_bytes()) {
        Ok(tag) => hmac_sha256_verify(key.as_bytes(), data.as_bytes(), tag.as_slice()),
        Err(_) => false,
    }
}


/// Whether `a` comes strictly before `b`, comparing characters from the
/// first, a prefix first (the order of `str`'s `Ord`).
pub open spec fn key_less(a: Seq<char>, b: Seq<char>) -> bool
    decreases a.len(),
{
    if b.len() == 0 {
        false
    } else if a.len() == 0 {
        true
    } else if a[0] != b[0] {
        (a[0] as u32) < (b[0] as u32)
    } else {
        key_less(a.drop_first(), b.drop_first())
    }
}

proof fn lemma_key_less_trans(a: Seq<char>, b: Seq<char>, c: Seq<char>)
    requires
        key_less(a, b),
        key_less(b, c),
    ensures
        key_less(a, c),
    decreases a.len(),
{
    if a.len() > 0 && b.len() > 0 && c.len() > 0 && a[0] == b[0] && b[0] == c[0] {
        lemma_key_less_trans(a.drop_first(), b.drop_first(), c.drop_first());
    }
}

proof fn lemma_key_less_irreflexive(a: Seq<char>)
    ensures
        !key_less(a, a),
    decreases a.len(),
{
    if a.len() > 0 {
        lemma_key_less_irreflexive(a.drop_first());
    }
}

/// A query item: a key and its value.
pub type QueryPair = (Seq<char>, Seq<char>);

/// Whether the items are in order of their keys.
pub open spec fn sorted_by_key(q: Seq<QueryPair>) -> bool {
    forall|i: int, j: int| 0 <= i < j < q.len() ==> !key_less(#[trigger] q[j].0, #[trigger] q[i].0)
}

/// The items of a query, as texts.
pub open spec fn query_view(params: Seq<(String, String)>) -> Seq<QueryPair> {
    params.map_values(|p: (String, String)| (p.0@, p.1@))
}

/// The items that a signature covers: all but the signature itself.
pub open spec fn signed_items(params: Seq<(String, String)>) -> Seq<QueryPair> {
    query_view(params).filter(|p: QueryPair| p.0 != "token"@)
}

/// `key=value`.
pub open spec fn item_text(p: QueryPair) -> Seq<char> {
    p.0 + seq!['='] + p.1
}

/// The items as `k1=v1&k2=v2...`.
pub open spec fn join_items(q: Seq<QueryPair>) -> Seq<char>
    decreases q.len(),
{
    if q.len() == 0 {
        Seq::empty()
    } else if q.len() == 1 {
        item_text(q[0])
    } else {
        join_items(q.drop_last()) + seq!['&'] + item_text(q.last())
    }
}

/// Whether `m` is the signed text of a request for `path`: `path?` and the
/// signed items joined in order of their keys.
pub open spec fn is_signed_text(path: Seq<char>, params: Seq<(String, String)>, m: Seq<char>) -> bool {
    exists|q: Seq<QueryPair>| sorted_by_key(q) && q.to_multiset() == signed_items(params).to_multiset()
        && m == path + seq!['?'] + join_items(q)
}

fn key_less_exec(a: &Vec<char>, b: &Vec<char>) -> (r: bool)
    ensures
        r == key_less(a@, b@),
{
    let mut i: usize = 0;
    assert(a@.subrange(0, a.len() as int) =~= a@);
    assert(b@.subrange(0, b.len() as int) =~= b@);
    while i < a.len() && i < b.len() && a[i] == b[i]
        invariant
            i <= a.len(),
            i <= b.len(),
            key_less(a@, b@) == key_less(a@.subrange(i as int, a.len() as int), b@.subrange(i as int, b.len() as int)),
        decreases a.len() - i,
    {
        let ghost sa = a@.subrange(i as int, a.len() as int);
        let ghost sb = b@.subrange(i as int, b.len() as int);
        assert(sa.drop_first() =~= a@.subrange(i + 1, a.len() as int));
        assert(sb.drop_first() =~= b@.subrange(i + 1, b.len() as int));
        i += 1;
    }
    if i == b.len() {
        false
    } else if i == a.len() {
        true
    } else {
        (a[i] as u32) < (b[i] as u32)
    }
}

/// Inserts `x` into the sorted `q` after every item whose key is not
/// greater.
fn insert_sorted(q: &mut Vec<(Vec<char>, Vec<char>)>, x: (Vec<char>, Vec<char>))
    requires
        sorted_by_key(pairs_view(old(q)@)),
    ensures
        sorted_by_key(pairs_view(final(q)@)),
        pairs_view(final(q)@).to_multiset() == pairs_view(old(q)@).to_multiset().insert((x.0@, x.1@)),
{
    let ghost xv = (x.0@, x.1@);
    let mut i: usize = 0;
    while i < q.len() && !key_less_exec(&x.0, &q[i].0)
        invariant
            i <= q.len(),
            xv == (x.0@, x.1@),
            q@ == old(q)@,
            sorted_by_key(pairs_view(q@)),
            forall|j: int| 0 <= j < i ==> !key_less(xv.0, #[trigger] pairs_view(q@)[j].0),
        decreases q.len() - i,
    {
        assert(pairs_view(q@)[i as int].0 == q@[i as int].0@);
        i += 1;
    }
    let ghost before = pairs_view(q@);
    proof {
        if i < q.len() {
            assert(before[i as int].0 == q@[i as int].0@);
            assert(key_less(xv.0, before[i as int].0));
        }
    }
    q.insert(i, x);
    proof {
        let after = pairs_view(q@);
        assert(after =~= before.insert(i as int, xv));
        vstd::seq_lib::to_multiset_insert(before, i as int, xv);
        assert forall|a: int, b: int| 0 <= a < b < after.len() implies !key_less(#[trigger] after[b].0, #[trigger] after[a].0) by {
            if b < i {
                assert(after[a] == before[a]);
                assert(after[b] == before[b]);
            } else if b == i {
                assert(after[a] == before[a]);
                assert(after[b] == xv);
            } else if a < i {
                assert(after[b] == before[b - 1]);
                assert(after[a] == before[a]);
                assert(!key_less(xv.0, before[a].0));
                assert(!key_less(before[b - 1].0, before[i as int].0) || b - 1 == i);
                assert(key_less(xv.0, before[i as int].0));
                if key_less(before[b - 1].0, before[a].0) {
                    if b - 1 == i {
                        lemma_key_less_trans(xv.0, before[b - 1].0, before[a].0);
                    } else {
                        assert(!key_less(before[b - 1].0, before[a].0));
                    }
                }
            } else if a == i {
                assert(after[a] == xv);
                assert(after[b] == before[b - 1]);
                assert(key_less(xv.0, before[i as int].0));
                if key_less(before[b - 1].0, xv.0) {
                    lemma_key_less_trans(before[b - 1].0, xv.0, before[i as int].0);
                    lemma_key_less_irreflexive(before[i as int].0);
                }
            } else {
                assert(after[a] == before[a - 1]);
                assert(after[b] == before[b - 1]);
            }
        }
    }
}

/// The texts of a sequence of item pairs.
pub open spec fn pairs_view(q: Seq<(Vec<char>, Vec<char>)>) -> Seq<QueryPair> {
    q.map_values(|p: (Vec<char>, Vec<char>)| (p.0@, p.1@))
}

/// The signed text of a request for `path` with the query items `params`:
/// `path?k1=v1&k2=v2...` over all items but `token`, in order of their keys.
pub fn signed_text(path: &str, params: &Vec<(String, String)>) -> (r: String)
    ensures
        is_signed_text(path@, params@, r@),
{
    let q = sorted_items(params);
    let m = join_text(path, &q);
    string_of(&m)
}

/// The signed items of `params`, in order of their keys.
fn sorted_items(params: &Vec<(String, String)>) -> (q: Vec<(Vec<char>, Vec<char>)>)
    ensures
        sorted_by_key(pairs_view(q@)),
        pairs_view(q@).to_multiset() == signed_items(params@).to_multiset(),
{
    let mut q: Vec<(Vec<char>, Vec<char>)> = Vec::new();
    let mut k: usize = 0;
    proof {
        reveal(Seq::filter);
        assert(query_view(params@.subrange(0, 0)) =~= Seq::<QueryPair>::empty());
        assert(pairs_view(q@) =~= Seq::<QueryPair>::empty());
        assert(signed_items(params@.subrange(0, 0)) =~= Seq::<QueryPair>::empty());
    }
    while k < params.len()
        invariant
            k <= params.len(),
            sorted_by_key(pairs_view(q@)),
            pairs_view(q@).to_multiset() == signed_items(params@.subrange(0, k as int)).to_multiset(),
        decreases params.len() - k,
    {
        let key = chars_of(params[k].0.as_str());
        let value = chars_of(params[k].1.as_str());
        let ghost pre = params@.subrange(0, k as int);
        let ghost nxt = params@.subrange(0, k + 1);
        assert(nxt =~= pre.push(params@[k as int]));
        assert(query_view(nxt) =~= query_view(pre).push((key@, value@)));
        proof {
            reveal(Seq::filter);
            assert(query_view(nxt).drop_last() =~= query_view(pre));
        }
        if !eq_str(&key, "token") {
            let ghost kv = key@;
            let ghost vv = value@;
            insert_sorted(&mut q, (key, value));
            proof {
                assert(signed_items(nxt) == signed_items(pre).push((kv, vv)));
                vstd::seq_lib::to_multiset_build(signed_items(pre), (kv, vv));
            }
        } else {
            assert(signed_items(nxt) == signed_items(pre));
        }
        k += 1;
    }
    assert(params@.subrange(0, params.len() as int) =~= params@);
    q
}

fn join_text(path: &str, q: &Vec<(Vec<char>, Vec<char>)>) -> (r: Vec<char>)
    ensures
        r@ == path@ + seq!['?'] + join_items(pairs_view(q@)),
{
    let mut m = chars_of(path);
    m.push('?');
    let ghost head = m@;
    let mut i: usize = 0;
    assert(pairs_view(q@).subrange(0, 0) =~= Seq::<QueryPair>::empty());
    while i < q.len()
        invariant
            i <= q.len(),
            head == path@ + seq!['?'],
            m@ == head + join_items(pairs_view(q@).subrange(0, i as int)),
        decreases q.len() - i,
    {
        let ghost pv = pairs_view(q@);
        let ghost pre = pv.subrange(0, i as int);
        let ghost nxt = pv.subrange(0, i + 1);
        assert(nxt.drop_last() =~= pre);
        assert(nxt.last() == (q@[i as int].0@, q@[i as int].1@));
        if i > 0 {
            m.push('&');
        }
        extend_chars(&mut m, &q[i].0);
        m.push('=');
        extend_chars(&mut m, &q[i].1);
        if i == 0 {
            assert(pre =~= Seq::<QueryPair>::empty());
        }
        assert(m@ =~= head + join_items(nxt));
        i += 1;
    }
    assert(pairs_view(q@).subrange(0, q.len() as int) =~= pairs_view(q@));
    m
}

/// The outcome of checking a request's signature.
pub open spec fn token_check_spec(key: Option<Seq<u8>>, token: Option<Seq<u8>>, signed: Seq<u8>) -> Result<(), Seq<char>> {
    match key {
        None => Ok(()),
        Some(k) => match token {
            None => Err("Token is required"@),
            Some(t) => if is_lower_hex(t) && lower_hex_bytes(t) == hmac_sha256_of(k, signed) {
                Ok(())
            } else {
                Err("Invalid token"@)
            },
        },
    }
}

/// Checks a request's signature: with no server key every request passes;
/// with one, the request's `token` must be the lowercase hexadecimal
/// HMAC-SHA256 of its signed text under that key.
pub fn verify_token(key: Option<&str>, token: Option<&str>, path: &str, params: &Vec<(String, String)>) -> (r: Result<(), &'static str>)
    ensures
        exists|m: Seq<char>| is_signed_text(path@, params@, m) && match token_check_spec(
            match key { Some(k) => Some(k.spec_bytes()), None => None },
            match token { Some(t) => Some(t.spec_bytes()), None => None },
            encode_utf8(m),
        ) {
            Ok(_) => r is Ok,
            Err(msg) => r is Err && r->Err_0@ == msg,
        },
{
    let m = signed_text(path, params);
    let k = match key {
        Some(k) => k,
        None => return Ok(()),
    };
    let t = match token {
        Some(t) => t,
        None => return Err("Token is required"),
    };
    if verify_hmac(m.as_str(), k, t) {
        Ok(())
    } else {
        Err("Invalid token")
    }
}

} // verus!
