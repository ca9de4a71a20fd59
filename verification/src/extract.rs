//! Extraction of candidate image URLs from a search response body.
//!
//! The search page embeds each result's origin URL percent-encoded inside an
//! `img_url=` query parameter. A candidate is the maximal run of URL
//! characters after one such marker; it counts only when it starts with a
//! percent-encoded `http://` or `https://` scheme. A trailing `&amp` or
//! `&quot` artifact of the surrounding markup is trimmed, and the rest is
//! percent-decoded. The grammar is fixed by the spec functions here
//! (`candidates_of` above all), and `extract_candidates` is verified to
//! produce exactly the candidates of that grammar, in order. The response
//! format drifts historically, so everything is behind this one module.

use vstd::prelude::*;

verus! {

/// The characters a candidate URL may consist of: ASCII letters and digits
/// and the punctuation `_ . , @ ? ^ = % & : / ~ + # -`.
pub open spec fn is_url_byte(c: u8) -> bool {
    ||| (48 <= c && c <= 57)  // 0-9
    ||| (65 <= c && c <= 90)  // A-Z
    ||| (97 <= c && c <= 122)  // a-z
    ||| c == 95  // _
    ||| c == 46  // .
    ||| c == 44  // ,
    ||| c == 64  // @
    ||| c == 63  // ?
    ||| c == 94  // ^
    ||| c == 61  // =
    ||| c == 37  // %
    ||| c == 38  // &
    ||| c == 58  // :
    ||| c == 47  // /
    ||| c == 126  // ~
    ||| c == 43  // +
    ||| c == 35  // #
    ||| c == 45  // -
}

/// Length of the maximal run of URL characters starting at `j`.
pub open spec fn run_len(s: Seq<u8>, j: int) -> nat
    decreases s.len() - j,
{
    if j < 0 || j >= s.len() || !is_url_byte(s[j]) {
        0
    } else {
        1 + run_len(s, j + 1)
    }
}

/// The run never reaches past the end of the text.
pub proof fn lemma_run_len_bound(s: Seq<u8>, j: int)
    requires
        0 <= j <= s.len(),
    ensures
        run_len(s, j) <= s.len() - j,
    decreases s.len() - j,
{
    if j < s.len() && is_url_byte(s[j]) {
        lemma_run_len_bound(s, j + 1);
    }
}

/// A stretch of URL characters that ends at the text's end or at a non-URL
/// character is exactly the maximal run.
pub proof fn lemma_run_len_exact(s: Seq<u8>, a: int, b: int)
    requires
        0 <= a <= b <= s.len(),
        forall|k: int| a <= k < b ==> is_url_byte(#[trigger] s[k]),
        b == s.len() || !is_url_byte(s[b]),
    ensures
        run_len(s, a) == b - a,
    decreases b - a,
{
    if a < b {
        lemma_run_len_exact(s, a + 1, b);
    }
}

/// Whether the marker `img_url=` stands at position `i`.
pub open spec fn is_marker_at(s: Seq<u8>, i: int) -> bool {
    &&& 0 <= i
    &&& i + 8 <= s.len()
    &&& s[i] == 105  // i
    &&& s[i + 1] == 109  // m
    &&& s[i + 2] == 103  // g
    &&& s[i + 3] == 95  // _
    &&& s[i + 4] == 117  // u
    &&& s[i + 5] == 114  // r
    &&& s[i + 6] == 108  // l
    &&& s[i + 7] == 61  // =
}

/// Whether a raw candidate begins with a percent-encoded scheme:
/// `http%3A%2F%2F` or `https%3A%2F%2F`.
pub open spec fn has_scheme(raw: Seq<u8>) -> bool {
    ||| {
        &&& raw.len() >= 13
        &&& raw[0] == 104  // h
        &&& raw[1] == 116  // t
        &&& raw[2] == 116  // t
        &&& raw[3] == 112  // p
        &&& raw[4] == 37  // %
        &&& raw[5] == 51  // 3
        &&& raw[6] == 65  // A
        &&& raw[7] == 37  // %
        &&& raw[8] == 50  // 2
        &&& raw[9] == 70  // F
        &&& raw[10] == 37  // %
        &&& raw[11] == 50  // 2
        &&& raw[12] == 70  // F
    }
    ||| {
        &&& raw.len() >= 14
        &&& raw[0] == 104  // h
        &&& raw[1] == 116  // t
        &&& raw[2] == 116  // t
        &&& raw[3] == 112  // p
        &&& raw[4] == 115  // s
        &&& raw[5] == 37  // %
        &&& raw[6] == 51  // 3
        &&& raw[7] == 65  // A
        &&& raw[8] == 37  // %
        &&& raw[9] == 50  // 2
        &&& raw[10] == 70  // F
        &&& raw[11] == 37  // %
        &&& raw[12] == 50  // 2
        &&& raw[13] == 70  // F
    }
}

/// Whether a raw candidate ends in the markup artifact `&amp`.
pub open spec fn ends_with_amp(raw: Seq<u8>) -> bool {
    &&& raw.len() >= 4
    &&& raw[raw.len() - 4] == 38  // &
    &&& raw[raw.len() - 3] == 97  // a
    &&& raw[raw.len() - 2] == 109  // m
    &&& raw[raw.len() - 1] == 112  // p
}

/// Whether a raw candidate ends in the markup artifact `&quot`.
pub open spec fn ends_with_quot(raw: Seq<u8>) -> bool {
    &&& raw.len() >= 5
    &&& raw[raw.len() - 5] == 38  // &
    &&& raw[raw.len() - 4] == 113  // q
    &&& raw[raw.len() - 3] == 117  // u
    &&& raw[raw.len() - 2] == 111  // o
    &&& raw[raw.len() - 1] == 116  // t
}

/// A raw candidate with its one trailing markup artifact removed.
pub open spec fn trim_artifact(raw: Seq<u8>) -> Seq<u8> {
    if ends_with_amp(raw) {
        raw.take(raw.len() - 4)
    } else if ends_with_quot(raw) {
        raw.take(raw.len() - 5)
    } else {
        raw
    }
}

/// Whether a byte is an ASCII hexadecimal digit.
pub open spec fn is_hex_digit(c: u8) -> bool {
    ||| (48 <= c && c <= 57)  // 0-9
    ||| (65 <= c && c <= 70)  // A-F
    ||| (97 <= c && c <= 102)  // a-f
}

/// The value of an ASCII hexadecimal digit.
pub open spec fn hex_val(c: u8) -> nat
    recommends
        is_hex_digit(c),
{
    if 48 <= c && c <= 57 {
        (c - 48) as nat
    } else if 65 <= c && c <= 70 {
        (c - 55) as nat
    } else {
        (c - 87) as nat
    }
}

/// Percent-decoding: each `%` followed by two hexadecimal digits becomes the
/// byte they spell; every other byte is copied as it stands.
pub open spec fn pct_decode(s: Seq<u8>) -> Seq<u8>
    decreases s.len(),
{
    if s.len() == 0 {
        Seq::empty()
    } else if s[0] == 37 && s.len() >= 3 && is_hex_digit(s[1]) && is_hex_digit(s[2]) {
        seq![(hex_val(s[1]) * 16 + hex_val(s[2])) as u8] + pct_decode(s.skip(3))
    } else {
        seq![s[0]] + pct_decode(s.skip(1))
    }
}

/// The candidates found from position `i` on: at each `img_url=` marker, the
/// maximal URL-character run after it is taken; a run opening with an encoded
/// scheme is trimmed of its trailing artifact and percent-decoded, and the
/// scan resumes behind the run. Everything else is skipped over.
pub open spec fn candidates_from(s: Seq<u8>, i: int) -> Seq<Seq<u8>>
    decreases s.len() - i,
    via candidates_from_decreases
{
    if i + 8 > s.len() {
        Seq::empty()
    } else if is_marker_at(s, i) {
        let l = run_len(s, i + 8) as int;
        let raw = s.subrange(i + 8, i + 8 + l);
        if has_scheme(raw) {
            seq![pct_decode(trim_artifact(raw))] + candidates_from(s, i + 8 + l)
        } else {
            candidates_from(s, i + 8)
        }
    } else {
        candidates_from(s, i + 1)
    }
}

#[via_fn]
proof fn candidates_from_decreases(s: Seq<u8>, i: int) {
    if i + 8 <= s.len() && is_marker_at(s, i) {
        lemma_run_len_bound(s, i + 8);
    }
}

/// All candidate URLs of a search response body, in order of appearance.
pub open spec fn candidates_of(s: Seq<u8>) -> Seq<Seq<u8>> {
    candidates_from(s, 0)
}

/// Whether a byte may stand in a candidate URL; mirrors `is_url_byte`.
fn url_byte(c: u8) -> (r: bool)
    ensures
        r == is_url_byte(c),
{
    (48 <= c && c <= 57) || (65 <= c && c <= 90) || (97 <= c && c <= 122) || c == 95 || c == 46
        || c == 44 || c == 64 || c == 63 || c == 94 || c == 61 || c == 37 || c == 38 || c == 58
        || c == 47 || c == 126 || c == 43 || c == 35 || c == 45
}

/// Whether `img_url=` stands at position `i`.
fn marker_at(body: &Vec<u8>, i: usize) -> (r: bool)
    requires
        i + 8 <= body@.len() <= usize::MAX,
    ensures
        r == is_marker_at(body@, i as int),
{
    body[i] == 105 && body[i + 1] == 109 && body[i + 2] == 103 && body[i + 3] == 95 && body[i + 4]
        == 117 && body[i + 5] == 114 && body[i + 6] == 108 && body[i + 7] == 61
}

/// Whether a raw candidate begins with a percent-encoded scheme.
fn starts_with_scheme(raw: &Vec<u8>) -> (r: bool)
    ensures
        r == has_scheme(raw@),
{
    if raw.len() >= 13 && raw[0] == 104 && raw[1] == 116 && raw[2] == 116 && raw[3] == 112 {
        if raw[4] == 37 {
            raw[5] == 51 && raw[6] == 65 && raw[7] == 37 && raw[8] == 50 && raw[9] == 70 && raw[10]
                == 37 && raw[11] == 50 && raw[12] == 70
        } else if raw[4] == 115 && raw.len() >= 14 {
            raw[5] == 37 && raw[6] == 51 && raw[7] == 65 && raw[8] == 37 && raw[9] == 50 && raw[10]
                == 70 && raw[11] == 37 && raw[12] == 50 && raw[13] == 70
        } else {
            false
        }
    } else {
        false
    }
}

/// Copies the bytes of `v` between `start` and `end`.
fn sub_bytes(v: &Vec<u8>, start: usize, end: usize) -> (r: Vec<u8>)
    requires
        start <= end <= v@.len(),
    ensures
        r@ == v@.subrange(start as int, end as int),
{
    let mut r: Vec<u8> = Vec::new();
    let mut k: usize = start;
    while k < end
        invariant
            start <= k <= end <= v@.len(),
            r@ == v@.subrange(start as int, k as int),
        decreases end - k,
    {
        r.push(v[k]);
        proof {
            assert(r@ =~= v@.subrange(start as int, k as int + 1));
        }
        k += 1;
    }
    proof {
        assert(r@ =~= v@.subrange(start as int, end as int));
    }
    r
}

/// Removes the one trailing `&amp` or `&quot` artifact, if present.
fn trim_bytes(raw: Vec<u8>) -> (r: Vec<u8>)
    ensures
        r@ == trim_artifact(raw@),
{
    let ghost orig = raw@;
    let n: usize = raw.len();
    let mut r = raw;
    if n >= 4 && r[n - 4] == 38 && r[n - 3] == 97 && r[n - 2] == 109 && r[n - 1] == 112 {
        r.truncate(n - 4);
        proof {
            assert(ends_with_amp(orig));
            assert(r@ =~= orig.take(n as int - 4));
        }
    } else if n >= 5 && r[n - 5] == 38 && r[n - 4] == 113 && r[n - 3] == 117 && r[n - 2] == 111
        && r[n - 1] == 116 {
        r.truncate(n - 5);
        proof {
            assert(!ends_with_amp(orig));
            assert(ends_with_quot(orig));
            assert(r@ =~= orig.take(n as int - 5));
        }
    } else {
        proof {
            assert(!ends_with_amp(orig));
            assert(!ends_with_quot(orig));
        }
    }
    r
}

/// Whether a byte is a hexadecimal digit; mirrors `is_hex_digit`.
fn hex_digit(c: u8) -> (r: bool)
    ensures
        r == is_hex_digit(c),
{
    (48 <= c && c <= 57) || (65 <= c && c <= 70) || (97 <= c && c <= 102)
}

/// The value of a hexadecimal digit.
fn hex_value(c: u8) -> (r: u8)
    requires
        is_hex_digit(c),
    ensures
        r as nat == hex_val(c),
        r <= 15,
{
    if 48 <= c && c <= 57 {
        c - 48
    } else if 65 <= c && c <= 70 {
        c - 55
    } else {
        c - 87
    }
}

/// Percent-decodes a byte string, per `pct_decode`.
fn pct_decode_bytes(s: &Vec<u8>) -> (r: Vec<u8>)
    ensures
        r@ == pct_decode(s@),
{
    let mut out: Vec<u8> = Vec::new();
    let mut i: usize = 0;
    proof {
        assert(s@.skip(0) =~= s@);
        assert(out@ + pct_decode(s@.skip(0)) =~= pct_decode(s@));
    }
    while i < s.len()
        invariant
            0 <= i <= s@.len(),
            out@ + pct_decode(s@.skip(i as int)) == pct_decode(s@),
        decreases s@.len() - i,
    {
        let ghost pre = out@;
        let ghost tail = s@.skip(i as int);
        proof {
            assert(tail.len() == s@.len() - i);
            assert(forall|k: int| 0 <= k < tail.len() ==> tail[k] == s@[i + k]);
        }
        if s[i] == 37 && s.len() - i >= 3 && hex_digit(s[i + 1]) && hex_digit(s[i + 2]) {
            let v: u8 = hex_value(s[i + 1]) * 16 + hex_value(s[i + 2]);
            out.push(v);
            proof {
                assert(tail.skip(3) =~= s@.skip(i as int + 3));
                assert(pct_decode(tail) == seq![v] + pct_decode(s@.skip(i as int + 3)));
                assert(pre + pct_decode(tail) =~= out@ + pct_decode(s@.skip(i as int + 3)));
            }
            i += 3;
        } else {
            out.push(s[i]);
            proof {
                assert(tail.skip(1) =~= s@.skip(i as int + 1));
                assert(pct_decode(tail) == seq![tail[0]] + pct_decode(s@.skip(i as int + 1)));
                assert(pre + pct_decode(tail) =~= out@ + pct_decode(s@.skip(i as int + 1)));
            }
            i += 1;
        }
    }
    proof {
        assert(s@.skip(i as int) =~= Seq::<u8>::empty());
        assert(pct_decode(s@.skip(i as int)) == Seq::<u8>::empty());
        assert(out@ =~= out@ + pct_decode(s@.skip(i as int)));
    }
    out
}

/// Extracts every candidate URL of the body, decoded and in order, exactly as
/// `candidates_of` fixes them.
pub fn extract_candidates(body: &Vec<u8>) -> (r: Vec<Vec<u8>>)
    ensures
        r.deep_view() == candidates_of(body@),
{
    let mut out: Vec<Vec<u8>> = Vec::new();
    let mut i: usize = 0;
    proof {
        assert(out.deep_view() =~= Seq::<Seq<u8>>::empty());
        assert(out.deep_view() + candidates_from(body@, 0) =~= candidates_from(body@, 0));
    }
    while body.len() >= 8 && i <= body.len() - 8
        invariant
            0 <= i <= body@.len(),
            out.deep_view() + candidates_from(body@, i as int) == candidates_of(body@),
        decreases body@.len() - i,
    {
        if marker_at(body, i) {
            let mut j: usize = i + 8;
            while j < body.len() && url_byte(body[j])
                invariant
                    i + 8 <= j <= body@.len(),
                    forall|k: int| i + 8 <= k < j ==> is_url_byte(#[trigger] body@[k]),
                decreases body@.len() - j,
            {
                j += 1;
            }
            proof {
                lemma_run_len_exact(body@, i as int + 8, j as int);
            }
            let raw = sub_bytes(body, i + 8, j);
            if starts_with_scheme(&raw) {
                let trimmed = trim_bytes(raw);
                let decoded = pct_decode_bytes(&trimmed);
                let ghost pre_out = out.deep_view();
                let ghost cand = pct_decode(trim_artifact(body@.subrange(i as int + 8, j as int)));
                out.push(decoded);
                proof {
                    assert(decoded@ == cand);
                    assert(out.deep_view() =~~= pre_out.push(cand));
                    assert(candidates_from(body@, i as int) == seq![cand] + candidates_from(
                        body@,
                        j as int,
                    ));
                    assert(pre_out + (seq![cand] + candidates_from(body@, j as int)) =~= out.deep_view()
                        + candidates_from(body@, j as int));
                }
                i = j;
            } else {
                proof {
                    assert(candidates_from(body@, i as int) == candidates_from(
                        body@,
                        i as int + 8,
                    ));
                }
                i = i + 8;
            }
        } else {
            proof {
                assert(candidates_from(body@, i as int) == candidates_from(body@, i as int + 1));
            }
            i = i + 1;
        }
    }
    proof {
        assert(candidates_from(body@, i as int) =~= Seq::<Seq<u8>>::empty());
        assert(out.deep_view() =~= out.deep_view() + candidates_from(body@, i as int));
    }
    out
}

} // verus!
