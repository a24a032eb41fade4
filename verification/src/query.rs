//! Parsing of the query component of a request target.
//!
//! A query string such as `code=abc&state=xyz` is split on `&` into
//! segments, each segment is split at its first `=` into a key and a
//! value, and keys and values are percent-decoded (`%41` becomes `A`,
//! `+` becomes a space).  A `%` that is not followed by two hex digits
//! makes the whole query malformed.  Everything here works on bytes;
//! the decoded value of the `code` key is exactly what is later written
//! to the destination file.

use vstd::prelude::*;

verus! {

/// `%`, the escape byte of percent-encoding.
pub const PERCENT: u8 = 0x25;
/// `+`, which form-encoding uses for a space.
pub const PLUS: u8 = 0x2b;
/// The space byte that an encoded `+` stands for.
pub const SPACE: u8 = 0x20;
/// `&`, the separator between query pairs.
pub const AMPERSAND: u8 = 0x26;
/// `=`, the separator between a key and its value.
pub const EQUALS: u8 = 0x3d;

/// The bytes that may stand after `%`: `0`-`9`, `A`-`F`, `a`-`f`.
pub open spec fn is_hex_digit(b: u8) -> bool {
    (0x30 <= b && b <= 0x39) || (0x41 <= b && b <= 0x46) || (0x61 <= b && b <= 0x66)
}

/// The numeric value of a hex digit byte.
pub open spec fn hex_val(b: u8) -> u8 {
    if 0x30 <= b && b <= 0x39 {
        (b - 0x30) as u8
    } else if 0x41 <= b && b <= 0x46 {
        (b - 0x41 + 10) as u8
    } else {
        (b - 0x61 + 10) as u8
    }
}

/// Percent-decoding of a byte sequence: `%XY` with two hex digits
/// becomes the byte `16*X + Y`, `+` becomes a space, every other byte
/// stands for itself.  `None` when a `%` is not followed by two hex
/// digits.
pub open spec fn decoded(s: Seq<u8>) -> Option<Seq<u8>>
    decreases s.len(),
{
    if s.len() == 0 {
        Some(Seq::empty())
    } else if s[0] == PERCENT {
        if s.len() >= 3 && is_hex_digit(s[1]) && is_hex_digit(s[2]) {
            match decoded(s.skip(3)) {
                Some(rest) => Some(seq![(hex_val(s[1]) * 16 + hex_val(s[2])) as u8] + rest),
                None => None,
            }
        } else {
            None
        }
    } else {
        let b: u8 = if s[0] == PLUS {
            SPACE
        } else {
            s[0]
        };
        match decoded(s.skip(1)) {
            Some(rest) => Some(seq![b] + rest),
            None => None,
        }
    }
}

/// Numeric value of one hex digit byte.
fn hex_digit_val(b: u8) -> (r: u8)
    requires
        is_hex_digit(b),
    ensures
        r == hex_val(b),
{
    if b <= 0x39 {
        b - 0x30
    } else if b <= 0x46 {
        b - 0x41 + 10
    } else {
        b - 0x61 + 10
    }
}

/// Whether `b` is a hex digit byte.
fn hex_digit(b: u8) -> (r: bool)
    ensures
        r == is_hex_digit(b),
{
    (0x30 <= b && b <= 0x39) || (0x41 <= b && b <= 0x46) || (0x61 <= b && b <= 0x66)
}

/// Percent-decodes `s`; `None` exactly when `s` is malformed.
pub fn percent_decode(s: &[u8]) -> (r: Option<Vec<u8>>)
    ensures
        match r {
            Some(v) => decoded(s@) == Some(v@),
            None => decoded(s@) is None,
        },
{
    let mut out: Vec<u8> = Vec::new();
    let mut i: usize = 0;
    proof {
        assert(s@.skip(0) =~= s@);
        if decoded(s@) is Some {
            assert(out@ + decoded(s@).unwrap() =~= decoded(s@).unwrap());
        }
    }
    while i < s.len()
        invariant
            0 <= i <= s@.len(),
            match decoded(s@.skip(i as int)) {
                Some(rest) => decoded(s@) == Some(out@ + rest),
                None => decoded(s@) is None,
            },
        decreases s@.len() - i,
    {
        let b = s[i];
        proof {
            assert(s@.skip(i as int)[0] == s@[i as int]);
        }
        if b == PERCENT {
            if s.len() - i >= 3 && hex_digit(s[i + 1]) && hex_digit(s[i + 2]) {
                let v = hex_digit_val(s[i + 1]) * 16 + hex_digit_val(s[i + 2]);
                proof {
                    assert(s@.skip(i as int)[1] == s@[i + 1]);
                    assert(s@.skip(i as int)[2] == s@[i + 2]);
                    assert(s@.skip(i as int).skip(3) =~= s@.skip(i + 3));
                }
                out.push(v);
                i = i + 3;
            } else {
                proof {
                    if s@.skip(i as int).len() >= 3 {
                        assert(s@.skip(i as int)[1] == s@[i + 1]);
                        assert(s@.skip(i as int)[2] == s@[i + 2]);
                    }
                }
                return None;
            }
        } else {
            proof {
                assert(s@.skip(i as int).skip(1) =~= s@.skip(i + 1));
            }
            if b == PLUS {
                out.push(SPACE);
            } else {
                out.push(b);
            }
            i = i + 1;
        }
    }
    proof {
        assert(s@.skip(i as int) =~= Seq::<u8>::empty());
        assert(out@ + Seq::<u8>::empty() =~= out@);
    }
    Some(out)
}

/// Index of the first `sep` in `q`, or `q.len()` when there is none.
pub open spec fn first_sep(q: Seq<u8>, sep: u8) -> int
    decreases q.len(),
{
    if q.len() == 0 {
        0
    } else if q[0] == sep {
        0
    } else {
        1 + first_sep(q.drop_first(), sep)
    }
}

/// `first_sep` points at the first occurrence of `sep`, or past the end.
pub proof fn lemma_first_sep_bounds(q: Seq<u8>, sep: u8)
    ensures
        0 <= first_sep(q, sep) <= q.len(),
        first_sep(q, sep) < q.len() ==> q[first_sep(q, sep)] == sep,
        forall|j: int| 0 <= j < first_sep(q, sep) ==> q[j] != sep,
    decreases q.len(),
{
    if q.len() == 0 {
    } else if q[0] == sep {
    } else {
        lemma_first_sep_bounds(q.drop_first(), sep);
        assert forall|j: int| 0 <= j < first_sep(q, sep) implies q[j] != sep by {
            if j > 0 {
                assert(q.drop_first()[j - 1] == q[j]);
            }
        }
    }
}

/// An index below which `sep` does not occur, and at which it does (or
/// the end), is exactly `first_sep`.
pub proof fn lemma_first_sep_unique(q: Seq<u8>, sep: u8, k: int)
    requires
        0 <= k <= q.len(),
        forall|j: int| 0 <= j < k ==> q[j] != sep,
        k < q.len() ==> q[k] == sep,
    ensures
        first_sep(q, sep) == k,
    decreases q.len(),
{
    if q.len() == 0 {
    } else if q[0] == sep {
        assert(k == 0);
    } else {
        assert(q[0] != sep);
        assert(k != 0);
        assert forall|j: int| 0 <= j < k - 1 implies q.drop_first()[j] != sep by {
            assert(q.drop_first()[j] == q[j + 1]);
        }
        if k - 1 < q.drop_first().len() {
            assert(q.drop_first()[k - 1] == q[k]);
        }
        lemma_first_sep_unique(q.drop_first(), sep, k - 1);
    }
}

/// The segments of `q`: the (possibly empty) runs between `&` bytes.
pub open spec fn segments(q: Seq<u8>) -> Seq<Seq<u8>>
    decreases q.len(),
    via segments_decreases
{
    if q.len() == 0 {
        Seq::empty()
    } else {
        let k = first_sep(q, AMPERSAND);
        if k == q.len() {
            seq![q]
        } else {
            seq![q.take(k)] + segments(q.skip(k + 1))
        }
    }
}

#[via_fn]
proof fn segments_decreases(q: Seq<u8>) {
    lemma_first_sep_bounds(q, AMPERSAND);
}

/// The raw key of one segment: the bytes before its first `=`.
pub open spec fn raw_key(s: Seq<u8>) -> Seq<u8> {
    s.take(first_sep(s, EQUALS))
}

/// The raw value of one segment: the bytes after its first `=`, or
/// empty when the segment has no `=`.
pub open spec fn raw_val(s: Seq<u8>) -> Seq<u8> {
    if first_sep(s, EQUALS) == s.len() {
        Seq::empty()
    } else {
        s.skip(first_sep(s, EQUALS) + 1)
    }
}

/// The decoded (key, value) pairs of a list of segments, empty segments
/// skipped; `None` when any key or value is malformed.
pub open spec fn pairs_of(segs: Seq<Seq<u8>>) -> Option<Seq<(Seq<u8>, Seq<u8>)>>
    decreases segs.len(),
{
    if segs.len() == 0 {
        Some(Seq::empty())
    } else {
        let s = segs[0];
        let rest = pairs_of(segs.drop_first());
        if s.len() == 0 {
            rest
        } else {
            match (decoded(raw_key(s)), decoded(raw_val(s)), rest) {
                (Some(k), Some(v), Some(r)) => Some(seq![(k, v)] + r),
                _ => None,
            }
        }
    }
}

/// The decoded pairs of a whole query string, in order of appearance.
pub open spec fn query_pairs(q: Seq<u8>) -> Option<Seq<(Seq<u8>, Seq<u8>)>> {
    pairs_of(segments(q))
}

/// The value of the last pair whose key is `key`, as a key-to-value map
/// built left to right would hold it.
pub open spec fn last_value_of(pairs: Seq<(Seq<u8>, Seq<u8>)>, key: Seq<u8>) -> Option<Seq<u8>>
    decreases pairs.len(),
{
    if pairs.len() == 0 {
        None
    } else if pairs.last().0 == key {
        Some(pairs.last().1)
    } else {
        last_value_of(pairs.drop_last(), key)
    }
}

/// The bytes of the query key `code`.
pub open spec fn code_key() -> Seq<u8> {
    seq![0x63u8, 0x6fu8, 0x64u8, 0x65u8]
}

/// What the `code` parameter of query `q` is: `None` when the query is
/// malformed, `Some(None)` when it is well-formed but carries no
/// `code`, `Some(Some(c))` when the last `code` pair decodes to `c`.
pub open spec fn code_of_query(q: Seq<u8>) -> Option<Option<Seq<u8>>> {
    match query_pairs(q) {
        Some(ps) => Some(last_value_of(ps, code_key())),
        None => None,
    }
}

/// A sequence without `%` and `+` percent-decodes to itself.
pub proof fn lemma_decoded_plain(s: Seq<u8>)
    requires
        forall|i: int| 0 <= i < s.len() ==> s[i] != PERCENT && s[i] != PLUS,
    ensures
        decoded(s) == Some(s),
    decreases s.len(),
{
    if s.len() == 0 {
        assert(s =~= Seq::<u8>::empty());
    } else {
        assert forall|i: int| 0 <= i < s.skip(1).len() implies s.skip(1)[i] != PERCENT && s.skip(
            1,
        )[i] != PLUS by {
            assert(s.skip(1)[i] == s[i + 1]);
        }
        lemma_decoded_plain(s.skip(1));
        assert(seq![s[0]] + s.skip(1) =~= s);
    }
}

proof fn lemma_last_value_push(ps: Seq<(Seq<u8>, Seq<u8>)>, p: (Seq<u8>, Seq<u8>), key: Seq<u8>)
    ensures
        last_value_of(ps.push(p), key) == (if p.0 == key {
            Some(p.1)
        } else {
            last_value_of(ps, key)
        }),
{
    assert(ps.push(p).last() == p);
    assert(ps.push(p).drop_last() =~= ps);
}

/// Byte-for-byte equality of two slices.
pub fn bytes_eq(a: &[u8], b: &[u8]) -> (r: bool)
    ensures
        r == (a@ == b@),
{
    if a.len() != b.len() {
        proof {
            assert(a@ != b@);
        }
        return false;
    }
    let mut i: usize = 0;
    while i < a.len()
        invariant
            0 <= i <= a@.len(),
            a@.len() == b@.len(),
            forall|j: int| 0 <= j < i ==> a@[j] == b@[j],
        decreases a@.len() - i,
    {
        if a[i] != b[i] {
            return false;
        }
        i = i + 1;
    }
    proof {
        assert(a@ =~= b@);
    }
    true
}

/// The key bytes `code`, as a vector.
pub fn code_key_bytes() -> (r: Vec<u8>)
    ensures
        r@ == code_key(),
{
    let mut v: Vec<u8> = Vec::new();
    v.push(0x63);
    v.push(0x6f);
    v.push(0x64);
    v.push(0x65);
    proof {
        assert(v@ =~= code_key());
    }
    v
}

/// The outcome of looking for the `code` parameter in a query string.
pub enum QueryParse {
    /// The query has a `%` that is not followed by two hex digits.
    Malformed,
    /// The query is well-formed but has no `code` key.
    NoCode,
    /// The decoded value of the (last) `code` key.
    Code(Vec<u8>),
}

/// Looks the `code` parameter up in the raw query component `q`.
pub fn extract_code(q: &[u8]) -> (r: QueryParse)
    ensures
        match r {
            QueryParse::Malformed => code_of_query(q@) is None,
            QueryParse::NoCode => code_of_query(q@) == Some(Option::<Seq<u8>>::None),
            QueryParse::Code(c) => code_of_query(q@) == Some(Some(c@)),
        },
{
    let code_key_v = code_key_bytes();
    let mut found: Option<Vec<u8>> = None;
    let ghost mut acc: Seq<(Seq<u8>, Seq<u8>)> = Seq::empty();
    let mut start: usize = 0;
    proof {
        assert(q@.skip(0) =~= q@);
    }
    while start < q.len()
        invariant
            0 <= start <= q@.len(),
            code_key_v@ == code_key(),
            match pairs_of(segments(q@.skip(start as int))) {
                Some(rest) => query_pairs(q@) == Some(acc + rest),
                None => query_pairs(q@) is None,
            },
            match found {
                Some(c) => last_value_of(acc, code_key()) == Some(c@),
                None => last_value_of(acc, code_key()) is None,
            },
        decreases q@.len() - start,
    {
        let ghost g = q@.skip(start as int);
        let mut j: usize = start;
        while j < q.len() && q[j] != AMPERSAND
            invariant
                start <= j <= q@.len(),
                forall|t: int| start <= t < j ==> q@[t] != AMPERSAND,
            decreases q@.len() - j,
        {
            j = j + 1;
        }
        proof {
            assert forall|t: int| 0 <= t < j - start implies g[t] != AMPERSAND by {
                assert(g[t] == q@[start + t]);
            }
            if j < q@.len() {
                assert(g[j - start] == q@[j as int]);
            }
            lemma_first_sep_unique(g, AMPERSAND, j - start);
        }
        let seg: &[u8] = &q[start..j];
        proof {
            assert(seg@ =~= g.take(j - start));
            if j == q@.len() {
                assert(g.take(j - start) =~= g);
                assert(segments(g) == seq![g]);
                assert(seq![g].drop_first() =~= Seq::<Seq<u8>>::empty());
            } else {
                assert(g.skip(j - start + 1) =~= q@.skip(j + 1));
                assert((seq![g.take(j - start)] + segments(g.skip(j - start + 1)))[0] == g.take(
                    j - start,
                ));
                assert((seq![g.take(j - start)] + segments(g.skip(j - start + 1))).drop_first()
                    =~= segments(q@.skip(j + 1)));
            }
        }
        if seg.len() > 0 {
            let mut e: usize = 0;
            while e < seg.len() && seg[e] != EQUALS
                invariant
                    0 <= e <= seg@.len(),
                    forall|t: int| 0 <= t < e ==> seg@[t] != EQUALS,
                decreases seg@.len() - e,
            {
                e = e + 1;
            }
            proof {
                lemma_first_sep_unique(seg@, EQUALS, e as int);
            }
            let key_raw: &[u8] = &seg[0..e];
            proof {
                assert(key_raw@ =~= raw_key(seg@));
            }
            let key_dec = percent_decode(key_raw);
            let val_dec: Option<Vec<u8>> = if e < seg.len() {
                let val_raw: &[u8] = &seg[e + 1..seg.len()];
                proof {
                    assert(val_raw@ =~= raw_val(seg@));
                }
                percent_decode(val_raw)
            } else {
                proof {
                    assert(raw_val(seg@) =~= Seq::<u8>::empty());
                }
                Some(Vec::new())
            };
            match (key_dec, val_dec) {
                (Some(k), Some(v)) => {
                    proof {
                        let p = (k@, v@);
                        if pairs_of(segments(g)) is Some {
                            let rest = pairs_of(segments(g)).unwrap();
                            assert(rest == seq![p] + pairs_of(
                                segments(g).drop_first(),
                            ).unwrap());
                            assert(acc + rest =~= (acc.push(p)) + pairs_of(
                                segments(g).drop_first(),
                            ).unwrap());
                        }
                        lemma_last_value_push(acc, p, code_key());
                        acc = acc.push(p);
                    }
                    if bytes_eq(k.as_slice(), code_key_v.as_slice()) {
                        found = Some(v);
                    }
                },
                _ => {
                    return QueryParse::Malformed;
                },
            }
        }
        if j < q.len() {
            start = j + 1;
        } else {
            start = j;
            proof {
                assert(q@.skip(start as int) =~= Seq::<u8>::empty());
            }
        }
    }
    proof {
        assert(q@.skip(start as int) =~= Seq::<u8>::empty());
        assert(segments(Seq::<u8>::empty()) =~= Seq::<Seq<u8>>::empty());
        assert(pairs_of(Seq::<Seq<u8>>::empty()) == Some(Seq::<(Seq<u8>, Seq<u8>)>::empty()));
        assert(acc + Seq::<(Seq<u8>, Seq<u8>)>::empty() =~= acc);
    }
    match found {
        Some(c) => QueryParse::Code(c),
        None => QueryParse::NoCode,
    }
}

} // verus!
