//! The guarantees of the request-handling path, stated in one place.
//!
//! Each proof function here states one promise of the endpoint over the
//! spec functions that the executable functions' contracts use, so that
//! a reader sees the promise itself and not only the definitions it
//! follows from.

use vstd::prelude::*;
use crate::query::{
    code_of_query, code_key, decoded, lemma_decoded_plain, lemma_first_sep_unique, pairs_of,
    query_pairs, raw_key, raw_val, segments, last_value_of, AMPERSAND, EQUALS, PERCENT, PLUS,
};
use crate::http::{
    auth_path, empty_body, favicon_path, handle_spec, malformed_body, no_code_body, reply_model,
    root_path, Method, OutcomeModel,
};

verus! {

/// A code byte that survives the round trip through a query string
/// unchanged: not a control byte, and not one of the four bytes that
/// carry meaning inside a query (`%`, `+`, `&`, `=`).
pub open spec fn plain_code_byte(b: u8) -> bool {
    &&& 0x20 <= b
    &&& b != 0x7f
    &&& b != PERCENT
    &&& b != PLUS
    &&& b != AMPERSAND
    &&& b != EQUALS
}

/// The query string `code=` followed by the raw code bytes.
pub open spec fn plain_code_query(c: Seq<u8>) -> Seq<u8> {
    code_key() + seq![EQUALS] + c
}

/// Submitting `GET /googleapi/auth?code=c`, for a non-empty code `c`
/// made of plain bytes, orders exactly the bytes of `c` written to the
/// destination file.
///
/// A code holding one of the reserved query bytes (for example `a&b`)
/// is outside this law: submitted raw, such a code is cut at the
/// reserved byte by any query parser, so it must be percent-encoded by
/// the sender.
pub proof fn lemma_plain_code_is_received(c: Seq<u8>)
    requires
        c.len() > 0,
        forall|i: int| 0 <= i < c.len() ==> plain_code_byte(c[i]),
    ensures
        handle_spec(Method::Get, auth_path(), plain_code_query(c)) == OutcomeModel::WriteCode(c),
{
    let q = plain_code_query(c);
    assert(q.len() == 5 + c.len());
    assert forall|j: int| 0 <= j < q.len() implies q[j] == (if j < 4 {
        code_key()[j]
    } else if j == 4 {
        EQUALS
    } else {
        c[j - 5]
    }) by {
        assert((code_key() + seq![EQUALS])[4] == EQUALS);
    }
    // The query is one single segment: no `&` occurs in it.
    assert forall|j: int| 0 <= j < q.len() implies q[j] != AMPERSAND by {}
    lemma_first_sep_unique(q, AMPERSAND, q.len() as int);
    assert(segments(q) == seq![q]);
    // Its first `=` stands right after the key `code`.
    lemma_first_sep_unique(q, EQUALS, 4);
    assert(raw_key(q) =~= code_key());
    assert(raw_val(q) =~= c);
    // Key and value decode to themselves.
    lemma_decoded_plain(code_key());
    lemma_decoded_plain(c);
    // So the query holds exactly one pair, `(code, c)`.
    assert(seq![q].drop_first() =~= Seq::<Seq<u8>>::empty());
    assert(pairs_of(Seq::<Seq<u8>>::empty()) == Some(Seq::<(Seq<u8>, Seq<u8>)>::empty()));
    let p = (code_key(), c);
    assert(query_pairs(q) == Some(seq![p] + Seq::<(Seq<u8>, Seq<u8>)>::empty()));
    assert(seq![p] + Seq::<(Seq<u8>, Seq<u8>)>::empty() =~= seq![p]);
    assert(seq![p].last() == p);
    assert(last_value_of(seq![p], code_key()) == Some(c));
    assert(code_of_query(q) == Some(Some(c)));
}

/// A request to the callback path whose query carries no `code` key is
/// answered with status 200 and `No code provided`, and orders no
/// write: the destination file is not touched.
pub proof fn lemma_no_code_no_write(q: Seq<u8>)
    requires
        code_of_query(q) == Some(Option::<Seq<u8>>::None),
    ensures
        handle_spec(Method::Get, auth_path(), q) == reply_model(200, no_code_body()),
{
}

/// The empty query carries no `code` key.
pub proof fn lemma_empty_query_has_no_code()
    ensures
        code_of_query(Seq::empty()) == Some(Option::<Seq<u8>>::None),
{
    assert(segments(Seq::<u8>::empty()) == Seq::<Seq<u8>>::empty());
    assert(pairs_of(Seq::<Seq<u8>>::empty()) == Some(Seq::<(Seq<u8>, Seq<u8>)>::empty()));
    assert(last_value_of(Seq::<(Seq<u8>, Seq<u8>)>::empty(), code_key()) is None);
}

/// Any method or path outside the routing table is answered with
/// status 404 and an empty body, whatever the query says.
pub proof fn lemma_unrouted_is_not_found(m: Method, path: Seq<u8>, query: Seq<u8>)
    requires
        !(m == Method::Get && path == auth_path()),
        !(m == Method::Get && path == root_path()),
        !(m == Method::Get && path == favicon_path()),
    ensures
        handle_spec(m, path, query) == reply_model(404, empty_body()),
{
}

/// A query with invalid percent-encoding does not bring handling down:
/// it is answered with the fixed, well-formed 400 reply.  (That the
/// executable `handle` cannot panic on any input is part of its
/// verification.)
pub proof fn lemma_malformed_query_is_rejected(q: Seq<u8>)
    requires
        code_of_query(q) is None,
    ensures
        handle_spec(Method::Get, auth_path(), q) == reply_model(400, malformed_body()),
{
}

/// A `%` not followed by two hex digits makes a sequence malformed.
pub proof fn lemma_bad_escape_is_malformed(s: Seq<u8>)
    requires
        s.len() > 0,
        s[0] == PERCENT,
        s.len() < 3 || !crate::query::is_hex_digit(s[1]) || !crate::query::is_hex_digit(s[2]),
    ensures
        decoded(s) is None,
{
}

} // verus!
