//! The identifiers that replies are told apart by.

use vstd::prelude::*;

use axum::http::{HeaderMap, HeaderValue};
use vstd::utf8::{encode_utf8, is_ascii_chars, is_ascii_chars_encode_utf8};

use crate::headers::{
    contains, fields, is_value, lemma_lowered, name_from, try_insert, value_from, ROOMY,
};
use crate::text::{hex, lemma_hex, lemma_hex_differs, push_hex};

verus! {

/// Calls `rand::random`: some number.
#[verifier::external_body]
pub(crate) fn some_number() -> (n: u64)
{
    rand::random::<u64>()
}

/// The identifier that a number makes.
pub open spec fn id_text(n: u64) -> Seq<char> {
    "oxllm-"@ + hex(n as nat, 16)
}

/// Makes an identifier of a number: sixteen hexadecimal digits behind a prefix.
pub fn request_id(n: u64) -> (id: String)
    ensures
        id@ == id_text(n),
{
    let mut id = "oxllm-".to_owned();
    push_hex(&mut id, n, 16);
    id
}

/// Generates a random identifier.
pub fn generate_request_id() -> (id: String)
    ensures
        exists|n: u64| id@ == #[trigger] id_text(n),
        is_value(encode_utf8(id@)),
{
    let n: u64 = some_number();
    proof {
        law_id_is_header_value(n);
    }
    request_id(n)
}

/// Every identifier has twenty-two characters and can be the value of a header.
pub proof fn law_id_is_header_value(n: u64)
    ensures
        id_text(n).len() == 22,
        id_text(n).take(6) == "oxllm-"@,
        id_text(n).skip(6) == hex(n as nat, 16),
        is_value(encode_utf8(id_text(n))),
{
    reveal_strlit("oxllm-");
    lemma_hex(n as nat, 16);
    let id = id_text(n);
    assert(id.take(6) =~= "oxllm-"@);
    assert(id.skip(6) =~= hex(n as nat, 16));
    assert forall|i: int| 0 <= i < id.len() implies 32 < (#[trigger] id[i]) as u32 && (id[i] as u32)
        < 127 by {
        if i >= 6 {
            assert(id[i] == hex(n as nat, 16)[i - 6]);
        }
    }
    assert(is_ascii_chars(id));
    is_ascii_chars_encode_utf8(id);
}

/// Two numbers make the same identifier only if they are the same.
pub proof fn law_ids_differ(n: u64, m: u64)
    requires
        id_text(n) == id_text(m),
    ensures
        n == m,
{
    assert(id_text(n).skip(6) =~= hex(n as nat, 16)) by {
        reveal_strlit("oxllm-");
    }
    assert(id_text(m).skip(6) =~= hex(m as nat, 16)) by {
        reveal_strlit("oxllm-");
    }
    lemma_hex_differs(n, m);
}

/// The headers of a reply with its identifier.
pub open spec fn with_id(h: Map<Seq<char>, Seq<Seq<u8>>>, id: Seq<char>) -> Map<
    Seq<char>,
    Seq<Seq<u8>>,
> {
    if h.contains_key("x-request-id"@) {
        h
    } else {
        h.insert("x-request-id"@, seq![encode_utf8(id)])
    }
}

/// A reply that has an identifier keeps it; any other gets the one that is given.
/// Every other header stays.
pub proof fn law_one_id_per_reply(
    h: Map<Seq<char>, Seq<Seq<u8>>>,
    id: Seq<char>,
    other: Seq<char>,
    k: Seq<char>,
)
    ensures
        with_id(h, id).contains_key("x-request-id"@),
        h.contains_key("x-request-id"@) ==> with_id(h, id)["x-request-id"@] == h["x-request-id"@],
        !h.contains_key("x-request-id"@) ==> with_id(h, id)["x-request-id"@] == seq![
            encode_utf8(id),
        ],
        with_id(with_id(h, id), other) == with_id(h, id),
        k != "x-request-id"@ ==> (with_id(h, id).contains_key(k) <==> h.contains_key(k)) && (
        h.contains_key(k) ==> with_id(h, id)[k] == h[k]),
{
}

/// Gives a reply the header `x-request-id`, unless it has one already.
///
/// The answer is false where the reply has no room for another header, which
/// does not happen with few headers.
pub fn add_request_id(headers: &mut HeaderMap<HeaderValue>, id: &str) -> (done: bool)
    requires
        is_value(encode_utf8(id@)),
    ensures
        done ==> fields(*final(headers)) == with_id(fields(*old(headers)), id@),
        !done ==> fields(*final(headers)) == fields(*old(headers)),
        fields(*old(headers)).dom().len() <= ROOMY ==> done,
{
    proof {
        reveal_strlit("x-request-id");
    }
    if contains(headers, "x-request-id") {
        return true;
    }
    proof {
        lemma_lowered("x-request-id"@);
    }
    match name_from("x-request-id") {
        Some(name) => match value_from(id.as_bytes()) {
            Some(value) => try_insert(headers, name, value),
            None => false,
        },
        None => false,
    }
}

} // verus!
