//! HTTP headers, as `axum::http` holds them: what is read out of a request or
//! a reply, and what is passed on.

use vstd::prelude::*;

use axum::http::{HeaderMap, HeaderName, HeaderValue};

use crate::text::{
    decimal, law_decimal_is_read_back, law_split_is_joined_again, law_split_takes_the_first, number,
    parse_u64, split, split_at, starts_with,
};

verus! {

/// `HeaderMap`, the headers of a message.
#[verifier::external_type_specification]
#[verifier::external_body]
#[verifier::reject_recursive_types(T)]
pub struct ExHeaderMap<T>(HeaderMap<T>);

/// `HeaderValue`, the value of a header.
#[verifier::external_type_specification]
#[verifier::external_body]
pub struct ExHeaderValue(HeaderValue);

/// `HeaderName`, the name of a header, in lower case.
#[verifier::external_type_specification]
#[verifier::external_body]
pub struct ExHeaderName(HeaderName);

/// The headers in a map: under each name the values that it has, in the order
/// in which they were added.
pub uninterp spec fn fields(h: HeaderMap<HeaderValue>) -> Map<Seq<char>, Seq<Seq<u8>>>;

/// The bytes of a header's value.
pub uninterp spec fn value_bytes(v: HeaderValue) -> Seq<u8>;

/// The text of a header's name.
pub uninterp spec fn name_text(n: HeaderName) -> Seq<char>;

/// With this many names or fewer, a map always has room for one more.
pub const ROOMY: usize = 6553;

/// Whether `c` is a capital letter of ASCII.
pub open spec fn is_capital(c: char) -> bool {
    'A' <= c <= 'Z'
}

/// The characters that the name of a header is made of.
pub open spec fn is_token_char(c: char) -> bool {
    ||| 'a' <= c <= 'z'
    ||| is_capital(c)
    ||| '0' <= c <= '9'
    ||| c == '!' || c == '#' || c == '$' || c == '%' || c == '&' || c == '\''
    ||| c == '*' || c == '+' || c == '-' || c == '.'
    ||| c == '^' || c == '_' || c == '`' || c == '|' || c == '~'
}

/// Whether `s` can be the name of a header.
pub open spec fn is_token(s: Seq<char>) -> bool {
    &&& 0 < s.len() <= 65535
    &&& forall|i: int| 0 <= i < s.len() ==> is_token_char(#[trigger] s[i])
}

/// Whether `s` holds no capital letter.
pub open spec fn is_lower(s: Seq<char>) -> bool {
    forall|i: int| 0 <= i < s.len() ==> !is_capital(#[trigger] s[i])
}

/// Whether `s` can be the name of a header, and holds no capital letter.
pub open spec fn is_name(s: Seq<char>) -> bool {
    is_token(s) && is_lower(s)
}

/// A character, where it is a capital letter the small one.
pub open spec fn lower_char(c: char) -> char {
    if is_capital(c) {
        (c as u32 + 32) as char
    } else {
        c
    }
}

/// `s` with small letters in the places of capital ones.
pub open spec fn lowered(s: Seq<char>) -> Seq<char> {
    s.map_values(|c: char| lower_char(c))
}

/// Whether `b` may stand in the value of a header.
pub open spec fn is_value_byte(b: u8) -> bool {
    (b >= 32 && b != 127) || b == 9
}

/// Whether `bytes` can be the value of a header.
pub open spec fn is_value(bytes: Seq<u8>) -> bool {
    forall|i: int| 0 <= i < bytes.len() ==> is_value_byte(#[trigger] bytes[i])
}

/// Whether `b` is a visible ASCII character, a blank or a tab.
pub open spec fn is_visible_byte(b: u8) -> bool {
    (32 <= b && b < 127) || b == 9
}

/// Whether a value consists of visible ASCII characters, blanks and tabs.
pub open spec fn is_visible(bytes: Seq<u8>) -> bool {
    forall|i: int| 0 <= i < bytes.len() ==> is_visible_byte(#[trigger] bytes[i])
}

/// ASCII bytes as characters.
pub open spec fn ascii(bytes: Seq<u8>) -> Seq<char> {
    Seq::new(bytes.len(), |i: int| bytes[i] as char)
}

/// The values that a list of headers gives to the name `k`, in order.
pub open spec fn values_named(list: Seq<(Seq<char>, Seq<u8>)>, k: Seq<char>) -> Seq<Seq<u8>>
    decreases list.len(),
{
    if list.len() == 0 {
        seq![]
    } else {
        let rest = values_named(list.drop_last(), k);
        if list.last().0 == k {
            rest.push(list.last().1)
        } else {
            rest
        }
    }
}

/// A list of headers, by name.
pub open spec fn grouped(list: Seq<(Seq<char>, Seq<u8>)>) -> Map<Seq<char>, Seq<Seq<u8>>> {
    Map::new(|k: Seq<char>| values_named(list, k).len() > 0, |k: Seq<char>| values_named(list, k))
}

/// What a list of headers reads as.
pub open spec fn list_view(list: Seq<(String, Vec<u8>)>) -> Seq<(Seq<char>, Seq<u8>)> {
    list.map_values(|e: (String, Vec<u8>)| (e.0@, e.1@))
}

/// Calls `HeaderMap::get` with a name in lower case: the first value that the
/// name has, if it has one.
#[verifier::external_body]
pub(crate) fn get<'a>(h: &'a HeaderMap<HeaderValue>, name: &str) -> (v: Option<&'a HeaderValue>)
    requires
        is_name(name@),
    ensures
        match v {
            Some(w) => fields(*h).contains_key(name@) && fields(*h)[name@].len() > 0
                && value_bytes(*w) == fields(*h)[name@][0],
            None => !fields(*h).contains_key(name@),
        },
{
    h.get(name)
}

/// Calls `HeaderMap::contains_key` with a name in lower case.
#[verifier::external_body]
pub(crate) fn contains(h: &HeaderMap<HeaderValue>, name: &str) -> (yes: bool)
    requires
        is_name(name@),
    ensures
        yes == fields(*h).contains_key(name@),
{
    h.contains_key(name)
}

/// Calls `HeaderValue::to_str`: the value as text, if it is visible.
#[verifier::external_body]
fn value_text(v: &HeaderValue) -> (s: Option<&str>)
    ensures
        match s {
            Some(t) => is_visible(value_bytes(*v)) && t@ == ascii(value_bytes(*v)),
            None => !is_visible(value_bytes(*v)),
        },
{
    v.to_str().ok()
}

/// Calls `HeaderValue::as_bytes`: the bytes of the value.
#[verifier::external_body]
pub(crate) fn bytes_of(v: &HeaderValue) -> (b: &[u8])
    ensures
        b@ == value_bytes(*v),
{
    v.as_bytes()
}

/// Calls `HeaderMap::iter`, and hands out each name and value that it visits:
/// every value of every name, the values of one name in their order. No name
/// holds a capital letter. In which order the names come is left open.
#[verifier::external_body]
fn entries(h: &HeaderMap<HeaderValue>) -> (list: Vec<(String, Vec<u8>)>)
    ensures
        fields(*h) == grouped(list_view(list@)),
        forall|i: int| 0 <= i < list@.len() ==> is_lower((#[trigger] list@[i]).0@),
{
    h.iter().map(|(k, v)| (k.as_str().to_string(), v.as_bytes().to_vec())).collect()
}

/// Calls `HeaderName::from_bytes` on a text: the name, in small letters, where
/// the text can be one.
#[verifier::external_body]
pub(crate) fn name_from(s: &str) -> (n: Option<HeaderName>)
    ensures
        n is Some <==> is_token(s@),
        n matches Some(m) ==> name_text(m) == lowered(s@),
{
    HeaderName::from_bytes(s.as_bytes()).ok()
}

/// Calls `HeaderValue::from_bytes`: the value, where no byte is a control
/// character other than the tab.
#[verifier::external_body]
pub(crate) fn value_from(b: &[u8]) -> (v: Option<HeaderValue>)
    ensures
        v is Some <==> is_value(b@),
        v matches Some(w) ==> value_bytes(w) == b@,
{
    HeaderValue::from_bytes(b).ok()
}

/// Calls `HeaderMap::try_insert`: the name then has this value and no other.
/// The map is left as it was where it is full, which it is not with few names.
#[verifier::external_body]
pub(crate) fn try_insert(
    h: &mut HeaderMap<HeaderValue>,
    name: HeaderName,
    value: HeaderValue,
) -> (done: bool)
    ensures
        done ==> fields(*final(h)) == fields(*old(h)).insert(
            name_text(name),
            seq![value_bytes(value)],
        ),
        !done ==> fields(*final(h)) == fields(*old(h)),
        !done ==> fields(*old(h)).dom().len() > ROOMY,
        fields(*old(h)).dom().finite() && fields(*final(h)).dom().finite(),
{
    h.try_insert(name, value).is_ok()
}

/// The text of the first value of the header `name`, if it has one and that is
/// visible.
pub open spec fn text_of_header(h: Map<Seq<char>, Seq<Seq<u8>>>, name: Seq<char>) -> Option<
    Seq<char>,
> {
    if h.contains_key(name) && is_visible(h[name][0]) {
        Some(ascii(h[name][0]))
    } else {
        None
    }
}

/// Reads the header `name` as text.
pub(crate) fn header_text<'a>(h: &'a HeaderMap<HeaderValue>, name: &str) -> (s: Option<&'a str>)
    requires
        is_name(name@),
    ensures
        match s {
            Some(t) => text_of_header(fields(*h), name@) == Some(t@),
            None => text_of_header(fields(*h), name@) is None,
        },
{
    match get(h, name) {
        Some(v) => value_text(v),
        None => None,
    }
}

/// What the header `traceparent` of a request says of its trace: the second
/// and the third of the parts between its hyphens, if there are as many.
pub open spec fn trace_parts(h: Map<Seq<char>, Seq<Seq<u8>>>) -> Option<(Seq<char>, Seq<char>)> {
    match text_of_header(h, "traceparent"@) {
        Some(s) => if split(s, '-', 0).len() >= 3 {
            Some((split(s, '-', 0)[1], split(s, '-', 0)[2]))
        } else {
            None
        },
        None => None,
    }
}

/// Extracts the W3C trace and span of `traceparent`, which is written
/// `00-{trace_id}-{span_id}-{flags}`.
pub fn extract_traceparent(headers: &HeaderMap<HeaderValue>) -> (r: (Option<String>, Option<String>))
    ensures
        match trace_parts(fields(*headers)) {
            Some((trace, span)) => r.0 is Some && r.0->0@ == trace && r.1 is Some && r.1->0@ == span,
            None => r.0 is None && r.1 is None,
        },
{
    proof {
        reveal_strlit("traceparent");
    }
    match header_text(headers, "traceparent") {
        Some(s) => {
            let mut segments = split_at(s, '-');
            let ghost parts = split(s@, '-', 0);
            assert(crate::text::views(segments@).len() == segments@.len());
            if segments.len() >= 3 {
                assert(crate::text::views(segments@)[1] == segments@[1]@);
                assert(crate::text::views(segments@)[2] == segments@[2]@);
                let span = segments.swap_remove(2);
                let trace = segments.swap_remove(1);
                (Some(trace), Some(span))
            } else {
                (None, None)
            }
        },
        None => (None, None),
    }
}

/// The number of seconds that the header `name` writes, if it writes one.
pub open spec fn seconds_in(h: Map<Seq<char>, Seq<Seq<u8>>>, name: Seq<char>) -> Option<u64> {
    match text_of_header(h, name) {
        Some(s) => match number(s) {
            Some(v) => if v <= u64::MAX {
                Some(v as u64)
            } else {
                None
            },
            None => None,
        },
        None => None,
    }
}

/// For how many seconds a reply asks to be left alone: what the first of the
/// three headers says that says it.
pub open spec fn retry_delay(h: Map<Seq<char>, Seq<Seq<u8>>>) -> Option<u64> {
    match seconds_in(h, "retry-after"@) {
        Some(s) => Some(s),
        None => match seconds_in(h, "x-ratelimit-reset-tokens"@) {
            Some(s) => Some(s),
            None => seconds_in(h, "x-ratelimit-reset-requests"@),
        },
    }
}

fn header_seconds(headers: &HeaderMap<HeaderValue>, name: &str) -> (s: Option<u64>)
    requires
        is_name(name@),
    ensures
        s == seconds_in(fields(*headers), name@),
{
    match header_text(headers, name) {
        Some(text) => parse_u64(text),
        None => None,
    }
}

/// Extracts, in seconds, how long to wait before the next attempt.
pub fn extract_retry_after(headers: &HeaderMap<HeaderValue>) -> (seconds: Option<u64>)
    ensures
        seconds == retry_delay(fields(*headers)),
{
    proof {
        reveal_strlit("retry-after");
        reveal_strlit("x-ratelimit-reset-tokens");
        reveal_strlit("x-ratelimit-reset-requests");
    }
    let after = header_seconds(headers, "retry-after");
    if after.is_some() {
        return after;
    }
    let tokens = header_seconds(headers, "x-ratelimit-reset-tokens");
    if tokens.is_some() {
        return tokens;
    }
    header_seconds(headers, "x-ratelimit-reset-requests")
}

/// Whether a header of an upstream reply is passed on.
pub open spec fn is_passed_on(name: Seq<char>) -> bool {
    ||| "x-"@.is_prefix_of(name)
    ||| name == "content-type"@
    ||| name == "cache-control"@
    ||| name == "openai-version"@
}

/// The last of the values that can be the value of a header.
pub open spec fn last_good(values: Seq<Seq<u8>>) -> Option<Seq<u8>>
    decreases values.len(),
{
    if values.len() == 0 {
        None
    } else if is_value(values.last()) {
        Some(values.last())
    } else {
        last_good(values.drop_last())
    }
}

/// The value that the header `k` of an upstream reply is passed on with, if it
/// is passed on.
pub open spec fn passed_on(src: Map<Seq<char>, Seq<Seq<u8>>>, k: Seq<char>) -> Option<Seq<u8>> {
    if src.contains_key(k) && is_passed_on(k) && is_token(k) {
        last_good(src[k])
    } else {
        None
    }
}

/// The headers `dest` with those of `src` that are passed on put over them.
pub open spec fn copied(
    src: Map<Seq<char>, Seq<Seq<u8>>>,
    dest: Map<Seq<char>, Seq<Seq<u8>>>,
) -> Map<Seq<char>, Seq<Seq<u8>>> {
    Map::new(
        |k: Seq<char>| dest.contains_key(k) || passed_on(src, k) is Some,
        |k: Seq<char>|
            match passed_on(src, k) {
                Some(v) => seq![v],
                None => dest[k],
            },
    )
}

/// What holds no capital letter stays as it is in small letters.
pub proof fn lemma_lowered(s: Seq<char>)
    requires
        is_lower(s),
    ensures
        lowered(s) == s,
{
    assert(lowered(s) =~= s);
}

proof fn lemma_grouped_finite(list: Seq<(Seq<char>, Seq<u8>)>)
    ensures
        grouped(list).dom().finite(),
    decreases list.len(),
{
    if list.len() == 0 {
        assert(grouped(list).dom() =~= Set::<Seq<char>>::empty());
    } else {
        lemma_grouped_finite(list.drop_last());
        assert(grouped(list).dom() =~= grouped(list.drop_last()).dom().insert(list.last().0));
    }
}

proof fn lemma_copied_step(
    list: Seq<(Seq<char>, Seq<u8>)>,
    k: Seq<char>,
    v: Seq<u8>,
    dest: Map<Seq<char>, Seq<Seq<u8>>>,
)
    ensures
        ({
            let before = copied(grouped(list), dest);
            let after = copied(grouped(list.push((k, v))), dest);
            if is_passed_on(k) && is_token(k) && is_value(v) {
                after =~= before.insert(k, seq![v])
            } else {
                after =~= before
            }
        }),
{
    let longer = list.push((k, v));
    assert(longer.drop_last() == list);
    assert(values_named(longer, k) == values_named(list, k).push(v));
    assert(values_named(longer, k).drop_last() == values_named(list, k));
    assert forall|j: Seq<char>| j != k implies values_named(longer, j) == values_named(list, j) by {}
    assert(last_good(values_named(longer, k)) == (if is_value(v) {
        Some(v)
    } else {
        last_good(values_named(list, k))
    }));
    assert(values_named(list, k).len() == 0 ==> last_good(values_named(list, k)) is None);
    assert forall|j: Seq<char>| j != k implies passed_on(grouped(longer), j) == passed_on(
        grouped(list),
        j,
    ) by {
        assert(values_named(longer, j) == values_named(list, j));
    }
}

/// Passes on those headers of an upstream reply that describe it, and none that
/// say how it is encoded or transferred.
///
/// The answer is false where `dest` has no room left, which does not happen
/// with few headers. Some of those headers may then be missing.
pub fn copy_response_headers(
    src: &HeaderMap<HeaderValue>,
    dest: &mut HeaderMap<HeaderValue>,
) -> (done: bool)
    ensures
        done ==> fields(*final(dest)) == copied(fields(*src), fields(*old(dest))),
        forall|k: Seq<char>|
            !is_passed_on(k) ==> fields(*final(dest)).contains_key(k) == fields(
                *old(dest),
            ).contains_key(k) && (fields(*old(dest)).contains_key(k) ==> #[trigger] fields(
                *final(dest),
            )[k] == fields(*old(dest))[k]),
        fields(*src).dom().len() + fields(*old(dest)).dom().len() <= ROOMY ==> done,
{
    let list = entries(src);
    let ghost all = list_view(list@);
    let ghost first = fields(*dest);
    let mut i: usize = 0;
    assert(all.take(0) == Seq::<(Seq<char>, Seq<u8>)>::empty());
    assert(copied(grouped(all.take(0)), first) =~= first);
    while i < list.len()
        invariant
            i <= list@.len(),
            all == list_view(list@),
            forall|j: int| 0 <= j < list@.len() ==> is_lower((#[trigger] list@[j]).0@),
            fields(*src) == grouped(all),
            first == fields(*old(dest)),
            fields(*dest) == copied(grouped(all.take(i as int)), first),
            fields(*dest).dom().subset_of(first.dom().union(fields(*src).dom())),
        decreases list@.len() - i,
    {
        let name = list[i].0.as_str();
        let value = &list[i].1;
        let ghost now = fields(*dest);
        proof {
            assert(all[i as int] == (name@, value@));
            assert(all.take(i + 1) == all.take(i as int).push(all[i as int]));
            lemma_copied_step(all.take(i as int), name@, value@, first);
            lemma_in_group(all, i as int);
            lemma_lowered(name@);
            reveal_strlit("x-");
        }
        if starts_with(name, "x-") || *name == *"content-type" || *name == *"cache-control" || *name
            == *"openai-version" {
            match name_from(name) {
                Some(n) => match value_from(value.as_slice()) {
                    Some(v) => {
                        if !try_insert(dest, n, v) {
                            proof {
                                lemma_grouped_finite(all);
                                let both = first.dom().union(fields(*src).dom());
                                assert(first.dom().subset_of(now.dom()));
                                vstd::set_lib::lemma_len_subset(first.dom(), now.dom());
                                vstd::set_lib::lemma_len_union(first.dom(), fields(*src).dom());
                                vstd::set_lib::lemma_len_subset(now.dom(), both);
                            }
                            return false;
                        }
                    },
                    None => {},
                },
                None => {},
            }
        }
        i += 1;
    }
    assert(all.take(i as int) == all);
    true
}

proof fn lemma_in_group(list: Seq<(Seq<char>, Seq<u8>)>, i: int)
    requires
        0 <= i < list.len(),
    ensures
        grouped(list).contains_key(list[i].0),
    decreases list.len(),
{
    if i < list.len() - 1 {
        lemma_in_group(list.drop_last(), i);
    }
}

/// What says how a reply is encoded or transferred is never passed on, and
/// nothing is that the upstream did not send.
pub proof fn law_encoding_stays_behind(
    src: Map<Seq<char>, Seq<Seq<u8>>>,
    dest: Map<Seq<char>, Seq<Seq<u8>>>,
    k: Seq<char>,
)
    ensures
        !is_passed_on("content-encoding"@),
        !is_passed_on("content-length"@),
        !is_passed_on("transfer-encoding"@),
        copied(src, dest).contains_key(k) && !dest.contains_key(k) ==> src.contains_key(k)
            && is_passed_on(k),
        dest.contains_key(k) && (!is_passed_on(k) || !src.contains_key(k)) ==> copied(
            src,
            dest,
        ).contains_key(k) && copied(src, dest)[k] == dest[k],
{
    reveal_strlit("x-");
    reveal_strlit("content-type");
    reveal_strlit("cache-control");
    reveal_strlit("openai-version");
    reveal_strlit("content-encoding");
    reveal_strlit("content-length");
    reveal_strlit("transfer-encoding");
    assert("content-encoding"@.len() == 16);
    assert("content-length"@.len() == 14);
    assert("transfer-encoding"@.len() == 17);
    assert("content-length"@[0] == 'c' && "openai-version"@[0] == 'o');
    assert("x-"@[0] == 'x');
    assert forall|s: Seq<char>| "x-"@.is_prefix_of(s) implies #[trigger] s[0] == 'x' by {
        assert(s.take(2)[0] == s[0]);
    }
}

/// A header is read as text if it is there and the first of its values consists
/// of visible characters, blanks and tabs; the text has a character for each byte.
pub proof fn law_header_text(h: Map<Seq<char>, Seq<Seq<u8>>>, name: Seq<char>)
    ensures
        text_of_header(h, name) is Some <==> h.contains_key(name) && forall|i: int|
            0 <= i < h[name][0].len() ==> (#[trigger] h[name][0][i] == 9 || 32 <= h[name][0][i]
                < 127),
        text_of_header(h, name) matches Some(t) ==> t.len() == h[name][0].len() && forall|i: int|
            0 <= i < t.len() ==> (#[trigger] t[i]) as nat == h[name][0][i] as nat,
{
    if h.contains_key(name) {
        let v = h[name][0];
        assert(is_visible(v) <==> forall|i: int|
            0 <= i < v.len() ==> (#[trigger] v[i] == 9 || 32 <= v[i] < 127)) by {
            if is_visible(v) {
                assert forall|i: int| 0 <= i < v.len() implies (#[trigger] v[i] == 9 || 32 <= v[i]
                    < 127) by {
                    assert(is_visible_byte(v[i]));
                }
            }
        }
        if is_visible(v) {
            let t = ascii(v);
            assert forall|i: int| 0 <= i < t.len() implies (#[trigger] t[i]) as nat == v[i] as nat by {
                assert(is_visible_byte(v[i]));
            }
        }
    }
}

/// What stands between the first and the second hyphen of `traceparent` is the
/// trace, and what stands behind the second, up to the third or the end, is the
/// span; with fewer hyphens, or without the header, there is neither.
pub proof fn law_trace_and_span(
    h: Map<Seq<char>, Seq<Seq<u8>>>,
    version: Seq<char>,
    trace: Seq<char>,
    span: Seq<char>,
    rest: Seq<char>,
)
    requires
        !version.contains('-'),
        !trace.contains('-'),
        !span.contains('-'),
    ensures
        ({
            let text = text_of_header(h, "traceparent"@);
            let two = version + seq!['-'] + (trace + seq!['-'] + span);
            let more = version + seq!['-'] + (trace + seq!['-'] + (span + seq!['-'] + rest));
            &&& text is None ==> trace_parts(h) is None
            &&& text == Some(version) ==> trace_parts(h) is None
            &&& text == Some(version + seq!['-'] + trace) ==> trace_parts(h) is None
            &&& text == Some(two) ==> trace_parts(h) == Some((trace, span))
            &&& text == Some(more) ==> trace_parts(h) == Some((trace, span))
        }),
{
    let tail = span + seq!['-'] + rest;
    law_split_takes_the_first(version, '-', trace);
    law_split_takes_the_first(version, '-', trace + seq!['-'] + span);
    law_split_takes_the_first(version, '-', trace + seq!['-'] + tail);
    law_split_takes_the_first(trace, '-', span);
    law_split_takes_the_first(trace, '-', tail);
    law_split_takes_the_first(span, '-', rest);
    law_split_is_joined_again(rest, '-');
}

/// What a header writes is a number of seconds where it fits in 64 bits; a greater
/// one is none.
pub proof fn law_seconds_fit(h: Map<Seq<char>, Seq<Seq<u8>>>, name: Seq<char>, v: nat)
    ensures
        ({
            let text = text_of_header(h, name);
            &&& text is None ==> seconds_in(h, name) is None
            &&& text is Some && number(text->0) is None ==> seconds_in(h, name) is None
            &&& text is Some && number(text->0) == Some(v) && v <= 0xffff_ffff_ffff_ffff
                ==> seconds_in(h, name) is Some && seconds_in(h, name)->0 == v
            &&& text is Some && number(text->0) == Some(v) && v > 0xffff_ffff_ffff_ffff
                ==> seconds_in(h, name) is None
        }),
{
}

/// The seconds that `retry-after` writes count, whatever the two other headers
/// say; where it writes none, those of `x-ratelimit-reset-tokens`; where that
/// writes none either, those of `x-ratelimit-reset-requests`.
pub proof fn law_first_delay_counts(h: Map<Seq<char>, Seq<Seq<u8>>>, n: u64)
    ensures
        ({
            let after = text_of_header(h, "retry-after"@);
            let tokens = text_of_header(h, "x-ratelimit-reset-tokens"@);
            let requests = text_of_header(h, "x-ratelimit-reset-requests"@);
            &&& seconds_in(h, "retry-after"@) == Some(n) ==> retry_delay(h) == Some(n)
            &&& seconds_in(h, "retry-after"@) is None && seconds_in(
                h,
                "x-ratelimit-reset-tokens"@,
            ) == Some(n) ==> retry_delay(h) == Some(n)
            &&& seconds_in(h, "retry-after"@) is None && seconds_in(
                h,
                "x-ratelimit-reset-tokens"@,
            ) is None ==> retry_delay(h) == seconds_in(h, "x-ratelimit-reset-requests"@)
            &&& after == Some(decimal(n as nat)) ==> retry_delay(h) == Some(n)
            &&& (after is None || number(after->0) is None) && tokens == Some(decimal(n as nat))
                ==> retry_delay(h) == Some(n)
            &&& (after is None || number(after->0) is None) && (tokens is None || number(
                tokens->0,
            ) is None) && requests == Some(decimal(n as nat)) ==> retry_delay(h) == Some(n)
            &&& (after is None || number(after->0) is None) && (tokens is None || number(
                tokens->0,
            ) is None) && (requests is None || number(requests->0) is None) ==> retry_delay(
                h,
            ) is None
        }),
{
    law_decimal_is_read_back(n as nat);
}

/// Of an upstream's headers those are passed on whose name begins with `x-`, and
/// three more; no other.
pub proof fn law_what_is_passed_on(name: Seq<char>)
    ensures
        is_passed_on(name) <==> {
            ||| name.len() >= 2 && name[0] == 'x' && name[1] == '-'
            ||| name == "content-type"@
            ||| name == "cache-control"@
            ||| name == "openai-version"@
        },
{
    reveal_strlit("x-");
    assert("x-"@ =~= seq!['x', '-']);
    if name.len() >= 2 && name[0] == 'x' && name[1] == '-' {
        assert(name.take(2) =~= "x-"@);
    }
    if "x-"@.is_prefix_of(name) {
        assert(name.take(2)[0] == name[0]);
        assert(name.take(2)[1] == name[1]);
    }
}

/// A header that is passed on and whose last value can be one has that value
/// afterwards, and no other, whatever stood there before.
pub proof fn law_last_value_is_passed_on(
    src: Map<Seq<char>, Seq<Seq<u8>>>,
    dest: Map<Seq<char>, Seq<Seq<u8>>>,
    k: Seq<char>,
)
    requires
        src.contains_key(k),
        src[k].len() > 0,
        is_token(k),
        k == "content-type"@ || k == "cache-control"@ || k == "openai-version"@ || (k.len() >= 2
            && k[0] == 'x' && k[1] == '-'),
        forall|i: int| 0 <= i < src[k].last().len() ==> (#[trigger] src[k].last()[i]) == 9 || (32
            <= src[k].last()[i] && src[k].last()[i] != 127),
    ensures
        copied(src, dest).contains_key(k),
        copied(src, dest)[k] == seq![src[k].last()],
{
    law_what_is_passed_on(k);
    assert(is_value(src[k].last()));
}

/// What cannot be the value of a header is passed over: the value before it
/// counts.
pub proof fn law_bad_value_is_passed_over(values: Seq<Seq<u8>>, bad: Seq<u8>, i: int)
    requires
        0 <= i < bad.len(),
        bad[i] == 127 || (bad[i] < 32 && bad[i] != 9),
    ensures
        last_good(values.push(bad)) == last_good(values),
        last_good(Seq::empty()) is None,
{
    assert(!is_value_byte(bad[i]));
    assert(values.push(bad).drop_last() =~= values);
}

/// It is passed over in the headers that are passed on, too.
pub proof fn law_bad_value_does_not_hide_the_good(
    src: Map<Seq<char>, Seq<Seq<u8>>>,
    k: Seq<char>,
    values: Seq<Seq<u8>>,
    bad: Seq<u8>,
    i: int,
)
    requires
        0 <= i < bad.len(),
        bad[i] == 127 || (bad[i] < 32 && bad[i] != 9),
    ensures
        passed_on(src.insert(k, values.push(bad)), k) == passed_on(src.insert(k, values), k),
{
    law_bad_value_is_passed_over(values, bad, i);
}

/// A header of which no value can be passed on stays as it was before, and one that
/// can be takes its place.
pub proof fn law_what_stands_afterwards(
    src: Map<Seq<char>, Seq<Seq<u8>>>,
    dest: Map<Seq<char>, Seq<Seq<u8>>>,
    k: Seq<char>,
)
    ensures
        copied(src, dest).contains_key(k) <==> dest.contains_key(k) || passed_on(src, k) is Some,
        passed_on(src, k) is None && dest.contains_key(k) ==> copied(src, dest)[k] == dest[k],
        passed_on(src, k) is Some ==> copied(src, dest)[k] == seq![passed_on(src, k)->0],
        src.contains_key(k) && is_token(k) && is_passed_on(k) ==> passed_on(src, k) == last_good(
            src[k],
        ),
        !src.contains_key(k) ==> passed_on(src, k) is None,
{
}

} // verus!
