//! Who may ask for what.

use vstd::prelude::*;

use axum::http::{HeaderMap, HeaderValue};
use subtle::ConstantTimeEq;

use crate::headers::{fields, header_text, text_of_header};
use crate::json::rendered;
use crate::reply::{error_document, error_reply, error_view, JsonReply, JsonView};
use crate::text::{starts_with, strip_prefix};

verus! {

/// Calls `ConstantTimeEq::ct_eq` of `subtle` on bytes: whether they are the
/// same. How long that takes, which is said to depend on the lengths alone, is
/// not stated.
#[verifier::external_body]
fn same_bytes(a: &[u8], b: &[u8]) -> (same: bool)
    ensures
        same == (a@ == b@),
{
    a.ct_eq(b).into()
}

/// Compares two texts, without telling by the time it takes where they differ.
fn same_text(a: &str, b: &str) -> (same: bool)
    ensures
        same == (a@ == b@),
{
    proof {
        vstd::utf8::encode_utf8_decode_utf8(a@);
        vstd::utf8::encode_utf8_decode_utf8(b@);
    }
    same_bytes(a.as_bytes(), b.as_bytes())
}

/// Whether an `Authorization` header gives the expected key. Where no key is
/// expected, any will do, and none.
pub open spec fn bears(auth_header: Option<Seq<char>>, expected: Seq<char>) -> bool {
    expected.len() == 0 || auth_header == Some("Bearer "@ + expected)
}

/// What an optional text says.
pub open spec fn header_view(h: Option<&str>) -> Option<Seq<char>> {
    match h {
        Some(s) => Some(s@),
        None => None,
    }
}

/// Checks a `Bearer <token>` header against the expected key. An empty key
/// means that no key is asked for.
pub fn check_bearer(auth_header: Option<&str>, expected: &str) -> (ok: bool)
    ensures
        ok == bears(header_view(auth_header), expected@),
{
    if same_text(expected, "") {
        proof {
            reveal_strlit("");
        }
        return true;
    }
    proof {
        reveal_strlit("");
        if expected@.len() == 0 {
            assert(expected@ =~= ""@);
        }
    }
    match auth_header {
        Some(h) => {
            let token = match strip_prefix(h, "Bearer ") {
                Some(t) => t,
                None => String::new(),
            };
            proof {
                let prefix = "Bearer "@;
                if prefix.is_prefix_of(h@) {
                    assert(h@ == prefix + token@);
                    assert(h@.skip(prefix.len() as int) =~= token@);
                    assert((prefix + expected@).skip(prefix.len() as int) =~= expected@);
                } else {
                    assert(prefix.is_prefix_of(prefix + expected@));
                }
            }
            same_text(token.as_str(), expected)
        },
        None => false,
    }
}

/// Whether a path belongs to what administrators use.
pub open spec fn is_admin(path: Seq<char>) -> bool {
    ||| "/admin/"@.is_prefix_of(path)
    ||| path == "/status"@
    ||| path == "/health"@
    ||| path == "/reload"@
}

/// Says whether a path belongs to what administrators use.
pub fn is_admin_path(path: &str) -> (yes: bool)
    ensures
        yes == is_admin(path@),
{
    starts_with(path, "/admin/") || *path == *"/status" || *path == *"/health" || *path
        == *"/reload"
}

/// The address that a request came from.
#[derive(Debug, Clone, Copy, PartialEq, Eq)]
pub enum IpAddress {
    /// Version 4, by its octets.
    V4([u8; 4]),
    /// Version 6, by its groups of sixteen bits.
    V6([u16; 8]),
}

impl IpAddress {
    /// Whether it is a loopback address: `127.0.0.0/8` or `::1`.
    pub open spec fn loopback(self) -> bool {
        match self {
            IpAddress::V4(o) => o[0] == 127,
            IpAddress::V6(g) => {
                &&& forall|i: int| 0 <= i < 7 ==> #[trigger] g@[i] == 0
                &&& g@[7] == 1
            },
        }
    }

    /// Whether it is an address of version 4 written in version 6,
    /// `::ffff:a.b.c.d`.
    pub open spec fn mapped(self) -> bool {
        match self {
            IpAddress::V4(_) => false,
            IpAddress::V6(g) => {
                &&& forall|i: int| 0 <= i < 5 ==> #[trigger] g@[i] == 0
                &&& g@[5] == 0xffff
            },
        }
    }

    /// Whether it is a loopback address, or one written in version 6.
    pub open spec fn local(self) -> bool {
        ||| self.loopback()
        ||| self.mapped() && self->V6_0@[6] / 256 == 127
    }

    /// Says whether it is a loopback address.
    pub fn is_loopback(&self) -> (yes: bool)
        ensures
            yes == self.loopback(),
    {
        match self {
            IpAddress::V4(o) => o[0] == 127,
            IpAddress::V6(g) => {
                let zeros = g[0] == 0 && g[1] == 0 && g[2] == 0 && g[3] == 0 && g[4] == 0 && g[5]
                    == 0 && g[6] == 0;
                zeros && g[7] == 1
            },
        }
    }

    /// Says whether it is a loopback address, be it written in version 6.
    pub fn is_local(&self) -> (yes: bool)
        ensures
            yes == self.local(),
    {
        match self {
            IpAddress::V4(_) => self.is_loopback(),
            IpAddress::V6(g) => {
                let zeros = g[0] == 0 && g[1] == 0 && g[2] == 0 && g[3] == 0 && g[4] == 0;
                self.is_loopback() || (zeros && g[5] == 0xffff && g[6] / 256 == 127)
            },
        }
    }
}

/// What becomes of a request.
#[derive(Debug, Clone, Copy, PartialEq, Eq, Structural)]
pub enum Access {
    Admitted,
    /// It asks for what only local administrators may use.
    LocalOnly,
    /// It does not give the key.
    KeyMissing,
}

/// What becomes of a request, by the key that is asked for, its method, where
/// it came from, its path and its `Authorization` header.
pub open spec fn access(
    api_key: Seq<char>,
    method: Seq<char>,
    from: IpAddress,
    path: Seq<char>,
    auth_header: Option<Seq<char>>,
) -> Access {
    if method == "OPTIONS"@ || from.local() {
        Access::Admitted
    } else if is_admin(path) {
        Access::LocalOnly
    } else if bears(auth_header, api_key) {
        Access::Admitted
    } else {
        Access::KeyMissing
    }
}

/// Decides what becomes of a request.
pub fn decide(
    api_key: &str,
    method: &str,
    from: &IpAddress,
    path: &str,
    auth_header: Option<&str>,
) -> (a: Access)
    ensures
        a == access(api_key@, method@, *from, path@, header_view(auth_header)),
{
    if *method == *"OPTIONS" || from.is_local() {
        return Access::Admitted;
    }
    if is_admin_path(path) {
        Access::LocalOnly
    } else if check_bearer(auth_header, api_key) {
        Access::Admitted
    } else {
        Access::KeyMissing
    }
}

impl Access {
    /// What a request is answered that is not admitted.
    pub open spec fn refusal(self) -> Option<JsonView> {
        match self {
            Access::Admitted => None,
            Access::LocalOnly => Some(
                error_view(
                    403,
                    "forbidden"@,
                    "Access denied: administrative routes are localhost-only"@,
                ),
            ),
            Access::KeyMissing => Some(
                error_view(
                    401,
                    "invalid_api_key"@,
                    "Unauthorized: provide a valid Bearer token"@,
                ),
            ),
        }
    }
}

/// Protects the routes with the gateway's key.
///
/// - `OPTIONS` requests pass.
/// - Requests from a loopback address pass.
/// - Administrative routes are open to no other, whatever token it gives.
/// - All others must give the key as a `Bearer` token, if there is a key.
pub fn auth_or_localhost(
    api_key: &str,
    method: &str,
    from: &IpAddress,
    path: &str,
    headers: &HeaderMap<HeaderValue>,
) -> (r: Result<(), JsonReply>)
    ensures
        match r {
            Ok(_) => access(
                api_key@,
                method@,
                *from,
                path@,
                text_of_header(fields(*headers), "authorization"@),
            ) is Admitted,
            Err(reply) => access(
                api_key@,
                method@,
                *from,
                path@,
                text_of_header(fields(*headers), "authorization"@),
            ).refusal() == Some(reply@),
        },
{
    proof {
        reveal_strlit("authorization");
    }
    let auth_header = header_text(headers, "authorization");
    match decide(api_key, method, from, path, auth_header) {
        Access::Admitted => Ok(()),
        Access::LocalOnly => Err(
            error_reply(
                403,
                "forbidden",
                "Access denied: administrative routes are localhost-only".to_owned(),
            ),
        ),
        Access::KeyMissing => Err(
            error_reply(
                401,
                "invalid_api_key",
                "Unauthorized: provide a valid Bearer token".to_owned(),
            ),
        ),
    }
}

/// What a request is answered where only this machine may ask: nothing, or a
/// status.
pub open spec fn let_in(from: IpAddress) -> Result<(), u16> {
    if from.loopback() {
        Ok(())
    } else {
        Err(403)
    }
}

/// Only `127.x.x.x` and `::1` are let through; everything else is answered with
/// 403.
pub proof fn law_only_loopback_is_let_in(o: [u8; 4], g: [u16; 8])
    ensures
        let_in(IpAddress::V4(o)) is Ok <==> o@[0] == 127,
        let_in(IpAddress::V6(g)) is Ok <==> g@[0] == 0 && g@[1] == 0 && g@[2] == 0 && g@[3] == 0
            && g@[4] == 0 && g@[5] == 0 && g@[6] == 0 && g@[7] == 1,
        forall|from: IpAddress| (#[trigger] let_in(from)) is Ok || let_in(from) == Err::<(), u16>(403),
{
    law_which_addresses_are_local(o, g);
}

/// Admits a request only from a loopback address; any other is answered with
/// the status.
pub fn localhost_only(from: &IpAddress) -> (r: Result<(), u16>)
    ensures
        r == let_in(*from),
{
    if from.is_loopback() {
        Ok(())
    } else {
        Err(403)
    }
}

/// Local requests are admitted, with and without a key.
pub proof fn law_local_is_admitted(
    api_key: Seq<char>,
    method: Seq<char>,
    from: IpAddress,
    path: Seq<char>,
    auth_header: Option<Seq<char>>,
)
    requires
        from.local(),
    ensures
        access(api_key, method, from, path, auth_header) is Admitted,
{
}

/// Requests from elsewhere are refused what administrators use, with and without
/// a key, and whatever they give as a token.
pub proof fn law_admin_is_local(
    api_key: Seq<char>,
    method: Seq<char>,
    from: IpAddress,
    path: Seq<char>,
    auth_header: Option<Seq<char>>,
)
    requires
        !from.local(),
        method != "OPTIONS"@,
        is_admin(path),
    ensures
        access(api_key, method, from, path, auth_header) is LocalOnly,
{
}

/// With a key, requests from elsewhere are admitted to everything else if and
/// only if they give it; without one, they are admitted.
pub proof fn law_key_is_asked_for(
    api_key: Seq<char>,
    method: Seq<char>,
    from: IpAddress,
    path: Seq<char>,
    auth_header: Option<Seq<char>>,
)
    requires
        !from.local(),
        method != "OPTIONS"@,
        !is_admin(path),
    ensures
        access(api_key, method, from, path, auth_header) is Admitted <==> api_key.len() == 0
            || auth_header == Some("Bearer "@ + api_key),
        access(api_key, method, from, path, auth_header) is Admitted || access(
            api_key,
            method,
            from,
            path,
            auth_header,
        ) is KeyMissing,
{
}

/// What stands below `/admin/` is for administrators; what stands below `/v1/`
/// is not.
pub proof fn law_admin_surface(rest: Seq<char>)
    ensures
        is_admin("/admin/"@ + rest),
        !is_admin("/v1/"@ + rest),
{
    reveal_strlit("/admin/");
    reveal_strlit("/v1/");
    reveal_strlit("/status");
    reveal_strlit("/health");
    reveal_strlit("/reload");
    assert("/admin/"@.is_prefix_of("/admin/"@ + rest));
    let path = "/v1/"@ + rest;
    assert(path[1] == 'v');
    assert("/admin/"@[1] == 'a');
    assert("/status"@[1] == 's');
    assert("/health"@[1] == 'h');
    assert("/reload"@[1] == 'r');
    if "/admin/"@.is_prefix_of(path) {
        assert(path.take(7)[1] == path[1]);
    }
}

/// A token is taken exactly if it is the key; nothing but a token is, unless
/// there is no key.
pub proof fn law_token_is_the_key(token: Seq<char>, key: Seq<char>, other: Option<Seq<char>>)
    ensures
        key.len() > 0 ==> (bears(Some("Bearer "@ + token), key) <==> token == key),
        key.len() > 0 ==> !bears(None, key),
        key.len() > 0 && other is Some && !"Bearer "@.is_prefix_of(other->0) ==> !bears(other, key),
        key.len() == 0 ==> bears(other, key),
{
    let prefix = "Bearer "@;
    assert((prefix + token).skip(prefix.len() as int) =~= token);
    assert((prefix + key).skip(prefix.len() as int) =~= key);
    assert(prefix.is_prefix_of(prefix + key));
}

/// Administrators use what stands below `/admin/`, and `/status`, `/health` and
/// `/reload`; nothing else.
pub proof fn law_what_administrators_use(path: Seq<char>)
    ensures
        is_admin(path) <==> {
            ||| path.len() >= 7 && path.take(7) == "/admin/"@
            ||| path == "/status"@
            ||| path == "/health"@
            ||| path == "/reload"@
        },
{
    reveal_strlit("/admin/");
    assert("/admin/"@.len() == 7);
}

/// Local are the addresses `127.x.x.x`, `::1`, and `127.x.x.x` written in version
/// 6; no other.
pub proof fn law_which_addresses_are_local(o: [u8; 4], g: [u16; 8])
    ensures
        IpAddress::V4(o).local() <==> o@[0] == 127,
        IpAddress::V4(o).loopback() <==> o@[0] == 127,
        IpAddress::V6(g).loopback() <==> g@[0] == 0 && g@[1] == 0 && g@[2] == 0 && g@[3] == 0
            && g@[4] == 0 && g@[5] == 0 && g@[6] == 0 && g@[7] == 1,
        IpAddress::V6(g).local() <==> g@[0] == 0 && g@[1] == 0 && g@[2] == 0 && g@[3] == 0 && g@[4]
            == 0 && ((g@[5] == 0 && g@[6] == 0 && g@[7] == 1) || (g@[5] == 0xffff && 0x7f00 <= g@[6]
            <= 0x7fff)),
{
    let six = IpAddress::V6(g);
    if six.loopback() {
        assert(g@[0] == 0 && g@[1] == 0 && g@[2] == 0 && g@[3] == 0 && g@[4] == 0 && g@[5] == 0
            && g@[6] == 0);
    }
    if six.mapped() {
        assert(g@[0] == 0 && g@[1] == 0 && g@[2] == 0 && g@[3] == 0 && g@[4] == 0);
    }
}

/// What is refused is answered with 403 where only local requests are admitted,
/// and with 401 where the key is missing; what is admitted is not refused.
pub proof fn law_refusals(
    api_key: Seq<char>,
    method: Seq<char>,
    from: IpAddress,
    path: Seq<char>,
    auth_header: Option<Seq<char>>,
)
    ensures
        ({
            let a = access(api_key, method, from, path, auth_header);
            let refusal = a.refusal();
            &&& refusal is None <==> a is Admitted
            &&& method == "OPTIONS"@ ==> refusal is None
            &&& a is LocalOnly ==> refusal->0.status == 403 && refusal->0.body == rendered(
                error_document(
                    403,
                    "forbidden"@,
                    "Access denied: administrative routes are localhost-only"@,
                ),
            )
            &&& a is KeyMissing ==> refusal->0.status == 401 && refusal->0.body == rendered(
                error_document(
                    401,
                    "invalid_api_key"@,
                    "Unauthorized: provide a valid Bearer token"@,
                ),
            )
        }),
{
}

} // verus!
