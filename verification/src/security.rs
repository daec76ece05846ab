//! Which requests are let through: none with broken lines, none without the credentials where
//! they are asked for, and none that writes on behalf of another site.
use vstd::prelude::*;
use vstd::utf8::encode_utf8_decode_utf8;

use crate::api::{failure, ApiFailure, FailureView};
use crate::config::{broken, contains_crlf, BasicAuthRuntime};
use crate::text::{
    begins_at, begins_with, chars_of, has_prefix, lowered, same_text, to_lower,
};
use crate::text_laws::law_beginnings_and_ends;

verus! {

/// A header; its value is missing where it holds anything but visible ASCII characters.
#[derive(Debug, PartialEq, Eq)]
pub struct Header {
    pub name: String,
    pub value: Option<String>,
}

/// The part of a request that decides whether it is let through.
#[derive(Debug, PartialEq, Eq)]
pub struct RequestHead {
    pub method: String,
    pub path: String,
    pub query: Option<String>,
    pub headers: Vec<Header>,
}

// ---- broken lines ----

/// The header holds a carriage return, a line feed or characters that cannot be shown.
pub open spec fn broken_header(h: Header) -> bool {
    broken(h.name@) || match h.value {
        Some(value) => broken(value@),
        None => true,
    }
}

/// A carriage return or a line feed stands in the address or in a header.
pub open spec fn broken_head(head: RequestHead) -> bool {
    ||| broken(head.path@)
    ||| head.query is Some && broken(head.query->0@)
    ||| exists|i: int| 0 <= i < head.headers@.len() && broken_header(#[trigger] head.headers@[i])
}

/// Whether a carriage return or a line feed stands in the address or in a header.
pub fn request_has_crlf(head: &RequestHead) -> (r: bool)
    ensures
        r == broken_head(*head),
{
    if contains_crlf(head.path.as_str()) {
        return true;
    }
    if let Some(query) = &head.query {
        if contains_crlf(query.as_str()) {
            return true;
        }
    }
    for i in 0..head.headers.len()
        invariant
            !broken(head.path@),
            !(head.query is Some && broken(head.query->0@)),
            forall|j: int| 0 <= j < i ==> !broken_header(#[trigger] head.headers@[j]),
    {
        let h = &head.headers[i];
        let bad = contains_crlf(h.name.as_str()) || match &h.value {
            Some(value) => contains_crlf(value.as_str()),
            None => true,
        };
        if bad {
            proof {
                assert(broken_header(head.headers@[i as int]));
            }
            return true;
        }
    }
    false
}

// ---- credentials ----

/// Whether two byte strings are equal. Every byte of both is looked at whatever they hold.
pub fn constant_time_eq(left: &[u8], right: &[u8]) -> (r: bool)
    ensures
        r == (left@ == right@),
{
    if left.len() != right.len() {
        return false;
    }
    let mut diff: u8 = 0;
    let n: usize = left.len();
    for i in 0..n
        invariant
            n == left@.len(),
            n == right@.len(),
            (diff == 0) == (forall|j: int| 0 <= j < i ==> left@[j] == right@[j]),
    {
        let a: u8 = left[i];
        let b: u8 = right[i];
        let had: u8 = diff;
        proof {
            assert((had | (a ^ b)) == 0u8 <==> (had == 0u8 && a == b)) by (bit_vector);
        }
        diff = diff | (a ^ b);
    }
    proof {
        if diff == 0 {
            assert(left@ =~= right@);
        }
    }
    diff == 0
}

/// The value of the first header of the name, where there is one and it can be shown. The name is
/// given in small letters; in a request it may be written in any case.
pub open spec fn header_value(headers: Seq<Header>, name: Seq<char>) -> Option<Seq<char>>
    decreases headers.len(),
{
    if headers.len() == 0 {
        None
    } else if lowered(headers[0].name@) == name {
        match headers[0].value {
            Some(value) => Some(value@),
            None => None,
        }
    } else {
        header_value(headers.skip(1), name)
    }
}

/// The value of the first header of the name, where there is one and it can be shown.
fn value_of<'a>(headers: &'a Vec<Header>, name: &str) -> (r: Option<&'a String>)
    ensures
        r is Some == header_value(headers@, name@) is Some,
        r matches Some(value) ==> Some(value@) == header_value(headers@, name@),
{
    proof {
        assert(headers@.skip(0) =~= headers@);
    }
    for i in 0..headers.len()
        invariant
            header_value(headers@.skip(i as int), name@) == header_value(headers@, name@),
    {
        proof {
            assert(headers@.skip(i as int).skip(1) =~= headers@.skip(i + 1));
        }
        if same_text(to_lower(headers[i].name.as_str()).as_str(), name) {
            return match &headers[i].value {
                Some(value) => Some(value),
                None => None,
            };
        }
    }
    None
}

/// The request carries the expected header, or none is expected.
pub open spec fn authorized(head: RequestHead, auth: Option<BasicAuthRuntime>) -> bool {
    match auth {
        None => true,
        Some(runtime) => header_value(head.headers@, "authorization"@) == Some(
            runtime.expected_header@,
        ),
    }
}

/// Whether the request carries the expected header, or none is expected.
fn is_authorized(head: &RequestHead, auth: &Option<BasicAuthRuntime>) -> (r: bool)
    ensures
        r == authorized(*head, *auth),
{
    match auth {
        None => true,
        Some(runtime) => match value_of(&head.headers, "authorization") {
            None => false,
            Some(value) => {
                proof {
                    encode_utf8_decode_utf8(value@);
                    encode_utf8_decode_utf8(runtime.expected_header@);
                }
                constant_time_eq(
                    value.as_str().as_bytes(),
                    runtime.expected_header.as_str().as_bytes(),
                )
            },
        },
    }
}

// ---- requests on behalf of another site ----

/// The methods that change something.
pub open spec fn writes(method: Seq<char>) -> bool {
    method == "POST"@ || method == "PUT"@ || method == "PATCH"@ || method == "DELETE"@
}

/// Whether the method changes something.
fn is_write(method: &str) -> (r: bool)
    ensures
        r == writes(method@),
{
    same_text(method, "POST") || same_text(method, "PUT") || same_text(method, "PATCH")
        || same_text(method, "DELETE")
}

/// What follows the scheme of an address: all behind the first `://`.
pub open spec fn behind_scheme(address: Seq<char>) -> Option<Seq<char>>
    decreases address.len(),
{
    if address.len() == 0 {
        None
    } else if begins_with(address, "://"@) {
        Some(address.skip(3))
    } else {
        behind_scheme(address.skip(1))
    }
}

/// The characters that end the host and port of an address.
pub open spec fn ends_host(c: char) -> bool {
    c == '/' || c == '?' || c == '#'
}

/// The text before the first character that ends a host.
pub open spec fn before_path(s: Seq<char>) -> Seq<char>
    decreases s.len(),
{
    if s.len() == 0 || ends_host(s[0]) {
        Seq::empty()
    } else {
        seq![s[0]] + before_path(s.skip(1))
    }
}

/// The host and port of an address, where it has a scheme.
pub open spec fn address_host(address: Seq<char>) -> Option<Seq<char>> {
    match behind_scheme(address) {
        Some(rest) => Some(before_path(rest)),
        None => None,
    }
}

/// The text of `cs` from `at` on, before the first character that ends a host.
fn host_from(cs: &Vec<char>, at: usize) -> (r: String)
    requires
        at <= cs@.len(),
    ensures
        r@ == before_path(cs@.skip(at as int)),
{
    let mut out = String::new();
    let mut i: usize = at;
    proof {
        assert(out@ + before_path(cs@.skip(i as int)) =~= before_path(cs@.skip(at as int)));
    }
    while i < cs.len() && !(cs[i] == '/' || cs[i] == '?' || cs[i] == '#')
        invariant
            at <= i <= cs@.len(),
            out@ + before_path(cs@.skip(i as int)) == before_path(cs@.skip(at as int)),
        decreases cs@.len() - i,
    {
        let ghost had = out@;
        let ghost rest = cs@.skip(i as int);
        out.push(cs[i]);
        proof {
            assert(rest.skip(1) =~= cs@.skip(i + 1));
            assert(out@ + before_path(cs@.skip(i + 1)) =~= had + before_path(rest));
        }
        i = i + 1;
    }
    proof {
        assert(out@ + before_path(cs@.skip(i as int)) =~= out@);
    }
    out
}

/// The host and port of an address, where it has a scheme.
fn host_of(address: &str) -> (r: Option<String>)
    ensures
        r is Some == address_host(address@) is Some,
        r matches Some(host) ==> Some(host@) == address_host(address@),
{
    let cs = chars_of(address);
    let mark = chars_of("://");
    proof {
        reveal_strlit("://");
        assert(cs@.skip(0) =~= cs@);
    }
    for i in 0..cs.len()
        invariant
            mark@ == "://"@,
            mark@.len() == 3,
            cs@ == address@,
            behind_scheme(cs@.skip(i as int)) == behind_scheme(address@),
    {
        proof {
            assert(cs@.skip(i as int).skip(1) =~= cs@.skip(i + 1));
        }
        if begins_at(&cs, i, &mark) {
            proof {
                assert(cs@.skip(i as int).skip(3) =~= cs@.skip(i + 3));
            }
            return Some(host_from(&cs, i + 3));
        }
    }
    proof {
        assert(cs@.skip(cs@.len() as int).len() == 0);
    }
    None
}

/// The address is not one of the host; none is where the host is not known.
pub open spec fn elsewhere(address: Seq<char>, host: Option<Seq<char>>) -> bool {
    match (address_host(address), host) {
        (Some(from), Some(to)) => lowered(from) != lowered(to),
        _ => true,
    }
}

/// Whether the address is not one of the host.
fn is_elsewhere(address: &str, host: Option<&String>) -> (r: bool)
    ensures
        r == elsewhere(
            address@,
            match host {
                Some(h) => Some(h@),
                None => None,
            },
        ),
{
    match (host_of(address), host) {
        (Some(from), Some(to)) => {
            let a = to_lower(from.as_str());
            let b = to_lower(to.as_str());
            !same_text(a.as_str(), b.as_str())
        },
        _ => true,
    }
}

/// A browser sent the request on behalf of another site. What the browser says of the relation
/// of the sites decides; where it says nothing, the origin has to be at the host of the request;
/// where there is no origin either, the page that the request comes from has to be; a request
/// without any of these comes from no browser.
pub open spec fn foreign(head: RequestHead) -> bool {
    let host = header_value(head.headers@, "host"@);
    match header_value(head.headers@, "sec-fetch-site"@) {
        Some(site) => site != "same-origin"@ && site != "none"@,
        None => match header_value(head.headers@, "origin"@) {
            Some(origin) => elsewhere(origin, host),
            None => match header_value(head.headers@, "referer"@) {
                Some(page) => elsewhere(page, host),
                None => false,
            },
        },
    }
}

/// Whether a browser sent the request on behalf of another site.
fn is_foreign(head: &RequestHead) -> (r: bool)
    ensures
        r == foreign(*head),
{
    let host = value_of(&head.headers, "host");
    match value_of(&head.headers, "sec-fetch-site") {
        Some(site) => !same_text(site.as_str(), "same-origin") && !same_text(site.as_str(), "none"),
        None => match value_of(&head.headers, "origin") {
            Some(origin) => is_elsewhere(origin.as_str(), host),
            None => match value_of(&head.headers, "referer") {
                Some(page) => is_elsewhere(page.as_str(), host),
                None => false,
            },
        },
    }
}

// ---- the decision ----

/// Why a request is not let through, and how that is to be answered: as an answer of the
/// programming interface or as plain text, and with a challenge where credentials are asked for.
#[derive(Debug, PartialEq, Eq)]
pub struct Refusal {
    pub failure: ApiFailure,
    pub challenge: Option<&'static str>,
    pub api: bool,
}

/// A refusal, as texts.
pub struct RefusalView {
    pub failure: FailureView,
    pub challenge: Option<Seq<char>>,
    pub api: bool,
}

impl View for Refusal {
    type V = RefusalView;

    open spec fn view(&self) -> RefusalView {
        RefusalView {
            failure: self.failure@,
            challenge: match self.challenge {
                Some(challenge) => Some(challenge@),
                None => None,
            },
            api: self.api,
        }
    }
}

/// Why a request is not let through, if it is not.
pub open spec fn refusal(head: RequestHead, auth: Option<BasicAuthRuntime>) -> Option<RefusalView> {
    let api = begins_with(head.path@, "/vpnman/api/"@);
    if broken_head(head) {
        Some(
            RefusalView {
                failure: failure(
                    400,
                    "invalid_crlf"@,
                    "request contains invalid CR/LF characters"@,
                ),
                challenge: None,
                api,
            },
        )
    } else if !authorized(head, auth) {
        Some(
            RefusalView {
                failure: failure(401, "authentication_required"@, "authentication required"@),
                challenge: Some("Basic realm=\"vpnman\""@),
                api,
            },
        )
    } else if writes(head.method@) && foreign(head) {
        Some(
            RefusalView {
                failure: failure(403, "cross_site_request"@, "cross-site request rejected"@),
                challenge: None,
                api,
            },
        )
    } else {
        None
    }
}

/// Why the request is not let through, or nothing where it is.
pub fn security_middleware(head: &RequestHead, auth: &Option<BasicAuthRuntime>) -> (r: Option<
    Refusal,
>)
    ensures
        r is Some == refusal(*head, *auth) is Some,
        r matches Some(why) ==> Some(why@) == refusal(*head, *auth),
{
    let api = has_prefix(head.path.as_str(), "/vpnman/api/");
    if request_has_crlf(head) {
        return Some(
            Refusal {
                failure: ApiFailure {
                    status: 400,
                    code: "invalid_crlf",
                    message: "request contains invalid CR/LF characters".to_string(),
                },
                challenge: None,
                api,
            },
        );
    }
    if !is_authorized(head, auth) {
        return Some(
            Refusal {
                failure: ApiFailure {
                    status: 401,
                    code: "authentication_required",
                    message: "authentication required".to_string(),
                },
                challenge: Some("Basic realm=\"vpnman\""),
                api,
            },
        );
    }
    if is_write(head.method.as_str()) && is_foreign(head) {
        return Some(
            Refusal {
                failure: ApiFailure {
                    status: 403,
                    code: "cross_site_request",
                    message: "cross-site request rejected".to_string(),
                },
                challenge: None,
                api,
            },
        );
    }
    None
}

// ---- laws ----

/// Without configured credentials no request is asked for any.
pub proof fn law_no_credentials_asked(head: RequestHead)
    ensures
        refusal(head, None) matches Some(why) ==> why.failure.status != 401,
{
}

/// With configured credentials a request without the expected header is not let through.
pub proof fn law_credentials_are_enforced(head: RequestHead, runtime: BasicAuthRuntime)
    requires
        header_value(head.headers@, "authorization"@) != Some(runtime.expected_header@),
    ensures
        refusal(head, Some(runtime)) is Some,
{
}

/// No request with a carriage return or a line feed in its address or headers is let through.
pub proof fn law_broken_requests_are_refused(head: RequestHead, auth: Option<BasicAuthRuntime>)
    requires
        broken_head(head),
    ensures
        refusal(head, auth) matches Some(why) && why.failure.status == 400,
{
}

/// No writing request that a browser marks as coming from another site is let through.
pub proof fn law_cross_site_writes_are_refused(head: RequestHead, auth: Option<BasicAuthRuntime>)
    requires
        writes(head.method@),
        header_value(head.headers@, "sec-fetch-site"@) == Some("cross-site"@),
    ensures
        refusal(head, auth) is Some,
{
    reveal_strlit("cross-site");
    reveal_strlit("same-origin");
    reveal_strlit("none");
    assert("cross-site"@.len() == 10 && "same-origin"@.len() == 11 && "none"@.len() == 4);
}

/// No writing request with an origin on another host is let through, where the browser does not
/// say how the sites relate.
pub proof fn law_foreign_origins_are_refused(
    head: RequestHead,
    auth: Option<BasicAuthRuntime>,
    origin: Seq<char>,
    host: Seq<char>,
)
    requires
        writes(head.method@),
        header_value(head.headers@, "sec-fetch-site"@) is None,
        header_value(head.headers@, "origin"@) == Some(origin),
        header_value(head.headers@, "host"@) == Some(host),
        address_host(origin) matches Some(from) ==> lowered(from) != lowered(host),
    ensures
        refusal(head, auth) is Some,
{
}

/// No writing request that comes from a page on another host is let through, where the browser
/// says neither how the sites relate nor what the origin is.
pub proof fn law_foreign_pages_are_refused(
    head: RequestHead,
    auth: Option<BasicAuthRuntime>,
    page: Seq<char>,
    host: Seq<char>,
)
    requires
        writes(head.method@),
        header_value(head.headers@, "sec-fetch-site"@) is None,
        header_value(head.headers@, "origin"@) is None,
        header_value(head.headers@, "referer"@) == Some(page),
        header_value(head.headers@, "host"@) == Some(host),
        address_host(page) matches Some(from) ==> lowered(from) != lowered(host),
    ensures
        refusal(head, auth) is Some,
{
}

/// No character of the text ends a host.
pub open spec fn is_host(s: Seq<char>) -> bool {
    forall|i: int| 0 <= i < s.len() ==> !ends_host(#[trigger] s[i])
}

/// A sound and authorized request whose origin is its own host is let through.
pub proof fn law_same_origin_is_let_through(
    head: RequestHead,
    auth: Option<BasicAuthRuntime>,
    scheme: Seq<char>,
    host: Seq<char>,
)
    requires
        !broken_head(head),
        authorized(head, auth),
        header_value(head.headers@, "sec-fetch-site"@) is None || header_value(
            head.headers@,
            "sec-fetch-site"@,
        ) == Some("same-origin"@),
        !scheme.contains(':'),
        is_host(host),
        header_value(head.headers@, "origin"@) == Some(scheme + "://"@ + host),
        header_value(head.headers@, "host"@) == Some(host),
    ensures
        refusal(head, auth) is None,
{
    let none = Seq::<char>::empty();
    lemma_address_host(scheme, host, none);
    assert(scheme + "://"@ + (host + none) =~= scheme + "://"@ + host);
}

/// A sound and authorized request that comes from a page on its own host is let through, where
/// the browser says neither how the sites relate nor what the origin is.
pub proof fn law_own_pages_are_let_through(
    head: RequestHead,
    auth: Option<BasicAuthRuntime>,
    scheme: Seq<char>,
    host: Seq<char>,
    path: Seq<char>,
)
    requires
        !broken_head(head),
        authorized(head, auth),
        header_value(head.headers@, "sec-fetch-site"@) is None,
        header_value(head.headers@, "origin"@) is None,
        !scheme.contains(':'),
        is_host(host),
        path.len() > 0 ==> ends_host(path[0]),
        header_value(head.headers@, "referer"@) == Some(scheme + "://"@ + (host + path)),
        header_value(head.headers@, "host"@) == Some(host),
    ensures
        refusal(head, auth) is None,
{
    lemma_address_host(scheme, host, path);
}

/// The host of an address is what stands between its scheme and its path.
proof fn lemma_address_host(scheme: Seq<char>, host: Seq<char>, path: Seq<char>)
    requires
        !scheme.contains(':'),
        is_host(host),
        path.len() > 0 ==> ends_host(path[0]),
    ensures
        address_host(scheme + "://"@ + (host + path)) == Some(host),
{
    lemma_behind_scheme(scheme, host + path);
    lemma_before_path(host, path);
}

proof fn lemma_before_path(host: Seq<char>, path: Seq<char>)
    requires
        is_host(host),
        path.len() > 0 ==> ends_host(path[0]),
    ensures
        before_path(host + path) == host,
    decreases host.len(),
{
    let s = host + path;
    if host.len() == 0 {
        assert(s =~= path);
        assert(before_path(s) =~= host);
    } else {
        assert(!ends_host(host[0]));
        assert(s[0] == host[0]);
        assert forall|i: int| 0 <= i < host.skip(1).len() implies !ends_host(
            #[trigger] host.skip(1)[i],
        ) by {
            assert(!ends_host(host[i + 1]));
        }
        assert(s.skip(1) =~= host.skip(1) + path);
        lemma_before_path(host.skip(1), path);
        assert(before_path(s) =~= host);
    }
}

proof fn lemma_behind_scheme(scheme: Seq<char>, rest: Seq<char>)
    requires
        !scheme.contains(':'),
    ensures
        behind_scheme(scheme + "://"@ + rest) == Some(rest),
    decreases scheme.len(),
{
    reveal_strlit("://");
    let s = scheme + "://"@ + rest;
    if scheme.len() == 0 {
        assert(s.take(3) =~= "://"@);
        assert(s.skip(3) =~= rest);
    } else {
        assert(s[0] == scheme[0]);
        assert(scheme.contains(scheme[0]));
        if begins_with(s, "://"@) {
            assert(s.take(3)[0] == ':');
        }
        assert forall|i: int| 0 <= i < scheme.skip(1).len() implies scheme.skip(1)[i] != ':' by {
            assert(scheme.contains(scheme[i + 1]));
        }
        assert(s.skip(1) =~= scheme.skip(1) + "://"@ + rest);
        lemma_behind_scheme(scheme.skip(1), rest);
    }
}

/// A sound and authorized request without the headers by which browsers tell where a request
/// comes from is let through, whatever its method.
pub proof fn law_other_clients_are_let_through(head: RequestHead, auth: Option<BasicAuthRuntime>)
    requires
        !broken_head(head),
        authorized(head, auth),
        header_value(head.headers@, "sec-fetch-site"@) is None,
        header_value(head.headers@, "origin"@) is None,
        header_value(head.headers@, "referer"@) is None,
    ensures
        refusal(head, auth) is None,
{
}

/// Where a request comes from matters only to requests that write.
pub proof fn law_reading_is_let_through(head: RequestHead, auth: Option<BasicAuthRuntime>)
    requires
        !broken_head(head),
        authorized(head, auth),
        !writes(head.method@),
    ensures
        refusal(head, auth) is None,
{
}

/// The header of a name that counts is the first one, in whatever case its name is written; where
/// no header has the name there is no value.
pub proof fn law_first_header_counts(headers: Seq<Header>, name: Seq<char>, i: int)
    requires
        0 <= i <= headers.len(),
        forall|j: int| 0 <= j < i ==> lowered((#[trigger] headers[j]).name@) != name,
        i < headers.len() ==> lowered(headers[i].name@) == name,
    ensures
        i == headers.len() ==> header_value(headers, name) is None,
        i < headers.len() ==> (header_value(headers, name) is Some <==> headers[i].value is Some),
        i < headers.len() && headers[i].value is Some ==> header_value(headers, name)->0
            == headers[i].value->0@,
    decreases headers.len(),
{
    if i > 0 {
        let rest = headers.skip(1);
        assert(lowered(headers[0].name@) != name);
        assert forall|j: int| 0 <= j < i - 1 implies lowered((#[trigger] rest[j]).name@)
            != name by {
            assert(rest[j] == headers[j + 1]);
        }
        if i < headers.len() {
            assert(rest[i - 1] == headers[i]);
        }
        law_first_header_counts(rest, name, i - 1);
    }
}

/// A request is sound if and only if its path, its query, the names and the values of its headers
/// hold no carriage return and no line feed, and every value can be shown.
pub proof fn law_sound_requests(head: RequestHead)
    ensures
        !broken_head(head) <==> {
            &&& !broken(head.path@)
            &&& head.query matches Some(query) ==> !broken(query@)
            &&& forall|i: int|
                0 <= i < head.headers@.len() ==> !broken((#[trigger] head.headers@[i]).name@) && (
                head.headers@[i].value matches Some(value) && !broken(value@))
        },
{
    if !broken_head(head) {
        assert forall|i: int| 0 <= i < head.headers@.len() implies !broken(
            (#[trigger] head.headers@[i]).name@,
        ) && (head.headers@[i].value matches Some(value) && !broken(value@)) by {
            assert(!broken_header(head.headers@[i]));
        }
    }
}

/// Exactly the methods POST, PUT, PATCH and DELETE write.
pub proof fn law_methods_that_write(method: Seq<char>)
    ensures
        writes(method) <==> (method == "POST"@ || method == "PUT"@ || method == "PATCH"@ || method
            == "DELETE"@),
{
}

/// A request is authorized where nothing is expected, and else if and only if the header
/// `authorization` that counts is the expected one, to the letter.
pub proof fn law_authorized_requests(head: RequestHead, runtime: BasicAuthRuntime, i: int)
    requires
        0 <= i < head.headers@.len(),
        forall|j: int|
            0 <= j < i ==> lowered((#[trigger] head.headers@[j]).name@) != "authorization"@,
        lowered(head.headers@[i].name@) == "authorization"@,
    ensures
        authorized(head, None),
        authorized(head, Some(runtime)) <==> (head.headers@[i].value matches Some(value) && value@
            == runtime.expected_header@),
{
    law_first_header_counts(head.headers@, "authorization"@, i);
}

/// A request is let through if and only if it is sound, authorized, and not a writing one on
/// behalf of another site; the first of these that fails decides how it is refused.
pub proof fn law_the_decision(head: RequestHead, auth: Option<BasicAuthRuntime>)
    ensures
        refusal(head, auth) is None <==> !broken_head(head) && authorized(head, auth) && !(writes(
            head.method@,
        ) && foreign(head)),
        refusal(head, auth) is Some ==> refusal(head, auth)->0.failure.status == (if broken_head(
            head,
        ) {
            400u16
        } else if !authorized(head, auth) {
            401u16
        } else {
            403u16
        }),
        refusal(head, auth) is Some ==> refusal(head, auth)->0.failure.code == (if broken_head(
            head,
        ) {
            "invalid_crlf"@
        } else if !authorized(head, auth) {
            "authentication_required"@
        } else {
            "cross_site_request"@
        }),
        refusal(head, auth) is Some ==> (refusal(head, auth)->0.challenge is Some <==> refusal(
            head,
            auth,
        )->0.failure.status == 401),
        refusal(head, auth) is Some && refusal(head, auth)->0.failure.status == 401 ==> refusal(
            head,
            auth,
        )->0.challenge->0 == "Basic realm=\"vpnman\""@,
{
}

/// A request that is refused is answered by the programming interface if and only if its path is
/// `/vpnman/api/` with something or nothing behind it.
pub proof fn law_who_answers(head: RequestHead, auth: Option<BasicAuthRuntime>, rest: Seq<char>)
    requires
        refusal(head, auth) is Some,
    ensures
        head.path@ == "/vpnman/api/"@ + rest ==> refusal(head, auth)->0.api,
        refusal(head, auth)->0.api ==> head.path@ == "/vpnman/api/"@ + head.path@.skip(
            "/vpnman/api/"@.len() as int,
        ),
{
    law_beginnings_and_ends(head.path@, "/vpnman/api/"@, rest);
}

/// What the browser says of the relation of the sites decides alone: the request is on behalf of
/// another site unless it says that the sites are the same or that there is none.
pub proof fn law_stated_relation_decides(head: RequestHead, site: Seq<char>)
    requires
        header_value(head.headers@, "sec-fetch-site"@) == Some(site),
    ensures
        foreign(head) <==> site != "same-origin"@ && site != "none"@,
{
}

/// Where the browser says nothing of the relation, the origin decides alone, and where there is no
/// origin, the page; both have to be at the host of the request, in whatever case it is written.
pub proof fn law_hosts_decide(
    head: RequestHead,
    scheme: Seq<char>,
    from: Seq<char>,
    path: Seq<char>,
    host: Seq<char>,
)
    requires
        header_value(head.headers@, "sec-fetch-site"@) is None,
        !scheme.contains(':'),
        is_host(from),
        path.len() > 0 ==> ends_host(path[0]),
        header_value(head.headers@, "host"@) == Some(host),
    ensures
        header_value(head.headers@, "origin"@) == Some(scheme + "://"@ + (from + path)) ==> (foreign(
            head,
        ) <==> lowered(from) != lowered(host)),
        header_value(head.headers@, "origin"@) is None && header_value(head.headers@, "referer"@)
            == Some(scheme + "://"@ + (from + path)) ==> (foreign(head) <==> lowered(from)
            != lowered(host)),
{
    lemma_address_host(scheme, from, path);
}

/// A request that names an origin or a page is on behalf of another site where its own host is not
/// known, and where what it names has no scheme.
pub proof fn law_unknown_hosts_are_foreign(head: RequestHead, from: Seq<char>)
    requires
        header_value(head.headers@, "sec-fetch-site"@) is None,
        header_value(head.headers@, "origin"@) == Some(from) || (header_value(
            head.headers@,
            "origin"@,
        ) is None && header_value(head.headers@, "referer"@) == Some(from)),
        header_value(head.headers@, "host"@) is None || (forall|i: int|
            0 <= i <= from.len() ==> !begins_with(#[trigger] from.skip(i), "://"@)),
    ensures
        foreign(head),
{
    if forall|i: int| 0 <= i <= from.len() ==> !begins_with(#[trigger] from.skip(i), "://"@) {
        lemma_no_scheme(from);
    }
}

proof fn lemma_no_scheme(s: Seq<char>)
    requires
        forall|i: int| 0 <= i <= s.len() ==> !begins_with(#[trigger] s.skip(i), "://"@),
    ensures
        behind_scheme(s) is None,
    decreases s.len(),
{
    if s.len() > 0 {
        assert(s.skip(0) =~= s);
        assert forall|i: int| 0 <= i <= s.skip(1).len() implies !begins_with(
            #[trigger] s.skip(1).skip(i),
            "://"@,
        ) by {
            assert(s.skip(1).skip(i) =~= s.skip(i + 1));
        }
        lemma_no_scheme(s.skip(1));
    }
}

/// The characters `/`, `?` and `#` end the host of an address, and no others.
pub proof fn law_ends_of_hosts(c: char)
    ensures
        ends_host(c) <==> (c as int == 47 || c as int == 63 || c as int == 35),
{
}

} // verus!
