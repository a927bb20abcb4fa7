use vstd::prelude::*;
use vstd::string::*;
use vstd::utf8::encode_utf8;

use crate::encode::{pct_encoded, percent_encode_component};
use crate::scheme::{is_lower_letter, is_scheme_invalid, valid_scheme_name};

verus! {

/// Why a target has no fallback address.
#[derive(Clone, Copy, Debug, PartialEq, Eq, Structural)]
pub enum FallbackError {
    /// The target, while a `web+` URL, does not provide a fallback handler.
    NoHandler,
    /// The target is not an appropriate `web+` URL.
    NotAnUrl,
}

impl FallbackError {
    /// A sentence that describes the error.
    pub fn message(&self) -> (r: &'static str)
        ensures
            r@ == (match self {
                FallbackError::NoHandler => "url does not contain a fallback handler"@,
                FallbackError::NotAnUrl => "url is not an appropriate web+ url"@,
            }),
    {
        match self {
            FallbackError::NoHandler => "url does not contain a fallback handler",
            FallbackError::NotAnUrl => "url is not an appropriate web+ url",
        }
    }
}

/// The origin (`https://host` or `https://host:port`) that the URL parser
/// gives for a string, or `None` where it rejects the string.
pub uninterp spec fn url_origin(s: Seq<char>) -> Option<Seq<char>>;

/// Relies on url::Url::parse, and on the ASCII serialization of the parsed
/// URL's origin (Url::origin, Origin::ascii_serialization): `None` when the
/// parser rejects `s`, else the origin's text. Both depend on `s` alone.
#[verifier::external_body]
fn parse_origin(s: &str) -> (r: Option<String>)
    ensures
        r is Some == url_origin(s@) is Some,
        r is Some ==> r->0@ == url_origin(s@)->0,
{
    match url::Url::parse(s) {
        Ok(u) => Some(u.origin().ascii_serialization()),
        Err(_) => None,
    }
}

/// `t` is a custom-scheme URI whose scheme ends at the colon at `k`: it
/// starts with `web+`, then a valid scheme name runs up to `t[k] == ':'`.
pub open spec fn web_scheme_ends_at(t: Seq<char>, k: int) -> bool {
    &&& 4 < k < t.len()
    &&& t[0] == 'w' && t[1] == 'e' && t[2] == 'b' && t[3] == '+'
    &&& t[k] == ':'
    &&& valid_scheme_name(t.subrange(4, k))
}

/// `t` carries a valid `web+<scheme>:` prefix.
pub open spec fn is_web_scheme_uri(t: Seq<char>) -> bool {
    exists|k: int| web_scheme_ends_at(t, k)
}

/// The position of the colon that ends the custom scheme.
pub open spec fn scheme_colon(t: Seq<char>) -> int {
    choose|k: int| web_scheme_ends_at(t, k)
}

/// The target with `web+<scheme>` replaced by `https`; the colon stays.
pub open spec fn as_if_https(t: Seq<char>) -> Seq<char> {
    "https"@ + t.subrange(scheme_colon(t), t.len() as int)
}

/// The rewritten string starts with `https://`, and the authority is neither
/// empty (`https:///`) nor disguised by a backslash (`https://\`).
pub open spec fn has_authority(r: Seq<char>) -> bool {
    &&& r.len() >= 8
    &&& r.take(8) == "https://"@
    &&& !(r.len() >= 9 && (r[8] == '/' || r[8] == '\\'))
}

/// The fixed part of the fallback address after the origin.
pub open spec fn discovery_suffix() -> Seq<char> {
    "/.well-known/protocol-handler?target="@
}

/// The outcome of the checks made before the URL parser runs: the target
/// rewritten to an `https` URL with a usable authority, or the reason that
/// it has no fallback.
pub open spec fn https_form_of(t: Seq<char>) -> Result<Seq<char>, FallbackError> {
    if !is_web_scheme_uri(t) {
        Err(FallbackError::NotAnUrl)
    } else if !has_authority(as_if_https(t)) {
        Err(FallbackError::NoHandler)
    } else {
        Ok(as_if_https(t))
    }
}

/// The outcome of resolving `t`: its fallback address, or the reason it
/// has none. The address is the origin of the rewritten URL, the well-known
/// discovery path, and a single `target` query parameter holding the
/// percent-encoded bytes of the whole original target.
pub open spec fn fallback_of(t: Seq<char>) -> Result<Seq<char>, FallbackError> {
    match https_form_of(t) {
        Err(e) => Err(e),
        Ok(h) => match url_origin(h) {
            None => Err(FallbackError::NoHandler),
            Some(o) => Ok(o + discovery_suffix() + pct_encoded(encode_utf8(t))),
        },
    }
}

/// The result of an exec resolution agrees with `fallback_of`.
pub open spec fn resolved_as(r: Result<String, FallbackError>, t: Seq<char>) -> bool {
    match fallback_of(t) {
        Ok(f) => r is Ok && r->Ok_0@ == f,
        Err(e) => r == Err::<String, FallbackError>(e),
    }
}

/// Any position at which a valid custom scheme ends is the first colon.
pub(crate) proof fn lemma_scheme_colon_is_first(t: Seq<char>, k: int, j: int)
    requires
        web_scheme_ends_at(t, k),
        0 <= j < k,
    ensures
        t[j] != ':',
{
    if j >= 4 {
        assert(is_lower_letter(t.subrange(4, k)[j - 4]));
    }
}

/// Validates the custom scheme of `target` and rewrites `web+<scheme>` to
/// `https`, requiring a non-empty authority that does not start with a
/// backslash.
pub fn rewrite_as_https(target: &str) -> (r: Result<String, FallbackError>)
    ensures
        match https_form_of(target@) {
            Ok(f) => r is Ok && r->Ok_0@ == f,
            Err(e) => r == Err::<String, FallbackError>(e),
        },
{
    let ghost t = target@;
    let mut cs: Vec<char> = Vec::new();
    for c in it: target.chars()
        invariant
            cs@ == it.seq().take(it.index() as int),
    {
        cs.push(c);
    }
    assert(cs@ == t);
    let n = cs.len();
    // find the scheme's end
    let mut colon: usize = 0;
    while colon < n && cs[colon] != ':'
        invariant
            n == t.len(),
            cs@ == t,
            t == target@,
            colon <= n,
            forall|j: int| 0 <= j < colon ==> t[j] != ':',
        decreases n - colon,
    {
        colon = colon + 1;
    }
    if colon == n {
        proof {
            if is_web_scheme_uri(t) {
                let k = choose|k: int| web_scheme_ends_at(t, k);
                assert(t[k] == ':');
            }
        }
        return Err(FallbackError::NotAnUrl);
    }
    assert(t[colon as int] == ':');
    proof {
        if is_web_scheme_uri(t) {
            let k = choose|k: int| web_scheme_ends_at(t, k);
            if colon < k {
                lemma_scheme_colon_is_first(t, k, colon as int);
            }
            assert(colon == k);
        }
    }
    if colon < 4 || cs[0] != 'w' || cs[1] != 'e' || cs[2] != 'b' || cs[3] != '+' {
        return Err(FallbackError::NotAnUrl);
    }
    let scheme = target.substring_char(4, colon);
    if is_scheme_invalid(scheme) {
        return Err(FallbackError::NotAnUrl);
    }
    assert(web_scheme_ends_at(t, colon as int));
    proof {
        let k = scheme_colon(t);
        assert(web_scheme_ends_at(t, k));
        if k < colon {
            lemma_scheme_colon_is_first(t, colon as int, k);
        }
        if colon < k {
            lemma_scheme_colon_is_first(t, k, colon as int);
        }
        assert(k == colon);
    }
    // replace web+scheme with https: the rest reads as an https URL, except
    // that an authority is optional
    let mut rewritten = String::from_str("https");
    rewritten.append(target.substring_char(colon, n));
    assert(rewritten@ == as_if_https(t));
    proof {
        reveal_strlit("https");
        reveal_strlit("https://");
    }
    // there must be an authority, and it must not be empty or start with a
    // backslash, which the parser would read as a path separator
    let has_slashes = n - colon > 2 && cs[colon + 1] == '/' && cs[colon + 2] == '/';
    if !has_slashes {
        assert(!has_authority(rewritten@)) by {
            if has_authority(rewritten@) {
                assert("https://"@[6] == '/' && "https://"@[7] == '/');
                assert(rewritten@.take(8)[6] == rewritten@[6]);
                assert(rewritten@.take(8)[7] == rewritten@[7]);
                assert(rewritten@[6] == t[colon + 1]);
                assert(rewritten@[7] == t[colon + 2]);
            }
        }
        return Err(FallbackError::NoHandler);
    }
    if n - colon > 3 && (cs[colon + 3] == '/' || cs[colon + 3] == '\\') {
        return Err(FallbackError::NoHandler);
    }
    assert(rewritten@.take(8) == "https://"@);
    assert(has_authority(rewritten@));
    Ok(rewritten)
}

/// The fallback address for `target` on the origin `origin`: the well-known
/// discovery path, and `target=` with the percent-encoded target as the
/// whole query.
pub fn fallback_address(origin: &str, target: &str) -> (r: String)
    ensures
        r@ == origin@ + discovery_suffix() + pct_encoded(target.spec_bytes()),
{
    let mut url = String::from_str(origin);
    url.append("/.well-known/protocol-handler?target=");
    let encoded = percent_encode_component(target);
    url.append(encoded.as_str());
    url
}

/// Attempts to find the fallback protocol handler address for `target`.
///
/// The target is taken to be normalized as the WHATWG URL standard says; this
/// is not checked.
pub fn get_fallback(target: &str) -> (r: Result<String, FallbackError>)
    ensures
        resolved_as(r, target@),
{
    let rewritten = match rewrite_as_https(target) {
        Ok(s) => s,
        Err(e) => return Err(e),
    };
    // the parser only serves to find the host and port; what lies beyond is
    // for the protocol handler to deal with
    match parse_origin(rewritten.as_str()) {
        None => Err(FallbackError::NoHandler),
        Some(o) => Ok(fallback_address(o.as_str(), target)),
    }
}

} // verus!
