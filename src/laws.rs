use vstd::prelude::*;

use crate::encode::{byte_text, escape_of, in_component_set, needs_escape, pct_encoded};
use crate::fallback::{
    as_if_https, fallback_of, has_authority, https_form_of, is_web_scheme_uri,
    lemma_scheme_colon_is_first, scheme_colon, web_scheme_ends_at, FallbackError,
};
use crate::scheme::{is_lower_letter, valid_scheme_name};

verus! {

/// A valid custom scheme always ends at the first colon of the target.
proof fn lemma_scheme_end_is_first_colon(t: Seq<char>, k: int)
    requires
        0 <= k < t.len(),
        t[k] == ':',
        forall|j: int| 0 <= j < k ==> t[j] != ':',
        is_web_scheme_uri(t),
    ensures
        web_scheme_ends_at(t, k),
        scheme_colon(t) == k,
{
    let c = scheme_colon(t);
    assert(web_scheme_ends_at(t, c));
    if c < k {
        assert(t[c] == ':');
    }
    if k < c {
        lemma_scheme_colon_is_first(t, c, k);
    }
}

/// A target without a colon is not a `web+` URL.
pub proof fn law_no_colon_is_not_an_url(t: Seq<char>)
    requires
        forall|i: int| 0 <= i < t.len() ==> t[i] != ':',
    ensures
        fallback_of(t) == Err::<Seq<char>, FallbackError>(FallbackError::NotAnUrl),
{
    if is_web_scheme_uri(t) {
        let k = scheme_colon(t);
        assert(t[k] == ':');
    }
}

/// A target whose text before its first colon does not start with `web+` is
/// not a `web+` URL.
pub proof fn law_other_scheme_is_not_an_url(t: Seq<char>, k: int)
    requires
        0 <= k < t.len(),
        t[k] == ':',
        forall|j: int| 0 <= j < k ==> t[j] != ':',
        !(k >= 4 && t.take(4) == "web+"@),
    ensures
        fallback_of(t) == Err::<Seq<char>, FallbackError>(FallbackError::NotAnUrl),
{
    reveal_strlit("web+");
    if is_web_scheme_uri(t) {
        lemma_scheme_end_is_first_colon(t, k);
        assert(t.take(4) =~= "web+"@);
    }
}

/// For `web+<name>:<rest>`, where the name holds no colon, the target is
/// rejected as not a `web+` URL exactly when the name is empty or holds
/// anything but ASCII lowercase letters.
pub proof fn law_scheme_name_validity(name: Seq<char>, rest: Seq<char>)
    requires
        forall|i: int| 0 <= i < name.len() ==> name[i] != ':',
    ensures
        is_web_scheme_uri("web+"@ + name + ":"@ + rest) == valid_scheme_name(name),
        (fallback_of("web+"@ + name + ":"@ + rest) == Err::<Seq<char>, FallbackError>(
            FallbackError::NotAnUrl,
        )) == !valid_scheme_name(name),
{
    reveal_strlit("web+");
    reveal_strlit(":");
    let t = "web+"@ + name + ":"@ + rest;
    let k: int = 4 + name.len() as int;
    assert(t[k] == ':');
    assert forall|j: int| 0 <= j < k implies t[j] != ':' by {
        if j >= 4 {
            assert(t[j] == name[j - 4]);
        }
    }
    assert(t.subrange(4, k) =~= name);
    if is_web_scheme_uri(t) {
        lemma_scheme_end_is_first_colon(t, k);
    }
    if valid_scheme_name(name) {
        assert(web_scheme_ends_at(t, k));
    }
}

/// For `web+<name>:<rest>` with a valid name, the target has no fallback
/// handler when `rest` does not start with `//`, or when the authority after
/// `//` is empty (a third `/`) or starts with a backslash.
pub proof fn law_authority_required(name: Seq<char>, rest: Seq<char>)
    requires
        valid_scheme_name(name),
        !(rest.len() >= 2 && rest[0] == '/' && rest[1] == '/') || (rest.len() >= 3 && (rest[2]
            == '/' || rest[2] == '\\')),
    ensures
        https_form_of("web+"@ + name + ":"@ + rest) == Err::<Seq<char>, FallbackError>(
            FallbackError::NoHandler,
        ),
        fallback_of("web+"@ + name + ":"@ + rest) == Err::<Seq<char>, FallbackError>(
            FallbackError::NoHandler,
        ),
{
    reveal_strlit("web+");
    reveal_strlit(":");
    reveal_strlit("https");
    reveal_strlit("https://");
    let t = "web+"@ + name + ":"@ + rest;
    law_scheme_name_validity(name, rest);
    let k: int = 4 + name.len() as int;
    assert(t[k] == ':');
    assert forall|j: int| 0 <= j < k implies t[j] != ':' by {
        if j >= 4 {
            assert(t[j] == name[j - 4]);
            assert(is_lower_letter(name[j - 4]));
        }
    }
    lemma_scheme_end_is_first_colon(t, k);
    let h = as_if_https(t);
    assert(h =~= "https"@ + ":"@ + rest);
    if has_authority(h) {
        assert(h.take(8)[6] == h[6] && h.take(8)[7] == h[7]);
        assert(h[6] == rest[0] && h[7] == rest[1]);
        if rest.len() >= 3 {
            assert(h[8] == rest[2]);
        }
    }
    assert(https_form_of(t) == Err::<Seq<char>, FallbackError>(FallbackError::NoHandler));
}

/// Percent-encoding works byte by byte: the encoding of a concatenation is
/// the concatenation of the encodings.
pub proof fn law_encoding_concatenates(a: Seq<u8>, b: Seq<u8>)
    ensures
        pct_encoded(a + b) == pct_encoded(a) + pct_encoded(b),
    decreases b.len(),
{
    if b.len() == 0 {
        assert(a + b =~= a);
    } else {
        law_encoding_concatenates(a, b.drop_last());
        assert((a + b).drop_last() =~= a + b.drop_last());
        assert(pct_encoded(a + b) =~= pct_encoded(a) + pct_encoded(b));
    }
}

/// Every byte of the escaped set, and every non-ASCII byte, stands as `%XX`
/// in the encoding; every other byte stands as itself.
pub proof fn law_each_byte_escaped_or_kept(a: Seq<u8>, x: u8, b: Seq<u8>)
    ensures
        pct_encoded(a + seq![x] + b) == pct_encoded(a) + byte_text(x) + pct_encoded(b),
        in_component_set(x) ==> byte_text(x) == escape_of(x),
        !needs_escape(x) ==> byte_text(x) == seq![x as char],
{
    law_encoding_concatenates(a + seq![x], b);
    law_encoding_concatenates(a, seq![x]);
    assert(seq![x].drop_last() =~= Seq::<u8>::empty());
    assert(pct_encoded(Seq::<u8>::empty()) == Seq::<char>::empty());
    assert(seq![x].last() == x);
    assert(pct_encoded(seq![x]) =~= byte_text(x));
}

/// Bytes that need no escape pass through unchanged: encoding them gives
/// the same text, so encoding that text once more changes nothing either.
pub proof fn law_safe_bytes_pass_through(b: Seq<u8>)
    requires
        forall|i: int| 0 <= i < b.len() ==> !needs_escape(#[trigger] b[i]),
    ensures
        pct_encoded(b) == b.map_values(|x: u8| x as char),
    decreases b.len(),
{
    if b.len() > 0 {
        let p = b.drop_last();
        assert forall|i: int| 0 <= i < p.len() implies !needs_escape(#[trigger] p[i]) by {
            assert(p[i] == b[i]);
        }
        law_safe_bytes_pass_through(p);
        assert(!needs_escape(b[b.len() - 1]));
        assert(pct_encoded(b) =~= b.map_values(|x: u8| x as char));
    }
}

} // verus!
