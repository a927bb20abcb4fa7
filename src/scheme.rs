use vstd::prelude::*;

verus! {

/// An ASCII lowercase letter, `a` to `z`.
pub open spec fn is_lower_letter(c: char) -> bool {
    'a' <= c && c <= 'z'
}

/// A custom scheme name (the part after `web+`) is a non-empty run of ASCII
/// lowercase letters.
pub open spec fn valid_scheme_name(name: Seq<char>) -> bool {
    &&& name.len() > 0
    &&& forall|i: int| 0 <= i < name.len() ==> is_lower_letter(#[trigger] name[i])
}

/// Checks whether the `scheme` part of `web+scheme` breaks the rules on
/// scheme names: it is invalid when empty or when it holds anything but
/// ASCII lowercase letters.
pub fn is_scheme_invalid(scheme: &str) -> (r: bool)
    ensures
        r == !valid_scheme_name(scheme@),
{
    let mut all_lower: bool = true;
    for c in it: scheme.chars()
        invariant
            all_lower == forall|i: int| 0 <= i < it.index() ==> is_lower_letter(#[trigger] it.seq()[i]),
    {
        if !('a' <= c && c <= 'z') {
            all_lower = false;
        }
    }
    scheme.is_empty() || !all_lower
}

} // verus!
