use vstd::prelude::*;

use crate::fallback::{fallback_of, get_fallback};

verus! {

/// What the entry point does next.
#[derive(Debug)]
pub enum OpenAction {
    /// Ask the platform to open `target`, with `fallback` as the address to
    /// open where no native handler claims the scheme.
    Launch { target: String, fallback: String },
    /// Report this status to the caller: `1` success, `0` failure.
    Finish(i32),
}

/// The first decision of the entry point. `target` is the caller's string,
/// or `None` where it could not be decoded as UTF-8. Any failure to decode or
/// to resolve is reported as `0`; otherwise the launch is requested.
pub fn open_action(target: Option<&str>) -> (r: OpenAction)
    ensures
        match target {
            None => r == OpenAction::Finish(0),
            Some(t) => match fallback_of(t@) {
                Err(_) => r == OpenAction::Finish(0),
                Ok(f) => r matches OpenAction::Launch { target: p, fallback: q } && p@ == t@ && q@
                    == f,
            },
        },
{
    match target {
        None => OpenAction::Finish(0),
        Some(t) => match get_fallback(t) {
            Err(_) => OpenAction::Finish(0),
            Ok(f) => OpenAction::Launch { target: String::from_str(t), fallback: f },
        },
    }
}

/// The status once a launch was requested: `1` where the platform accepted
/// the request, `0` where it refused it or either address was rejected. The
/// outcome of the open itself is not awaited.
pub fn launch_status(accepted: bool) -> (r: i32)
    ensures
        r == (if accepted { 1i32 } else { 0i32 }),
{
    if accepted {
        1
    } else {
        0
    }
}

} // verus!
