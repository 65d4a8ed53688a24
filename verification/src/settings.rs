//! What a server takes from its environment.

use vstd::prelude::*;

use crate::layout::{legacy_state_dir, state_dir, state_in, Layout, LayoutView};
use crate::text::{number_of, parse_number};

verus! {

/// What `str::to_lowercase` makes of a text.
pub uninterp spec fn lowercase(s: Seq<char>) -> Seq<char>;

/// Calls `str::to_lowercase`. Claimed: the outcome is a function of the text.
#[verifier::external_body]
fn to_lowercase(s: &str) -> (r: String)
    ensures
        r@ == lowercase(s@),
{
    s.to_lowercase()
}

/// The name of the machine before its letters are made small: the first that is known of the
/// variables `COMPUTERNAME` and `HOSTNAME` and the name the system gives; `unknown` where none is.
pub open spec fn raw_machine_name(
    computer_name: Option<Seq<char>>,
    host_name: Option<Seq<char>>,
    system_name: Option<Seq<char>>,
) -> Seq<char> {
    match (computer_name, host_name, system_name) {
        (Some(n), _, _) => n,
        (None, Some(n), _) => n,
        (None, None, Some(n)) => n,
        (None, None, None) => "unknown"@,
    }
}

/// The name of the machine before its letters are made small.
pub fn choose_machine_name(
    computer_name: Option<String>,
    host_name: Option<String>,
    system_name: Option<String>,
) -> (r: String)
    ensures
        r@ == raw_machine_name(
            computer_name.deep_view(),
            host_name.deep_view(),
            system_name.deep_view(),
        ),
{
    match computer_name {
        Some(n) => n,
        None => match host_name {
            Some(n) => n,
            None => match system_name {
                Some(n) => n,
                None => "unknown".to_owned(),
            },
        },
    }
}

/// The name of the machine, in lower case.
/// Priority: COMPUTERNAME → HOSTNAME → the system's own name → "unknown"
pub fn machine_name(
    computer_name: Option<String>,
    host_name: Option<String>,
    system_name: Option<String>,
) -> (r: String)
    ensures
        r@ == lowercase(
            raw_machine_name(
                computer_name.deep_view(),
                host_name.deep_view(),
                system_name.deep_view(),
            ),
        ),
{
    let name = choose_machine_name(computer_name, host_name, system_name);
    to_lowercase(name.as_str())
}

/// The hours after which breadcrumbs are reaped where nothing else is set.
pub const DEFAULT_REAP_HOURS: u64 = 24;

/// The hours after which breadcrumbs are reaped, from the value of the variable
/// `CPC_BREADCRUMB_AUTO_REAP_HOURS`; `None` where they are not reaped at all.
pub open spec fn reap_hours(value: Option<Seq<char>>) -> Option<u64> {
    match value {
        Some(v) => match number_of(v) {
            Some(h) if h > 0 => Some(h),
            _ => None,
        },
        None => Some(DEFAULT_REAP_HOURS),
    }
}

/// The hours after which breadcrumbs are reaped, from the value of the variable
/// `CPC_BREADCRUMB_AUTO_REAP_HOURS`:
///   - unset                    → 24
///   - empty / "0" / invalid    → auto-reap disabled
///   - positive integer N       → reap breadcrumbs with last_activity_at > N hours ago
pub fn auto_reap_hours(value: Option<&str>) -> (r: Option<u64>)
    ensures
        r == reap_hours(value.deep_view()),
{
    match value {
        Some(v) => match parse_number(v) {
            Some(h) => if h > 0 {
                Some(h)
            } else {
                None
            },
            None => None,
        },
        None => Some(DEFAULT_REAP_HOURS),
    }
}

/// Whether the state is kept apart from the directory of earlier versions, so that what lies there
/// is left over from them.
pub open spec fn state_apart(l: LayoutView) -> bool {
    state_in(l) != "C:\\CPC\\state\\breadcrumbs"@
}

/// Whether the state is kept apart from the directory of earlier versions.
pub fn keeps_state_apart(layout: &Layout) -> (b: bool)
    ensures
        b == state_apart(layout@),
{
    *state_dir(layout).as_str() != *legacy_state_dir().as_str()
}

}
