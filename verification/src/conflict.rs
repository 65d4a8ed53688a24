//! Detection of two sessions that write to one breadcrumb.

use vstd::prelude::*;

use crate::clock::{age, clock_instant, Instant, Timestamp, NANOS_PER_SEC};
use crate::schema::{Breadcrumb, BreadcrumbView, ConflictInfo, ConflictView};

verus! {

/// How many seconds after the activity of another session a write counts as a conflict.
pub const CONFLICT_WINDOW_SECS: i128 = 30;

/// The conflict that a write of `session` at `now` runs into: the last writer was another session,
/// and the breadcrumb was active within the conflict window.
pub open spec fn conflict_at(bc: BreadcrumbView, session: Seq<char>, now: Instant) -> Option<
    ConflictView,
> {
    match age(now, bc.last_activity_at) {
        Some(n) if bc.writer_session != session && n <= CONFLICT_WINDOW_SECS * NANOS_PER_SEC => Some(
            ConflictView {
                other_actor: bc.writer_actor,
                other_machine: bc.writer_machine,
                other_session: bc.writer_session,
                last_activity_at: bc.last_activity_at,
            },
        ),
        _ => None,
    }
}

/// Whether an activity of the given age lies within the conflict window.
pub fn in_conflict_window(age: Option<i128>) -> (b: bool)
    ensures
        b == (age matches Some(n) && n <= CONFLICT_WINDOW_SECS * NANOS_PER_SEC),
{
    match age {
        Some(n) => n <= CONFLICT_WINDOW_SECS * NANOS_PER_SEC,
        None => false,
    }
}

/// The conflict that a write of `session` at `now` runs into.
pub fn check_at(bc: &Breadcrumb, session: &str, now: &Timestamp) -> (r: Option<ConflictInfo>)
    ensures
        r.deep_view() == conflict_at(bc@, session@, now@),
{
    if *bc.writer_session.as_str() == *session {
        return None;
    }
    if in_conflict_window(now.age_of(bc.last_activity_at.as_str())) {
        Some(
            ConflictInfo {
                other_actor: bc.writer_actor.clone(),
                other_machine: bc.writer_machine.clone(),
                other_session: bc.writer_session.clone(),
                last_activity_at: bc.last_activity_at.clone(),
            },
        )
    } else {
        None
    }
}

/// The conflict that a write of `session` runs into now.
pub fn check(bc: &Breadcrumb, session: &str) -> (r: Option<ConflictInfo>)
    ensures
        bc.writer_session@ == session@ ==> r is None,
        exists|now: Instant|
            clock_instant(now) && r.deep_view() == #[trigger] conflict_at(bc@, session@, now),
{
    let now = Timestamp::now();
    check_at(bc, session, &now)
}

}
