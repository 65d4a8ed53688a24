//! Who writes when: conflicts between sessions, staleness, and the identifiers of breadcrumbs.

use vstd::prelude::*;

use crate::clock::{
    elapsed, instant_of, stamp, Instant, NANOS_PER_HOUR, NANOS_PER_SEC,
};
use crate::conflict::{conflict_at, CONFLICT_WINDOW_SECS};
use crate::schema::{
    id_at, shorten, slug, slug_char, stale_at, strip_end, strip_start, unix_nanos, BreadcrumbView,
    ConflictView, WriterView, SLUG_LEN,
};
use crate::storage::reapable;
use crate::text::{decimal, decimal_has_digits_only, decimal_injective, is_digit};
use crate::tracker::{adopted, fresh, stepped};

verus! {

// ---- Conflicts ----------------------------------------------------------------------------

/// A session never conflicts with itself: after its own step or adoption it runs into no conflict,
/// however soon it writes again.
pub proof fn no_conflict_with_oneself(
    bc: BreadcrumbView,
    result: Seq<char>,
    files_changed: Seq<Seq<char>>,
    ctx: WriterView,
    at: Instant,
    now: Instant,
)
    ensures
        conflict_at(stepped(bc, result, files_changed, ctx, at), ctx.session, now) is None,
        conflict_at(adopted(bc, ctx, at), ctx.session, now) is None,
{
}

/// A session that writes within thirty seconds of another one's step is told who that was; later
/// it is told nothing.
pub proof fn conflict_names_other_session(
    bc: BreadcrumbView,
    result: Seq<char>,
    files_changed: Seq<Seq<char>>,
    ctx: WriterView,
    at: Instant,
    session: Seq<char>,
    now: Instant,
)
    requires
        session != ctx.session,
        instant_of(stamp(at)) == Some(at),
    ensures
        ({
            let c = conflict_at(stepped(bc, result, files_changed, ctx, at), session, now);
            if elapsed(now, at) <= CONFLICT_WINDOW_SECS * NANOS_PER_SEC {
                c == Some(
                    ConflictView {
                        other_actor: ctx.actor,
                        other_machine: ctx.machine,
                        other_session: ctx.session,
                        last_activity_at: stamp(at),
                    },
                )
            } else {
                c is None
            }
        }),
{
}

// ---- Staleness ----------------------------------------------------------------------------

/// A breadcrumb is stale exactly from four hours after its last activity on, and a reap takes it
/// exactly if more than the given hours have passed since.
pub proof fn staleness_follows_activity(bc: BreadcrumbView, at: Instant, now: Instant, hours: u64)
    requires
        instant_of(bc.last_activity_at) == Some(at),
    ensures
        stale_at(bc, now) <==> elapsed(now, at) >= 4 * NANOS_PER_HOUR,
        reapable(bc, hours, now) <==> elapsed(now, at) > hours as int * NANOS_PER_HOUR,
{
}

/// A write runs into a conflict exactly when the breadcrumb was last written by another session, and
/// was active not more than thirty seconds before; the conflict names that writer and the time.
pub proof fn conflict_is_with_last_writer(bc: BreadcrumbView, session: Seq<char>, now: Instant)
    ensures
        conflict_at(bc, session, now) is Some <==> bc.writer_session != session && (instant_of(
            bc.last_activity_at,
        ) matches Some(at) && elapsed(now, at) <= 30_000_000_000),
        conflict_at(bc, session, now) matches Some(c) ==> c.other_actor == bc.writer_actor
            && c.other_machine == bc.writer_machine && c.other_session == bc.writer_session
            && c.last_activity_at == bc.last_activity_at,
{
}

/// A breadcrumb is stale exactly when its last activity can be read and lies four hours back or more.
pub proof fn four_hours_make_stale(bc: BreadcrumbView, now: Instant)
    ensures
        stale_at(bc, now) <==> (instant_of(bc.last_activity_at) matches Some(at) && elapsed(now, at)
            >= 14_400_000_000_000),
{
}

/// A breadcrumb that was just started is not stale, and no reap takes it.
pub proof fn fresh_is_live(
    id: Seq<char>,
    name: Seq<char>,
    steps: Seq<Seq<char>>,
    project_id: Option<Seq<char>>,
    ctx: WriterView,
    now: Instant,
    auto_started: bool,
    hours: u64,
)
    requires
        instant_of(stamp(now)) == Some(now),
    ensures
        ({
            let bc = fresh(id, name, steps, project_id, ctx, stamp(now), auto_started);
            !stale_at(bc, now) && !reapable(bc, hours, now)
        }),
{
    assert(elapsed(now, now) == 0);
}

// ---- Identifiers --------------------------------------------------------------------------

/// Whether a character can stand in a slug.
pub open spec fn in_slug(c: char) -> bool {
    'a' <= c <= 'z' || '0' <= c <= '9' || c == '-' || c == '_'
}

proof fn strip_start_is_suffix(s: Seq<char>)
    ensures
        strip_start(s).len() <= s.len(),
        strip_start(s) == s.skip(s.len() - strip_start(s).len()),
        strip_start(s).len() > 0 ==> strip_start(s)[0] != '_',
    decreases s.len(),
{
    if s.len() > 0 && s[0] == '_' {
        strip_start_is_suffix(s.skip(1));
        let n = strip_start(s).len();
        assert(s.skip(1).skip(s.skip(1).len() - n) =~= s.skip(s.len() - n));
    } else {
        assert(s.skip(0) =~= s);
    }
}

proof fn strip_end_is_prefix(s: Seq<char>)
    ensures
        strip_end(s).len() <= s.len(),
        strip_end(s) == s.take(strip_end(s).len() as int),
        strip_end(s).len() > 0 ==> strip_end(s).last() != '_',
    decreases s.len(),
{
    if s.len() > 0 && s.last() == '_' {
        strip_end_is_prefix(s.drop_last());
        let n = strip_end(s).len();
        assert(s.drop_last().take(n as int) =~= s.take(n as int));
    } else {
        assert(s.take(s.len() as int) =~= s);
    }
}

/// A slug is never empty, holds only small letters, digits, hyphens and underscores, starts and
/// ends with no underscore, and is no longer than asked for, unless it is the word `operation`
/// that stands for a name without any usable character.
pub proof fn slug_form(name: Seq<char>, max: int)
    requires
        max >= 0,
    ensures
        slug(name, max).len() > 0,
        forall|i: int| 0 <= i < slug(name, max).len() ==> in_slug(#[trigger] slug(name, max)[i]),
        slug(name, max)[0] != '_',
        slug(name, max).last() != '_',
        slug(name, max).len() <= max || slug(name, max) == "operation"@,
{
    reveal_strlit("operation");
    let mapped = name.map_values(|c: char| slug_char(c));
    let started = strip_start(mapped);
    let short = shorten(started, max);
    let s = strip_end(short);
    strip_start_is_suffix(mapped);
    strip_end_is_prefix(short);
    if s.len() > 0 {
        assert forall|i: int| 0 <= i < s.len() implies in_slug(#[trigger] s[i]) by {
            assert(s[i] == short[i]);
            assert(short[i] == started[i]);
            assert(started[i] == mapped[mapped.len() - started.len() + i]);
        }
        assert(s[0] == started[0]);
    } else {
        let o = "operation"@;
        assert(o.len() == 9);
        assert forall|i: int| 0 <= i < o.len() implies in_slug(#[trigger] o[i]) by {}
    }
}

/// The identifier of a breadcrumb is made of `bc`, the time in digits, and the slug of its name,
/// parted by underscores; the first two underscores are those that part it.
pub proof fn id_form(name: Seq<char>, t: Instant)
    ensures
        ({
            let id = id_at(name, t);
            let time = decimal(unix_nanos(t));
            let tail = slug(name, SLUG_LEN as int);
            &&& id.len() == 4 + time.len() + tail.len()
            &&& id.take(3) == "bc_"@
            &&& id.subrange(3, 3 + time.len() as int) == time
            &&& time.len() > 0
            &&& forall|i: int| 0 <= i < time.len() ==> is_digit(#[trigger] time[i])
            &&& id[3 + time.len() as int] == '_'
            &&& id.skip(4 + time.len() as int) == tail
        }),
{
    reveal_strlit("bc_");
    reveal_strlit("_");
    let id = id_at(name, t);
    let time = decimal(unix_nanos(t));
    decimal_has_digits_only(unix_nanos(t));
    assert(id.take(3) =~= "bc_"@);
    assert(id.subrange(3, 3 + time.len() as int) =~= time);
    assert(id.skip(4 + time.len() as int) =~= slug(name, SLUG_LEN as int));
}

/// Breadcrumbs that are started at different times after the epoch have different identifiers, and
/// so have those started at one time under names with different slugs.
pub proof fn ids_differ(name: Seq<char>, t: Instant, other_name: Seq<char>, other: Instant)
    requires
        id_at(name, t) == id_at(other_name, other),
    ensures
        unix_nanos(t) == unix_nanos(other),
        slug(name, SLUG_LEN as int) == slug(other_name, SLUG_LEN as int),
{
    id_form(name, t);
    id_form(other_name, other);
    let id = id_at(name, t);
    let a = decimal(unix_nanos(t));
    let b = decimal(unix_nanos(other));
    if a.len() < b.len() {
        assert(b[a.len() as int] == id[3 + a.len() as int]);
        assert(is_digit(b[a.len() as int]));
    } else if b.len() < a.len() {
        assert(a[b.len() as int] == id[3 + b.len() as int]);
        assert(is_digit(a[b.len() as int]));
    }
    decimal_injective(unix_nanos(t), unix_nanos(other));
}

}
