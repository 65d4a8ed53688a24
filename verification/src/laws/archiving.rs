//! What becomes of breadcrumbs that are completed or aborted, and what a request for one of them
//! is answered later.

use vstd::prelude::*;

use crate::archive::{archived_on, archived_since};
use crate::clock::{date_writing, valid_day, Instant};
use crate::error::ErrorView;
use crate::laws::tracking::{
    active_breadcrumb, active_is_located, in_order, located_in_project, sound,
};
use crate::layout::{archive_file, LayoutView};
use crate::response::{AbortView, CompleteView};
use crate::schema::{BreadcrumbView, WriterView};
use crate::storage::{archived, day_files, reading, DirView, StorageView};
use crate::text::json_name;
use crate::tracker::{
    abort_outcome, aborted, adopt_outcome, archived_answer, cannot_adopt, complete_outcome,
    completed, located, located_again, planned_abort, planned_completion, result_type, retirement,
    AbortPlanView, TrackerView, ARCHIVE_SEARCH_DAYS,
};

verus! {

/// Whether `after` holds all that `before` holds, save what stood in the file of `id` under `date`.
pub open spec fn archive_kept(
    before: Map<Seq<char>, DirView>,
    after: Map<Seq<char>, DirView>,
    date: Seq<char>,
    id: Seq<char>,
) -> bool {
    forall|d: Seq<char>, name: Seq<char>|
        before.contains_key(d) && #[trigger] before[d].contains_key(name) && !(d == date && name
            == json_name(id)) ==> after.contains_key(d) && after[d].contains_key(name)
            && after[d][name] == before[d][name]
}

/// Archiving a breadcrumb puts it under the date, takes it out of the active ones, and drops
/// nothing else: neither archived nor active.
pub proof fn archiving_drops_nothing(s: StorageView, bc: BreadcrumbView, date: Seq<char>)
    ensures
        ({
            let s2 = archived(s, bc, date);
            &&& reading(day_files(s2.completed, date), bc.id) == Ok::<BreadcrumbView, ErrorView>(bc)
            &&& archive_kept(s.completed, s2.completed, date, bc.id)
            &&& !s2.active.contains_key(json_name(bc.id))
            &&& forall|name: Seq<char>|
                name != json_name(bc.id) ==> (#[trigger] s2.active.contains_key(name)
                    <==> s.active.contains_key(name)) && (s.active.contains_key(name)
                    ==> s2.active[name] == s.active[name])
        }),
{
}

/// A completed breadcrumb is archived under the date, with all its steps and not aborted, and the
/// answer names its file; nothing else in the archive is dropped.
pub proof fn complete_archives(
    t: TrackerView,
    l: LayoutView,
    summary: Seq<char>,
    id: Option<Seq<char>>,
    ctx: WriterView,
    now: Instant,
    date: Seq<char>,
)
    requires
        sound(t),
        located(t, id) is Ok,
    ensures
        ({
            let x = located(t, id)->Ok_0.0;
            let bc = active_breadcrumb(t, x)->0;
            let kept = completed(bc, ctx, now);
            &&& active_breadcrumb(t, x) is Some
            &&& complete_outcome(t, l, summary, id, ctx, now, date) matches Ok((t2, answer)) && {
                &&& reading(day_files(t2.storage.completed, date), x) == Ok::<
                    BreadcrumbView,
                    ErrorView,
                >(kept)
                &&& !kept.aborted
                &&& kept.step_results == bc.step_results
                &&& kept.files_changed == bc.files_changed
                &&& answer.archived_to == archive_file(l, date, x)
                &&& answer.steps_completed == bc.current_step
                &&& archive_kept(t.storage.completed, t2.storage.completed, date, x)
            }
        }),
{
    active_is_located(t, id);
    let (x, pid, i) = located(t, id)->Ok_0;
    located_in_project(t, id);
    let bc = t.projects[pid][i];
    assert(in_order(t.projects[pid][i]));
    archiving_drops_nothing(t.storage, completed(bc, ctx, now), date);
}

/// An aborted breadcrumb is archived under the date, marked as aborted for the reason given;
/// nothing else in the archive is dropped.
pub proof fn abort_archives(
    t: TrackerView,
    l: LayoutView,
    reason: Seq<char>,
    id: Option<Seq<char>>,
    ctx: WriterView,
    now: Instant,
    today: i32,
)
    requires
        sound(t),
        located(t, id) is Ok,
    ensures
        ({
            let x = located(t, id)->Ok_0.0;
            let bc = active_breadcrumb(t, x)->0;
            let kept = aborted(bc, reason, ctx, now);
            &&& active_breadcrumb(t, x) is Some
            &&& abort_outcome(t, l, reason, id, ctx, now, today) matches Ok((t2, answer)) && {
                &&& reading(day_files(t2.storage.completed, date_writing(today)), x) == Ok::<
                    BreadcrumbView,
                    ErrorView,
                >(kept)
                &&& kept.aborted
                &&& kept.abort_reason == Some(reason)
                &&& kept.step_results == bc.step_results
                &&& archive_kept(
                    t.storage.completed,
                    t2.storage.completed,
                    date_writing(today),
                    x,
                )
            }
        }),
{
    active_is_located(t, id);
    let (x, pid, i) = located(t, id)->Ok_0;
    located_in_project(t, id);
    archiving_drops_nothing(
        t.storage,
        aborted(t.projects[pid][i], reason, ctx, now),
        date_writing(today),
    );
}

// ---- Requests for archived breadcrumbs ----------------------------------------------------

/// A search finds a breadcrumb exactly if it was archived on some day of the window, and then as it
/// was archived on the last such day.
pub proof fn search_finds_latest(
    days: Map<Seq<char>, DirView>,
    id: Seq<char>,
    today: int,
    from: nat,
    days_back: nat,
)
    ensures
        archived_since(days, id, today, from, days_back) is Some <==> exists|k: int|
            from <= k <= days_back && (#[trigger] archived_on(days, id, today - k)) is Some,
        archived_since(days, id, today, from, days_back) matches Some((bc, date)) ==> exists|k: int|
            {
                &&& from <= k <= days_back
                &&& #[trigger] archived_on(days, id, today - k) == Some(bc)
                &&& date == date_writing((today - k) as i32)
                &&& forall|j: int|
                    from <= j < k ==> (#[trigger] archived_on(days, id, today - j)) is None
            },
    decreases days_back + 1 - from,
{
    if from <= days_back {
        search_finds_latest(days, id, today, from + 1, days_back);
        let first = archived_on(days, id, today - from);
        match first {
            Some(bc) => {
                assert(archived_on(days, id, today - from as int) == Some(bc));
            },
            None => {
                assert(archived_on(days, id, today - from as int) is None);
                if let Some((bc, date)) = archived_since(days, id, today, from + 1, days_back) {
                    let k = choose|k: int|
                        {
                            &&& from + 1 <= k <= days_back
                            &&& #[trigger] archived_on(days, id, today - k) == Some(bc)
                            &&& date == date_writing((today - k) as i32)
                            &&& forall|j: int|
                                from + 1 <= j < k ==> (#[trigger] archived_on(
                                    days,
                                    id,
                                    today - j,
                                )) is None
                        };
                    assert(archived_on(days, id, today - k) == Some(bc));
                }
            },
        }
    }
}

/// A breadcrumb that is not active but was archived within the last seven days: an abort answers
/// that it is archived already and how it ended, an adoption is refused with the same, and neither
/// changes anything.
pub proof fn archived_requests_are_answered(
    t: TrackerView,
    l: LayoutView,
    reason: Seq<char>,
    id: Seq<char>,
    ctx: WriterView,
    now: Instant,
    today: i32,
    ago: int,
)
    requires
        !t.index.contains_key(id),
        0 <= ago <= ARCHIVE_SEARCH_DAYS,
        archived_on(t.storage.completed, id, today - ago) is Some,
    ensures
        archived_since(t.storage.completed, id, today as int, 0, ARCHIVE_SEARCH_DAYS as nat) matches
            Some((bc, date)) && {
            &&& abort_outcome(t, l, reason, Some(id), ctx, now, today) == Ok::<
                (TrackerView, AbortView),
                ErrorView,
            >((t, archived_answer(l, id, bc, date)))
            &&& adopt_outcome(t, l, id, ctx, now, today) matches Err(ErrorView::Other(m)) && m
                == cannot_adopt(l, id, bc, date)
        },
{
    search_finds_latest(t.storage.completed, id, today as int, 0, ARCHIVE_SEARCH_DAYS as nat);
}

/// A breadcrumb that is neither active nor archived within the last seven days is not found.
pub proof fn unknown_requests_are_refused(
    t: TrackerView,
    l: LayoutView,
    reason: Seq<char>,
    id: Seq<char>,
    ctx: WriterView,
    now: Instant,
    today: i32,
)
    requires
        !t.index.contains_key(id),
        forall|ago: int|
            0 <= ago <= ARCHIVE_SEARCH_DAYS ==> (#[trigger] archived_on(
                t.storage.completed,
                id,
                today - ago,
            )) is None,
    ensures
        abort_outcome(t, l, reason, Some(id), ctx, now, today) matches Err(e) && e
            == (ErrorView::NotFound { id }),
        adopt_outcome(t, l, id, ctx, now, today) matches Err(e) && e == (ErrorView::NotFound { id }),
{
    search_finds_latest(t.storage.completed, id, today as int, 0, ARCHIVE_SEARCH_DAYS as nat);
}

proof fn search_finds_day(
    days: Map<Seq<char>, DirView>,
    id: Seq<char>,
    day: int,
    later_day: int,
    days_back: nat,
)
    requires
        day <= later_day <= day + days_back,
        archived_on(days, id, day) is Some,
        forall|d: int| day < d <= later_day ==> (#[trigger] archived_on(days, id, d)) is None,
    ensures
        archived_since(days, id, later_day, 0, days_back) == Some(
            (archived_on(days, id, day)->0, date_writing(day as i32)),
        ),
{
    search_finds_latest(days, id, later_day, 0, days_back);
    assert(archived_on(days, id, later_day - (later_day - day)) is Some);
    let (bc, date) = archived_since(days, id, later_day, 0, days_back)->0;
    let k = choose|k: int|
        {
            &&& 0 <= k <= days_back
            &&& #[trigger] archived_on(days, id, later_day - k) == Some(bc)
            &&& date == date_writing((later_day - k) as i32)
            &&& forall|j: int|
                0 <= j < k ==> (#[trigger] archived_on(days, id, later_day - j)) is None
        };
    if k < later_day - day {
        assert(archived_on(days, id, later_day - k) is None);
    } else if k > later_day - day {
        assert(archived_on(days, id, later_day - (later_day - day)) is None);
    }
}

/// A breadcrumb that was completed on `day` is remembered for seven days, whoever asks: an abort
/// answers that it is archived already, an adoption is refused, and neither changes anything. Where
/// no later copy of it was archived, both report it as completed, as it was archived on that day.
pub proof fn completed_is_remembered(
    t: TrackerView,
    l: LayoutView,
    summary: Seq<char>,
    id: Option<Seq<char>>,
    ctx: WriterView,
    now: Instant,
    day: i32,
    reason: Seq<char>,
    other: WriterView,
    later: Instant,
    later_day: i32,
)
    requires
        sound(t),
        located(t, id) is Ok,
        valid_day(day as int),
        day <= later_day <= day + ARCHIVE_SEARCH_DAYS,
    ensures
        ({
            let x = located(t, id)->Ok_0.0;
            let bc = completed(active_breadcrumb(t, x)->0, ctx, now);
            complete_outcome(t, l, summary, id, ctx, now, date_writing(day)) matches Ok((t2, _)) && {
                &&& abort_outcome(t2, l, reason, Some(x), other, later, later_day) matches Ok((t3, a))
                    && t3 == t2 && a is AlreadyArchived
                &&& adopt_outcome(t2, l, x, other, later, later_day) matches Err(
                    ErrorView::Other(_),
                )
                &&& (forall|d: int|
                    day < d <= later_day ==> (#[trigger] archived_on(t2.storage.completed, x, d)) is None)
                    ==> {
                    &&& abort_outcome(t2, l, reason, Some(x), other, later, later_day) matches Ok(
                        (_, a),
                    ) && a == archived_answer(l, x, bc, date_writing(day))
                    &&& result_type(bc) == "completed"@
                    &&& adopt_outcome(t2, l, x, other, later, later_day) matches Err(
                        ErrorView::Other(m),
                    ) && m == cannot_adopt(l, x, bc, date_writing(day))
                }
            }
        }),
{
    let date = date_writing(day);
    complete_archives(t, l, summary, id, ctx, now, date);
    active_is_located(t, id);
    located_in_project(t, id);
    let (x, pid, i) = located(t, id)->Ok_0;
    let t2 = complete_outcome(t, l, summary, id, ctx, now, date)->Ok_0.0;
    let ago = later_day - day;
    assert(archived_on(t2.storage.completed, x, later_day - ago) is Some);
    archived_requests_are_answered(t2, l, reason, x, other, later, later_day, ago);
    if forall|d: int|
        day < d <= later_day ==> (#[trigger] archived_on(t2.storage.completed, x, d)) is None {
        search_finds_day(
            t2.storage.completed,
            x,
            day as int,
            later_day as int,
            ARCHIVE_SEARCH_DAYS as nat,
        );
    }
}

/// A breadcrumb that was aborted on `day` is remembered for seven days, whoever asks: a second abort
/// answers that it is archived already, an adoption is refused, and neither changes anything. Where
/// no later copy of it was archived, both report it as aborted, for the reason it was aborted for.
pub proof fn aborted_is_remembered(
    t: TrackerView,
    l: LayoutView,
    why: Seq<char>,
    id: Option<Seq<char>>,
    ctx: WriterView,
    now: Instant,
    day: i32,
    reason: Seq<char>,
    other: WriterView,
    later: Instant,
    later_day: i32,
)
    requires
        sound(t),
        located(t, id) is Ok,
        valid_day(day as int),
        day <= later_day <= day + ARCHIVE_SEARCH_DAYS,
    ensures
        ({
            let x = located(t, id)->Ok_0.0;
            let bc = aborted(active_breadcrumb(t, x)->0, why, ctx, now);
            abort_outcome(t, l, why, id, ctx, now, day) matches Ok((t2, _)) && {
                &&& abort_outcome(t2, l, reason, Some(x), other, later, later_day) matches Ok((t3, a))
                    && t3 == t2 && a is AlreadyArchived
                &&& adopt_outcome(t2, l, x, other, later, later_day) matches Err(
                    ErrorView::Other(_),
                )
                &&& (forall|d: int|
                    day < d <= later_day ==> (#[trigger] archived_on(t2.storage.completed, x, d)) is None)
                    ==> {
                    &&& abort_outcome(t2, l, reason, Some(x), other, later, later_day) matches Ok(
                        (_, a),
                    ) && a == archived_answer(l, x, bc, date_writing(day))
                    &&& result_type(bc) == "aborted"@ && bc.abort_reason == Some(why)
                    &&& adopt_outcome(t2, l, x, other, later, later_day) matches Err(
                        ErrorView::Other(m),
                    ) && m == cannot_adopt(l, x, bc, date_writing(day))
                }
            }
        }),
{
    abort_archives(t, l, why, id, ctx, now, day);
    active_is_located(t, id);
    located_in_project(t, id);
    let (x, pid, i) = located(t, id)->Ok_0;
    let t2 = abort_outcome(t, l, why, id, ctx, now, day)->Ok_0.0;
    let ago = later_day - day;
    assert(archived_on(t2.storage.completed, x, later_day - ago) is Some);
    archived_requests_are_answered(t2, l, reason, x, other, later, later_day, ago);
    if forall|d: int|
        day < d <= later_day ==> (#[trigger] archived_on(t2.storage.completed, x, d)) is None {
        search_finds_day(
            t2.storage.completed,
            x,
            day as int,
            later_day as int,
            ARCHIVE_SEARCH_DAYS as nat,
        );
    }
}

// ---- Plans --------------------------------------------------------------------------------

/// A completion that is planned, and carried out once its copy is written, is the completion that is
/// asked for; and what is planned is what is archived.
pub proof fn planned_completion_completes(
    t: TrackerView,
    l: LayoutView,
    summary: Seq<char>,
    id: Option<Seq<char>>,
    ctx: WriterView,
    now: Instant,
    date: Seq<char>,
)
    requires
        t.index.dom().finite(),
    ensures
        match planned_completion(t, l, summary, id, ctx, now, date) {
            Ok(c) => retirement(t, c.breadcrumb, c.date) matches Ok(t2) && complete_outcome(
                t,
                l,
                summary,
                id,
                ctx,
                now,
                date,
            ) == Ok::<(TrackerView, CompleteView), ErrorView>((t2, c.response)) && reading(
                day_files(t2.storage.completed, c.date),
                c.breadcrumb.id,
            ) == Ok::<BreadcrumbView, ErrorView>(c.breadcrumb),
            Err(e) => complete_outcome(t, l, summary, id, ctx, now, date) == Err::<
                (TrackerView, CompleteView),
                ErrorView,
            >(e),
        },
{
    if located(t, id) is Ok {
        located_again(t, id);
        located_in_project(t, id);
        let (x, pid, i) = located(t, id)->Ok_0;
        archiving_drops_nothing(t.storage, completed(t.projects[pid][i], ctx, now), date);
    }
}

/// An abort that is planned, and carried out once its copy is written, is the abort that is asked
/// for; and what is planned is what is archived.
pub proof fn planned_abort_aborts(
    t: TrackerView,
    l: LayoutView,
    reason: Seq<char>,
    id: Option<Seq<char>>,
    ctx: WriterView,
    now: Instant,
    today: i32,
)
    requires
        t.index.dom().finite(),
    ensures
        match planned_abort(t, l, reason, id, ctx, now, today) {
            Ok(AbortPlanView::AlreadyArchived { response }) => abort_outcome(
                t,
                l,
                reason,
                id,
                ctx,
                now,
                today,
            ) == Ok::<(TrackerView, AbortView), ErrorView>((t, response)),
            Ok(AbortPlanView::Archive { breadcrumb, date, response }) => retirement(
                t,
                breadcrumb,
                date,
            ) matches Ok(t2) && abort_outcome(t, l, reason, id, ctx, now, today) == Ok::<
                (TrackerView, AbortView),
                ErrorView,
            >((t2, response)) && reading(day_files(t2.storage.completed, date), breadcrumb.id)
                == Ok::<BreadcrumbView, ErrorView>(breadcrumb),
            Err(e) => abort_outcome(t, l, reason, id, ctx, now, today) == Err::<
                (TrackerView, AbortView),
                ErrorView,
            >(e),
        },
{
    if located(t, id) is Ok {
        located_again(t, id);
        located_in_project(t, id);
        let (x, pid, i) = located(t, id)->Ok_0;
        archiving_drops_nothing(
            t.storage,
            aborted(t.projects[pid][i], reason, ctx, now),
            date_writing(today),
        );
    }
}

/// Whatever becomes of the archived copy, an active breadcrumb that is completed or aborted is not
/// dropped: it is archived if the copy was written, and active as before if it was not. `t2` is the
/// tracker afterwards.
pub proof fn retiring_never_drops(
    t: TrackerView,
    bc: BreadcrumbView,
    date: Seq<char>,
    copy_written: bool,
    t2: TrackerView,
)
    requires
        sound(t),
        t.index.contains_key(bc.id),
        t2 == (if copy_written {
            retirement(t, bc, date)->Ok_0
        } else {
            t
        }),
    ensures
        copy_written ==> reading(day_files(t2.storage.completed, date), bc.id) == Ok::<
            BreadcrumbView,
            ErrorView,
        >(bc) && archive_kept(t.storage.completed, t2.storage.completed, date, bc.id),
        !copy_written ==> t2.index.contains_key(bc.id) && active_breadcrumb(t2, bc.id) is Some,
{
    active_is_located(t, Some(bc.id));
    archiving_drops_nothing(t.storage, bc, date);
}

}
