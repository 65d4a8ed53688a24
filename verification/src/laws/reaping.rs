//! What a reap takes and what it leaves.

use vstd::prelude::*;

use crate::archive::archived_on;
use crate::clock::{date_writing, valid_day, Instant};
use crate::error::ErrorView;
use crate::laws::agreement::files_agree;
use crate::laws::archiving::archived_requests_are_answered;
use crate::laws::files::write_reads_back;
use crate::laws::tracking::{
    active_breadcrumb, active_is_located, found_after_remove, in_order, located_in_project, sound,
};
use crate::layout::LayoutView;
use crate::migrate::all_copied;
use crate::schema::{BreadcrumbView, WriterView};
use crate::storage::{
    archived, archived_all, breadcrumbs_met, copied, day_files, ids_of, is_json, reading, reapable, reaped,
    reaped_among, written, DirView, FileView, StorageView,
};
use crate::table::walks;
use crate::text::{json_name, json_name_has_extension, json_name_injective};
use crate::tracker::{
    abort_outcome, adopt_outcome, all_forgotten, all_retired, entry_of, forgotten, located, reap_outcome,
    TrackerView, ARCHIVE_SEARCH_DAYS,
};

verus! {

/// Whether every breadcrumb stands in the file of its own identifier.
pub open spec fn named_by_id(files: DirView) -> bool {
    forall|name: Seq<char>| #[trigger]
        files.contains_key(name) && is_json(name) ==> (files[name] matches FileView::Parsed(bc)
            ==> name == json_name(bc.id))
}

/// Writing and removing breadcrumbs leaves every breadcrumb in the file of its own identifier.
pub proof fn files_stay_named(files: DirView, bc: BreadcrumbView, id: Seq<char>)
    requires
        named_by_id(files),
    ensures
        named_by_id(written(files, bc)),
        named_by_id(files.remove(json_name(id))),
{
    assert forall|name: Seq<char>| #[trigger]
        written(files, bc).contains_key(name) && is_json(name) implies (written(files, bc)[name] matches
        FileView::Parsed(b) ==> name == json_name(b.id)) by {
        if name != json_name(bc.id) {
            assert(files.contains_key(name));
        }
    }
    assert forall|name: Seq<char>| #[trigger]
        files.remove(json_name(id)).contains_key(name) && is_json(name) implies (files.remove(
        json_name(id),
    )[name] matches FileView::Parsed(b) ==> name == json_name(b.id)) by {
        assert(files.contains_key(name));
    }
}

/// Whether the file `name` holds the breadcrumb `bc` as a walk over the active ones meets it.
pub open spec fn holds(files: DirView, name: Seq<char>, bc: BreadcrumbView) -> bool {
    files.contains_key(name) && is_json(name) && files[name] == FileView::Parsed(bc)
}

/// A walk over the active files meets what they hold, each breadcrumb once.
pub proof fn met_are_held(keys: Seq<Seq<char>>, files: DirView)
    requires
        forall|i: int| 0 <= i < keys.len() ==> files.contains_key(#[trigger] keys[i]),
        keys.no_duplicates(),
        named_by_id(files),
    ensures
        ({
            let met = breadcrumbs_met(keys, files);
            &&& forall|m: int|
                0 <= m < met.len() ==> holds(
                    files,
                    json_name((#[trigger] met[m]).id),
                    met[m],
                ) && keys.contains(json_name(met[m].id))
            &&& forall|i: int, bc: BreadcrumbView|
                0 <= i < keys.len() && #[trigger] holds(files, keys[i], bc) ==> met.contains(bc)
            &&& forall|m: int, n: int|
                0 <= m < n < met.len() ==> (#[trigger] met[m]).id != (#[trigger] met[n]).id
        }),
    decreases keys.len(),
{
    let met = breadcrumbs_met(keys, files);
    if keys.len() > 0 {
        let rest = keys.drop_last();
        let last = keys.last();
        let before = breadcrumbs_met(rest, files);
        assert forall|i: int| 0 <= i < rest.len() implies files.contains_key(#[trigger] rest[i]) by {
            assert(rest[i] == keys[i]);
        }
        met_are_held(rest, files);
        assert(keys[keys.len() - 1] == last);
        assert(files.contains_key(last));
        assert(!rest.contains(last)) by {
            if rest.contains(last) {
                assert(keys[rest.index_of(last)] == keys[keys.len() - 1]);
            }
        }
        assert forall|m: int| 0 <= m < met.len() implies holds(
            files,
            json_name((#[trigger] met[m]).id),
            met[m],
        ) && keys.contains(json_name(met[m].id)) by {
            if m < before.len() {
                assert(met[m] == before[m]);
                let k = json_name(before[m].id);
                assert(keys[rest.index_of(k)] == k);
            } else {
                assert(last == json_name(met[m].id));
            }
        }
        assert forall|i: int, bc: BreadcrumbView|
            0 <= i < keys.len() && #[trigger] holds(files, keys[i], bc) implies met.contains(bc) by {
            if i < rest.len() {
                assert(holds(files, rest[i], bc));
                assert(before.contains(bc));
                assert(met[before.index_of(bc)] == bc);
            } else {
                assert(met[met.len() - 1] == bc);
            }
        }
        assert forall|m: int, n: int| 0 <= m < n < met.len() implies (#[trigger] met[m]).id != (
        #[trigger] met[n]).id by {
            assert(met[m] == before[m]);
            if n < before.len() {
                assert(met[n] == before[n]);
            } else {
                assert(json_name(met[n].id) == last);
                assert(rest.contains(json_name(before[m].id)));
            }
        }
    }
}

proof fn reaped_are_met(bcs: Seq<BreadcrumbView>, hours: u64, now: Instant)
    requires
        forall|m: int, n: int|
            0 <= m < n < bcs.len() ==> (#[trigger] bcs[m]).id != (#[trigger] bcs[n]).id,
    ensures
        ({
            let gone = reaped_among(bcs, hours, now);
            &&& forall|j: int|
                0 <= j < gone.len() ==> exists|m: int|
                    {
                        &&& 0 <= m < bcs.len()
                        &&& reapable(#[trigger] bcs[m], hours, now)
                        &&& #[trigger] gone[j] == reaped(bcs[m], hours)
                    }
            &&& forall|m: int|
                0 <= m < bcs.len() && reapable(#[trigger] bcs[m], hours, now) ==> gone.contains(
                    reaped(bcs[m], hours),
                )
            &&& forall|i: int, j: int|
                0 <= i < j < gone.len() ==> (#[trigger] gone[i]).id != (#[trigger] gone[j]).id
        }),
    decreases bcs.len(),
{
    let gone = reaped_among(bcs, hours, now);
    if bcs.len() > 0 {
        let rest = bcs.drop_last();
        let before = reaped_among(rest, hours, now);
        assert forall|m: int, n: int| 0 <= m < n < rest.len() implies (#[trigger] rest[m]).id != (
        #[trigger] rest[n]).id by {
            assert(rest[m] == bcs[m] && rest[n] == bcs[n]);
        }
        reaped_are_met(rest, hours, now);
        let last = bcs[bcs.len() - 1];
        assert(last == bcs.last());
        assert forall|j: int| 0 <= j < gone.len() implies exists|m: int|
            {
                &&& 0 <= m < bcs.len()
                &&& reapable(#[trigger] bcs[m], hours, now)
                &&& #[trigger] gone[j] == reaped(bcs[m], hours)
            } by {
            if j < before.len() {
                assert(gone[j] == before[j]);
                let m = choose|m: int|
                    {
                        &&& 0 <= m < rest.len()
                        &&& reapable(#[trigger] rest[m], hours, now)
                        &&& before[j] == reaped(rest[m], hours)
                    };
                assert(bcs[m] == rest[m]);
            } else {
                assert(gone[j] == reaped(last, hours));
            }
        }
        assert forall|m: int| 0 <= m < bcs.len() && reapable(
            #[trigger] bcs[m],
            hours,
            now,
        ) implies gone.contains(reaped(bcs[m], hours)) by {
            if m < rest.len() {
                assert(rest[m] == bcs[m]);
                assert(before.contains(reaped(rest[m], hours)));
                assert(gone[before.index_of(reaped(rest[m], hours))] == reaped(bcs[m], hours));
            } else {
                assert(gone[gone.len() - 1] == reaped(bcs[m], hours));
            }
        }
        assert forall|i: int, j: int| 0 <= i < j < gone.len() implies (#[trigger] gone[i]).id != (
        #[trigger] gone[j]).id by {
            assert(gone[i] == before[i]);
            if j < before.len() {
                assert(gone[j] == before[j]);
            } else {
                let m = choose|m: int|
                    {
                        &&& 0 <= m < rest.len()
                        &&& reapable(#[trigger] rest[m], hours, now)
                        &&& before[i] == reaped(rest[m], hours)
                    };
                assert(rest[m] == bcs[m]);
                assert(bcs[m].id != last.id);
            }
        }
    }
}

proof fn archived_all_effect(s: StorageView, bcs: Seq<BreadcrumbView>, date: Seq<char>)
    requires
        forall|i: int, j: int|
            0 <= i < j < bcs.len() ==> (#[trigger] bcs[i]).id != (#[trigger] bcs[j]).id,
    ensures
        ({
            let s2 = archived_all(s, bcs, date);
            &&& forall|j: int|
                0 <= j < bcs.len() ==> reading(
                    day_files(s2.completed, date),
                    (#[trigger] bcs[j]).id,
                ) == Ok::<BreadcrumbView, ErrorView>(bcs[j]) && !s2.active.contains_key(
                    json_name(bcs[j].id),
                )
            &&& forall|name: Seq<char>|
                (forall|j: int| 0 <= j < bcs.len() ==> json_name((#[trigger] bcs[j]).id) != name)
                    ==> (#[trigger] s2.active.contains_key(name) <==> s.active.contains_key(name))
                    && (s.active.contains_key(name) ==> s2.active[name] == s.active[name])
            &&& forall|name: Seq<char>|
                s2.active.contains_key(name) ==> #[trigger] s.active.contains_key(name)
            &&& forall|d: Seq<char>, name: Seq<char>|
                s.completed.contains_key(d) && #[trigger] s.completed[d].contains_key(name) && (d
                    != date || forall|j: int|
                    0 <= j < bcs.len() ==> json_name((#[trigger] bcs[j]).id) != name)
                    ==> s2.completed.contains_key(d) && s2.completed[d].contains_key(name)
                    && s2.completed[d][name] == s.completed[d][name]
        }),
    decreases bcs.len(),
{
    if bcs.len() > 0 {
        let rest = bcs.drop_last();
        let last = bcs[bcs.len() - 1];
        assert(last == bcs.last());
        assert forall|i: int, j: int| 0 <= i < j < rest.len() implies (#[trigger] rest[i]).id != (
        #[trigger] rest[j]).id by {
            assert(rest[i] == bcs[i] && rest[j] == bcs[j]);
        }
        archived_all_effect(s, rest, date);
        let s1 = archived_all(s, rest, date);
        let s2 = archived_all(s, bcs, date);
        assert(s2 == archived(s1, last, date));
        assert forall|j: int| 0 <= j < bcs.len() implies reading(
            day_files(s2.completed, date),
            (#[trigger] bcs[j]).id,
        ) == Ok::<BreadcrumbView, ErrorView>(bcs[j]) && !s2.active.contains_key(
            json_name(bcs[j].id),
        ) by {
            write_reads_back(day_files(s1.completed, date), last);
            if j < rest.len() {
                assert(rest[j] == bcs[j]);
                assert(bcs[j].id != last.id);
            }
        }
        assert forall|name: Seq<char>|
            (forall|j: int| 0 <= j < bcs.len() ==> json_name((#[trigger] bcs[j]).id) != name) implies (
        #[trigger] s2.active.contains_key(name) <==> s.active.contains_key(name)) && (
        s.active.contains_key(name) ==> s2.active[name] == s.active[name]) by {
            assert(json_name(last.id) != name);
            assert forall|j: int| 0 <= j < rest.len() implies json_name((#[trigger] rest[j]).id)
                != name by {
                assert(rest[j] == bcs[j]);
            }
            assert(s1.active.contains_key(name) <==> s.active.contains_key(name));
        }
        assert forall|d: Seq<char>, name: Seq<char>|
            s.completed.contains_key(d) && #[trigger] s.completed[d].contains_key(name) && (d != date
                || forall|j: int|
                0 <= j < bcs.len() ==> json_name((#[trigger] bcs[j]).id) != name) implies s2.completed.contains_key(
            d,
        ) && s2.completed[d].contains_key(name) && s2.completed[d][name]
            == s.completed[d][name] by {
            if d == date {
                assert(json_name(last.id) != name);
                assert forall|j: int| 0 <= j < rest.len() implies json_name((#[trigger] rest[j]).id)
                    != name by {
                    assert(rest[j] == bcs[j]);
                }
            }
        }
    }
}

/// A reap moves the active breadcrumbs without activity for `hours` to the archive, marked as
/// aborted, and leaves every other active file as it is. What was archived before is kept, save
/// under the names of breadcrumbs that are reaped on that date.
pub proof fn reap_moves_stale(
    s: StorageView,
    keys: Seq<Seq<char>>,
    hours: u64,
    now: Instant,
    date: Seq<char>,
)
    requires
        named_by_id(s.active),
        walks(keys, s.active),
    ensures
        ({
            let gone = reaped_among(breadcrumbs_met(keys, s.active), hours, now);
            let s2 = archived_all(s, gone, date);
            &&& forall|name: Seq<char>, bc: BreadcrumbView| #[trigger]
                holds(s.active, name, bc) && reapable(bc, hours, now) ==> !s2.active.contains_key(
                    name,
                ) && reading(day_files(s2.completed, date), bc.id) == Ok::<
                    BreadcrumbView,
                    ErrorView,
                >(reaped(bc, hours))
            &&& forall|name: Seq<char>|
                s.active.contains_key(name) && !(exists|bc: BreadcrumbView| #[trigger]
                    holds(s.active, name, bc) && reapable(bc, hours, now))
                    ==> #[trigger] s2.active.contains_key(name) && s2.active[name]
                    == s.active[name]
            &&& forall|name: Seq<char>|
                s2.active.contains_key(name) ==> #[trigger] s.active.contains_key(name)
            &&& forall|d: Seq<char>, name: Seq<char>|
                s.completed.contains_key(d) && #[trigger] s.completed[d].contains_key(name) && !(d
                    == date && exists|bc: BreadcrumbView| #[trigger]
                    holds(s.active, name, bc) && reapable(bc, hours, now))
                    ==> s2.completed.contains_key(d) && s2.completed[d].contains_key(name)
                    && s2.completed[d][name] == s.completed[d][name]
        }),
{
    let met = breadcrumbs_met(keys, s.active);
    let gone = reaped_among(met, hours, now);
    let s2 = archived_all(s, gone, date);
    assert forall|i: int| 0 <= i < keys.len() implies s.active.contains_key(#[trigger] keys[i]) by {
        assert(keys.contains(keys[i]));
    }
    met_are_held(keys, s.active);
    reaped_are_met(met, hours, now);
    archived_all_effect(s, gone, date);
    assert forall|name: Seq<char>, bc: BreadcrumbView| #[trigger]
        holds(s.active, name, bc) && reapable(bc, hours, now) implies !s2.active.contains_key(name)
        && reading(day_files(s2.completed, date), bc.id) == Ok::<BreadcrumbView, ErrorView>(
        reaped(bc, hours),
    ) by {
        assert(keys.contains(name));
        let i = keys.index_of(name);
        assert(holds(s.active, keys[i], bc));
        let m = met.index_of(bc);
        assert(met[m] == bc);
        let j = gone.index_of(reaped(met[m], hours));
        assert(gone[j] == reaped(bc, hours));
        assert(gone[j].id == bc.id);
    }
    assert forall|name: Seq<char>|
        s.active.contains_key(name) && !(exists|bc: BreadcrumbView| #[trigger]
            holds(s.active, name, bc) && reapable(bc, hours, now)) implies #[trigger] s2.active.contains_key(
        name,
    ) && s2.active[name] == s.active[name] by {
        no_reaped_file(s.active, met, gone, hours, now, name);
    }
    assert forall|d: Seq<char>, name: Seq<char>|
        s.completed.contains_key(d) && #[trigger] s.completed[d].contains_key(name) && !(d == date
            && exists|bc: BreadcrumbView| #[trigger]
            holds(s.active, name, bc) && reapable(bc, hours, now)) implies s2.completed.contains_key(d)
        && s2.completed[d].contains_key(name) && s2.completed[d][name] == s.completed[d][name] by {
        if d == date {
            no_reaped_file(s.active, met, gone, hours, now, name);
        }
    }
}

proof fn no_reaped_file(
    files: DirView,
    met: Seq<BreadcrumbView>,
    gone: Seq<BreadcrumbView>,
    hours: u64,
    now: Instant,
    name: Seq<char>,
)
    requires
        forall|m: int|
            0 <= m < met.len() ==> holds(files, json_name((#[trigger] met[m]).id), met[m]),
        forall|j: int|
            0 <= j < gone.len() ==> exists|m: int|
                {
                    &&& 0 <= m < met.len()
                    &&& reapable(#[trigger] met[m], hours, now)
                    &&& #[trigger] gone[j] == reaped(met[m], hours)
                },
        !(exists|bc: BreadcrumbView| #[trigger]
            holds(files, name, bc) && reapable(bc, hours, now)),
    ensures
        forall|j: int| 0 <= j < gone.len() ==> json_name((#[trigger] gone[j]).id) != name,
{
    assert forall|j: int| 0 <= j < gone.len() implies json_name((#[trigger] gone[j]).id) != name by {
        let m = choose|m: int|
            {
                &&& 0 <= m < met.len()
                &&& reapable(#[trigger] met[m], hours, now)
                &&& gone[j] == reaped(met[m], hours)
            };
        assert(holds(files, json_name(met[m].id), met[m]));
        assert(gone[j].id == met[m].id);
    }
}

/// After a reap, nothing active is left to reap at that time.
pub proof fn reap_leaves_none(
    s: StorageView,
    keys: Seq<Seq<char>>,
    hours: u64,
    now: Instant,
    date: Seq<char>,
)
    requires
        named_by_id(s.active),
        walks(keys, s.active),
    ensures
        ({
            let gone = reaped_among(breadcrumbs_met(keys, s.active), hours, now);
            let s2 = archived_all(s, gone, date);
            forall|name: Seq<char>, bc: BreadcrumbView| #[trigger]
                holds(s2.active, name, bc) ==> !reapable(bc, hours, now)
        }),
{
    reap_moves_stale(s, keys, hours, now, date);
    let gone = reaped_among(breadcrumbs_met(keys, s.active), hours, now);
    let s2 = archived_all(s, gone, date);
    assert forall|name: Seq<char>, bc: BreadcrumbView| #[trigger]
        holds(s2.active, name, bc) implies !reapable(bc, hours, now) by {
        assert(s.active.contains_key(name));
        if exists|b: BreadcrumbView| #[trigger]
            holds(s.active, name, b) && reapable(b, hours, now) {
            let b = choose|b: BreadcrumbView| #[trigger]
                holds(s.active, name, b) && reapable(b, hours, now);
            assert(!s2.active.contains_key(name));
        } else {
            assert(holds(s.active, name, bc));
        }
    }
}

// ---- Reaping a tracker --------------------------------------------------------------------

/// Whether the identifier is one of `ids`, or the breadcrumb under it is the same in both trackers.
pub open spec fn kept_but(t: TrackerView, t2: TrackerView, ids: Seq<Seq<char>>) -> bool {
    forall|x: Seq<char>|
        if ids.contains(x) {
            !t2.index.contains_key(x)
        } else {
            (t2.index.contains_key(x) <==> t.index.contains_key(x)) && (t.index.contains_key(x)
                ==> t2.index[x] == t.index[x]) && #[trigger] active_breadcrumb(t2, x)
                == active_breadcrumb(t, x)
        }
}

proof fn forgetting_keeps_sound(t: TrackerView, id: Seq<char>)
    requires
        sound(t),
    ensures
        sound(forgotten(t, id)),
        kept_but(t, forgotten(t, id), seq![id]),
        forgotten(t, id).storage == t.storage,
{
    let t2 = forgotten(t, id);
    active_is_located(t, Some(id));
    if located(t, Some(id)) is Ok {
        let (x, pid, i) = located(t, Some(id))->Ok_0;
        located_in_project(t, Some(id));
        let bcs = t.projects[pid];
        assert(t2.projects[pid] == bcs.remove(i));
        assert forall|y: Seq<char>| y != id implies #[trigger] active_breadcrumb(t2, y)
            == active_breadcrumb(t, y) by {
            found_after_remove(bcs, i, y);
        }
        assert forall|p: Seq<char>, j: int|
            t2.projects.contains_key(p) && 0 <= j < t2.projects[p].len() implies in_order(
            #[trigger] t2.projects[p][j],
        ) by {
            if p != pid || j < i {
                assert(t2.projects[p][j] == t.projects[p][j]);
            } else {
                assert(t2.projects[p][j] == t.projects[p][j + 1]);
            }
        }
    } else {
        assert(t2.projects == t.projects);
        assert forall|y: Seq<char>| y != id implies #[trigger] active_breadcrumb(t2, y)
            == active_breadcrumb(t, y) by {}
    }
    assert(seq![id][0] == id);
    assert forall|x: Seq<char>|
        if seq![id].contains(x) {
            !t2.index.contains_key(x)
        } else {
            (t2.index.contains_key(x) <==> t.index.contains_key(x)) && (t.index.contains_key(x)
                ==> t2.index[x] == t.index[x]) && #[trigger] active_breadcrumb(t2, x)
                == active_breadcrumb(t, x)
        } by {
        if seq![id].contains(x) {
            assert(x == id);
        } else {
            assert(x != id);
        }
    }
    assert forall|y: Seq<char>| #[trigger] t2.index.contains_key(y) implies (active_breadcrumb(t2, y)
        matches Some(b) && entry_of(b) == t2.index[y]) by {
        assert(y != id);
        assert(t.index.contains_key(y));
        assert(active_breadcrumb(t2, y) == active_breadcrumb(t, y));
    }
}

proof fn all_forgetting_keeps_sound(t: TrackerView, ids: Seq<Seq<char>>)
    requires
        sound(t),
    ensures
        sound(all_forgotten(t, ids)),
        kept_but(t, all_forgotten(t, ids), ids),
        all_forgotten(t, ids).storage == t.storage,
    decreases ids.len(),
{
    if ids.len() > 0 {
        let rest = ids.drop_last();
        let last = ids.last();
        let t1 = all_forgotten(t, rest);
        let t2 = all_forgotten(t, ids);
        all_forgetting_keeps_sound(t, rest);
        forgetting_keeps_sound(t1, last);
        assert forall|x: Seq<char>|
            if ids.contains(x) {
                !t2.index.contains_key(x)
            } else {
                (t2.index.contains_key(x) <==> t.index.contains_key(x)) && (t.index.contains_key(x)
                    ==> t2.index[x] == t.index[x]) && #[trigger] active_breadcrumb(t2, x)
                    == active_breadcrumb(t, x)
            } by {
            assert(ids.contains(x) <==> rest.contains(x) || x == last) by {
                if rest.contains(x) {
                    assert(ids[rest.index_of(x)] == x);
                }
                if x == last {
                    assert(ids[ids.len() - 1] == x);
                }
                if ids.contains(x) && x != last {
                    assert(rest[ids.index_of(x)] == x);
                }
            }
            assert(seq![last].contains(x) <==> x == last) by {
                assert(seq![last][0] == last);
            }
        }
    }
}

/// A reap of a sound tracker whose files agree with the index leaves it so. Of the active
/// breadcrumbs, it takes those without activity for `hours`, which are archived as aborted and not
/// active any more, and leaves the others as they are.
pub proof fn reap_retires_stale(
    t: TrackerView,
    keys: Seq<Seq<char>>,
    hours: u64,
    now: Instant,
    date: Seq<char>,
)
    requires
        sound(t),
        files_agree(t),
        named_by_id(t.storage.active),
        walks(keys, t.storage.active),
    ensures
        ({
            let t2 = reap_outcome(
                t,
                breadcrumbs_met(keys, t.storage.active),
                hours,
                now,
                date,
            ).0;
            &&& sound(t2)
            &&& files_agree(t2)
            &&& forall|id: Seq<char>| #[trigger]
                t.index.contains_key(id) && id.len() > 0 && reapable(
                    active_breadcrumb(t, id)->0,
                    hours,
                    now,
                ) ==> !t2.index.contains_key(id) && reading(
                    day_files(t2.storage.completed, date),
                    id,
                ) == Ok::<BreadcrumbView, ErrorView>(reaped(active_breadcrumb(t, id)->0, hours))
            &&& forall|id: Seq<char>| #[trigger]
                t.index.contains_key(id) && !reapable(active_breadcrumb(t, id)->0, hours, now)
                    ==> t2.index.contains_key(id) && active_breadcrumb(t2, id)
                    == active_breadcrumb(t, id)
        }),
{
    let met = breadcrumbs_met(keys, t.storage.active);
    let gone = reaped_among(met, hours, now);
    let ids = ids_of(gone);
    let s2 = archived_all(t.storage, gone, date);
    let t1 = TrackerView { storage: s2, ..t };
    let t2 = all_forgotten(t1, ids);
    assert(sound(t1)) by {
        assert forall|x: Seq<char>| #[trigger] t1.index.contains_key(x) implies (active_breadcrumb(
            t1,
            x,
        ) matches Some(b) && entry_of(b) == t1.index[x]) by {
            assert(t.index.contains_key(x));
        }
    }
    all_forgetting_keeps_sound(t1, ids);
    assert forall|i: int| 0 <= i < keys.len() implies t.storage.active.contains_key(
        #[trigger] keys[i],
    ) by {
        assert(keys.contains(keys[i]));
    }
    met_are_held(keys, t.storage.active);
    reaped_are_met(met, hours, now);
    archived_all_effect(t.storage, gone, date);
    reap_moves_stale(t.storage, keys, hours, now, date);
    assert forall|id: Seq<char>| ids.contains(id) implies exists|j: int|
        0 <= j < gone.len() && (#[trigger] gone[j]).id == id by {
        assert(gone[ids.index_of(id)].id == id);
    }
    assert forall|id: Seq<char>| #[trigger] t.index.contains_key(id) && id.len() > 0 && reapable(
        active_breadcrumb(t, id)->0,
        hours,
        now,
    ) implies !t2.index.contains_key(id) && reading(day_files(t2.storage.completed, date), id)
        == Ok::<BreadcrumbView, ErrorView>(reaped(active_breadcrumb(t, id)->0, hours)) by {
        let bc = active_breadcrumb(t, id)->0;
        let name = json_name(id);
        json_name_has_extension(id);
        assert(holds(t.storage.active, name, bc));
        assert(bc.id == id) by {
            active_is_located(t, Some(id));
            located_in_project(t, Some(id));
        }
        assert(keys.contains(name));
        assert(holds(t.storage.active, keys[keys.index_of(name)], bc));
        let m = met.index_of(bc);
        assert(met[m] == bc);
        let j = gone.index_of(reaped(met[m], hours));
        assert(ids[j] == id);
        assert(ids.contains(id));
    }
    assert forall|id: Seq<char>| #[trigger] t.index.contains_key(id) && !ids.contains(id) implies t2.index.contains_key(
    id) && active_breadcrumb(t2, id) == active_breadcrumb(t, id) by {
        assert(active_breadcrumb(t1, id) == active_breadcrumb(t, id));
    }
    assert forall|id: Seq<char>| #[trigger] t.index.contains_key(id) && !reapable(
        active_breadcrumb(t, id)->0,
        hours,
        now,
    ) implies !ids.contains(id) by {
        if ids.contains(id) {
            let j = choose|j: int| 0 <= j < gone.len() && (#[trigger] gone[j]).id == id;
            let m = choose|m: int|
                {
                    &&& 0 <= m < met.len()
                    &&& reapable(#[trigger] met[m], hours, now)
                    &&& gone[j] == reaped(met[m], hours)
                };
            assert(holds(t.storage.active, json_name(met[m].id), met[m]));
            assert(met[m].id == id);
        }
    }
    assert forall|id: Seq<char>| #[trigger] t2.index.contains_key(id) implies (active_breadcrumb(
        t2,
        id,
    ) matches Some(b) && reading(t2.storage.active, id) == Ok::<BreadcrumbView, ErrorView>(b)) by {
        assert(!ids.contains(id));
        assert(t1.index.contains_key(id));
        assert(t.index.contains_key(id));
        assert(active_breadcrumb(t1, id) == active_breadcrumb(t, id));
        let name = json_name(id);
        assert forall|j: int| 0 <= j < gone.len() implies json_name((#[trigger] gone[j]).id)
            != name by {
            if json_name(gone[j].id) == name {
                json_name_injective(gone[j].id, id);
                assert(ids[j] == id);
            }
        }
        assert(s2.active.contains_key(name) <==> t.storage.active.contains_key(name));
    }
}

/// A breadcrumb that was reaped on `day` is remembered for seven days, as one that was aborted is:
/// an abort answers that it is archived already, an adoption is refused.
pub proof fn reaped_is_remembered(
    t: TrackerView,
    keys: Seq<Seq<char>>,
    hours: u64,
    now: Instant,
    day: i32,
    id: Seq<char>,
    l: LayoutView,
    reason: Seq<char>,
    ctx: WriterView,
    later: Instant,
    later_day: i32,
)
    requires
        sound(t),
        files_agree(t),
        named_by_id(t.storage.active),
        walks(keys, t.storage.active),
        t.index.contains_key(id),
        id.len() > 0,
        reapable(active_breadcrumb(t, id)->0, hours, now),
        valid_day(day as int),
        day <= later_day <= day + ARCHIVE_SEARCH_DAYS,
    ensures
        ({
            let t2 = reap_outcome(
                t,
                breadcrumbs_met(keys, t.storage.active),
                hours,
                now,
                date_writing(day),
            ).0;
            &&& abort_outcome(t2, l, reason, Some(id), ctx, later, later_day) matches Ok((t3, a))
                && t3 == t2 && a is AlreadyArchived
            &&& adopt_outcome(t2, l, id, ctx, later, later_day) matches Err(ErrorView::Other(_))
        }),
{
    let date = date_writing(day);
    reap_retires_stale(t, keys, hours, now, date);
    let t2 = reap_outcome(t, breadcrumbs_met(keys, t.storage.active), hours, now, date).0;
    let ago = later_day - day;
    assert(archived_on(t2.storage.completed, id, later_day - ago) is Some);
    archived_requests_are_answered(t2, l, reason, id, ctx, later, later_day, ago);
}

/// A breadcrumb whose archived copy could not be written is not reaped: it is active as before, in
/// the index, in its project and in its file.
pub proof fn unwritten_is_not_reaped(
    t: TrackerView,
    gone: Seq<BreadcrumbView>,
    done: Seq<bool>,
    date: Seq<char>,
    id: Seq<char>,
)
    requires
        sound(t),
        t.index.contains_key(id),
        forall|i: int, j: int|
            0 <= i < j < gone.len() ==> (#[trigger] gone[i]).id != (#[trigger] gone[j]).id,
        forall|i: int|
            0 <= i < gone.len() && (#[trigger] gone[i]).id == id ==> !(i < done.len() && done[i]),
    ensures
        ({
            let t2 = all_retired(t, copied(gone, done), date);
            &&& t2.index.contains_key(id) && t2.index[id] == t.index[id]
            &&& active_breadcrumb(t2, id) == active_breadcrumb(t, id)
            &&& reading(t2.storage.active, id) == reading(t.storage.active, id)
        }),
{
    let taken = copied(gone, done);
    let ids = ids_of(taken);
    copied_are_done(gone, done);
    assert(!ids.contains(id)) by {
        if ids.contains(id) {
            let k = ids.index_of(id);
            assert(taken[k].id == id);
        }
    }
    let t1 = TrackerView { storage: archived_all(t.storage, taken, date), ..t };
    assert(sound(t1)) by {
        assert forall|x: Seq<char>| #[trigger] t1.index.contains_key(x) implies (active_breadcrumb(
            t1,
            x,
        ) matches Some(b) && entry_of(b) == t1.index[x]) by {
            assert(t.index.contains_key(x));
        }
    }
    all_forgetting_keeps_sound(t1, ids);
    archived_all_effect(t.storage, taken, date);
    assert(active_breadcrumb(t1, id) == active_breadcrumb(t, id));
    let name = json_name(id);
    assert forall|k: int| 0 <= k < taken.len() implies json_name((#[trigger] taken[k]).id) != name by {
        if json_name(taken[k].id) == name {
            json_name_injective(taken[k].id, id);
            assert(ids[k] == id);
        }
    }
    assert(t1.storage.active.contains_key(name) <==> t.storage.active.contains_key(name));
}

/// What could be copied is among what was to be, and could be copied.
pub proof fn copied_are_done(bcs: Seq<BreadcrumbView>, done: Seq<bool>)
    requires
        forall|i: int, j: int|
            0 <= i < j < bcs.len() ==> (#[trigger] bcs[i]).id != (#[trigger] bcs[j]).id,
    ensures
        forall|k: int|
            0 <= k < copied(bcs, done).len() ==> exists|i: int|
                0 <= i < bcs.len() && i < done.len() && done[i] && #[trigger] bcs[i]
                    == #[trigger] copied(bcs, done)[k],
        forall|i: int|
            0 <= i < bcs.len() && i < done.len() && done[i] ==> copied(bcs, done).contains(
                #[trigger] bcs[i],
            ),
        forall|k: int, m: int|
            0 <= k < m < copied(bcs, done).len() ==> (#[trigger] copied(bcs, done)[k]).id != (
            #[trigger] copied(bcs, done)[m]).id,
    decreases bcs.len(),
{
    let taken = copied(bcs, done);
    if bcs.len() > 0 {
        let rest = bcs.drop_last();
        let before = copied(rest, done);
        let n = bcs.len() - 1;
        assert forall|i: int, j: int| 0 <= i < j < rest.len() implies (#[trigger] rest[i]).id != (
        #[trigger] rest[j]).id by {
            assert(rest[i] == bcs[i] && rest[j] == bcs[j]);
        }
        copied_are_done(rest, done);
        assert(bcs.last() == bcs[n]);
        assert forall|k: int| 0 <= k < taken.len() implies exists|i: int|
            0 <= i < bcs.len() && i < done.len() && done[i] && #[trigger] bcs[i]
                == #[trigger] taken[k] by {
            if k < before.len() {
                assert(taken[k] == before[k]);
                let i = choose|i: int|
                    0 <= i < rest.len() && i < done.len() && done[i] && #[trigger] rest[i]
                        == before[k];
                assert(bcs[i] == rest[i]);
            } else {
                assert(bcs[n] == taken[k]);
            }
        }
        assert forall|i: int|
            0 <= i < bcs.len() && i < done.len() && done[i] implies taken.contains(
            #[trigger] bcs[i],
        ) by {
            if i < rest.len() {
                assert(rest[i] == bcs[i]);
                assert(taken[before.index_of(rest[i])] == bcs[i]);
            } else {
                assert(taken[taken.len() - 1] == bcs[i]);
            }
        }
        assert forall|k: int, m: int| 0 <= k < m < taken.len() implies (#[trigger] taken[k]).id != (
        #[trigger] taken[m]).id by {
            assert(taken[k] == before[k]);
            if m < before.len() {
                assert(taken[m] == before[m]);
            } else {
                let i = choose|i: int|
                    0 <= i < rest.len() && i < done.len() && done[i] && #[trigger] rest[i]
                        == before[k];
                assert(bcs[i] == rest[i]);
                assert(bcs[i].id != bcs[n].id);
            }
        }
    }
}

/// A reap that is decided on and then carried out with every copy written is a reap.
pub proof fn planned_reap_reaps(
    t: TrackerView,
    active: Seq<BreadcrumbView>,
    hours: u64,
    now: Instant,
    date: Seq<char>,
    done: Seq<bool>,
)
    requires
        reaped_among(active, hours, now).len() <= done.len(),
        forall|i: int| 0 <= i < reaped_among(active, hours, now).len() ==> #[trigger] done[i],
    ensures
        ({
            let gone = copied(reaped_among(active, hours, now), done);
            (all_retired(t, gone, date), ids_of(gone)) == reap_outcome(t, active, hours, now, date)
        }),
{
    all_copied(reaped_among(active, hours, now), done);
}

}
