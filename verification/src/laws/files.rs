//! What the files of single breadcrumbs give back: what was written, what was migrated.

use vstd::prelude::*;

use crate::error::ErrorView;
use crate::laws::reaping::copied_are_done;
use crate::layout::migrated_in;
use crate::migrate::{
    breadcrumb_of_entry, collected, left_behind, lists_all, migrates, orphans, overlaid, recorded,
    to_migrate, was_indexed, with_records, writing_all_effect, LegacyDirsView, LegacyFileView, LegacyView,
};
use crate::schema::BreadcrumbView;
use crate::storage::{
    all_written, copied, json_names, reading, resolution, written, DirView,
};
use crate::text::{
    has_extension, json_name, json_name_has_extension, json_name_injective, json_name_stem,
};

verus! {

// ---- Single files -------------------------------------------------------------------------

/// A breadcrumb that is written reads back as it was written, and the others read as before.
pub proof fn write_reads_back(files: DirView, bc: BreadcrumbView)
    ensures
        reading(written(files, bc), bc.id) == Ok::<BreadcrumbView, ErrorView>(bc),
        forall|id: Seq<char>|
            id != bc.id ==> #[trigger] reading(written(files, bc), id) == reading(files, id),
{
    assert forall|id: Seq<char>| id != bc.id implies #[trigger] reading(written(files, bc), id)
        == reading(files, id) by {
        if json_name(id) == json_name(bc.id) {
            json_name_injective(id, bc.id);
        }
    }
}

/// A breadcrumb that is removed is not found any more, and the others read as before.
pub proof fn removed_is_not_found(files: DirView, id: Seq<char>)
    ensures
        reading(files.remove(json_name(id)), id) == Err::<BreadcrumbView, ErrorView>(
            ErrorView::NotFound { id },
        ),
        forall|x: Seq<char>|
            x != id ==> #[trigger] reading(files.remove(json_name(id)), x) == reading(files, x),
{
    assert forall|x: Seq<char>| x != id implies #[trigger] reading(files.remove(json_name(id)), x)
        == reading(files, x) by {
        if json_name(x) == json_name(id) {
            json_name_injective(x, id);
        }
    }
}

/// A breadcrumb that is written is the one that its identifier resolves to; where no other has a
/// file, a request that names none resolves to it too.
pub proof fn written_is_resolved(files: DirView, bc: BreadcrumbView)
    ensures
        resolution(written(files, bc), Some(bc.id)) == Ok::<Seq<char>, ErrorView>(bc.id),
        bc.id.len() > 0 && json_names(files).is_empty() ==> resolution(written(files, bc), None)
            == Ok::<Seq<char>, ErrorView>(bc.id),
{
    if bc.id.len() > 0 && json_names(files).is_empty() {
        let name = json_name(bc.id);
        json_name_has_extension(bc.id);
        json_name_stem(bc.id);
        let names = json_names(written(files, bc));
        assert forall|x: Seq<char>| names.contains(x) implies x == name by {
            if x != name {
                assert(json_names(files).contains(x));
            }
        }
        assert(names =~= Set::<Seq<char>>::empty().insert(name));
        assert(names.len() == 1);
        assert(names.contains(names.choose()));
    }
}

// ---- Migration ----------------------------------------------------------------------------

/// The breadcrumbs among records, in order.
pub open spec fn breadcrumbs_among(records: Seq<Option<BreadcrumbView>>) -> Seq<BreadcrumbView>
    decreases records.len(),
{
    if records.len() == 0 {
        Seq::empty()
    } else {
        match records.last() {
            Some(bc) => breadcrumbs_among(records.drop_last()).push(bc),
            None => breadcrumbs_among(records.drop_last()),
        }
    }
}

/// All the breadcrumbs in the files with the extension `jsonl`, in order.
pub open spec fn legacy_breadcrumbs(files: Seq<LegacyFileView>) -> Seq<BreadcrumbView>
    decreases files.len(),
{
    if files.len() == 0 {
        Seq::empty()
    } else if has_extension(files.last().name, "jsonl"@) {
        legacy_breadcrumbs(files.drop_last()) + breadcrumbs_among(files.last().records)
    } else {
        legacy_breadcrumbs(files.drop_last())
    }
}

/// Whether the last of `bcs` with the identifier `id` stands at place `i`.
pub open spec fn last_at(bcs: Seq<BreadcrumbView>, id: Seq<char>, i: int) -> bool {
    &&& 0 <= i < bcs.len()
    &&& bcs[i].id == id
    &&& forall|j: int| i < j < bcs.len() ==> (#[trigger] bcs[j]).id != id
}

/// Whether `all` holds, under each identifier in `bcs` and no other, the last breadcrumb with it.
pub open spec fn holds_last(
    all: Map<Seq<char>, BreadcrumbView>,
    bcs: Seq<BreadcrumbView>,
) -> bool {
    &&& forall|id: Seq<char>| #[trigger]
        all.contains_key(id) ==> exists|i: int| #[trigger] last_at(bcs, id, i)
    &&& forall|i: int| 0 <= i < bcs.len() ==> all.contains_key((#[trigger] bcs[i]).id)
    &&& forall|id: Seq<char>, i: int| #[trigger]
        last_at(bcs, id, i) ==> all.contains_key(id) && all[id] == bcs[i]
}

proof fn holds_last_after_push(
    all: Map<Seq<char>, BreadcrumbView>,
    bcs: Seq<BreadcrumbView>,
    bc: BreadcrumbView,
)
    requires
        holds_last(all, bcs),
    ensures
        holds_last(all.insert(bc.id, bc), bcs.push(bc)),
{
    let all2 = all.insert(bc.id, bc);
    let bcs2 = bcs.push(bc);
    assert forall|id: Seq<char>| #[trigger] all2.contains_key(id) implies exists|i: int| #[trigger]
        last_at(bcs2, id, i) by {
        if id == bc.id {
            assert(last_at(bcs2, id, bcs.len() as int));
        } else {
            assert(all.contains_key(id));
            let i = choose|i: int| #[trigger] last_at(bcs, id, i);
            assert(bcs2[i] == bcs[i]);
            assert(last_at(bcs2, id, i));
        }
    }
    assert forall|i: int| 0 <= i < bcs2.len() implies all2.contains_key((#[trigger] bcs2[i]).id) by {
        if i < bcs.len() {
            assert(bcs2[i] == bcs[i]);
        }
    }
    assert forall|id: Seq<char>, i: int| #[trigger]
        last_at(bcs2, id, i) implies all2.contains_key(id) && all2[id] == bcs2[i] by {
        if i < bcs.len() {
            assert(bcs2[bcs.len() as int].id != id);
            assert forall|j: int| i < j < bcs.len() implies (#[trigger] bcs[j]).id != id by {
                assert(bcs2[j] == bcs[j]);
            }
            assert(last_at(bcs, id, i));
        }
    }
}

proof fn records_hold_last(
    all: Map<Seq<char>, BreadcrumbView>,
    bcs: Seq<BreadcrumbView>,
    records: Seq<Option<BreadcrumbView>>,
)
    requires
        holds_last(all, bcs),
    ensures
        holds_last(with_records(all, records), bcs + breadcrumbs_among(records)),
    decreases records.len(),
{
    if records.len() == 0 {
        assert(bcs + breadcrumbs_among(records) =~= bcs);
    } else {
        let rest = records.drop_last();
        records_hold_last(all, bcs, rest);
        if let Some(bc) = records.last() {
            holds_last_after_push(
                with_records(all, rest),
                bcs + breadcrumbs_among(rest),
                bc,
            );
            assert((bcs + breadcrumbs_among(rest)).push(bc) =~= bcs + breadcrumbs_among(records));
        }
    }
}

/// The breadcrumbs that the records hold are all those in the project files, each in its last
/// version.
pub proof fn every_record_is_collected(files: Seq<LegacyFileView>)
    ensures
        holds_last(collected(files), legacy_breadcrumbs(files)),
    decreases files.len(),
{
    if files.len() > 0 {
        let rest = files.drop_last();
        every_record_is_collected(rest);
        if has_extension(files.last().name, "jsonl"@) {
            records_hold_last(collected(rest), legacy_breadcrumbs(rest), files.last().records);
        }
    }
}

/// After a migration every breadcrumb in the records reads back, orphans as well as those that the
/// index knew; so does the breadcrumb made of an entry that only the index knew and that had no active
/// file. All that was left behind has an active file, and the other active breadcrumbs read as before.
pub proof fn migration_recovers_all(before: DirView, legacy: LegacyView, after: DirView)
    requires
        overlaid(before, to_migrate(legacy, before), after),
    ensures
        forall|id: Seq<char>| #[trigger]
            recorded(legacy).contains_key(id) ==> reading(after, id) == Ok::<
                BreadcrumbView,
                ErrorView,
            >(recorded(legacy)[id]),
        forall|id: Seq<char>| #[trigger]
            to_migrate(legacy, before).contains_key(id) ==> reading(after, id) == Ok::<
                BreadcrumbView,
                ErrorView,
            >(left_behind(legacy)[id]),
        forall|id: Seq<char>| #[trigger] orphans(legacy).contains(id) ==> reading(after, id) is Ok,
        forall|id: Seq<char>| #[trigger]
            left_behind(legacy).contains_key(id) ==> after.contains_key(json_name(id)),
        forall|id: Seq<char>|
            !to_migrate(legacy, before).contains_key(id) ==> #[trigger] reading(after, id)
                == reading(before, id),
{
    let all = to_migrate(legacy, before);
    assert forall|id: Seq<char>| !all.contains_key(id) implies #[trigger] reading(after, id)
        == reading(before, id) && (after.contains_key(json_name(id)) <==> before.contains_key(
        json_name(id),
    )) by {
        let name = json_name(id);
        assert forall|x: Seq<char>| #[trigger] all.contains_key(x) implies json_name(x) != name by {
            if json_name(x) == name {
                json_name_injective(x, id);
            }
        }
        assert(after.contains_key(name) <==> before.contains_key(name));
    }
    assert forall|id: Seq<char>| #[trigger] recorded(legacy).contains_key(id) implies reading(
        after,
        id,
    ) == Ok::<BreadcrumbView, ErrorView>(recorded(legacy)[id]) by {
        assert(all.contains_key(id));
    }
    assert forall|id: Seq<char>| #[trigger] orphans(legacy).contains(id) implies reading(
        after,
        id,
    ) is Ok by {
        assert(left_behind(legacy).contains_key(id));
        assert(recorded(legacy).contains_key(id));
    }
    assert forall|id: Seq<char>| #[trigger] left_behind(legacy).contains_key(
        id,
    ) implies after.contains_key(json_name(id)) by {
        if !all.contains_key(id) {
            assert(reading(after, id) == reading(before, id));
        }
    }
}

/// A migration leaves an active breadcrumb as it is where no record of the earlier version holds its
/// identifier, whatever the index of the earlier version knew of it.
pub proof fn migration_keeps_active_records(
    active: DirView,
    dirs: LegacyDirsView,
    moment: Seq<char>,
    active2: DirView,
    dirs2: LegacyDirsView,
    id: Seq<char>,
)
    requires
        migrates(active, dirs, moment, active2, dirs2),
        dirs.current matches Some(legacy) ==> !recorded(legacy).contains_key(id),
        active.contains_key(json_name(id)),
    ensures
        reading(active2, id) == reading(active, id),
        active2.contains_key(json_name(id)),
        active2[json_name(id)] == active[json_name(id)],
{
    if let Some(legacy) = dirs.current {
        if !left_behind(legacy).is_empty() {
            let all = to_migrate(legacy, active);
            assert forall|x: Seq<char>| #[trigger] all.contains_key(x) implies json_name(x)
                != json_name(id) by {
                if json_name(x) == json_name(id) {
                    json_name_injective(x, id);
                }
            }
            assert(active2.contains_key(json_name(id)) <==> active.contains_key(json_name(id)));
        }
    }
}

/// A migration that is run again changes nothing.
pub proof fn migration_is_idempotent(
    before: DirView,
    legacy: LegacyView,
    once: DirView,
    twice: DirView,
)
    requires
        overlaid(before, to_migrate(legacy, before), once),
        overlaid(once, to_migrate(legacy, once), twice),
    ensures
        twice == once,
{
    let all = to_migrate(legacy, once);
    migration_recovers_all(before, legacy, once);
    assert forall|id: Seq<char>| #[trigger] all.contains_key(id) implies once.contains_key(
        json_name(id),
    ) && once[json_name(id)] == twice[json_name(id)] by {
        assert(left_behind(legacy).contains_key(id));
        assert(recorded(legacy).contains_key(id));
        assert(to_migrate(legacy, before).contains_key(id));
    }
    assert forall|name: Seq<char>| #[trigger]
        twice.contains_key(name) <==> once.contains_key(name) by {
        if exists|id: Seq<char>| #[trigger] all.contains_key(id) && json_name(id) == name {
            let id = choose|id: Seq<char>| #[trigger] all.contains_key(id) && json_name(id) == name;
            assert(once.contains_key(json_name(id)) && twice.contains_key(json_name(id)));
        }
    }
    assert forall|name: Seq<char>| once.contains_key(name) implies #[trigger] twice[name]
        == once[name] by {
        if exists|id: Seq<char>| #[trigger] all.contains_key(id) && json_name(id) == name {
            let id = choose|id: Seq<char>| #[trigger] all.contains_key(id) && json_name(id) == name;
            assert(once[json_name(id)] == twice[json_name(id)]);
        } else {
            assert(twice.contains_key(name));
        }
    }
    assert(twice =~= once);
}

/// What is migrated is what the records hold, and, for identifiers that only the index knew and that
/// have no active file, the breadcrumb that is made of the entry.
pub proof fn records_and_entries_are_migrated(legacy: LegacyView, active: DirView, id: Seq<char>)
    ensures
        to_migrate(legacy, active).contains_key(id) <==> recorded(legacy).contains_key(id) || (
        was_indexed(legacy, id) && !active.contains_key(json_name(id))),
        recorded(legacy).contains_key(id) ==> to_migrate(legacy, active)[id]
            == recorded(legacy)[id],
        was_indexed(legacy, id) && !recorded(legacy).contains_key(id) && !active.contains_key(
            json_name(id),
        ) ==> to_migrate(legacy, active)[id] == breadcrumb_of_entry(id, legacy.index->0[id]),
{
}

/// Once something was migrated, the directory that held it is gone and a renamed one holds the same;
/// a second migration, whenever it runs, changes nothing.
pub proof fn migration_happens_once(
    active: DirView,
    dirs: LegacyDirsView,
    moment: Seq<char>,
    active1: DirView,
    dirs1: LegacyDirsView,
    later: Seq<char>,
    active2: DirView,
    dirs2: LegacyDirsView,
)
    requires
        dirs.current matches Some(legacy) && !left_behind(legacy).is_empty(),
        migrates(active, dirs, moment, active1, dirs1),
        migrates(active1, dirs1, later, active2, dirs2),
    ensures
        dirs1.current is None,
        dirs1.renamed.contains_key(migrated_in(moment)),
        dirs1.renamed[migrated_in(moment)] == dirs.current->0,
        active2 == active1,
        dirs2 == dirs1,
{
}

/// Where some breadcrumbs could not be written, the others are written all the same: those that could
/// be read back, and the other active files read as before.
pub proof fn failed_writes_stop_no_others(
    files: DirView,
    all: Map<Seq<char>, BreadcrumbView>,
    bcs: Seq<BreadcrumbView>,
    done: Seq<bool>,
)
    requires
        lists_all(bcs, all),
    ensures
        ({
            let after = all_written(files, copied(bcs, done));
            &&& forall|i: int|
                0 <= i < bcs.len() && i < done.len() && done[i] ==> reading(
                    after,
                    (#[trigger] bcs[i]).id,
                ) == Ok::<BreadcrumbView, ErrorView>(bcs[i])
            &&& forall|i: int|
                0 <= i < bcs.len() && !(i < done.len() && done[i]) ==> reading(
                    after,
                    (#[trigger] bcs[i]).id,
                ) == reading(files, bcs[i].id)
            &&& forall|id: Seq<char>|
                !all.contains_key(id) ==> #[trigger] reading(after, id) == reading(files, id)
        }),
{
    let taken = copied(bcs, done);
    let after = all_written(files, taken);
    copied_are_done(bcs, done);
    writing_all_effect(files, taken);
    assert forall|i: int| 0 <= i < bcs.len() && i < done.len() && done[i] implies reading(
        after,
        (#[trigger] bcs[i]).id,
    ) == Ok::<BreadcrumbView, ErrorView>(bcs[i]) by {
        let k = taken.index_of(bcs[i]);
        assert(taken[k] == bcs[i]);
    }
    assert forall|id: Seq<char>|
        (forall|k: int| 0 <= k < taken.len() ==> (#[trigger] taken[k]).id != id) implies #[trigger] reading(
    after, id) == reading(files, id) by {
        let name = json_name(id);
        assert forall|k: int| 0 <= k < taken.len() implies json_name((#[trigger] taken[k]).id)
            != name by {
            if json_name(taken[k].id) == name {
                json_name_injective(taken[k].id, id);
            }
        }
        assert(after.contains_key(name) <==> files.contains_key(name));
    }
    assert forall|i: int| 0 <= i < bcs.len() && !(i < done.len() && done[i]) implies reading(
        after,
        (#[trigger] bcs[i]).id,
    ) == reading(files, bcs[i].id) by {
        assert forall|k: int| 0 <= k < taken.len() implies (#[trigger] taken[k]).id != bcs[i].id by {
            let m = choose|m: int|
                0 <= m < bcs.len() && m < done.len() && done[m] && #[trigger] bcs[m] == taken[k];
            assert(m != i);
            if m < i {
                assert(bcs[m].id != bcs[i].id);
            } else {
                assert(bcs[i].id != bcs[m].id);
            }
        }
    }
    assert forall|id: Seq<char>| !all.contains_key(id) implies #[trigger] reading(after, id)
        == reading(files, id) by {
        assert forall|k: int| 0 <= k < taken.len() implies (#[trigger] taken[k]).id != id by {
            let m = choose|m: int|
                0 <= m < bcs.len() && m < done.len() && done[m] && #[trigger] bcs[m] == taken[k];
            assert(all.contains_key(bcs[m].id));
        }
    }
}

/// A migration has no errors, and so ends, exactly when every breadcrumb was written.
pub proof fn migration_ends_with_the_last_write(bcs: Seq<BreadcrumbView>, done: Seq<bool>)
    ensures
        copied(bcs, done).len() <= bcs.len(),
        bcs.len() - copied(bcs, done).len() == 0 <==> {
            &&& bcs.len() <= done.len()
            &&& forall|i: int| 0 <= i < bcs.len() ==> #[trigger] done[i]
        },
    decreases bcs.len(),
{
    if bcs.len() > 0 {
        migration_ends_with_the_last_write(bcs.drop_last(), done);
        let last = done[bcs.len() - 1];
    }
}

}
