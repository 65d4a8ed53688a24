//! Where things are kept, and what is found there.

use vstd::prelude::*;

use crate::error::ErrorView;
use crate::layout::{
    active_in, archive_file, base_of, completed_in, handoff_path, handoffs_in, migrated_in, path_in,
    state_in, LayoutView,
};
use crate::schema::BreadcrumbView;
use crate::settings::state_apart;
use crate::storage::{
    all_written, archived_all, breadcrumbs_met, copied, day_files, is_json, json_names, reading,
    resolution, written, DirView, FileView, StorageView,
};
use crate::text::{json_name, json_name_has_extension, json_name_stem, last_dot_at};

verus! {

// ---- Paths --------------------------------------------------------------------------------

/// Whether a character parts paths beside the separator itself: the slash does beside the backslash.
pub open spec fn parting(c: char, separator: char) -> bool {
    c == separator || (c == '/' && separator == '\\')
}

/// Whether a path starts with a letter and a colon, and so names a drive beside the backslash.
pub open spec fn on_drive(path: Seq<char>, separator: char) -> bool {
    separator == '\\' && path.len() > 1 && path[1] == ':' && ('a' <= path[0] <= 'z' || 'A' <= path[0]
        <= 'Z')
}

/// Whether a part of a path leads on from where it stands: it starts neither from the root nor from
/// a drive.
pub open spec fn relative(part: Seq<char>, separator: char) -> bool {
    !on_drive(part, separator) && (part.len() == 0 || !parting(part[0], separator))
}

/// Whether a directory is written without a separator at its end.
pub open spec fn plain_dir(dir: Seq<char>, separator: char) -> bool {
    dir.len() > 0 && !parting(dir.last(), separator)
}

/// A relative part follows its directory after one separator, which is not written twice. A part that
/// starts from the root or from a drive leads there; from the root it stays on the drive of the
/// directory.
pub proof fn parts_follow_their_directory(dir: Seq<char>, part: Seq<char>, separator: char)
    ensures
        relative(part, separator) && plain_dir(dir, separator) ==> path_in(dir, part, separator)
            == dir + seq![separator] + part,
        relative(part, separator) && !plain_dir(dir, separator) ==> path_in(dir, part, separator)
            == dir + part,
        on_drive(part, separator) ==> path_in(dir, part, separator) == part,
        !relative(part, separator) && !on_drive(part, separator) && !on_drive(dir, separator)
            ==> path_in(dir, part, separator) == part,
        !relative(part, separator) && !on_drive(part, separator) && on_drive(dir, separator)
            ==> path_in(dir, part, separator) == seq![dir[0], ':'] + part,
{
    assert(dir.push(separator) + part =~= dir + seq![separator] + part);
    if on_drive(dir, separator) {
        assert(dir.take(2) =~= seq![dir[0], ':']);
    }
}

/// On a shared volume, the active breadcrumbs, the completed ones and the handoffs have their own
/// directories; a directory that is given instead counts before those.
pub proof fn places_on_a_volume(l: LayoutView, volume: Seq<char>, dir: Seq<char>)
    requires
        l.volumes == Some(volume),
        plain_dir(volume, l.separator),
        l.separator == '/' || l.separator == '\\',
    ensures
        ({
            let sep = seq![l.separator];
            let base = volume + sep + "breadcrumbs"@;
            &&& base_of(l) == base
            &&& active_in(l) == base + sep + "active"@
            &&& l.archive_dir is None ==> completed_in(l) == base + sep + "completed"@
            &&& l.handoff_dir is None ==> handoffs_in(l) == volume + sep + "handoffs"@
        }),
        l.archive_dir == Some(dir) ==> completed_in(l) == dir,
        l.handoff_dir == Some(dir) ==> handoffs_in(l) == dir,
{
    reveal_strlit("breadcrumbs");
    reveal_strlit("active");
    reveal_strlit("completed");
    reveal_strlit("handoffs");
    let sep = seq![l.separator];
    parts_follow_their_directory(volume, "breadcrumbs"@, l.separator);
    parts_follow_their_directory(volume, "handoffs"@, l.separator);
    let base = volume + sep + "breadcrumbs"@;
    assert(base.last() == 's');
    parts_follow_their_directory(base, "active"@, l.separator);
    parts_follow_their_directory(base, "completed"@, l.separator);
}

/// Without a shared volume, the places are those of the machine, unless others are given.
pub proof fn places_without_a_volume(l: LayoutView, dir: Seq<char>)
    requires
        l.volumes is None,
    ensures
        base_of(l) == "C:\\My Drive\\Volumes\\breadcrumbs"@,
        l.handoff_dir is None ==> handoffs_in(l) == "C:\\My Drive\\Volumes\\handoffs"@,
        l.archive_dir == Some(dir) ==> completed_in(l) == dir,
        l.handoff_dir == Some(dir) ==> handoffs_in(l) == dir,
        l.separator == '\\' ==> active_in(l) == "C:\\My Drive\\Volumes\\breadcrumbs\\active"@,
        l.separator == '\\' && l.archive_dir is None ==> completed_in(l)
            == "C:\\My Drive\\Volumes\\breadcrumbs\\completed"@,
{
    reveal_strlit("C:\\My Drive\\Volumes\\breadcrumbs");
    reveal_strlit("C:\\My Drive\\Volumes\\breadcrumbs\\active");
    reveal_strlit("C:\\My Drive\\Volumes\\breadcrumbs\\completed");
    reveal_strlit("active");
    reveal_strlit("completed");
    assert(l.separator == '\\' ==> active_in(l)
        =~= "C:\\My Drive\\Volumes\\breadcrumbs\\active"@);
    assert(l.separator == '\\' && l.archive_dir is None ==> completed_in(l)
        =~= "C:\\My Drive\\Volumes\\breadcrumbs\\completed"@);
}

/// The state is kept in the directory that is given for it, or else in the one that earlier versions
/// used; it is apart from theirs exactly where it is another one.
pub proof fn state_has_its_place(l: LayoutView, dir: Seq<char>)
    ensures
        l.state_dir == Some(dir) ==> state_in(l) == dir,
        l.state_dir is None ==> state_in(l) == "C:\\CPC\\state\\breadcrumbs"@,
        l.state_dir is None ==> !state_apart(l),
        l.state_dir == Some(dir) ==> (state_apart(l) <==> dir != "C:\\CPC\\state\\breadcrumbs"@),
{
}

/// A breadcrumb is archived in the directory of its day, in a file named after it; the stale ones of
/// a day are handed over in one file. What was migrated is renamed after the moment.
pub proof fn files_are_named_after_their_matter(
    l: LayoutView,
    date: Seq<char>,
    id: Seq<char>,
    moment: Seq<char>,
)
    requires
        relative(date, l.separator),
        plain_dir(date, l.separator),
        relative(id + ".json"@, l.separator),
        plain_dir(completed_in(l), l.separator),
        plain_dir(handoffs_in(l), l.separator),
        l.separator == '/' || l.separator == '\\',
    ensures
        archive_file(l, date, id) == completed_in(l) + seq![l.separator] + date + seq![l.separator] + id
            + ".json"@,
        handoff_path(l, date) == handoffs_in(l) + seq![l.separator] + "pending_breadcrumbs_"@ + date
            + ".md"@,
        migrated_in(moment) == "breadcrumbs.migrated_"@ + moment,
{
    reveal_strlit("pending_breadcrumbs_");
    let sep = seq![l.separator];
    let day = completed_in(l) + sep + date;
    parts_follow_their_directory(completed_in(l), date, l.separator);
    assert(day.last() == date.last());
    parts_follow_their_directory(day, id + ".json"@, l.separator);
    assert(archive_file(l, date, id) =~= completed_in(l) + sep + date + sep + id + ".json"@);
    let name = "pending_breadcrumbs_"@ + date + ".md"@;
    assert(name[0] == 'p' && name[1] == 'e');
    parts_follow_their_directory(handoffs_in(l), name, l.separator);
    assert(handoff_path(l, date) =~= handoffs_in(l) + sep + "pending_breadcrumbs_"@ + date
        + ".md"@);
}

/// Whatever the directories are like, the active and the completed breadcrumbs lie below the base,
/// an archived one below the day it was archived on, and the handoffs in their directory.
pub proof fn places_lie_below_each_other(
    l: LayoutView,
    date: Seq<char>,
    id: Seq<char>,
    volume: Seq<char>,
)
    ensures
        l.volumes == Some(volume) ==> base_of(l) == path_in(volume, "breadcrumbs"@, l.separator),
        l.volumes == Some(volume) && l.handoff_dir is None ==> handoffs_in(l) == path_in(
            volume,
            "handoffs"@,
            l.separator,
        ),
        active_in(l) == path_in(base_of(l), "active"@, l.separator),
        l.archive_dir is None ==> completed_in(l) == path_in(
            base_of(l),
            "completed"@,
            l.separator,
        ),
        archive_file(l, date, id) == path_in(
            path_in(completed_in(l), date, l.separator),
            id + ".json"@,
            l.separator,
        ),
        handoff_path(l, date) == path_in(
            handoffs_in(l),
            "pending_breadcrumbs_"@ + date + ".md"@,
            l.separator,
        ),
{
}

// ---- Files --------------------------------------------------------------------------------

/// Reading a breadcrumb gives what the file named after it holds: the breadcrumb, the reason why it
/// could not be read or holds none, or that there is no such file.
pub proof fn files_are_read_by_name(files: DirView, id: Seq<char>, bc: BreadcrumbView, m: Seq<char>)
    ensures
        ({
            let name = id + ".json"@;
            let r = reading(files, id);
            &&& !files.contains_key(name) ==> (r matches Err(e) && e == (ErrorView::NotFound { id }))
            &&& files.contains_key(name) && files[name] == FileView::Parsed(bc) ==> (r matches Ok(x)
                && x == bc)
            &&& files.contains_key(name) && files[name] == FileView::Unreadable(m) ==> (r matches Err(
                e,
            ) && e == ErrorView::Io(m))
            &&& files.contains_key(name) && files[name] == FileView::Malformed(m) ==> (r matches Err(
                e,
            ) && e == ErrorView::Serde(m))
        }),
        written(files, bc) == files.insert(bc.id + ".json"@, FileView::Parsed(bc)),
{
}

/// The files of a date in the archive are those that were put there, and none where nothing was.
pub proof fn days_hold_their_files(completed: Map<Seq<char>, DirView>, date: Seq<char>)
    ensures
        completed.contains_key(date) ==> day_files(completed, date) == completed[date],
        !completed.contains_key(date) ==> day_files(completed, date) == Map::<
            Seq<char>,
            FileView,
        >::empty(),
{
}

/// Whether a file name ends in `.json`, after something else.
pub open spec fn ends_in_json(name: Seq<char>) -> bool {
    name.len() > 5 && name.skip(name.len() - 5) == ".json"@
}

/// Files count as those of breadcrumbs exactly where their names end in `.json`.
pub proof fn breadcrumb_files_end_in_json(name: Seq<char>)
    ensures
        is_json(name) <==> ends_in_json(name),
{
    reveal_strlit(".json");
    reveal_strlit("json");
    let n = name.len() - 5;
    if ends_in_json(name) {
        let tail = name.skip(n);
        assert(tail[0] == '.');
        assert(name[n] == '.');
        assert forall|j: int| n < j < name.len() implies name[j] != '.' by {
            assert(name[j] == tail[j - n]);
        }
        assert(last_dot_at(name, n));
        assert(name.skip(n + 1) =~= "json"@) by {
            assert forall|j: int| 0 <= j < 4 implies name.skip(n + 1)[j] == "json"@[j] by {
                assert(name.skip(n + 1)[j] == tail[j + 1]);
            }
        }
    }
    if is_json(name) {
        let i = choose|i: int|
            i > 0 && #[trigger] last_dot_at(name, i) && name.skip(i + 1) == "json"@;
        assert(name.skip(i + 1).len() == 4);
        assert(i == n);
        assert(name.skip(n) =~= ".json"@) by {
            assert forall|j: int| 1 <= j < 5 implies name.skip(n)[j] == ".json"@[j] by {
                assert(name.skip(n)[j] == name.skip(n + 1)[j - 1]);
            }
        }
    }
}

/// Whether the file under `name` is one of a breadcrumb, and holds it.
pub open spec fn holds_breadcrumb(files: DirView, name: Seq<char>) -> bool {
    ends_in_json(name) && files[name] is Parsed
}

/// A walk over files meets the breadcrumbs that they hold, in its order, and nothing else.
pub proof fn walks_meet_what_files_hold(keys: Seq<Seq<char>>, files: DirView)
    ensures
        breadcrumbs_met(keys, files) == keys.filter(
            |k: Seq<char>| holds_breadcrumb(files, k),
        ).map_values(|k: Seq<char>| files[k]->Parsed_0),
    decreases keys.len(),
{
    reveal(Seq::filter);
    let f = |k: Seq<char>| holds_breadcrumb(files, k);
    let g = |k: Seq<char>| files[k]->Parsed_0;
    if keys.len() > 0 {
        let rest = keys.drop_last();
        walks_meet_what_files_hold(rest, files);
        breadcrumb_files_end_in_json(keys.last());
        if f(keys.last()) {
            assert(keys.filter(f).map_values(g) =~= rest.filter(f).map_values(g).push(
                g(keys.last()),
            ));
        } else {
            assert(keys.filter(f) =~= rest.filter(f));
        }
    } else {
        assert(keys.filter(f).map_values(g) =~= Seq::<BreadcrumbView>::empty());
    }
}

/// A request that names a breadcrumb is for that one, if it has a file. One that names none is for
/// the only breadcrumb with a file; where there is none, or more than one, it is refused, with their
/// number.
pub proof fn file_requests_are_resolved(files: DirView, id: Seq<char>)
    requires
        files.dom().finite(),
    ensures
        ({
            let names = files.dom().filter(|name: Seq<char>| ends_in_json(name));
            &&& files.contains_key(id + ".json"@) ==> (resolution(files, Some(id)) matches Ok(x) && x
                == id)
            &&& !files.contains_key(id + ".json"@) ==> (resolution(files, Some(id)) matches Err(e)
                && e == (ErrorView::NotFound { id }))
            &&& names.len() == 0 ==> (resolution(files, None) matches Err(e) && e
                == ErrorView::NoActive)
            &&& names.len() > 1 ==> (resolution(files, None) matches Err(e) && e
                == (ErrorView::Ambiguous { count: names.len() }))
            &&& names.len() == 1 && id.len() > 0 && files.contains_key(id + ".json"@) ==> (
            resolution(files, None) matches Ok(x) && x == id)
        }),
{
    let names = files.dom().filter(|name: Seq<char>| ends_in_json(name));
    assert forall|name: Seq<char>| names.contains(name) <==> json_names(files).contains(name) by {
        breadcrumb_files_end_in_json(name);
    }
    assert(names =~= json_names(files));
    if names.len() == 1 && id.len() > 0 && files.contains_key(id + ".json"@) {
        let name = json_name(id);
        json_name_has_extension(id);
        json_name_stem(id);
        assert(names.contains(name));
        assert(names.finite());
        let x = names.choose();
        if x != name {
            assert(names.contains(x));
            assert(names.remove(name).len() == 0);
            assert(names.remove(name).contains(x));
        }
    }
}

/// Copies are those whose writing succeeded, in order: of two rows the copies of the first, then
/// those of the second; of one breadcrumb itself, or nothing.
pub proof fn copies_follow_their_writing(
    a: Seq<BreadcrumbView>,
    b: Seq<BreadcrumbView>,
    of_a: Seq<bool>,
    of_b: Seq<bool>,
    bc: BreadcrumbView,
)
    requires
        a.len() == of_a.len(),
        b.len() == of_b.len(),
    ensures
        copied(a + b, of_a + of_b) == copied(a, of_a) + copied(b, of_b),
        copied(seq![bc], seq![true]) == seq![bc],
        copied(seq![bc], seq![false]) == Seq::<BreadcrumbView>::empty(),
        copied(seq![bc], Seq::empty()) == Seq::<BreadcrumbView>::empty(),
    decreases b.len(),
{
    reveal_with_fuel(copied, 2);
    assert(seq![bc].drop_last() =~= Seq::<BreadcrumbView>::empty());
    assert(Seq::<BreadcrumbView>::empty().push(bc) =~= seq![bc]);
    if b.len() == 0 {
        assert(a + b =~= a && of_a + of_b =~= of_a);
        assert(copied(a, of_a) + copied(b, of_b) =~= copied(a, of_a));
    } else {
        let r = b.drop_last();
        let of_r = of_b.drop_last();
        copies_follow_their_writing(a, r, of_a, of_r, bc);
        assert((a + b).drop_last() =~= a + r);
        copies_ignore_more(a + r, of_a + of_r, of_a + of_b);
        copies_ignore_more(r, of_r, of_b);
        assert(copied(a + b, of_a + of_b) =~= copied(a, of_a) + copied(b, of_b));
    }
}

proof fn copies_ignore_more(a: Seq<BreadcrumbView>, of_a: Seq<bool>, more: Seq<bool>)
    requires
        a.len() <= of_a.len() <= more.len(),
        forall|i: int| 0 <= i < a.len() ==> of_a[i] == #[trigger] more[i],
    ensures
        copied(a, of_a) == copied(a, more),
    decreases a.len(),
{
    if a.len() > 0 {
        copies_ignore_more(a.drop_last(), of_a, more);
        assert(of_a[a.len() - 1] == more[a.len() - 1]);
    }
}

/// Writing rows of breadcrumbs one after the other is writing them all; writing one puts it into the
/// file named after it.
pub proof fn writes_add_up(
    files: DirView,
    a: Seq<BreadcrumbView>,
    b: Seq<BreadcrumbView>,
    bc: BreadcrumbView,
)
    ensures
        all_written(files, a + b) == all_written(all_written(files, a), b),
        all_written(files, seq![bc]) == files.insert(bc.id + ".json"@, FileView::Parsed(bc)),
        all_written(files, Seq::empty()) == files,
    decreases b.len(),
{
    reveal_with_fuel(all_written, 2);
    assert(seq![bc].drop_last() =~= Seq::<BreadcrumbView>::empty());
    if b.len() == 0 {
        assert(a + b =~= a);
    } else {
        writes_add_up(files, a, b.drop_last(), bc);
        assert((a + b).drop_last() =~= a + b.drop_last());
    }
}

/// Archiving rows of breadcrumbs one after the other is archiving them all; archiving one takes its
/// active file and puts it among the files of the date.
pub proof fn archivings_add_up(
    s: StorageView,
    a: Seq<BreadcrumbView>,
    b: Seq<BreadcrumbView>,
    bc: BreadcrumbView,
    date: Seq<char>,
)
    ensures
        archived_all(s, a + b, date) == archived_all(archived_all(s, a, date), b, date),
        archived_all(s, Seq::empty(), date) == s,
        ({
            let s2 = archived_all(s, seq![bc], date);
            let name = bc.id + ".json"@;
            &&& s2.active == s.active.remove(name)
            &&& s2.completed.remove(date) == s.completed.remove(date)
            &&& s2.completed.contains_key(date)
            &&& s.completed.contains_key(date) ==> s2.completed[date] == s.completed[date].insert(
                name,
                FileView::Parsed(bc),
            )
            &&& !s.completed.contains_key(date) ==> s2.completed[date] == map![
                name => FileView::Parsed(bc),
            ]
        }),
    decreases b.len(),
{
    reveal_with_fuel(archived_all, 2);
    assert(seq![bc].drop_last() =~= Seq::<BreadcrumbView>::empty());
    let s2 = archived_all(s, seq![bc], date);
    assert(s2.completed.remove(date) =~= s.completed.remove(date));
    if !s.completed.contains_key(date) {
        assert(s2.completed[date] =~= map![bc.id + ".json"@ => FileView::Parsed(bc)]);
    }
    if b.len() == 0 {
        assert(a + b =~= a);
    } else {
        archivings_add_up(s, a, b.drop_last(), bc, date);
        assert((a + b).drop_last() =~= a + b.drop_last());
    }
}

}
