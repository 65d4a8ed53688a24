//! One file per breadcrumb: the directory of the active breadcrumbs and the dated directories of
//! the completed ones.

use vstd::prelude::*;

use crate::clock::{
    age, date_writing, day_name, is_older_than, older_than, today, valid_day, clock_instant,
    Instant, Timestamp,
};
use crate::error::{BreadcrumbError, ErrorView};
use crate::layout::{archive_file, archived_file, completed_dir, completed_in, Layout};
use crate::schema::{Breadcrumb, BreadcrumbView};
use crate::table::{walks, Table};
use crate::text::{
    concat, decimal, file_stem, has_extension, is_extension_of, json_name, to_decimal,
    to_file_stem, to_json_name,
};

verus! {

/// What a file turned out to hold.
#[derive(Debug)]
pub enum FileContent {
    /// A breadcrumb.
    Parsed(Breadcrumb),
    /// The file could not be read, for the reason given.
    Unreadable(String),
    /// The file does not hold a breadcrumb, for the reason given.
    Malformed(String),
}

#[verifier::ext_equal]
pub enum FileView {
    Parsed(BreadcrumbView),
    Unreadable(Seq<char>),
    Malformed(Seq<char>),
}

impl View for FileContent {
    type V = FileView;

    open spec fn view(&self) -> FileView {
        match self {
            FileContent::Parsed(bc) => FileView::Parsed(bc@),
            FileContent::Unreadable(m) => FileView::Unreadable(m@),
            FileContent::Malformed(m) => FileView::Malformed(m@),
        }
    }
}

impl DeepView for FileContent {
    type V = FileView;

    open spec fn deep_view(&self) -> FileView {
        self@
    }
}

/// A directory: what its files hold, under their names.
pub type Dir = Table<FileContent>;

pub type DirView = Map<Seq<char>, FileView>;

/// The active breadcrumbs, and the completed ones by date.
pub struct Storage {
    pub active: Table<FileContent>,
    pub completed: Table<Table<FileContent>>,
}

#[verifier::ext_equal]
pub struct StorageView {
    pub active: DirView,
    pub completed: Map<Seq<char>, DirView>,
}

impl View for Storage {
    type V = StorageView;

    open spec fn view(&self) -> StorageView {
        StorageView { active: self.active@, completed: self.completed@ }
    }
}

impl Storage {
    /// The empty storage.
    pub fn new() -> (s: Self)
        ensures
            s@.active == Map::<Seq<char>, FileView>::empty(),
            s@.completed == Map::<Seq<char>, DirView>::empty(),
    {
        Storage { active: Table::new(), completed: Table::new() }
    }
}

// ---- Single files -------------------------------------------------------------------------

/// The directory after `bc` is written to it.
pub open spec fn written(files: DirView, bc: BreadcrumbView) -> DirView {
    files.insert(json_name(bc.id), FileView::Parsed(bc))
}

/// What reading the breadcrumb `id` gives.
pub open spec fn reading(files: DirView, id: Seq<char>) -> Result<BreadcrumbView, ErrorView> {
    if !files.contains_key(json_name(id)) {
        Err(ErrorView::NotFound { id })
    } else {
        match files[json_name(id)] {
            FileView::Parsed(bc) => Ok(bc),
            FileView::Unreadable(m) => Err(ErrorView::Io(m)),
            FileView::Malformed(m) => Err(ErrorView::Serde(m)),
        }
    }
}

/// Write a breadcrumb to its file. Last writer wins.
pub fn write_breadcrumb(files: &mut Dir, bc: &Breadcrumb)
    ensures
        final(files)@ == written(old(files)@, bc@),
{
    files.insert(to_json_name(bc.id.as_str()), FileContent::Parsed(bc.clone()));
}

/// Read a single breadcrumb by ID.
pub fn read_breadcrumb(files: &Dir, id: &str) -> (r: Result<Breadcrumb, BreadcrumbError>)
    ensures
        r matches Ok(bc) ==> reading(files@, id@) == Ok::<BreadcrumbView, ErrorView>(bc@),
        r matches Err(e) ==> reading(files@, id@) == Err::<BreadcrumbView, ErrorView>(e@),
{
    match files.get(to_json_name(id).as_str()) {
        None => Err(BreadcrumbError::NotFound { id: id.to_owned() }),
        Some(content) => match content {
            FileContent::Parsed(bc) => Ok(bc.clone()),
            FileContent::Unreadable(m) => Err(BreadcrumbError::Io(m.clone())),
            FileContent::Malformed(m) => Err(BreadcrumbError::Serde(m.clone())),
        },
    }
}

/// Remove a breadcrumb's file; nothing happens if there is none.
pub fn remove_active(files: &mut Dir, id: &str)
    ensures
        final(files)@ == old(files)@.remove(json_name(id@)),
{
    let _removed = files.remove(to_json_name(id).as_str());
}

/// The directory after all of `bcs` are written to it, in order.
pub open spec fn all_written(files: DirView, bcs: Seq<BreadcrumbView>) -> DirView
    decreases bcs.len(),
{
    if bcs.len() == 0 {
        files
    } else {
        written(all_written(files, bcs.drop_last()), bcs.last())
    }
}

/// The breadcrumbs whose copy could be written: `done` tells it of each, in order.
pub open spec fn copied(bcs: Seq<BreadcrumbView>, done: Seq<bool>) -> Seq<BreadcrumbView>
    decreases bcs.len(),
{
    if bcs.len() == 0 {
        Seq::empty()
    } else {
        let before = copied(bcs.drop_last(), done);
        if bcs.len() <= done.len() && done[bcs.len() - 1] {
            before.push(bcs.last())
        } else {
            before
        }
    }
}

/// Read-modify-write a single breadcrumb. A refusal, of the reading or of `f`, changes nothing.
pub fn mutate_breadcrumb<F: FnOnce(&mut Breadcrumb) -> Result<(), BreadcrumbError>>(
    files: &mut Dir,
    id: &str,
    f: F,
) -> (r: Result<Breadcrumb, BreadcrumbError>)
    requires
        forall|x: &mut Breadcrumb|
            reading(old(files)@, id@) == Ok::<BreadcrumbView, ErrorView>((*x)@) ==> f.requires(
                (x,),
            ),
    ensures
        reading(old(files)@, id@) matches Err(e) ==> r matches Err(e2) && e2@ == e,
        r matches Ok(bc) ==> {
            &&& final(files)@ == written(old(files)@, bc@)
            &&& exists|x: &mut Breadcrumb|
                {
                    &&& reading(old(files)@, id@) == Ok::<BreadcrumbView, ErrorView>((*x)@)
                    &&& *final(x) == bc
                    &&& #[trigger] f.ensures((x,), Ok(()))
                }
        },
        r matches Err(e) ==> {
            &&& final(files)@ == old(files)@
            &&& reading(old(files)@, id@) is Ok ==> exists|x: &mut Breadcrumb|
                {
                    &&& reading(old(files)@, id@) == Ok::<BreadcrumbView, ErrorView>((*x)@)
                    &&& #[trigger] f.ensures((x,), Err(e))
                }
        },
{
    let mut bc = match read_breadcrumb(files, id) {
        Ok(bc) => bc,
        Err(e) => {
            return Err(e);
        },
    };
    let ghost before = bc;
    let r = f(&mut bc);
    assert(exists|x: &mut Breadcrumb|
        *x == before && *final(x) == bc && #[trigger] f.ensures((x,), r));
    match r {
        Ok(u) => {
            assert(r == Ok::<(), BreadcrumbError>(()));
            write_breadcrumb(files, &bc);
            Ok(bc)
        },
        Err(e) => Err(e),
    }
}

// ---- Walks over the active breadcrumbs ----------------------------------------------------

/// Whether a file with this name counts as a breadcrumb's.
pub open spec fn is_json(name: Seq<char>) -> bool {
    has_extension(name, "json"@)
}

/// The breadcrumbs that a walk over the files meets.
pub open spec fn breadcrumbs_met(keys: Seq<Seq<char>>, files: DirView) -> Seq<BreadcrumbView>
    decreases keys.len(),
{
    if keys.len() == 0 {
        Seq::empty()
    } else {
        let before = breadcrumbs_met(keys.drop_last(), files);
        match files[keys.last()] {
            FileView::Parsed(bc) if is_json(keys.last()) => before.push(bc),
            _ => before,
        }
    }
}

/// The names of the breadcrumbs' files.
pub open spec fn json_names(files: DirView) -> Set<Seq<char>> {
    files.dom().filter(|name: Seq<char>| is_json(name))
}

/// Load all active breadcrumbs: what the files with the extension `json` hold, where it is a
/// breadcrumb.
pub fn load_all_active(files: &Dir) -> (r: Vec<Breadcrumb>)
    ensures
        r.deep_view() == breadcrumbs_met(files.keys(), files@),
        walks(files.keys(), files@),
{
    let mut result: Vec<Breadcrumb> = Vec::new();
    let n = files.len();
    let ghost keys = files.keys();
    assert(keys.take(0) =~= Seq::<Seq<char>>::empty());
    assert(result.deep_view() =~= Seq::<BreadcrumbView>::empty());
    for i in 0..n
        invariant
            n == keys.len(),
            keys == files.keys(),
            result.deep_view() == breadcrumbs_met(keys.take(i as int), files@),
    {
        let ghost met = result.deep_view();
        assert(keys.take(i + 1).drop_last() =~= keys.take(i as int));
        assert(keys.take(i + 1).last() == keys[i as int]);
        if is_extension_of(files.key_at(i).as_str(), "json") {
            match files.value_at(i) {
                FileContent::Parsed(bc) => {
                    result.push(bc.clone());
                    assert(result.deep_view() =~= met.push(bc@));
                },
                _ => {},
            }
        }
    }
    assert(keys.take(n as int) =~= keys);
    result
}

/// The files with the extension `json`: how many there are, and the first that a walk meets.
fn find_json(files: &Dir) -> (r: (usize, Option<usize>))
    ensures
        json_names(files@).finite(),
        r.0 == json_names(files@).len(),
        r.1 is Some <==> r.0 > 0,
        r.1 matches Some(i) ==> i < files.keys().len() && json_names(files@).contains(
            files.keys()[i as int],
        ),
{
    let n = files.len();
    let ghost keys = files.keys();
    let mut count: usize = 0;
    let mut first: Option<usize> = None;
    let ghost mut seen: Set<Seq<char>> = Set::empty();
    for i in 0..n
        invariant
            n == keys.len(),
            keys == files.keys(),
            walks(keys, files@),
            count <= i,
            seen.finite(),
            seen.len() == count,
            forall|k: Seq<char>| #[trigger]
                seen.contains(k) <==> is_json(k) && keys.take(i as int).contains(k),
            first is Some <==> count > 0,
            first matches Some(f) ==> f < keys.len() && is_json(keys[f as int]),
    {
        let ghost k = keys[i as int];
        proof {
            assert(keys.take(i + 1) =~= keys.take(i as int).push(k));
            assert forall|x: Seq<char>| keys.take(i + 1).contains(x) <==> keys.take(
                i as int,
            ).contains(x) || x == k by {
                if keys.take(i as int).contains(x) {
                    let j = keys.take(i as int).index_of(x);
                    assert(keys.take(i + 1)[j] == x);
                }
                if x == k {
                    assert(keys.take(i + 1)[i as int] == x);
                }
            }
            assert(!keys.take(i as int).contains(k)) by {
                if keys.take(i as int).contains(k) {
                    let j = keys.take(i as int).index_of(k);
                    assert(keys[j] == k);
                }
            }
        }
        if is_extension_of(files.key_at(i).as_str(), "json") {
            proof {
                seen = seen.insert(k);
            }
            count += 1;
            if first.is_none() {
                first = Some(i);
            }
        }
    }
    proof {
        assert(keys.take(n as int) =~= keys);
        assert(seen =~= json_names(files@));
        if let Some(i) = first {
            assert(keys.contains(keys[i as int]));
        }
    }
    (count, first)
}

/// Count active breadcrumbs: the files with the extension `json`.
pub fn active_count(files: &Dir) -> (n: usize)
    ensures
        n == json_names(files@).len(),
{
    find_json(files).0
}

/// The identifier that an operation works on: the one given, if it has a file; else that of the
/// only active breadcrumb.
pub open spec fn resolution(files: DirView, id: Option<Seq<char>>) -> Result<Seq<char>, ErrorView> {
    match id {
        Some(id) => if files.contains_key(json_name(id)) {
            Ok(id)
        } else {
            Err(ErrorView::NotFound { id })
        },
        None => if json_names(files).len() == 0 {
            Err(ErrorView::NoActive)
        } else if json_names(files).len() == 1 {
            Ok(file_stem(json_names(files).choose()))
        } else {
            Err(ErrorView::Ambiguous { count: json_names(files).len() })
        },
    }
}

/// Resolve which breadcrumb_id to operate on.
/// If `breadcrumb_id` is None, requires exactly 1 active; else ambiguity error.
pub fn resolve(files: &Dir, breadcrumb_id: Option<&str>) -> (r: Result<String, BreadcrumbError>)
    ensures
        r matches Ok(id) ==> resolution(files@, breadcrumb_id.deep_view()) == Ok::<
            Seq<char>,
            ErrorView,
        >(id@),
        r matches Err(e) ==> resolution(files@, breadcrumb_id.deep_view()) == Err::<
            Seq<char>,
            ErrorView,
        >(e@),
{
    if let Some(id) = breadcrumb_id {
        if files.contains_key(to_json_name(id).as_str()) {
            return Ok(id.to_owned());
        }
        return Err(BreadcrumbError::NotFound { id: id.to_owned() });
    }
    let (count, first) = find_json(files);
    if count > 1 {
        return Err(BreadcrumbError::Ambiguous { count });
    }
    match first {
        None => Err(BreadcrumbError::NoActive),
        Some(i) => {
            proof {
                let names = json_names(files@);
                let k = files.keys()[i as int];
                assert(names.remove(k).len() == 0);
                assert(names.remove(k) =~= Set::<Seq<char>>::empty());
                assert(names.contains(names.choose()));
                assert(names.choose() == k) by {
                    if names.choose() != k {
                        assert(names.remove(k).contains(names.choose()));
                    }
                }
            }
            Ok(to_file_stem(files.key_at(i).as_str()))
        },
    }
}

// ---- Archive (complete/abort) -------------------------------------------------------------

/// The files archived under `date`.
pub open spec fn day_files(completed: Map<Seq<char>, DirView>, date: Seq<char>) -> DirView {
    if completed.contains_key(date) {
        completed[date]
    } else {
        Map::empty()
    }
}

/// The storage after `bc` moved from the active breadcrumbs to those completed under `date`.
pub open spec fn archived(s: StorageView, bc: BreadcrumbView, date: Seq<char>) -> StorageView {
    StorageView {
        active: s.active.remove(json_name(bc.id)),
        completed: s.completed.insert(date, written(day_files(s.completed, date), bc)),
    }
}

/// Move a breadcrumb from the active ones to those completed under `date`.
pub fn put_archived(storage: &mut Storage, bc: &Breadcrumb, date: &str)
    ensures
        final(storage)@ == archived(old(storage)@, bc@, date@),
{
    let mut day: Dir = match storage.completed.remove(date) {
        Some(day) => day,
        None => Table::new(),
    };
    write_breadcrumb(&mut day, bc);
    storage.completed.insert(date.to_owned(), day);
    remove_active(&mut storage.active, bc.id.as_str());
    assert(storage@.completed =~= archived(old(storage)@, bc@, date@).completed);
}

/// Move a breadcrumb from the active ones to those completed under `date`. Returns the path of
/// the archived file.
pub fn archive_breadcrumb_on(
    storage: &mut Storage,
    layout: &Layout,
    bc: &Breadcrumb,
    date: &str,
) -> (path: String)
    ensures
        final(storage)@ == archived(old(storage)@, bc@, date@),
        path@ == archive_file(layout@, date@, bc@.id),
{
    put_archived(storage, bc, date);
    archived_file(layout, date, bc.id.as_str())
}

/// Move a breadcrumb from the active ones to those completed under today's date. Returns the path
/// of the archived file.
pub fn archive_breadcrumb(storage: &mut Storage, layout: &Layout, bc: &Breadcrumb) -> (path: String)
    ensures
        exists|day: i32|
            {
                &&& valid_day(day as int)
                &&& final(storage)@ == archived(old(storage)@, bc@, #[trigger] date_writing(day))
                &&& path@ == archive_file(layout@, date_writing(day), bc@.id)
            },
{
    let date = day_name(today());
    archive_breadcrumb_on(storage, layout, bc, date.as_str())
}

/// Return the completed archive base path (for list/scan).
pub fn archive_base(layout: &Layout) -> (r: String)
    ensures
        r@ == completed_in(layout@),
{
    completed_dir(layout)
}

// ---- Auto-reap ----------------------------------------------------------------------------

/// Whether the last activity of `bc` lies more than `hours` before `now`. One whose time stamp
/// cannot be read is kept.
pub open spec fn reapable(bc: BreadcrumbView, hours: u64, now: Instant) -> bool {
    age(now, bc.last_activity_at) matches Some(n) && older_than(n, hours)
}

/// The breadcrumb, aborted by a reap.
pub open spec fn reaped(bc: BreadcrumbView, hours: u64) -> BreadcrumbView {
    BreadcrumbView {
        aborted: true,
        abort_reason: Some(
            "auto-reaped: stale >"@ + decimal(hours as nat) + "h on server restart"@,
        ),
        ..bc
    }
}

/// The breadcrumbs that a reap takes out of `bcs`, as it archives them.
pub open spec fn reaped_among(bcs: Seq<BreadcrumbView>, hours: u64, now: Instant) -> Seq<
    BreadcrumbView,
>
    decreases bcs.len(),
{
    if bcs.len() == 0 {
        Seq::empty()
    } else {
        let before = reaped_among(bcs.drop_last(), hours, now);
        if reapable(bcs.last(), hours, now) {
            before.push(reaped(bcs.last(), hours))
        } else {
            before
        }
    }
}

/// The storage after all of `bcs` are archived under `date`, in order.
pub open spec fn archived_all(s: StorageView, bcs: Seq<BreadcrumbView>, date: Seq<char>) -> StorageView
    decreases bcs.len(),
{
    if bcs.len() == 0 {
        s
    } else {
        archived(archived_all(s, bcs.drop_last(), date), bcs.last(), date)
    }
}

/// The identifiers of breadcrumbs.
pub open spec fn ids_of(bcs: Seq<BreadcrumbView>) -> Seq<Seq<char>> {
    bcs.map_values(|bc: BreadcrumbView| bc.id)
}

fn reap_reason(hours: u64) -> (s: String)
    ensures
        s@ == "auto-reaped: stale >"@ + decimal(hours as nat) + "h on server restart"@,
{
    let s = concat("auto-reaped: stale >", to_decimal(hours as u128).as_str());
    concat(s.as_str(), "h on server restart")
}

/// Whether the last activity of `bc` lies more than `hours` before `now`.
pub fn is_reapable(bc: &Breadcrumb, hours: u64, now: &Timestamp) -> (b: bool)
    ensures
        b == reapable(bc@, hours, now@),
{
    match now.age_of(bc.last_activity_at.as_str()) {
        Some(n) => is_older_than(n, hours),
        None => false,
    }
}

/// The active breadcrumbs without activity in the `hours` before `now`, as a reap archives them.
pub fn find_reapable_at(files: &Dir, hours: u64, now: &Timestamp) -> (r: Vec<Breadcrumb>)
    ensures
        r.deep_view() == reaped_among(breadcrumbs_met(files.keys(), files@), hours, now@),
        walks(files.keys(), files@),
{
    let all = load_all_active(files);
    let ghost bcs = all.deep_view();
    let mut gone: Vec<Breadcrumb> = Vec::new();
    assert(bcs.take(0) =~= Seq::<BreadcrumbView>::empty());
    assert(gone.deep_view() =~= Seq::<BreadcrumbView>::empty());
    for i in 0..all.len()
        invariant
            bcs == all.deep_view(),
            gone.deep_view() == reaped_among(bcs.take(i as int), hours, now@),
    {
        let ghost before = gone.deep_view();
        assert(bcs.take(i + 1).drop_last() =~= bcs.take(i as int));
        assert(bcs.take(i + 1).last() == all@[i as int]@);
        if is_reapable(&all[i], hours, now) {
            let mut bc = all[i].clone();
            bc.aborted = true;
            bc.abort_reason = Some(reap_reason(hours));
            assert(bc@ == reaped(all@[i as int]@, hours));
            gone.push(bc);
            assert(gone.deep_view() =~= before.push(bc@));
        }
    }
    assert(bcs.take(bcs.len() as int) =~= bcs);
    gone
}

/// Reap breadcrumbs without activity in the `hours` before `now` from active storage: each is
/// aborted and archived under `date`. Returns their identifiers.
pub fn reap_stale_at(
    storage: &mut Storage,
    hours: u64,
    now: &Timestamp,
    date: &str,
) -> (ids: Vec<String>)
    ensures
        ({
            let gone = reaped_among(
                breadcrumbs_met(old(storage).active.keys(), old(storage)@.active),
                hours,
                now@,
            );
            &&& final(storage)@ == archived_all(old(storage)@, gone, date@)
            &&& ids.deep_view() == ids_of(gone)
        }),
        walks(old(storage).active.keys(), old(storage)@.active),
{
    let gone = find_reapable_at(&storage.active, hours, now);
    let ghost before = storage@;
    let ghost bcs = gone.deep_view();
    let mut ids: Vec<String> = Vec::new();
    assert(bcs.take(0) =~= Seq::<BreadcrumbView>::empty());
    assert(ids.deep_view() =~= ids_of(bcs.take(0)));
    for i in 0..gone.len()
        invariant
            bcs == gone.deep_view(),
            storage@ == archived_all(before, bcs.take(i as int), date@),
            ids.deep_view() == ids_of(bcs.take(i as int)),
    {
        let ghost known = ids.deep_view();
        assert(bcs.take(i + 1).drop_last() =~= bcs.take(i as int));
        assert(bcs.take(i + 1).last() == gone@[i as int]@);
        put_archived(storage, &gone[i], date);
        ids.push(gone[i].id.clone());
        assert(ids.deep_view() =~= known.push(gone@[i as int]@.id));
        assert(ids_of(bcs.take(i + 1)) =~= ids_of(bcs.take(i as int)).push(gone@[i as int]@.id));
    }
    assert(bcs.take(bcs.len() as int) =~= bcs);
    ids
}

/// Reap breadcrumbs without activity in the last `hours` from active storage.
pub fn reap_stale(storage: &mut Storage, hours: u64) -> (ids: Vec<String>)
    ensures
        exists|now: Instant, day: i32|
            {
                let gone = #[trigger] reaped_among(
                    breadcrumbs_met(old(storage).active.keys(), old(storage)@.active),
                    hours,
                    now,
                );
                &&& clock_instant(now)
                &&& valid_day(day as int)
                &&& final(storage)@ == archived_all(
                    old(storage)@,
                    gone,
                    #[trigger] date_writing(day),
                )
                &&& ids.deep_view() == ids_of(gone)
            },
        walks(old(storage).active.keys(), old(storage)@.active),
{
    let now = Timestamp::now();
    let date = day_name(today());
    reap_stale_at(storage, hours, &now, date.as_str())
}

}
