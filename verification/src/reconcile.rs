//! Reconciliation: entries of the active index that nobody works on any more are taken out of it
//! and handed over in a file for people to read.

use vstd::prelude::*;
use vstd::string::*;

use crate::clock::{
    age, clock_instant, date_writing, day_name, hours_to_reconcile, reconcile_age, today, valid_day,
    Instant, Timestamp,
};
use crate::index::{index_remove, IndexView};
use crate::layout::{handoff_file, handoff_path, Layout, LayoutView};
use crate::schema::{EntryView, IndexEntry};
use crate::table::{walks, Table};
use crate::text::{copy_option, decimal, to_decimal};
use crate::tracker::{Tracker, TrackerView};

verus! {

/// A stale breadcrumb entry found during reconciliation.
#[derive(Debug)]
pub struct StaleEntry {
    pub id: String,
    pub name: String,
    pub last_activity_at: String,
    pub hours_stale: u64,
    pub project_id: String,
}

#[verifier::ext_equal]
pub struct StaleView {
    pub id: Seq<char>,
    pub name: Seq<char>,
    pub last_activity_at: Seq<char>,
    pub hours_stale: nat,
    pub project_id: Seq<char>,
}

impl View for StaleEntry {
    type V = StaleView;

    open spec fn view(&self) -> StaleView {
        StaleView {
            id: self.id@,
            name: self.name@,
            last_activity_at: self.last_activity_at@,
            hours_stale: self.hours_stale as nat,
            project_id: self.project_id@,
        }
    }
}

impl DeepView for StaleEntry {
    type V = StaleView;

    open spec fn deep_view(&self) -> StaleView {
        self@
    }
}

impl Clone for StaleEntry {
    fn clone(&self) -> (r: Self)
        ensures
            r@ == self@,
    {
        StaleEntry {
            id: self.id.clone(),
            name: self.name.clone(),
            last_activity_at: self.last_activity_at.clone(),
            hours_stale: self.hours_stale,
            project_id: self.project_id.clone(),
        }
    }
}

/// Report returned by `reconcile()`. `handoff_path` is given, and the entries count as written, once
/// the handoff file holds them.
#[derive(Debug)]
pub struct ReconcileReport {
    pub scanned: usize,
    pub stale_found: Vec<StaleEntry>,
    pub handoff_path: Option<String>,
    pub handoff_entries_written: usize,
}

#[verifier::ext_equal]
pub struct ReportView {
    pub scanned: nat,
    pub stale_found: Seq<StaleView>,
    pub handoff_path: Option<Seq<char>>,
    pub handoff_entries_written: nat,
}

impl View for ReconcileReport {
    type V = ReportView;

    open spec fn view(&self) -> ReportView {
        ReportView {
            scanned: self.scanned as nat,
            stale_found: self.stale_found.deep_view(),
            handoff_path: self.handoff_path.deep_view(),
            handoff_entries_written: self.handoff_entries_written as nat,
        }
    }
}

impl Clone for ReconcileReport {
    fn clone(&self) -> (r: Self)
        ensures
            r@ == self@,
    {
        let mut stale_found: Vec<StaleEntry> = Vec::new();
        let ghost all = self.stale_found.deep_view();
        for i in 0..self.stale_found.len()
            invariant
                all == self.stale_found.deep_view(),
                stale_found.deep_view() == all.take(i as int),
        {
            let ghost copied = stale_found.deep_view();
            stale_found.push(self.stale_found[i].clone());
            assert(stale_found.deep_view() =~= copied.push(all[i as int]));
            assert(stale_found.deep_view() =~= all.take(i + 1));
        }
        assert(stale_found.deep_view() =~= all);
        ReconcileReport {
            scanned: self.scanned,
            stale_found,
            handoff_path: copy_option(&self.handoff_path),
            handoff_entries_written: self.handoff_entries_written,
        }
    }
}

// ---- Stale entries ------------------------------------------------------------------------

/// The age of an entry at `now`: since its last activity, or since its start where the time stamp
/// of the activity cannot be read.
pub open spec fn entry_age(e: EntryView, now: Instant) -> Option<int> {
    match age(now, e.last_activity_at) {
        Some(n) => Some(n),
        None => age(now, e.started_at),
    }
}

/// What is reported of the entry `e` under `id`, if it is stale at `now`.
pub open spec fn stale_report(id: Seq<char>, e: EntryView, hours: u64, now: Instant) -> Option<
    StaleView,
> {
    match reconcile_age(entry_age(e, now), hours) {
        Some(h) => Some(
            StaleView {
                id,
                name: e.name,
                last_activity_at: e.last_activity_at,
                hours_stale: h as nat,
                project_id: match e.project_id {
                    Some(p) => p,
                    None => "ungrouped"@,
                },
            },
        ),
        None => None,
    }
}

/// What is reported of the stale entries that a walk over the index meets.
pub open spec fn stale_reports(
    keys: Seq<Seq<char>>,
    index: IndexView,
    hours: u64,
    now: Instant,
) -> Seq<StaleView>
    decreases keys.len(),
{
    if keys.len() == 0 {
        Seq::empty()
    } else {
        let before = stale_reports(keys.drop_last(), index, hours, now);
        match stale_report(keys.last(), index[keys.last()], hours, now) {
            Some(x) => before.push(x),
            None => before,
        }
    }
}

/// The index without its stale entries.
pub open spec fn reconciled(index: IndexView, hours: u64, now: Instant) -> IndexView {
    Map::new(
        |id: Seq<char>| index.contains_key(id) && stale_report(id, index[id], hours, now) is None,
        |id: Seq<char>| index[id],
    )
}

/// The report on a scan of the index: its entries are not handed over yet.
pub open spec fn scan_report(
    keys: Seq<Seq<char>>,
    index: IndexView,
    hours: u64,
    now: Instant,
) -> ReportView {
    let stale = stale_reports(keys, index, hours, now);
    ReportView {
        scanned: index.len(),
        stale_found: stale,
        handoff_path: None,
        handoff_entries_written: 0,
    }
}

/// The identifiers that reports name.
pub open spec fn reported_ids(reports: Seq<StaleView>) -> Set<Seq<char>> {
    Set::new(|id: Seq<char>| exists|j: int| 0 <= j < reports.len() && (#[trigger] reports[j]).id == id)
}

/// The report once its entries stand in the handoff file at `path`. Where there is no such file, or
/// nothing to hand over, it says so.
pub open spec fn handed_over(report: ReportView, path: Option<Seq<char>>) -> ReportView {
    if path is Some && report.stale_found.len() > 0 {
        ReportView {
            handoff_path: path,
            handoff_entries_written: report.stale_found.len(),
            ..report
        }
    } else {
        ReportView { handoff_path: None, handoff_entries_written: 0, ..report }
    }
}

/// What is reported of the entry `e` under `id`, if it is stale at `now`: older than `hours`, and
/// not updated within the last 30 minutes.
pub fn check_entry(id: &str, e: &IndexEntry, hours: u64, now: &Timestamp) -> (r: Option<StaleEntry>)
    ensures
        r.deep_view() == stale_report(id@, e@, hours, now@),
{
    let age: Option<i128> = match now.age_of(e.last_activity_at.as_str()) {
        Some(n) => Some(n),
        None => now.age_of(e.started_at.as_str()),
    };
    match hours_to_reconcile(age, hours) {
        Some(hours_stale) => Some(
            StaleEntry {
                id: id.to_owned(),
                name: e.name.clone(),
                last_activity_at: e.last_activity_at.clone(),
                hours_stale,
                project_id: match &e.project_id {
                    Some(p) => p.clone(),
                    None => "ungrouped".to_owned(),
                },
            },
        ),
        None => None,
    }
}

/// Scan the active index at `now` for stale entries. Nothing is changed: the entries are to be
/// written to the handoff file first, then `hand_over` takes them out of the index.
///
/// Stale are entries with `last_activity_at` (or `started_at` fallback) older than
/// `stale_threshold_hours` AND not updated within the last 30 minutes.
pub fn scan_at(t: &Tracker, stale_threshold_hours: u64, now: &Timestamp) -> (r: ReconcileReport)
    ensures
        r@ == scan_report(t.index.keys(), t.index@, stale_threshold_hours, now@),
        walks(t.index.keys(), t.index@),
{
    let scanned = t.index.len();
    let ghost keys = t.index.keys();
    let ghost index = t.index@;
    let hours = stale_threshold_hours;
    let mut stale: Vec<StaleEntry> = Vec::new();
    assert(keys.take(0) =~= Seq::<Seq<char>>::empty());
    assert(stale.deep_view() =~= Seq::<StaleView>::empty());
    for i in 0..scanned
        invariant
            scanned == keys.len(),
            keys == t.index.keys(),
            index == t.index@,
            stale.deep_view() == stale_reports(keys.take(i as int), index, hours, now@),
    {
        let ghost met = stale.deep_view();
        assert(keys.take(i + 1).drop_last() =~= keys.take(i as int));
        assert(keys.take(i + 1).last() == keys[i as int]);
        match check_entry(t.index.key_at(i).as_str(), t.index.value_at(i), hours, now) {
            Some(x) => {
                stale.push(x);
                assert(stale.deep_view() =~= met.push(x@));
            },
            None => {},
        }
    }
    assert(keys.take(scanned as int) =~= keys);
    ReconcileReport { scanned, stale_found: stale, handoff_path: None, handoff_entries_written: 0 }
}

/// Scan the active index for stale entries. Nothing is changed.
pub fn scan(t: &Tracker, stale_threshold_hours: u64) -> (r: ReconcileReport)
    ensures
        exists|now: Instant|
            clock_instant(now) && r@ == #[trigger] scan_report(
                t.index.keys(),
                t.index@,
                stale_threshold_hours,
                now,
            ),
        walks(t.index.keys(), t.index@),
{
    let now = Timestamp::now();
    scan_at(t, stale_threshold_hours, &now)
}

/// Hand over the stale entries of a report: `path` is the handoff file that holds them now, `None`
/// where it could not be written. Only entries that stand in the file leave the active index.
pub fn hand_over(t: &mut Tracker, report: ReconcileReport, path: Option<String>) -> (r:
    ReconcileReport)
    ensures
        r@ == handed_over(report@, path.deep_view()),
        path is None ==> final(t)@ == old(t)@,
        path is Some ==> final(t)@ == (TrackerView {
            index: old(t)@.index.remove_keys(reported_ids(report@.stale_found)),
            ..old(t)@
        }),
{
    let count = report.stale_found.len();
    let ghost index = t.index@;
    let ghost found = report.stale_found.deep_view();
    let mut r = report;
    match path {
        None => {
            r.handoff_path = None;
            r.handoff_entries_written = 0;
            r
        },
        Some(path) => {
            let ghost mut gone: Set<Seq<char>> = Set::empty();
            assert(index.remove_keys(gone) =~= index);
            for i in 0..count
                invariant
                    count == found.len(),
                    found == r.stale_found.deep_view(),
                    t.index@ == index.remove_keys(gone),
                    t.projects == old(t).projects,
                    t.storage == old(t).storage,
                    forall|id: Seq<char>| #[trigger]
                        gone.contains(id) <==> exists|j: int|
                            0 <= j < i && (#[trigger] found[j]).id == id,
            {
                let ghost before = gone;
                let ghost id = found[i as int].id;
                index_remove(&mut t.index, r.stale_found[i].id.as_str());
                proof {
                    gone = gone.insert(id);
                    assert(t.index@ =~= index.remove_keys(gone));
                    assert forall|x: Seq<char>| #[trigger] gone.contains(x) <==> exists|j: int|
                        0 <= j < i + 1 && (#[trigger] found[j]).id == x by {
                        if before.contains(x) {
                            let j = choose|j: int| 0 <= j < i && (#[trigger] found[j]).id == x;
                            assert(found[j].id == x);
                        }
                        if x == id {
                            assert(found[i as int].id == x);
                        }
                    }
                }
            }
            assert(gone =~= reported_ids(found));
            if count > 0 {
                r.handoff_path = Some(path);
                r.handoff_entries_written = count;
            } else {
                r.handoff_path = None;
                r.handoff_entries_written = 0;
            }
            r
        },
    }
}

/// Handing over what a scan found leaves the index without its stale entries.
pub proof fn handing_over_reconciles(
    keys: Seq<Seq<char>>,
    index: IndexView,
    hours: u64,
    now: Instant,
)
    requires
        walks(keys, index),
    ensures
        index.remove_keys(reported_ids(stale_reports(keys, index, hours, now))) == reconciled(
            index,
            hours,
            now,
        ),
{
    let gone = reported_ids(stale_reports(keys, index, hours, now));
    assert forall|id: Seq<char>| index.contains_key(id) implies (gone.contains(id)
        <==> stale_report(id, index[id], hours, now) is Some) by {
        reports_name_stale_keys(keys, index, hours, now, id);
        assert(keys.contains(id));
    }
    assert(index.remove_keys(gone) =~= reconciled(index, hours, now));
}

/// A walk over the keys `keys` reports the entry under `id` exactly if it meets that key and the
/// entry is stale.
pub proof fn reports_name_stale_keys(
    keys: Seq<Seq<char>>,
    index: IndexView,
    hours: u64,
    now: Instant,
    id: Seq<char>,
)
    ensures
        (exists|j: int|
            0 <= j < stale_reports(keys, index, hours, now).len() && (
            #[trigger] stale_reports(keys, index, hours, now)[j]).id == id) <==> (keys.contains(id)
            && stale_report(id, index[id], hours, now) is Some),
    decreases keys.len(),
{
    let all = stale_reports(keys, index, hours, now);
    if keys.len() > 0 {
        let rest = keys.drop_last();
        let last = keys.last();
        let before = stale_reports(rest, index, hours, now);
        reports_name_stale_keys(rest, index, hours, now, id);
        assert(keys =~= rest.push(last));
        assert(keys.contains(id) <==> rest.contains(id) || id == last) by {
            if rest.contains(id) {
                assert(keys[rest.index_of(id)] == id);
            }
            if id == last {
                assert(keys[keys.len() - 1] == id);
            }
            if keys.contains(id) && id != last {
                assert(rest[keys.index_of(id)] == id);
            }
        }
        assert forall|j: int| 0 <= j < before.len() implies before[j] == all[j] by {}
        if exists|j: int| 0 <= j < before.len() && (#[trigger] before[j]).id == id {
            let j = choose|j: int| 0 <= j < before.len() && (#[trigger] before[j]).id == id;
            assert(all[j].id == id);
        }
        if id == last && stale_report(id, index[id], hours, now) is Some {
            assert(all[all.len() - 1].id == id);
        }
        if exists|j: int| 0 <= j < all.len() && (#[trigger] all[j]).id == id {
            let j = choose|j: int| 0 <= j < all.len() && (#[trigger] all[j]).id == id;
            if j < before.len() {
                assert(before[j].id == id);
            }
        }
    }
}

// ---- The handoff file ---------------------------------------------------------------------

/// What the handoff file says of a stale entry.
pub open spec fn entry_text(e: StaleView) -> Seq<char> {
    "## "@ + e.name + "\n- ID: "@ + e.id + "\n- Last activity: "@ + e.last_activity_at
        + "\n- Hours stale: "@ + decimal(e.hours_stale) + "\n- Project: "@ + e.project_id
        + "\n\n---\n\n"@
}

/// What the handoff file says of stale entries, in order.
pub open spec fn entries_text(entries: Seq<StaleView>) -> Seq<char>
    decreases entries.len(),
{
    if entries.len() == 0 {
        Seq::empty()
    } else {
        entries_text(entries.drop_last()) + entry_text(entries.last())
    }
}

/// What the handoff file of `date` opens with: a header where it is new, else what it holds
/// already, ended by a line end.
pub open spec fn handoff_opening(existing: Seq<char>, date: Seq<char>) -> Seq<char> {
    if existing.len() == 0 {
        "# Pending Breadcrumbs - "@ + date + "\n\n"@
    } else if existing.last() == '\n' {
        existing
    } else {
        existing.push('\n')
    }
}

/// The handoff file of `date` after `entries` are added to what it holds.
pub open spec fn handoff_text(
    existing: Seq<char>,
    date: Seq<char>,
    entries: Seq<StaleView>,
) -> Seq<char> {
    handoff_opening(existing, date) + entries_text(entries)
}

fn append_entry(content: &mut String, e: &StaleEntry)
    ensures
        final(content)@ == old(content)@ + entry_text(e@),
{
    content.append("## ");
    content.append(e.name.as_str());
    content.append("\n- ID: ");
    content.append(e.id.as_str());
    content.append("\n- Last activity: ");
    content.append(e.last_activity_at.as_str());
    content.append("\n- Hours stale: ");
    content.append(to_decimal(e.hours_stale as u128).as_str());
    content.append("\n- Project: ");
    content.append(e.project_id.as_str());
    content.append("\n\n---\n\n");
    assert(content@ =~= old(content)@ + entry_text(e@));
}

/// The handoff file of `date` after `entries` are added to what it holds: `existing`, which is
/// empty where there is no such file yet.
pub fn handoff_content(existing: String, date: &str, entries: &Vec<StaleEntry>) -> (r: String)
    ensures
        r@ == handoff_text(existing@, date@, entries.deep_view()),
{
    let n = existing.as_str().unicode_len();
    let mut content = existing;
    if n == 0 {
        content = "# Pending Breadcrumbs - ".to_owned();
        content.append(date);
        content.append("\n\n");
    } else if content.as_str().get_char(n - 1) != '\n' {
        content.push('\n');
    }
    let ghost opening = content@;
    let ghost all = entries.deep_view();
    assert(all.take(0) =~= Seq::<StaleView>::empty());
    assert(opening + entries_text(all.take(0)) =~= opening);
    for i in 0..entries.len()
        invariant
            all == entries.deep_view(),
            content@ == opening + entries_text(all.take(i as int)),
    {
        let ghost before = content@;
        assert(all.take(i + 1).drop_last() =~= all.take(i as int));
        assert(all.take(i + 1).last() == entries@[i as int]@);
        append_entry(&mut content, &entries[i]);
        assert(content@ =~= opening + entries_text(all.take(i + 1)));
    }
    assert(all.take(all.len() as int) =~= all);
    content
}

// ---- Reconciliation -----------------------------------------------------------------------

/// The handoff files: what each holds, under its path.
pub type Handoffs = Table<String>;

pub type HandoffsView = Map<Seq<char>, Seq<char>>;

/// What the handoff file at `path` holds; nothing where there is no such file.
pub open spec fn held_at(handoffs: HandoffsView, path: Seq<char>) -> Seq<char> {
    if handoffs.contains_key(path) {
        handoffs[path]
    } else {
        Seq::empty()
    }
}

/// The outcome of a reconciliation under `date` that scans the index as `report` says: the tracker,
/// the handoff files and the report.
pub open spec fn reconcile_outcome(
    t: TrackerView,
    handoffs: HandoffsView,
    l: LayoutView,
    report: ReportView,
    date: Seq<char>,
) -> (TrackerView, HandoffsView, ReportView) {
    let path = handoff_path(l, date);
    if report.stale_found.len() == 0 {
        (t, handoffs, report)
    } else {
        (
            TrackerView {
                index: t.index.remove_keys(reported_ids(report.stale_found)),
                ..t
            },
            handoffs.insert(
                path,
                handoff_text(held_at(handoffs, path), date, report.stale_found),
            ),
            handed_over(report, Some(path)),
        )
    }
}

/// Reconcile stale breadcrumbs of the active index at `now` under `date`.
///
/// Entries with `last_activity_at` (or `started_at` fallback) older than
/// `stale_threshold_hours` AND not updated within the last 30 minutes
/// are removed from the active index and written to the handoff file of the date.
pub fn reconcile_at(
    t: &mut Tracker,
    handoffs: &mut Handoffs,
    layout: &Layout,
    stale_threshold_hours: u64,
    now: &Timestamp,
    date: &str,
) -> (r: ReconcileReport)
    ensures
        (final(t)@, final(handoffs)@, r@) == reconcile_outcome(
            old(t)@,
            old(handoffs)@,
            layout@,
            scan_report(old(t).index.keys(), old(t).index@, stale_threshold_hours, now@),
            date@,
        ),
        final(t)@.index == reconciled(old(t).index@, stale_threshold_hours, now@),
        walks(old(t).index.keys(), old(t).index@),
{
    let report = scan_at(t, stale_threshold_hours, now);
    proof {
        handing_over_reconciles(t.index.keys(), t.index@, stale_threshold_hours, now@);
    }
    if report.stale_found.len() == 0 {
        assert(report@.stale_found =~= Seq::<StaleView>::empty());
        assert(reported_ids(report@.stale_found) =~= Set::<Seq<char>>::empty());
        assert(t.index@.remove_keys(Set::<Seq<char>>::empty()) =~= t.index@);
        return report;
    }
    assert(report@.stale_found.len() > 0);
    let path = handoff_file(layout, date);
    let existing = match handoffs.get(path.as_str()) {
        Some(text) => text.clone(),
        None => String::new(),
    };
    assert(existing@ =~= held_at(handoffs@, path@));
    let content = handoff_content(existing, date, &report.stale_found);
    handoffs.insert(path.clone(), content);
    hand_over(t, report, Some(path))
}

/// Reconcile stale breadcrumbs of the active index.
///
/// Entries with `last_activity_at` (or `started_at` fallback) older than
/// `stale_threshold_hours` AND not updated within the last 30 minutes
/// are removed from the active index and written to the handoff file of the day.
pub fn reconcile(
    t: &mut Tracker,
    handoffs: &mut Handoffs,
    layout: &Layout,
    stale_threshold_hours: u64,
) -> (r: ReconcileReport)
    ensures
        exists|now: Instant, day: i32|
            {
                &&& clock_instant(now)
                &&& valid_day(day as int)
                &&& (final(t)@, final(handoffs)@, r@) == reconcile_outcome(
                    old(t)@,
                    old(handoffs)@,
                    layout@,
                    #[trigger] scan_report(
                        old(t).index.keys(),
                        old(t).index@,
                        stale_threshold_hours,
                        now,
                    ),
                    #[trigger] date_writing(day),
                )
                &&& final(t)@.index == reconciled(old(t).index@, stale_threshold_hours, now)
            },
        walks(old(t).index.keys(), old(t).index@),
{
    let now = Timestamp::now();
    let date = day_name(today());
    reconcile_at(t, handoffs, layout, stale_threshold_hours, &now, date.as_str())
}

}
