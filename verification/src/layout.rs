//! Where things are kept: the names of directories and files.

use vstd::prelude::*;
use vstd::string::*;

use crate::text::{concat, json_name, to_json_name};

verus! {

/// What the places are derived from. `volumes` is the shared volume, where there is one; the
/// other directories stand in for the places they are named after. `separator` stands between the
/// parts of a path.
#[derive(Debug)]
pub struct Layout {
    pub volumes: Option<String>,
    pub state_dir: Option<String>,
    pub archive_dir: Option<String>,
    pub handoff_dir: Option<String>,
    pub separator: char,
}

#[verifier::ext_equal]
pub struct LayoutView {
    pub volumes: Option<Seq<char>>,
    pub state_dir: Option<Seq<char>>,
    pub archive_dir: Option<Seq<char>>,
    pub handoff_dir: Option<Seq<char>>,
    pub separator: char,
}

impl View for Layout {
    type V = LayoutView;

    open spec fn view(&self) -> LayoutView {
        LayoutView {
            volumes: self.volumes.deep_view(),
            state_dir: self.state_dir.deep_view(),
            archive_dir: self.archive_dir.deep_view(),
            handoff_dir: self.handoff_dir.deep_view(),
            separator: self.separator,
        }
    }
}

/// Whether a character parts a path where `separator` does. Where that is the backslash, so does
/// the slash.
pub open spec fn parts_path(c: char, separator: char) -> bool {
    c == separator || (separator == '\\' && c == '/')
}

/// Whether a path begins with a drive: a letter and a colon, where the backslash parts paths.
pub open spec fn has_drive(path: Seq<char>, separator: char) -> bool {
    &&& separator == '\\'
    &&& path.len() >= 2
    &&& 'a' <= path[0] <= 'z' || 'A' <= path[0] <= 'Z'
    &&& path[1] == ':'
}

/// The path of `part` in the directory `dir`. A `part` that starts from a drive or from the root
/// leads there, whatever `dir` is; from the root, it stays on the drive of `dir`, where that names
/// one.
pub open spec fn path_in(dir: Seq<char>, part: Seq<char>, separator: char) -> Seq<char> {
    if has_drive(part, separator) {
        part
    } else if part.len() > 0 && parts_path(part[0], separator) {
        if has_drive(dir, separator) {
            dir.take(2) + part
        } else {
            part
        }
    } else if dir.len() == 0 || parts_path(dir.last(), separator) {
        dir + part
    } else {
        dir.push(separator) + part
    }
}

/// The base directory of all breadcrumbs on the shared volume.
pub open spec fn base_of(l: LayoutView) -> Seq<char> {
    match l.volumes {
        Some(v) => path_in(v, "breadcrumbs"@, l.separator),
        None => "C:\\My Drive\\Volumes\\breadcrumbs"@,
    }
}

/// The directory of the completed breadcrumbs.
pub open spec fn completed_in(l: LayoutView) -> Seq<char> {
    match l.archive_dir {
        Some(d) => d,
        None => path_in(base_of(l), "completed"@, l.separator),
    }
}

/// The directory of the active breadcrumbs, one file for each.
pub open spec fn active_in(l: LayoutView) -> Seq<char> {
    path_in(base_of(l), "active"@, l.separator)
}

/// The directory of the active index and of the project files.
pub open spec fn state_in(l: LayoutView) -> Seq<char> {
    match l.state_dir {
        Some(d) => d,
        None => "C:\\CPC\\state\\breadcrumbs"@,
    }
}

/// The directory that receives the lists of stale breadcrumbs.
pub open spec fn handoffs_in(l: LayoutView) -> Seq<char> {
    match (l.handoff_dir, l.volumes) {
        (Some(d), _) => d,
        (None, Some(v)) => path_in(v, "handoffs"@, l.separator),
        (None, None) => "C:\\My Drive\\Volumes\\handoffs"@,
    }
}

/// The file in which the breadcrumb `id` is archived under `date`.
pub open spec fn archive_file(l: LayoutView, date: Seq<char>, id: Seq<char>) -> Seq<char> {
    path_in(path_in(completed_in(l), date, l.separator), json_name(id), l.separator)
}

/// The name that the directory of an earlier version gets once it is migrated at `moment`.
pub open spec fn migrated_in(moment: Seq<char>) -> Seq<char> {
    "breadcrumbs.migrated_"@ + moment
}

/// The file of the stale breadcrumbs that are handed over on `date`.
pub open spec fn handoff_path(l: LayoutView, date: Seq<char>) -> Seq<char> {
    path_in(handoffs_in(l), "pending_breadcrumbs_"@ + date + ".md"@, l.separator)
}

fn is_parting(c: char, separator: char) -> (b: bool)
    ensures
        b == parts_path(c, separator),
{
    c == separator || (separator == '\\' && c == '/')
}

fn names_drive(path: &str, separator: char) -> (b: bool)
    ensures
        b == has_drive(path@, separator),
{
    if separator != '\\' || path.unicode_len() < 2 {
        return false;
    }
    let letter = path.get_char(0);
    (('a' <= letter && letter <= 'z') || ('A' <= letter && letter <= 'Z')) && path.get_char(1) == ':'
}

/// The path of `part` in the directory `dir`. A `part` that starts from a drive or from the root
/// leads there, whatever `dir` is; from the root, it stays on the drive of `dir`, where that names
/// one.
pub fn join(dir: &str, part: &str, separator: char) -> (r: String)
    ensures
        r@ == path_in(dir@, part@, separator),
{
    if names_drive(part, separator) {
        return part.to_owned();
    }
    if part.unicode_len() > 0 && is_parting(part.get_char(0), separator) {
        let mut rooted = String::new();
        if names_drive(dir, separator) {
            rooted.push(dir.get_char(0));
            rooted.push(dir.get_char(1));
            assert(rooted@ =~= dir@.take(2));
        }
        rooted.append(part);
        assert(rooted@ =~= path_in(dir@, part@, separator));
        return rooted;
    }
    let mut r = dir.to_owned();
    let n = dir.unicode_len();
    if n > 0 && !is_parting(dir.get_char(n - 1), separator) {
        r.push(separator);
    }
    r.append(part);
    r
}

/// Resolve the breadcrumbs base path on the shared volume.
pub fn volumes_breadcrumbs_base(layout: &Layout) -> (r: String)
    ensures
        r@ == base_of(layout@),
{
    match &layout.volumes {
        Some(v) => join(v.as_str(), "breadcrumbs", layout.separator),
        None => "C:\\My Drive\\Volumes\\breadcrumbs".to_owned(),
    }
}

/// Active breadcrumb storage: one JSON file per breadcrumb.
pub fn active_dir(layout: &Layout) -> (r: String)
    ensures
        r@ == active_in(layout@),
{
    join(volumes_breadcrumbs_base(layout).as_str(), "active", layout.separator)
}

/// Completed breadcrumb archive: date-partitioned directories.
pub fn completed_dir(layout: &Layout) -> (r: String)
    ensures
        r@ == completed_in(layout@),
{
    match &layout.archive_dir {
        Some(d) => d.clone(),
        None => join(volumes_breadcrumbs_base(layout).as_str(), "completed", layout.separator),
    }
}

/// The directory of the active index and of the project files.
pub fn state_dir(layout: &Layout) -> (r: String)
    ensures
        r@ == state_in(layout@),
{
    match &layout.state_dir {
        Some(d) => d.clone(),
        None => "C:\\CPC\\state\\breadcrumbs".to_owned(),
    }
}

/// The state directory of releases before 0.3.
pub fn legacy_state_dir() -> (r: String)
    ensures
        r@ == "C:\\CPC\\state\\breadcrumbs"@,
{
    "C:\\CPC\\state\\breadcrumbs".to_owned()
}

/// The active index in the state directory of releases before 0.3.
pub fn legacy_index_path(layout: &Layout) -> (r: String)
    ensures
        r@ == path_in("C:\\CPC\\state\\breadcrumbs"@, "active.index.json"@, layout.separator),
{
    join(legacy_state_dir().as_str(), "active.index.json", layout.separator)
}

/// The project files in the state directory of releases before 0.3.
pub fn legacy_projects_dir(layout: &Layout) -> (r: String)
    ensures
        r@ == path_in("C:\\CPC\\state\\breadcrumbs"@, "projects"@, layout.separator),
{
    join(legacy_state_dir().as_str(), "projects", layout.separator)
}

/// The name that the legacy state directory gets once it is migrated.
pub fn migrated_name(moment: &str) -> (r: String)
    ensures
        r@ == migrated_in(moment@),
{
    concat("breadcrumbs.migrated_", moment)
}

/// Path to a single active breadcrumb file.
pub fn active_file(layout: &Layout, id: &str) -> (r: String)
    ensures
        r@ == path_in(active_in(layout@), json_name(id@), layout.separator),
{
    join(active_dir(layout).as_str(), to_json_name(id).as_str(), layout.separator)
}

/// The file in which the breadcrumb `id` is archived under `date`.
pub fn archived_file(layout: &Layout, date: &str, id: &str) -> (r: String)
    ensures
        r@ == archive_file(layout@, date@, id@),
{
    let day = join(completed_dir(layout).as_str(), date, layout.separator);
    join(day.as_str(), to_json_name(id).as_str(), layout.separator)
}

/// The directory that receives the lists of stale breadcrumbs.
pub fn handoffs_dir(layout: &Layout) -> (r: String)
    ensures
        r@ == handoffs_in(layout@),
{
    match &layout.handoff_dir {
        Some(d) => d.clone(),
        None => match &layout.volumes {
            Some(v) => join(v.as_str(), "handoffs", layout.separator),
            None => "C:\\My Drive\\Volumes\\handoffs".to_owned(),
        },
    }
}

/// The list of stale breadcrumbs of the day `date`.
pub fn handoff_file(layout: &Layout, date: &str) -> (r: String)
    ensures
        r@ == handoff_path(layout@, date@),
{
    let mut name = concat("pending_breadcrumbs_", date);
    name.append(".md");
    join(handoffs_dir(layout).as_str(), name.as_str(), layout.separator)
}

/// The directory of the snapshots of single breadcrumbs.
pub fn backup_dir() -> (r: String)
    ensures
        r@ == "C:\\CPC\\backups\\breadcrumbs"@,
{
    "C:\\CPC\\backups\\breadcrumbs".to_owned()
}

/// The snapshot of the breadcrumb `id` that is taken at `moment`.
pub fn backup_file(layout: &Layout, id: &str, moment: &str) -> (r: String)
    ensures
        r@ == path_in(
            "C:\\CPC\\backups\\breadcrumbs"@,
            json_name(id@ + "_"@ + moment@),
            layout.separator,
        ),
{
    let mut stem = concat(id, "_");
    stem.append(moment);
    join(backup_dir().as_str(), to_json_name(stem.as_str()).as_str(), layout.separator)
}

}
