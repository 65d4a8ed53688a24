//! What the tracker records: breadcrumbs, their steps, and the entries of the active index.

use vstd::prelude::*;
use vstd::string::*;

use crate::clock::{age, is_stale_age, stale_age, clock_instant, Instant, Timestamp};
use crate::text::{chars_of, copy_option, copy_texts, decimal, text_between, to_decimal};

verus! {

/// Caller identity passed into every write operation.
#[derive(Debug)]
pub struct WriterContext {
    pub actor: String,
    pub machine: String,
    pub session: String,
}

#[verifier::ext_equal]
pub struct WriterView {
    pub actor: Seq<char>,
    pub machine: Seq<char>,
    pub session: Seq<char>,
}

impl View for WriterContext {
    type V = WriterView;

    open spec fn view(&self) -> WriterView {
        WriterView { actor: self.actor@, machine: self.machine@, session: self.session@ }
    }
}

impl Clone for WriterContext {
    fn clone(&self) -> (r: Self)
        ensures
            r@ == self@,
    {
        WriterContext {
            actor: self.actor.clone(),
            machine: self.machine.clone(),
            session: self.session.clone(),
        }
    }
}

impl Default for WriterContext {
    fn default() -> (r: Self)
        ensures
            r.actor@.len() == 0,
            r.machine@.len() == 0,
            r.session@.len() == 0,
    {
        WriterContext { actor: String::new(), machine: String::new(), session: String::new() }
    }
}

impl WriterContext {
    pub fn new(actor: &str, machine: &str, session: &str) -> (r: Self)
        ensures
            r@ == (WriterView { actor: actor@, machine: machine@, session: session@ }),
    {
        WriterContext {
            actor: actor.to_owned(),
            machine: machine.to_owned(),
            session: session.to_owned(),
        }
    }

    /// The identity that a server has from its environment: `actor` and `session` are the values
    /// of the variables `CPC_ACTOR` and `CPC_SESSION_ID`, where they are set.
    pub fn from_env(actor: Option<String>, machine: String, session: Option<String>) -> (r: Self)
        ensures
            r.actor@ == (match actor {
                Some(a) => a@,
                None => "unknown"@,
            }),
            r.machine@ == machine@,
            r.session@ == (match session {
                Some(s) => s@,
                None => "session_0"@,
            }),
    {
        WriterContext {
            actor: match actor {
                Some(a) => a,
                None => "unknown".to_owned(),
            },
            machine,
            session: match session {
                Some(s) => s,
                None => "session_0".to_owned(),
            },
        }
    }
}

/// The record of one completed step.
#[derive(Debug)]
pub struct StepResult {
    pub step_idx: usize,
    pub step_name: String,
    pub result: String,
    pub at: String,
    pub files_changed: Vec<String>,
}

#[verifier::ext_equal]
pub struct StepResultView {
    pub step_idx: usize,
    pub step_name: Seq<char>,
    pub result: Seq<char>,
    pub at: Seq<char>,
    pub files_changed: Seq<Seq<char>>,
}

impl View for StepResult {
    type V = StepResultView;

    open spec fn view(&self) -> StepResultView {
        StepResultView {
            step_idx: self.step_idx,
            step_name: self.step_name@,
            result: self.result@,
            at: self.at@,
            files_changed: self.files_changed.deep_view(),
        }
    }
}

impl DeepView for StepResult {
    type V = StepResultView;

    open spec fn deep_view(&self) -> StepResultView {
        self@
    }
}

impl Clone for StepResult {
    fn clone(&self) -> (r: Self)
        ensures
            r@ == self@,
    {
        StepResult {
            step_idx: self.step_idx,
            step_name: self.step_name.clone(),
            result: self.result.clone(),
            at: self.at.clone(),
            files_changed: copy_texts(&self.files_changed),
        }
    }
}

fn copy_step_results(v: &Vec<StepResult>) -> (r: Vec<StepResult>)
    ensures
        r.deep_view() == v.deep_view(),
{
    let mut r: Vec<StepResult> = Vec::new();
    for i in 0..v.len()
        invariant
            r.deep_view() == v.deep_view().take(i as int),
    {
        let ghost copied = r.deep_view();
        r.push(v[i].clone());
        assert(r.deep_view() =~= copied.push(v@[i as int].deep_view()));
        assert(r.deep_view() =~= v.deep_view().take(i + 1));
    }
    assert(r.deep_view() =~= v.deep_view());
    r
}

/// Who else wrote to a breadcrumb shortly before the present writer, and when.
#[derive(Debug)]
pub struct ConflictInfo {
    pub other_actor: String,
    pub other_machine: String,
    pub other_session: String,
    pub last_activity_at: String,
}

#[verifier::ext_equal]
pub struct ConflictView {
    pub other_actor: Seq<char>,
    pub other_machine: Seq<char>,
    pub other_session: Seq<char>,
    pub last_activity_at: Seq<char>,
}

impl View for ConflictInfo {
    type V = ConflictView;

    open spec fn view(&self) -> ConflictView {
        ConflictView {
            other_actor: self.other_actor@,
            other_machine: self.other_machine@,
            other_session: self.other_session@,
            last_activity_at: self.last_activity_at@,
        }
    }
}

impl DeepView for ConflictInfo {
    type V = ConflictView;

    open spec fn deep_view(&self) -> ConflictView {
        self@
    }
}

impl Clone for ConflictInfo {
    fn clone(&self) -> (r: Self)
        ensures
            r@ == self@,
    {
        ConflictInfo {
            other_actor: self.other_actor.clone(),
            other_machine: self.other_machine.clone(),
            other_session: self.other_session.clone(),
            last_activity_at: self.last_activity_at.clone(),
        }
    }
}

fn copy_conflict(c: &Option<ConflictInfo>) -> (r: Option<ConflictInfo>)
    ensures
        r.deep_view() == c.deep_view(),
{
    match c {
        Some(c) => Some(c.clone()),
        None => None,
    }
}

/// A multi-step operation and how far it has come.
#[derive(Debug)]
pub struct Breadcrumb {
    pub id: String,
    pub name: String,
    pub project_id: Option<String>,
    pub owner: String,
    pub writer_actor: String,
    pub writer_machine: String,
    pub writer_session: String,
    pub writer_at: String,
    pub started_at: String,
    pub last_activity_at: String,
    pub steps: Vec<String>,
    pub current_step: usize,
    pub total_steps: usize,
    pub step_results: Vec<StepResult>,
    pub files_changed: Vec<String>,
    pub stale: bool,
    pub conflict_warning: Option<ConflictInfo>,
    pub aborted: bool,
    pub abort_reason: Option<String>,
    pub auto_started: bool,
}

#[verifier::ext_equal]
pub struct BreadcrumbView {
    pub id: Seq<char>,
    pub name: Seq<char>,
    pub project_id: Option<Seq<char>>,
    pub owner: Seq<char>,
    pub writer_actor: Seq<char>,
    pub writer_machine: Seq<char>,
    pub writer_session: Seq<char>,
    pub writer_at: Seq<char>,
    pub started_at: Seq<char>,
    pub last_activity_at: Seq<char>,
    pub steps: Seq<Seq<char>>,
    pub current_step: usize,
    pub total_steps: usize,
    pub step_results: Seq<StepResultView>,
    pub files_changed: Seq<Seq<char>>,
    pub stale: bool,
    pub conflict_warning: Option<ConflictView>,
    pub aborted: bool,
    pub abort_reason: Option<Seq<char>>,
    pub auto_started: bool,
}

impl View for Breadcrumb {
    type V = BreadcrumbView;

    open spec fn view(&self) -> BreadcrumbView {
        BreadcrumbView {
            id: self.id@,
            name: self.name@,
            project_id: self.project_id.deep_view(),
            owner: self.owner@,
            writer_actor: self.writer_actor@,
            writer_machine: self.writer_machine@,
            writer_session: self.writer_session@,
            writer_at: self.writer_at@,
            started_at: self.started_at@,
            last_activity_at: self.last_activity_at@,
            steps: self.steps.deep_view(),
            current_step: self.current_step,
            total_steps: self.total_steps,
            step_results: self.step_results.deep_view(),
            files_changed: self.files_changed.deep_view(),
            stale: self.stale,
            conflict_warning: self.conflict_warning.deep_view(),
            aborted: self.aborted,
            abort_reason: self.abort_reason.deep_view(),
            auto_started: self.auto_started,
        }
    }
}

impl DeepView for Breadcrumb {
    type V = BreadcrumbView;

    open spec fn deep_view(&self) -> BreadcrumbView {
        self@
    }
}

impl Clone for Breadcrumb {
    fn clone(&self) -> (r: Self)
        ensures
            r@ == self@,
    {
        Breadcrumb {
            id: self.id.clone(),
            name: self.name.clone(),
            project_id: copy_option(&self.project_id),
            owner: self.owner.clone(),
            writer_actor: self.writer_actor.clone(),
            writer_machine: self.writer_machine.clone(),
            writer_session: self.writer_session.clone(),
            writer_at: self.writer_at.clone(),
            started_at: self.started_at.clone(),
            last_activity_at: self.last_activity_at.clone(),
            steps: copy_texts(&self.steps),
            current_step: self.current_step,
            total_steps: self.total_steps,
            step_results: copy_step_results(&self.step_results),
            files_changed: copy_texts(&self.files_changed),
            stale: self.stale,
            conflict_warning: copy_conflict(&self.conflict_warning),
            aborted: self.aborted,
            abort_reason: copy_option(&self.abort_reason),
            auto_started: self.auto_started,
        }
    }
}

/// A copy of a list of breadcrumbs.
pub fn copy_breadcrumbs(v: &Vec<Breadcrumb>) -> (r: Vec<Breadcrumb>)
    ensures
        r.deep_view() == v.deep_view(),
{
    let mut r: Vec<Breadcrumb> = Vec::new();
    for i in 0..v.len()
        invariant
            r.deep_view() == v.deep_view().take(i as int),
    {
        let ghost copied = r.deep_view();
        r.push(v[i].clone());
        assert(r.deep_view() =~= copied.push(v@[i as int].deep_view()));
        assert(r.deep_view() =~= v.deep_view().take(i + 1));
    }
    assert(r.deep_view() =~= v.deep_view());
    r
}

/// Whether the breadcrumb had no activity for four hours before `now`. One whose time stamp
/// cannot be read is not stale.
pub open spec fn stale_at(bc: BreadcrumbView, now: Instant) -> bool {
    stale_age(age(now, bc.last_activity_at))
}

impl Breadcrumb {
    /// Whether the breadcrumb had no activity for four hours.
    pub fn is_stale(&self) -> (b: bool)
        ensures
            exists|now: Instant| clock_instant(now) && b == #[trigger] stale_at(self@, now),
    {
        let now = Timestamp::now();
        self.is_stale_at(&now)
    }

    /// Whether the breadcrumb had no activity for four hours before `now`.
    pub fn is_stale_at(&self, now: &Timestamp) -> (b: bool)
        ensures
            b == stale_at(self@, now@),
    {
        is_stale_age(now.age_of(self.last_activity_at.as_str()))
    }
}

/// The entry of a breadcrumb in the active index.
#[derive(Debug)]
pub struct IndexEntry {
    pub id: String,
    pub project_id: Option<String>,
    pub name: String,
    pub owner: String,
    pub last_activity_at: String,
    pub started_at: String,
}

#[verifier::ext_equal]
pub struct EntryView {
    pub id: Seq<char>,
    pub project_id: Option<Seq<char>>,
    pub name: Seq<char>,
    pub owner: Seq<char>,
    pub last_activity_at: Seq<char>,
    pub started_at: Seq<char>,
}

impl View for IndexEntry {
    type V = EntryView;

    open spec fn view(&self) -> EntryView {
        EntryView {
            id: self.id@,
            project_id: self.project_id.deep_view(),
            name: self.name@,
            owner: self.owner@,
            last_activity_at: self.last_activity_at@,
            started_at: self.started_at@,
        }
    }
}

impl DeepView for IndexEntry {
    type V = EntryView;

    open spec fn deep_view(&self) -> EntryView {
        self@
    }
}

impl Clone for IndexEntry {
    fn clone(&self) -> (r: Self)
        ensures
            r@ == self@,
    {
        IndexEntry {
            id: self.id.clone(),
            project_id: copy_option(&self.project_id),
            name: self.name.clone(),
            owner: self.owner.clone(),
            last_activity_at: self.last_activity_at.clone(),
            started_at: self.started_at.clone(),
        }
    }
}

// ---- Identifiers --------------------------------------------------------------------------

/// The longest slug in an identifier.
pub const SLUG_LEN: usize = 40;

/// A character as it stands in a slug: ASCII letters in lower case, digits, hyphens and
/// underscores as they are, an underscore for anything else.
pub open spec fn slug_char(c: char) -> char {
    if 'A' <= c <= 'Z' {
        (c as int + 32) as char
    } else if 'a' <= c <= 'z' || '0' <= c <= '9' || c == '-' || c == '_' {
        c
    } else {
        '_'
    }
}

/// The text without the underscores at its start.
pub open spec fn strip_start(s: Seq<char>) -> Seq<char>
    decreases s.len(),
{
    if s.len() > 0 && s[0] == '_' {
        strip_start(s.skip(1))
    } else {
        s
    }
}

/// The text without the underscores at its end.
pub open spec fn strip_end(s: Seq<char>) -> Seq<char>
    decreases s.len(),
{
    if s.len() > 0 && s.last() == '_' {
        strip_end(s.drop_last())
    } else {
        s
    }
}

/// The first `max` characters of a text, or all of it if it is shorter.
pub open spec fn shorten(s: Seq<char>, max: int) -> Seq<char> {
    if s.len() <= max {
        s
    } else {
        s.take(max)
    }
}

/// The slug of a name: its characters as they stand in a slug, at most `max` of them, with no
/// underscore at either end; `operation` if nothing is left.
pub open spec fn slug(name: Seq<char>, max: int) -> Seq<char> {
    let s = strip_end(shorten(strip_start(name.map_values(|c: char| slug_char(c))), max));
    if s.len() == 0 {
        "operation"@
    } else {
        s
    }
}

fn to_slug_char(c: char) -> (r: char)
    ensures
        r == slug_char(c),
{
    if 'A' <= c && c <= 'Z' {
        let lower: u8 = c as u8 + 32;
        lower as char
    } else if ('a' <= c && c <= 'z') || ('0' <= c && c <= '9') || c == '-' || c == '_' {
        c
    } else {
        '_'
    }
}

/// The slug of a name, of at most `max` characters.
pub fn slugify(name: &str, max: usize) -> (s: String)
    ensures
        s@ == slug(name@, max as int),
{
    let chars = chars_of(name);
    let ghost mapped = name@.map_values(|c: char| slug_char(c));
    let mut v: Vec<char> = Vec::new();
    for i in 0..chars.len()
        invariant
            chars@ == name@,
            mapped == name@.map_values(|c: char| slug_char(c)),
            v@ == mapped.take(i as int),
    {
        v.push(to_slug_char(chars[i]));
        assert(v@ =~= mapped.take(i + 1));
    }
    assert(v@ =~= mapped);
    let mut a: usize = 0;
    assert(v@.skip(0) =~= v@);
    while a < v.len() && v[a] == '_'
        invariant
            a <= v@.len(),
            strip_start(v@) == strip_start(v@.skip(a as int)),
        decreases v@.len() - a,
    {
        assert(v@.skip(a as int).skip(1) =~= v@.skip(a + 1));
        a += 1;
    }
    let ghost started = strip_start(v@);
    assert(started == v@.skip(a as int));
    let mut b: usize = v.len();
    if b - a > max {
        b = a + max;
    }
    assert(v@.subrange(a as int, b as int) =~= shorten(started, max as int));
    while a < b && v[b - 1] == '_'
        invariant
            a <= b <= v@.len(),
            strip_end(shorten(started, max as int)) == strip_end(
                v@.subrange(a as int, b as int),
            ),
        decreases b,
    {
        assert(v@.subrange(a as int, b as int).drop_last() =~= v@.subrange(a as int, b - 1));
        b -= 1;
    }
    if a == b {
        "operation".to_owned()
    } else {
        text_between(&v, a, b)
    }
}

/// The instant as nanoseconds since the Unix epoch; zero before it.
pub open spec fn unix_nanos(t: Instant) -> nat {
    if t.secs < 0 {
        0
    } else {
        (t.secs * 1_000_000_000 + t.nanos) as nat
    }
}

/// The identifier of a breadcrumb that is started at `t` under `name`: `bc_`, the time, and the
/// slug of the name.
pub open spec fn id_at(name: Seq<char>, t: Instant) -> Seq<char> {
    "bc_"@ + decimal(unix_nanos(t)) + "_"@ + slug(name, SLUG_LEN as int)
}

/// The identifier of a breadcrumb that is started at `now` under `name`.
pub fn new_id_at(name: &str, now: &Timestamp) -> (id: String)
    ensures
        id@ == id_at(name@, now@),
{
    let mut id = "bc_".to_owned();
    id.append(to_decimal(now.unix_nanos()).as_str());
    id.append("_");
    id.append(slugify(name, SLUG_LEN).as_str());
    id
}

/// An identifier for a breadcrumb that is started under `name` now.
pub fn new_id(name: &str) -> (id: String)
    ensures
        exists|t: Instant| clock_instant(t) && id@ == #[trigger] id_at(name@, t),
{
    let now = Timestamp::now();
    new_id_at(name, &now)
}

}
