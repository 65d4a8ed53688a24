//! The archive of completed breadcrumbs, by date.

use vstd::prelude::*;

use crate::clock::{date_writing, day_name, valid_day};
use crate::layout::{archive_file, completed_in, Layout};
use crate::schema::{Breadcrumb, BreadcrumbView};
use crate::storage::{
    archive_base, archive_breadcrumb, archived, day_files, read_breadcrumb, reading, Dir, DirView,
    Storage,
};
use crate::table::Table;

verus! {

/// Archive a breadcrumb: it joins those completed today and leaves the active ones. Returns the
/// path of the archived file.
pub fn archive(storage: &mut Storage, layout: &Layout, bc: &Breadcrumb) -> (path: String)
    ensures
        exists|day: i32|
            {
                &&& valid_day(day as int)
                &&& final(storage)@ == archived(old(storage)@, bc@, #[trigger] date_writing(day))
                &&& path@ == archive_file(layout@, date_writing(day), bc@.id)
            },
{
    archive_breadcrumb(storage, layout, bc)
}

/// Return the archive base path.
pub fn base(layout: &Layout) -> (r: String)
    ensures
        r@ == completed_in(layout@),
{
    archive_base(layout)
}

/// The breadcrumb `id` as it was archived on `day`.
pub open spec fn archived_on(
    completed: Map<Seq<char>, DirView>,
    id: Seq<char>,
    day: int,
) -> Option<BreadcrumbView> {
    if valid_day(day) {
        match reading(day_files(completed, date_writing(day as i32)), id) {
            Ok(bc) => Some(bc),
            Err(_) => None,
        }
    } else {
        None
    }
}

/// The breadcrumb `id` as it was archived last, from the day `today` back to `days_back` days
/// earlier, together with the date of that day. The search starts `from` days back.
pub open spec fn archived_since(
    completed: Map<Seq<char>, DirView>,
    id: Seq<char>,
    today: int,
    from: nat,
    days_back: nat,
) -> Option<(BreadcrumbView, Seq<char>)>
    decreases days_back + 1 - from,
{
    if from > days_back {
        None
    } else {
        match archived_on(completed, id, today - from) {
            Some(bc) => Some((bc, date_writing((today - from) as i32))),
            None => archived_since(completed, id, today, from + 1, days_back),
        }
    }
}

/// Search the completed breadcrumbs for `id`, from `today` back to `days_back` days earlier. Returns
/// the breadcrumb and the date under which it is archived.
pub fn find_archived(completed: &Table<Dir>, id: &str, today: i32, days_back: u32) -> (r: Option<
    (Breadcrumb, String),
>)
    requires
        valid_day(today as int),
    ensures
        r is Some <==> archived_since(completed@, id@, today as int, 0, days_back as nat) is Some,
        r matches Some((bc, date)) ==> archived_since(
            completed@,
            id@,
            today as int,
            0,
            days_back as nat,
        ) == Some((bc@, date@)),
{
    let mut back: u32 = 0;
    while back <= days_back
        invariant
            valid_day(today as int),
            back <= days_back + 1,
            archived_since(completed@, id@, today as int, 0, days_back as nat) == archived_since(
                completed@,
                id@,
                today as int,
                back as nat,
                days_back as nat,
            ),
        decreases days_back + 1 - back,
    {
        let day: i64 = today as i64 - back as i64;
        if day < -95_746_129 {
            proof {
                nothing_before_the_first_day(
                    completed@,
                    id@,
                    today as int,
                    back as nat,
                    days_back as nat,
                );
            }
            return None;
        }
        let date = day_name(day as i32);
        let found: Option<&Dir> = completed.get(date.as_str());
        match found {
            Some(files) => match read_breadcrumb(files, id) {
                Ok(bc) => {
                    return Some((bc, date));
                },
                Err(_) => {},
            },
            None => {},
        }
        if back == u32::MAX {
            return None;
        }
        back += 1;
    }
    None
}

proof fn nothing_before_the_first_day(
    completed: Map<Seq<char>, DirView>,
    id: Seq<char>,
    today: int,
    from: nat,
    days_back: nat,
)
    requires
        today - from < -95_746_129,
    ensures
        archived_since(completed, id, today, from, days_back) is None,
    decreases days_back + 1 - from,
{
    if from <= days_back {
        nothing_before_the_first_day(completed, id, today, from + 1, days_back);
    }
}

}
