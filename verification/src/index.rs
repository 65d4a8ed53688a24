//! The active index: one entry for each active breadcrumb, under its identifier.

use vstd::prelude::*;

use crate::error::{BreadcrumbError, ErrorView};
use crate::schema::{EntryView, IndexEntry};
use crate::table::Table;

verus! {

pub type Index = Table<IndexEntry>;

pub type IndexView = Map<Seq<char>, EntryView>;

/// The project that a breadcrumb is filed under: `_ungrouped` where none was given.
pub open spec fn project_or_ungrouped(project_id: Option<Seq<char>>) -> Seq<char> {
    match project_id {
        Some(p) => p,
        None => "_ungrouped"@,
    }
}

/// The breadcrumb that an operation works on, and its project: the one named, if it is active;
/// else the only active one.
pub open spec fn resolved(index: IndexView, id: Option<Seq<char>>) -> Result<
    (Seq<char>, Seq<char>),
    ErrorView,
> {
    match id {
        Some(id) => if index.contains_key(id) {
            Ok((id, project_or_ungrouped(index[id].project_id)))
        } else {
            Err(ErrorView::NotFound { id })
        },
        None => if index.len() == 0 {
            Err(ErrorView::NoActive)
        } else if index.len() == 1 {
            let id = index.dom().choose();
            Ok((id, project_or_ungrouped(index[id].project_id)))
        } else {
            Err(ErrorView::Ambiguous { count: index.len() })
        },
    }
}

/// The project that a breadcrumb is filed under.
pub fn project_name(project_id: &Option<String>) -> (r: String)
    ensures
        r@ == project_or_ungrouped(project_id.deep_view()),
{
    match project_id {
        Some(p) => p.clone(),
        None => "_ungrouped".to_owned(),
    }
}

/// Resolve which breadcrumb to operate on, and its project.
/// If `breadcrumb_id` is None, requires exactly 1 active; else ambiguity error.
pub fn resolve(index: &Index, breadcrumb_id: Option<&str>) -> (r: Result<
    (String, String),
    BreadcrumbError,
>)
    ensures
        match resolved(index@, breadcrumb_id.deep_view()) {
            Ok((id, pid)) => r matches Ok(p) && p.0@ == id && p.1@ == pid,
            Err(e) => r matches Err(x) && x@ == e,
        },
{
    match breadcrumb_id {
        Some(id) => match index.get(id) {
            Some(entry) => Ok((id.to_owned(), project_name(&entry.project_id))),
            None => Err(BreadcrumbError::NotFound { id: id.to_owned() }),
        },
        None => {
            let count = index.len();
            if count == 0 {
                Err(BreadcrumbError::NoActive)
            } else if count == 1 {
                proof {
                    let k = index.keys()[0];
                    assert(index.keys().contains(k));
                    let names = index@.dom();
                    assert(names.contains(k));
                    assert(names.remove(k).len() == 0);
                    assert(names.remove(k) =~= Set::<Seq<char>>::empty());
                    if names.choose() != k {
                        assert(names.remove(k).contains(names.choose()));
                    }
                }
                Ok((index.key_at(0).clone(), project_name(&index.value_at(0).project_id)))
            } else {
                Err(BreadcrumbError::Ambiguous { count })
            }
        },
    }
}

/// Put an entry into the index, under its identifier.
pub fn index_upsert(index: &mut Index, entry: IndexEntry)
    ensures
        final(index)@ == old(index)@.insert(entry@.id, entry@),
{
    index.insert(entry.id.clone(), entry);
}

/// Take an entry out of the index.
pub fn index_remove(index: &mut Index, id: &str)
    ensures
        final(index)@ == old(index)@.remove(id@),
{
    let _removed = index.remove(id);
}

}
