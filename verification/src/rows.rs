//! The state of the download rows on screen: which rows and file lists are unfolded,
//! which action menu is open, and how the select-all box and the bulk bar look.

use vstd::prelude::*;
use std::collections::HashSet;
use crate::download::DownloadItem;
use crate::selection::{toggled, SelectionState};

verus! {

/// Unfolds a folded row, folds an unfolded one.
pub fn toggle_expansion(expanded: &mut HashSet<i32>, id: i32)
    ensures
        final(expanded)@ == toggled(old(expanded)@, id),
{
    if expanded.contains(&id) {
        expanded.remove(&id);
    } else {
        expanded.insert(id);
    }
}

/// The ids of the downloads that have files.
pub open spec fn ids_with_files(rows: Seq<DownloadItem>) -> Set<i32> {
    Set::new(
        |id: i32|
            exists|i: int|
                0 <= i < rows.len() && (#[trigger] rows[i]).id == id && rows[i].files@.len() > 0,
    )
}

/// Whether any download has files (the unfold-all button is off otherwise).
pub fn has_files(rows: &[DownloadItem]) -> (r: bool)
    ensures
        r == exists|i: int| 0 <= i < rows@.len() && (#[trigger] rows@[i]).files@.len() > 0,
{
    let mut i: usize = 0;
    while i < rows.len()
        invariant
            i <= rows@.len(),
            forall|j: int| 0 <= j < i ==> (#[trigger] rows@[j]).files@.len() == 0,
        decreases rows@.len() - i,
    {
        if rows[i].files.len() > 0 {
            return true;
        }
        i = i + 1;
    }
    false
}

/// The ids of the downloads with files, in row order.
fn ids_with_files_list(rows: &[DownloadItem]) -> (r: Vec<i32>)
    ensures
        forall|id: i32|
            #![trigger r@.contains(id)]
            #![trigger ids_with_files(rows@).contains(id)]
            r@.contains(id) <==> ids_with_files(rows@).contains(id),
{
    let mut out: Vec<i32> = Vec::new();
    let mut i: usize = 0;
    while i < rows.len()
        invariant
            i <= rows@.len(),
            forall|id: i32|
                out@.contains(id) <==> exists|j: int|
                    0 <= j < i && (#[trigger] rows@[j]).id == id && rows@[j].files@.len() > 0,
        decreases rows@.len() - i,
    {
        if rows[i].files.len() > 0 {
            let ghost before = out@;
            out.push(rows[i].id);
            assert forall|id: i32| out@.contains(id) <==> exists|j: int|
                0 <= j < i + 1 && (#[trigger] rows@[j]).id == id && rows@[j].files@.len() > 0 by {
                if out@.contains(id) {
                    let k = choose|k: int| 0 <= k < out@.len() && out@[k] == id;
                    if k < before.len() {
                        assert(before.contains(id));
                    } else {
                        assert(rows@[i as int].id == id);
                    }
                }
                if exists|j: int|
                    0 <= j < i + 1 && (#[trigger] rows@[j]).id == id && rows@[j].files@.len() > 0 {
                    let j = choose|j: int|
                        0 <= j < i + 1 && (#[trigger] rows@[j]).id == id && rows@[j].files@.len()
                            > 0;
                    if j < i {
                        assert(before.contains(id));
                        let k = choose|k: int| 0 <= k < before.len() && before[k] == id;
                        assert(out@[k] == id);
                    } else {
                        assert(out@[before.len() as int] == id);
                    }
                }
            }
        } else {
            assert forall|id: i32| out@.contains(id) <==> exists|j: int|
                0 <= j < i + 1 && (#[trigger] rows@[j]).id == id && rows@[j].files@.len() > 0 by {
                if exists|j: int|
                    0 <= j < i + 1 && (#[trigger] rows@[j]).id == id && rows@[j].files@.len() > 0 {
                    let j = choose|j: int|
                        0 <= j < i + 1 && (#[trigger] rows@[j]).id == id && rows@[j].files@.len()
                            > 0;
                    assert(j < i);
                }
            }
        }
        i = i + 1;
    }
    out
}

/// Whether the file list of every download with files is unfolded.
pub fn all_files_expanded(rows: &[DownloadItem], expanded: &HashSet<i32>) -> (r: bool)
    ensures
        r == ids_with_files(rows@).subset_of(expanded@),
{
    let ids = ids_with_files_list(rows);
    let mut i: usize = 0;
    while i < ids.len()
        invariant
            i <= ids@.len(),
            forall|id: i32|
                #![trigger ids@.contains(id)]
                #![trigger ids_with_files(rows@).contains(id)]
                ids@.contains(id) <==> ids_with_files(rows@).contains(id),
            forall|j: int| 0 <= j < i ==> expanded@.contains(#[trigger] ids@[j]),
        decreases ids@.len() - i,
    {
        if !expanded.contains(&ids[i]) {
            assert(ids@.contains(ids@[i as int]));
            assert(ids_with_files(rows@).contains(ids@[i as int]));
            return false;
        }
        i = i + 1;
    }
    assert forall|id: i32| ids_with_files(rows@).contains(id) implies expanded@.contains(id) by {
        assert(ids@.contains(id));
        let k = choose|k: int| 0 <= k < ids@.len() && ids@[k] == id;
        assert(expanded@.contains(ids@[k]));
    }
    true
}

/// Unfolds the file lists of all downloads with files, or folds them all when they are
/// all unfolded already; rows without files are left as they are.
pub fn toggle_expand_all_files(expanded: &mut HashSet<i32>, rows: &[DownloadItem])
    ensures
        ids_with_files(rows@).subset_of(old(expanded)@) ==> final(expanded)@ == old(
            expanded,
        )@.difference(ids_with_files(rows@)),
        !ids_with_files(rows@).subset_of(old(expanded)@) ==> final(expanded)@ == old(
            expanded,
        )@.union(ids_with_files(rows@)),
        ids_with_files(rows@).subset_of(final(expanded)@) || ids_with_files(rows@).disjoint(
            final(expanded)@,
        ),
{
    let ids = ids_with_files_list(rows);
    let all = all_files_expanded(rows, expanded);
    let ghost start = expanded@;
    let mut i: usize = 0;
    while i < ids.len()
        invariant
            i <= ids@.len(),
            forall|id: i32| ids@.contains(id) <==> ids_with_files(rows@).contains(id),
            all ==> expanded@ == start.difference(ids@.take(i as int).to_set()),
            !all ==> expanded@ == start.union(ids@.take(i as int).to_set()),
        decreases ids@.len() - i,
    {
        let ghost before = ids@.take(i as int).to_set();
        assert(ids@.take(i + 1).to_set() =~= before.insert(ids@[i as int])) by {
            let a = ids@.take(i + 1);
            let b = ids@.take(i as int);
            assert(a =~= b.push(ids@[i as int]));
            assert forall|x: i32| a.contains(x) <==> b.contains(x) || x == ids@[i as int] by {
                if a.contains(x) {
                    let k = choose|k: int| 0 <= k < a.len() && a[k] == x;
                    if k < b.len() {
                        assert(b[k] == x);
                    }
                }
                if b.contains(x) {
                    let k = choose|k: int| 0 <= k < b.len() && b[k] == x;
                    assert(a[k] == x);
                }
                if x == ids@[i as int] {
                    assert(a[i as int] == x);
                }
            }
        }
        if all {
            expanded.remove(&ids[i]);
            assert(expanded@ =~= start.difference(ids@.take(i + 1).to_set()));
        } else {
            expanded.insert(ids[i]);
            assert(expanded@ =~= start.union(ids@.take(i + 1).to_set()));
        }
        i = i + 1;
    }
    assert(ids@.take(i as int) =~= ids@);
    assert(ids@.to_set() =~= ids_with_files(rows@));
}

/// The action menu that is open after a tap on a row's menu button: the tapped one,
/// or none when it was the open one.
pub open spec fn dropdown_after(open: Option<i32>, id: i32) -> Option<i32> {
    if open == Some(id) {
        None
    } else {
        Some(id)
    }
}

/// The action menu that is open after a tap on a row's menu button.
pub fn toggle_dropdown(open: Option<i32>, id: i32) -> (r: Option<i32>)
    ensures
        r == dropdown_after(open, id),
{
    match open {
        Some(x) => if x == id {
            None
        } else {
            Some(id)
        },
        None => Some(id),
    }
}

/// The select-all box is ticked when rows are shown and as many downloads are selected
/// as there are rows shown.
pub fn is_all_selected(state: &SelectionState, shown: usize) -> (r: bool)
    ensures
        r == (shown > 0 && state.items().len() == shown),
{
    shown > 0 && state.selected_items.len() == shown
}

/// The select-all box shows a dash when rows are shown and some, but fewer downloads
/// than rows shown, are selected.
pub fn is_partially_selected(state: &SelectionState, shown: usize) -> (r: bool)
    ensures
        r == (shown > 0 && !state.items().is_empty() && state.items().len() < shown),
{
    shown > 0 && !state.selected_items.is_empty() && state.selected_items.len() < shown
}

/// The bulk action bar shows while any download or any file is selected.
pub fn shows_bulk_actions(state: &SelectionState) -> (r: bool)
    ensures
        r == (!state.items().is_empty() || exists|k: i32|
            #[trigger] state.files().contains_key(k) && !state.files()[k].is_empty()),
{
    state.has_selected_items() || state.has_selected_files()
}

} // verus!
