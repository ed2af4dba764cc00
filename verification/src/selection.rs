//! Which downloads, and which files of downloads, the user has selected.

use vstd::prelude::*;
use vstd::std_specs::iter::IteratorSpec;
use std::collections::{HashMap, HashSet};
use crate::download::DownloadItem;

verus! {

/// The selected downloads, by id, and the selected files, by download id and file id.
pub struct SelectionState {
    pub selected_items: HashSet<i32>,
    pub selected_files: HashMap<i32, HashSet<i32>>,
}

/// Adds `x` to `s` when absent, removes it when present.
pub open spec fn toggled(s: Set<i32>, x: i32) -> Set<i32> {
    if s.contains(x) {
        s.remove(x)
    } else {
        s.insert(x)
    }
}

/// The file selection with `file` added under `item`.
pub open spec fn files_with(m: Map<i32, Set<i32>>, item: i32, file: i32) -> Map<i32, Set<i32>> {
    if m.contains_key(item) {
        m.insert(item, m[item].insert(file))
    } else {
        m.insert(item, Set::empty().insert(file))
    }
}

/// The file selection with `file` removed under `item`; an item left without files
/// is dropped.
pub open spec fn files_without(m: Map<i32, Set<i32>>, item: i32, file: i32) -> Map<i32, Set<i32>> {
    if m.contains_key(item) {
        if m[item].remove(file).is_empty() {
            m.remove(item)
        } else {
            m.insert(item, m[item].remove(file))
        }
    } else {
        m
    }
}

/// The file selection with `file` under `item` toggled.
pub open spec fn files_toggled(m: Map<i32, Set<i32>>, item: i32, file: i32) -> Map<i32, Set<i32>> {
    if m.contains_key(item) && m[item].contains(file) {
        files_without(m, item, file)
    } else {
        files_with(m, item, file)
    }
}

/// The number of selected files: the sizes of the per-download file sets, added up.
pub open spec fn files_total(m: Map<i32, Set<i32>>) -> int {
    m.dom().fold(0int, |acc: int, k: i32| acc + m[k].len())
}

/// The ids of a list of downloads.
pub open spec fn item_ids(items: Seq<DownloadItem>) -> Set<i32> {
    Set::new(|id: i32| exists|i: int| 0 <= i < items.len() && (#[trigger] items[i]).id == id)
}

/// No download is kept with an empty file set.
pub open spec fn no_empty_file_sets(m: Map<i32, Set<i32>>) -> bool {
    forall|k: i32| #[trigger] m.contains_key(k) ==> !m[k].is_empty()
}

impl SelectionState {
    /// The selected download ids.
    pub open spec fn items(&self) -> Set<i32> {
        self.selected_items@
    }

    /// The selected file ids, per download id.
    pub open spec fn files(&self) -> Map<i32, Set<i32>> {
        self.selected_files@.map_values(|s: HashSet<i32>| s@)
    }

    /// A selection with nothing selected.
    pub fn new() -> (r: Self)
        ensures
            r.items() == Set::<i32>::empty(),
            r.files() == Map::<i32, Set<i32>>::empty(),
    {
        let r = SelectionState { selected_items: HashSet::new(), selected_files: HashMap::new() };
        assert(r.files() =~= Map::<i32, Set<i32>>::empty());
        r
    }

    /// Whether any download is selected.
    pub fn has_selected_items(&self) -> (r: bool)
        ensures
            r == !self.items().is_empty(),
    {
        !self.selected_items.is_empty()
    }

    /// Whether any file is selected (a download kept with an empty file set counts
    /// for nothing).
    pub fn has_selected_files(&self) -> (r: bool)
        ensures
            r == exists|k: i32| #[trigger] self.files().contains_key(k) && !self.files()[k].is_empty(),
    {
        let ghost m = self.files();
        let ghost ks = vstd::std_specs::hash::spec_keys_iter(&self.selected_files).remaining();
        for k in it: self.selected_files.keys()
            invariant
                m == self.files(),
                it.seq() == ks,
                ks.unref().to_set() == self.selected_files@.dom(),
                forall|j: int| 0 <= j < it.index() ==> (#[trigger] m[*it.seq()[j]]).is_empty(),
        {
            let files = self.selected_files.get(k).unwrap();
            if !files.is_empty() {
                assert(m.contains_key(*k));
                return true;
            }
        }
        assert forall|k: i32| #[trigger] m.contains_key(k) implies m[k].is_empty() by {
            assert(ks.unref().to_set().contains(k));
            let j = choose|j: int| 0 <= j < ks.len() && ks.unref()[j] == k;
            assert(*ks[j] == k);
        }
        false
    }

    /// The number of selected downloads plus the number of selected files. The total
    /// must fit in a `usize`.
    pub fn get_total_selected_count(&self) -> (r: usize)
        requires
            self.items().len() + files_total(self.files()) <= usize::MAX,
        ensures
            r == self.items().len() + files_total(self.files()),
    {
        let ghost m = self.files();
        let ghost ks = vstd::std_specs::hash::spec_keys_iter(&self.selected_files).remaining();
        let ghost f = |acc: int, k: i32| acc + m[k].len();
        let mut sum: usize = 0;
        proof {
            lemma_sum_fold_commutes(m);
            assert(ks.unref().take(0) =~= Seq::<i32>::empty());
            assert(Seq::<i32>::empty().to_set() =~= Set::<i32>::empty());
            vstd::set::fold::lemma_fold_empty(0int, f);
            vstd::seq_lib::seq_to_set_is_finite(ks.unref());
            assert(m.dom() =~= self.selected_files@.dom());
        }
        for k in it: self.selected_files.keys()
            invariant
                m == self.files(),
                it.seq() == ks,
                ks.unref().to_set() == self.selected_files@.dom(),
                ks.no_duplicates(),
                vstd::set::fold::is_fun_commutative(f),
                f == (|acc: int, k: i32| acc + m[k].len()),
                sum == ks.unref().take(it.index() as int).to_set().fold(0int, f),
                self.items().len() + files_total(m) <= usize::MAX,
                ks.unref().to_set().finite(),
                m.dom() == self.selected_files@.dom(),
        {
            let ghost done = ks.unref().take(it.index() as int);
            let ghost next = ks.unref().take(it.index() + 1);
            let files = self.selected_files.get(k).unwrap();
            let n = files.len();
            proof {
                assert(next =~= done.push(*k));
                assert(!done.contains(*k)) by {
                    if done.contains(*k) {
                        let j = choose|j: int| 0 <= j < done.len() && done[j] == *k;
                        assert(ks[j] == ks[it.index() as int]);
                    }
                }
                done.lemma_push_to_set_commute(*k);
                assert(next.to_set() =~= done.to_set().insert(*k));
                vstd::set::fold::lemma_fold_insert(done.to_set(), 0int, f, *k);
                assert(n == m[*k].len());
                assert(next.to_set().subset_of(m.dom())) by {
                    assert forall|x: i32| next.to_set().contains(x) implies m.dom().contains(x) by {
                        let j = choose|j: int| 0 <= j < next.len() && next[j] == x;
                        assert(ks.unref().to_set().contains(ks.unref()[j]));
                    }
                }
                lemma_fold_subset(m, next.to_set(), m.dom());
            }
            sum = sum + n;
        }
        proof {
            assert(ks.unref().take(ks.len() as int) =~= ks.unref());
            assert(sum == files_total(m));
        }
        self.selected_items.len() + sum
    }

    /// Deselects everything.
    pub fn clear(&mut self)
        ensures
            final(self).items() == Set::<i32>::empty(),
            final(self).files() == Map::<i32, Set<i32>>::empty(),
    {
        self.selected_items.clear();
        self.selected_files.clear();
        assert(self.files() =~= Map::<i32, Set<i32>>::empty());
    }

    /// Selects a download.
    pub fn select_item(&mut self, item_id: i32)
        ensures
            final(self).items() == old(self).items().insert(item_id),
            final(self).files() == old(self).files(),
    {
        self.selected_items.insert(item_id);
    }

    /// Deselects a download.
    pub fn deselect_item(&mut self, item_id: i32)
        ensures
            final(self).items() == old(self).items().remove(item_id),
            final(self).files() == old(self).files(),
    {
        self.selected_items.remove(&item_id);
    }

    /// Selects a download that is not selected, deselects one that is.
    pub fn toggle_item(&mut self, item_id: i32)
        ensures
            final(self).items() == toggled(old(self).items(), item_id),
            final(self).files() == old(self).files(),
    {
        if self.selected_items.contains(&item_id) {
            self.selected_items.remove(&item_id);
        } else {
            self.selected_items.insert(item_id);
        }
    }

    /// Whether a download is selected.
    pub fn is_item_selected(&self, item_id: i32) -> (r: bool)
        ensures
            r == self.items().contains(item_id),
    {
        self.selected_items.contains(&item_id)
    }

    /// Selects a file of a download.
    pub fn select_file(&mut self, item_id: i32, file_id: i32)
        ensures
            final(self).items() == old(self).items(),
            final(self).files() == files_with(old(self).files(), item_id, file_id),
    {
        let ghost m = self.files();
        let files = match self.selected_files.remove(&item_id) {
            Some(mut files) => {
                files.insert(file_id);
                files
            },
            None => {
                let mut files: HashSet<i32> = HashSet::new();
                files.insert(file_id);
                files
            },
        };
        self.selected_files.insert(item_id, files);
        assert(self.files() =~= files_with(m, item_id, file_id));
    }

    /// Deselects a file of a download; a download left without selected files is
    /// dropped from the file selection.
    pub fn deselect_file(&mut self, item_id: i32, file_id: i32)
        ensures
            final(self).items() == old(self).items(),
            final(self).files() == files_without(old(self).files(), item_id, file_id),
    {
        let ghost m = self.files();
        match self.selected_files.remove(&item_id) {
            Some(mut files) => {
                files.remove(&file_id);
                if !files.is_empty() {
                    self.selected_files.insert(item_id, files);
                }
            },
            None => {},
        }
        assert(self.files() =~= files_without(m, item_id, file_id));
    }

    /// Selects a file that is not selected, deselects one that is; a download left
    /// without selected files is dropped from the file selection.
    pub fn toggle_file(&mut self, item_id: i32, file_id: i32)
        ensures
            final(self).items() == old(self).items(),
            final(self).files() == files_toggled(old(self).files(), item_id, file_id),
    {
        let ghost m = self.files();
        match self.selected_files.remove(&item_id) {
            Some(mut files) => {
                if files.contains(&file_id) {
                    files.remove(&file_id);
                    if !files.is_empty() {
                        self.selected_files.insert(item_id, files);
                    }
                } else {
                    files.insert(file_id);
                    self.selected_files.insert(item_id, files);
                }
            },
            None => {
                let mut files: HashSet<i32> = HashSet::new();
                files.insert(file_id);
                self.selected_files.insert(item_id, files);
            },
        }
        assert(self.files() =~= files_toggled(m, item_id, file_id));
    }

    /// Whether a file of a download is selected.
    pub fn is_file_selected(&self, item_id: i32, file_id: i32) -> (r: bool)
        ensures
            r == (self.files().contains_key(item_id) && self.files()[item_id].contains(file_id)),
    {
        match self.selected_files.get(&item_id) {
            Some(files) => files.contains(&file_id),
            None => false,
        }
    }

    /// Selects exactly the given downloads.
    pub fn select_all_items(&mut self, items: &[DownloadItem])
        ensures
            final(self).items() == item_ids(items@),
            final(self).files() == old(self).files(),
    {
        self.selected_items.clear();
        let mut i: usize = 0;
        while i < items.len()
            invariant
                i <= items@.len(),
                self.files() == old(self).files(),
                self.items() == item_ids(items@.take(i as int)),
            decreases items@.len() - i,
        {
            let ghost before = self.items();
            self.selected_items.insert(items[i].id);
            assert(self.items() =~= item_ids(items@.take(i + 1))) by {
                assert forall|id: i32| item_ids(items@.take(i + 1)).contains(id) implies before.insert(
                    items@[i as int].id,
                ).contains(id) by {
                    let j = choose|j: int| 0 <= j < i + 1 && (#[trigger] items@.take(i + 1)[j]).id == id;
                    if j < i {
                        assert(items@.take(i as int)[j] == items@.take(i + 1)[j]);
                    }
                }
                assert forall|id: i32| before.insert(items@[i as int].id).contains(id) implies item_ids(
                    items@.take(i + 1),
                ).contains(id) by {
                    if id == items@[i as int].id {
                        assert(items@.take(i + 1)[i as int] == items@[i as int]);
                    } else {
                        let j = choose|j: int| 0 <= j < i && (#[trigger] items@.take(i as int)[j]).id == id;
                        assert(items@.take(i as int)[j] == items@.take(i + 1)[j]);
                    }
                }
            }
            i = i + 1;
        }
        assert(items@.take(i as int) =~= items@);
    }

    /// Deselects every download (selected files stay).
    pub fn deselect_all_items(&mut self)
        ensures
            final(self).items() == Set::<i32>::empty(),
            final(self).files() == old(self).files(),
    {
        self.selected_items.clear();
    }

    /// Deselects every download when as many downloads are selected as are listed;
    /// otherwise selects exactly the listed downloads.
    pub fn toggle_all_items(&mut self, items: &[DownloadItem])
        ensures
            final(self).items() == all_toggled(old(self).items(), items@),
            final(self).files() == old(self).files(),
    {
        if self.selected_items.len() == items.len() {
            self.selected_items.clear();
        } else {
            self.select_all_items(items);
        }
    }
}

/// The downloads selected after a toggle of the select-all box: none when as many are
/// selected as are listed, else exactly the listed ones.
pub open spec fn all_toggled(selected: Set<i32>, items: Seq<DownloadItem>) -> Set<i32> {
    if selected.len() == items.len() {
        Set::empty()
    } else {
        item_ids(items)
    }
}

/// No two listed downloads share an id.
pub open spec fn distinct_ids(items: Seq<DownloadItem>) -> bool {
    forall|a: int, b: int| 0 <= a < b < items.len() ==> (#[trigger] items[a]).id != (#[trigger] items[b]).id
}

proof fn lemma_item_ids_len(items: Seq<DownloadItem>)
    requires
        distinct_ids(items),
    ensures
        item_ids(items).finite(),
        item_ids(items).len() == items.len(),
    decreases items.len(),
{
    if items.len() == 0 {
        assert(item_ids(items) =~= Set::<i32>::empty());
    } else {
        let prev = items.drop_last();
        assert(distinct_ids(prev)) by {
            assert forall|a: int, b: int| 0 <= a < b < prev.len() implies (#[trigger] prev[a]).id != (
            #[trigger] prev[b]).id by {
                assert(prev[a] == items[a]);
                assert(prev[b] == items[b]);
            }
        }
        lemma_item_ids_len(prev);
        let last = items.last().id;
        assert(!item_ids(prev).contains(last)) by {
            if item_ids(prev).contains(last) {
                let j = choose|j: int| 0 <= j < prev.len() && (#[trigger] prev[j]).id == last;
                assert(prev[j] == items[j]);
                assert(items[j].id != items[items.len() - 1].id);
            }
        }
        assert(item_ids(items) =~= item_ids(prev).insert(last)) by {
            assert forall|id: i32| item_ids(items).contains(id) implies item_ids(prev).insert(last).contains(id) by {
                let j = choose|j: int| 0 <= j < items.len() && (#[trigger] items[j]).id == id;
                if j < items.len() - 1 {
                    assert(prev[j] == items[j]);
                }
            }
            assert forall|id: i32| item_ids(prev).insert(last).contains(id) implies item_ids(items).contains(id) by {
                if id == last {
                    assert(items[items.len() - 1].id == id);
                } else {
                    let j = choose|j: int| 0 <= j < prev.len() && (#[trigger] prev[j]).id == id;
                    assert(prev[j] == items[j]);
                }
            }
        }
    }
}

/// Over a non-empty list of downloads with distinct ids, a toggle of the select-all box
/// from an empty selection selects every listed download, and a second toggle selects
/// none again.
pub proof fn lemma_toggle_all_twice(items: Seq<DownloadItem>)
    requires
        distinct_ids(items),
        items.len() > 0,
    ensures
        all_toggled(Set::empty(), items) == item_ids(items),
        all_toggled(all_toggled(Set::empty(), items), items) == Set::<i32>::empty(),
{
    lemma_item_ids_len(items);
}

/// The browser storage entry the selection is kept under between visits.
pub fn selection_storage_key() -> (r: &'static str)
    ensures
        r@ == "torbox_selection_state"@,
{
    "torbox_selection_state"
}

impl SelectionState {
    /// The selection a page starts with: the one read back from storage when there was
    /// one that could be read, else an empty one.
    pub fn from_stored(stored: Option<SelectionState>) -> (r: Self)
        ensures
            match stored {
                Some(s) => r == s,
                None => r.items() == Set::<i32>::empty() && r.files() == Map::<
                    i32,
                    Set<i32>,
                >::empty(),
            },
    {
        match stored {
            Some(s) => s,
            None => SelectionState::new(),
        }
    }
}

impl Default for SelectionState {
    fn default() -> (r: Self)
        ensures
            r.items() == Set::<i32>::empty(),
            r.files() == Map::<i32, Set<i32>>::empty(),
    {
        SelectionState::new()
    }
}

/// Adding up the file-set sizes of fewer downloads gives no more.
proof fn lemma_fold_subset(m: Map<i32, Set<i32>>, s: Set<i32>, t: Set<i32>)
    requires
        s.finite(),
        t.finite(),
        s.subset_of(t),
    ensures
        s.fold(0int, |acc: int, k: i32| acc + m[k].len()) <= t.fold(
            0int,
            |acc: int, k: i32| acc + m[k].len(),
        ),
    decreases t.len(),
{
    let f = |acc: int, k: i32| acc + m[k].len();
    lemma_sum_fold_commutes(m);
    if !(t =~= s) {
        let a = choose|a: i32| t.contains(a) && !s.contains(a);
        let t2 = t.remove(a);
        assert(t2.insert(a) =~= t);
        vstd::set::fold::lemma_fold_insert(t2, 0int, f, a);
        lemma_fold_subset(m, s, t2);
    }
}

/// Adding up file-set sizes does not depend on the order of the downloads.
proof fn lemma_sum_fold_commutes(m: Map<i32, Set<i32>>)
    ensures
        vstd::set::fold::is_fun_commutative(|acc: int, k: i32| acc + m[k].len()),
{
}


/// Whether `file` of `item` is selected in a file selection.
pub open spec fn file_selected(m: Map<i32, Set<i32>>, item: i32, file: i32) -> bool {
    m.contains_key(item) && m[item].contains(file)
}

/// Toggling a download twice leaves the download selection as it was.
pub proof fn lemma_toggle_item_twice(s: Set<i32>, item: i32)
    ensures
        toggled(toggled(s, item), item) == s,
{
    assert(toggled(toggled(s, item), item) =~= s);
}

/// Toggling a download flips whether it is selected and leaves every other download.
pub proof fn lemma_toggle_item_flips(s: Set<i32>, item: i32, other: i32)
    ensures
        toggled(s, item).contains(item) == !s.contains(item),
        other != item ==> toggled(s, item).contains(other) == s.contains(other),
{
}

/// Toggling a file flips whether it is selected and leaves every other file.
pub proof fn lemma_toggle_file_flips(m: Map<i32, Set<i32>>, item: i32, file: i32, other_item: i32, other_file: i32)
    ensures
        file_selected(files_toggled(m, item, file), item, file) == !file_selected(m, item, file),
        (other_item != item || other_file != file) ==> file_selected(
            files_toggled(m, item, file),
            other_item,
            other_file,
        ) == file_selected(m, other_item, other_file),
{
}

/// Toggling a file twice leaves the file selection as it was, provided no download is
/// kept with an empty file set (a selection restored from storage may hold one; then
/// toggling twice drops it).
pub proof fn lemma_toggle_file_twice(m: Map<i32, Set<i32>>, item: i32, file: i32)
    requires
        no_empty_file_sets(m),
    ensures
        files_toggled(files_toggled(m, item, file), item, file) == m,
{
    let once = files_toggled(m, item, file);
    let twice = files_toggled(once, item, file);
    if m.contains_key(item) && m[item].contains(file) {
        if m[item].remove(file).is_empty() {
            assert(m[item] =~= Set::empty().insert(file)) by {
                assert forall|x: i32| m[item].contains(x) implies x == file by {
                    if x != file {
                        assert(m[item].remove(file).contains(x));
                    }
                }
            }
        } else {
            assert(m[item].remove(file).insert(file) =~= m[item]);
        }
    } else if m.contains_key(item) {
        assert(m[item].insert(file).remove(file) =~= m[item]);
        assert(!m[item].is_empty());
    } else {
        assert(Set::<i32>::empty().insert(file).remove(file) =~= Set::<i32>::empty());
    }
    assert(twice =~= m);
}

/// Selecting, deselecting and toggling files never leave a download with an empty file
/// set behind when there was none.
pub proof fn lemma_file_operations_keep_no_empty_sets(m: Map<i32, Set<i32>>, item: i32, file: i32)
    requires
        no_empty_file_sets(m),
    ensures
        no_empty_file_sets(files_with(m, item, file)),
        no_empty_file_sets(files_without(m, item, file)),
        no_empty_file_sets(files_toggled(m, item, file)),
{
    assert(files_with(m, item, file)[item].contains(file));
}

/// After selecting a file it is selected; after deselecting it, it is not.
pub proof fn lemma_select_deselect_file(m: Map<i32, Set<i32>>, item: i32, file: i32)
    ensures
        file_selected(files_with(m, item, file), item, file),
        !file_selected(files_without(m, item, file), item, file),
{
}

/// A cleared selection counts nothing.
pub proof fn lemma_cleared_counts_nothing()
    ensures
        files_total(Map::<i32, Set<i32>>::empty()) == 0,
{
    let m = Map::<i32, Set<i32>>::empty();
    assert(m.dom() =~= Set::<i32>::empty());
    vstd::set::fold::lemma_fold_empty(0int, |acc: int, k: i32| acc + m[k].len());
}

} // verus!
