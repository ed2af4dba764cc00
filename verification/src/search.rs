//! Searching for torrents and usenet posts: result accessors, sorting and grouping of
//! results, the search type and sort controls, and what a search asks the service for.

use vstd::prelude::*;
use crate::table::{
    key_view, same_positions,
    sorted_stably, stable_sort_positions, text_order, compare_text, lemma_sorted_key_first,
    lemma_text_order_facts,
};
use crate::text::{
    chars_of, lowercase_of, push_str, starts_with_seq, str_starts_with, string_from_chars, to_lowercase, trim,
    trim_seq,
};

verus! {

/// Where to search.
#[derive(Clone, Copy, Debug, PartialEq, Eq, Structural)]
pub enum SearchType {
    Torrents,
    Usenet,
    Both,
    IMDB,
}

/// What the service could read out of a release title.
pub struct TitleParsedData {
    pub title: Option<String>,
}

/// A torrent found by a search.
pub struct SearchTorrent {
    pub title: String,
    pub size: u64,
    pub hash: String,
    pub magnet: Option<String>,
    pub title_parsed_data: Option<TitleParsedData>,
    pub last_known_seeders: Option<i32>,
}

/// A usenet post found by a search.
pub struct SearchUsenet {
    pub title: String,
    pub size: u64,
    pub hash: String,
    pub magnet: Option<String>,
    pub nzb: Option<String>,
    pub title_parsed_data: Option<TitleParsedData>,
}

/// A search result.
pub enum SearchResultItem {
    Torrent(SearchTorrent),
    Usenet(SearchUsenet),
}

/// The parsed title where the service read one, else the raw title.
pub open spec fn parsed_or(data: Option<TitleParsedData>, title: String) -> Seq<char> {
    match data {
        Some(d) => match d.title {
            Some(t) => t@,
            None => title@,
        },
        None => title@,
    }
}

impl SearchResultItem {
    /// The raw title.
    pub open spec fn title_view(self) -> Seq<char> {
        match self {
            SearchResultItem::Torrent(t) => t.title@,
            SearchResultItem::Usenet(u) => u.title@,
        }
    }

    /// The size in bytes.
    pub open spec fn size_view(self) -> u64 {
        match self {
            SearchResultItem::Torrent(t) => t.size,
            SearchResultItem::Usenet(u) => u.size,
        }
    }

    /// The title results are grouped under.
    pub open spec fn parsed_title_view(self) -> Seq<char> {
        match self {
            SearchResultItem::Torrent(t) => parsed_or(t.title_parsed_data, t.title),
            SearchResultItem::Usenet(u) => parsed_or(u.title_parsed_data, u.title),
        }
    }

    /// Seeders last seen for a torrent; -1 when unknown or for a usenet post.
    pub open spec fn seeders_view(self) -> i32 {
        match self {
            SearchResultItem::Torrent(t) => match t.last_known_seeders {
                Some(n) => n,
                None => -1i32,
            },
            SearchResultItem::Usenet(_) => -1i32,
        }
    }

    /// The raw title.
    pub fn title(&self) -> (r: String)
        ensures
            r@ == self.title_view(),
    {
        match self {
            SearchResultItem::Torrent(t) => t.title.clone(),
            SearchResultItem::Usenet(u) => u.title.clone(),
        }
    }

    /// The size in bytes.
    pub fn size(&self) -> (r: u64)
        ensures
            r == self.size_view(),
    {
        match self {
            SearchResultItem::Torrent(t) => t.size,
            SearchResultItem::Usenet(u) => u.size,
        }
    }

    /// The info hash.
    pub fn hash(&self) -> (r: String)
        ensures
            r@ == match self {
                SearchResultItem::Torrent(t) => t.hash@,
                SearchResultItem::Usenet(u) => u.hash@,
            },
    {
        match self {
            SearchResultItem::Torrent(t) => t.hash.clone(),
            SearchResultItem::Usenet(u) => u.hash.clone(),
        }
    }

    /// Whether the result is a torrent.
    pub fn is_torrent(&self) -> (r: bool)
        ensures
            r == (self is Torrent),
    {
        match self {
            SearchResultItem::Torrent(_) => true,
            SearchResultItem::Usenet(_) => false,
        }
    }

    /// Whether the result is a usenet post.
    pub fn is_usenet(&self) -> (r: bool)
        ensures
            r == (self is Usenet),
    {
        match self {
            SearchResultItem::Torrent(_) => false,
            SearchResultItem::Usenet(_) => true,
        }
    }

    /// The magnet link, if any.
    pub fn magnet(&self) -> (r: Option<String>)
        ensures
            r == match self {
                SearchResultItem::Torrent(t) => t.magnet,
                SearchResultItem::Usenet(u) => u.magnet,
            },
    {
        match self {
            SearchResultItem::Torrent(t) => t.magnet.clone(),
            SearchResultItem::Usenet(u) => u.magnet.clone(),
        }
    }

    /// The NZB link of a usenet post; none for a torrent.
    pub fn nzb(&self) -> (r: Option<String>)
        ensures
            r == match self {
                SearchResultItem::Torrent(_) => None,
                SearchResultItem::Usenet(u) => u.nzb,
            },
    {
        match self {
            SearchResultItem::Torrent(_) => None,
            SearchResultItem::Usenet(u) => u.nzb.clone(),
        }
    }

    /// The title read out of the release name, else the raw title.
    pub fn parsed_title(&self) -> (r: String)
        ensures
            r@ == self.parsed_title_view(),
    {
        let (data, title) = match self {
            SearchResultItem::Torrent(t) => (&t.title_parsed_data, &t.title),
            SearchResultItem::Usenet(u) => (&u.title_parsed_data, &u.title),
        };
        match data {
            Some(d) => match &d.title {
                Some(t) => t.clone(),
                None => title.clone(),
            },
            None => title.clone(),
        }
    }
}


/// What search results can be sorted by.
#[derive(Clone, Copy, Debug, PartialEq, Eq, Structural)]
pub enum SortField {
    Title,
    Size,
    Seeders,
    Date,
}

/// Sort direction.
#[derive(Clone, Copy, Debug, PartialEq, Eq, Structural)]
pub enum SortDirection {
    Asc,
    Desc,
}

/// The key a result sorts by: its title; its size; its seeders (-1 when unknown); the
/// date field sorts by title as well.
pub open spec fn result_key(item: SearchResultItem, field: SortField) -> (int, Seq<char>) {
    match field {
        SortField::Title => (0, item.title_view()),
        SortField::Size => (item.size_view() as int, Seq::empty()),
        SortField::Seeders => (item.seeders_view() as int, Seq::empty()),
        SortField::Date => (0, item.title_view()),
    }
}

/// The sort keys of all results.
pub open spec fn result_keys(results: Seq<SearchResultItem>, field: SortField) -> Seq<(int, Seq<char>)> {
    results.map_values(|item: SearchResultItem| result_key(item, field))
}

/// All positions `0..n`, in order.
pub open spec fn all_positions(n: nat) -> Seq<usize> {
    Seq::new(n, |i: int| i as usize)
}

fn result_key_value(item: &SearchResultItem, field: SortField) -> (r: (i128, Vec<char>))
    ensures
        key_view(r) == result_key(*item, field),
{
    match field {
        SortField::Title | SortField::Date => {
            let t = item.title();
            (0, chars_of(t.as_str()))
        },
        SortField::Size => (item.size() as i128, Vec::new()),
        SortField::Seeders => {
            let n: i32 = match item {
                SearchResultItem::Torrent(t) => match t.last_known_seeders {
                    Some(n) => n,
                    None => -1,
                },
                SearchResultItem::Usenet(_) => -1,
            };
            (n as i128, Vec::new())
        },
    }
}

/// The results in display order, as positions: stably sorted by the field, descending
/// for `Desc`.
pub fn sort_results(results: &[SearchResultItem], field: SortField, direction: SortDirection) -> (r: Vec<usize>)
    ensures
        same_positions(r@, all_positions(results@.len())),
        sorted_stably(result_keys(results@, field), r@, direction == SortDirection::Desc),
{
    let mut keys: Vec<(i128, Vec<char>)> = Vec::new();
    let mut positions: Vec<usize> = Vec::new();
    let mut i: usize = 0;
    while i < results.len()
        invariant
            i <= results@.len(),
            keys@.len() == i,
            positions@ == all_positions(i as nat),
            forall|j: int| 0 <= j < i ==> key_view(#[trigger] keys@[j]) == result_key(results@[j], field),
        decreases results@.len() - i,
    {
        keys.push(result_key_value(&results[i], field));
        positions.push(i);
        i = i + 1;
        assert(positions@ =~= all_positions(i as nat));
    }
    assert(keys@.map_values(|k: (i128, Vec<char>)| key_view(k)) =~= result_keys(results@, field));
    stable_sort_positions(&keys, &positions, direction == SortDirection::Desc)
}

/// Sorting by title orders results by their raw titles (not the titles they are
/// grouped under): a result whose raw title comes first as text is listed first, last
/// when descending.
pub proof fn lemma_title_sort_by_raw_title(
    results: Seq<SearchResultItem>,
    out: Seq<usize>,
    descending: bool,
    i: int,
    j: int,
)
    requires
        sorted_stably(result_keys(results, SortField::Title), out, descending),
        0 <= i < out.len(),
        0 <= j < out.len(),
        out[i] < results.len(),
        out[j] < results.len(),
        text_order(results[out[i] as int].title_view(), results[out[j] as int].title_view()) < 0,
    ensures
        if descending {
            j < i
        } else {
            i < j
        },
{
    let keys = result_keys(results, SortField::Title);
    assert(keys[out[i] as int] == result_key(results[out[i] as int], SortField::Title));
    assert(keys[out[j] as int] == result_key(results[out[j] as int], SortField::Title));
    lemma_sorted_key_first(keys, out, descending, i, j);
}

/// Sorting by size or by seeders orders results by that number, smaller first (a
/// result without a seeder count, or a usenet post, counts as -1); descending reverses.
pub proof fn lemma_number_sorts(
    results: Seq<SearchResultItem>,
    field: SortField,
    out: Seq<usize>,
    descending: bool,
    i: int,
    j: int,
)
    requires
        sorted_stably(result_keys(results, field), out, descending),
        0 <= i < out.len(),
        0 <= j < out.len(),
        out[i] < results.len(),
        out[j] < results.len(),
        ({
            let a = results[out[i] as int];
            let b = results[out[j] as int];
            ||| field == SortField::Size && a.size_view() < b.size_view()
            ||| field == SortField::Seeders && a.seeders_view() < b.seeders_view()
        }),
    ensures
        if descending {
            j < i
        } else {
            i < j
        },
{
    let keys = result_keys(results, field);
    assert(keys[out[i] as int] == result_key(results[out[i] as int], field));
    assert(keys[out[j] as int] == result_key(results[out[j] as int], field));
    lemma_sorted_key_first(keys, out, descending, i, j);
}

/// Results shown under one title.
pub struct ResultGroup {
    pub title: String,
    pub members: Vec<usize>,
}

/// The key a result is grouped by: its parsed title in lower case.
pub open spec fn group_key(results: Seq<SearchResultItem>, p: usize) -> Seq<char> {
    lowercase_of(results[p as int].parsed_title_view())
}

/// The positions of `order`, in order, whose group key is `k`.
pub open spec fn members_with_key(results: Seq<SearchResultItem>, order: Seq<usize>, k: Seq<char>) -> Seq<usize>
    decreases order.len(),
{
    if order.len() == 0 {
        Seq::empty()
    } else {
        let rest = members_with_key(results, order.drop_last(), k);
        if group_key(results, order.last()) == k {
            rest.push(order.last())
        } else {
            rest
        }
    }
}

/// The view of a group: its title and its members.
pub open spec fn group_view(g: ResultGroup) -> (Seq<char>, Seq<usize>) {
    (g.title@, g.members@)
}

/// The views of a list of groups.
pub open spec fn group_views(gs: Seq<ResultGroup>) -> Seq<(Seq<char>, Seq<usize>)> {
    gs.map_values(|g: ResultGroup| group_view(g))
}

/// A group holds, in their order, the results of `order` with the group's key, and is
/// titled by the parsed title of the first of them.
pub open spec fn group_ok(results: Seq<SearchResultItem>, order: Seq<usize>, group: (Seq<char>, Seq<usize>)) -> bool {
    &&& group.1.len() > 0
    &&& group.1 == members_with_key(results, order, group_key(results, group.1[0]))
    &&& group.0 == results[group.1[0] as int].parsed_title_view()
}

/// `groups` groups the results of `order` by key: one group per key, holding the
/// results with that key in their order and titled by the parsed title of the first of
/// them, and groups ordered by key.
pub open spec fn grouped_by_title(results: Seq<SearchResultItem>, order: Seq<usize>, groups: Seq<(Seq<char>, Seq<usize>)>) -> bool {
    &&& forall|g: int| 0 <= g < groups.len() ==> group_ok(results, order, #[trigger] groups[g])
    &&& forall|g: int, h: int|
        0 <= g < h < groups.len() ==> text_order(
            group_key(results, (#[trigger] groups[g]).1[0]),
            group_key(results, (#[trigger] groups[h]).1[0]),
        ) < 0
    &&& forall|i: int| 0 <= i < order.len() ==> #[trigger] has_group_for(results, groups, order[i])
}

/// Some group has the key of the result at position `p`.
pub open spec fn has_group_for(
    results: Seq<SearchResultItem>,
    groups: Seq<(Seq<char>, Seq<usize>)>,
    p: usize,
) -> bool {
    exists|g: int|
        0 <= g < groups.len() && group_key(results, (#[trigger] groups[g]).1[0]) == group_key(
            results,
            p,
        )
}


proof fn lemma_members_step(results: Seq<SearchResultItem>, s: Seq<usize>, p: usize, k: Seq<char>)
    ensures
        members_with_key(results, s.push(p), k) == if group_key(results, p) == k {
            members_with_key(results, s, k).push(p)
        } else {
            members_with_key(results, s, k)
        },
{
    assert(s.push(p).drop_last() =~= s);
}

proof fn lemma_members_witness(results: Seq<SearchResultItem>, s: Seq<usize>, k: Seq<char>)
    requires
        members_with_key(results, s, k).len() > 0,
    ensures
        exists|j: int| 0 <= j < s.len() && group_key(results, #[trigger] s[j]) == k,
    decreases s.len(),
{
    if group_key(results, s.last()) != k {
        lemma_members_witness(results, s.drop_last(), k);
        let j = choose|j: int|
            0 <= j < s.drop_last().len() && group_key(results, #[trigger] s.drop_last()[j]) == k;
        assert(s[j] == s.drop_last()[j]);
    } else {
        assert(group_key(results, s[s.len() - 1]) == k);
    }
}

/// A group being built: its title and members so far.
struct GroupDraft {
    title: String,
    members: Vec<usize>,
}

/// The drafts hold the results of `done` grouped by key, in order of first appearance.
spec fn drafts_ok(
    results: Seq<SearchResultItem>,
    done: Seq<usize>,
    drafts: Seq<GroupDraft>,
    keys: Seq<(i128, Vec<char>)>,
) -> bool {
    &&& drafts.len() == keys.len()
    &&& forall|g: int| 0 <= g < keys.len() ==> (#[trigger] keys[g]).0 == 0
    &&& forall|g: int|
        0 <= g < drafts.len() ==> {
            &&& (#[trigger] drafts[g]).members@.len() > 0
            &&& drafts[g].members@ == members_with_key(results, done, keys[g].1@)
            &&& keys[g].1@ == group_key(results, drafts[g].members@[0])
            &&& drafts[g].title@ == results[drafts[g].members@[0] as int].parsed_title_view()
        }
    &&& forall|g: int, h: int|
        0 <= g < h < keys.len() ==> (#[trigger] keys[g]).1@ != (#[trigger] keys[h]).1@
    &&& forall|x: int|
        0 <= x < done.len() ==> exists|g: int|
            0 <= g < keys.len() && (#[trigger] keys[g]).1@ == group_key(results, #[trigger] done[x])
}

fn find_key(keys: &Vec<(i128, Vec<char>)>, key: &Vec<char>) -> (r: Option<usize>)
    ensures
        match r {
            Some(g) => g < keys@.len() && keys@[g as int].1@ == key@,
            None => forall|g: int| 0 <= g < keys@.len() ==> (#[trigger] keys@[g]).1@ != key@,
        },
{
    let mut g: usize = 0;
    while g < keys.len()
        invariant
            g <= keys@.len(),
            forall|h: int| 0 <= h < g ==> (#[trigger] keys@[h]).1@ != key@,
        decreases keys@.len() - g,
    {
        let c = compare_text(&keys[g].1, key);
        proof {
            lemma_text_order_facts(keys@[g as int].1@, key@);
        }
        if c == 0 {
            return Some(g);
        }
        g = g + 1;
    }
    None
}

fn copy_positions(v: &Vec<usize>) -> (r: Vec<usize>)
    ensures
        r@ == v@,
{
    let mut r: Vec<usize> = Vec::new();
    let mut i: usize = 0;
    while i < v.len()
        invariant
            i <= v@.len(),
            r@ == v@.take(i as int),
        decreases v@.len() - i,
    {
        r.push(v[i]);
        i = i + 1;
        assert(r@ =~= v@.take(i as int));
    }
    assert(v@.take(i as int) =~= v@);
    r
}

/// Groups results shown in the given order by parsed title, ignoring case: one group
/// per title, holding its results in the given order and titled by the parsed title of
/// the first of them; groups ordered by the lower-case title.
pub fn group_results(results: &[SearchResultItem], order: &Vec<usize>) -> (r: Vec<ResultGroup>)
    requires
        forall|i: int| 0 <= i < order@.len() ==> order@[i] < results@.len(),
    ensures
        grouped_by_title(results@, order@, group_views(r@)),
{
    let mut drafts: Vec<GroupDraft> = Vec::new();
    let mut keys: Vec<(i128, Vec<char>)> = Vec::new();
    let mut i: usize = 0;
    while i < order.len()
        invariant
            i <= order@.len(),
            forall|x: int| 0 <= x < order@.len() ==> order@[x] < results@.len(),
            drafts_ok(results@, order@.take(i as int), drafts@, keys@),
        decreases order@.len() - i,
    {
        let p = order[i];
        let ghost done = order@.take(i as int);
        let ghost next = order@.take(i + 1);
        assert(next =~= done.push(p));
        let title = results[p].parsed_title();
        let lower = to_lowercase(title.as_str());
        let key = chars_of(lower.as_str());
        assert(key@ == group_key(results@, p));
        match find_key(&keys, &key) {
            Some(f) => {
                let ghost old_drafts = drafts@;
                proof {
                    lemma_members_step(results@, done, p, keys@[f as int].1@);
                }
                let mut d = drafts.remove(f);
                d.members.push(p);
                drafts.insert(f, d);
                assert forall|g: int| 0 <= g < drafts@.len() implies {
                    &&& (#[trigger] drafts@[g]).members@.len() > 0
                    &&& drafts@[g].members@ == members_with_key(results@, next, keys@[g].1@)
                    &&& keys@[g].1@ == group_key(results@, drafts@[g].members@[0])
                    &&& drafts@[g].title@ == results@[drafts@[g].members@[0] as int].parsed_title_view()
                } by {
                    lemma_members_step(results@, done, p, keys@[g].1@);
                    if g != f {
                        assert(drafts@[g] == old_drafts[g]);
                        assert(keys@[g].1@ != keys@[f as int].1@);
                    }
                }
                assert forall|x: int| 0 <= x < next.len() implies exists|g: int|
                    0 <= g < keys@.len() && (#[trigger] keys@[g]).1@ == group_key(
                        results@,
                        #[trigger] next[x],
                    ) by {
                    if x < done.len() {
                        assert(next[x] == done[x]);
                    } else {
                        assert(keys@[f as int].1@ == group_key(results@, next[x]));
                    }
                }
            },
            None => {
                proof {
                    lemma_members_step(results@, done, p, key@);
                    if members_with_key(results@, done, key@).len() > 0 {
                        lemma_members_witness(results@, done, key@);
                        let j = choose|j: int|
                            0 <= j < done.len() && group_key(results@, #[trigger] done[j]) == key@;
                        let g = choose|g: int|
                            0 <= g < keys@.len() && (#[trigger] keys@[g]).1@ == group_key(
                                results@,
                                done[j],
                            );
                        assert(keys@[g].1@ != key@);
                    }
                }
                let ghost old_drafts = drafts@;
                let ghost old_keys = keys@;
                let mut members: Vec<usize> = Vec::new();
                members.push(p);
                drafts.push(GroupDraft { title, members });
                keys.push((0, key));
                assert forall|g: int| 0 <= g < drafts@.len() implies {
                    &&& (#[trigger] drafts@[g]).members@.len() > 0
                    &&& drafts@[g].members@ == members_with_key(results@, next, keys@[g].1@)
                    &&& keys@[g].1@ == group_key(results@, drafts@[g].members@[0])
                    &&& drafts@[g].title@ == results@[drafts@[g].members@[0] as int].parsed_title_view()
                } by {
                    lemma_members_step(results@, done, p, keys@[g].1@);
                    if g < old_drafts.len() {
                        assert(drafts@[g] == old_drafts[g]);
                        assert(keys@[g] == old_keys[g]);
                    } else {
                        assert(drafts@[g].members@ =~= seq![p]);
                        assert(members_with_key(results@, done, key@) =~= Seq::<usize>::empty());
                    }
                }
                assert forall|g: int, h: int| 0 <= g < h < keys@.len() implies (
                #[trigger] keys@[g]).1@ != (#[trigger] keys@[h]).1@ by {
                    if h < old_keys.len() {
                        assert(keys@[g] == old_keys[g]);
                        assert(keys@[h] == old_keys[h]);
                    } else {
                        assert(keys@[g] == old_keys[g]);
                    }
                }
                assert forall|x: int| 0 <= x < next.len() implies exists|g: int|
                    0 <= g < keys@.len() && (#[trigger] keys@[g]).1@ == group_key(
                        results@,
                        #[trigger] next[x],
                    ) by {
                    if x < done.len() {
                        assert(next[x] == done[x]);
                        let g = choose|g: int|
                            0 <= g < old_keys.len() && (#[trigger] old_keys[g]).1@ == group_key(
                                results@,
                                done[x],
                            );
                        assert(keys@[g] == old_keys[g]);
                    } else {
                        assert(keys@[old_keys.len() as int].1@ == group_key(results@, next[x]));
                    }
                }
                assert forall|g: int| 0 <= g < keys@.len() implies (#[trigger] keys@[g]).0 == 0 by {
                    if g < old_keys.len() {
                        assert(keys@[g] == old_keys[g]);
                    }
                }
            },
        }
        i = i + 1;
    }
    assert(order@.take(i as int) =~= order@);
    let n = keys.len();
    let mut positions: Vec<usize> = Vec::new();
    let mut q: usize = 0;
    while q < n
        invariant
            q <= n,
            n == keys@.len(),
            positions@ == all_positions(q as nat),
        decreases n - q,
    {
        positions.push(q);
        q = q + 1;
        assert(positions@ =~= all_positions(q as nat));
    }
    let sorted = stable_sort_positions(&keys, &positions, false);
    let ghost kv = keys@.map_values(|k: (i128, Vec<char>)| key_view(k));
    let mut out: Vec<ResultGroup> = Vec::new();
    let mut j: usize = 0;
    while j < sorted.len()
        invariant
            j <= sorted@.len(),
            sorted@.len() == n,
            n == keys@.len(),
            drafts_ok(results@, order@, drafts@, keys@),
            same_positions(sorted@, all_positions(n as nat)),
            out@.len() == j,
            forall|m: int|
                0 <= m < j ==> (#[trigger] out@[m]).title@ == drafts@[sorted@[m] as int].title@
                    && out@[m].members@ == drafts@[sorted@[m] as int].members@,
        decreases sorted@.len() - j,
    {
        let q = sorted[j];
        assert(sorted@.contains(q));
        assert(q < n);
        let g = ResultGroup { title: drafts[q].title.clone(), members: copy_positions(&drafts[q].members) };
        out.push(g);
        j = j + 1;
    }
    proof {
        let gv = group_views(out@);
        assert forall|g: int| 0 <= g < gv.len() implies group_ok(results@, order@, #[trigger] gv[g]) by {
            let q = sorted@[g] as int;
            assert(sorted@.contains(sorted@[g]));
            assert(drafts@[q].members@.len() > 0);
        }
        assert forall|g: int, h: int| 0 <= g < h < gv.len() implies text_order(
            group_key(results@, (#[trigger] gv[g]).1[0]),
            group_key(results@, (#[trigger] gv[h]).1[0]),
        ) < 0 by {
            let a = sorted@[g] as int;
            let b = sorted@[h] as int;
            assert(sorted@.contains(sorted@[g]));
            assert(sorted@.contains(sorted@[h]));
            assert(drafts@[a].members@.len() > 0);
            assert(drafts@[b].members@.len() > 0);
            let c = crate::table::directed_order(kv[a], kv[b], false);
            assert(c <= 0 && (c == 0 ==> sorted@[g] < sorted@[h]));
            assert(a != b);
            lemma_text_order_facts(keys@[a].1@, keys@[b].1@);
            if a < b {
                assert(keys@[a].1@ != keys@[b].1@);
            } else {
                assert(keys@[b].1@ != keys@[a].1@);
            }
        }
        assert forall|i: int| 0 <= i < order@.len() implies #[trigger] has_group_for(
            results@,
            gv,
            order@[i],
        ) by {
            let d = choose|d: int|
                0 <= d < keys@.len() && (#[trigger] keys@[d]).1@ == group_key(results@, order@[i]);
            assert(all_positions(n as nat).contains(d as usize)) by {
                assert(all_positions(n as nat)[d] == d as usize);
            }
            assert(sorted@.contains(d as usize));
            let g = choose|g: int| 0 <= g < sorted@.len() && sorted@[g] == d as usize;
            assert(gv[g].1 == drafts@[d].members@);
        }
        assert(grouped_by_title(results@, order@, gv));
    }
    out
}

/// The set with `k` removed when present, added when absent.
pub open spec fn keys_toggled(s: Set<Seq<char>>, k: Seq<char>) -> Set<Seq<char>> {
    if s.contains(k) {
        s.remove(k)
    } else {
        s.insert(k)
    }
}

/// Unfolding and then folding a group, or the other way round, leaves the unfolded
/// groups as they were.
pub proof fn lemma_group_toggle_twice(s: Set<Seq<char>>, k: Seq<char>)
    ensures
        keys_toggled(keys_toggled(s, k), k) == s,
{
    assert(keys_toggled(keys_toggled(s, k), k) =~= s);
}

/// The groups the user has unfolded, by title in lower case.
pub struct ExpandedGroups {
    titles: Vec<String>,
}

impl ExpandedGroups {
    /// No title is listed twice.
    #[verifier::type_invariant]
    spec fn distinct_titles(self) -> bool {
        forall|a: int, b: int|
            0 <= a < b < self.titles@.len() ==> (#[trigger] self.titles@[a])@ != (
            #[trigger] self.titles@[b])@
    }

    /// The unfolded group keys.
    pub closed spec fn view(&self) -> Set<Seq<char>> {
        Set::new(|t: Seq<char>| exists|i: int| 0 <= i < self.titles@.len() && (#[trigger] self.titles@[i])@ == t)
    }

    /// Nothing unfolded.
    pub fn new() -> (r: ExpandedGroups)
        ensures
            r.view() == Set::<Seq<char>>::empty(),
    {
        let r = ExpandedGroups { titles: Vec::new() };
        assert(r.view() =~= Set::<Seq<char>>::empty());
        r
    }

    fn position_of(&self, key: &str) -> (r: Option<usize>)
        ensures
            match r {
                Some(i) => i < self.titles@.len() && self.titles@[i as int]@ == key@,
                None => !self.view().contains(key@),
            },
    {
        let mut i: usize = 0;
        while i < self.titles.len()
            invariant
                i <= self.titles@.len(),
                forall|j: int| 0 <= j < i ==> (#[trigger] self.titles@[j])@ != key@,
            decreases self.titles@.len() - i,
        {
            if crate::text::str_eq(self.titles[i].as_str(), key) {
                return Some(i);
            }
            i = i + 1;
        }
        None
    }

    /// Whether the group with this title is unfolded (titles compared in lower case).
    pub fn is_expanded(&self, title: &str) -> (r: bool)
        ensures
            r == self.view().contains(lowercase_of(title@)),
    {
        let key = to_lowercase(title);
        let found = self.position_of(key.as_str());
        found.is_some()
    }

    /// Unfolds a folded group, folds an unfolded one.
    pub fn toggle(&mut self, title: &str)
        ensures
            final(self).view() == keys_toggled(old(self).view(), lowercase_of(title@)),
    {
        proof {
            use_type_invariant(&*self);
        }
        let key = to_lowercase(title);
        let ghost k = key@;
        match self.position_of(key.as_str()) {
            Some(i) => {
                let ghost before = self.titles@;
                let mut titles: Vec<String> = Vec::new();
                std::mem::swap(&mut titles, &mut self.titles);
                titles.remove(i);
                proof {
                    assert forall|a: int, b: int| 0 <= a < b < titles@.len() implies (
                    #[trigger] titles@[a])@ != (#[trigger] titles@[b])@ by {
                        let a0 = if a < i { a } else { a + 1 };
                        let b0 = if b < i { b } else { b + 1 };
                        assert(titles@[a] == before[a0]);
                        assert(titles@[b] == before[b0]);
                    }
                }
                self.titles = titles;
                assert(self.view() =~= old(self).view().remove(k)) by {
                    assert forall|t: Seq<char>| #[trigger] self.view().contains(t) <==> old(self).view().remove(k).contains(t) by {
                        if self.view().contains(t) {
                            let j = choose|j: int| 0 <= j < self.titles@.len() && (#[trigger] self.titles@[j])@ == t;
                            let j0 = if j < i { j } else { j + 1 };
                            assert(self.titles@[j] == before[j0]);
                            assert(j0 != i);
                        }
                        if old(self).view().remove(k).contains(t) {
                            let j = choose|j: int| 0 <= j < before.len() && (#[trigger] before[j])@ == t;
                            assert(j != i);
                            let j1 = if j < i { j } else { j - 1 };
                            assert(self.titles@[j1] == before[j]);
                        }
                    }
                }
            },
            None => {
                let ghost before = self.titles@;
                let mut titles: Vec<String> = Vec::new();
                std::mem::swap(&mut titles, &mut self.titles);
                titles.push(key);
                proof {
                    assert forall|a: int, b: int| 0 <= a < b < titles@.len() implies (
                    #[trigger] titles@[a])@ != (#[trigger] titles@[b])@ by {
                        if b == before.len() {
                            assert(titles@[a] == before[a]);
                        } else {
                            assert(titles@[a] == before[a]);
                            assert(titles@[b] == before[b]);
                        }
                    }
                }
                self.titles = titles;
                assert(self.view() =~= old(self).view().insert(k)) by {
                    assert forall|t: Seq<char>| #[trigger] self.view().contains(t) <==> old(self).view().insert(k).contains(t) by {
                        if self.view().contains(t) {
                            let j = choose|j: int| 0 <= j < self.titles@.len() && (#[trigger] self.titles@[j])@ == t;
                            if j < before.len() {
                                assert(self.titles@[j] == before[j]);
                            }
                        }
                        if old(self).view().contains(t) {
                            let j = choose|j: int| 0 <= j < before.len() && (#[trigger] before[j])@ == t;
                            assert(self.titles@[j] == before[j]);
                        }
                        if t == k {
                            assert(self.titles@[before.len() as int]@ == k);
                        }
                    }
                }
            },
        }
    }

    /// Folds every group (on a new or cleared search).
    pub fn clear(&mut self)
        ensures
            final(self).view() == Set::<Seq<char>>::empty(),
    {
        self.titles = Vec::new();
        assert(self.view() =~= Set::<Seq<char>>::empty());
    }
}

/// The sort after a click on a column header: the same field flips the direction;
/// another field sorts by it ascending.
pub open spec fn next_sort(field: SortField, direction: SortDirection, clicked: SortField) -> (SortField, SortDirection) {
    if field == clicked {
        (
            field,
            match direction {
                SortDirection::Asc => SortDirection::Desc,
                SortDirection::Desc => SortDirection::Asc,
            },
        )
    } else {
        (clicked, SortDirection::Asc)
    }
}

/// Two clicks on the header of the column sorted by bring back the sort there was.
pub proof fn lemma_toggle_sort_twice(field: SortField, direction: SortDirection)
    ensures
        ({
            let once = next_sort(field, direction, field);
            next_sort(once.0, once.1, field) == (field, direction)
        }),
{
}

/// The sort after a click on a column header.
pub fn toggle_sort(field: SortField, direction: SortDirection, clicked: SortField) -> (r: (SortField, SortDirection))
    ensures
        r == next_sort(field, direction, clicked),
{
    if field == clicked {
        let d = match direction {
            SortDirection::Asc => SortDirection::Desc,
            SortDirection::Desc => SortDirection::Asc,
        };
        (field, d)
    } else {
        (clicked, SortDirection::Asc)
    }
}

/// The search type a stored preference names; anything unknown means torrents.
pub open spec fn search_type_named(s: Seq<char>) -> SearchType {
    if s == "usenet"@ {
        SearchType::Usenet
    } else if s == "both"@ {
        SearchType::Both
    } else if s == "imdb"@ {
        SearchType::IMDB
    } else {
        SearchType::Torrents
    }
}

/// The search type a stored preference names.
pub fn search_type_from_preference(s: &str) -> (r: SearchType)
    ensures
        r == search_type_named(s@),
{
    if crate::text::str_eq(s, "usenet") {
        SearchType::Usenet
    } else if crate::text::str_eq(s, "both") {
        SearchType::Both
    } else if crate::text::str_eq(s, "imdb") {
        SearchType::IMDB
    } else {
        SearchType::Torrents
    }
}

/// The stored name of a search type.
pub open spec fn search_type_name(t: SearchType) -> Seq<char> {
    match t {
        SearchType::Torrents => "torrents"@,
        SearchType::Usenet => "usenet"@,
        SearchType::Both => "both"@,
        SearchType::IMDB => "imdb"@,
    }
}

/// The stored name of a search type.
pub fn search_type_preference(t: SearchType) -> (r: &'static str)
    ensures
        r@ == search_type_name(t),
{
    match t {
        SearchType::Torrents => "torrents",
        SearchType::Usenet => "usenet",
        SearchType::Both => "both",
        SearchType::IMDB => "imdb",
    }
}

/// The search type allowed by the plan: usenet searches need the pro plan, so without
/// it usenet and combined searches fall back to torrents.
pub open spec fn allowed_search_type(t: SearchType, has_pro_plan: bool) -> SearchType {
    if !has_pro_plan && (t == SearchType::Usenet || t == SearchType::Both) {
        SearchType::Torrents
    } else {
        t
    }
}

/// The search type allowed by the plan.
pub fn restrict_search_type(t: SearchType, has_pro_plan: bool) -> (r: SearchType)
    ensures
        r == allowed_search_type(t, has_pro_plan),
{
    if !has_pro_plan && (t == SearchType::Usenet || t == SearchType::Both) {
        SearchType::Torrents
    } else {
        t
    }
}

/// Custom indexers need the pro plan.
pub fn restrict_custom_indexers(use_custom: bool, has_pro_plan: bool) -> (r: bool)
    ensures
        r == (use_custom && has_pro_plan),
{
    use_custom && has_pro_plan
}

/// The placeholder of the search box.
pub open spec fn placeholder_text(t: SearchType, use_custom: bool, has_pro_plan: bool) -> Seq<char> {
    if use_custom && has_pro_plan {
        "Search custom indexers"@
    } else {
        match t {
            SearchType::Torrents => "Search torrents"@,
            SearchType::Usenet => "Search usenet"@,
            SearchType::Both => "Search torrents and usenet"@,
            SearchType::IMDB => "Enter IMDB ID (e.g., tt5151761)"@,
        }
    }
}

/// The placeholder of the search box.
pub fn search_placeholder(t: SearchType, use_custom: bool, has_pro_plan: bool) -> (r: &'static str)
    ensures
        r@ == placeholder_text(t, use_custom, has_pro_plan),
{
    if use_custom && has_pro_plan {
        "Search custom indexers"
    } else {
        match t {
            SearchType::Torrents => "Search torrents",
            SearchType::Usenet => "Search usenet",
            SearchType::Both => "Search torrents and usenet",
            SearchType::IMDB => "Enter IMDB ID (e.g., tt5151761)",
        }
    }
}

/// What a search asks the service for.
pub enum SearchRequest {
    /// The query is blank: results are cleared and nothing is asked.
    Clear,
    /// The query is refused before asking, with this message.
    Refused(String),
    /// Torrents (and, when `usenet`, usenet posts) for an IMDB id.
    Imdb { id: String, usenet: bool },
    /// A text search: torrents and/or usenet, with or without the user's own indexers.
    Text { query: String, torrents: bool, usenet: bool, custom_engines: bool },
}

/// The request a search makes. A blank query clears the results. An IMDB search
/// needs an id starting with `tt` and asks for usenet posts only on the pro plan. With
/// custom indexers on the pro plan both kinds are searched with the user's own engines;
/// otherwise torrents, usenet (refused without the pro plan) or both (usenet only on the
/// pro plan) are searched with the service's engines.
pub open spec fn search_request_spec(query: Seq<char>, t: SearchType, use_custom: bool, has_pro_plan: bool) -> (
    Option<Seq<char>>,
    Option<Seq<char>>,
    bool,
    bool,
    bool,
) {
    let trimmed = trim_seq(query);
    if trimmed.len() == 0 {
        (None, None, false, false, false)
    } else if t == SearchType::IMDB {
        if !starts_with_seq(trimmed, "tt"@) {
            (Some("IMDB ID must start with 'tt' (e.g., tt5151761)"@), None, false, false, false)
        } else {
            (None, Some(trimmed), true, has_pro_plan, false)
        }
    } else if use_custom && has_pro_plan {
        (None, Some(query), true, true, true)
    } else if t == SearchType::Torrents {
        (None, Some(query), true, false, false)
    } else if t == SearchType::Usenet {
        if !has_pro_plan {
            (Some("Usenet search requires Pro plan"@), None, false, false, false)
        } else {
            (None, Some(query), false, true, false)
        }
    } else {
        (None, Some(query), true, has_pro_plan, false)
    }
}

/// The view of a request: (refusal message, id or query, torrents, usenet, own engines).
pub open spec fn request_view(r: SearchRequest) -> (Option<Seq<char>>, Option<Seq<char>>, bool, bool, bool) {
    match r {
        SearchRequest::Clear => (None, None, false, false, false),
        SearchRequest::Refused(m) => (Some(m@), None, false, false, false),
        SearchRequest::Imdb { id, usenet } => (None, Some(id@), true, usenet, false),
        SearchRequest::Text { query, torrents, usenet, custom_engines } => (
            None,
            Some(query@),
            torrents,
            usenet,
            custom_engines,
        ),
    }
}

/// The request a search makes.
pub fn plan_search(query: &str, t: SearchType, use_custom: bool, has_pro_plan: bool) -> (r: SearchRequest)
    ensures
        request_view(r) == search_request_spec(query@, t, use_custom, has_pro_plan),
        r is Clear <==> trim_seq(query@).len() == 0,
        r is Imdb <==> (t == SearchType::IMDB && trim_seq(query@).len() > 0 && starts_with_seq(
            trim_seq(query@),
            "tt"@,
        )),
        r is Text <==> (trim_seq(query@).len() > 0 && t != SearchType::IMDB && !(t
            == SearchType::Usenet && !has_pro_plan)),
{
    let trimmed = trim(query);
    if trimmed.as_str().is_empty() {
        return SearchRequest::Clear;
    }
    match t {
        SearchType::IMDB => {
            if !str_starts_with(trimmed.as_str(), "tt") {
                SearchRequest::Refused(String::from_str("IMDB ID must start with 'tt' (e.g., tt5151761)"))
            } else {
                SearchRequest::Imdb { id: trimmed, usenet: has_pro_plan }
            }
        },
        _ => {
            if use_custom && has_pro_plan {
                SearchRequest::Text {
                    query: String::from_str(query),
                    torrents: true,
                    usenet: true,
                    custom_engines: true,
                }
            } else {
                match t {
                    SearchType::Usenet => {
                        if !has_pro_plan {
                            SearchRequest::Refused(String::from_str("Usenet search requires Pro plan"))
                        } else {
                            SearchRequest::Text {
                                query: String::from_str(query),
                                torrents: false,
                                usenet: true,
                                custom_engines: false,
                            }
                        }
                    },
                    SearchType::Both => SearchRequest::Text {
                        query: String::from_str(query),
                        torrents: true,
                        usenet: has_pro_plan,
                        custom_engines: false,
                    },
                    _ => SearchRequest::Text {
                        query: String::from_str(query),
                        torrents: true,
                        usenet: false,
                        custom_engines: false,
                    },
                }
            }
        },
    }
}

/// The result count shown: the service's total where it reported one, else the number
/// of results received (as `i32`, wrapping as `as` does).
pub fn shown_result_count(service_total: i32, received: usize) -> (r: i32)
    ensures
        r == if service_total > 0 {
            service_total
        } else {
            received as i32
        },
{
    if service_total > 0 {
        service_total
    } else {
        received as i32
    }
}

/// Records a failed part of a search: the torrent part's failure replaces any earlier
/// message (`keep_earlier` false); the usenet part's failure is kept only when nothing
/// failed before (`keep_earlier` true).
pub fn note_search_failure(error: &mut Option<String>, message: String, keep_earlier: bool)
    ensures
        *final(error) == if keep_earlier && old(error).is_some() {
            *old(error)
        } else {
            Some(message)
        },
{
    if keep_earlier && error.is_some() {
        return;
    }
    *error = Some(message);
}

/// Where a failed part of a search was sent: the IMDB lookup, the custom indexers, or
/// the service's own search.
#[derive(Clone, Copy, Debug, PartialEq, Eq, Structural)]
pub enum SearchSource {
    Imdb,
    CustomIndexers,
    Service,
}

/// The opening of the message for a failed part of a search (the torrent part, or the
/// usenet part when `usenet`), before the service's own words.
pub open spec fn failure_prefix(source: SearchSource, usenet: bool) -> Seq<char> {
    match source {
        SearchSource::Imdb => if usenet {
            "IMDB usenet search failed: "@
        } else {
            "IMDB torrent search failed: "@
        },
        SearchSource::CustomIndexers => if usenet {
            "Custom indexer usenet search failed: "@
        } else {
            "Custom indexer torrent search failed: "@
        },
        SearchSource::Service => if usenet {
            "Usenet search failed: "@
        } else {
            "Torrent search failed: "@
        },
    }
}

/// The message for a failed part of a search, ending with the service's own words.
pub fn search_failure_message(source: SearchSource, usenet: bool, detail: &str) -> (r: String)
    ensures
        r@ == failure_prefix(source, usenet) + detail@,
{
    let prefix = match source {
        SearchSource::Imdb => if usenet {
            "IMDB usenet search failed: "
        } else {
            "IMDB torrent search failed: "
        },
        SearchSource::CustomIndexers => if usenet {
            "Custom indexer usenet search failed: "
        } else {
            "Custom indexer torrent search failed: "
        },
        SearchSource::Service => if usenet {
            "Usenet search failed: "
        } else {
            "Torrent search failed: "
        },
    };
    let mut out = chars_of(prefix);
    push_str(&mut out, detail);
    string_from_chars(&out)
}

/// What adding a result to the downloads sends: a torrent's magnet link or a usenet
/// post's NZB link, named by the result's title; nothing when the link is missing.
pub enum AddRequest {
    Torrent { magnet: String, name: String },
    Usenet { link: String, name: String },
}

/// What adding a result to the downloads sends.
pub fn add_request_for(item: SearchResultItem) -> (r: Option<AddRequest>)
    ensures
        match item {
            SearchResultItem::Torrent(t) => match t.magnet {
                Some(m) => r matches Some(AddRequest::Torrent { magnet, name }) && magnet == m
                    && name == t.title,
                None => r is None,
            },
            SearchResultItem::Usenet(u) => match u.nzb {
                Some(n) => r matches Some(AddRequest::Usenet { link, name }) && link == n && name
                    == u.title,
                None => r is None,
            },
        },
{
    match item {
        SearchResultItem::Torrent(t) => match t.magnet {
            Some(m) => Some(AddRequest::Torrent { magnet: m, name: t.title }),
            None => None,
        },
        SearchResultItem::Usenet(u) => match u.nzb {
            Some(n) => Some(AddRequest::Usenet { link: n, name: u.title }),
            None => None,
        },
    }
}

} // verus!
