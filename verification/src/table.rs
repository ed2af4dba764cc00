//! The downloads table: which rows the filters keep and in which order they are shown.

use vstd::prelude::*;
use crate::download::{DownloadItem, DownloadType};
use crate::status::{lemma_shown_names_distinct, get_status_priority, normalize_status, normalized_status, priority_of_name};
use crate::text::{
    all_ascii, ascii_lower, ascii_upper_char, chars_of, contains_seq, is_ascii_char, lowercase_of,
    occurs_at, str_eq, to_lowercase, uppercase_of_char,
};

verus! {

/// Lexicographic comparison of two texts by character code (how `str` orders): -1, 0 or 1.
pub open spec fn text_order(a: Seq<char>, b: Seq<char>) -> int
    decreases a.len(),
{
    if a.len() == 0 {
        if b.len() == 0 {
            0
        } else {
            -1
        }
    } else if b.len() == 0 {
        1
    } else if a[0] < b[0] {
        -1
    } else if a[0] > b[0] {
        1
    } else {
        text_order(a.drop_first(), b.drop_first())
    }
}

/// A sort key: a number compared first, then a text.
pub open spec fn key_order(a: (int, Seq<char>), b: (int, Seq<char>)) -> int {
    if a.0 < b.0 {
        -1
    } else if a.0 > b.0 {
        1
    } else {
        text_order(a.1, b.1)
    }
}

/// Key comparison in the chosen direction.
pub open spec fn directed_order(a: (int, Seq<char>), b: (int, Seq<char>), descending: bool) -> int {
    if descending {
        -key_order(a, b)
    } else {
        key_order(a, b)
    }
}

proof fn lemma_text_order_antisym(a: Seq<char>, b: Seq<char>)
    ensures
        text_order(a, b) == -text_order(b, a),
        -1 <= text_order(a, b) <= 1,
        text_order(a, b) == 0 ==> a == b,
    decreases a.len(),
{
    if a.len() > 0 && b.len() > 0 && a[0] == b[0] {
        lemma_text_order_antisym(a.drop_first(), b.drop_first());
        if text_order(a, b) == 0 {
            assert(a =~= seq![a[0]] + a.drop_first());
            assert(b =~= seq![b[0]] + b.drop_first());
        }
    }
}

/// Facts about text order used by callers: antisymmetry and that only equal texts tie.
pub proof fn lemma_text_order_facts(a: Seq<char>, b: Seq<char>)
    ensures
        text_order(a, b) == -text_order(b, a),
        -1 <= text_order(a, b) <= 1,
        text_order(a, b) == 0 <==> a == b,
{
    lemma_text_order_antisym(a, b);
    lemma_text_order_refl(a);
}

proof fn lemma_text_order_refl(a: Seq<char>)
    ensures
        text_order(a, a) == 0,
    decreases a.len(),
{
    if a.len() > 0 {
        lemma_text_order_refl(a.drop_first());
    }
}

proof fn lemma_text_order_trans(a: Seq<char>, b: Seq<char>, c: Seq<char>)
    requires
        text_order(a, b) <= 0,
        text_order(b, c) <= 0,
    ensures
        text_order(a, c) <= 0,
        text_order(a, b) < 0 || text_order(b, c) < 0 ==> text_order(a, c) < 0,
    decreases a.len(),
{
    if a.len() > 0 && b.len() > 0 && c.len() > 0 && a[0] == b[0] && b[0] == c[0] {
        lemma_text_order_trans(a.drop_first(), b.drop_first(), c.drop_first());
    }
}

/// Properties of the key order used when sorting: it is a total preorder.
pub proof fn lemma_key_order_is_total_preorder(a: (int, Seq<char>), b: (int, Seq<char>), c: (int, Seq<char>))
    ensures
        key_order(a, b) == -key_order(b, a),
        -1 <= key_order(a, b) <= 1,
        key_order(a, a) == 0,
        key_order(a, b) <= 0 && key_order(b, c) <= 0 ==> key_order(a, c) <= 0,
{
    lemma_text_order_antisym(a.1, b.1);
    lemma_text_order_refl(a.1);
    if key_order(a, b) <= 0 && key_order(b, c) <= 0 {
        if a.0 == b.0 && b.0 == c.0 {
            lemma_text_order_trans(a.1, b.1, c.1);
        }
    }
}

/// Lexicographic comparison of two texts: -1, 0 or 1.
pub fn compare_text(a: &Vec<char>, b: &Vec<char>) -> (r: i8)
    ensures
        r as int == text_order(a@, b@),
{
    let mut i: usize = 0;
    assert(a@.skip(0) =~= a@);
    assert(b@.skip(0) =~= b@);
    while i < a.len() && i < b.len()
        invariant
            i <= a@.len(),
            i <= b@.len(),
            text_order(a@, b@) == text_order(a@.skip(i as int), b@.skip(i as int)),
        decreases a@.len() - i,
    {
        if a[i] < b[i] {
            return -1;
        }
        if a[i] > b[i] {
            return 1;
        }
        assert(a@.skip(i as int).drop_first() =~= a@.skip(i + 1));
        assert(b@.skip(i as int).drop_first() =~= b@.skip(i + 1));
        i = i + 1;
    }
    if i < a.len() {
        1
    } else if i < b.len() {
        -1
    } else {
        0
    }
}


/// Key comparison in either direction is antisymmetric, reflexive and transitive.
pub proof fn lemma_directed_order(a: (int, Seq<char>), b: (int, Seq<char>), c: (int, Seq<char>), descending: bool)
    ensures
        directed_order(a, b, descending) == -directed_order(b, a, descending),
        directed_order(a, a, descending) == 0,
        directed_order(a, b, descending) <= 0 && directed_order(b, c, descending) <= 0
            ==> directed_order(a, c, descending) <= 0,
{
    lemma_key_order_is_total_preorder(a, b, c);
    lemma_key_order_is_total_preorder(c, b, a);
    lemma_key_order_is_total_preorder(b, c, a);
    lemma_key_order_is_total_preorder(a, c, b);
}

/// The view of a computed sort key.
pub open spec fn key_view(k: (i128, Vec<char>)) -> (int, Seq<char>) {
    (k.0 as int, k.1@)
}

/// `out` lists positions in key order; positions with equal keys keep their
/// numeric order (a stable sort of increasing positions).
pub open spec fn sorted_stably(keys: Seq<(int, Seq<char>)>, out: Seq<usize>, descending: bool) -> bool {
    forall|i: int, j: int|
        0 <= i < j < out.len() ==> {
            let c = #[trigger] directed_order(keys[out[i] as int], keys[out[j] as int], descending);
            c <= 0 && (c == 0 ==> out[i] < out[j])
        }
}

/// `out` holds exactly the positions of `input`, each once.
pub open spec fn same_positions(out: Seq<usize>, input: Seq<usize>) -> bool {
    &&& out.len() == input.len()
    &&& out.no_duplicates()
    &&& forall|x: usize| out.contains(x) <==> input.contains(x)
}

/// Positions strictly increasing.
pub open spec fn increasing(s: Seq<usize>) -> bool {
    forall|i: int, j: int| 0 <= i < j < s.len() ==> s[i] < s[j]
}

fn directed_compare(a: &(i128, Vec<char>), b: &(i128, Vec<char>), descending: bool) -> (r: i8)
    ensures
        r as int == directed_order(key_view(*a), key_view(*b), descending),
{
    let k: i8 = if a.0 < b.0 {
        -1
    } else if a.0 > b.0 {
        1
    } else {
        compare_text(&a.1, &b.1)
    };
    proof {
        lemma_text_order_antisym(a.1@, b.1@);
    }
    if descending {
        -k
    } else {
        k
    }
}

/// Stably sorts increasing positions by their keys, in the chosen direction.
pub fn stable_sort_positions(keys: &Vec<(i128, Vec<char>)>, input: &Vec<usize>, descending: bool) -> (out: Vec<usize>)
    requires
        increasing(input@),
        forall|i: int| 0 <= i < input@.len() ==> input@[i] < keys@.len(),
    ensures
        same_positions(out@, input@),
        sorted_stably(keys@.map_values(|k: (i128, Vec<char>)| key_view(k)), out@, descending),
{
    let ghost kv = keys@.map_values(|k: (i128, Vec<char>)| key_view(k));
    let mut out: Vec<usize> = Vec::new();
    let mut n: usize = 0;
    while n < input.len()
        invariant
            n <= input@.len(),
            increasing(input@),
            forall|i: int| 0 <= i < input@.len() ==> input@[i] < keys@.len(),
            kv == keys@.map_values(|k: (i128, Vec<char>)| key_view(k)),
            same_positions(out@, input@.take(n as int)),
            sorted_stably(kv, out@, descending),
            forall|i: int| 0 <= i < out@.len() ==> out@[i] < keys@.len(),
        decreases input@.len() - n,
    {
        let x = input[n];
        proof {
            assert forall|e: usize| out@.contains(e) implies e < x by {
                assert(input@.take(n as int).contains(e));
                let j = choose|j: int| 0 <= j < n && input@.take(n as int)[j] == e;
                assert(input@[j] == e);
            }
            assert forall|i: int| 0 <= i < out@.len() implies out@[i] < keys@.len() by {
                assert(out@.contains(out@[i]));
                assert(input@.take(n as int).contains(out@[i]));
            }
        }
        let mut pos: usize = out.len();
        while pos > 0 && directed_compare(&keys[out[pos - 1]], &keys[x], descending) > 0
            invariant
                pos <= out@.len(),
                x < keys@.len(),
                forall|i: int| 0 <= i < out@.len() ==> out@[i] < keys@.len(),
                kv == keys@.map_values(|k: (i128, Vec<char>)| key_view(k)),
                forall|t: int| pos <= t < out@.len() ==> #[trigger] directed_order(kv[out@[t] as int], kv[x as int], descending) > 0,
            decreases pos,
        {
            pos = pos - 1;
        }
        let ghost old_out = out@;
        out.insert(pos, x);
        proof {
            assert(out@ == old_out.insert(pos as int, x));
            assert(input@.take(n + 1) =~= input@.take(n as int).push(x));
            assert forall|e: usize| out@.contains(e) <==> input@.take(n + 1).contains(e) by {
                if out@.contains(e) {
                    let j = choose|j: int| 0 <= j < out@.len() && out@[j] == e;
                    if j != pos {
                        let oj = if j < pos { j } else { j - 1 };
                        assert(old_out[oj] == e);
                        assert(old_out.contains(e));
                        assert(input@.take(n as int).contains(e));
                        let k = choose|k: int| 0 <= k < n && input@.take(n as int)[k] == e;
                        assert(input@.take(n + 1)[k] == e);
                    } else {
                        assert(input@.take(n + 1)[n as int] == e);
                    }
                }
                if input@.take(n + 1).contains(e) {
                    if e == x {
                        assert(out@[pos as int] == x);
                    } else {
                        assert(input@.take(n as int).contains(e));
                        let j = choose|j: int| 0 <= j < old_out.len() && old_out[j] == e;
                        if j < pos {
                            assert(out@[j] == e);
                        } else {
                            assert(out@[j + 1] == e);
                        }
                    }
                }
            }
            assert(out@.no_duplicates()) by {
                assert forall|i: int, j: int| 0 <= i < j < out@.len() implies out@[i] != out@[j] by {
                    if i == pos {
                        assert(old_out.contains(out@[j]));
                    } else if j == pos {
                        assert(old_out.contains(out@[i]));
                    } else {
                        let oi = if i < pos { i } else { i - 1 };
                        let oj = if j < pos { j } else { j - 1 };
                        assert(old_out[oi] == out@[i] && old_out[oj] == out@[j]);
                    }
                }
            }
            assert forall|i: int, j: int| 0 <= i < j < out@.len() implies {
                let c = #[trigger] directed_order(kv[out@[i] as int], kv[out@[j] as int], descending);
                c <= 0 && (c == 0 ==> out@[i] < out@[j])
            } by {
                let ki = kv[out@[i] as int];
                let kj = kv[out@[j] as int];
                let kx = kv[x as int];
                if j == pos {
                    assert(out@[i] == old_out[i]);
                    let kp = kv[old_out[pos - 1] as int];
                    if i < pos - 1 {
                        assert(directed_order(kv[old_out[i] as int], kv[old_out[pos - 1] as int], descending) <= 0);
                    }
                    lemma_directed_order(ki, kp, kx, descending);
                    lemma_directed_order(ki, ki, ki, descending);
                    assert(old_out.contains(out@[i]));
                } else if i == pos {
                    assert(out@[j] == old_out[j - 1]);
                    assert(directed_order(kv[old_out[j - 1] as int], kx, descending) > 0);
                    lemma_directed_order(kj, kx, kx, descending);
                } else {
                    let oi = if i < pos { i } else { i - 1 };
                    let oj = if j < pos { j } else { j - 1 };
                    assert(old_out[oi] == out@[i] && old_out[oj] == out@[j]);
                    assert(directed_order(kv[old_out[oi] as int], kv[old_out[oj] as int], descending) <= 0);
                }
            }
        }
        n = n + 1;
    }
    assert(input@.take(n as int) =~= input@);
    out
}


/// What the table can be sorted by (besides transfer progress, a floating-point number
/// that the caller orders by itself).
#[derive(Clone, Copy, Debug, PartialEq, Eq, Structural)]
pub enum DownloadSortKey {
    Name,
    Size,
    Date,
    Status,
    Queued,
    Type,
}

/// The sort key a column name selects: `name`, `size`, `status`, `queued`, `type`;
/// `progress` selects none (ordering by progress is left to the caller); any other name
/// sorts by date.
pub open spec fn sort_key_named(name: Seq<char>) -> Option<DownloadSortKey> {
    if name == "name"@ {
        Some(DownloadSortKey::Name)
    } else if name == "size"@ {
        Some(DownloadSortKey::Size)
    } else if name == "progress"@ {
        None
    } else if name == "status"@ {
        Some(DownloadSortKey::Status)
    } else if name == "queued"@ {
        Some(DownloadSortKey::Queued)
    } else if name == "type"@ {
        Some(DownloadSortKey::Type)
    } else {
        Some(DownloadSortKey::Date)
    }
}

/// The sort key a column name selects.
pub fn sort_key_from_name(name: &str) -> (r: Option<DownloadSortKey>)
    ensures
        r == sort_key_named(name@),
{
    if str_eq(name, "name") {
        Some(DownloadSortKey::Name)
    } else if str_eq(name, "size") {
        Some(DownloadSortKey::Size)
    } else if str_eq(name, "progress") {
        None
    } else if str_eq(name, "status") {
        Some(DownloadSortKey::Status)
    } else if str_eq(name, "queued") {
        Some(DownloadSortKey::Queued)
    } else if str_eq(name, "type") {
        Some(DownloadSortKey::Type)
    } else {
        Some(DownloadSortKey::Date)
    }
}

/// Position `p` is shown before `q`: its key comes first, or the keys tie and `p` is
/// the smaller position.
pub open spec fn shown_before(keys: Seq<(int, Seq<char>)>, p: usize, q: usize, descending: bool) -> bool {
    let c = directed_order(keys[p as int], keys[q as int], descending);
    c < 0 || (c == 0 && p < q)
}

proof fn lemma_shown_before_asym(keys: Seq<(int, Seq<char>)>, p: usize, q: usize, descending: bool)
    ensures
        !(shown_before(keys, p, q, descending) && shown_before(keys, q, p, descending)),
{
    lemma_directed_order(keys[p as int], keys[q as int], keys[p as int], descending);
}

proof fn lemma_sorted_stably_before(keys: Seq<(int, Seq<char>)>, out: Seq<usize>, descending: bool, i: int, j: int)
    requires
        sorted_stably(keys, out, descending),
        0 <= i < j < out.len(),
    ensures
        shown_before(keys, out[i], out[j], descending),
{
    let c = directed_order(keys[out[i] as int], keys[out[j] as int], descending);
    assert(c <= 0 && (c == 0 ==> out[i] < out[j]));
}

/// In a stable sort, a position whose key comes strictly before another's is listed
/// first; when descending it is listed after.
pub proof fn lemma_sorted_key_first(
    keys: Seq<(int, Seq<char>)>,
    out: Seq<usize>,
    descending: bool,
    i: int,
    j: int,
)
    requires
        sorted_stably(keys, out, descending),
        0 <= i < out.len(),
        0 <= j < out.len(),
        key_order(keys[out[i] as int], keys[out[j] as int]) < 0,
    ensures
        if descending {
            j < i
        } else {
            i < j
        },
{
    let a = keys[out[i] as int];
    let b = keys[out[j] as int];
    lemma_directed_order(a, b, a, descending);
    lemma_key_order_is_total_preorder(a, b, a);
    if i < j {
        assert(directed_order(keys[out[i] as int], keys[out[j] as int], descending) <= 0);
    } else if j < i {
        assert(directed_order(keys[out[j] as int], keys[out[i] as int], descending) <= 0);
    }
}

proof fn lemma_sorted_order_unique(keys: Seq<(int, Seq<char>)>, a: Seq<usize>, b: Seq<usize>, descending: bool)
    requires
        a.len() == b.len(),
        a.no_duplicates(),
        b.no_duplicates(),
        forall|x: usize| a.contains(x) <==> b.contains(x),
        sorted_stably(keys, a, descending),
        sorted_stably(keys, b, descending),
    ensures
        a == b,
    decreases a.len(),
{
    if a.len() == 0 {
        assert(a =~= b);
    } else {
        if a[0] != b[0] {
            assert(a.contains(a[0]));
            assert(b.contains(a[0]));
            let j = choose|j: int| 0 <= j < b.len() && b[j] == a[0];
            assert(b.contains(b[0]));
            assert(a.contains(b[0]));
            let i = choose|i: int| 0 <= i < a.len() && a[i] == b[0];
            assert(j > 0);
            assert(i > 0);
            lemma_sorted_stably_before(keys, b, descending, 0, j);
            lemma_sorted_stably_before(keys, a, descending, 0, i);
            lemma_shown_before_asym(keys, a[0], b[0], descending);
        }
        let ta = a.drop_first();
        let tb = b.drop_first();
        assert forall|x: usize| ta.contains(x) <==> tb.contains(x) by {
            if ta.contains(x) {
                let k = choose|k: int| 0 <= k < ta.len() && ta[k] == x;
                assert(a[k + 1] == x);
                assert(x != a[0]);
                assert(a.contains(x));
                let m = choose|m: int| 0 <= m < b.len() && b[m] == x;
                assert(m != 0);
                assert(tb[m - 1] == x);
            }
            if tb.contains(x) {
                let k = choose|k: int| 0 <= k < tb.len() && tb[k] == x;
                assert(b[k + 1] == x);
                assert(x != b[0]);
                assert(b.contains(x));
                let m = choose|m: int| 0 <= m < a.len() && a[m] == x;
                assert(m != 0);
                assert(ta[m - 1] == x);
            }
        }
        assert(ta.no_duplicates()) by {
            assert forall|p: int, q: int| 0 <= p < ta.len() && 0 <= q < ta.len() && p != q implies ta[p] != ta[q] by {
                assert(ta[p] == a[p + 1]);
                assert(ta[q] == a[q + 1]);
            }
        }
        assert(tb.no_duplicates()) by {
            assert forall|p: int, q: int| 0 <= p < tb.len() && 0 <= q < tb.len() && p != q implies tb[p] != tb[q] by {
                assert(tb[p] == b[p + 1]);
                assert(tb[q] == b[q + 1]);
            }
        }
        assert(sorted_stably(keys, ta, descending)) by {
            assert forall|p: int, q: int| 0 <= p < q < ta.len() implies {
                let c = #[trigger] directed_order(keys[ta[p] as int], keys[ta[q] as int], descending);
                c <= 0 && (c == 0 ==> ta[p] < ta[q])
            } by {
                assert(ta[p] == a[p + 1]);
                assert(ta[q] == a[q + 1]);
                let c = directed_order(keys[a[p + 1] as int], keys[a[q + 1] as int], descending);
                assert(c <= 0 && (c == 0 ==> a[p + 1] < a[q + 1]));
            }
        }
        assert(sorted_stably(keys, tb, descending)) by {
            assert forall|p: int, q: int| 0 <= p < q < tb.len() implies {
                let c = #[trigger] directed_order(keys[tb[p] as int], keys[tb[q] as int], descending);
                c <= 0 && (c == 0 ==> tb[p] < tb[q])
            } by {
                assert(tb[p] == b[p + 1]);
                assert(tb[q] == b[q + 1]);
                let c = directed_order(keys[b[p + 1] as int], keys[b[q + 1] as int], descending);
                assert(c <= 0 && (c == 0 ==> b[p + 1] < b[q + 1]));
            }
        }
        lemma_sorted_order_unique(keys, ta, tb, descending);
        assert(a =~= seq![a[0]] + ta);
        assert(b =~= seq![b[0]] + tb);
    }
}

/// The order shown is fully determined by the keys: two stable orders of the same
/// positions in the same direction are equal.
pub proof fn lemma_stable_order_unique(
    keys: Seq<(int, Seq<char>)>,
    input: Seq<usize>,
    a: Seq<usize>,
    b: Seq<usize>,
    descending: bool,
)
    requires
        same_positions(a, input),
        same_positions(b, input),
        sorted_stably(keys, a, descending),
        sorted_stably(keys, b, descending),
    ensures
        a == b,
{
    lemma_sorted_order_unique(keys, a, b, descending);
}

/// When no two of the positions share a key, the descending order is the ascending
/// order reversed.
pub proof fn lemma_descending_reverses_ascending(
    keys: Seq<(int, Seq<char>)>,
    input: Seq<usize>,
    asc: Seq<usize>,
    desc: Seq<usize>,
)
    requires
        same_positions(asc, input),
        same_positions(desc, input),
        sorted_stably(keys, asc, false),
        sorted_stably(keys, desc, true),
        forall|p: usize, q: usize|
            #![trigger input.contains(p), input.contains(q)]
            input.contains(p) && input.contains(q) && p != q ==> key_order(
                keys[p as int],
                keys[q as int],
            ) != 0,
    ensures
        desc == asc.reverse(),
{
    let r = asc.reverse();
    let n = asc.len();
    assert forall|x: usize| r.contains(x) <==> asc.contains(x) by {
        if r.contains(x) {
            let k = choose|k: int| 0 <= k < r.len() && r[k] == x;
            assert(asc[n - 1 - k] == x);
        }
        if asc.contains(x) {
            let k = choose|k: int| 0 <= k < asc.len() && asc[k] == x;
            assert(r[n - 1 - k] == x);
        }
    }
    assert(r.no_duplicates()) by {
        assert forall|p: int, q: int| 0 <= p < r.len() && 0 <= q < r.len() && p != q implies r[p] != r[q] by {
            assert(r[p] == asc[n - 1 - p]);
            assert(r[q] == asc[n - 1 - q]);
        }
    }
    assert(sorted_stably(keys, r, true)) by {
        assert forall|i: int, j: int| 0 <= i < j < r.len() implies {
            let c = #[trigger] directed_order(keys[r[i] as int], keys[r[j] as int], true);
            c <= 0 && (c == 0 ==> r[i] < r[j])
        } by {
            let x = asc[n - 1 - i];
            let y = asc[n - 1 - j];
            assert(r[i] == x);
            assert(r[j] == y);
            let c0 = directed_order(keys[y as int], keys[x as int], false);
            assert(c0 <= 0 && (c0 == 0 ==> y < x));
            assert(asc.contains(x) && asc.contains(y));
            assert(input.contains(x) && input.contains(y));
            assert(x != y);
            assert(key_order(keys[y as int], keys[x as int]) != 0);
            lemma_key_order_is_total_preorder(keys[x as int], keys[y as int], keys[x as int]);
        }
    }
    lemma_sorted_order_unique(keys, desc, r, true);
}

/// The key by which a row sorts: by name; by size; by creation time (as text); by
/// status priority, then shown status name; queued rows first, then by creation time;
/// by the shown name of its kind.
pub open spec fn sort_key_of(item: DownloadItem, key: DownloadSortKey) -> (int, Seq<char>) {
    match key {
        DownloadSortKey::Name => (0, item.name@),
        DownloadSortKey::Size => (item.size as int, Seq::empty()),
        DownloadSortKey::Date => (0, item.created_at@),
        DownloadSortKey::Status => (
            priority_of_name(normalized_status(item.status@)) as int,
            normalized_status(item.status@),
        ),
        DownloadSortKey::Queued => (
            if lowercase_of(item.status@) == "queued"@ {
                0
            } else {
                1
            },
            item.created_at@,
        ),
        DownloadSortKey::Type => (0, item.download_type.display_name()),
    }
}

/// Under the name, size and date columns, rows are listed by their name (as text),
/// their size, and their creation time (as text), smaller first; descending reverses.
pub proof fn lemma_plain_columns_order(
    items: Seq<DownloadItem>,
    key: DownloadSortKey,
    out: Seq<usize>,
    descending: bool,
    i: int,
    j: int,
)
    requires
        sorted_stably(row_keys(items, key), out, descending),
        0 <= i < out.len(),
        0 <= j < out.len(),
        out[i] < items.len(),
        out[j] < items.len(),
        ({
            let a = items[out[i] as int];
            let b = items[out[j] as int];
            ||| key == DownloadSortKey::Name && text_order(a.name@, b.name@) < 0
            ||| key == DownloadSortKey::Size && a.size < b.size
            ||| key == DownloadSortKey::Date && text_order(a.created_at@, b.created_at@) < 0
        }),
    ensures
        if descending {
            j < i
        } else {
            i < j
        },
{
    let keys = row_keys(items, key);
    assert(keys[out[i] as int] == sort_key_of(items[out[i] as int], key));
    assert(keys[out[j] as int] == sort_key_of(items[out[j] as int], key));
    lemma_sorted_key_first(keys, out, descending, i, j);
}

/// Under the queued column, queued rows are listed before the others, and two rows
/// that are both queued or both not queued are listed by their creation time as text,
/// earlier first; descending reverses both.
pub proof fn lemma_queued_column_order(
    items: Seq<DownloadItem>,
    out: Seq<usize>,
    descending: bool,
    i: int,
    j: int,
)
    requires
        sorted_stably(row_keys(items, DownloadSortKey::Queued), out, descending),
        0 <= i < out.len(),
        0 <= j < out.len(),
        out[i] < items.len(),
        out[j] < items.len(),
        ({
            let a = items[out[i] as int];
            let b = items[out[j] as int];
            let qa = lowercase_of(a.status@) == "queued"@;
            let qb = lowercase_of(b.status@) == "queued"@;
            (qa && !qb) || (qa == qb && text_order(a.created_at@, b.created_at@) < 0)
        }),
    ensures
        if descending {
            j < i
        } else {
            i < j
        },
{
    let keys = row_keys(items, DownloadSortKey::Queued);
    assert(keys[out[i] as int] == sort_key_of(items[out[i] as int], DownloadSortKey::Queued));
    assert(keys[out[j] as int] == sort_key_of(items[out[j] as int], DownloadSortKey::Queued));
    lemma_sorted_key_first(keys, out, descending, i, j);
}

/// The key by which a row sorts.
pub fn sort_key_value(item: &DownloadItem, key: DownloadSortKey) -> (r: (i128, Vec<char>))
    ensures
        key_view(r) == sort_key_of(*item, key),
{
    match key {
        DownloadSortKey::Name => (0, chars_of(item.name.as_str())),
        DownloadSortKey::Size => (item.size as i128, Vec::new()),
        DownloadSortKey::Date => (0, chars_of(item.created_at.as_str())),
        DownloadSortKey::Status => {
            let p = get_status_priority(item.status.as_str());
            let n = normalize_status(item.status.as_str());
            (p as i128, chars_of(n.as_str()))
        },
        DownloadSortKey::Queued => {
            let l = to_lowercase(item.status.as_str());
            let q: i128 = if str_eq(l.as_str(), "queued") {
                0
            } else {
                1
            };
            (q, chars_of(item.created_at.as_str()))
        },
        DownloadSortKey::Type => {
            let t = item.download_type.to_display_string();
            (0, chars_of(t.as_str()))
        },
    }
}

/// A status filter keeps a row: `all` keeps every row; otherwise the shown status name
/// must equal the filter (both in lower case), `cached` also keeps completed rows, and
/// `inactive` keeps every row that is not completed, cached, downloading, seeding or
/// queued.
pub open spec fn status_filter_keeps(filter: Seq<char>, status: Seq<char>) -> bool {
    if filter == "all"@ {
        true
    } else {
        let f = lowercase_of(filter);
        let n = lowercase_of(normalized_status(status));
        ||| n == f
        ||| f == "cached"@ && (n == "cached"@ || n == "completed"@)
        ||| f == "inactive"@ && (n == "paused"@ || n == "stalled"@ || n == "failed"@ || n
            == "inactive"@ || n == "unknown"@ || n == "expired"@)
        ||| f == "inactive"@ && n != "completed"@ && n != "cached"@ && n != "downloading"@ && n
            != "seeding"@ && n != "queued"@
    }
}

/// Whether a status filter keeps a row with the given raw status.
pub fn status_filter_matches(filter: &str, status: &str) -> (r: bool)
    ensures
        r == status_filter_keeps(filter@, status@),
{
    if str_eq(filter, "all") {
        return true;
    }
    let fl = to_lowercase(filter);
    let f = fl.as_str();
    let normalized = normalize_status(status);
    let nl = to_lowercase(normalized.as_str());
    let n = nl.as_str();
    if str_eq(n, f) {
        return true;
    }
    if str_eq(f, "cached") && (str_eq(n, "cached") || str_eq(n, "completed")) {
        return true;
    }
    if str_eq(f, "inactive") {
        if str_eq(n, "paused") || str_eq(n, "stalled") || str_eq(n, "failed") || str_eq(
            n,
            "inactive",
        ) || str_eq(n, "unknown") || str_eq(n, "expired") {
            return true;
        }
        if !str_eq(n, "completed") && !str_eq(n, "cached") && !str_eq(n, "downloading")
            && !str_eq(n, "seeding") && !str_eq(n, "queued") {
            return true;
        }
    }
    false
}

/// A kind filter keeps a row: `torrent`, `web` and `usenet` keep rows of that kind;
/// `all` and any other value keep every row.
pub open spec fn type_filter_keeps(filter: Seq<char>, t: DownloadType) -> bool {
    if filter == "torrent"@ {
        t == DownloadType::Torrent
    } else if filter == "web"@ {
        t == DownloadType::WebDownload
    } else if filter == "usenet"@ {
        t == DownloadType::Usenet
    } else {
        true
    }
}

/// Whether a kind filter keeps a row of the given kind.
pub fn type_filter_matches(filter: &str, t: DownloadType) -> (r: bool)
    ensures
        r == type_filter_keeps(filter@, t),
{
    if str_eq(filter, "all") {
        proof {
            reveal_strlit("all");
            reveal_strlit("torrent");
            reveal_strlit("web");
            reveal_strlit("usenet");
            assert(filter@.len() == 3);
            assert(filter@ != "torrent"@);
            assert(filter@[0] != "web"@[0]);
            assert(filter@ != "web"@);
            assert(filter@ != "usenet"@);
        }
        return true;
    }
    if str_eq(filter, "torrent") {
        t == DownloadType::Torrent
    } else if str_eq(filter, "web") {
        t == DownloadType::WebDownload
    } else if str_eq(filter, "usenet") {
        t == DownloadType::Usenet
    } else {
        true
    }
}

/// Both filters keep a row.
pub open spec fn row_kept(item: DownloadItem, status_filter: Seq<char>, type_filter: Seq<char>) -> bool {
    status_filter_keeps(status_filter, item.status@) && type_filter_keeps(
        type_filter,
        item.download_type,
    )
}

/// The positions, in increasing order, of the rows that both filters keep.
pub open spec fn kept_positions(items: Seq<DownloadItem>, status_filter: Seq<char>, type_filter: Seq<char>) -> Seq<usize>
    decreases items.len(),
{
    if items.len() == 0 {
        Seq::empty()
    } else {
        let rest = kept_positions(items.drop_last(), status_filter, type_filter);
        if row_kept(items.last(), status_filter, type_filter) {
            rest.push((items.len() - 1) as usize)
        } else {
            rest
        }
    }
}

proof fn lemma_kept_positions(items: Seq<DownloadItem>, sf: Seq<char>, tf: Seq<char>)
    requires
        items.len() <= usize::MAX,
    ensures
        increasing(kept_positions(items, sf, tf)),
        forall|i: int|
            0 <= i < kept_positions(items, sf, tf).len() ==> #[trigger] kept_positions(
                items,
                sf,
                tf,
            )[i] < items.len(),
    decreases items.len(),
{
    if items.len() > 0 {
        let rest = kept_positions(items.drop_last(), sf, tf);
        lemma_kept_positions(items.drop_last(), sf, tf);
        assert forall|i: int| 0 <= i < rest.len() implies #[trigger] rest[i] < items.len() - 1 by {}
        if row_kept(items.last(), sf, tf) {
            let all = rest.push((items.len() - 1) as usize);
            assert forall|i: int, j: int| 0 <= i < j < all.len() implies all[i] < all[j] by {
                if j == all.len() - 1 {
                    assert(all[i] == rest[i]);
                } else {
                    assert(all[i] == rest[i] && all[j] == rest[j]);
                }
            }
        }
    }
}

/// The positions, in increasing order, of the rows that both filters keep.
pub fn filtered_positions(items: &[DownloadItem], status_filter: &str, type_filter: &str) -> (r: Vec<usize>)
    ensures
        r@ == kept_positions(items@, status_filter@, type_filter@),
{
    let mut r: Vec<usize> = Vec::new();
    let mut i: usize = 0;
    while i < items.len()
        invariant
            i <= items@.len(),
            r@ == kept_positions(items@.take(i as int), status_filter@, type_filter@),
        decreases items@.len() - i,
    {
        assert(items@.take(i + 1).drop_last() =~= items@.take(i as int));
        let item = &items[i];
        if status_filter_matches(status_filter, item.status.as_str()) && type_filter_matches(
            type_filter,
            item.download_type,
        ) {
            r.push(i);
        }
        i = i + 1;
    }
    assert(items@.take(i as int) =~= items@);
    r
}

/// The sort keys of all rows.
pub open spec fn row_keys(items: Seq<DownloadItem>, key: DownloadSortKey) -> Seq<(int, Seq<char>)> {
    items.map_values(|item: DownloadItem| sort_key_of(item, key))
}

/// Stably sorts increasing row positions by a sort key, in the chosen direction.
pub fn sorted_positions(items: &[DownloadItem], positions: &Vec<usize>, key: DownloadSortKey, descending: bool) -> (r: Vec<usize>)
    requires
        increasing(positions@),
        forall|i: int| 0 <= i < positions@.len() ==> positions@[i] < items@.len(),
    ensures
        same_positions(r@, positions@),
        sorted_stably(row_keys(items@, key), r@, descending),
{
    let mut keys: Vec<(i128, Vec<char>)> = Vec::new();
    let mut i: usize = 0;
    while i < items.len()
        invariant
            i <= items@.len(),
            keys@.len() == i,
            forall|j: int| 0 <= j < i ==> key_view(#[trigger] keys@[j]) == sort_key_of(items@[j], key),
        decreases items@.len() - i,
    {
        keys.push(sort_key_value(&items[i], key));
        i = i + 1;
    }
    assert(keys@.map_values(|k: (i128, Vec<char>)| key_view(k)) =~= row_keys(items@, key));
    stable_sort_positions(&keys, positions, descending)
}

/// The rows shown, as positions into `items`: the rows that both filters keep, stably
/// sorted by the selected column, descending when the order is `desc`. When the column
/// is `progress` the kept rows come in list order, for the caller to order by progress.
pub fn visible_positions(
    items: &[DownloadItem],
    status_filter: &str,
    type_filter: &str,
    sort_by: &str,
    sort_order: &str,
) -> (r: Vec<usize>)
    ensures
        same_positions(r@, kept_positions(items@, status_filter@, type_filter@)),
        match sort_key_named(sort_by@) {
            Some(key) => sorted_stably(row_keys(items@, key), r@, sort_order@ == "desc"@),
            None => r@ == kept_positions(items@, status_filter@, type_filter@),
        },
{
    let kept = filtered_positions(items, status_filter, type_filter);
    let count = items.len();
    proof {
        assert(count == items@.len());
        lemma_kept_positions(items@, status_filter@, type_filter@);
        assert(kept@.no_duplicates()) by {
            assert forall|i: int, j: int| 0 <= i < j < kept@.len() implies kept@[i] != kept@[j] by {}
        }
    }
    match sort_key_from_name(sort_by) {
        Some(key) => sorted_positions(items, &kept, key, str_eq(sort_order, "desc")),
        None => kept,
    }
}


/// The number of rows that satisfy `pred`.
pub open spec fn count_rows(items: Seq<DownloadItem>, pred: spec_fn(DownloadItem) -> bool) -> nat
    decreases items.len(),
{
    if items.len() == 0 {
        0
    } else {
        count_rows(items.drop_last(), pred) + if pred(items.last()) {
            1nat
        } else {
            0nat
        }
    }
}

proof fn lemma_count_rows_bound(items: Seq<DownloadItem>, pred: spec_fn(DownloadItem) -> bool)
    ensures
        count_rows(items, pred) <= items.len(),
    decreases items.len(),
{
    if items.len() > 0 {
        lemma_count_rows_bound(items.drop_last(), pred);
    }
}

/// Row counts shown above the table.
pub struct DownloadCounts {
    pub total: usize,
    pub torrents: usize,
    pub usenet: usize,
    pub webdl: usize,
    pub downloading: usize,
    pub seeding: usize,
    pub paused: usize,
    pub error: usize,
    pub cached: usize,
    pub queued: usize,
    pub stalled: usize,
    pub inactive: usize,
}

/// Rows of a kind.
pub open spec fn of_kind(t: DownloadType) -> spec_fn(DownloadItem) -> bool {
    |item: DownloadItem| item.download_type == t
}

/// Rows whose shown status name is one of `names`.
pub open spec fn shown_as(a: Seq<char>, b: Seq<char>) -> spec_fn(DownloadItem) -> bool {
    |item: DownloadItem| normalized_status(item.status@) == a || normalized_status(item.status@) == b
}

/// Rows shown as neither completed, cached, downloading, seeding nor queued.
pub open spec fn shown_inactive() -> spec_fn(DownloadItem) -> bool {
    |item: DownloadItem|
        {
            let n = normalized_status(item.status@);
            n != "Completed"@ && n != "Cached"@ && n != "Downloading"@ && n != "Seeding"@ && n
                != "Queued"@
        }
}

/// The counts above the table add up: the rows by kind make up all rows, and so do the
/// rows shown as downloading, seeding, completed or cached, queued, and inactive.
pub proof fn lemma_counts_add_up(items: Seq<DownloadItem>)
    ensures
        count_rows(items, of_kind(DownloadType::Torrent)) + count_rows(
            items,
            of_kind(DownloadType::Usenet),
        ) + count_rows(items, of_kind(DownloadType::WebDownload)) == items.len(),
        count_rows(items, shown_as("Downloading"@, "Downloading"@)) + count_rows(
            items,
            shown_as("Seeding"@, "Seeding"@),
        ) + count_rows(items, shown_as("Completed"@, "Cached"@)) + count_rows(
            items,
            shown_as("Queued"@, "Queued"@),
        ) + count_rows(items, shown_inactive()) == items.len(),
    decreases items.len(),
{
    if items.len() > 0 {
        lemma_counts_add_up(items.drop_last());
        lemma_shown_names_distinct();
    }
}

/// The shown status names, and the filter names, in lower case.
proof fn lemma_lower_names()
    ensures
        lowercase_of("Expired"@) == "expired"@,
        lowercase_of("Stalled"@) == "stalled"@,
        lowercase_of("Inactive"@) == "inactive"@,
        lowercase_of("Paused"@) == "paused"@,
        lowercase_of("Seeding"@) == "seeding"@,
        lowercase_of("Queued"@) == "queued"@,
        lowercase_of("Cached"@) == "cached"@,
        lowercase_of("Completed"@) == "completed"@,
        lowercase_of("Downloading"@) == "downloading"@,
        lowercase_of("Failed"@) == "failed"@,
        lowercase_of("Unknown"@) == "unknown"@,
        lowercase_of("downloading"@) == "downloading"@,
        lowercase_of("seeding"@) == "seeding"@,
        lowercase_of("queued"@) == "queued"@,
        lowercase_of("cached"@) == "cached"@,
        lowercase_of("inactive"@) == "inactive"@,
{
    reveal(lowercase_of);
    reveal_strlit("Cached");
    reveal_strlit("Completed");
    reveal_strlit("Downloading");
    reveal_strlit("Expired");
    reveal_strlit("Failed");
    reveal_strlit("Inactive");
    reveal_strlit("Paused");
    reveal_strlit("Queued");
    reveal_strlit("Seeding");
    reveal_strlit("Stalled");
    reveal_strlit("Unknown");
    reveal_strlit("cached");
    reveal_strlit("completed");
    reveal_strlit("downloading");
    reveal_strlit("expired");
    reveal_strlit("failed");
    reveal_strlit("inactive");
    reveal_strlit("paused");
    reveal_strlit("queued");
    reveal_strlit("seeding");
    reveal_strlit("stalled");
    reveal_strlit("unknown");
    assert(ascii_lower("Expired"@) =~= "expired"@);
    assert(ascii_lower("Stalled"@) =~= "stalled"@);
    assert(ascii_lower("Inactive"@) =~= "inactive"@);
    assert(ascii_lower("Paused"@) =~= "paused"@);
    assert(ascii_lower("Seeding"@) =~= "seeding"@);
    assert(ascii_lower("Queued"@) =~= "queued"@);
    assert(ascii_lower("Cached"@) =~= "cached"@);
    assert(ascii_lower("Completed"@) =~= "completed"@);
    assert(ascii_lower("Downloading"@) =~= "downloading"@);
    assert(ascii_lower("Failed"@) =~= "failed"@);
    assert(ascii_lower("Unknown"@) =~= "unknown"@);
    assert(ascii_lower("downloading"@) =~= "downloading"@);
    assert(ascii_lower("seeding"@) =~= "seeding"@);
    assert(ascii_lower("queued"@) =~= "queued"@);
    assert(ascii_lower("cached"@) =~= "cached"@);
    assert(ascii_lower("inactive"@) =~= "inactive"@);
}

proof fn lemma_fixed_name_lower(n: Seq<char>)
    requires
        n == "Expired"@ || n == "Stalled"@ || n == "Inactive"@ || n == "Paused"@ || n == "Seeding"@ || n == "Queued"@ || n == "Cached"@ || n == "Completed"@ || n == "Downloading"@ || n == "Failed"@ || n == "Unknown"@,
    ensures
        (lowercase_of(n) == "downloading"@) <==> (n
            == "Downloading"@),
        (lowercase_of(n) == "seeding"@) <==> (n
            == "Seeding"@),
        (lowercase_of(n) == "queued"@) <==> (n
            == "Queued"@),
        (lowercase_of(n) == "cached"@) <==> (n
            == "Cached"@),
        (lowercase_of(n) == "completed"@) <==> (n
            == "Completed"@),
{
    lemma_lower_names();
    reveal_strlit("Expired");
    reveal_strlit("Stalled");
    reveal_strlit("Inactive");
    reveal_strlit("Paused");
    reveal_strlit("Seeding");
    reveal_strlit("Queued");
    reveal_strlit("Cached");
    reveal_strlit("Completed");
    reveal_strlit("Downloading");
    reveal_strlit("Failed");
    reveal_strlit("Unknown");
    reveal_strlit("expired");
    reveal_strlit("stalled");
    reveal_strlit("inactive");
    reveal_strlit("paused");
    reveal_strlit("seeding");
    reveal_strlit("queued");
    reveal_strlit("cached");
    reveal_strlit("completed");
    reveal_strlit("downloading");
    reveal_strlit("failed");
    reveal_strlit("unknown");
    assert("Expired"@[0] != "Stalled"@[0]);
    assert("Expired"@[0] != "Seeding"@[0]);
    assert("Expired"@[0] != "Unknown"@[0]);
    assert("Stalled"@[1] != "Seeding"@[1]);
    assert("Stalled"@[0] != "Unknown"@[0]);
    assert("Paused"@[0] != "Queued"@[0]);
    assert("Paused"@[0] != "Cached"@[0]);
    assert("Paused"@[0] != "Failed"@[0]);
    assert("Seeding"@[0] != "Unknown"@[0]);
    assert("Queued"@[0] != "Cached"@[0]);
    assert("Queued"@[0] != "Failed"@[0]);
    assert("Cached"@[0] != "Failed"@[0]);
    assert("expired"@[0] != "stalled"@[0]);
    assert("expired"@[0] != "seeding"@[0]);
    assert("expired"@[0] != "unknown"@[0]);
    assert("stalled"@[1] != "seeding"@[1]);
    assert("stalled"@[0] != "unknown"@[0]);
    assert("paused"@[0] != "queued"@[0]);
    assert("paused"@[0] != "cached"@[0]);
    assert("paused"@[0] != "failed"@[0]);
    assert("seeding"@[0] != "unknown"@[0]);
    assert("queued"@[0] != "cached"@[0]);
    assert("queued"@[0] != "failed"@[0]);
    assert("cached"@[0] != "failed"@[0]);
    if n == "Expired"@ {
        assert(lowercase_of(n) == "expired"@);
        assert("Expired"@.len() != "Downloading"@.len());
        assert("expired"@.len() != "downloading"@.len());
        assert("Expired"@[0] != "Seeding"@[0]);
        assert("expired"@[0] != "seeding"@[0]);
        assert("Expired"@.len() != "Queued"@.len());
        assert("expired"@.len() != "queued"@.len());
        assert("Expired"@.len() != "Cached"@.len());
        assert("expired"@.len() != "cached"@.len());
        assert("Expired"@.len() != "Completed"@.len());
        assert("expired"@.len() != "completed"@.len());
    } else if n == "Stalled"@ {
        assert(lowercase_of(n) == "stalled"@);
        assert("Stalled"@.len() != "Downloading"@.len());
        assert("stalled"@.len() != "downloading"@.len());
        assert("Stalled"@[1] != "Seeding"@[1]);
        assert("stalled"@[1] != "seeding"@[1]);
        assert("Stalled"@.len() != "Queued"@.len());
        assert("stalled"@.len() != "queued"@.len());
        assert("Stalled"@.len() != "Cached"@.len());
        assert("stalled"@.len() != "cached"@.len());
        assert("Stalled"@.len() != "Completed"@.len());
        assert("stalled"@.len() != "completed"@.len());
    } else if n == "Inactive"@ {
        assert(lowercase_of(n) == "inactive"@);
        assert("Inactive"@.len() != "Downloading"@.len());
        assert("inactive"@.len() != "downloading"@.len());
        assert("Inactive"@.len() != "Seeding"@.len());
        assert("inactive"@.len() != "seeding"@.len());
        assert("Inactive"@.len() != "Queued"@.len());
        assert("inactive"@.len() != "queued"@.len());
        assert("Inactive"@.len() != "Cached"@.len());
        assert("inactive"@.len() != "cached"@.len());
        assert("Inactive"@.len() != "Completed"@.len());
        assert("inactive"@.len() != "completed"@.len());
    } else if n == "Paused"@ {
        assert(lowercase_of(n) == "paused"@);
        assert("Paused"@.len() != "Downloading"@.len());
        assert("paused"@.len() != "downloading"@.len());
        assert("Paused"@.len() != "Seeding"@.len());
        assert("paused"@.len() != "seeding"@.len());
        assert("Paused"@[0] != "Queued"@[0]);
        assert("paused"@[0] != "queued"@[0]);
        assert("Paused"@[0] != "Cached"@[0]);
        assert("paused"@[0] != "cached"@[0]);
        assert("Paused"@.len() != "Completed"@.len());
        assert("paused"@.len() != "completed"@.len());
    } else if n == "Seeding"@ {
        assert(lowercase_of(n) == "seeding"@);
        assert("Seeding"@.len() != "Downloading"@.len());
        assert("seeding"@.len() != "downloading"@.len());
        assert("Seeding"@.len() != "Queued"@.len());
        assert("seeding"@.len() != "queued"@.len());
        assert("Seeding"@.len() != "Cached"@.len());
        assert("seeding"@.len() != "cached"@.len());
        assert("Seeding"@.len() != "Completed"@.len());
        assert("seeding"@.len() != "completed"@.len());
    } else if n == "Queued"@ {
        assert(lowercase_of(n) == "queued"@);
        assert("Queued"@.len() != "Downloading"@.len());
        assert("queued"@.len() != "downloading"@.len());
        assert("Queued"@.len() != "Seeding"@.len());
        assert("queued"@.len() != "seeding"@.len());
        assert("Queued"@[0] != "Cached"@[0]);
        assert("queued"@[0] != "cached"@[0]);
        assert("Queued"@.len() != "Completed"@.len());
        assert("queued"@.len() != "completed"@.len());
    } else if n == "Cached"@ {
        assert(lowercase_of(n) == "cached"@);
        assert("Cached"@.len() != "Downloading"@.len());
        assert("cached"@.len() != "downloading"@.len());
        assert("Cached"@.len() != "Seeding"@.len());
        assert("cached"@.len() != "seeding"@.len());
        assert("Cached"@[0] != "Queued"@[0]);
        assert("cached"@[0] != "queued"@[0]);
        assert("Cached"@.len() != "Completed"@.len());
        assert("cached"@.len() != "completed"@.len());
    } else if n == "Completed"@ {
        assert(lowercase_of(n) == "completed"@);
        assert("Completed"@.len() != "Downloading"@.len());
        assert("completed"@.len() != "downloading"@.len());
        assert("Completed"@.len() != "Seeding"@.len());
        assert("completed"@.len() != "seeding"@.len());
        assert("Completed"@.len() != "Queued"@.len());
        assert("completed"@.len() != "queued"@.len());
        assert("Completed"@.len() != "Cached"@.len());
        assert("completed"@.len() != "cached"@.len());
    } else if n == "Downloading"@ {
        assert(lowercase_of(n) == "downloading"@);
        assert("Downloading"@.len() != "Seeding"@.len());
        assert("downloading"@.len() != "seeding"@.len());
        assert("Downloading"@.len() != "Queued"@.len());
        assert("downloading"@.len() != "queued"@.len());
        assert("Downloading"@.len() != "Cached"@.len());
        assert("downloading"@.len() != "cached"@.len());
        assert("Downloading"@.len() != "Completed"@.len());
        assert("downloading"@.len() != "completed"@.len());
    } else if n == "Failed"@ {
        assert(lowercase_of(n) == "failed"@);
        assert("Failed"@.len() != "Downloading"@.len());
        assert("failed"@.len() != "downloading"@.len());
        assert("Failed"@.len() != "Seeding"@.len());
        assert("failed"@.len() != "seeding"@.len());
        assert("Failed"@[0] != "Queued"@[0]);
        assert("failed"@[0] != "queued"@[0]);
        assert("Failed"@[0] != "Cached"@[0]);
        assert("failed"@[0] != "cached"@[0]);
        assert("Failed"@.len() != "Completed"@.len());
        assert("failed"@.len() != "completed"@.len());
    } else if n == "Unknown"@ {
        assert(lowercase_of(n) == "unknown"@);
        assert("Unknown"@.len() != "Downloading"@.len());
        assert("unknown"@.len() != "downloading"@.len());
        assert("Unknown"@[0] != "Seeding"@[0]);
        assert("unknown"@[0] != "seeding"@[0]);
        assert("Unknown"@.len() != "Queued"@.len());
        assert("unknown"@.len() != "queued"@.len());
        assert("Unknown"@.len() != "Cached"@.len());
        assert("unknown"@.len() != "cached"@.len());
        assert("Unknown"@.len() != "Completed"@.len());
        assert("unknown"@.len() != "completed"@.len());
    }
}

/// A shown status name that lower-cases to the name of a status filter (or to
/// `completed`) only when it is that status's own shown name: `Downloading`, `Seeding`,
/// `Queued`, `Cached` or `Completed`.
pub open spec fn lowers_faithfully(n: Seq<char>) -> bool {
    &&& lowercase_of(n) == "downloading"@ ==> n == "Downloading"@
    &&& lowercase_of(n) == "seeding"@ ==> n == "Seeding"@
    &&& lowercase_of(n) == "queued"@ ==> n == "Queued"@
    &&& lowercase_of(n) == "cached"@ ==> n == "Cached"@
    &&& lowercase_of(n) == "completed"@ ==> n == "Completed"@
}

/// Every row's shown status name lower-cases faithfully.
pub open spec fn faithful_statuses(items: Seq<DownloadItem>) -> bool {
    forall|i: int| 0 <= i < items.len() ==> lowers_faithfully(normalized_status(#[trigger] items[i].status@))
}

proof fn lemma_shown_name_lower(s: Seq<char>)
    requires
        all_ascii(s),
    ensures
        (lowercase_of(normalized_status(s)) == "downloading"@) <==> (normalized_status(s)
            == "Downloading"@),
        (lowercase_of(normalized_status(s)) == "seeding"@) <==> (normalized_status(s)
            == "Seeding"@),
        (lowercase_of(normalized_status(s)) == "queued"@) <==> (normalized_status(s)
            == "Queued"@),
        (lowercase_of(normalized_status(s)) == "cached"@) <==> (normalized_status(s)
            == "Cached"@),
        (lowercase_of(normalized_status(s)) == "completed"@) <==> (normalized_status(s)
            == "Completed"@),
{
    lemma_lower_names();
    reveal_strlit("downloading");
    reveal_strlit("seeding");
    reveal_strlit("queued");
    reveal_strlit("queuedup");
    reveal_strlit("cached");
    reveal_strlit("completed");
    reveal_strlit("Downloading");
    reveal_strlit("Seeding");
    reveal_strlit("Queued");
    reveal_strlit("Cached");
    reveal_strlit("Completed");
    reveal_strlit("expired");
    reveal_strlit("stalled");
    reveal_strlit("inactive");
    reveal_strlit("paused");
    reveal_strlit("failed");
    reveal_strlit("unknown");
    reveal_strlit("Expired");
    reveal_strlit("Stalled");
    reveal_strlit("Inactive");
    reveal_strlit("Paused");
    reveal_strlit("Failed");
    reveal_strlit("Unknown");
    assert("Expired"@[0] != "Stalled"@[0]);
    assert("Expired"@[0] != "Seeding"@[0]);
    assert("Expired"@[0] != "Unknown"@[0]);
    assert("Stalled"@[1] != "Seeding"@[1]);
    assert("Stalled"@[0] != "Unknown"@[0]);
    assert("Paused"@[0] != "Queued"@[0]);
    assert("Paused"@[0] != "Cached"@[0]);
    assert("Paused"@[0] != "Failed"@[0]);
    assert("Seeding"@[0] != "Unknown"@[0]);
    assert("Queued"@[0] != "Cached"@[0]);
    assert("Queued"@[0] != "Failed"@[0]);
    assert("Cached"@[0] != "Failed"@[0]);
    assert("expired"@[0] != "stalled"@[0]);
    assert("expired"@[0] != "seeding"@[0]);
    assert("expired"@[0] != "unknown"@[0]);
    assert("stalled"@[1] != "seeding"@[1]);
    assert("stalled"@[0] != "unknown"@[0]);
    assert("paused"@[0] != "queued"@[0]);
    assert("paused"@[0] != "cached"@[0]);
    assert("paused"@[0] != "failed"@[0]);
    assert("seeding"@[0] != "unknown"@[0]);
    assert("queued"@[0] != "cached"@[0]);
    assert("queued"@[0] != "failed"@[0]);
    assert("cached"@[0] != "failed"@[0]);
    let l = lowercase_of(s);
    assert(l == ascii_lower(s)) by {
        reveal(lowercase_of);
    }
    let n = normalized_status(s);
    let fixed = n == "Expired"@ || n == "Stalled"@ || n == "Inactive"@ || n == "Paused"@ || n
        == "Seeding"@ || n == "Queued"@ || n == "Cached"@ || n == "Completed"@ || n
        == "Downloading"@ || n == "Failed"@ || n == "Unknown"@;
    if fixed {
        lemma_fixed_name_lower(n);
    } else {
        assert(s.len() > 0);
        assert(l != "downloading"@);
        assert(l != "cached"@);
        assert(l != "completed"@);
        assert(l != "seeding"@) by {
            if l == "seeding"@ {
                assert(l.subrange(0, 7) =~= l);
                assert(occurs_at(l, "seeding"@, 0));
            }
        }
        assert(l != "queued"@) by {
            if l == "queued"@ {
                assert(l.subrange(0, 6) =~= l);
                assert(occurs_at(l, "queued"@, 0));
                assert(!contains_seq(l, "queuedup"@));
            }
        }
        let c = s[0];
        let u = ascii_upper_char(c);
        assert(uppercase_of_char(c) == seq![u]) by {
            reveal(uppercase_of_char);
        }
        assert(n == seq![u] + s.drop_first());
        assert(all_ascii(n)) by {
            assert forall|i: int| 0 <= i < n.len() implies is_ascii_char(#[trigger] n[i]) by {
                if i > 0 {
                    assert(n[i] == s[i]);
                }
            }
        }
        assert(ascii_lower(n) =~= ascii_lower(s)) by {
            assert forall|i: int| 0 <= i < n.len() implies #[trigger] ascii_lower(n)[i] == ascii_lower(s)[i] by {
                if i > 0 {
                    assert(n[i] == s[i]);
                }
            }
        }
        assert(lowercase_of(n) == l) by {
            reveal(lowercase_of);
        }
        assert(n != "Downloading"@);
        assert(n != "Seeding"@);
        assert(n != "Queued"@);
        assert(n != "Cached"@);
        assert(n != "Completed"@);
    }
}

proof fn lemma_status_filter_by_name(s: Seq<char>)
    requires
        lowers_faithfully(normalized_status(s)),
    ensures
        status_filter_keeps("downloading"@, s) <==> normalized_status(s) == "Downloading"@,
        status_filter_keeps("seeding"@, s) <==> normalized_status(s) == "Seeding"@,
        status_filter_keeps("queued"@, s) <==> normalized_status(s) == "Queued"@,
        status_filter_keeps("cached"@, s) <==> (normalized_status(s) == "Completed"@
            || normalized_status(s) == "Cached"@),
        status_filter_keeps("inactive"@, s) <==> ({
            let n = normalized_status(s);
            n != "Completed"@ && n != "Cached"@ && n != "Downloading"@ && n != "Seeding"@ && n
                != "Queued"@
        }),
{
    lemma_lower_names();
    reveal_strlit("all");
    reveal_strlit("cached");
    reveal_strlit("inactive");
    reveal_strlit("downloading");
    reveal_strlit("seeding");
    reveal_strlit("queued");
    reveal_strlit("completed");
    reveal_strlit("paused");
    reveal_strlit("stalled");
    reveal_strlit("failed");
    reveal_strlit("unknown");
    reveal_strlit("expired");
    reveal_strlit("torrent");
    reveal_strlit("web");
    reveal_strlit("usenet");
    assert("all"@.len() != "cached"@.len());
    assert("all"@.len() != "inactive"@.len());
    assert("all"@.len() != "downloading"@.len());
    assert("all"@.len() != "seeding"@.len());
    assert("all"@.len() != "queued"@.len());
    assert("all"@.len() != "completed"@.len());
    assert("all"@.len() != "paused"@.len());
    assert("all"@.len() != "stalled"@.len());
    assert("all"@.len() != "failed"@.len());
    assert("all"@.len() != "unknown"@.len());
    assert("all"@.len() != "expired"@.len());
    assert("cached"@.len() != "inactive"@.len());
    assert("cached"@.len() != "downloading"@.len());
    assert("cached"@.len() != "seeding"@.len());
    assert("cached"@[0] != "queued"@[0]);
    assert("cached"@.len() != "completed"@.len());
    assert("cached"@[0] != "paused"@[0]);
    assert("cached"@.len() != "stalled"@.len());
    assert("cached"@[0] != "failed"@[0]);
    assert("cached"@.len() != "unknown"@.len());
    assert("cached"@.len() != "expired"@.len());
    assert("inactive"@.len() != "downloading"@.len());
    assert("inactive"@.len() != "seeding"@.len());
    assert("inactive"@.len() != "queued"@.len());
    assert("inactive"@.len() != "completed"@.len());
    assert("inactive"@.len() != "paused"@.len());
    assert("inactive"@.len() != "stalled"@.len());
    assert("inactive"@.len() != "failed"@.len());
    assert("inactive"@.len() != "unknown"@.len());
    assert("inactive"@.len() != "expired"@.len());
    assert("downloading"@.len() != "seeding"@.len());
    assert("downloading"@.len() != "queued"@.len());
    assert("downloading"@.len() != "completed"@.len());
    assert("downloading"@.len() != "paused"@.len());
    assert("downloading"@.len() != "stalled"@.len());
    assert("downloading"@.len() != "failed"@.len());
    assert("downloading"@.len() != "unknown"@.len());
    assert("downloading"@.len() != "expired"@.len());
    assert("seeding"@.len() != "queued"@.len());
    assert("seeding"@.len() != "completed"@.len());
    assert("seeding"@.len() != "paused"@.len());
    assert("seeding"@[1] != "stalled"@[1]);
    assert("seeding"@.len() != "failed"@.len());
    assert("seeding"@[0] != "unknown"@[0]);
    assert("seeding"@[0] != "expired"@[0]);
    assert("queued"@.len() != "completed"@.len());
    assert("queued"@[0] != "paused"@[0]);
    assert("queued"@.len() != "stalled"@.len());
    assert("queued"@[0] != "failed"@[0]);
    assert("queued"@.len() != "unknown"@.len());
    assert("queued"@.len() != "expired"@.len());
    assert("completed"@.len() != "paused"@.len());
    assert("completed"@.len() != "stalled"@.len());
    assert("completed"@.len() != "failed"@.len());
    assert("completed"@.len() != "unknown"@.len());
    assert("completed"@.len() != "expired"@.len());
    assert("paused"@.len() != "stalled"@.len());
    assert("paused"@[0] != "failed"@[0]);
    assert("paused"@.len() != "unknown"@.len());
    assert("paused"@.len() != "expired"@.len());
    assert("stalled"@.len() != "failed"@.len());
    assert("stalled"@[0] != "unknown"@[0]);
    assert("stalled"@[0] != "expired"@[0]);
    assert("failed"@.len() != "unknown"@.len());
    assert("failed"@.len() != "expired"@.len());
    assert("unknown"@[0] != "expired"@[0]);
}

proof fn lemma_kept_count(
    items: Seq<DownloadItem>,
    sf: Seq<char>,
    tf: Seq<char>,
    pred: spec_fn(DownloadItem) -> bool,
)
    requires
        forall|i: int| 0 <= i < items.len() ==> row_kept(#[trigger] items[i], sf, tf) == pred(items[i]),
    ensures
        kept_positions(items, sf, tf).len() == count_rows(items, pred),
    decreases items.len(),
{
    if items.len() > 0 {
        let prev = items.drop_last();
        assert forall|i: int| 0 <= i < prev.len() implies row_kept(#[trigger] prev[i], sf, tf) == pred(prev[i]) by {
            assert(prev[i] == items[i]);
        }
        lemma_kept_count(prev, sf, tf, pred);
        assert(row_kept(items[items.len() - 1], sf, tf) == pred(items[items.len() - 1]));
    }
}

/// Every raw status of the rows is ASCII text.
pub open spec fn ascii_statuses(items: Seq<DownloadItem>) -> bool {
    forall|i: int| 0 <= i < items.len() ==> all_ascii(#[trigger] items[i].status@)
}

/// Rows whose raw statuses are ASCII text have shown names that lower-case faithfully.
pub proof fn lemma_ascii_statuses_faithful(items: Seq<DownloadItem>)
    requires
        ascii_statuses(items),
    ensures
        faithful_statuses(items),
{
    assert forall|i: int| 0 <= i < items.len() implies lowers_faithfully(
        normalized_status(#[trigger] items[i].status@),
    ) by {
        lemma_shown_name_lower(items[i].status@);
    }
}

/// Each status count above the table equals the number of rows the status filter of
/// the same name shows, with every kind shown, unless a row's shown status name
/// lower-cases to a filter's name without being that status's own shown name.
pub proof fn lemma_counts_match_filters(items: Seq<DownloadItem>)
    requires
        faithful_statuses(items),
    ensures
        kept_positions(items, "downloading"@, "all"@).len() == count_rows(
            items,
            shown_as("Downloading"@, "Downloading"@),
        ),
        kept_positions(items, "seeding"@, "all"@).len() == count_rows(
            items,
            shown_as("Seeding"@, "Seeding"@),
        ),
        kept_positions(items, "queued"@, "all"@).len() == count_rows(
            items,
            shown_as("Queued"@, "Queued"@),
        ),
        kept_positions(items, "cached"@, "all"@).len() == count_rows(
            items,
            shown_as("Completed"@, "Cached"@),
        ),
        kept_positions(items, "inactive"@, "all"@).len() == count_rows(items, shown_inactive()),
{
    reveal_strlit("all");
    reveal_strlit("torrent");
    reveal_strlit("web");
    reveal_strlit("usenet");
    assert("all"@[0] != "web"@[0]);
    assert forall|i: int| 0 <= i < items.len() implies {
        &&& row_kept(#[trigger] items[i], "downloading"@, "all"@) == shown_as("Downloading"@, "Downloading"@)(items[i])
        &&& row_kept(items[i], "seeding"@, "all"@) == shown_as("Seeding"@, "Seeding"@)(items[i])
        &&& row_kept(items[i], "queued"@, "all"@) == shown_as("Queued"@, "Queued"@)(items[i])
        &&& row_kept(items[i], "cached"@, "all"@) == shown_as("Completed"@, "Cached"@)(items[i])
        &&& row_kept(items[i], "inactive"@, "all"@) == shown_inactive()(items[i])
    } by {
        lemma_status_filter_by_name(items[i].status@);
    }
    lemma_kept_count(items, "downloading"@, "all"@, shown_as("Downloading"@, "Downloading"@));
    lemma_kept_count(items, "seeding"@, "all"@, shown_as("Seeding"@, "Seeding"@));
    lemma_kept_count(items, "queued"@, "all"@, shown_as("Queued"@, "Queued"@));
    lemma_kept_count(items, "cached"@, "all"@, shown_as("Completed"@, "Cached"@));
    lemma_kept_count(items, "inactive"@, "all"@, shown_inactive());
}

/// Counts the rows: all of them, by kind, and by shown status (completed and cached
/// rows count as cached; every status other than downloading, seeding, queued,
/// completed or cached counts as inactive; the paused, error and stalled counts stay 0).
pub fn get_download_counts(items: &[DownloadItem]) -> (r: DownloadCounts)
    ensures
        r.total == items@.len(),
        r.torrents == count_rows(items@, of_kind(DownloadType::Torrent)),
        r.usenet == count_rows(items@, of_kind(DownloadType::Usenet)),
        r.webdl == count_rows(items@, of_kind(DownloadType::WebDownload)),
        r.downloading == count_rows(items@, shown_as("Downloading"@, "Downloading"@)),
        r.seeding == count_rows(items@, shown_as("Seeding"@, "Seeding"@)),
        r.cached == count_rows(items@, shown_as("Completed"@, "Cached"@)),
        r.queued == count_rows(items@, shown_as("Queued"@, "Queued"@)),
        r.inactive == count_rows(items@, shown_inactive()),
        r.paused == 0,
        r.error == 0,
        r.stalled == 0,
{
    let mut c = DownloadCounts {
        total: items.len(),
        torrents: 0,
        usenet: 0,
        webdl: 0,
        downloading: 0,
        seeding: 0,
        paused: 0,
        error: 0,
        cached: 0,
        queued: 0,
        stalled: 0,
        inactive: 0,
    };
    let mut i: usize = 0;
    while i < items.len()
        invariant
            i <= items@.len(),
            c.total == items@.len(),
            c.torrents == count_rows(items@.take(i as int), of_kind(DownloadType::Torrent)),
            c.usenet == count_rows(items@.take(i as int), of_kind(DownloadType::Usenet)),
            c.webdl == count_rows(items@.take(i as int), of_kind(DownloadType::WebDownload)),
            c.downloading == count_rows(items@.take(i as int), shown_as("Downloading"@, "Downloading"@)),
            c.seeding == count_rows(items@.take(i as int), shown_as("Seeding"@, "Seeding"@)),
            c.cached == count_rows(items@.take(i as int), shown_as("Completed"@, "Cached"@)),
            c.queued == count_rows(items@.take(i as int), shown_as("Queued"@, "Queued"@)),
            c.inactive == count_rows(items@.take(i as int), shown_inactive()),
            c.paused == 0,
            c.error == 0,
            c.stalled == 0,
        decreases items@.len() - i,
    {
        let ghost t = items@.take(i as int);
        let ghost t1 = items@.take(i + 1);
        assert(t1.drop_last() =~= t);
        proof {
            lemma_count_rows_bound(t, of_kind(DownloadType::Torrent));
            lemma_count_rows_bound(t, of_kind(DownloadType::Usenet));
            lemma_count_rows_bound(t, of_kind(DownloadType::WebDownload));
            lemma_count_rows_bound(t, shown_as("Downloading"@, "Downloading"@));
            lemma_count_rows_bound(t, shown_as("Seeding"@, "Seeding"@));
            lemma_count_rows_bound(t, shown_as("Completed"@, "Cached"@));
            lemma_count_rows_bound(t, shown_as("Queued"@, "Queued"@));
            lemma_count_rows_bound(t, shown_inactive());
            lemma_shown_names_distinct();
        }
        let item = &items[i];
        match item.download_type {
            DownloadType::Torrent => {
                c.torrents = c.torrents + 1;
            },
            DownloadType::Usenet => {
                c.usenet = c.usenet + 1;
            },
            DownloadType::WebDownload => {
                c.webdl = c.webdl + 1;
            },
        }
        let n = normalize_status(item.status.as_str());
        let n = n.as_str();
        if str_eq(n, "Completed") || str_eq(n, "Cached") {
            c.cached = c.cached + 1;
        } else if str_eq(n, "Downloading") {
            c.downloading = c.downloading + 1;
        } else if str_eq(n, "Seeding") {
            c.seeding = c.seeding + 1;
        } else if str_eq(n, "Queued") {
            c.queued = c.queued + 1;
        } else {
            c.inactive = c.inactive + 1;
        }
        i = i + 1;
    }
    assert(items@.take(i as int) =~= items@);
    c
}


/// The identity of a row: its id and kind.
pub open spec fn row_key(item: DownloadItem) -> (i32, DownloadType) {
    (item.id, item.download_type)
}

/// The last position of a row with the given identity (-1 if none).
pub open spec fn last_position(keys: Seq<(i32, DownloadType)>, key: (i32, DownloadType)) -> int
    decreases keys.len(),
{
    if keys.len() == 0 {
        -1
    } else if keys.last() == key {
        keys.len() - 1
    } else {
        last_position(keys.drop_last(), key)
    }
}

proof fn lemma_last_position(keys: Seq<(i32, DownloadType)>, key: (i32, DownloadType))
    ensures
        -1 <= last_position(keys, key) < keys.len(),
        last_position(keys, key) >= 0 ==> keys[last_position(keys, key)] == key,
        last_position(keys, key) < 0 ==> !keys.contains(key),
    decreases keys.len(),
{
    if keys.len() > 0 && keys.last() != key {
        lemma_last_position(keys.drop_last(), key);
        if last_position(keys, key) < 0 && keys.contains(key) {
            let j = choose|j: int| 0 <= j < keys.len() && keys[j] == key;
            assert(keys.drop_last()[j] == key);
        }
    }
}

/// The rows after applying fetched rows in order: a fetched row replaces the row at
/// the last position of the current list with its identity, or is appended.
pub open spec fn apply_fetched(current: Seq<DownloadItem>, fetched: Seq<DownloadItem>) -> Seq<DownloadItem>
    decreases fetched.len(),
{
    if fetched.len() == 0 {
        current
    } else {
        let acc = apply_fetched(current, fetched.drop_last());
        let item = fetched.last();
        let p = last_position(current.map_values(|r: DownloadItem| row_key(r)), row_key(item));
        if p >= 0 {
            acc.update(p, item)
        } else {
            acc.push(item)
        }
    }
}

/// The rows, in order, whose identity is among `keys`.
pub open spec fn rows_with_keys(rows: Seq<DownloadItem>, keys: Seq<(i32, DownloadType)>) -> Seq<DownloadItem>
    decreases rows.len(),
{
    if rows.len() == 0 {
        Seq::empty()
    } else {
        let rest = rows_with_keys(rows.drop_last(), keys);
        if keys.contains(row_key(rows.last())) {
            rest.push(rows.last())
        } else {
            rest
        }
    }
}

/// The list after a poll: fetched rows replace current rows with their identity or are
/// appended, then rows whose identity the poll did not report are dropped.
pub open spec fn merged_rows(current: Seq<DownloadItem>, fetched: Seq<DownloadItem>) -> Seq<DownloadItem> {
    rows_with_keys(
        apply_fetched(current, fetched),
        fetched.map_values(|r: DownloadItem| row_key(r)),
    )
}

fn key_of(item: &DownloadItem) -> (r: (i32, DownloadType))
    ensures
        r == row_key(*item),
{
    (item.id, item.download_type)
}

fn find_last_key(keys: &Vec<(i32, DownloadType)>, key: (i32, DownloadType)) -> (r: Option<usize>)
    ensures
        match r {
            Some(p) => p as int == last_position(keys@, key),
            None => last_position(keys@, key) == -1,
        },
{
    let mut i: usize = keys.len();
    assert(keys@.take(i as int) =~= keys@);
    while i > 0
        invariant
            i <= keys@.len(),
            last_position(keys@, key) == last_position(keys@.take(i as int), key),
        decreases i,
    {
        assert(keys@.take(i as int).drop_last() =~= keys@.take(i - 1));
        let k = keys[i - 1];
        if k.0 == key.0 && k.1 == key.1 {
            return Some(i - 1);
        }
        i = i - 1;
    }
    None
}

fn contains_key(keys: &Vec<(i32, DownloadType)>, key: (i32, DownloadType)) -> (r: bool)
    ensures
        r == keys@.contains(key),
{
    let found = find_last_key(keys, key);
    proof {
        lemma_last_position(keys@, key);
    }
    found.is_some()
}

proof fn lemma_apply_fetched_len(current: Seq<DownloadItem>, fetched: Seq<DownloadItem>)
    ensures
        apply_fetched(current, fetched).len() >= current.len(),
    decreases fetched.len(),
{
    if fetched.len() > 0 {
        lemma_apply_fetched_len(current, fetched.drop_last());
        lemma_last_position(
            current.map_values(|r: DownloadItem| row_key(r)),
            row_key(fetched.last()),
        );
    }
}

/// The list after a poll: each fetched row replaces the current row with its identity
/// (id and kind) or is appended, and rows the poll did not report are dropped.
pub fn merge_polled_downloads(current: Vec<DownloadItem>, fetched: Vec<DownloadItem>) -> (r: Vec<DownloadItem>)
    ensures
        r@ == merged_rows(current@, fetched@),
{
    let ghost cur = current@;
    let ghost fet = fetched@;
    let mut cur_keys: Vec<(i32, DownloadType)> = Vec::new();
    let mut i: usize = 0;
    while i < current.len()
        invariant
            i <= current@.len(),
            cur_keys@ == current@.take(i as int).map_values(|r: DownloadItem| row_key(r)),
        decreases current@.len() - i,
    {
        cur_keys.push(key_of(&current[i]));
        i = i + 1;
        assert(cur_keys@ =~= current@.take(i as int).map_values(|r: DownloadItem| row_key(r)));
    }
    assert(current@.take(i as int) =~= current@);
    let mut updated = current;
    let mut seen: Vec<(i32, DownloadType)> = Vec::new();
    for item in it: fetched.into_iter()
        invariant
            it.seq() == fet,
            cur_keys@ == cur.map_values(|r: DownloadItem| row_key(r)),
            updated@ == apply_fetched(cur, fet.take(it.index() as int)),
            seen@ == fet.take(it.index() as int).map_values(|r: DownloadItem| row_key(r)),
    {
        let ghost idx = it.index() as int;
        assert(fet.take(idx + 1).drop_last() =~= fet.take(idx));
        proof {
            lemma_apply_fetched_len(cur, fet.take(idx));
            lemma_last_position(cur_keys@, row_key(item));
        }
        let key = key_of(&item);
        seen.push(key);
        match find_last_key(&cur_keys, key) {
            Some(p) => {
                updated[p] = item;
            },
            None => {
                updated.push(item);
            },
        }
        assert(seen@ =~= fet.take(idx + 1).map_values(|r: DownloadItem| row_key(r)));
    }
    assert(fet.take(fet.len() as int) =~= fet);
    let ghost all = updated@;
    let mut out: Vec<DownloadItem> = Vec::new();
    for row in it2: updated.into_iter()
        invariant
            it2.seq() == all,
            seen@ == fet.map_values(|r: DownloadItem| row_key(r)),
            out@ == rows_with_keys(all.take(it2.index() as int), seen@),
    {
        let ghost idx = it2.index() as int;
        assert(all.take(idx + 1).drop_last() =~= all.take(idx));
        if contains_key(&seen, key_of(&row)) {
            out.push(row);
        }
    }
    assert(all.take(all.len() as int) =~= all);
    out
}

/// No two rows share an identity.
pub open spec fn distinct_keys(rows: Seq<DownloadItem>) -> bool {
    forall|a: int, b: int|
        0 <= a < b < rows.len() ==> row_key(#[trigger] rows[a]) != row_key(#[trigger] rows[b])
}

proof fn lemma_apply_fetched_keys(current: Seq<DownloadItem>, fetched: Seq<DownloadItem>)
    ensures
        apply_fetched(current, fetched).len() >= current.len(),
        forall|i: int|
            0 <= i < current.len() ==> row_key(#[trigger] apply_fetched(current, fetched)[i])
                == row_key(current[i]),
        forall|j: int|
            0 <= j < fetched.len() ==> exists|i: int|
                0 <= i < apply_fetched(current, fetched).len() && row_key(
                    #[trigger] apply_fetched(current, fetched)[i],
                ) == row_key(#[trigger] fetched[j]),
        distinct_keys(fetched) ==> forall|j: int|
            0 <= j < fetched.len() ==> exists|i: int|
                0 <= i < apply_fetched(current, fetched).len() && #[trigger] apply_fetched(
                    current,
                    fetched,
                )[i] == #[trigger] fetched[j],
    decreases fetched.len(),
{
    if fetched.len() > 0 {
        let prev = fetched.drop_last();
        lemma_apply_fetched_keys(current, prev);
        let acc = apply_fetched(current, prev);
        let item = fetched.last();
        let keys = current.map_values(|r: DownloadItem| row_key(r));
        let p = last_position(keys, row_key(item));
        lemma_last_position(keys, row_key(item));
        let out = apply_fetched(current, fetched);
        assert(forall|j: int| 0 <= j < prev.len() ==> prev[j] == fetched[j]);
        if p >= 0 {
            assert(out == acc.update(p, item));
            assert(row_key(item) == row_key(current[p]));
            assert forall|j: int| 0 <= j < fetched.len() implies exists|i: int|
                0 <= i < out.len() && row_key(#[trigger] out[i]) == row_key(#[trigger] fetched[j]) by {
                if j == fetched.len() - 1 {
                    assert(out[p] == item);
                } else {
                    let i = choose|i: int|
                        0 <= i < acc.len() && row_key(#[trigger] acc[i]) == row_key(prev[j]);
                    if i == p {
                        assert(row_key(acc[p]) == row_key(current[p]));
                        assert(row_key(out[p]) == row_key(fetched[j]));
                    } else {
                        assert(out[i] == acc[i]);
                    }
                }
            }
            if distinct_keys(fetched) {
                assert(distinct_keys(prev)) by {
                    assert forall|a: int, b: int| 0 <= a < b < prev.len() implies row_key(
                        #[trigger] prev[a],
                    ) != row_key(#[trigger] prev[b]) by {
                        assert(row_key(fetched[a]) != row_key(fetched[b]));
                    }
                }
                assert forall|j: int| 0 <= j < fetched.len() implies exists|i: int|
                    0 <= i < out.len() && #[trigger] out[i] == #[trigger] fetched[j] by {
                    if j == fetched.len() - 1 {
                        assert(out[p] == item);
                    } else {
                        let i = choose|i: int| 0 <= i < acc.len() && #[trigger] acc[i] == prev[j];
                        if i == p {
                            assert(row_key(fetched[j]) == row_key(current[p]));
                            assert(row_key(fetched[j]) != row_key(fetched[fetched.len() - 1]));
                        }
                        assert(out[i] == acc[i]);
                    }
                }
            }
        } else {
            assert(out == acc.push(item));
            assert forall|j: int| 0 <= j < fetched.len() implies exists|i: int|
                0 <= i < out.len() && row_key(#[trigger] out[i]) == row_key(#[trigger] fetched[j]) by {
                if j == fetched.len() - 1 {
                    assert(out[acc.len() as int] == item);
                } else {
                    let i = choose|i: int|
                        0 <= i < acc.len() && row_key(#[trigger] acc[i]) == row_key(prev[j]);
                    assert(out[i] == acc[i]);
                }
            }
            if distinct_keys(fetched) {
                assert(distinct_keys(prev)) by {
                    assert forall|a: int, b: int| 0 <= a < b < prev.len() implies row_key(
                        #[trigger] prev[a],
                    ) != row_key(#[trigger] prev[b]) by {
                        assert(row_key(fetched[a]) != row_key(fetched[b]));
                    }
                }
                assert forall|j: int| 0 <= j < fetched.len() implies exists|i: int|
                    0 <= i < out.len() && #[trigger] out[i] == #[trigger] fetched[j] by {
                    if j == fetched.len() - 1 {
                        assert(out[acc.len() as int] == item);
                    } else {
                        let i = choose|i: int| 0 <= i < acc.len() && #[trigger] acc[i] == prev[j];
                        assert(out[i] == acc[i]);
                    }
                }
            }
        }
    }
}

proof fn lemma_rows_with_keys(rows: Seq<DownloadItem>, keys: Seq<(i32, DownloadType)>)
    ensures
        forall|k: int|
            0 <= k < rows_with_keys(rows, keys).len() ==> keys.contains(
                row_key(#[trigger] rows_with_keys(rows, keys)[k]),
            ),
        forall|i: int|
            0 <= i < rows.len() && keys.contains(row_key(#[trigger] rows[i])) ==> exists|k: int|
                0 <= k < rows_with_keys(rows, keys).len() && #[trigger] rows_with_keys(
                    rows,
                    keys,
                )[k] == rows[i],
    decreases rows.len(),
{
    if rows.len() > 0 {
        let prev = rows.drop_last();
        lemma_rows_with_keys(prev, keys);
        let rest = rows_with_keys(prev, keys);
        let out = rows_with_keys(rows, keys);
        assert forall|k: int| 0 <= k < out.len() implies keys.contains(
            row_key(#[trigger] out[k]),
        ) by {
            if k < rest.len() {
                assert(out[k] == rest[k]);
            }
        }
        assert forall|i: int| 0 <= i < rows.len() && keys.contains(row_key(#[trigger] rows[i])) implies exists|
            k: int,
        | 0 <= k < out.len() && #[trigger] out[k] == rows[i] by {
            if i == rows.len() - 1 {
                assert(out[rest.len() as int] == rows[i]);
            } else {
                assert(prev[i] == rows[i]);
                let k = choose|k: int| 0 <= k < rest.len() && #[trigger] rest[k] == prev[i];
                assert(out[k] == rest[k]);
            }
        }
    }
}

/// After a poll, every row shown is one the poll reported.
pub proof fn lemma_merge_keeps_only_reported(current: Seq<DownloadItem>, fetched: Seq<DownloadItem>)
    ensures
        forall|k: int|
            0 <= k < merged_rows(current, fetched).len() ==> exists|j: int|
                0 <= j < fetched.len() && row_key(#[trigger] fetched[j]) == row_key(
                    #[trigger] merged_rows(current, fetched)[k],
                ),
{
    let keys = fetched.map_values(|r: DownloadItem| row_key(r));
    let all = apply_fetched(current, fetched);
    let out = merged_rows(current, fetched);
    lemma_rows_with_keys(all, keys);
    assert forall|k: int| 0 <= k < out.len() implies exists|j: int|
        0 <= j < fetched.len() && row_key(#[trigger] fetched[j]) == row_key(#[trigger] out[k]) by {
        assert(keys.contains(row_key(out[k])));
        let j = choose|j: int| 0 <= j < keys.len() && keys[j] == row_key(out[k]);
        assert(row_key(fetched[j]) == keys[j]);
    }
}

/// After a poll, every download the poll reported is shown.
pub proof fn lemma_merge_keeps_all_reported(current: Seq<DownloadItem>, fetched: Seq<DownloadItem>)
    ensures
        forall|j: int|
            0 <= j < fetched.len() ==> exists|k: int|
                0 <= k < merged_rows(current, fetched).len() && row_key(
                    #[trigger] merged_rows(current, fetched)[k],
                ) == row_key(#[trigger] fetched[j]),
{
    let keys = fetched.map_values(|r: DownloadItem| row_key(r));
    let all = apply_fetched(current, fetched);
    let out = merged_rows(current, fetched);
    lemma_apply_fetched_keys(current, fetched);
    lemma_rows_with_keys(all, keys);
    assert forall|j: int| 0 <= j < fetched.len() implies exists|k: int|
        0 <= k < out.len() && row_key(#[trigger] out[k]) == row_key(#[trigger] fetched[j]) by {
        let i = choose|i: int|
            0 <= i < all.len() && row_key(#[trigger] all[i]) == row_key(fetched[j]);
        assert(keys[j] == row_key(fetched[j]));
        assert(keys.contains(row_key(all[i])));
        let k = choose|k: int| 0 <= k < out.len() && #[trigger] out[k] == all[i];
        assert(row_key(out[k]) == row_key(fetched[j]));
    }
}

/// When a poll reports each download once, each reported row is shown exactly as
/// reported.
pub proof fn lemma_merge_shows_reported(current: Seq<DownloadItem>, fetched: Seq<DownloadItem>)
    requires
        distinct_keys(fetched),
    ensures
        forall|j: int|
            0 <= j < fetched.len() ==> exists|k: int|
                0 <= k < merged_rows(current, fetched).len() && #[trigger] merged_rows(
                    current,
                    fetched,
                )[k] == #[trigger] fetched[j],
{
    let keys = fetched.map_values(|r: DownloadItem| row_key(r));
    let all = apply_fetched(current, fetched);
    let out = merged_rows(current, fetched);
    lemma_apply_fetched_keys(current, fetched);
    lemma_rows_with_keys(all, keys);
    assert forall|j: int| 0 <= j < fetched.len() implies exists|k: int|
        0 <= k < out.len() && #[trigger] out[k] == #[trigger] fetched[j] by {
        let i = choose|i: int| 0 <= i < all.len() && #[trigger] all[i] == fetched[j];
        assert(keys[j] == row_key(fetched[j]));
        assert(keys.contains(row_key(all[i])));
        let k = choose|k: int| 0 <= k < out.len() && #[trigger] out[k] == all[i];
        assert(out[k] == fetched[j]);
    }
}

/// The rows, in order, other than the row with the given id and kind.
pub open spec fn rows_without(rows: Seq<DownloadItem>, id: i32, t: DownloadType) -> Seq<DownloadItem>
    decreases rows.len(),
{
    if rows.len() == 0 {
        Seq::empty()
    } else {
        let rest = rows_without(rows.drop_last(), id, t);
        if rows.last().id == id && rows.last().download_type == t {
            rest
        } else {
            rest.push(rows.last())
        }
    }
}

/// Drops the rows with the given id and kind (after the service confirms a deletion).
pub fn remove_download(rows: Vec<DownloadItem>, id: i32, t: DownloadType) -> (r: Vec<DownloadItem>)
    ensures
        r@ == rows_without(rows@, id, t),
{
    let ghost all = rows@;
    let mut out: Vec<DownloadItem> = Vec::new();
    for row in it: rows.into_iter()
        invariant
            it.seq() == all,
            out@ == rows_without(all.take(it.index() as int), id, t),
    {
        let ghost idx = it.index() as int;
        assert(all.take(idx + 1).drop_last() =~= all.take(idx));
        if !(row.id == id && row.download_type == t) {
            out.push(row);
        }
    }
    assert(all.take(all.len() as int) =~= all);
    out
}

} // verus!
