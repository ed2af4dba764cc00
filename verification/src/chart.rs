//! The network activity chart: the summed speeds of the active downloads, the history
//! of the last ten minutes, and the plain figures the chart is drawn from.

use std::collections::VecDeque;
use vstd::prelude::*;
use crate::download::DownloadItem;

verus! {

/// How long a sample stays in the history, in milliseconds.
pub const TEN_MINUTES_MS: i64 = 600000;

/// One sample of the summed speeds, with the time it was taken (milliseconds since the
/// epoch).
#[derive(Clone, Copy, Debug, PartialEq, Eq, Structural)]
pub struct DataPoint {
    pub timestamp: i64,
    pub download_speed: i64,
    pub upload_speed: i64,
}

/// The download speeds of the active downloads, added up.
pub open spec fn active_download_sum(items: Seq<DownloadItem>) -> int
    decreases items.len(),
{
    if items.len() == 0 {
        0
    } else {
        active_download_sum(items.drop_last()) + if items.last().active {
            items.last().download_speed as int
        } else {
            0
        }
    }
}

/// The upload speeds of the active downloads, added up.
pub open spec fn active_upload_sum(items: Seq<DownloadItem>) -> int
    decreases items.len(),
{
    if items.len() == 0 {
        0
    } else {
        active_upload_sum(items.drop_last()) + if items.last().active {
            items.last().upload_speed as int
        } else {
            0
        }
    }
}

/// Every running total of both sums fits in an `i64`.
pub open spec fn sums_fit(items: Seq<DownloadItem>) -> bool {
    forall|k: int|
        0 <= k <= items.len() ==> i64::MIN <= #[trigger] active_download_sum(items.take(k))
            <= i64::MAX && i64::MIN <= active_upload_sum(items.take(k)) <= i64::MAX
}

/// The summed download and upload speeds of the active downloads.
pub fn calculate_total_speeds(downloads: &[DownloadItem]) -> (r: (i64, i64))
    requires
        sums_fit(downloads@),
    ensures
        r.0 == active_download_sum(downloads@),
        r.1 == active_upload_sum(downloads@),
{
    let mut dl: i64 = 0;
    let mut ul: i64 = 0;
    let mut i: usize = 0;
    assert(downloads@.take(0) =~= Seq::<DownloadItem>::empty());
    while i < downloads.len()
        invariant
            i <= downloads@.len(),
            sums_fit(downloads@),
            dl == active_download_sum(downloads@.take(i as int)),
            ul == active_upload_sum(downloads@.take(i as int)),
        decreases downloads@.len() - i,
    {
        assert(downloads@.take(i + 1).drop_last() =~= downloads@.take(i as int));
        let ghost next = downloads@.take(i + 1);
        assert(i64::MIN <= active_download_sum(next) <= i64::MAX);
        assert(i64::MIN <= active_upload_sum(next) <= i64::MAX);
        let item = &downloads[i];
        if item.active {
            dl = dl + item.download_speed;
            ul = ul + item.upload_speed;
        }
        i = i + 1;
    }
    assert(downloads@.take(i as int) =~= downloads@);
    (dl, ul)
}

/// Something moves when either summed speed is above zero; the chart opens then and
/// closes otherwise.
pub fn has_activity(speeds: (i64, i64)) -> (r: bool)
    ensures
        r == (speeds.0 > 0 || speeds.1 > 0),
{
    speeds.0 > 0 || speeds.1 > 0
}

/// Whether the chart's panel is folded: it starts folded, opens while something moves
/// and folds when nothing does, and a click on its header flips it.
pub struct ChartPanel {
    pub collapsed: bool,
}

impl ChartPanel {
    /// A folded panel.
    pub fn new() -> (r: ChartPanel)
        ensures
            r.collapsed,
    {
        ChartPanel { collapsed: true }
    }

    /// Follows the summed speeds: open while either is above zero, folded otherwise.
    pub fn follow_activity(&mut self, speeds: (i64, i64))
        ensures
            final(self).collapsed == !(speeds.0 > 0 || speeds.1 > 0),
    {
        self.collapsed = !has_activity(speeds);
    }

    /// A click on the header: folds an open panel and opens a folded one.
    pub fn toggle(&mut self)
        ensures
            final(self).collapsed == !old(self).collapsed,
    {
        self.collapsed = !self.collapsed;
    }
}

/// A sample older than ten minutes at `now`.
pub open spec fn stale(p: DataPoint, now: int) -> bool {
    now - p.timestamp > TEN_MINUTES_MS
}

/// The history with its stale samples dropped from the front, up to the first one that
/// is not stale.
pub open spec fn pruned(s: Seq<DataPoint>, now: int) -> Seq<DataPoint>
    decreases s.len(),
{
    if s.len() > 0 && stale(s[0], now) {
        pruned(s.drop_first(), now)
    } else {
        s
    }
}

/// The history after the speeds were read at `now`: while something moves, the sample
/// is added at the back and the stale samples are dropped from the front; while nothing
/// moves the history stays as it is.
pub open spec fn recorded(s: Seq<DataPoint>, now: int, dl: int, ul: int) -> Seq<DataPoint> {
    if dl > 0 || ul > 0 {
        pruned(s.push(DataPoint { timestamp: now as i64, download_speed: dl as i64, upload_speed: ul as i64 }), now)
    } else {
        s
    }
}

/// Adds the speeds read at `now` to the history.
pub fn record_speeds(points: &mut VecDeque<DataPoint>, now: i64, dl: i64, ul: i64)
    ensures
        final(points)@ == recorded(old(points)@, now as int, dl as int, ul as int),
{
    if dl > 0 || ul > 0 {
        points.push_back(DataPoint { timestamp: now, download_speed: dl, upload_speed: ul });
        let ghost full = points@;
        while points.len() > 0 && (now as i128) - (points[0].timestamp as i128) > (TEN_MINUTES_MS as i128)
            invariant
                pruned(points@, now as int) == pruned(full, now as int),
            decreases points@.len(),
        {
            let ghost before = points@;
            let _ = points.pop_front();
            assert(points@ =~= before.drop_first());
        }
    }
}

/// The history ordered by time.
pub open spec fn sorted_by_time(s: Seq<DataPoint>) -> bool {
    forall|i: int, j: int| 0 <= i <= j < s.len() ==> s[i].timestamp <= s[j].timestamp
}

proof fn lemma_pruned_suffix(s: Seq<DataPoint>, now: int) -> (k: int)
    ensures
        0 <= k <= s.len(),
        pruned(s, now) == s.subrange(k, s.len() as int),
        k < s.len() ==> !stale(s[k], now),
        forall|j: int| 0 <= j < k ==> stale(#[trigger] s[j], now),
    decreases s.len(),
{
    if s.len() > 0 && stale(s[0], now) {
        let k1 = lemma_pruned_suffix(s.drop_first(), now);
        assert(s.drop_first().subrange(k1, s.len() - 1) =~= s.subrange(k1 + 1, s.len() as int));
        assert forall|j: int| 0 <= j < k1 + 1 implies stale(#[trigger] s[j], now) by {
            if j > 0 {
                assert(s[j] == s.drop_first()[j - 1]);
            }
        }
        k1 + 1
    } else {
        assert(s.subrange(0, s.len() as int) =~= s);
        0
    }
}

/// A history kept in time order, read at times that never go back, stays in time order,
/// ends with the newest sample, and holds only samples of the last ten minutes.
pub proof fn lemma_history_window(s: Seq<DataPoint>, now: i64, dl: i64, ul: i64)
    requires
        sorted_by_time(s),
        forall|i: int| 0 <= i < s.len() ==> s[i].timestamp <= now,
        dl > 0 || ul > 0,
    ensures
        ({
            let r = recorded(s, now as int, dl as int, ul as int);
            &&& sorted_by_time(r)
            &&& r.len() > 0
            &&& r.last() == (DataPoint { timestamp: now, download_speed: dl, upload_speed: ul })
            &&& forall|i: int|
                0 <= i < r.len() ==> 0 <= now - #[trigger] r[i].timestamp <= TEN_MINUTES_MS
        }),
{
    let p = DataPoint { timestamp: now, download_speed: dl, upload_speed: ul };
    let t = s.push(p);
    let k = lemma_pruned_suffix(t, now as int);
    assert(!stale(t[t.len() - 1], now as int));
    assert(k < t.len()) by {
        if k == t.len() {
            assert(stale(t[t.len() - 1], now as int));
        }
    }
    let r = t.subrange(k, t.len() as int);
    assert(sorted_by_time(t)) by {
        assert forall|i: int, j: int| 0 <= i <= j < t.len() implies t[i].timestamp
            <= t[j].timestamp by {
            if j == t.len() - 1 {
                if i < s.len() {
                    assert(t[i] == s[i]);
                }
            } else {
                assert(t[i] == s[i]);
                assert(t[j] == s[j]);
            }
        }
    }
    assert forall|i: int| 0 <= i < r.len() implies 0 <= now - #[trigger] r[i].timestamp
        <= TEN_MINUTES_MS by {
        assert(r[i] == t[k + i]);
        assert(t[k].timestamp <= t[k + i].timestamp);
        if k + i < s.len() {
            assert(t[k + i] == s[k + i]);
        }
    }
    assert forall|i: int, j: int| 0 <= i <= j < r.len() implies r[i].timestamp
        <= r[j].timestamp by {
        assert(r[i] == t[k + i]);
        assert(r[j] == t[k + j]);
    }
}

/// What the chart says instead of plotting: that there are no samples, or that none
/// of them moves; nothing when there is something to plot.
pub open spec fn chart_notice_of(s: Seq<DataPoint>) -> Option<Seq<char>> {
    if s.len() == 0 {
        Some("No data available"@)
    } else if forall|i: int|
        0 <= i < s.len() ==> !(#[trigger] s[i].download_speed > 0 || s[i].upload_speed > 0) {
        Some("No network activity"@)
    } else {
        None
    }
}

/// What the chart says instead of plotting, if anything.
pub fn chart_notice(points: &VecDeque<DataPoint>) -> (r: Option<&'static str>)
    ensures
        match r {
            Some(t) => chart_notice_of(points@) == Some(t@),
            None => chart_notice_of(points@) is None,
        },
{
    if points.len() == 0 {
        return Some("No data available");
    }
    let mut i: usize = 0;
    while i < points.len()
        invariant
            i <= points@.len(),
            forall|j: int|
                0 <= j < i ==> !(#[trigger] points@[j].download_speed > 0 || points@[j].upload_speed
                    > 0),
        decreases points@.len() - i,
    {
        if points[i].download_speed > 0 || points[i].upload_speed > 0 {
            return None;
        }
        i = i + 1;
    }
    Some("No network activity")
}

/// The largest download and upload speeds in the history (0 for an empty one).
pub open spec fn peak_of(s: Seq<DataPoint>) -> (int, int)
    decreases s.len(),
{
    if s.len() == 0 {
        (0, 0)
    } else if s.len() == 1 {
        (s[0].download_speed as int, s[0].upload_speed as int)
    } else {
        let rest = peak_of(s.drop_last());
        let p = s.last();
        (
            if p.download_speed > rest.0 {
                p.download_speed as int
            } else {
                rest.0
            },
            if p.upload_speed > rest.1 {
                p.upload_speed as int
            } else {
                rest.1
            },
        )
    }
}

/// The largest download and upload speeds in the history (0 for an empty one), from
/// which the chart's scale is chosen.
pub fn peak_speeds(points: &VecDeque<DataPoint>) -> (r: (i64, i64))
    ensures
        r.0 == peak_of(points@).0,
        r.1 == peak_of(points@).1,
{
    if points.len() == 0 {
        return (0, 0);
    }
    let mut dl: i64 = points[0].download_speed;
    let mut ul: i64 = points[0].upload_speed;
    let mut i: usize = 1;
    assert(points@.take(1).drop_last() =~= Seq::<DataPoint>::empty());
    while i < points.len()
        invariant
            1 <= i <= points@.len(),
            dl == peak_of(points@.take(i as int)).0,
            ul == peak_of(points@.take(i as int)).1,
        decreases points@.len() - i,
    {
        assert(points@.take(i + 1).drop_last() =~= points@.take(i as int));
        let p = points[i];
        if p.download_speed > dl {
            dl = p.download_speed;
        }
        if p.upload_speed > ul {
            ul = p.upload_speed;
        }
        i = i + 1;
    }
    assert(points@.take(i as int) =~= points@);
    (dl, ul)
}

/// The largest speed in the history is at least every speed in it.
pub proof fn lemma_peak_bounds(s: Seq<DataPoint>)
    ensures
        forall|i: int|
            0 <= i < s.len() ==> #[trigger] s[i].download_speed <= peak_of(s).0
                && s[i].upload_speed <= peak_of(s).1,
    decreases s.len(),
{
    if s.len() > 1 {
        lemma_peak_bounds(s.drop_last());
        assert forall|i: int| 0 <= i < s.len() implies #[trigger] s[i].download_speed
            <= peak_of(s).0 && s[i].upload_speed <= peak_of(s).1 by {
            if i < s.len() - 1 {
                assert(s[i] == s.drop_last()[i]);
            }
        }
    }
}

/// The time span the chart covers: from the oldest sample (ten minutes before `now`
/// when there is none) to the newest (`now` when there is none), and at least a second.
pub open spec fn time_span_of(s: Seq<DataPoint>, now: int) -> (int, int) {
    let oldest = if s.len() > 0 {
        s[0].timestamp as int
    } else {
        now - TEN_MINUTES_MS
    };
    let newest = if s.len() > 0 {
        s.last().timestamp as int
    } else {
        now
    };
    (oldest, if newest - oldest > 1000 {
        newest - oldest
    } else {
        1000
    })
}

/// The start and length, in milliseconds, of the time span the chart covers.
pub fn time_span(points: &VecDeque<DataPoint>, now: i64) -> (r: (i128, i128))
    ensures
        r.0 == time_span_of(points@, now as int).0,
        r.1 == time_span_of(points@, now as int).1,
{
    let n = points.len();
    let oldest: i128 = if n > 0 {
        points[0].timestamp as i128
    } else {
        (now as i128) - (TEN_MINUTES_MS as i128)
    };
    let newest: i128 = if n > 0 {
        points[n - 1].timestamp as i128
    } else {
        now as i128
    };
    let range = if newest - oldest > 1000 {
        newest - oldest
    } else {
        1000
    };
    (oldest, range)
}

/// Every how many samples a time label is written: every one up to eight samples, else
/// the count divided by eight.
pub open spec fn label_step_of(len: int) -> int {
    if len <= 8 {
        1
    } else if len / 8 > 1 {
        len / 8
    } else {
        1
    }
}

/// Every how many samples a time label is written.
pub fn label_step(len: usize) -> (r: usize)
    ensures
        r == label_step_of(len as int),
        r >= 1,
{
    if len <= 8 {
        1
    } else if len / 8 > 1 {
        len / 8
    } else {
        1
    }
}

/// Whether the sample at `idx` gets a time label: every step-th one, and the last.
pub fn shows_time_label(idx: usize, len: usize) -> (r: bool)
    requires
        idx < len,
    ensures
        r == (idx as int % label_step_of(len as int) == 0 || idx == len - 1),
{
    let step = label_step(len);
    idx % step == 0 || idx == len - 1
}

/// The colour used when the page does not define a style variable.
pub open spec fn css_fallback_of(name: Seq<char>) -> Seq<char> {
    if name == "--bg-card"@ {
        "#1a1a1a"@
    } else if name == "--text-primary"@ {
        "#ffffff"@
    } else if name == "--text-secondary"@ {
        "#a3a3a3"@
    } else if name == "--border-secondary"@ {
        "rgba(255, 255, 255, 0.05)"@
    } else {
        "#000000"@
    }
}

/// The colour used when the page does not define a style variable.
pub fn css_fallback(name: &str) -> (r: &'static str)
    ensures
        r@ == css_fallback_of(name@),
{
    if crate::text::str_eq(name, "--bg-card") {
        "#1a1a1a"
    } else if crate::text::str_eq(name, "--text-primary") {
        "#ffffff"
    } else if crate::text::str_eq(name, "--text-secondary") {
        "#a3a3a3"
    } else if crate::text::str_eq(name, "--border-secondary") {
        "rgba(255, 255, 255, 0.05)"
    } else {
        "#000000"
    }
}

} // verus!
