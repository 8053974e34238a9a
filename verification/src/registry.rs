use vstd::prelude::*;

use crate::chart::{has_label, insert_model, register_model, resize_model};
use crate::chart::{Chart, ChartType, LineColor, LineModel};
use crate::error::Error;
use crate::snapshot::{info_json, info_to_json, lines_json, lines_to_json};

verus! {

/// One registry slot: a chart under its numeric id, together with its idle
/// timeout and the time it was last touched, both in milliseconds.
pub struct ChartEntry {
    pub id: usize,
    pub chart: Chart,
    pub tti_ms: u64,
    pub last_touch_ms: u64,
}

/// Whether an entry is still live at `now_ms`: it has been idle no longer
/// than its idle timeout.
pub open spec fn live(e: ChartEntry, now_ms: u64) -> bool {
    now_ms <= e.last_touch_ms + e.tti_ms
}

/// No two entries share a chart id.
pub open spec fn unique_ids(s: Seq<ChartEntry>) -> bool {
    forall|i: int, j: int|
        0 <= i < s.len() && 0 <= j < s.len() && i != j ==> #[trigger] s[i].id != #[trigger] s[j].id
}

/// Well-formed registry contents: ids are unique and every chart is
/// well-formed.
pub open spec fn entries_wf(s: Seq<ChartEntry>) -> bool {
    unique_ids(s) && forall|i: int| 0 <= i < s.len() ==> (#[trigger] s[i].chart).wf()
}

/// The entries that are still live at `now_ms`, in order.
pub open spec fn live_view(s: Seq<ChartEntry>, now_ms: u64) -> Seq<ChartEntry>
    decreases s.len(),
{
    if s.len() == 0 {
        Seq::empty()
    } else {
        let rest = live_view(s.drop_last(), now_ms);
        if live(s.last(), now_ms) {
            rest.push(s.last())
        } else {
            rest
        }
    }
}

/// Whether a live entry with the given id exists at `now_ms`.
pub open spec fn spec_contains(s: Seq<ChartEntry>, id: usize, now_ms: u64) -> bool {
    exists|i: int| 0 <= i < s.len() && #[trigger] s[i].id == id && live(s[i], now_ms)
}

/// The index of the entry with the given id (unique when ids are unique).
pub open spec fn id_index(s: Seq<ChartEntry>, id: usize) -> int {
    choose|i: int| 0 <= i < s.len() && #[trigger] s[i].id == id
}

/// How a touched entry relates to its old self: same id and timeout, last
/// touched at `now_ms`, same chart metadata, and its lines now hold `m`.
pub open spec fn entry_stepped(
    eo: ChartEntry,
    en: ChartEntry,
    now_ms: u64,
    m: Seq<LineModel>,
) -> bool {
    &&& en.id == eo.id
    &&& en.tti_ms == eo.tti_ms
    &&& en.last_touch_ms == now_ms
    &&& en.chart.info == eo.chart.info
    &&& en.chart.model() == m
}

/// Every entry of the live view is live at `now_ms`, occurs in the source,
/// and the live view keeps well-formedness.
pub proof fn lemma_live_view_wf(s: Seq<ChartEntry>, now_ms: u64)
    requires
        entries_wf(s),
    ensures
        entries_wf(live_view(s, now_ms)),
        forall|k: int|
            0 <= k < live_view(s, now_ms).len() ==> live(#[trigger] live_view(s, now_ms)[k], now_ms)
                && s.contains(live_view(s, now_ms)[k]),
    decreases s.len(),
{
    if s.len() > 0 {
        let prefix = s.drop_last();
        assert(entries_wf(prefix)) by {
            assert(forall|i: int| 0 <= i < prefix.len() ==> prefix[i] == s[i]);
        }
        lemma_live_view_wf(prefix, now_ms);
        let rest = live_view(prefix, now_ms);
        assert(forall|k: int| 0 <= k < rest.len() ==> prefix.contains(#[trigger] rest[k]));
        assert(forall|k: int| prefix.contains(#[trigger] prefix[k]) ==> s.contains(prefix[k]));
        assert(forall|e: ChartEntry| prefix.contains(e) ==> s.contains(e)) by {
            assert(forall|i: int|
                0 <= i < prefix.len() ==> #[trigger] prefix[i] == s[i] && s.contains(s[i]));
        }
        if live(s.last(), now_ms) {
            let lv = rest.push(s.last());
            assert(s.contains(s.last()));
            assert(unique_ids(lv)) by {
                assert(forall|k: int|
                    0 <= k < rest.len() ==> (exists|i: int|
                        0 <= i < prefix.len() && #[trigger] prefix[i] == #[trigger] rest[k]));
                assert forall|i: int, j: int|
                    0 <= i < lv.len() && 0 <= j < lv.len() && i != j implies #[trigger] lv[i].id
                    != #[trigger] lv[j].id by {
                    if i < rest.len() && j < rest.len() {
                        assert(rest[i].id != rest[j].id);
                    } else if i < rest.len() && j == rest.len() {
                        let wi = choose|w: int| 0 <= w < prefix.len() && #[trigger] prefix[w]
                            == rest[i];
                        assert(s[wi].id != s[s.len() - 1].id);
                    } else if j < rest.len() && i == rest.len() {
                        let wj = choose|w: int| 0 <= w < prefix.len() && #[trigger] prefix[w]
                            == rest[j];
                        assert(s[wj].id != s[s.len() - 1].id);
                    }
                }
            }
        }
    }
}

/// A live entry survives into the live view: lazy eviction removes only
/// expired entries, so a duplicate-id creation attempt (or any failed
/// operation) leaves every live chart's stored state unchanged.
pub proof fn lemma_live_view_keeps(s: Seq<ChartEntry>, now_ms: u64, i: int)
    requires
        0 <= i < s.len(),
        live(s[i], now_ms),
    ensures
        live_view(s, now_ms).contains(s[i]),
    decreases s.len(),
{
    if i == s.len() - 1 {
        assert(live_view(s, now_ms).last() == s[i]);
    } else {
        let prefix = s.drop_last();
        lemma_live_view_keeps(prefix, now_ms, i);
        let rest = live_view(prefix, now_ms);
        let w = choose|w: int| 0 <= w < rest.len() && rest[w] == prefix[i];
        if live(s.last(), now_ms) {
            assert(live_view(s, now_ms)[w] == s[i]);
        } else {
            assert(live_view(s, now_ms)[w] == s[i]);
        }
    }
}

/// Filtering to the live view neither invents nor loses a live id: an id
/// is found after lazy eviction exactly when a live entry carried it.
pub proof fn lemma_live_view_contains(s: Seq<ChartEntry>, id: usize, now_ms: u64)
    ensures
        spec_contains(live_view(s, now_ms), id, now_ms) == spec_contains(s, id, now_ms),
    decreases s.len(),
{
    if s.len() > 0 {
        let prefix = s.drop_last();
        lemma_live_view_contains(prefix, id, now_ms);
        let rest = live_view(prefix, now_ms);
        if spec_contains(s, id, now_ms) {
            let i = choose|i: int|
                0 <= i < s.len() && #[trigger] s[i].id == id && live(s[i], now_ms);
            if i == s.len() - 1 {
                assert(live_view(s, now_ms).last() == s[i]);
                assert(spec_contains(live_view(s, now_ms), id, now_ms));
            } else {
                assert(s[i] == prefix[i]);
                assert(spec_contains(prefix, id, now_ms));
                let w = choose|w: int|
                    0 <= w < rest.len() && #[trigger] rest[w].id == id && live(rest[w], now_ms);
                assert(live_view(s, now_ms)[w] == rest[w]);
                assert(spec_contains(live_view(s, now_ms), id, now_ms));
            }
        }
        if spec_contains(live_view(s, now_ms), id, now_ms) {
            let k = choose|k: int|
                0 <= k < live_view(s, now_ms).len() && #[trigger] live_view(s, now_ms)[k].id == id
                    && live(live_view(s, now_ms)[k], now_ms);
            if live(s.last(), now_ms) && k == live_view(s, now_ms).len() - 1 {
                assert(s[s.len() - 1].id == id);
                assert(spec_contains(s, id, now_ms));
            } else {
                assert(live_view(s, now_ms)[k] == rest[k]);
                assert(spec_contains(prefix, id, now_ms));
                let w = choose|w: int|
                    0 <= w < prefix.len() && #[trigger] prefix[w].id == id && live(
                        prefix[w],
                        now_ms,
                    );
                assert(s[w] == prefix[w]);
                assert(spec_contains(s, id, now_ms));
            }
        }
    }
}

/// A chart that was created or touched recently enough is found: whenever
/// an entry's last touch lies no longer than its idle timeout before
/// `now_ms`, an existence check at `now_ms` succeeds for its id. In
/// particular, creating a chart and probing it within its timeout reports
/// it present.
pub proof fn lemma_fresh_entry_exists(s: Seq<ChartEntry>, j: int, now_ms: u64)
    requires
        0 <= j < s.len(),
        now_ms <= s[j].last_touch_ms + s[j].tti_ms,
    ensures
        spec_contains(s, s[j].id, now_ms),
{
    assert(s[j].id == s[j].id && live(s[j], now_ms));
}

/// Idle timeout: once every entry carrying an id has been left untouched
/// for longer than its idle timeout, an existence check for that id fails,
/// and hence (by the operations' contracts) every operation addressing it
/// reports the chart as unknown.
pub proof fn lemma_idle_chart_gone(s: Seq<ChartEntry>, id: usize, now_ms: u64)
    requires
        forall|i: int|
            0 <= i < s.len() && #[trigger] s[i].id == id ==> now_ms > s[i].last_touch_ms
                + s[i].tti_ms,
    ensures
        !spec_contains(s, id, now_ms),
{
}

/// Exec check of [`live`], guarded against clock arithmetic underflow.
fn entry_is_live(e: &ChartEntry, now_ms: u64) -> (r: bool)
    ensures
        r == live(*e, now_ms),
{
    now_ms <= e.last_touch_ms || now_ms - e.last_touch_ms <= e.tti_ms
}

/// The chart registry: charts indexed by numeric id, each carrying an idle
/// timeout. Entries idle for longer than their timeout are treated as
/// absent and removed lazily by the next mutating operation; every
/// operation takes the current time in milliseconds from its caller.
pub struct Charts {
    pub entries: Vec<ChartEntry>,
}

impl Charts {
    /// Well-formedness: unique ids, well-formed charts.
    pub open spec fn wf(self) -> bool {
        entries_wf(self.entries@)
    }

    /// An empty registry.
    pub fn new() -> (r: Charts)
        ensures
            r.wf(),
            r.entries@ =~= Seq::<ChartEntry>::empty(),
    {
        Charts { entries: Vec::new() }
    }

    /// Drops every expired entry, keeping live ones in order.
    fn purge(&mut self, now_ms: u64)
        ensures
            final(self).entries@ == live_view(old(self).entries@, now_ms),
    {
        let ghost s = old(self).entries@;
        let mut taken: Vec<ChartEntry> = Vec::new();
        core::mem::swap(&mut taken, &mut self.entries);
        let ghost n = taken@.len();
        proof {
            assert(taken@ == s);
            assert(self.entries@ =~= live_view(s.subrange(0, 0), now_ms));
            assert(s.subrange(0, n as int) =~= s);
        }
        let ghost j: int = 0;
        while taken.len() > 0
            invariant
                0 <= j <= n,
                n == s.len(),
                taken@ =~= s.subrange(j, n as int),
                self.entries@ == live_view(s.subrange(0, j), now_ms),
            decreases taken@.len(),
        {
            let e = taken.remove(0);
            proof {
                assert(e == s[j]);
            }
            let keep = entry_is_live(&e, now_ms);
            if keep {
                self.entries.push(e);
            }
            proof {
                assert(s.subrange(0, j + 1).drop_last() =~= s.subrange(0, j));
                assert(s.subrange(0, j + 1).last() == s[j]);
                assert(taken@ =~= s.subrange(j + 1, n as int));
                j = j + 1;
            }
        }
        proof {
            assert(s.subrange(j, n as int).len() == 0);
            assert(j == n);
        }
    }

    /// Finds the stored index of `index` among the current entries.
    fn find_idx(&self, index: usize) -> (r: Option<usize>)
        ensures
            match r {
                Some(i) => 0 <= i < self.entries@.len() && self.entries@[i as int].id == index,
                None => forall|k: int|
                    0 <= k < self.entries@.len() ==> #[trigger] self.entries@[k].id != index,
            },
    {
        let n: usize = self.entries.len();
        let mut i: usize = 0;
        while i < n
            invariant
                n == self.entries@.len(),
                i <= n,
                forall|k: int| 0 <= k < i ==> #[trigger] self.entries@[k].id != index,
            decreases n - i,
        {
            if self.entries[i].id == index {
                return Some(i);
            }
            i = i + 1;
        }
        None
    }

    /// True exactly when an unexpired chart is registered under `index` at
    /// `now_ms`. A pure probe: it does not touch the entry's idle timer.
    pub fn contains(&self, index: usize, now_ms: u64) -> (r: bool)
        ensures
            r == spec_contains(self.entries@, index, now_ms),
    {
        let n: usize = self.entries.len();
        let mut i: usize = 0;
        while i < n
            invariant
                n == self.entries@.len(),
                i <= n,
                forall|k: int|
                    0 <= k < i ==> !(#[trigger] self.entries@[k].id == index && live(
                        self.entries@[k],
                        now_ms,
                    )),
            decreases n - i,
        {
            if self.entries[i].id == index {
                let alive = entry_is_live(&self.entries[i], now_ms);
                if alive {
                    return true;
                }
            }
            i = i + 1;
        }
        false
    }

    /// Registers `chart` under `index` with idle timeout `tti_ms`, never
    /// overwriting: fails with `AlreadyExistIndexError` when a live chart
    /// already occupies `index`. Expired entries are evicted first.
    pub fn insert_chart(&mut self, index: usize, chart: Chart, tti_ms: u64, now_ms: u64) -> (r:
        Result<(), Error>)
        requires
            old(self).wf(),
            chart.wf(),
        ensures
            final(self).wf(),
            r is Ok <==> !spec_contains(old(self).entries@, index, now_ms),
            match r {
                Ok(_) => final(self).entries@ == live_view(old(self).entries@, now_ms).push(
                    (ChartEntry { id: index, chart: chart, tti_ms: tti_ms, last_touch_ms: now_ms }),
                ) && spec_contains(final(self).entries@, index, now_ms),
                Err(e) => e == Error::AlreadyExistIndexError && final(self).entries@ == live_view(
                    old(self).entries@,
                    now_ms,
                ),
            },
    {
        proof {
            lemma_live_view_wf(old(self).entries@, now_ms);
            lemma_live_view_contains(old(self).entries@, index, now_ms);
        }
        self.purge(now_ms);
        let present = self.contains(index, now_ms);
        if present {
            Err(Error::AlreadyExistIndexError)
        } else {
            let ghost lv = self.entries@;
            let entry = ChartEntry { id: index, chart, tti_ms, last_touch_ms: now_ms };
            self.entries.push(entry);
            proof {
                let m = self.entries@.len() - 1;
                assert(self.entries@[m].id == index && live(self.entries@[m], now_ms));
                assert(unique_ids(self.entries@)) by {
                    assert forall|i: int, j: int|
                        0 <= i < self.entries@.len() && 0 <= j < self.entries@.len() && i != j
                        implies #[trigger] self.entries@[i].id != #[trigger] self.entries@[j].id by {
                        if i < m && j < m {
                            assert(lv[i].id != lv[j].id);
                        } else if j == m && i < m {
                            assert(live(lv[i], now_ms));
                        } else if i == m && j < m {
                            assert(live(lv[j], now_ms));
                        }
                    }
                }
            }
            Ok(())
        }
    }

    /// Locates the live chart under `index`, evicting expired entries, and
    /// registers `label` with `color` on it (resetting any existing line of
    /// that label to empty). Touching the chart resets its idle timer.
    /// Fails with `InvalidChartNumberError` when no live chart has `index`.
    pub fn new_label(&mut self, index: usize, label: String, color: LineColor, now_ms: u64) -> (r:
        Result<(), Error>)
        requires
            old(self).wf(),
        ensures
            final(self).wf(),
            r is Ok <==> spec_contains(old(self).entries@, index, now_ms),
            match r {
                Ok(_) => ({
                    let lv = live_view(old(self).entries@, now_ms);
                    let j = id_index(lv, index);
                    &&& 0 <= j < lv.len()
                    &&& final(self).entries@.len() == lv.len()
                    &&& (forall|k: int|
                        0 <= k < lv.len() && k != j ==> final(self).entries@[k] == lv[k])
                    &&& entry_stepped(
                        lv[j],
                        final(self).entries@[j],
                        now_ms,
                        register_model(lv[j].chart.model(), label@, color),
                    )
                }),
                Err(e) => e == Error::InvalidChartNumberError && final(self).entries@ == live_view(
                    old(self).entries@,
                    now_ms,
                ),
            },
    {
        proof {
            lemma_live_view_wf(old(self).entries@, now_ms);
            lemma_live_view_contains(old(self).entries@, index, now_ms);
        }
        self.purge(now_ms);
        let ghost lv = self.entries@;
        let found = self.find_idx(index);
        let i = match found {
            Some(i) => i,
            None => {
                return Err(Error::InvalidChartNumberError);
            },
        };
        proof {
            assert(live(lv[i as int], now_ms));
            assert(spec_contains(lv, index, now_ms));
            let j = id_index(lv, index);
            assert(0 <= j < lv.len() && lv[j].id == index);
            assert(j == i);
        }
        {
            let slot = &mut self.entries[i];
            slot.last_touch_ms = now_ms;
            slot.chart.new_label(label, color);
        }
        proof {
            assert(self.entries@ =~= lv.update(i as int, self.entries@[i as int]));
        }
        Ok(())
    }

    /// Locates the live chart under `index`, evicting expired entries, and
    /// appends `data` to its line `label` under the chart's retention
    /// policy. Touching the chart resets its idle timer, also when the
    /// label turns out to be unregistered. Fails with
    /// `InvalidChartNumberError` when no live chart has `index` (checked
    /// first), and with `InvalidLineLabelError` when the chart exists but
    /// the label does not.
    pub fn insert_data(&mut self, index: usize, label: String, data: String, now_ms: u64) -> (r:
        Result<(), Error>)
        requires
            old(self).wf(),
        ensures
            final(self).wf(),
            r is Ok <==> ({
                let lv = live_view(old(self).entries@, now_ms);
                let j = id_index(lv, index);
                spec_contains(old(self).entries@, index, now_ms) && has_label(
                    lv[j].chart.model(),
                    label@,
                )
            }),
            match r {
                Ok(_) => ({
                    let lv = live_view(old(self).entries@, now_ms);
                    let j = id_index(lv, index);
                    &&& 0 <= j < lv.len()
                    &&& final(self).entries@.len() == lv.len()
                    &&& (forall|k: int|
                        0 <= k < lv.len() && k != j ==> final(self).entries@[k] == lv[k])
                    &&& entry_stepped(
                        lv[j],
                        final(self).entries@[j],
                        now_ms,
                        insert_model(
                            lv[j].chart.info.chart_type,
                            lv[j].chart.model(),
                            label@,
                            data@,
                        ),
                    )
                }),
                Err(e) => if e == Error::InvalidChartNumberError {
                    !spec_contains(old(self).entries@, index, now_ms) && final(self).entries@
                        == live_view(old(self).entries@, now_ms)
                } else {
                    e == Error::InvalidLineLabelError && ({
                        let lv = live_view(old(self).entries@, now_ms);
                        let j = id_index(lv, index);
                        &&& spec_contains(old(self).entries@, index, now_ms)
                        &&& !has_label(lv[j].chart.model(), label@)
                        &&& 0 <= j < lv.len()
                        &&& final(self).entries@.len() == lv.len()
                        &&& (forall|k: int|
                            0 <= k < lv.len() && k != j ==> final(self).entries@[k] == lv[k])
                        &&& entry_stepped(
                            lv[j],
                            final(self).entries@[j],
                            now_ms,
                            lv[j].chart.model(),
                        )
                    })
                },
            },
    {
        proof {
            lemma_live_view_wf(old(self).entries@, now_ms);
            lemma_live_view_contains(old(self).entries@, index, now_ms);
        }
        self.purge(now_ms);
        let ghost lv = self.entries@;
        let found = self.find_idx(index);
        let i = match found {
            Some(i) => i,
            None => {
                return Err(Error::InvalidChartNumberError);
            },
        };
        proof {
            assert(live(lv[i as int], now_ms));
            assert(spec_contains(lv, index, now_ms));
            let j = id_index(lv, index);
            assert(0 <= j < lv.len() && lv[j].id == index);
            assert(j == i);
        }
        let res: Result<(), Error>;
        {
            let slot = &mut self.entries[i];
            slot.last_touch_ms = now_ms;
            res = slot.chart.insert_data(label, data);
        }
        proof {
            assert(self.entries@ =~= lv.update(i as int, self.entries@[i as int]));
        }
        res
    }

    /// Locates the live chart under `index`, evicting expired entries, and
    /// changes its sliding-window capacity to `size`, truncating each line
    /// to its `size` most recent samples; a `Stack` chart is left as it is.
    /// Touching the chart resets its idle timer. Fails with
    /// `InvalidChartNumberError` when no live chart has `index`.
    pub fn resize_viewport(&mut self, index: usize, size: usize, now_ms: u64) -> (r: Result<
        (),
        Error,
    >)
        requires
            old(self).wf(),
            size >= 1,
        ensures
            final(self).wf(),
            r is Ok <==> spec_contains(old(self).entries@, index, now_ms),
            match r {
                Ok(_) => ({
                    let lv = live_view(old(self).entries@, now_ms);
                    let j = id_index(lv, index);
                    &&& 0 <= j < lv.len()
                    &&& final(self).entries@.len() == lv.len()
                    &&& (forall|k: int|
                        0 <= k < lv.len() && k != j ==> final(self).entries@[k] == lv[k])
                    &&& final(self).entries@[j].id == lv[j].id
                    &&& final(self).entries@[j].tti_ms == lv[j].tti_ms
                    &&& final(self).entries@[j].last_touch_ms == now_ms
                    &&& match lv[j].chart.info.chart_type {
                        ChartType::Stack => final(self).entries@[j].chart == lv[j].chart,
                        ChartType::PassThru(_) => {
                            &&& final(self).entries@[j].chart.info.chart_type
                                == ChartType::PassThru(size)
                            &&& final(self).entries@[j].chart.info.caption
                                == lv[j].chart.info.caption
                            &&& final(self).entries@[j].chart.info.interval_ms
                                == lv[j].chart.info.interval_ms
                            &&& final(self).entries@[j].chart.info.y_range
                                == lv[j].chart.info.y_range
                            &&& final(self).entries@[j].chart.model() == resize_model(
                                lv[j].chart.model(),
                                size as int,
                            )
                        },
                    }
                }),
                Err(e) => e == Error::InvalidChartNumberError && final(self).entries@ == live_view(
                    old(self).entries@,
                    now_ms,
                ),
            },
    {
        proof {
            lemma_live_view_wf(old(self).entries@, now_ms);
            lemma_live_view_contains(old(self).entries@, index, now_ms);
        }
        self.purge(now_ms);
        let ghost lv = self.entries@;
        let found = self.find_idx(index);
        let i = match found {
            Some(i) => i,
            None => {
                return Err(Error::InvalidChartNumberError);
            },
        };
        proof {
            assert(live(lv[i as int], now_ms));
            assert(spec_contains(lv, index, now_ms));
            let j = id_index(lv, index);
            assert(0 <= j < lv.len() && lv[j].id == index);
            assert(j == i);
        }
        {
            let slot = &mut self.entries[i];
            slot.last_touch_ms = now_ms;
            slot.chart.resize_viewport(size);
        }
        proof {
            assert(self.entries@ =~= lv.update(i as int, self.entries@[i as int]));
        }
        Ok(())
    }

    /// Serializes the lines of the live chart under `index` as JSON,
    /// evicting expired entries first. Touching the chart resets its idle
    /// timer; its stored state is otherwise unchanged. Fails with
    /// `InvalidChartNumberError` when no live chart has `index`.
    pub fn get_lines_as_json_string(&mut self, index: usize, now_ms: u64) -> (r: Result<
        String,
        Error,
    >)
        requires
            old(self).wf(),
        ensures
            final(self).wf(),
            r is Ok <==> spec_contains(old(self).entries@, index, now_ms),
            match r {
                Ok(s) => ({
                    let lv = live_view(old(self).entries@, now_ms);
                    let j = id_index(lv, index);
                    &&& 0 <= j < lv.len()
                    &&& s@ == lines_json(lv[j].chart.model())
                    &&& final(self).entries@.len() == lv.len()
                    &&& (forall|k: int|
                        0 <= k < lv.len() && k != j ==> final(self).entries@[k] == lv[k])
                    &&& entry_stepped(lv[j], final(self).entries@[j], now_ms, lv[j].chart.model())
                }),
                Err(e) => e == Error::InvalidChartNumberError && final(self).entries@ == live_view(
                    old(self).entries@,
                    now_ms,
                ),
            },
    {
        proof {
            lemma_live_view_wf(old(self).entries@, now_ms);
            lemma_live_view_contains(old(self).entries@, index, now_ms);
        }
        self.purge(now_ms);
        let ghost lv = self.entries@;
        let found = self.find_idx(index);
        let i = match found {
            Some(i) => i,
            None => {
                return Err(Error::InvalidChartNumberError);
            },
        };
        proof {
            assert(live(lv[i as int], now_ms));
            assert(spec_contains(lv, index, now_ms));
            let j = id_index(lv, index);
            assert(0 <= j < lv.len() && lv[j].id == index);
            assert(j == i);
        }
        let s: String;
        {
            let slot = &mut self.entries[i];
            slot.last_touch_ms = now_ms;
            s = lines_to_json(&slot.chart.lines);
        }
        proof {
            assert(self.entries@ =~= lv.update(i as int, self.entries@[i as int]));
        }
        Ok(s)
    }

    /// Serializes the metadata of the live chart under `index` as JSON,
    /// evicting expired entries first. Touching the chart resets its idle
    /// timer; its stored state is otherwise unchanged. Fails with
    /// `InvalidChartNumberError` when no live chart has `index`.
    pub fn get_info_as_json_string(&mut self, index: usize, now_ms: u64) -> (r: Result<
        String,
        Error,
    >)
        requires
            old(self).wf(),
        ensures
            final(self).wf(),
            r is Ok <==> spec_contains(old(self).entries@, index, now_ms),
            match r {
                Ok(s) => ({
                    let lv = live_view(old(self).entries@, now_ms);
                    let j = id_index(lv, index);
                    &&& 0 <= j < lv.len()
                    &&& s@ == info_json(lv[j].chart.info)
                    &&& final(self).entries@.len() == lv.len()
                    &&& (forall|k: int|
                        0 <= k < lv.len() && k != j ==> final(self).entries@[k] == lv[k])
                    &&& entry_stepped(lv[j], final(self).entries@[j], now_ms, lv[j].chart.model())
                }),
                Err(e) => e == Error::InvalidChartNumberError && final(self).entries@ == live_view(
                    old(self).entries@,
                    now_ms,
                ),
            },
    {
        proof {
            lemma_live_view_wf(old(self).entries@, now_ms);
            lemma_live_view_contains(old(self).entries@, index, now_ms);
        }
        self.purge(now_ms);
        let ghost lv = self.entries@;
        let found = self.find_idx(index);
        let i = match found {
            Some(i) => i,
            None => {
                return Err(Error::InvalidChartNumberError);
            },
        };
        proof {
            assert(live(lv[i as int], now_ms));
            assert(spec_contains(lv, index, now_ms));
            let j = id_index(lv, index);
            assert(0 <= j < lv.len() && lv[j].id == index);
            assert(j == i);
        }
        let s: String;
        {
            let slot = &mut self.entries[i];
            slot.last_touch_ms = now_ms;
            s = info_to_json(&slot.chart.info);
        }
        proof {
            assert(self.entries@ =~= lv.update(i as int, self.entries@[i as int]));
        }
        Ok(s)
    }
}

} // verus!
