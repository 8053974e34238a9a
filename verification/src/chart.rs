use vstd::prelude::*;

use crate::error::Error;

verus! {

/// The retention policy of a chart.
///
/// `Stack` lets every line accumulate samples without bound; `PassThru(c)`
/// keeps only the `c` most recent samples of each line (a sliding window,
/// `c` at least one).
#[derive(Clone, Copy, Debug, PartialEq, Eq, Structural)]
pub enum ChartType {
    Stack,
    PassThru(usize),
}

/// An 8-bit-per-channel display color attached to a line.
#[derive(Clone, Copy, Debug, PartialEq, Eq, Structural)]
pub struct LineColor {
    pub r: u8,
    pub g: u8,
    pub b: u8,
}

impl LineColor {
    pub fn init(r: u8, g: u8, b: u8) -> (c: Self)
        ensures
            c == (LineColor { r, g, b }),
    {
        LineColor { r, g, b }
    }
}

/// The inclusive y-axis bounds a consumer uses for its rendering scale.
///
/// Both bounds are carried as JSON number texts; the registry stores and
/// serializes them without interpreting the numeric value.
#[derive(Debug)]
pub struct YRange {
    pub start: String,
    pub end: String,
}

/// One chart's metadata: caption, retention policy, sampling interval and
/// y-axis range. Fixed at chart creation.
#[derive(Debug)]
pub struct ChartInfo {
    pub caption: String,
    pub chart_type: ChartType,
    pub interval_ms: u64,
    pub y_range: YRange,
}

/// One labeled line: an ordered sequence of samples (each a JSON number
/// text) and a display color.
#[derive(Debug)]
pub struct LineEntry {
    pub label: String,
    pub samples: Vec<String>,
    pub color: LineColor,
}

/// The mathematical content of one line: label, samples in insertion order,
/// and color.
pub type LineModel = (Seq<char>, Seq<Seq<char>>, LineColor);

/// A chart: its metadata plus its labeled lines.
#[derive(Debug)]
pub struct Chart {
    pub info: ChartInfo,
    pub lines: Vec<LineEntry>,
}

/// The content of one stored line.
pub open spec fn line_model(e: LineEntry) -> LineModel {
    (e.label@, e.samples.deep_view(), e.color)
}

/// The content of a chart's lines, in storage order.
pub open spec fn lines_model(s: Seq<LineEntry>) -> Seq<LineModel> {
    s.map_values(|e: LineEntry| line_model(e))
}

/// Whether some line in `m` carries `label`.
pub open spec fn has_label(m: Seq<LineModel>, label: Seq<char>) -> bool {
    exists|i: int| 0 <= i < m.len() && #[trigger] m[i].0 == label
}

/// The index of the line carrying `label` (unique when labels are unique).
pub open spec fn label_index(m: Seq<LineModel>, label: Seq<char>) -> int {
    choose|i: int| 0 <= i < m.len() && #[trigger] m[i].0 == label
}

/// What one sample insertion does to a line's sample sequence: under
/// `Stack` the sample is appended; under `PassThru(c)` the oldest sample is
/// dropped first whenever the line is full.
pub open spec fn push_sample(t: ChartType, s: Seq<Seq<char>>, v: Seq<char>) -> Seq<Seq<char>> {
    match t {
        ChartType::Stack => s.push(v),
        ChartType::PassThru(c) => if s.len() >= c {
            s.subrange(1, s.len() as int).push(v)
        } else {
            s.push(v)
        },
    }
}

/// What registering `label` does to a chart's lines: an existing line is
/// reset in place to an empty sample sequence with the new color; a new
/// label is appended with an empty sample sequence.
pub open spec fn register_model(m: Seq<LineModel>, label: Seq<char>, color: LineColor) -> Seq<
    LineModel,
> {
    if has_label(m, label) {
        m.update(label_index(m, label), (label, Seq::empty(), color))
    } else {
        m.push((label, Seq::empty(), color))
    }
}

/// What inserting `v` into the line carrying `label` does to a chart's
/// lines (meaningful only when the label is present).
pub open spec fn insert_model(
    t: ChartType,
    m: Seq<LineModel>,
    label: Seq<char>,
    v: Seq<char>,
) -> Seq<LineModel> {
    let i = label_index(m, label);
    m.update(i, (label, push_sample(t, m[i].1, v), m[i].2))
}

/// The at-most-`c` most recent samples of a line.
pub open spec fn keep_last(s: Seq<Seq<char>>, c: int) -> Seq<Seq<char>> {
    if s.len() <= c {
        s
    } else {
        s.subrange(s.len() - c, s.len() as int)
    }
}

/// What resizing a sliding window to `size` does to a chart's lines: each
/// line keeps only its `size` most recent samples.
pub open spec fn resize_model(m: Seq<LineModel>, size: int) -> Seq<LineModel> {
    m.map_values(|e: LineModel| (e.0, keep_last(e.1, size), e.2))
}

/// The sample sequence after inserting `vs`, one by one in order, into a
/// line that starts as `s`.
pub open spec fn insert_all(t: ChartType, s: Seq<Seq<char>>, vs: Seq<Seq<char>>) -> Seq<Seq<char>>
    decreases vs.len(),
{
    if vs.len() == 0 {
        s
    } else {
        push_sample(t, insert_all(t, s, vs.drop_last()), vs.last())
    }
}

/// Unbounded retention keeps everything: inserting any sequence of samples
/// into a `Stack` line appends them all, in insertion order. A line
/// registered fresh (empty) thus holds exactly the inserted samples.
pub proof fn lemma_unbounded_keeps_all(s: Seq<Seq<char>>, vs: Seq<Seq<char>>)
    ensures
        insert_all(ChartType::Stack, s, vs) == s + vs,
    decreases vs.len(),
{
    if vs.len() == 0 {
        assert(s + vs =~= s);
    } else {
        lemma_unbounded_keeps_all(s, vs.drop_last());
        assert((s + vs.drop_last()).push(vs.last()) =~= s + vs);
    }
}

/// Sliding-window retention keeps exactly the most recent samples:
/// inserting `vs` into a line that starts as `s` (within capacity `c`)
/// leaves everything when it fits in the window, and otherwise exactly the
/// `c` most recent samples, in insertion order. A line registered fresh
/// thus has length `min(|vs|, c)`.
pub proof fn lemma_sliding_window_bound(c: usize, s: Seq<Seq<char>>, vs: Seq<Seq<char>>)
    requires
        c >= 1,
        s.len() <= c,
    ensures
        ({
            let full = s + vs;
            insert_all(ChartType::PassThru(c), s, vs) == if full.len() <= c {
                full
            } else {
                full.subrange(full.len() - c, full.len() as int)
            }
        }),
    decreases vs.len(),
{
    let full = s + vs;
    if vs.len() == 0 {
        assert(s + vs =~= s);
    } else {
        lemma_sliding_window_bound(c, s, vs.drop_last());
        let fullp = s + vs.drop_last();
        let prev = insert_all(ChartType::PassThru(c), s, vs.drop_last());
        if fullp.len() <= c {
            assert(prev == fullp);
            if prev.len() < c {
                assert(prev.push(vs.last()) =~= full);
            } else {
                assert(prev.subrange(1, prev.len() as int).push(vs.last()) =~= full.subrange(
                    full.len() - c,
                    full.len() as int,
                ));
            }
        } else {
            assert(prev == fullp.subrange(fullp.len() - c, fullp.len() as int));
            assert(prev.len() == c);
            assert(prev.subrange(1, prev.len() as int).push(vs.last()) =~= full.subrange(
                full.len() - c,
                full.len() as int,
            ));
        }
    }
}

/// Registering a label always leaves it present with an empty sample
/// sequence and the given color, whether or not it existed before.
pub proof fn lemma_register_starts_empty(m: Seq<LineModel>, label: Seq<char>, color: LineColor)
    ensures
        ({
            let m2 = register_model(m, label, color);
            has_label(m2, label) && exists|j: int|
                0 <= j < m2.len() && #[trigger] m2[j] == (label, Seq::<Seq<char>>::empty(), color)
        }),
{
    let m2 = register_model(m, label, color);
    if has_label(m, label) {
        let j = label_index(m, label);
        assert(0 <= j < m.len() && m[j].0 == label);
        assert(m2[j] == (label, Seq::<Seq<char>>::empty(), color));
        assert(m2[j].0 == label);
        assert(has_label(m2, label));
    } else {
        let j = m.len() as int;
        assert(m2[j] == (label, Seq::<Seq<char>>::empty(), color));
        assert(m2[j].0 == label);
        assert(has_label(m2, label));
    }
}

/// Re-registering a label is destructive, not additive: whatever samples
/// were inserted in between, a second registration resets the line to an
/// empty sequence carrying the newly given color.
pub proof fn lemma_reregister_resets(
    m: Seq<LineModel>,
    label: Seq<char>,
    c1: LineColor,
    c2: LineColor,
)
    ensures
        ({
            let m2 = register_model(register_model(m, label, c1), label, c2);
            exists|j: int|
                0 <= j < m2.len() && #[trigger] m2[j] == (label, Seq::<Seq<char>>::empty(), c2)
        }),
{
    lemma_register_starts_empty(register_model(m, label, c1), label, c2);
}

impl Chart {
    /// Well-formedness: labels are unique, and under a sliding window the
    /// capacity is positive and no line exceeds it.
    pub open spec fn wf(self) -> bool {
        let m = lines_model(self.lines@);
        &&& (forall|i: int, j: int|
            0 <= i < m.len() && 0 <= j < m.len() && i != j ==> #[trigger] m[i].0 != #[trigger] m[j].0)
        &&& match self.info.chart_type {
            ChartType::Stack => true,
            ChartType::PassThru(c) => c > 0 && forall|i: int|
                0 <= i < m.len() ==> #[trigger] m[i].1.len() <= c,
        }
    }

    /// The content of this chart's lines.
    pub open spec fn model(self) -> Seq<LineModel> {
        lines_model(self.lines@)
    }

    /// Builds a chart with the given metadata and no lines.
    pub fn new(caption: String, chart_type: ChartType, interval_ms: u64, y_range: YRange) -> (c:
        Chart)
        requires
            chart_type matches ChartType::PassThru(cap) ==> cap > 0,
        ensures
            c.wf(),
            c.info.caption == caption,
            c.info.chart_type == chart_type,
            c.info.interval_ms == interval_ms,
            c.info.y_range == y_range,
            c.model() =~= Seq::<LineModel>::empty(),
    {
        let c = Chart {
            info: ChartInfo { caption, chart_type, interval_ms, y_range },
            lines: Vec::new(),
        };
        proof {
            assert(c.model() =~= Seq::<LineModel>::empty());
        }
        c
    }

    /// Finds the stored index of `label`, if present.
    fn find_label(&self, label: &String) -> (r: Option<usize>)
        ensures
            match r {
                Some(i) => 0 <= i < self.model().len() && self.model()[i as int].0 == label@,
                None => !has_label(self.model(), label@),
            },
    {
        let n: usize = self.lines.len();
        let mut i: usize = 0;
        while i < n
            invariant
                n == self.lines@.len(),
                i <= n,
                forall|k: int| 0 <= k < i ==> #[trigger] self.model()[k].0 != label@,
            decreases n - i,
        {
            if self.lines[i].label == *label {
                return Some(i);
            }
            i = i + 1;
        }
        None
    }

    /// Registers `label` with `color`: its line starts (or is reset to)
    /// empty. Registration always succeeds; an existing line's samples are
    /// discarded, not extended.
    pub fn new_label(&mut self, label: String, color: LineColor)
        requires
            old(self).wf(),
        ensures
            final(self).wf(),
            final(self).info == old(self).info,
            final(self).model() == register_model(old(self).model(), label@, color),
    {
        let ghost m = old(self).model();
        let ghost lab = label@;
        let entry = LineEntry { label, samples: Vec::new(), color };
        let found = self.find_label(&entry.label);
        match found {
            Some(i) => {
                {
                    let slot = &mut self.lines[i];
                    *slot = entry;
                }
                proof {
                    let j = label_index(m, lab);
                    assert(0 <= j < m.len() && m[j].0 == lab);
                    assert(j == i);
                    assert(self.model() =~~= register_model(m, lab, color));
                }
            },
            None => {
                self.lines.push(entry);
                proof {
                    assert(self.model() =~~= register_model(m, lab, color));
                }
            },
        }
    }

    /// Appends `data` to the line carrying `label`, applying the retention
    /// policy; fails with `InvalidLineLabelError` when the label is not
    /// registered.
    pub fn insert_data(&mut self, label: String, data: String) -> (r: Result<(), Error>)
        requires
            old(self).wf(),
        ensures
            final(self).wf(),
            final(self).info == old(self).info,
            r is Ok <==> has_label(old(self).model(), label@),
            match r {
                Ok(_) => final(self).model() == insert_model(
                    old(self).info.chart_type,
                    old(self).model(),
                    label@,
                    data@,
                ),
                Err(e) => e == Error::InvalidLineLabelError && *final(self) == *old(self),
            },
    {
        let ghost m = old(self).model();
        let ghost lab = label@;
        let ghost d = data@;
        let found = self.find_label(&label);
        let i = match found {
            Some(i) => i,
            None => {
                return Err(Error::InvalidLineLabelError);
            },
        };
        let t = self.info.chart_type;
        {
            let slot = &mut self.lines[i];
            match t {
                ChartType::Stack => {
                    slot.samples.push(data);
                },
                ChartType::PassThru(c) => {
                    if slot.samples.len() == c {
                        let _dropped = slot.samples.remove(0);
                    }
                    slot.samples.push(data);
                },
            }
        }
        proof {
            let j = label_index(m, lab);
            assert(0 <= j < m.len() && m[j].0 == lab);
            assert(j == i);
            assert(self.lines@[i as int].samples.deep_view() =~~= push_sample(t, m[j].1, d));
            assert(self.model() =~~= insert_model(t, m, lab, d));
        }
        Ok(())
    }

    /// Changes a sliding-window chart's capacity to `size`, truncating each
    /// line to its `size` most recent samples; a `Stack` chart is left
    /// unchanged (it has no window to resize).
    pub fn resize_viewport(&mut self, size: usize)
        requires
            old(self).wf(),
            size >= 1,
        ensures
            final(self).wf(),
            final(self).info.caption == old(self).info.caption,
            final(self).info.interval_ms == old(self).info.interval_ms,
            final(self).info.y_range == old(self).info.y_range,
            match old(self).info.chart_type {
                ChartType::Stack => *final(self) == *old(self),
                ChartType::PassThru(_) => final(self).info.chart_type == ChartType::PassThru(size)
                    && final(self).model() == resize_model(old(self).model(), size as int),
            },
    {
        match self.info.chart_type {
            ChartType::Stack => {},
            ChartType::PassThru(_) => {
                let ghost m = old(self).model();
                self.info.chart_type = ChartType::PassThru(size);
                let n: usize = self.lines.len();
                let mut i: usize = 0;
                while i < n
                    invariant
                        n == self.lines@.len(),
                        i <= n,
                        self.info == (ChartInfo {
                            chart_type: ChartType::PassThru(size),
                            ..old(self).info
                        }),
                        m == lines_model(old(self).lines@),
                        self.lines@.len() == old(self).lines@.len(),
                        forall|k: int|
                            i <= k < n ==> #[trigger] self.lines@[k] == old(self).lines@[k],
                        forall|k: int|
                            0 <= k < i ==> #[trigger] line_model(self.lines@[k]) == (
                            m[k].0,
                            keep_last(m[k].1, size as int),
                            m[k].2,
                            ),
                    decreases n - i,
                {
                    let slot = &mut self.lines[i];
                    let len: usize = slot.samples.len();
                    if len > size {
                        let tail = slot.samples.split_off(len - size);
                        slot.samples = tail;
                    }
                    proof {
                        assert(line_model(self.lines@[i as int]).1 =~~= keep_last(
                            m[i as int].1,
                            size as int,
                        ));
                    }
                    i = i + 1;
                }
                proof {
                    assert(self.model() =~~= resize_model(m, size as int));
                }
            },
        }
    }

    /// Removes every line, leaving the metadata untouched.
    pub fn clear(&mut self)
        requires
            old(self).wf(),
        ensures
            final(self).wf(),
            final(self).info == old(self).info,
            final(self).model() =~= Seq::<LineModel>::empty(),
    {
        self.lines.clear();
        proof {
            assert(final(self).model() =~= Seq::<LineModel>::empty());
        }
    }
}

} // verus!
