use vstd::prelude::*;

use crate::entry::missing;
use crate::error::{GreenButtonError, GreenButtonErrorView};
use crate::parse_helpers::{number_in, parse_text_i32, parse_text_i64, strip_espi_prefix, stripped};
use crate::text::text_eq;
use crate::time_period::{parse_time_period_data, time_period_draft};
use crate::xml::{all_text_of, doc_wf, node_views, XmlNode, XmlNodeView};

verus! {

/// One row per interval reading of a feed, held column by column.
pub struct IntervalReadings {
    /// The row of `Entries` that owns the reading.
    pub entry_index: Vec<usize>,
    /// The cost in hundred-thousandths of the currency; `None` where the feed gives none.
    pub cost: Vec<Option<i64>>,
    /// The quality code; 16 ("other") where the feed gives none.
    pub quality: Vec<i32>,
    /// The raw meter count, before scaling.
    pub value: Vec<i64>,
    /// The time-of-use code; 0 where the feed gives none.
    pub tou: Vec<i32>,
    /// The start of the interval, as the feed gives it.
    pub time_period_start_unix_ms: Vec<i64>,
    /// The length of the interval in seconds.
    pub time_period_duration_seconds: Vec<i32>,
}

/// One row of `IntervalReadings`, strings as their text.
pub ghost struct IntervalReadingRow {
    pub entry_index: usize,
    pub cost: Option<i64>,
    pub quality: i32,
    pub value: i64,
    pub tou: i32,
    pub time_period_start_unix_ms: i64,
    pub time_period_duration_seconds: i32,
}

/// The fields given so far for a row of `IntervalReadings`.
pub ghost struct IntervalReadingRowDraft {
    pub entry_index: Option<usize>,
    pub cost: Option<Option<i64>>,
    pub quality: Option<i32>,
    pub value: Option<i64>,
    pub tou: Option<i32>,
    pub time_period_start_unix_ms: Option<i64>,
    pub time_period_duration_seconds: Option<i32>,
}

impl IntervalReadingRowDraft {
    /// No field given yet.
    pub open spec fn empty() -> IntervalReadingRowDraft {
        IntervalReadingRowDraft { entry_index: None, cost: None, quality: None, value: None, tou: None, time_period_start_unix_ms: None, time_period_duration_seconds: None }
    }

    /// The row that committing this draft appends: a field not given takes its
    /// default; the first field, in declaration order, without a value and
    /// without a default fails the commit.
    pub open spec fn commit(self) -> Result<IntervalReadingRow, GreenButtonErrorView> {
        if self.entry_index is None {
            Err(GreenButtonErrorView::MissingField { field: "entry_index", table: "IntervalReadings" })
        } else if self.value is None {
            Err(GreenButtonErrorView::MissingField { field: "value", table: "IntervalReadings" })
        } else if self.time_period_start_unix_ms is None {
            Err(GreenButtonErrorView::MissingField { field: "time_period_start_unix_ms", table: "IntervalReadings" })
        } else if self.time_period_duration_seconds is None {
            Err(GreenButtonErrorView::MissingField { field: "time_period_duration_seconds", table: "IntervalReadings" })
        } else {
            Ok(
                IntervalReadingRow {
                    entry_index: self.entry_index->Some_0,
                    cost: match self.cost {
                        Some(x) => x,
                        None => None,
                    },
                    quality: match self.quality {
                        Some(x) => x,
                        None => 16i32,
                    },
                    value: self.value->Some_0,
                    tou: match self.tou {
                        Some(x) => x,
                        None => 0i32,
                    },
                    time_period_start_unix_ms: self.time_period_start_unix_ms->Some_0,
                    time_period_duration_seconds: self.time_period_duration_seconds->Some_0,
                },
            )
        }
    }
}

impl IntervalReadings {
    /// Every column holds the same number of rows.
    pub open spec fn wf(&self) -> bool {
        let n = self.entry_index@.len();
        &&& self.cost@.len() == n
        &&& self.quality@.len() == n
        &&& self.value@.len() == n
        &&& self.tou@.len() == n
        &&& self.time_period_start_unix_ms@.len() == n
        &&& self.time_period_duration_seconds@.len() == n
    }

    /// The number of rows.
    pub open spec fn spec_len(&self) -> nat {
        self.entry_index@.len()
    }

    /// Row `i`.
    pub open spec fn row(&self, i: int) -> IntervalReadingRow {
        IntervalReadingRow {
            entry_index: self.entry_index@[i],
            cost: self.cost@[i],
            quality: self.quality@[i],
            value: self.value@[i],
            tou: self.tou@[i],
            time_period_start_unix_ms: self.time_period_start_unix_ms@[i],
            time_period_duration_seconds: self.time_period_duration_seconds@[i],
        }
    }

    /// The rows in order.
    pub open spec fn rows(&self) -> Seq<IntervalReadingRow> {
        Seq::new(self.spec_len(), |i: int| self.row(i))
    }

    /// A store made of the given columns, which must have one length.
    pub fn new(entry_index: Vec<usize>, cost: Vec<Option<i64>>, quality: Vec<i32>, value: Vec<i64>, tou: Vec<i32>, time_period_start_unix_ms: Vec<i64>, time_period_duration_seconds: Vec<i32>) -> (r: IntervalReadings)
        requires
            cost@.len() == entry_index@.len(),
            quality@.len() == entry_index@.len(),
            value@.len() == entry_index@.len(),
            tou@.len() == entry_index@.len(),
            time_period_start_unix_ms@.len() == entry_index@.len(),
            time_period_duration_seconds@.len() == entry_index@.len(),
        ensures
            r.wf(),
            r == (IntervalReadings { entry_index, cost, quality, value, tou, time_period_start_unix_ms, time_period_duration_seconds }),
    {
        IntervalReadings { entry_index, cost, quality, value, tou, time_period_start_unix_ms, time_period_duration_seconds }
    }

    /// The number of rows.
    pub fn len(&self) -> (r: usize)
        requires
            self.wf(),
        ensures
            r == self.spec_len(),
    {
        self.entry_index.len()
    }

    /// Starts a new row; the store comes back from `finalize_push`.
    pub fn start_push(self) -> (b: IntervalReadingsRowBuilder)
        requires
            self.wf(),
        ensures
            b.wf(),
            b.store == self,
            b.draft() == IntervalReadingRowDraft::empty(),
    {
        IntervalReadingsRowBuilder { store: self, entry_index: None, cost: None, quality: None, value: None, tou: None, time_period_start_unix_ms: None, time_period_duration_seconds: None }
    }
}

impl Default for IntervalReadings {
    fn default() -> (r: IntervalReadings)
        ensures
            r.wf(),
            r.spec_len() == 0,
            r.rows() == Seq::<IntervalReadingRow>::empty(),
    {
        let r = IntervalReadings { entry_index: Vec::new(), cost: Vec::new(), quality: Vec::new(), value: Vec::new(), tou: Vec::new(), time_period_start_unix_ms: Vec::new(), time_period_duration_seconds: Vec::new() };
        assert(r.rows() =~= Seq::<IntervalReadingRow>::empty());
        r
    }
}

/// The row being built: the store it will be appended to, and the value of
/// each field given so far.
pub struct IntervalReadingsRowBuilder {
    pub store: IntervalReadings,
    pub entry_index: Option<usize>,
    pub cost: Option<Option<i64>>,
    pub quality: Option<i32>,
    pub value: Option<i64>,
    pub tou: Option<i32>,
    pub time_period_start_unix_ms: Option<i64>,
    pub time_period_duration_seconds: Option<i32>,
}

impl IntervalReadingsRowBuilder {
    pub open spec fn wf(&self) -> bool {
        self.store.wf()
    }

    /// The fields given so far.
    pub open spec fn draft(&self) -> IntervalReadingRowDraft {
        IntervalReadingRowDraft {
            entry_index: self.entry_index,
            cost: self.cost,
            quality: self.quality,
            value: self.value,
            tou: self.tou,
            time_period_start_unix_ms: self.time_period_start_unix_ms,
            time_period_duration_seconds: self.time_period_duration_seconds,
        }
    }

    pub fn entry_index(&mut self, x: usize)
        ensures
            *final(self) == (IntervalReadingsRowBuilder { entry_index: Some(x), ..*old(self) }),
            final(self).draft() == (IntervalReadingRowDraft { entry_index: Some(x), ..old(self).draft() }),
    {
        self.entry_index = Some(x);
    }

    pub fn cost(&mut self, x: Option<i64>)
        ensures
            *final(self) == (IntervalReadingsRowBuilder { cost: Some(x), ..*old(self) }),
            final(self).draft() == (IntervalReadingRowDraft { cost: Some(x), ..old(self).draft() }),
    {
        self.cost = Some(x);
    }

    pub fn quality(&mut self, x: i32)
        ensures
            *final(self) == (IntervalReadingsRowBuilder { quality: Some(x), ..*old(self) }),
            final(self).draft() == (IntervalReadingRowDraft { quality: Some(x), ..old(self).draft() }),
    {
        self.quality = Some(x);
    }

    pub fn value(&mut self, x: i64)
        ensures
            *final(self) == (IntervalReadingsRowBuilder { value: Some(x), ..*old(self) }),
            final(self).draft() == (IntervalReadingRowDraft { value: Some(x), ..old(self).draft() }),
    {
        self.value = Some(x);
    }

    pub fn tou(&mut self, x: i32)
        ensures
            *final(self) == (IntervalReadingsRowBuilder { tou: Some(x), ..*old(self) }),
            final(self).draft() == (IntervalReadingRowDraft { tou: Some(x), ..old(self).draft() }),
    {
        self.tou = Some(x);
    }

    pub fn time_period_start_unix_ms(&mut self, x: i64)
        ensures
            *final(self) == (IntervalReadingsRowBuilder { time_period_start_unix_ms: Some(x), ..*old(self) }),
            final(self).draft() == (IntervalReadingRowDraft { time_period_start_unix_ms: Some(x), ..old(self).draft() }),
    {
        self.time_period_start_unix_ms = Some(x);
    }

    pub fn time_period_duration_seconds(&mut self, x: i32)
        ensures
            *final(self) == (IntervalReadingsRowBuilder { time_period_duration_seconds: Some(x), ..*old(self) }),
            final(self).draft() == (IntervalReadingRowDraft { time_period_duration_seconds: Some(x), ..old(self).draft() }),
    {
        self.time_period_duration_seconds = Some(x);
    }

    /// Commits the row: fields not given take their default; a missing
    /// field without a default fails the commit and no column grows.
    pub fn finalize_push(self) -> (r: Result<IntervalReadings, GreenButtonError>)
        requires
            self.wf(),
        ensures
            self.draft().commit() matches Err(e) ==> (r matches Err(x) && x@ == e),
            self.draft().commit() matches Ok(row) ==> (r matches Ok(s) && s.wf() && s.rows()
                == self.store.rows().push(row)),
            self.draft().commit() matches Ok(row) ==> (r matches Ok(s) && s.spec_len()
                == self.store.spec_len() + 1 && s.row(s.spec_len() - 1) == row),
    {
        let ghost old_store = self.store;
        let ghost draft = self.draft();
        let IntervalReadingsRowBuilder { mut store, entry_index, cost, quality, value, tou, time_period_start_unix_ms, time_period_duration_seconds } = self;
        let entry_index = match entry_index {
            Some(x) => x,
            None => return Err(missing("entry_index", "IntervalReadings")),
        };
        let cost = match cost {
            Some(x) => x,
            None => None,
        };
        let quality = match quality {
            Some(x) => x,
            None => 16,
        };
        let value = match value {
            Some(x) => x,
            None => return Err(missing("value", "IntervalReadings")),
        };
        let tou = match tou {
            Some(x) => x,
            None => 0,
        };
        let time_period_start_unix_ms = match time_period_start_unix_ms {
            Some(x) => x,
            None => return Err(missing("time_period_start_unix_ms", "IntervalReadings")),
        };
        let time_period_duration_seconds = match time_period_duration_seconds {
            Some(x) => x,
            None => return Err(missing("time_period_duration_seconds", "IntervalReadings")),
        };
        store.entry_index.push(entry_index);
        store.cost.push(cost);
        store.quality.push(quality);
        store.value.push(value);
        store.tou.push(tou);
        store.time_period_start_unix_ms.push(time_period_start_unix_ms);
        store.time_period_duration_seconds.push(time_period_duration_seconds);
        assert(store.rows() =~= old_store.rows().push(draft.commit()->Ok_0));
        Ok(store)
    }
}

/// The draft once child `c` of an interval reading is read into it.
pub open spec fn reading_step(
    d: IntervalReadingRowDraft,
    doc: Seq<XmlNodeView>,
    c: int,
) -> Result<IntervalReadingRowDraft, GreenButtonErrorView> {
    let name = stripped(doc[c].name);
    let t = all_text_of(doc, c);
    if name == "cost"@ {
        match number_in(t, i64::MIN as int, i64::MAX as int) {
            Some(v) => Ok(IntervalReadingRowDraft { cost: Some(Some(v as i64)), ..d }),
            None => Err(GreenButtonErrorView::InvalidNumber(t)),
        }
    } else if name == "ReadingQuality"@ {
        match number_in(t, i32::MIN as int, i32::MAX as int) {
            Some(v) => Ok(IntervalReadingRowDraft { quality: Some(v as i32), ..d }),
            None => Err(GreenButtonErrorView::InvalidNumber(t)),
        }
    } else if name == "value"@ {
        match number_in(t, i64::MIN as int, i64::MAX as int) {
            Some(v) => Ok(IntervalReadingRowDraft { value: Some(v as i64), ..d }),
            None => Err(GreenButtonErrorView::InvalidNumber(t)),
        }
    } else if name == "tou"@ {
        match number_in(t, i32::MIN as int, i32::MAX as int) {
            Some(v) => Ok(IntervalReadingRowDraft { tou: Some(v as i32), ..d }),
            None => Err(GreenButtonErrorView::InvalidNumber(t)),
        }
    } else if name == "timePeriod"@ {
        time_period_draft(d, doc, c)
    } else if doc[c].name.len() > 0 {
        Err(GreenButtonErrorView::UnmatchedTag(doc[c].name))
    } else {
        Ok(d)
    }
}

/// The draft once the first `k` children of interval reading `node` are read.
pub open spec fn reading_fold(
    doc: Seq<XmlNodeView>,
    node: int,
    entry_index: usize,
    k: int,
) -> Result<IntervalReadingRowDraft, GreenButtonErrorView>
    decreases k,
{
    if k <= 0 {
        Ok(IntervalReadingRowDraft { entry_index: Some(entry_index), ..IntervalReadingRowDraft::empty() })
    } else {
        match reading_fold(doc, node, entry_index, k - 1) {
            Err(e) => Err(e),
            Ok(d) => reading_step(d, doc, doc[node].children[k - 1] as int),
        }
    }
}

/// The row that interval reading `node` of entry `entry_index` gives.
pub open spec fn reading_row(doc: Seq<XmlNodeView>, node: int, entry_index: usize) -> Result<
    IntervalReadingRow,
    GreenButtonErrorView,
> {
    match reading_fold(doc, node, entry_index, doc[node].children.len() as int) {
        Err(e) => Err(e),
        Ok(d) => d.commit(),
    }
}

/// The rows that the first `k` children of interval block `node` give: one
/// per `IntervalReading` child.
pub open spec fn block_rows(doc: Seq<XmlNodeView>, node: int, entry_index: usize, k: int) -> Result<
    Seq<IntervalReadingRow>,
    GreenButtonErrorView,
>
    decreases k,
{
    if k <= 0 {
        Ok(Seq::empty())
    } else {
        match block_rows(doc, node, entry_index, k - 1) {
            Err(e) => Err(e),
            Ok(rows) => {
                let c = doc[node].children[k - 1] as int;
                if stripped(doc[c].name) == "IntervalReading"@ {
                    match reading_row(doc, c, entry_index) {
                        Err(e) => Err(e),
                        Ok(row) => Ok(rows.push(row)),
                    }
                } else {
                    Ok(rows)
                }
            },
        }
    }
}

proof fn lemma_reading_fold_err(doc: Seq<XmlNodeView>, node: int, entry_index: usize, k: int, n: int)
    requires
        0 <= k <= n,
        reading_fold(doc, node, entry_index, k) is Err,
    ensures
        reading_fold(doc, node, entry_index, n) == reading_fold(doc, node, entry_index, k),
    decreases n - k,
{
    if n > k {
        lemma_reading_fold_err(doc, node, entry_index, k, n - 1);
    }
}

proof fn lemma_block_rows_err(doc: Seq<XmlNodeView>, node: int, entry_index: usize, k: int, n: int)
    requires
        0 <= k <= n,
        block_rows(doc, node, entry_index, k) is Err,
    ensures
        block_rows(doc, node, entry_index, n) == block_rows(doc, node, entry_index, k),
    decreases n - k,
{
    if n > k {
        lemma_block_rows_err(doc, node, entry_index, k, n - 1);
    }
}

/// Reads one interval reading of entry `entry_index` and appends its row.
fn parse_interval_reading(
    ir: IntervalReadings,
    nodes: &Vec<XmlNode>,
    node: usize,
    entry_index: usize,
) -> (r: Result<IntervalReadings, GreenButtonError>)
    requires
        ir.wf(),
        doc_wf(node_views(nodes@)),
        node < nodes@.len(),
    ensures
        reading_row(node_views(nodes@), node as int, entry_index) matches Err(e) ==> (r matches Err(x)
            && x@ == e),
        reading_row(node_views(nodes@), node as int, entry_index) matches Ok(row) ==> (r matches Ok(s)
            && s.wf() && s.rows() == ir.rows().push(row)),
{
    let ghost doc = node_views(nodes@);
    let mut b = ir.start_push();
    b.entry_index(entry_index);
    let children = &nodes[node].children;
    assert(children@ == doc[node as int].children);
    let mut k: usize = 0;
    while k < children.len()
        invariant
            doc == node_views(nodes@),
            doc_wf(doc),
            node < nodes@.len(),
            children@ == doc[node as int].children,
            k <= children@.len(),
            b.wf(),
            b.store == ir,
            reading_fold(doc, node as int, entry_index, k as int) == Ok::<
                IntervalReadingRowDraft,
                GreenButtonErrorView,
            >(b.draft()),
        decreases children@.len() - k,
    {
        let c = children[k];
        assert(doc[c as int] == nodes@[c as int]@);
        let name = strip_espi_prefix(nodes[c].name.as_str());
        if text_eq(name, "cost") {
            match parse_text_i64(nodes, c) {
                Ok(v) => b.cost(Some(v)),
                Err(e) => {
                    proof {
                        lemma_reading_fold_err(doc, node as int, entry_index, k + 1, children@.len() as int);
                    }
                    return Err(e);
                },
            }
        } else if text_eq(name, "ReadingQuality") {
            match parse_text_i32(nodes, c) {
                Ok(v) => b.quality(v),
                Err(e) => {
                    proof {
                        lemma_reading_fold_err(doc, node as int, entry_index, k + 1, children@.len() as int);
                    }
                    return Err(e);
                },
            }
        } else if text_eq(name, "value") {
            match parse_text_i64(nodes, c) {
                Ok(v) => b.value(v),
                Err(e) => {
                    proof {
                        lemma_reading_fold_err(doc, node as int, entry_index, k + 1, children@.len() as int);
                    }
                    return Err(e);
                },
            }
        } else if text_eq(name, "tou") {
            match parse_text_i32(nodes, c) {
                Ok(v) => b.tou(v),
                Err(e) => {
                    proof {
                        lemma_reading_fold_err(doc, node as int, entry_index, k + 1, children@.len() as int);
                    }
                    return Err(e);
                },
            }
        } else if text_eq(name, "timePeriod") {
            b = match parse_time_period_data(b, nodes, c) {
                Ok(b) => b,
                Err(e) => {
                    proof {
                        lemma_reading_fold_err(doc, node as int, entry_index, k + 1, children@.len() as int);
                    }
                    return Err(e);
                },
            };
        } else if nodes[c].name.as_str().unicode_len() > 0 {
            proof {
                lemma_reading_fold_err(doc, node as int, entry_index, k + 1, children@.len() as int);
            }
            return Err(GreenButtonError::UnmatchedTag(nodes[c].name.clone()));
        }
        k = k + 1;
    }
    b.finalize_push()
}

/// Reads every `IntervalReading` child of interval block `node` of entry
/// `entry_index`, appending one row each, in order.
pub fn parse_interval_readings(
    interval_readings: IntervalReadings,
    nodes: &Vec<XmlNode>,
    node: usize,
    entry_index: usize,
) -> (r: Result<IntervalReadings, GreenButtonError>)
    requires
        interval_readings.wf(),
        doc_wf(node_views(nodes@)),
        node < nodes@.len(),
    ensures
        ({
            let doc = node_views(nodes@);
            match block_rows(doc, node as int, entry_index, doc[node as int].children.len() as int) {
                Err(e) => r matches Err(x) && x@ == e,
                Ok(rows) => r matches Ok(s) && s.wf() && s.rows() == interval_readings.rows() + rows,
            }
        }),
{
    let ghost doc = node_views(nodes@);
    let mut ir = interval_readings;
    let children = &nodes[node].children;
    assert(children@ == doc[node as int].children);
    let mut k: usize = 0;
    assert(interval_readings.rows() + Seq::<IntervalReadingRow>::empty() =~= interval_readings.rows());
    while k < children.len()
        invariant
            doc == node_views(nodes@),
            doc_wf(doc),
            node < nodes@.len(),
            children@ == doc[node as int].children,
            k <= children@.len(),
            ir.wf(),
            block_rows(doc, node as int, entry_index, k as int) matches Ok(rows) && ir.rows()
                == interval_readings.rows() + rows,
        decreases children@.len() - k,
    {
        let c = children[k];
        assert(doc[c as int] == nodes@[c as int]@);
        if text_eq(strip_espi_prefix(nodes[c].name.as_str()), "IntervalReading") {
            let ghost rows = block_rows(doc, node as int, entry_index, k as int)->Ok_0;
            ir = match parse_interval_reading(ir, nodes, c, entry_index) {
                Ok(s) => s,
                Err(e) => {
                    proof {
                        lemma_block_rows_err(doc, node as int, entry_index, k + 1, children@.len() as int);
                    }
                    return Err(e);
                },
            };
            assert(interval_readings.rows() + rows.push(reading_row(doc, c as int, entry_index)->Ok_0)
                =~= interval_readings.rows() + rows + seq![reading_row(doc, c as int, entry_index)->Ok_0]);
        }
        k = k + 1;
    }
    Ok(ir)
}

} // verus!
