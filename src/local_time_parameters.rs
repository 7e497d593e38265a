use vstd::prelude::*;

use crate::entry::missing;
use crate::error::{GreenButtonError, GreenButtonErrorView};
use crate::parse_helpers::{number_in, parse_text_i64, strip_espi_prefix, stripped};
use crate::text::{int_in_range, parse_hex_u32, text_eq};
use crate::xml::{all_text, all_text_of, doc_wf, node_views, XmlNode, XmlNodeView};

verus! {

/// The local-time-parameters blocks of a feed, held column by column.
pub struct LocalTimeParameters {
    /// The packed rule of the day daylight-saving time starts.
    pub dst_start_rule: Vec<u32>,
    /// The packed rule of the day daylight-saving time ends.
    pub dst_end_rule: Vec<u32>,
    /// Seconds added while daylight-saving time is in effect.
    pub dst_offset: Vec<i64>,
    /// Seconds from UTC to standard local time.
    pub tz_offset: Vec<i64>,
}

/// One row of `LocalTimeParameters`, strings as their text.
pub ghost struct LocalTimeParametersRow {
    pub dst_start_rule: u32,
    pub dst_end_rule: u32,
    pub dst_offset: i64,
    pub tz_offset: i64,
}

/// The fields given so far for a row of `LocalTimeParameters`.
pub ghost struct LocalTimeParametersRowDraft {
    pub dst_start_rule: Option<u32>,
    pub dst_end_rule: Option<u32>,
    pub dst_offset: Option<i64>,
    pub tz_offset: Option<i64>,
}

impl LocalTimeParametersRowDraft {
    /// No field given yet.
    pub open spec fn empty() -> LocalTimeParametersRowDraft {
        LocalTimeParametersRowDraft { dst_start_rule: None, dst_end_rule: None, dst_offset: None, tz_offset: None }
    }

    /// The row that committing this draft appends: a field not given takes its
    /// default; the first field, in declaration order, without a value and
    /// without a default fails the commit.
    pub open spec fn commit(self) -> Result<LocalTimeParametersRow, GreenButtonErrorView> {
        if self.dst_start_rule is None {
            Err(GreenButtonErrorView::MissingField { field: "dst_start_rule", table: "LocalTimeParameters" })
        } else if self.dst_end_rule is None {
            Err(GreenButtonErrorView::MissingField { field: "dst_end_rule", table: "LocalTimeParameters" })
        } else if self.dst_offset is None {
            Err(GreenButtonErrorView::MissingField { field: "dst_offset", table: "LocalTimeParameters" })
        } else if self.tz_offset is None {
            Err(GreenButtonErrorView::MissingField { field: "tz_offset", table: "LocalTimeParameters" })
        } else {
            Ok(
                LocalTimeParametersRow {
                    dst_start_rule: self.dst_start_rule->Some_0,
                    dst_end_rule: self.dst_end_rule->Some_0,
                    dst_offset: self.dst_offset->Some_0,
                    tz_offset: self.tz_offset->Some_0,
                },
            )
        }
    }
}

impl LocalTimeParameters {
    /// Every column holds the same number of rows.
    pub open spec fn wf(&self) -> bool {
        let n = self.dst_start_rule@.len();
        &&& self.dst_end_rule@.len() == n
        &&& self.dst_offset@.len() == n
        &&& self.tz_offset@.len() == n
    }

    /// The number of rows.
    pub open spec fn spec_len(&self) -> nat {
        self.dst_start_rule@.len()
    }

    /// Row `i`.
    pub open spec fn row(&self, i: int) -> LocalTimeParametersRow {
        LocalTimeParametersRow {
            dst_start_rule: self.dst_start_rule@[i],
            dst_end_rule: self.dst_end_rule@[i],
            dst_offset: self.dst_offset@[i],
            tz_offset: self.tz_offset@[i],
        }
    }

    /// The rows in order.
    pub open spec fn rows(&self) -> Seq<LocalTimeParametersRow> {
        Seq::new(self.spec_len(), |i: int| self.row(i))
    }

    /// A store made of the given columns, which must have one length.
    pub fn new(dst_start_rule: Vec<u32>, dst_end_rule: Vec<u32>, dst_offset: Vec<i64>, tz_offset: Vec<i64>) -> (r: LocalTimeParameters)
        requires
            dst_end_rule@.len() == dst_start_rule@.len(),
            dst_offset@.len() == dst_start_rule@.len(),
            tz_offset@.len() == dst_start_rule@.len(),
        ensures
            r.wf(),
            r == (LocalTimeParameters { dst_start_rule, dst_end_rule, dst_offset, tz_offset }),
    {
        LocalTimeParameters { dst_start_rule, dst_end_rule, dst_offset, tz_offset }
    }

    /// The number of rows.
    pub fn len(&self) -> (r: usize)
        requires
            self.wf(),
        ensures
            r == self.spec_len(),
    {
        self.dst_start_rule.len()
    }

    /// Starts a new row; the store comes back from `finalize_push`.
    pub fn start_push(self) -> (b: LocalTimeParametersRowBuilder)
        requires
            self.wf(),
        ensures
            b.wf(),
            b.store == self,
            b.draft() == LocalTimeParametersRowDraft::empty(),
    {
        LocalTimeParametersRowBuilder { store: self, dst_start_rule: None, dst_end_rule: None, dst_offset: None, tz_offset: None }
    }
}

impl Default for LocalTimeParameters {
    fn default() -> (r: LocalTimeParameters)
        ensures
            r.wf(),
            r.spec_len() == 0,
            r.rows() == Seq::<LocalTimeParametersRow>::empty(),
    {
        let r = LocalTimeParameters { dst_start_rule: Vec::new(), dst_end_rule: Vec::new(), dst_offset: Vec::new(), tz_offset: Vec::new() };
        assert(r.rows() =~= Seq::<LocalTimeParametersRow>::empty());
        r
    }
}

/// The row being built: the store it will be appended to, and the value of
/// each field given so far.
pub struct LocalTimeParametersRowBuilder {
    pub store: LocalTimeParameters,
    pub dst_start_rule: Option<u32>,
    pub dst_end_rule: Option<u32>,
    pub dst_offset: Option<i64>,
    pub tz_offset: Option<i64>,
}

impl LocalTimeParametersRowBuilder {
    pub open spec fn wf(&self) -> bool {
        self.store.wf()
    }

    /// The fields given so far.
    pub open spec fn draft(&self) -> LocalTimeParametersRowDraft {
        LocalTimeParametersRowDraft {
            dst_start_rule: self.dst_start_rule,
            dst_end_rule: self.dst_end_rule,
            dst_offset: self.dst_offset,
            tz_offset: self.tz_offset,
        }
    }

    pub fn dst_start_rule(&mut self, x: u32)
        ensures
            *final(self) == (LocalTimeParametersRowBuilder { dst_start_rule: Some(x), ..*old(self) }),
            final(self).draft() == (LocalTimeParametersRowDraft { dst_start_rule: Some(x), ..old(self).draft() }),
    {
        self.dst_start_rule = Some(x);
    }

    pub fn dst_end_rule(&mut self, x: u32)
        ensures
            *final(self) == (LocalTimeParametersRowBuilder { dst_end_rule: Some(x), ..*old(self) }),
            final(self).draft() == (LocalTimeParametersRowDraft { dst_end_rule: Some(x), ..old(self).draft() }),
    {
        self.dst_end_rule = Some(x);
    }

    pub fn dst_offset(&mut self, x: i64)
        ensures
            *final(self) == (LocalTimeParametersRowBuilder { dst_offset: Some(x), ..*old(self) }),
            final(self).draft() == (LocalTimeParametersRowDraft { dst_offset: Some(x), ..old(self).draft() }),
    {
        self.dst_offset = Some(x);
    }

    pub fn tz_offset(&mut self, x: i64)
        ensures
            *final(self) == (LocalTimeParametersRowBuilder { tz_offset: Some(x), ..*old(self) }),
            final(self).draft() == (LocalTimeParametersRowDraft { tz_offset: Some(x), ..old(self).draft() }),
    {
        self.tz_offset = Some(x);
    }

    /// Commits the row: fields not given take their default; a missing
    /// field without a default fails the commit and no column grows.
    pub fn finalize_push(self) -> (r: Result<LocalTimeParameters, GreenButtonError>)
        requires
            self.wf(),
        ensures
            self.draft().commit() matches Err(e) ==> (r matches Err(x) && x@ == e),
            self.draft().commit() matches Ok(row) ==> (r matches Ok(s) && s.wf() && s.rows()
                == self.store.rows().push(row)),
            self.draft().commit() matches Ok(row) ==> (r matches Ok(s) && s.spec_len()
                == self.store.spec_len() + 1 && s.row(s.spec_len() - 1) == row),
    {
        let ghost old_store = self.store;
        let ghost draft = self.draft();
        let LocalTimeParametersRowBuilder { mut store, dst_start_rule, dst_end_rule, dst_offset, tz_offset } = self;
        let dst_start_rule = match dst_start_rule {
            Some(x) => x,
            None => return Err(missing("dst_start_rule", "LocalTimeParameters")),
        };
        let dst_end_rule = match dst_end_rule {
            Some(x) => x,
            None => return Err(missing("dst_end_rule", "LocalTimeParameters")),
        };
        let dst_offset = match dst_offset {
            Some(x) => x,
            None => return Err(missing("dst_offset", "LocalTimeParameters")),
        };
        let tz_offset = match tz_offset {
            Some(x) => x,
            None => return Err(missing("tz_offset", "LocalTimeParameters")),
        };
        store.dst_start_rule.push(dst_start_rule);
        store.dst_end_rule.push(dst_end_rule);
        store.dst_offset.push(dst_offset);
        store.tz_offset.push(tz_offset);
        assert(store.rows() =~= old_store.rows().push(draft.commit()->Ok_0));
        Ok(store)
    }
}

/// The packed rule that a rule element's text writes in hexadecimal.
pub open spec fn hex_rule(t: Seq<char>) -> Option<int> {
    int_in_range(t, 16, false, 0, u32::MAX as int)
}

/// The draft once child `c` of a local-time-parameters block is read into it.
pub open spec fn ltp_step(d: LocalTimeParametersRowDraft, doc: Seq<XmlNodeView>, c: int) -> Result<
    LocalTimeParametersRowDraft,
    GreenButtonErrorView,
> {
    let name = stripped(doc[c].name);
    let t = all_text_of(doc, c);
    if name == "dstStartRule"@ {
        match hex_rule(t) {
            Some(v) => Ok(LocalTimeParametersRowDraft { dst_start_rule: Some(v as u32), ..d }),
            None => Err(GreenButtonErrorView::InvalidNumber(t)),
        }
    } else if name == "dstEndRule"@ {
        match hex_rule(t) {
            Some(v) => Ok(LocalTimeParametersRowDraft { dst_end_rule: Some(v as u32), ..d }),
            None => Err(GreenButtonErrorView::InvalidNumber(t)),
        }
    } else if name == "dstOffset"@ {
        match number_in(t, i64::MIN as int, i64::MAX as int) {
            Some(v) => Ok(LocalTimeParametersRowDraft { dst_offset: Some(v as i64), ..d }),
            None => Err(GreenButtonErrorView::InvalidNumber(t)),
        }
    } else if name == "tzOffset"@ {
        match number_in(t, i64::MIN as int, i64::MAX as int) {
            Some(v) => Ok(LocalTimeParametersRowDraft { tz_offset: Some(v as i64), ..d }),
            None => Err(GreenButtonErrorView::InvalidNumber(t)),
        }
    } else if doc[c].name.len() > 0 {
        Err(GreenButtonErrorView::UnmatchedTag(doc[c].name))
    } else {
        Ok(d)
    }
}

/// The draft once the first `k` children of block `node` are read.
pub open spec fn ltp_fold(doc: Seq<XmlNodeView>, node: int, k: int) -> Result<
    LocalTimeParametersRowDraft,
    GreenButtonErrorView,
>
    decreases k,
{
    if k <= 0 {
        Ok(LocalTimeParametersRowDraft::empty())
    } else {
        match ltp_fold(doc, node, k - 1) {
            Err(e) => Err(e),
            Ok(d) => ltp_step(d, doc, doc[node].children[k - 1] as int),
        }
    }
}

/// The row that local-time-parameters block `node` gives.
pub open spec fn ltp_row(doc: Seq<XmlNodeView>, node: int) -> Result<
    LocalTimeParametersRow,
    GreenButtonErrorView,
> {
    match ltp_fold(doc, node, doc[node].children.len() as int) {
        Err(e) => Err(e),
        Ok(d) => d.commit(),
    }
}

proof fn lemma_ltp_fold_err(doc: Seq<XmlNodeView>, node: int, k: int, n: int)
    requires
        0 <= k <= n,
        ltp_fold(doc, node, k) is Err,
    ensures
        ltp_fold(doc, node, n) == ltp_fold(doc, node, k),
    decreases n - k,
{
    if n > k {
        lemma_ltp_fold_err(doc, node, k, n - 1);
    }
}

/// The packed rule written in hexadecimal by the text of node `c`.
fn parse_rule_text(nodes: &Vec<XmlNode>, c: usize) -> (r: Result<u32, GreenButtonError>)
    requires
        doc_wf(node_views(nodes@)),
        c < nodes@.len(),
    ensures
        ({
            let t = all_text_of(node_views(nodes@), c as int);
            match hex_rule(t) {
                Some(v) => r == Ok::<u32, GreenButtonError>(v as u32),
                None => r matches Err(e) && e@ == GreenButtonErrorView::InvalidNumber(t),
            }
        }),
{
    let text = all_text(nodes, c);
    match parse_hex_u32(text.as_str()) {
        Some(v) => Ok(v),
        None => Err(GreenButtonError::InvalidNumber(text)),
    }
}

/// Reads local-time-parameters block `node` and appends its row.
pub fn parse_local_time_parameters(
    local_time_parameters: LocalTimeParameters,
    nodes: &Vec<XmlNode>,
    node: usize,
) -> (r: Result<LocalTimeParameters, GreenButtonError>)
    requires
        local_time_parameters.wf(),
        doc_wf(node_views(nodes@)),
        node < nodes@.len(),
    ensures
        ltp_row(node_views(nodes@), node as int) matches Err(e) ==> (r matches Err(x) && x@ == e),
        ltp_row(node_views(nodes@), node as int) matches Ok(row) ==> (r matches Ok(s) && s.wf()
            && s.rows() == local_time_parameters.rows().push(row)),
{
    let ghost doc = node_views(nodes@);
    let mut b = local_time_parameters.start_push();
    let children = &nodes[node].children;
    assert(children@ == doc[node as int].children);
    let mut k: usize = 0;
    while k < children.len()
        invariant
            doc == node_views(nodes@),
            doc_wf(doc),
            node < nodes@.len(),
            children@ == doc[node as int].children,
            k <= children@.len(),
            b.wf(),
            b.store == local_time_parameters,
            ltp_fold(doc, node as int, k as int) == Ok::<
                LocalTimeParametersRowDraft,
                GreenButtonErrorView,
            >(b.draft()),
        decreases children@.len() - k,
    {
        let c = children[k];
        assert(doc[c as int] == nodes@[c as int]@);
        let name = strip_espi_prefix(nodes[c].name.as_str());
        let step: Result<(), GreenButtonError> = if text_eq(name, "dstStartRule") {
            match parse_rule_text(nodes, c) {
                Ok(v) => {
                    b.dst_start_rule(v);
                    Ok(())
                },
                Err(e) => Err(e),
            }
        } else if text_eq(name, "dstEndRule") {
            match parse_rule_text(nodes, c) {
                Ok(v) => {
                    b.dst_end_rule(v);
                    Ok(())
                },
                Err(e) => Err(e),
            }
        } else if text_eq(name, "dstOffset") {
            match parse_text_i64(nodes, c) {
                Ok(v) => {
                    b.dst_offset(v);
                    Ok(())
                },
                Err(e) => Err(e),
            }
        } else if text_eq(name, "tzOffset") {
            match parse_text_i64(nodes, c) {
                Ok(v) => {
                    b.tz_offset(v);
                    Ok(())
                },
                Err(e) => Err(e),
            }
        } else if nodes[c].name.as_str().unicode_len() > 0 {
            Err(GreenButtonError::UnmatchedTag(nodes[c].name.clone()))
        } else {
            Ok(())
        };
        if let Err(e) = step {
            proof {
                lemma_ltp_fold_err(doc, node as int, k + 1, children@.len() as int);
            }
            return Err(e);
        }
        k = k + 1;
    }
    b.finalize_push()
}

} // verus!
