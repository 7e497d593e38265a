use vstd::prelude::*;

use crate::entry::EntryType;
use crate::error::{GreenButtonError, GreenButtonErrorView};
use crate::interval_reading::{block_rows, parse_interval_readings, IntervalReadingRow, IntervalReadings};
use crate::local_time_parameters::{
    ltp_row, parse_local_time_parameters, LocalTimeParameters, LocalTimeParametersRow,
};
use crate::reading_type::{parse_reading_types, type_row, ReadingTypeRow, ReadingTypes};
use crate::text::text_eq;
use crate::xml::{doc_wf, node_views, XmlNode, XmlNodeView};

verus! {

/// What a scan of an entry's content has found so far.
pub ghost struct ContentScan {
    pub entry_type: EntryType,
    /// The interval blocks, in order.
    pub blocks: Seq<usize>,
    /// The last reading-type element.
    pub reading_type: Option<usize>,
    /// The last local-time-parameters element.
    pub local_time_parameters: Option<usize>,
}

/// What an entry's content adds: its category and the rows for each store.
pub ghost struct ContentOutcome {
    pub entry_type: EntryType,
    pub readings: Seq<IntervalReadingRow>,
    pub types: Seq<ReadingTypeRow>,
    pub local_time_parameters: Seq<LocalTimeParametersRow>,
}

/// The category of a content element named `name`; a reading type is given
/// the next row of `ReadingTypes`, `rt_len`. `None` for an unknown name.
pub open spec fn content_category(name: Seq<char>, rt_len: usize) -> Option<EntryType> {
    if name == "IntervalBlock"@ {
        Some(EntryType::IntervalBlock)
    } else if name == "ElectricPowerQualitySummary"@ || name == "MeterReading"@ || name
        == "UsagePoint"@ || name == "UsageSummary"@ {
        Some(EntryType::Other)
    } else if name == "LocalTimeParameters"@ {
        Some(EntryType::LocalTimeParameters)
    } else if name == "ReadingType"@ {
        Some(EntryType::ReadingTypeWithIndex(rt_len))
    } else {
        None
    }
}

/// What `EntryType::set` makes of `cur` given `new`: `None` for mixed content.
pub open spec fn merged_type(cur: EntryType, new: EntryType) -> Option<EntryType> {
    if cur == new || cur == EntryType::Unset {
        Some(new)
    } else {
        None
    }
}

/// The scan of the first `k` children of content `node`; nodes that are not
/// elements are passed over.
pub open spec fn content_scan(doc: Seq<XmlNodeView>, node: int, rt_len: usize, k: int) -> Result<
    ContentScan,
    GreenButtonErrorView,
>
    decreases k,
{
    if k <= 0 {
        Ok(
            ContentScan {
                entry_type: EntryType::Unset,
                blocks: Seq::empty(),
                reading_type: None,
                local_time_parameters: None,
            },
        )
    } else {
        match content_scan(doc, node, rt_len, k - 1) {
            Err(e) => Err(e),
            Ok(s) => {
                let c = doc[node].children[k - 1];
                let name = doc[c as int].name;
                if !doc[c as int].is_element {
                    Ok(s)
                } else {
                    match content_category(name, rt_len) {
                        None => Err(GreenButtonErrorView::UnknownContentTag(name)),
                        Some(cat) => match merged_type(s.entry_type, cat) {
                            None => Err(GreenButtonErrorView::MixedContent),
                            Some(t) => Ok(
                                ContentScan {
                                    entry_type: t,
                                    blocks: if name == "IntervalBlock"@ {
                                        s.blocks.push(c)
                                    } else {
                                        s.blocks
                                    },
                                    reading_type: if name == "ReadingType"@ {
                                        Some(c)
                                    } else {
                                        s.reading_type
                                    },
                                    local_time_parameters: if name == "LocalTimeParameters"@ {
                                        Some(c)
                                    } else {
                                        s.local_time_parameters
                                    },
                                },
                            ),
                        },
                    }
                }
            },
        }
    }
}

/// The readings of the first `k` interval blocks of `blocks`, in order.
pub open spec fn blocks_rows(doc: Seq<XmlNodeView>, blocks: Seq<usize>, entry_index: usize, k: int) -> Result<
    Seq<IntervalReadingRow>,
    GreenButtonErrorView,
>
    decreases k,
{
    if k <= 0 {
        Ok(Seq::empty())
    } else {
        match blocks_rows(doc, blocks, entry_index, k - 1) {
            Err(e) => Err(e),
            Ok(rows) => {
                let b = blocks[k - 1] as int;
                match block_rows(doc, b, entry_index, doc[b].children.len() as int) {
                    Err(e) => Err(e),
                    Ok(more) => Ok(rows + more),
                }
            },
        }
    }
}

/// What content `node` of entry `entry_index` adds, `rt_len` being the
/// number of reading types read before it: its interval blocks are read
/// first, then its reading type, then its local-time parameters.
#[verifier::opaque]
pub open spec fn content_outcome(doc: Seq<XmlNodeView>, node: int, entry_index: usize, rt_len: usize) -> Result<
    ContentOutcome,
    GreenButtonErrorView,
> {
    match content_scan(doc, node, rt_len, doc[node].children.len() as int) {
        Err(e) => Err(e),
        Ok(s) => match blocks_rows(doc, s.blocks, entry_index, s.blocks.len() as int) {
            Err(e) => Err(e),
            Ok(readings) => {
                let types = match s.reading_type {
                    None => Ok(Seq::<ReadingTypeRow>::empty()),
                    Some(n) => match type_row(doc, n as int, entry_index) {
                        Err(e) => Err(e),
                        Ok(row) => Ok(seq![row]),
                    },
                };
                match types {
                    Err(e) => Err(e),
                    Ok(types) => {
                        let ltps = match s.local_time_parameters {
                            None => Ok(Seq::<LocalTimeParametersRow>::empty()),
                            Some(n) => match ltp_row(doc, n as int) {
                                Err(e) => Err(e),
                                Ok(row) => Ok(seq![row]),
                            },
                        };
                        match ltps {
                            Err(e) => Err(e),
                            Ok(ltps) => Ok(
                                ContentOutcome {
                                    entry_type: s.entry_type,
                                    readings,
                                    types,
                                    local_time_parameters: ltps,
                                },
                            ),
                        }
                    },
                }
            },
        },
    }
}

proof fn lemma_content_scan_err(doc: Seq<XmlNodeView>, node: int, rt_len: usize, k: int, n: int)
    requires
        0 <= k <= n,
        content_scan(doc, node, rt_len, k) is Err,
    ensures
        content_scan(doc, node, rt_len, n) == content_scan(doc, node, rt_len, k),
    decreases n - k,
{
    if n > k {
        lemma_content_scan_err(doc, node, rt_len, k, n - 1);
    }
}

proof fn lemma_blocks_rows_err(doc: Seq<XmlNodeView>, blocks: Seq<usize>, entry_index: usize, k: int, n: int)
    requires
        0 <= k <= n,
        blocks_rows(doc, blocks, entry_index, k) is Err,
    ensures
        blocks_rows(doc, blocks, entry_index, n) == blocks_rows(doc, blocks, entry_index, k),
    decreases n - k,
{
    if n > k {
        lemma_blocks_rows_err(doc, blocks, entry_index, k, n - 1);
    }
}

/// The category of a content element named `name`.
fn content_category_of(name: &str, rt_len: usize) -> (r: Option<EntryType>)
    ensures
        r == content_category(name@, rt_len),
{
    if text_eq(name, "IntervalBlock") {
        Some(EntryType::IntervalBlock)
    } else if text_eq(name, "ElectricPowerQualitySummary") || text_eq(name, "MeterReading")
        || text_eq(name, "UsagePoint") || text_eq(name, "UsageSummary") {
        Some(EntryType::Other)
    } else if text_eq(name, "LocalTimeParameters") {
        Some(EntryType::LocalTimeParameters)
    } else if text_eq(name, "ReadingType") {
        Some(EntryType::ReadingTypeWithIndex(rt_len))
    } else {
        None
    }
}

/// Scans the children of content `node`: the category and the elements to read.
fn scan_content(nodes: &Vec<XmlNode>, node: usize, rt_len: usize) -> (r: Result<
    (EntryType, Vec<usize>, Option<usize>, Option<usize>),
    GreenButtonError,
>)
    requires
        doc_wf(node_views(nodes@)),
        node < nodes@.len(),
    ensures
        ({
            let doc = node_views(nodes@);
            match content_scan(doc, node as int, rt_len, doc[node as int].children.len() as int) {
                Err(e) => r matches Err(x) && x@ == e,
                Ok(s) => r matches Ok((t, blocks, rt, ltp)) && s == (ContentScan {
                    entry_type: t,
                    blocks: blocks@,
                    reading_type: rt,
                    local_time_parameters: ltp,
                }) && (forall|j: int| 0 <= j < blocks@.len() ==> #[trigger] blocks@[j] < nodes@.len())
                    && (rt matches Some(n) ==> n < nodes@.len()) && (ltp matches Some(n) ==> n
                    < nodes@.len()),
            }
        }),
{
    let ghost doc = node_views(nodes@);
    let mut entry_type = EntryType::Unset;
    let mut blocks: Vec<usize> = Vec::new();
    let mut reading_type_node: Option<usize> = None;
    let mut ltp_node: Option<usize> = None;
    let children = &nodes[node].children;
    assert(children@ == doc[node as int].children);
    let mut k: usize = 0;
    while k < children.len()
        invariant
            doc == node_views(nodes@),
            doc_wf(doc),
            node < nodes@.len(),
            children@ == doc[node as int].children,
            k <= children@.len(),
            content_scan(doc, node as int, rt_len, k as int) == Ok::<ContentScan, GreenButtonErrorView>(
                ContentScan {
                    entry_type,
                    blocks: blocks@,
                    reading_type: reading_type_node,
                    local_time_parameters: ltp_node,
                },
            ),
            forall|j: int| 0 <= j < blocks@.len() ==> #[trigger] blocks@[j] < nodes@.len(),
            reading_type_node matches Some(n) ==> n < nodes@.len(),
            ltp_node matches Some(n) ==> n < nodes@.len(),
        decreases children@.len() - k,
    {
        let c = children[k];
        assert(doc[c as int] == nodes@[c as int]@);
        assert(c < nodes@.len());
        if nodes[c].is_element {
            let name = nodes[c].name.as_str();
            let category = match content_category_of(name, rt_len) {
                Some(t) => t,
                None => {
                    proof {
                        assert(content_scan(doc, node as int, rt_len, k + 1) == Err::<
                            ContentScan,
                            GreenButtonErrorView,
                        >(GreenButtonErrorView::UnknownContentTag(doc[c as int].name)));
                        lemma_content_scan_err(doc, node as int, rt_len, k + 1, children@.len() as int);
                    }
                    return Err(GreenButtonError::UnknownContentTag(nodes[c].name.clone()));
                },
            };
            if let Err(e) = entry_type.set(category) {
                proof {
                    assert(content_scan(doc, node as int, rt_len, k + 1) == Err::<
                        ContentScan,
                        GreenButtonErrorView,
                    >(GreenButtonErrorView::MixedContent));
                    lemma_content_scan_err(doc, node as int, rt_len, k + 1, children@.len() as int);
                }
                return Err(e);
            }
            if text_eq(name, "IntervalBlock") {
                blocks.push(c);
            }
            if text_eq(name, "ReadingType") {
                reading_type_node = Some(c);
            }
            if text_eq(name, "LocalTimeParameters") {
                ltp_node = Some(c);
            }
        }
        k = k + 1;
    }
    Ok((entry_type, blocks, reading_type_node, ltp_node))
}

/// Reads every interval block of `blocks`, in order.
fn parse_blocks(
    interval_readings: IntervalReadings,
    nodes: &Vec<XmlNode>,
    blocks: &Vec<usize>,
    entry_index: usize,
) -> (r: Result<IntervalReadings, GreenButtonError>)
    requires
        interval_readings.wf(),
        doc_wf(node_views(nodes@)),
        forall|j: int| 0 <= j < blocks@.len() ==> #[trigger] blocks@[j] < nodes@.len(),
    ensures
        blocks_rows(node_views(nodes@), blocks@, entry_index, blocks@.len() as int) matches Err(e) ==> (r matches Err(
            x,
        ) && x@ == e),
        blocks_rows(node_views(nodes@), blocks@, entry_index, blocks@.len() as int) matches Ok(rows) ==> (r matches Ok(
            s,
        ) && s.wf() && s.rows() == interval_readings.rows() + rows),
{
    let ghost doc = node_views(nodes@);
    let mut ir = interval_readings;
    let mut b: usize = 0;
    assert(interval_readings.rows() + Seq::<IntervalReadingRow>::empty() =~= interval_readings.rows());
    while b < blocks.len()
        invariant
            doc == node_views(nodes@),
            doc_wf(doc),
            forall|j: int| 0 <= j < blocks@.len() ==> #[trigger] blocks@[j] < nodes@.len(),
            b <= blocks@.len(),
            ir.wf(),
            blocks_rows(doc, blocks@, entry_index, b as int) matches Ok(rows) && ir.rows()
                == interval_readings.rows() + rows,
        decreases blocks@.len() - b,
    {
        let ghost rows = blocks_rows(doc, blocks@, entry_index, b as int)->Ok_0;
        ir = match parse_interval_readings(ir, nodes, blocks[b], entry_index) {
            Ok(s) => s,
            Err(e) => {
                proof {
                    lemma_blocks_rows_err(doc, blocks@, entry_index, b + 1, blocks@.len() as int);
                }
                return Err(e);
            },
        };
        proof {
            let more = block_rows(
                doc,
                blocks@[b as int] as int,
                entry_index,
                doc[blocks@[b as int] as int].children.len() as int,
            )->Ok_0;
            assert(interval_readings.rows() + (rows + more) =~= interval_readings.rows() + rows + more);
        }
        b = b + 1;
    }
    Ok(ir)
}

/// Classifies the content of entry `entry_index` and reads what it holds:
/// every interval block (providers may send several), its reading type and
/// its local-time parameters, each appended to its store.
pub fn parse_content_data(
    entry_index: usize,
    interval_readings: IntervalReadings,
    reading_types: ReadingTypes,
    local_time_parameters: LocalTimeParameters,
    nodes: &Vec<XmlNode>,
    node: usize,
) -> (r: Result<(EntryType, IntervalReadings, ReadingTypes, LocalTimeParameters), GreenButtonError>)
    requires
        interval_readings.wf(),
        reading_types.wf(),
        local_time_parameters.wf(),
        doc_wf(node_views(nodes@)),
        node < nodes@.len(),
    ensures
        content_outcome(node_views(nodes@), node as int, entry_index, reading_types.spec_len() as usize) matches Err(e)
            ==> (r matches Err(x) && x@ == e),
        content_outcome(node_views(nodes@), node as int, entry_index, reading_types.spec_len() as usize) matches Ok(o)
            ==> (r matches Ok((t, a, b, c)) && t == o.entry_type && a.wf() && b.wf() && c.wf() && a.rows()
            == interval_readings.rows() + o.readings && b.rows() == reading_types.rows() + o.types
            && c.rows() == local_time_parameters.rows() + o.local_time_parameters),
{
    reveal(content_outcome);
    let ghost doc = node_views(nodes@);
    let rt_len = reading_types.len();
    let (entry_type, blocks, reading_type_node, ltp_node) = match scan_content(nodes, node, rt_len) {
        Ok(s) => s,
        Err(e) => return Err(e),
    };
    let ir = match parse_blocks(interval_readings, nodes, &blocks, entry_index) {
        Ok(s) => s,
        Err(e) => return Err(e),
    };
    let mut rt = reading_types;
    if let Some(n) = reading_type_node {
        rt = match parse_reading_types(rt, nodes, n, entry_index) {
            Ok(s) => s,
            Err(e) => return Err(e),
        };
        assert(reading_types.rows().push(type_row(doc, n as int, entry_index)->Ok_0) =~= reading_types.rows()
            + seq![type_row(doc, n as int, entry_index)->Ok_0]);
    } else {
        assert(reading_types.rows() + Seq::<ReadingTypeRow>::empty() =~= reading_types.rows());
    }
    let mut ltp = local_time_parameters;
    if let Some(n) = ltp_node {
        ltp = match parse_local_time_parameters(ltp, nodes, n) {
            Ok(s) => s,
            Err(e) => return Err(e),
        };
        assert(local_time_parameters.rows().push(ltp_row(doc, n as int)->Ok_0)
            =~= local_time_parameters.rows() + seq![ltp_row(doc, n as int)->Ok_0]);
    } else {
        assert(local_time_parameters.rows() + Seq::<LocalTimeParametersRow>::empty()
            =~= local_time_parameters.rows());
    }
    Ok((entry_type, ir, rt, ltp))
}

} // verus!
