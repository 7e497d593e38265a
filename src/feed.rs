use vstd::prelude::*;

use crate::content::{blocks_rows, content_outcome, content_scan};
use crate::denormalize::{denormalize_and_link, denormalize_outcome};
use crate::entry::{entry_outcome, parse_entry, Entries, EntryRow, EntryType};
use crate::error::{GreenButtonError, GreenButtonErrorView};
use crate::gb_type_details::CodeLookup;
use crate::interval_reading::{block_rows, reading_fold, IntervalReadingRow, IntervalReadings};
use crate::local_time_parameters::{LocalTimeParameters, LocalTimeParametersRow};
use crate::reading_type::{ReadingTypeRow, ReadingTypes};
use crate::text::text_eq;
use crate::timeseries::TimeSeries;
use crate::xml::{doc_wf, node_views, parse_nodes, xml_tree, XmlNode, XmlNodeView};

verus! {

/// The rows that a feed's entries add to each store.
pub ghost struct FeedRows {
    pub entries: Seq<EntryRow>,
    pub readings: Seq<IntervalReadingRow>,
    pub types: Seq<ReadingTypeRow>,
    pub local_time_parameters: Seq<LocalTimeParametersRow>,
}

/// The first child of `node`, from the `k`-th on, named `name`.
pub open spec fn first_child_named(doc: Seq<XmlNodeView>, node: int, name: Seq<char>, k: int) -> Option<
    usize,
>
    decreases doc[node].children.len() - k,
{
    if k < 0 || k >= doc[node].children.len() {
        None
    } else if doc[doc[node].children[k] as int].name == name {
        Some(doc[node].children[k])
    } else {
        first_child_named(doc, node, name, k + 1)
    }
}

/// The rows that the first `k` children of `feed` give: each `entry`
/// element, in document order, read as the next entry.
pub open spec fn feed_fold(doc: Seq<XmlNodeView>, feed: int, k: int) -> Result<
    FeedRows,
    GreenButtonErrorView,
>
    decreases k,
{
    if k <= 0 {
        Ok(
            FeedRows {
                entries: Seq::empty(),
                readings: Seq::empty(),
                types: Seq::empty(),
                local_time_parameters: Seq::empty(),
            },
        )
    } else {
        match feed_fold(doc, feed, k - 1) {
            Err(e) => Err(e),
            Ok(f) => {
                let c = doc[feed].children[k - 1] as int;
                if doc[c].is_element && doc[c].name == "entry"@ {
                    match entry_outcome(doc, c, f.entries.len() as usize, f.types.len() as usize) {
                        Err(e) => Err(e),
                        Ok(o) => Ok(
                            FeedRows {
                                entries: f.entries.push(o.entry),
                                readings: f.readings + o.readings,
                                types: f.types + o.types,
                                local_time_parameters: f.local_time_parameters
                                    + o.local_time_parameters,
                            },
                        ),
                    }
                } else {
                    Ok(f)
                }
            },
        }
    }
}

/// The rows that the XML text `xml` gives: an error where it is not a
/// document or has no `feed` at its top, else those of the feed's entries.
pub open spec fn feed_rows(xml: Seq<char>) -> Result<FeedRows, GreenButtonErrorView> {
    match xml_tree(xml) {
        None => Err(GreenButtonErrorView::MalformedXml),
        Some(doc) => if !doc_wf(doc) {
            Err(GreenButtonErrorView::MalformedXml)
        } else {
            match first_child_named(doc, 0, "feed"@, 0) {
                None => Err(GreenButtonErrorView::MissingFeed),
                Some(f) => feed_fold(doc, f as int, doc[f as int].children.len() as int),
            }
        },
    }
}

/// The rows refer to each other within bounds.
pub open spec fn rows_valid(f: FeedRows) -> bool {
    &&& forall|i: int|
        0 <= i < f.readings.len() ==> #[trigger] f.readings[i].entry_index < f.entries.len()
    &&& forall|k: int|
        0 <= k < f.entries.len() ==> (#[trigger] f.entries[k].entry_type matches EntryType::ReadingTypeWithIndex(t)
            ==> t < f.types.len())
}

proof fn lemma_reading_fold_keeps_index(doc: Seq<XmlNodeView>, node: int, entry_index: usize, k: int)
    ensures
        reading_fold(doc, node, entry_index, k) matches Ok(d) ==> d.entry_index == Some(entry_index),
    decreases k,
{
    if k > 0 {
        lemma_reading_fold_keeps_index(doc, node, entry_index, k - 1);
    }
}

proof fn lemma_block_rows_index(doc: Seq<XmlNodeView>, node: int, entry_index: usize, k: int)
    ensures
        block_rows(doc, node, entry_index, k) matches Ok(rows) ==> forall|i: int|
            0 <= i < rows.len() ==> #[trigger] rows[i].entry_index == entry_index,
    decreases k,
{
    if k > 0 {
        lemma_block_rows_index(doc, node, entry_index, k - 1);
        let c = doc[node].children[k - 1] as int;
        lemma_reading_fold_keeps_index(doc, c, entry_index, doc[c].children.len() as int);
    }
}

proof fn lemma_blocks_rows_index(doc: Seq<XmlNodeView>, blocks: Seq<usize>, entry_index: usize, k: int)
    ensures
        blocks_rows(doc, blocks, entry_index, k) matches Ok(rows) ==> forall|i: int|
            0 <= i < rows.len() ==> #[trigger] rows[i].entry_index == entry_index,
    decreases k,
{
    if k > 0 {
        lemma_blocks_rows_index(doc, blocks, entry_index, k - 1);
        let b = blocks[k - 1] as int;
        lemma_block_rows_index(doc, b, entry_index, doc[b].children.len() as int);
        if let Ok(rows) = blocks_rows(doc, blocks, entry_index, k) {
            let prev = blocks_rows(doc, blocks, entry_index, k - 1)->Ok_0;
            let more = block_rows(doc, b, entry_index, doc[b].children.len() as int)->Ok_0;
            assert forall|i: int| 0 <= i < rows.len() implies #[trigger] rows[i].entry_index
                == entry_index by {
                if i < prev.len() {
                    assert(rows[i] == prev[i]);
                } else {
                    assert(rows[i] == more[i - prev.len()]);
                }
            }
        }
    }
}

proof fn lemma_scan_reading_type(doc: Seq<XmlNodeView>, node: int, rt_len: usize, k: int)
    ensures
        content_scan(doc, node, rt_len, k) matches Ok(s) ==> (s.entry_type matches EntryType::ReadingTypeWithIndex(t)
            ==> t == rt_len && s.reading_type is Some),
    decreases k,
{
    if k > 0 {
        lemma_scan_reading_type(doc, node, rt_len, k - 1);
    }
}

/// What one entry adds keeps the stores' references within bounds.
proof fn lemma_entry_outcome_valid(doc: Seq<XmlNodeView>, node: int, index: usize, rt_len: usize)
    ensures
        entry_outcome(doc, node, index, rt_len) matches Ok(o) ==> {
            &&& forall|i: int| 0 <= i < o.readings.len() ==> #[trigger] o.readings[i].entry_index == index
            &&& o.entry.entry_type matches EntryType::ReadingTypeWithIndex(t) ==> t == rt_len
                && o.types.len() >= 1
        },
{
    reveal(entry_outcome);
    reveal(content_outcome);
    if let Ok(o) = entry_outcome(doc, node, index, rt_len) {
        let c = crate::entry::entry_fold(doc, node, doc[node].children.len() as int)->Ok_0.1->Some_0
            as int;
        let n = doc[c].children.len() as int;
        lemma_scan_reading_type(doc, c, rt_len, n);
        let s = content_scan(doc, c, rt_len, n)->Ok_0;
        lemma_blocks_rows_index(doc, s.blocks, index, s.blocks.len() as int);
    }
}

proof fn lemma_feed_fold_valid(doc: Seq<XmlNodeView>, feed: int, k: int)
    ensures
        feed_fold(doc, feed, k) matches Ok(f) ==> rows_valid(f),
    decreases k,
{
    if k > 0 {
        lemma_feed_fold_valid(doc, feed, k - 1);
        if let Ok(f) = feed_fold(doc, feed, k - 1) {
            let c = doc[feed].children[k - 1] as int;
            lemma_entry_outcome_valid(doc, c, f.entries.len() as usize, f.types.len() as usize);
            if let Ok(g) = feed_fold(doc, feed, k) {
                if doc[c].is_element && doc[c].name == "entry"@ {
                    let o = entry_outcome(doc, c, f.entries.len() as usize, f.types.len() as usize)->Ok_0;
                    assert forall|i: int| 0 <= i < g.readings.len() implies #[trigger] g.readings[i].entry_index
                        < g.entries.len() by {
                        if i < f.readings.len() {
                            assert(g.readings[i] == f.readings[i]);
                        } else {
                            assert(g.readings[i] == o.readings[i - f.readings.len()]);
                        }
                    }
                    assert forall|j: int| 0 <= j < g.entries.len() implies (#[trigger] g.entries[j].entry_type matches EntryType::ReadingTypeWithIndex(t)
                        ==> t < g.types.len()) by {
                        if j < f.entries.len() {
                            assert(g.entries[j] == f.entries[j]);
                        }
                    }
                }
            }
        }
    }
}

proof fn lemma_feed_fold_err(doc: Seq<XmlNodeView>, feed: int, k: int, n: int)
    requires
        0 <= k <= n,
        feed_fold(doc, feed, k) is Err,
    ensures
        feed_fold(doc, feed, n) == feed_fold(doc, feed, k),
    decreases n - k,
{
    if n > k {
        lemma_feed_fold_err(doc, feed, k, n - 1);
    }
}

/// The number of `entry` elements among the first `k` children of `feed`.
pub open spec fn entry_elements(doc: Seq<XmlNodeView>, feed: int, k: int) -> nat
    decreases k,
{
    if k <= 0 {
        0
    } else {
        let c = doc[feed].children[k - 1] as int;
        entry_elements(doc, feed, k - 1) + if doc[c].is_element && doc[c].name == "entry"@ {
            1nat
        } else {
            0nat
        }
    }
}

/// A feed that reads without error gives exactly one row of `Entries` per
/// `entry` element of its `feed`, and its rows refer to each other within
/// bounds. (Every store it fills keeps its columns of one length after each
/// commit: `finalize_push` ensures `wf`.)
pub proof fn lemma_one_entry_row_per_entry(xml: Seq<char>)
    ensures
        feed_rows(xml) matches Ok(f) ==> {
            let doc = xml_tree(xml)->Some_0;
            let feed = first_child_named(doc, 0, "feed"@, 0)->Some_0 as int;
            &&& f.entries.len() == entry_elements(doc, feed, doc[feed].children.len() as int)
            &&& rows_valid(f)
        },
{
    if let Ok(f) = feed_rows(xml) {
        let doc = xml_tree(xml)->Some_0;
        let feed = first_child_named(doc, 0, "feed"@, 0)->Some_0 as int;
        lemma_feed_fold_counts(doc, feed, doc[feed].children.len() as int);
        lemma_feed_fold_valid(doc, feed, doc[feed].children.len() as int);
    }
}

proof fn lemma_feed_fold_counts(doc: Seq<XmlNodeView>, feed: int, k: int)
    ensures
        feed_fold(doc, feed, k) matches Ok(f) ==> f.entries.len() == entry_elements(doc, feed, k),
    decreases k,
{
    if k > 0 {
        lemma_feed_fold_counts(doc, feed, k - 1);
    }
}

/// The first child of `node` named `name`.
fn find_first_child(nodes: &Vec<XmlNode>, node: usize, name: &str) -> (r: Option<usize>)
    requires
        doc_wf(node_views(nodes@)),
        node < nodes@.len(),
    ensures
        r == first_child_named(node_views(nodes@), node as int, name@, 0),
        r matches Some(c) ==> c < nodes@.len(),
{
    let ghost doc = node_views(nodes@);
    let children = &nodes[node].children;
    assert(children@ == doc[node as int].children);
    let mut k: usize = 0;
    while k < children.len()
        invariant
            doc == node_views(nodes@),
            doc_wf(doc),
            node < nodes@.len(),
            children@ == doc[node as int].children,
            k <= children@.len(),
            first_child_named(doc, node as int, name@, 0) == first_child_named(
                doc,
                node as int,
                name@,
                k as int,
            ),
        decreases children@.len() - k,
    {
        let c = children[k];
        assert(doc[c as int] == nodes@[c as int]@);
        if text_eq(nodes[c].name.as_str(), name) {
            return Some(c);
        }
        k = k + 1;
    }
    None
}

/// Parses one Green Button feed and denormalizes it into a time series:
/// each `entry` of the `feed` element is read into the columnar stores,
/// which are then joined.
pub fn parse_xml(xml: &str, lookup: &CodeLookup) -> (r: Result<TimeSeries, GreenButtonError>)
    ensures
        feed_rows(xml@) matches Err(e) ==> (r matches Err(x) && x@ == e),
        feed_rows(xml@) matches Ok(f) ==> exists|
            e: Entries,
            a: IntervalReadings,
            b: ReadingTypes,
            c: LocalTimeParameters,
        |
            e.wf() && a.wf() && b.wf() && c.wf() && e.rows() == f.entries && a.rows() == f.readings
                && b.rows() == f.types && c.rows() == f.local_time_parameters
                && #[trigger] denormalize_outcome(e, a, b, c, *lookup, r),
{
    let nodes = match parse_nodes(xml) {
        Some(n) => n,
        None => return Err(GreenButtonError::MalformedXml),
    };
    let ghost doc = node_views(nodes@);
    let feed = match find_first_child(&nodes, 0, "feed") {
        Some(f) => f,
        None => return Err(GreenButtonError::MissingFeed),
    };
    let mut entries = Entries::default();
    let mut interval_readings = IntervalReadings::default();
    let mut reading_types = ReadingTypes::default();
    let mut local_time_parameters = LocalTimeParameters::default();
    let children = &nodes[feed].children;
    assert(children@ == doc[feed as int].children);
    let mut k: usize = 0;
    while k < children.len()
        invariant
            doc == node_views(nodes@),
            doc_wf(doc),
            xml_tree(xml@) == Some(doc),
            first_child_named(doc, 0, "feed"@, 0) == Some(feed),
            feed < nodes@.len(),
            children@ == doc[feed as int].children,
            k <= children@.len(),
            entries.wf(),
            interval_readings.wf(),
            reading_types.wf(),
            local_time_parameters.wf(),
            feed_fold(doc, feed as int, k as int) == Ok::<FeedRows, GreenButtonErrorView>(
                FeedRows {
                    entries: entries.rows(),
                    readings: interval_readings.rows(),
                    types: reading_types.rows(),
                    local_time_parameters: local_time_parameters.rows(),
                },
            ),
        decreases children@.len() - k,
    {
        let c = children[k];
        assert(doc[c as int] == nodes@[c as int]@);
        if nodes[c].is_element && text_eq(nodes[c].name.as_str(), "entry") {
            let entries_len = entries.len();
            match parse_entry(
                entries,
                interval_readings,
                reading_types,
                local_time_parameters,
                &nodes,
                c,
                entries_len,
            ) {
                Ok((e, a, b, l)) => {
                    entries = e;
                    interval_readings = a;
                    reading_types = b;
                    local_time_parameters = l;
                },
                Err(e) => {
                    proof {
                        lemma_feed_fold_err(doc, feed as int, k + 1, children@.len() as int);
                    }
                    return Err(e);
                },
            }
        }
        k = k + 1;
    }
    let ghost f = feed_fold(doc, feed as int, children@.len() as int)->Ok_0;
    proof {
        assert(f.entries.len() == entries.spec_len());
        assert(f.types.len() == reading_types.spec_len());
        lemma_feed_fold_valid(doc, feed as int, children@.len() as int);
        assert forall|i: int| 0 <= i < interval_readings.entry_index@.len() implies #[trigger] interval_readings.entry_index@[i]
            < entries.entry_type@.len() by {
            assert(f.readings[i] == interval_readings.row(i));
            assert(f.readings[i].entry_index == interval_readings.entry_index@[i]);
        }
        assert forall|j: int| 0 <= j < entries.entry_type@.len() implies (#[trigger] entries.entry_type@[j] matches EntryType::ReadingTypeWithIndex(t)
            ==> t < reading_types.entry_index@.len()) by {
            assert(f.entries[j] == entries.row(j));
            assert(f.entries[j].entry_type == entries.entry_type@[j]);
        }
    }
    let r = denormalize_and_link(
        &entries,
        &interval_readings,
        &reading_types,
        &local_time_parameters,
        lookup,
    );
    r
}

} // verus!
