use vstd::prelude::*;

use crate::error::{GreenButtonError, GreenButtonErrorView};
use crate::interval_reading::{IntervalReadingRowDraft, IntervalReadingsRowBuilder};
use crate::parse_helpers::{number_in, parse_text_i32, parse_text_i64, strip_espi_prefix, stripped};
use crate::text::text_eq;
use crate::xml::{all_text_of, doc_wf, node_views, XmlNode, XmlNodeView};

verus! {

/// The last of the first `k` children of `node` whose name, without the
/// namespace prefix, is `name`.
pub open spec fn last_child_named(doc: Seq<XmlNodeView>, node: int, name: Seq<char>, k: int) -> Option<
    int,
>
    decreases k,
{
    if k <= 0 {
        None
    } else {
        let c = doc[node].children[k - 1] as int;
        if stripped(doc[c].name) == name {
            Some(c)
        } else {
            last_child_named(doc, node, name, k - 1)
        }
    }
}

/// The draft once the time period `node` is read into it: the text of its
/// last `start` child and of its last `duration` child.
pub open spec fn time_period_draft(
    d: IntervalReadingRowDraft,
    doc: Seq<XmlNodeView>,
    node: int,
) -> Result<IntervalReadingRowDraft, GreenButtonErrorView> {
    let n = doc[node].children.len() as int;
    match last_child_named(doc, node, "start"@, n) {
        None => Err(GreenButtonErrorView::MissingStartTime),
        Some(s) => match number_in(all_text_of(doc, s), i64::MIN as int, i64::MAX as int) {
            None => Err(GreenButtonErrorView::InvalidNumber(all_text_of(doc, s))),
            Some(v) => match last_child_named(doc, node, "duration"@, n) {
                None => Err(GreenButtonErrorView::MissingDuration),
                Some(w) => match number_in(all_text_of(doc, w), i32::MIN as int, i32::MAX as int) {
                    None => Err(GreenButtonErrorView::InvalidNumber(all_text_of(doc, w))),
                    Some(x) => Ok(
                        IntervalReadingRowDraft {
                            time_period_start_unix_ms: Some(v as i64),
                            time_period_duration_seconds: Some(x as i32),
                            ..d
                        },
                    ),
                },
            },
        },
    }
}

/// The position of the last child of `node` named `name` (prefix dropped).
fn find_last_child(nodes: &Vec<XmlNode>, node: usize, name: &str) -> (r: Option<usize>)
    requires
        doc_wf(node_views(nodes@)),
        node < nodes@.len(),
    ensures
        r matches Some(c) ==> c < nodes@.len() && last_child_named(
            node_views(nodes@),
            node as int,
            name@,
            node_views(nodes@)[node as int].children.len() as int,
        ) == Some(c as int),
        r is None ==> last_child_named(
            node_views(nodes@),
            node as int,
            name@,
            node_views(nodes@)[node as int].children.len() as int,
        ) is None,
{
    let ghost doc = node_views(nodes@);
    let children = &nodes[node].children;
    assert(children@ == doc[node as int].children);
    let mut found: Option<usize> = None;
    let mut k: usize = 0;
    while k < children.len()
        invariant
            doc == node_views(nodes@),
            doc_wf(doc),
            node < nodes@.len(),
            children@ == doc[node as int].children,
            k <= children@.len(),
            found matches Some(c) ==> c < nodes@.len() && last_child_named(doc, node as int, name@, k as int) == Some(c as int),
            found is None ==> last_child_named(doc, node as int, name@, k as int) is None,
        decreases children@.len() - k,
    {
        let c = children[k];
        assert(doc[c as int] == nodes@[c as int]@);
        if text_eq(strip_espi_prefix(nodes[c].name.as_str()), name) {
            found = Some(c);
        }
        k = k + 1;
    }
    found
}

/// Reads a time period into the row being built: its `start` and its
/// `duration`, both required.
pub fn parse_time_period_data(
    row_builder: IntervalReadingsRowBuilder,
    nodes: &Vec<XmlNode>,
    node: usize,
) -> (r: Result<IntervalReadingsRowBuilder, GreenButtonError>)
    requires
        doc_wf(node_views(nodes@)),
        node < nodes@.len(),
    ensures
        time_period_draft(row_builder.draft(), node_views(nodes@), node as int) matches Err(e) ==> (r matches Err(
            x,
        ) && x@ == e),
        time_period_draft(row_builder.draft(), node_views(nodes@), node as int) matches Ok(d) ==> (r matches Ok(
            b,
        ) && b.draft() == d && b.store == row_builder.store),
{
    let mut row_builder = row_builder;
    let start = match find_last_child(nodes, node, "start") {
        Some(c) => c,
        None => return Err(GreenButtonError::MissingStartTime),
    };
    let seconds = match parse_text_i64(nodes, start) {
        Ok(v) => v,
        Err(e) => return Err(e),
    };
    let duration = match find_last_child(nodes, node, "duration") {
        Some(c) => c,
        None => return Err(GreenButtonError::MissingDuration),
    };
    let length = match parse_text_i32(nodes, duration) {
        Ok(v) => v,
        Err(e) => return Err(e),
    };
    row_builder.time_period_start_unix_ms(seconds);
    row_builder.time_period_duration_seconds(length);
    Ok(row_builder)
}

} // verus!
