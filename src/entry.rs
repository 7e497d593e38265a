use vstd::prelude::*;

use crate::error::{GreenButtonError, GreenButtonErrorView};
use crate::content::{content_outcome, parse_content_data};
use crate::interval_reading::{IntervalReadingRow, IntervalReadings};
use crate::local_time_parameters::{LocalTimeParameters, LocalTimeParametersRow};
use crate::reading_type::{ReadingTypeRow, ReadingTypes};
use crate::text::{parse_rfc3339_local, regex_capture, regex_first_group, rfc3339_local_seconds, text_eq};
use crate::xml::{attr_value, attribute, doc_wf, node_views, XmlNode, XmlNodeView};

verus! {

/// The category of one Atom entry.
#[derive(Debug, Clone, Copy, PartialEq, Eq, Structural)]
pub enum EntryType {
    /// A reading-type entry; the index is its row in `ReadingTypes`.
    ReadingTypeWithIndex(usize),
    IntervalBlock,
    LocalTimeParameters,
    Other,
    Unset,
}

impl EntryType {
    /// Records one more category seen in an entry's content: the first one
    /// sticks, the same one again is accepted, a different one is an error.
    pub fn set(&mut self, new: EntryType) -> (r: Result<(), GreenButtonError>)
        ensures
            *old(self) == new ==> r is Ok && *final(self) == new,
            *old(self) != new && *old(self) == EntryType::Unset ==> r is Ok && *final(self) == new,
            *old(self) != new && *old(self) != EntryType::Unset ==> r == Err::<(), GreenButtonError>(
                GreenButtonError::MixedContent,
            ) && *final(self) == *old(self),
    {
        if *self == new {
            return Ok(());
        }
        if *self == EntryType::Unset {
            *self = new;
            return Ok(());
        }
        Err(GreenButtonError::MixedContent)
    }

    /// A short human-readable name of the category.
    pub fn label(&self) -> (r: &'static str)
        ensures
            r@ == entry_type_label(*self)@,
    {
        match self {
            EntryType::ReadingTypeWithIndex(_) => "reading type",
            EntryType::IntervalBlock => "interval block",
            EntryType::LocalTimeParameters => "local time parameters",
            EntryType::Other => "unparsed",
            EntryType::Unset => "ERROR",
        }
    }
}

/// The name that `EntryType::label` gives each category.
pub open spec fn entry_type_label(t: EntryType) -> &'static str {
    match t {
        EntryType::ReadingTypeWithIndex(_) => "reading type",
        EntryType::IntervalBlock => "interval block",
        EntryType::LocalTimeParameters => "local time parameters",
        EntryType::Other => "unparsed",
        EntryType::Unset => "ERROR",
    }
}

/// The error of a commit that lacks `field` of `table`.
pub fn missing(field: &'static str, table: &'static str) -> (e: GreenButtonError)
    ensures
        e == (GreenButtonError::MissingField { field, table }),
{
    GreenButtonError::MissingField { field, table }
}

/// One row per Atom entry of a feed, in document order, held column by column.
pub struct Entries {
    pub entry_type: Vec<EntryType>,
    /// The entry's own href, from its `self` link.
    pub href: Vec<String>,
    pub title: Vec<String>,
    pub published_unix_ms: Vec<i64>,
    pub updated_unix_ms: Vec<i64>,
    /// The href of the meter reading the entry belongs to; empty if none.
    pub related_meter_reading_entry_href: Vec<String>,
    /// The href of the entry's reading type; empty if none.
    pub related_reading_type_entry_href: Vec<String>,
}

/// One row of `Entries`, strings as their text.
pub ghost struct EntryRow {
    pub entry_type: EntryType,
    pub href: Seq<char>,
    pub title: Seq<char>,
    pub published_unix_ms: i64,
    pub updated_unix_ms: i64,
    pub related_meter_reading_entry_href: Seq<char>,
    pub related_reading_type_entry_href: Seq<char>,
}

/// The fields given so far for a row of `Entries`.
pub ghost struct EntryRowDraft {
    pub entry_type: Option<EntryType>,
    pub href: Option<Seq<char>>,
    pub title: Option<Seq<char>>,
    pub published_unix_ms: Option<i64>,
    pub updated_unix_ms: Option<i64>,
    pub related_meter_reading_entry_href: Option<Seq<char>>,
    pub related_reading_type_entry_href: Option<Seq<char>>,
}

impl EntryRowDraft {
    /// No field given yet.
    pub open spec fn empty() -> EntryRowDraft {
        EntryRowDraft { entry_type: None, href: None, title: None, published_unix_ms: None, updated_unix_ms: None, related_meter_reading_entry_href: None, related_reading_type_entry_href: None }
    }

    /// The row that committing this draft appends: a field not given takes its
    /// default; the first field, in declaration order, without a value and
    /// without a default fails the commit.
    pub open spec fn commit(self) -> Result<EntryRow, GreenButtonErrorView> {
        if self.entry_type is None {
            Err(GreenButtonErrorView::MissingField { field: "entry_type", table: "Entries" })
        } else if self.href is None {
            Err(GreenButtonErrorView::MissingField { field: "href", table: "Entries" })
        } else if self.title is None {
            Err(GreenButtonErrorView::MissingField { field: "title", table: "Entries" })
        } else if self.published_unix_ms is None {
            Err(GreenButtonErrorView::MissingField { field: "published_unix_ms", table: "Entries" })
        } else if self.updated_unix_ms is None {
            Err(GreenButtonErrorView::MissingField { field: "updated_unix_ms", table: "Entries" })
        } else {
            Ok(
                EntryRow {
                    entry_type: self.entry_type->Some_0,
                    href: self.href->Some_0,
                    title: self.title->Some_0,
                    published_unix_ms: self.published_unix_ms->Some_0,
                    updated_unix_ms: self.updated_unix_ms->Some_0,
                    related_meter_reading_entry_href: match self.related_meter_reading_entry_href {
                        Some(x) => x,
                        None => Seq::<char>::empty(),
                    },
                    related_reading_type_entry_href: match self.related_reading_type_entry_href {
                        Some(x) => x,
                        None => Seq::<char>::empty(),
                    },
                },
            )
        }
    }
}

impl Entries {
    /// Every column holds the same number of rows.
    pub open spec fn wf(&self) -> bool {
        let n = self.entry_type@.len();
        &&& self.href@.len() == n
        &&& self.title@.len() == n
        &&& self.published_unix_ms@.len() == n
        &&& self.updated_unix_ms@.len() == n
        &&& self.related_meter_reading_entry_href@.len() == n
        &&& self.related_reading_type_entry_href@.len() == n
    }

    /// The number of rows.
    pub open spec fn spec_len(&self) -> nat {
        self.entry_type@.len()
    }

    /// Row `i`.
    pub open spec fn row(&self, i: int) -> EntryRow {
        EntryRow {
            entry_type: self.entry_type@[i],
            href: self.href@[i]@,
            title: self.title@[i]@,
            published_unix_ms: self.published_unix_ms@[i],
            updated_unix_ms: self.updated_unix_ms@[i],
            related_meter_reading_entry_href: self.related_meter_reading_entry_href@[i]@,
            related_reading_type_entry_href: self.related_reading_type_entry_href@[i]@,
        }
    }

    /// The rows in order.
    pub open spec fn rows(&self) -> Seq<EntryRow> {
        Seq::new(self.spec_len(), |i: int| self.row(i))
    }

    /// A store made of the given columns, which must have one length.
    pub fn new(entry_type: Vec<EntryType>, href: Vec<String>, title: Vec<String>, published_unix_ms: Vec<i64>, updated_unix_ms: Vec<i64>, related_meter_reading_entry_href: Vec<String>, related_reading_type_entry_href: Vec<String>) -> (r: Entries)
        requires
            href@.len() == entry_type@.len(),
            title@.len() == entry_type@.len(),
            published_unix_ms@.len() == entry_type@.len(),
            updated_unix_ms@.len() == entry_type@.len(),
            related_meter_reading_entry_href@.len() == entry_type@.len(),
            related_reading_type_entry_href@.len() == entry_type@.len(),
        ensures
            r.wf(),
            r == (Entries { entry_type, href, title, published_unix_ms, updated_unix_ms, related_meter_reading_entry_href, related_reading_type_entry_href }),
    {
        Entries { entry_type, href, title, published_unix_ms, updated_unix_ms, related_meter_reading_entry_href, related_reading_type_entry_href }
    }

    /// The number of rows.
    pub fn len(&self) -> (r: usize)
        requires
            self.wf(),
        ensures
            r == self.spec_len(),
    {
        self.entry_type.len()
    }

    /// Starts a new row; the store comes back from `finalize_push`.
    pub fn start_push(self) -> (b: EntriesRowBuilder)
        requires
            self.wf(),
        ensures
            b.wf(),
            b.store == self,
            b.draft() == EntryRowDraft::empty(),
    {
        EntriesRowBuilder { store: self, entry_type: None, href: None, title: None, published_unix_ms: None, updated_unix_ms: None, related_meter_reading_entry_href: None, related_reading_type_entry_href: None }
    }
}

impl Default for Entries {
    fn default() -> (r: Entries)
        ensures
            r.wf(),
            r.spec_len() == 0,
            r.rows() == Seq::<EntryRow>::empty(),
    {
        let r = Entries { entry_type: Vec::new(), href: Vec::new(), title: Vec::new(), published_unix_ms: Vec::new(), updated_unix_ms: Vec::new(), related_meter_reading_entry_href: Vec::new(), related_reading_type_entry_href: Vec::new() };
        assert(r.rows() =~= Seq::<EntryRow>::empty());
        r
    }
}

/// The row being built: the store it will be appended to, and the value of
/// each field given so far.
pub struct EntriesRowBuilder {
    pub store: Entries,
    pub entry_type: Option<EntryType>,
    pub href: Option<String>,
    pub title: Option<String>,
    pub published_unix_ms: Option<i64>,
    pub updated_unix_ms: Option<i64>,
    pub related_meter_reading_entry_href: Option<String>,
    pub related_reading_type_entry_href: Option<String>,
}

impl EntriesRowBuilder {
    pub open spec fn wf(&self) -> bool {
        self.store.wf()
    }

    /// The fields given so far.
    pub open spec fn draft(&self) -> EntryRowDraft {
        EntryRowDraft {
            entry_type: self.entry_type,
            href: match self.href {
                Some(x) => Some(x@),
                None => None,
            },
            title: match self.title {
                Some(x) => Some(x@),
                None => None,
            },
            published_unix_ms: self.published_unix_ms,
            updated_unix_ms: self.updated_unix_ms,
            related_meter_reading_entry_href: match self.related_meter_reading_entry_href {
                Some(x) => Some(x@),
                None => None,
            },
            related_reading_type_entry_href: match self.related_reading_type_entry_href {
                Some(x) => Some(x@),
                None => None,
            },
        }
    }

    pub fn entry_type(&mut self, x: EntryType)
        ensures
            *final(self) == (EntriesRowBuilder { entry_type: Some(x), ..*old(self) }),
            final(self).draft() == (EntryRowDraft { entry_type: Some(x), ..old(self).draft() }),
    {
        self.entry_type = Some(x);
    }

    pub fn href(&mut self, x: String)
        ensures
            *final(self) == (EntriesRowBuilder { href: Some(x), ..*old(self) }),
            final(self).draft() == (EntryRowDraft { href: Some(x@), ..old(self).draft() }),
    {
        self.href = Some(x);
    }

    pub fn title(&mut self, x: String)
        ensures
            *final(self) == (EntriesRowBuilder { title: Some(x), ..*old(self) }),
            final(self).draft() == (EntryRowDraft { title: Some(x@), ..old(self).draft() }),
    {
        self.title = Some(x);
    }

    pub fn published_unix_ms(&mut self, x: i64)
        ensures
            *final(self) == (EntriesRowBuilder { published_unix_ms: Some(x), ..*old(self) }),
            final(self).draft() == (EntryRowDraft { published_unix_ms: Some(x), ..old(self).draft() }),
    {
        self.published_unix_ms = Some(x);
    }

    pub fn updated_unix_ms(&mut self, x: i64)
        ensures
            *final(self) == (EntriesRowBuilder { updated_unix_ms: Some(x), ..*old(self) }),
            final(self).draft() == (EntryRowDraft { updated_unix_ms: Some(x), ..old(self).draft() }),
    {
        self.updated_unix_ms = Some(x);
    }

    pub fn related_meter_reading_entry_href(&mut self, x: String)
        ensures
            *final(self) == (EntriesRowBuilder { related_meter_reading_entry_href: Some(x), ..*old(self) }),
            final(self).draft() == (EntryRowDraft { related_meter_reading_entry_href: Some(x@), ..old(self).draft() }),
    {
        self.related_meter_reading_entry_href = Some(x);
    }

    pub fn related_reading_type_entry_href(&mut self, x: String)
        ensures
            *final(self) == (EntriesRowBuilder { related_reading_type_entry_href: Some(x), ..*old(self) }),
            final(self).draft() == (EntryRowDraft { related_reading_type_entry_href: Some(x@), ..old(self).draft() }),
    {
        self.related_reading_type_entry_href = Some(x);
    }

    /// Commits the row: fields not given take their default; a missing
    /// field without a default fails the commit and no column grows.
    pub fn finalize_push(self) -> (r: Result<Entries, GreenButtonError>)
        requires
            self.wf(),
        ensures
            self.draft().commit() matches Err(e) ==> (r matches Err(x) && x@ == e),
            self.draft().commit() matches Ok(row) ==> (r matches Ok(s) && s.wf() && s.rows()
                == self.store.rows().push(row)),
            self.draft().commit() matches Ok(row) ==> (r matches Ok(s) && s.spec_len()
                == self.store.spec_len() + 1 && s.row(s.spec_len() - 1) == row),
    {
        let ghost old_store = self.store;
        let ghost draft = self.draft();
        let EntriesRowBuilder { mut store, entry_type, href, title, published_unix_ms, updated_unix_ms, related_meter_reading_entry_href, related_reading_type_entry_href } = self;
        let entry_type = match entry_type {
            Some(x) => x,
            None => return Err(missing("entry_type", "Entries")),
        };
        let href = match href {
            Some(x) => x,
            None => return Err(missing("href", "Entries")),
        };
        let title = match title {
            Some(x) => x,
            None => return Err(missing("title", "Entries")),
        };
        let published_unix_ms = match published_unix_ms {
            Some(x) => x,
            None => return Err(missing("published_unix_ms", "Entries")),
        };
        let updated_unix_ms = match updated_unix_ms {
            Some(x) => x,
            None => return Err(missing("updated_unix_ms", "Entries")),
        };
        let related_meter_reading_entry_href = match related_meter_reading_entry_href {
            Some(x) => x,
            None => String::new(),
        };
        let related_reading_type_entry_href = match related_reading_type_entry_href {
            Some(x) => x,
            None => String::new(),
        };
        store.entry_type.push(entry_type);
        store.href.push(href);
        store.title.push(title);
        store.published_unix_ms.push(published_unix_ms);
        store.updated_unix_ms.push(updated_unix_ms);
        store.related_meter_reading_entry_href.push(related_meter_reading_entry_href);
        store.related_reading_type_entry_href.push(related_reading_type_entry_href);
        assert(store.rows() =~= old_store.rows().push(draft.commit()->Ok_0));
        Ok(store)
    }
}

/// The pattern whose first group is the meter-reading part of a `self` href.
pub const METER_READING_PATTERN: &'static str = "(.*MeterReading/[^/]*)/";

/// The href of the meter reading that `href` lies under, if any.
pub fn get_meter_reading(href: &str) -> (r: Option<String>)
    ensures
        r matches Some(m) ==> regex_first_group(METER_READING_PATTERN@, href@) == Some(m@),
        r is None ==> regex_first_group(METER_READING_PATTERN@, href@) is None,
{
    regex_capture(METER_READING_PATTERN, href)
}

/// The draft once `link` element `c` is read into it: a `self` link gives
/// the entry's href, and the meter reading under it; a `related` link of
/// type `espi-entry/ReadingType` gives the reading type's href.
pub open spec fn link_step(d: EntryRowDraft, doc: Seq<XmlNodeView>, c: int) -> EntryRowDraft {
    let attrs = doc[c].attributes;
    match attr_value(attrs, "href"@) {
        None => d,
        Some(h) => {
            let d1 = if attr_value(attrs, "rel"@) == Some("related"@) && attr_value(attrs, "type"@)
                == Some("espi-entry/ReadingType"@) {
                EntryRowDraft { related_reading_type_entry_href: Some(h), ..d }
            } else {
                d
            };
            if attr_value(attrs, "rel"@) == Some("self"@) {
                let d2 = EntryRowDraft { href: Some(h), ..d1 };
                match regex_first_group(METER_READING_PATTERN@, h) {
                    Some(m) => EntryRowDraft { related_meter_reading_entry_href: Some(m), ..d2 },
                    None => d2,
                }
            } else {
                d1
            }
        },
    }
}

/// Whether attribute `attr` of `node` has the value `val`.
fn attr_equals(node: &XmlNode, attr: &str, val: &str) -> (r: bool)
    ensures
        r == (attr_value(node@.attributes, attr@) == Some(val@)),
{
    match attribute(node, &attr.to_owned()) {
        Some(v) => text_eq(v.as_str(), val),
        None => false,
    }
}

/// Reads a `link` element into the row being built.
fn parse_link(row_builder: &mut EntriesRowBuilder, nodes: &Vec<XmlNode>, c: usize)
    requires
        c < nodes@.len(),
    ensures
        final(row_builder).store == old(row_builder).store,
        final(row_builder).draft() == link_step(old(row_builder).draft(), node_views(nodes@), c as int),
{
    let node = &nodes[c];
    assert(node_views(nodes@)[c as int] == node@);
    if let Some(href) = attribute(node, &"href".to_owned()) {
        if attr_equals(node, "rel", "related") && attr_equals(node, "type", "espi-entry/ReadingType") {
            row_builder.related_reading_type_entry_href(href.clone());
        }
        if attr_equals(node, "rel", "self") {
            row_builder.href(href.clone());
            if let Some(meter) = get_meter_reading(href.as_str()) {
                row_builder.related_meter_reading_entry_href(meter);
            }
        }
    }
}

/// The draft and the content element once the first `k` children of entry
/// `node` are read.
pub open spec fn entry_fold(doc: Seq<XmlNodeView>, node: int, k: int) -> Result<
    (EntryRowDraft, Option<usize>),
    GreenButtonErrorView,
>
    decreases k,
{
    if k <= 0 {
        Ok((EntryRowDraft::empty(), None))
    } else {
        match entry_fold(doc, node, k - 1) {
            Err(e) => Err(e),
            Ok((d, content)) => {
                let c = doc[node].children[k - 1];
                let x = doc[c as int];
                if x.name == "title"@ {
                    match x.text {
                        None => Err(GreenButtonErrorView::MissingText("title")),
                        Some(t) => Ok((EntryRowDraft { title: Some(t), ..d }, content)),
                    }
                } else if x.name == "published"@ {
                    match x.text {
                        None => Err(GreenButtonErrorView::MissingText("published")),
                        Some(t) => match rfc3339_local_seconds(t) {
                            None => Err(GreenButtonErrorView::InvalidTimestamp(t)),
                            Some(v) => Ok((EntryRowDraft { published_unix_ms: Some(v as i64), ..d }, content)),
                        },
                    }
                } else if x.name == "updated"@ {
                    match x.text {
                        None => Err(GreenButtonErrorView::MissingText("updated")),
                        Some(t) => match rfc3339_local_seconds(t) {
                            None => Err(GreenButtonErrorView::InvalidTimestamp(t)),
                            Some(v) => Ok((EntryRowDraft { updated_unix_ms: Some(v as i64), ..d }, content)),
                        },
                    }
                } else if x.name == "content"@ {
                    Ok((d, Some(c)))
                } else if x.name == "link"@ {
                    Ok((link_step(d, doc, c as int), content))
                } else {
                    Ok((d, content))
                }
            },
        }
    }
}

/// What one entry adds to the stores.
pub ghost struct EntryOutcome {
    pub entry: EntryRow,
    pub readings: Seq<IntervalReadingRow>,
    pub types: Seq<ReadingTypeRow>,
    pub local_time_parameters: Seq<LocalTimeParametersRow>,
}

/// What entry `node`, the `index`-th, adds when `rt_len` reading types were
/// read before it: its children are read, then its content, then its row
/// is committed.
#[verifier::opaque]
pub open spec fn entry_outcome(doc: Seq<XmlNodeView>, node: int, index: usize, rt_len: usize) -> Result<
    EntryOutcome,
    GreenButtonErrorView,
> {
    match entry_fold(doc, node, doc[node].children.len() as int) {
        Err(e) => Err(e),
        Ok((d, content)) => match content {
            None => Err(GreenButtonErrorView::MissingContent),
            Some(c) => match content_outcome(doc, c as int, index, rt_len) {
                Err(e) => Err(e),
                Ok(o) => match (EntryRowDraft { entry_type: Some(o.entry_type), ..d }).commit() {
                    Err(e) => Err(e),
                    Ok(row) => Ok(
                        EntryOutcome {
                            entry: row,
                            readings: o.readings,
                            types: o.types,
                            local_time_parameters: o.local_time_parameters,
                        },
                    ),
                },
            },
        },
    }
}

proof fn lemma_entry_fold_err(doc: Seq<XmlNodeView>, node: int, k: int, n: int)
    requires
        0 <= k <= n,
        entry_fold(doc, node, k) is Err,
    ensures
        entry_fold(doc, node, n) == entry_fold(doc, node, k),
    decreases n - k,
{
    if n > k {
        lemma_entry_fold_err(doc, node, k, n - 1);
    }
}

/// Reads entry `node`, the `index`-th of its feed: its title, timestamps and
/// links into a new row of `entries`, and its content into the other stores.
pub fn parse_entry(
    entries: Entries,
    interval_readings: IntervalReadings,
    reading_types: ReadingTypes,
    local_time_parameters: LocalTimeParameters,
    nodes: &Vec<XmlNode>,
    node: usize,
    index: usize,
) -> (r: Result<(Entries, IntervalReadings, ReadingTypes, LocalTimeParameters), GreenButtonError>)
    requires
        entries.wf(),
        interval_readings.wf(),
        reading_types.wf(),
        local_time_parameters.wf(),
        doc_wf(node_views(nodes@)),
        node < nodes@.len(),
    ensures
        entry_outcome(node_views(nodes@), node as int, index, reading_types.spec_len() as usize) matches Err(e)
            ==> (r matches Err(x) && x@ == e),
        entry_outcome(node_views(nodes@), node as int, index, reading_types.spec_len() as usize) matches Ok(o)
            ==> (r matches Ok((s, a, b, c)) && s.wf() && a.wf() && b.wf() && c.wf() && s.rows()
            == entries.rows().push(o.entry) && a.rows() == interval_readings.rows() + o.readings
            && b.rows() == reading_types.rows() + o.types && c.rows() == local_time_parameters.rows()
            + o.local_time_parameters),
{
    reveal(entry_outcome);
    let ghost doc = node_views(nodes@);
    let mut b = entries.start_push();
    let mut content_node: Option<usize> = None;
    let children = &nodes[node].children;
    assert(children@ == doc[node as int].children);
    let mut k: usize = 0;
    while k < children.len()
        invariant
            doc == node_views(nodes@),
            doc_wf(doc),
            node < nodes@.len(),
            children@ == doc[node as int].children,
            k <= children@.len(),
            b.wf(),
            b.store == entries,
            entry_fold(doc, node as int, k as int) == Ok::<
                (EntryRowDraft, Option<usize>),
                GreenButtonErrorView,
            >((b.draft(), content_node)),
            content_node matches Some(c) ==> c < nodes@.len(),
        decreases children@.len() - k,
    {
        let c = children[k];
        let x = &nodes[c];
        assert(doc[c as int] == x@);
        let name = x.name.as_str();
        let step: Result<(), GreenButtonError> = if text_eq(name, "title") {
            match &x.text {
                Some(t) => {
                    b.title(t.clone());
                    Ok(())
                },
                None => Err(GreenButtonError::MissingText("title")),
            }
        } else if text_eq(name, "published") {
            match &x.text {
                Some(t) => match parse_rfc3339_local(t.as_str()) {
                    Some(v) => {
                        b.published_unix_ms(v);
                        Ok(())
                    },
                    None => Err(GreenButtonError::InvalidTimestamp(t.clone())),
                },
                None => Err(GreenButtonError::MissingText("published")),
            }
        } else if text_eq(name, "updated") {
            match &x.text {
                Some(t) => match parse_rfc3339_local(t.as_str()) {
                    Some(v) => {
                        b.updated_unix_ms(v);
                        Ok(())
                    },
                    None => Err(GreenButtonError::InvalidTimestamp(t.clone())),
                },
                None => Err(GreenButtonError::MissingText("updated")),
            }
        } else if text_eq(name, "content") {
            content_node = Some(c);
            Ok(())
        } else if text_eq(name, "link") {
            parse_link(&mut b, nodes, c);
            Ok(())
        } else {
            Ok(())
        };
        if let Err(e) = step {
            proof {
                reveal(entry_outcome);
                lemma_entry_fold_err(doc, node as int, k + 1, children@.len() as int);
            }
            return Err(e);
        }
        k = k + 1;
    }
    let content = match content_node {
        Some(c) => c,
        None => return Err(GreenButtonError::MissingContent),
    };
    let (entry_type, ir, rt, ltp) = match parse_content_data(
        index,
        interval_readings,
        reading_types,
        local_time_parameters,
        nodes,
        content,
    ) {
        Ok(x) => x,
        Err(e) => return Err(e),
    };
    b.entry_type(entry_type);
    match b.finalize_push() {
        Ok(s) => Ok((s, ir, rt, ltp)),
        Err(e) => Err(e),
    }
}

} // verus!
