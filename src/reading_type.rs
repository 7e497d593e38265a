use vstd::prelude::*;

use crate::entry::missing;
use crate::error::{GreenButtonError, GreenButtonErrorView};
use crate::parse_helpers::{number_in, parse_text_i32, strip_espi_prefix, stripped};
use crate::text::text_eq;
use crate::xml::{all_text_of, doc_wf, node_views, XmlNode, XmlNodeView};

verus! {

/// One row per reading-type entry of a feed, held column by column.
pub struct ReadingTypes {
    /// The row of `Entries` that owns the reading type.
    pub entry_index: Vec<usize>,
    pub accumulation_behaviour: Vec<i32>,
    pub commodity: Vec<i32>,
    pub currency: Vec<i32>,
    pub data_qualifier: Vec<i32>,
    pub flow_direction: Vec<i32>,
    pub kind: Vec<i32>,
    /// Readings of this type are scaled by ten to this power.
    pub power_of_ten_multiplier: Vec<i32>,
    /// The phase code; 0 ("none") where the feed gives none.
    pub phase: Vec<i32>,
    pub uom: Vec<i32>,
}

/// One row of `ReadingTypes`, strings as their text.
pub ghost struct ReadingTypeRow {
    pub entry_index: usize,
    pub accumulation_behaviour: i32,
    pub commodity: i32,
    pub currency: i32,
    pub data_qualifier: i32,
    pub flow_direction: i32,
    pub kind: i32,
    pub power_of_ten_multiplier: i32,
    pub phase: i32,
    pub uom: i32,
}

/// The fields given so far for a row of `ReadingTypes`.
pub ghost struct ReadingTypeRowDraft {
    pub entry_index: Option<usize>,
    pub accumulation_behaviour: Option<i32>,
    pub commodity: Option<i32>,
    pub currency: Option<i32>,
    pub data_qualifier: Option<i32>,
    pub flow_direction: Option<i32>,
    pub kind: Option<i32>,
    pub power_of_ten_multiplier: Option<i32>,
    pub phase: Option<i32>,
    pub uom: Option<i32>,
}

impl ReadingTypeRowDraft {
    /// No field given yet.
    pub open spec fn empty() -> ReadingTypeRowDraft {
        ReadingTypeRowDraft { entry_index: None, accumulation_behaviour: None, commodity: None, currency: None, data_qualifier: None, flow_direction: None, kind: None, power_of_ten_multiplier: None, phase: None, uom: None }
    }

    /// The row that committing this draft appends: a field not given takes its
    /// default; the first field, in declaration order, without a value and
    /// without a default fails the commit.
    pub open spec fn commit(self) -> Result<ReadingTypeRow, GreenButtonErrorView> {
        if self.entry_index is None {
            Err(GreenButtonErrorView::MissingField { field: "entry_index", table: "ReadingTypes" })
        } else if self.accumulation_behaviour is None {
            Err(GreenButtonErrorView::MissingField { field: "accumulation_behaviour", table: "ReadingTypes" })
        } else if self.commodity is None {
            Err(GreenButtonErrorView::MissingField { field: "commodity", table: "ReadingTypes" })
        } else if self.currency is None {
            Err(GreenButtonErrorView::MissingField { field: "currency", table: "ReadingTypes" })
        } else if self.data_qualifier is None {
            Err(GreenButtonErrorView::MissingField { field: "data_qualifier", table: "ReadingTypes" })
        } else if self.flow_direction is None {
            Err(GreenButtonErrorView::MissingField { field: "flow_direction", table: "ReadingTypes" })
        } else if self.kind is None {
            Err(GreenButtonErrorView::MissingField { field: "kind", table: "ReadingTypes" })
        } else if self.power_of_ten_multiplier is None {
            Err(GreenButtonErrorView::MissingField { field: "power_of_ten_multiplier", table: "ReadingTypes" })
        } else if self.uom is None {
            Err(GreenButtonErrorView::MissingField { field: "uom", table: "ReadingTypes" })
        } else {
            Ok(
                ReadingTypeRow {
                    entry_index: self.entry_index->Some_0,
                    accumulation_behaviour: self.accumulation_behaviour->Some_0,
                    commodity: self.commodity->Some_0,
                    currency: self.currency->Some_0,
                    data_qualifier: self.data_qualifier->Some_0,
                    flow_direction: self.flow_direction->Some_0,
                    kind: self.kind->Some_0,
                    power_of_ten_multiplier: self.power_of_ten_multiplier->Some_0,
                    phase: match self.phase {
                        Some(x) => x,
                        None => 0i32,
                    },
                    uom: self.uom->Some_0,
                },
            )
        }
    }
}

impl ReadingTypes {
    /// Every column holds the same number of rows.
    pub open spec fn wf(&self) -> bool {
        let n = self.entry_index@.len();
        &&& self.accumulation_behaviour@.len() == n
        &&& self.commodity@.len() == n
        &&& self.currency@.len() == n
        &&& self.data_qualifier@.len() == n
        &&& self.flow_direction@.len() == n
        &&& self.kind@.len() == n
        &&& self.power_of_ten_multiplier@.len() == n
        &&& self.phase@.len() == n
        &&& self.uom@.len() == n
    }

    /// The number of rows.
    pub open spec fn spec_len(&self) -> nat {
        self.entry_index@.len()
    }

    /// Row `i`.
    pub open spec fn row(&self, i: int) -> ReadingTypeRow {
        ReadingTypeRow {
            entry_index: self.entry_index@[i],
            accumulation_behaviour: self.accumulation_behaviour@[i],
            commodity: self.commodity@[i],
            currency: self.currency@[i],
            data_qualifier: self.data_qualifier@[i],
            flow_direction: self.flow_direction@[i],
            kind: self.kind@[i],
            power_of_ten_multiplier: self.power_of_ten_multiplier@[i],
            phase: self.phase@[i],
            uom: self.uom@[i],
        }
    }

    /// The rows in order.
    pub open spec fn rows(&self) -> Seq<ReadingTypeRow> {
        Seq::new(self.spec_len(), |i: int| self.row(i))
    }

    /// A store made of the given columns, which must have one length.
    pub fn new(entry_index: Vec<usize>, accumulation_behaviour: Vec<i32>, commodity: Vec<i32>, currency: Vec<i32>, data_qualifier: Vec<i32>, flow_direction: Vec<i32>, kind: Vec<i32>, power_of_ten_multiplier: Vec<i32>, phase: Vec<i32>, uom: Vec<i32>) -> (r: ReadingTypes)
        requires
            accumulation_behaviour@.len() == entry_index@.len(),
            commodity@.len() == entry_index@.len(),
            currency@.len() == entry_index@.len(),
            data_qualifier@.len() == entry_index@.len(),
            flow_direction@.len() == entry_index@.len(),
            kind@.len() == entry_index@.len(),
            power_of_ten_multiplier@.len() == entry_index@.len(),
            phase@.len() == entry_index@.len(),
            uom@.len() == entry_index@.len(),
        ensures
            r.wf(),
            r == (ReadingTypes { entry_index, accumulation_behaviour, commodity, currency, data_qualifier, flow_direction, kind, power_of_ten_multiplier, phase, uom }),
    {
        ReadingTypes { entry_index, accumulation_behaviour, commodity, currency, data_qualifier, flow_direction, kind, power_of_ten_multiplier, phase, uom }
    }

    /// The number of rows.
    pub fn len(&self) -> (r: usize)
        requires
            self.wf(),
        ensures
            r == self.spec_len(),
    {
        self.entry_index.len()
    }

    /// Starts a new row; the store comes back from `finalize_push`.
    pub fn start_push(self) -> (b: ReadingTypesRowBuilder)
        requires
            self.wf(),
        ensures
            b.wf(),
            b.store == self,
            b.draft() == ReadingTypeRowDraft::empty(),
    {
        ReadingTypesRowBuilder { store: self, entry_index: None, accumulation_behaviour: None, commodity: None, currency: None, data_qualifier: None, flow_direction: None, kind: None, power_of_ten_multiplier: None, phase: None, uom: None }
    }
}

impl Default for ReadingTypes {
    fn default() -> (r: ReadingTypes)
        ensures
            r.wf(),
            r.spec_len() == 0,
            r.rows() == Seq::<ReadingTypeRow>::empty(),
    {
        let r = ReadingTypes { entry_index: Vec::new(), accumulation_behaviour: Vec::new(), commodity: Vec::new(), currency: Vec::new(), data_qualifier: Vec::new(), flow_direction: Vec::new(), kind: Vec::new(), power_of_ten_multiplier: Vec::new(), phase: Vec::new(), uom: Vec::new() };
        assert(r.rows() =~= Seq::<ReadingTypeRow>::empty());
        r
    }
}

/// The row being built: the store it will be appended to, and the value of
/// each field given so far.
pub struct ReadingTypesRowBuilder {
    pub store: ReadingTypes,
    pub entry_index: Option<usize>,
    pub accumulation_behaviour: Option<i32>,
    pub commodity: Option<i32>,
    pub currency: Option<i32>,
    pub data_qualifier: Option<i32>,
    pub flow_direction: Option<i32>,
    pub kind: Option<i32>,
    pub power_of_ten_multiplier: Option<i32>,
    pub phase: Option<i32>,
    pub uom: Option<i32>,
}

impl ReadingTypesRowBuilder {
    pub open spec fn wf(&self) -> bool {
        self.store.wf()
    }

    /// The fields given so far.
    pub open spec fn draft(&self) -> ReadingTypeRowDraft {
        ReadingTypeRowDraft {
            entry_index: self.entry_index,
            accumulation_behaviour: self.accumulation_behaviour,
            commodity: self.commodity,
            currency: self.currency,
            data_qualifier: self.data_qualifier,
            flow_direction: self.flow_direction,
            kind: self.kind,
            power_of_ten_multiplier: self.power_of_ten_multiplier,
            phase: self.phase,
            uom: self.uom,
        }
    }

    pub fn entry_index(&mut self, x: usize)
        ensures
            *final(self) == (ReadingTypesRowBuilder { entry_index: Some(x), ..*old(self) }),
            final(self).draft() == (ReadingTypeRowDraft { entry_index: Some(x), ..old(self).draft() }),
    {
        self.entry_index = Some(x);
    }

    pub fn accumulation_behaviour(&mut self, x: i32)
        ensures
            *final(self) == (ReadingTypesRowBuilder { accumulation_behaviour: Some(x), ..*old(self) }),
            final(self).draft() == (ReadingTypeRowDraft { accumulation_behaviour: Some(x), ..old(self).draft() }),
    {
        self.accumulation_behaviour = Some(x);
    }

    pub fn commodity(&mut self, x: i32)
        ensures
            *final(self) == (ReadingTypesRowBuilder { commodity: Some(x), ..*old(self) }),
            final(self).draft() == (ReadingTypeRowDraft { commodity: Some(x), ..old(self).draft() }),
    {
        self.commodity = Some(x);
    }

    pub fn currency(&mut self, x: i32)
        ensures
            *final(self) == (ReadingTypesRowBuilder { currency: Some(x), ..*old(self) }),
            final(self).draft() == (ReadingTypeRowDraft { currency: Some(x), ..old(self).draft() }),
    {
        self.currency = Some(x);
    }

    pub fn data_qualifier(&mut self, x: i32)
        ensures
            *final(self) == (ReadingTypesRowBuilder { data_qualifier: Some(x), ..*old(self) }),
            final(self).draft() == (ReadingTypeRowDraft { data_qualifier: Some(x), ..old(self).draft() }),
    {
        self.data_qualifier = Some(x);
    }

    pub fn flow_direction(&mut self, x: i32)
        ensures
            *final(self) == (ReadingTypesRowBuilder { flow_direction: Some(x), ..*old(self) }),
            final(self).draft() == (ReadingTypeRowDraft { flow_direction: Some(x), ..old(self).draft() }),
    {
        self.flow_direction = Some(x);
    }

    pub fn kind(&mut self, x: i32)
        ensures
            *final(self) == (ReadingTypesRowBuilder { kind: Some(x), ..*old(self) }),
            final(self).draft() == (ReadingTypeRowDraft { kind: Some(x), ..old(self).draft() }),
    {
        self.kind = Some(x);
    }

    pub fn power_of_ten_multiplier(&mut self, x: i32)
        ensures
            *final(self) == (ReadingTypesRowBuilder { power_of_ten_multiplier: Some(x), ..*old(self) }),
            final(self).draft() == (ReadingTypeRowDraft { power_of_ten_multiplier: Some(x), ..old(self).draft() }),
    {
        self.power_of_ten_multiplier = Some(x);
    }

    pub fn phase(&mut self, x: i32)
        ensures
            *final(self) == (ReadingTypesRowBuilder { phase: Some(x), ..*old(self) }),
            final(self).draft() == (ReadingTypeRowDraft { phase: Some(x), ..old(self).draft() }),
    {
        self.phase = Some(x);
    }

    pub fn uom(&mut self, x: i32)
        ensures
            *final(self) == (ReadingTypesRowBuilder { uom: Some(x), ..*old(self) }),
            final(self).draft() == (ReadingTypeRowDraft { uom: Some(x), ..old(self).draft() }),
    {
        self.uom = Some(x);
    }

    /// Commits the row: fields not given take their default; a missing
    /// field without a default fails the commit and no column grows.
    pub fn finalize_push(self) -> (r: Result<ReadingTypes, GreenButtonError>)
        requires
            self.wf(),
        ensures
            self.draft().commit() matches Err(e) ==> (r matches Err(x) && x@ == e),
            self.draft().commit() matches Ok(row) ==> (r matches Ok(s) && s.wf() && s.rows()
                == self.store.rows().push(row)),
            self.draft().commit() matches Ok(row) ==> (r matches Ok(s) && s.spec_len()
                == self.store.spec_len() + 1 && s.row(s.spec_len() - 1) == row),
    {
        let ghost old_store = self.store;
        let ghost draft = self.draft();
        let ReadingTypesRowBuilder { mut store, entry_index, accumulation_behaviour, commodity, currency, data_qualifier, flow_direction, kind, power_of_ten_multiplier, phase, uom } = self;
        let entry_index = match entry_index {
            Some(x) => x,
            None => return Err(missing("entry_index", "ReadingTypes")),
        };
        let accumulation_behaviour = match accumulation_behaviour {
            Some(x) => x,
            None => return Err(missing("accumulation_behaviour", "ReadingTypes")),
        };
        let commodity = match commodity {
            Some(x) => x,
            None => return Err(missing("commodity", "ReadingTypes")),
        };
        let currency = match currency {
            Some(x) => x,
            None => return Err(missing("currency", "ReadingTypes")),
        };
        let data_qualifier = match data_qualifier {
            Some(x) => x,
            None => return Err(missing("data_qualifier", "ReadingTypes")),
        };
        let flow_direction = match flow_direction {
            Some(x) => x,
            None => return Err(missing("flow_direction", "ReadingTypes")),
        };
        let kind = match kind {
            Some(x) => x,
            None => return Err(missing("kind", "ReadingTypes")),
        };
        let power_of_ten_multiplier = match power_of_ten_multiplier {
            Some(x) => x,
            None => return Err(missing("power_of_ten_multiplier", "ReadingTypes")),
        };
        let phase = match phase {
            Some(x) => x,
            None => 0,
        };
        let uom = match uom {
            Some(x) => x,
            None => return Err(missing("uom", "ReadingTypes")),
        };
        store.entry_index.push(entry_index);
        store.accumulation_behaviour.push(accumulation_behaviour);
        store.commodity.push(commodity);
        store.currency.push(currency);
        store.data_qualifier.push(data_qualifier);
        store.flow_direction.push(flow_direction);
        store.kind.push(kind);
        store.power_of_ten_multiplier.push(power_of_ten_multiplier);
        store.phase.push(phase);
        store.uom.push(uom);
        assert(store.rows() =~= old_store.rows().push(draft.commit()->Ok_0));
        Ok(store)
    }
}

/// Child `c` of a reading type names one of its fields.
pub open spec fn is_type_field(doc: Seq<XmlNodeView>, c: int) -> bool {
    let name = stripped(doc[c].name);
    name == "accumulationBehaviour"@ || name == "commodity"@ || name == "currency"@ || name == "dataQualifier"@ || name == "flowDirection"@ || name == "kind"@ || name == "powerOfTenMultiplier"@ || name == "phase"@ || name == "uom"@
}

/// The draft once child `c` of a reading type is read into it; children
/// that name no field are passed over.
pub open spec fn type_step(d: ReadingTypeRowDraft, doc: Seq<XmlNodeView>, c: int) -> Result<
    ReadingTypeRowDraft,
    GreenButtonErrorView,
> {
    let name = stripped(doc[c].name);
    let t = all_text_of(doc, c);
    if !is_type_field(doc, c) {
        Ok(d)
    } else {
        match number_in(t, i32::MIN as int, i32::MAX as int) {
            None => Err(GreenButtonErrorView::InvalidNumber(t)),
            Some(v) => {
                if name == "accumulationBehaviour"@ {
                    Ok(ReadingTypeRowDraft { accumulation_behaviour: Some(v as i32), ..d })
                } else if name == "commodity"@ {
                    Ok(ReadingTypeRowDraft { commodity: Some(v as i32), ..d })
                } else if name == "currency"@ {
                    Ok(ReadingTypeRowDraft { currency: Some(v as i32), ..d })
                } else if name == "dataQualifier"@ {
                    Ok(ReadingTypeRowDraft { data_qualifier: Some(v as i32), ..d })
                } else if name == "flowDirection"@ {
                    Ok(ReadingTypeRowDraft { flow_direction: Some(v as i32), ..d })
                } else if name == "kind"@ {
                    Ok(ReadingTypeRowDraft { kind: Some(v as i32), ..d })
                } else if name == "powerOfTenMultiplier"@ {
                    Ok(ReadingTypeRowDraft { power_of_ten_multiplier: Some(v as i32), ..d })
                } else if name == "phase"@ {
                    Ok(ReadingTypeRowDraft { phase: Some(v as i32), ..d })
                } else if name == "uom"@ {
                    Ok(ReadingTypeRowDraft { uom: Some(v as i32), ..d })
                } else {
                    Ok(d)
                }
            },
        }
    }
}

/// The draft once the first `k` children of reading type `node` are read.
pub open spec fn type_fold(doc: Seq<XmlNodeView>, node: int, entry_index: usize, k: int) -> Result<
    ReadingTypeRowDraft,
    GreenButtonErrorView,
>
    decreases k,
{
    if k <= 0 {
        Ok(ReadingTypeRowDraft { entry_index: Some(entry_index), ..ReadingTypeRowDraft::empty() })
    } else {
        match type_fold(doc, node, entry_index, k - 1) {
            Err(e) => Err(e),
            Ok(d) => type_step(d, doc, doc[node].children[k - 1] as int),
        }
    }
}

/// The row that reading type `node` of entry `entry_index` gives.
pub open spec fn type_row(doc: Seq<XmlNodeView>, node: int, entry_index: usize) -> Result<
    ReadingTypeRow,
    GreenButtonErrorView,
> {
    match type_fold(doc, node, entry_index, doc[node].children.len() as int) {
        Err(e) => Err(e),
        Ok(d) => d.commit(),
    }
}

proof fn lemma_type_fold_err(doc: Seq<XmlNodeView>, node: int, entry_index: usize, k: int, n: int)
    requires
        0 <= k <= n,
        type_fold(doc, node, entry_index, k) is Err,
    ensures
        type_fold(doc, node, entry_index, n) == type_fold(doc, node, entry_index, k),
    decreases n - k,
{
    if n > k {
        lemma_type_fold_err(doc, node, entry_index, k, n - 1);
    }
}

/// Reads reading type `node` of entry `entry_index` and appends its row.
pub fn parse_reading_types(
    reading_types: ReadingTypes,
    nodes: &Vec<XmlNode>,
    node: usize,
    entry_index: usize,
) -> (r: Result<ReadingTypes, GreenButtonError>)
    requires
        reading_types.wf(),
        doc_wf(node_views(nodes@)),
        node < nodes@.len(),
    ensures
        type_row(node_views(nodes@), node as int, entry_index) matches Err(e) ==> (r matches Err(x)
            && x@ == e),
        type_row(node_views(nodes@), node as int, entry_index) matches Ok(row) ==> (r matches Ok(s)
            && s.wf() && s.rows() == reading_types.rows().push(row)),
{
    let ghost doc = node_views(nodes@);
    let mut b = reading_types.start_push();
    b.entry_index(entry_index);
    let children = &nodes[node].children;
    assert(children@ == doc[node as int].children);
    let mut k: usize = 0;
    while k < children.len()
        invariant
            doc == node_views(nodes@),
            doc_wf(doc),
            node < nodes@.len(),
            children@ == doc[node as int].children,
            k <= children@.len(),
            b.wf(),
            b.store == reading_types,
            type_fold(doc, node as int, entry_index, k as int) == Ok::<
                ReadingTypeRowDraft,
                GreenButtonErrorView,
            >(b.draft()),
        decreases children@.len() - k,
    {
        let c = children[k];
        assert(doc[c as int] == nodes@[c as int]@);
        let name = strip_espi_prefix(nodes[c].name.as_str());
        if text_eq(name, "accumulationBehaviour")
            || text_eq(name, "commodity")
            || text_eq(name, "currency")
            || text_eq(name, "dataQualifier")
            || text_eq(name, "flowDirection")
            || text_eq(name, "kind")
            || text_eq(name, "powerOfTenMultiplier")
            || text_eq(name, "phase")
            || text_eq(name, "uom") {
            let v = match parse_text_i32(nodes, c) {
                Ok(v) => v,
                Err(e) => {
                    proof {
                        lemma_type_fold_err(doc, node as int, entry_index, k + 1, children@.len() as int);
                    }
                    return Err(e);
                },
            };
            if text_eq(name, "accumulationBehaviour") {
                b.accumulation_behaviour(v);
            } else if text_eq(name, "commodity") {
                b.commodity(v);
            } else if text_eq(name, "currency") {
                b.currency(v);
            } else if text_eq(name, "dataQualifier") {
                b.data_qualifier(v);
            } else if text_eq(name, "flowDirection") {
                b.flow_direction(v);
            } else if text_eq(name, "kind") {
                b.kind(v);
            } else if text_eq(name, "powerOfTenMultiplier") {
                b.power_of_ten_multiplier(v);
            } else if text_eq(name, "phase") {
                b.phase(v);
            } else if text_eq(name, "uom") {
                b.uom(v);
            }
        }
        k = k + 1;
    }
    b.finalize_push()
}

} // verus!
