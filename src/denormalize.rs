use vstd::prelude::*;

use crate::decimal::Decimal;
use crate::entry::{Entries, EntryType};
use crate::error::GreenButtonError;
use crate::gb_type_details::{code_label, enums_to_strings, CodeLookup};
use crate::interval_reading::IntervalReadings;
use crate::local_time_parameters::LocalTimeParameters;
use crate::reading_type::ReadingTypes;
use crate::text::contains_text;
use crate::timeseries::{
    cost_times_hundred, group_texts, lemma_rows_all, lemma_rows_grow, texts, with_row_of, TimeSeries,
    TimeSeriesView, BUGGY_PROVIDER_TOKEN,
};

verus! {

/// Where an entry's meter-reading relation leads.
pub ghost enum Link {
    /// The entry names no meter reading.
    NoRelation,
    /// The chain ends at the reading type of this row of `ReadingTypes`.
    ReadingType(int),
    /// The chain names an href that no entry has.
    Unresolved(Seq<char>),
    /// The chain ends at an entry that is not a reading type.
    Mismatched(EntryType),
}

/// The index of the last of the first `upto` hrefs equal to `h`: a later
/// entry with the same href shadows an earlier one.
pub open spec fn last_href(hrefs: Seq<Seq<char>>, h: Seq<char>, upto: int) -> Option<int>
    decreases upto,
{
    if upto <= 0 {
        None
    } else if hrefs[upto - 1] == h {
        Some(upto - 1)
    } else {
        last_href(hrefs, h, upto - 1)
    }
}

/// Entry `i`'s meter-reading href leads to an entry whose reading-type href
/// leads to a reading-type entry.
pub open spec fn link_of(entries: Entries, i: int) -> Link {
    let hrefs = texts(entries.href@);
    let meter = entries.related_meter_reading_entry_href@[i]@;
    if meter.len() == 0 {
        Link::NoRelation
    } else {
        match last_href(hrefs, meter, hrefs.len() as int) {
            None => Link::Unresolved(meter),
            Some(j) => {
                let rt = entries.related_reading_type_entry_href@[j]@;
                match last_href(hrefs, rt, hrefs.len() as int) {
                    None => Link::Unresolved(rt),
                    Some(k) => match entries.entry_type@[k] {
                        EntryType::ReadingTypeWithIndex(t) => Link::ReadingType(t as int),
                        other => Link::Mismatched(other),
                    },
                }
            },
        }
    }
}

/// The link is broken: it names an href that no entry has, or ends at an
/// entry that is not a reading type.
pub open spec fn is_broken(l: Link) -> bool {
    l is Unresolved || l is Mismatched
}

/// The first entry, at or after `from`, whose link is broken.
pub open spec fn first_broken_link(entries: Entries, from: int) -> Option<int>
    decreases entries.entry_type@.len() - from,
{
    if from < 0 || from >= entries.entry_type@.len() {
        None
    } else if is_broken(link_of(entries, from)) {
        Some(from)
    } else {
        first_broken_link(entries, from + 1)
    }
}

/// The error that a broken link gives.
pub open spec fn link_error(l: Link, e: GreenButtonError) -> bool {
    match l {
        Link::Unresolved(h) => e matches GreenButtonError::UnresolvedHref(s) && s@ == h,
        Link::Mismatched(t) => e == GreenButtonError::MismatchedReadingType(t),
        _ => false,
    }
}

/// Some interval reading belongs to an entry that names no meter reading.
pub open spec fn some_reading_unlinked(entries: Entries, readings: IntervalReadings) -> bool {
    exists|i: int|
        0 <= i < readings.entry_index@.len() && link_of(
            entries,
            #[trigger] readings.entry_index@[i] as int,
        ) is NoRelation
}

/// The row of `ReadingTypes` that reading `i` resolves to.
pub open spec fn type_row(entries: Entries, readings: IntervalReadings, i: int) -> int {
    link_of(entries, readings.entry_index@[i] as int)->ReadingType_0
}

/// The cost of a reading in currency units (the feed gives hundred-thousandths).
pub open spec fn cost_in_currency(c: Option<i64>) -> Option<Decimal> {
    match c {
        Some(x) => Some(Decimal { mantissa: x, exponent: -5i32 }),
        None => None,
    }
}

/// The label of a code of a reading-type field.
pub open spec fn rt_label(lookup: CodeLookup, field: Seq<char>, code: i32) -> Seq<char> {
    code_label(lookup.entries@, "ReadingType"@, field, code)
}

/// The rows that `denormalize_and_link` builds when every link resolves,
/// before the provider correction: one row per interval reading, in reading order.
pub open spec fn denormalized_rows(
    entries: Entries,
    readings: IntervalReadings,
    types: ReadingTypes,
    lookup: CodeLookup,
) -> TimeSeriesView {
    let n = readings.entry_index@.len() as int;
    let t = |i: int| type_row(entries, readings, i);
    TimeSeriesView {
        title: Seq::new(n as nat, |i: int| entries.title@[readings.entry_index@[i] as int]@),
        cost: Seq::new(n as nat, |i: int| cost_in_currency(readings.cost@[i])),
        quality: Seq::new(
            n as nat,
            |i: int| code_label(lookup.entries@, ""@, "QualityOfReading"@, readings.quality@[i]),
        ),
        value: Seq::new(
            n as nat,
            |i: int|
                Decimal {
                    mantissa: readings.value@[i],
                    exponent: types.power_of_ten_multiplier@[t(i)],
                },
        ),
        tou: readings.tou@,
        time_period_start_unix_ms: readings.time_period_start_unix_ms@,
        time_period_duration_seconds: readings.time_period_duration_seconds@,
        accumulation_behaviour: Seq::new(
            n as nat,
            |i: int|
                rt_label(lookup, "accumulationBehaviour"@, types.accumulation_behaviour@[t(i)]),
        ),
        commodity: Seq::new(
            n as nat,
            |i: int| rt_label(lookup, "commodity"@, types.commodity@[t(i)]),
        ),
        currency: Seq::new(n as nat, |i: int| rt_label(lookup, "currency"@, types.currency@[t(i)])),
        data_qualifier: Seq::new(
            n as nat,
            |i: int| rt_label(lookup, "dataQualifier"@, types.data_qualifier@[t(i)]),
        ),
        flow_direction: Seq::new(
            n as nat,
            |i: int| rt_label(lookup, "flowDirection"@, types.flow_direction@[t(i)]),
        ),
        kind: Seq::new(n as nat, |i: int| rt_label(lookup, "kind"@, types.kind@[t(i)])),
        phase: Seq::new(n as nat, |i: int| rt_label(lookup, "phase"@, types.phase@[t(i)])),
        uom: Seq::new(n as nat, |i: int| rt_label(lookup, "uom"@, types.uom@[t(i)])),
    }
}

/// The feed's first href marks the provider whose costs come a hundred
/// times too small.
pub open spec fn needs_cost_fix(entries: Entries) -> bool {
    entries.href@.len() > 0 && contains_text(entries.href@[0]@, BUGGY_PROVIDER_TOKEN@)
}

/// The table that `denormalize_and_link` returns when every link resolves:
/// the denormalized rows, with every cost multiplied by one hundred for
/// the provider that needs it.
pub open spec fn denormalized(
    entries: Entries,
    readings: IntervalReadings,
    types: ReadingTypes,
    lookup: CodeLookup,
) -> TimeSeriesView {
    let rows = denormalized_rows(entries, readings, types, lookup);
    if needs_cost_fix(entries) {
        TimeSeriesView {
            cost: rows.cost.map_values(|c: Option<Decimal>| cost_times_hundred(c)),
            ..rows
        }
    } else {
        rows
    }
}

/// The stores refer to each other within bounds: each reading to an entry,
/// each reading-type entry to a row of `ReadingTypes`.
pub open spec fn references_valid(
    entries: Entries,
    readings: IntervalReadings,
    types: ReadingTypes,
) -> bool {
    &&& forall|i: int|
        0 <= i < readings.entry_index@.len() ==> #[trigger] readings.entry_index@[i]
            < entries.entry_type@.len()
    &&& forall|k: int|
        0 <= k < entries.entry_type@.len() ==> (#[trigger] entries.entry_type@[k] matches EntryType::ReadingTypeWithIndex(t)
            ==> t < types.entry_index@.len())
}


/// What `denormalize_and_link` returns: an error for zero or several
/// local-time-parameters blocks, then for the first entry whose link is
/// broken, then for a reading whose entry has no reading type; else the
/// denormalized table.
pub open spec fn denormalize_outcome(
    entries: Entries,
    interval_readings: IntervalReadings,
    reading_types: ReadingTypes,
    local_time_parameters: LocalTimeParameters,
    lookup: CodeLookup,
    r: Result<TimeSeries, GreenButtonError>,
) -> bool {
    let n = local_time_parameters.spec_len();
    let broken = first_broken_link(entries, 0);
    if n > 1 {
        r == Err::<TimeSeries, GreenButtonError>(GreenButtonError::MultipleLocalTimeParameters)
    } else if n == 0 {
        r == Err::<TimeSeries, GreenButtonError>(GreenButtonError::MissingLocalTimeParameters)
    } else if broken is Some {
        r matches Err(e) && link_error(link_of(entries, broken->Some_0), e)
    } else if some_reading_unlinked(entries, interval_readings) {
        r == Err::<TimeSeries, GreenButtonError>(GreenButtonError::MissingReadingType)
    } else {
        r matches Ok(ts) && ts@ == denormalized(entries, interval_readings, reading_types, lookup)
            && ts@.wf()
    }
}

proof fn lemma_last_href_bounds(hrefs: Seq<Seq<char>>, h: Seq<char>, upto: int)
    ensures
        last_href(hrefs, h, upto) matches Some(j) ==> 0 <= j < upto,
    decreases upto,
{
    if upto > 0 {
        lemma_last_href_bounds(hrefs, h, upto - 1);
    }
}

proof fn lemma_link_bounds(entries: Entries, readings: IntervalReadings, types: ReadingTypes, i: int)
    requires
        entries.wf(),
        references_valid(entries, readings, types),
        0 <= i < entries.spec_len(),
    ensures
        link_of(entries, i) matches Link::ReadingType(t) ==> 0 <= t < types.entry_index@.len(),
{
    let hrefs = texts(entries.href@);
    let meter = entries.related_meter_reading_entry_href@[i]@;
    lemma_last_href_bounds(hrefs, meter, hrefs.len() as int);
    if let Some(j) = last_href(hrefs, meter, hrefs.len() as int) {
        let rt = entries.related_reading_type_entry_href@[j]@;
        lemma_last_href_bounds(hrefs, rt, hrefs.len() as int);
        if let Some(k) = last_href(hrefs, rt, hrefs.len() as int) {
            assert(entries.entry_type@[k] matches EntryType::ReadingTypeWithIndex(t) ==> t
                < types.entry_index@.len());
        }
    }
}

/// The index of the last entry whose href is `h`.
fn last_href_index(hrefs: &Vec<String>, h: &String) -> (r: Option<usize>)
    ensures
        r matches Some(j) ==> j < hrefs@.len(),
        r matches Some(j) ==> last_href(texts(hrefs@), h@, hrefs@.len() as int) == Some(j as int),
        r is None ==> last_href(texts(hrefs@), h@, hrefs@.len() as int) is None,
{
    let mut i: usize = hrefs.len();
    while i > 0
        invariant
            i <= hrefs@.len(),
            last_href(texts(hrefs@), h@, hrefs@.len() as int) == last_href(
                texts(hrefs@),
                h@,
                i as int,
            ),
        decreases i,
    {
        if hrefs[i - 1] == *h {
            return Some(i - 1);
        }
        i = i - 1;
    }
    None
}

/// Follows entry `i`'s meter-reading relation to its reading type.
fn reading_type_link(entries: &Entries, i: usize) -> (r: Result<Option<usize>, GreenButtonError>)
    requires
        entries.wf(),
        i < entries.spec_len(),
    ensures
        link_of(*entries, i as int) is NoRelation ==> r == Ok::<Option<usize>, GreenButtonError>(None),
        link_of(*entries, i as int) matches Link::ReadingType(t) ==> r == Ok::<
            Option<usize>,
            GreenButtonError,
        >(Some(t as usize)),
        is_broken(link_of(*entries, i as int)) ==> (r matches Err(e) && link_error(
            link_of(*entries, i as int),
            e,
        )),
{
    let meter = &entries.related_meter_reading_entry_href[i];
    if meter.as_str().unicode_len() == 0 {
        return Ok(None);
    }
    let j = match last_href_index(&entries.href, meter) {
        Some(j) => j,
        None => return Err(GreenButtonError::UnresolvedHref(meter.clone())),
    };
    let rt = &entries.related_reading_type_entry_href[j];
    let k = match last_href_index(&entries.href, rt) {
        Some(k) => k,
        None => return Err(GreenButtonError::UnresolvedHref(rt.clone())),
    };
    match entries.entry_type[k] {
        EntryType::ReadingTypeWithIndex(t) => Ok(Some(t)),
        other => Err(GreenButtonError::MismatchedReadingType(other)),
    }
}

/// Joins the stores of one feed into one table: each interval reading
/// becomes a row with its entry's title, its cost in currency units, its
/// value scaled by its reading type's power of ten and every code turned
/// into its label. The feed must hold exactly one local-time-parameters
/// block; every meter-reading link must resolve, and every reading must
/// belong to an entry that has one.
pub fn denormalize_and_link(
    entries: &Entries,
    interval_readings: &IntervalReadings,
    reading_types: &ReadingTypes,
    local_time_parameters: &LocalTimeParameters,
    lookup: &CodeLookup,
) -> (r: Result<TimeSeries, GreenButtonError>)
    requires
        entries.wf(),
        interval_readings.wf(),
        reading_types.wf(),
        local_time_parameters.wf(),
        references_valid(*entries, *interval_readings, *reading_types),
    ensures
        denormalize_outcome(
            *entries,
            *interval_readings,
            *reading_types,
            *local_time_parameters,
            *lookup,
            r,
        ),
{
    if local_time_parameters.len() > 1 {
        return Err(GreenButtonError::MultipleLocalTimeParameters);
    }
    if local_time_parameters.len() == 0 {
        return Err(GreenButtonError::MissingLocalTimeParameters);
    }
    let mut links: Vec<Option<usize>> = Vec::new();
    let mut e: usize = 0;
    while e < entries.len()
        invariant
            entries.wf(),
            local_time_parameters.spec_len() == 1,
            e <= entries.spec_len(),
            links@.len() == e,
            first_broken_link(*entries, 0) == first_broken_link(*entries, e as int),
            forall|k: int|
                0 <= k < e ==> {
                    &&& (link_of(*entries, k) is NoRelation ==> #[trigger] links@[k] is None)
                    &&& (link_of(*entries, k) matches Link::ReadingType(t) ==> links@[k] == Some(
                        t as usize,
                    ))
                    &&& !is_broken(link_of(*entries, k))
                },
        decreases entries.spec_len() - e,
    {
        match reading_type_link(entries, e) {
            Ok(l) => links.push(l),
            Err(err) => return Err(err),
        }
        e = e + 1;
    }
    let quality = enums_to_strings(
        lookup,
        "",
        "QualityOfReading",
        interval_readings.quality.as_slice(),
    );
    let accumulation_behaviour = enums_to_strings(
        lookup,
        "ReadingType",
        "accumulationBehaviour",
        reading_types.accumulation_behaviour.as_slice(),
    );
    let commodity = enums_to_strings(
        lookup,
        "ReadingType",
        "commodity",
        reading_types.commodity.as_slice(),
    );
    let currency = enums_to_strings(
        lookup,
        "ReadingType",
        "currency",
        reading_types.currency.as_slice(),
    );
    let data_qualifier = enums_to_strings(
        lookup,
        "ReadingType",
        "dataQualifier",
        reading_types.data_qualifier.as_slice(),
    );
    let flow_direction = enums_to_strings(
        lookup,
        "ReadingType",
        "flowDirection",
        reading_types.flow_direction.as_slice(),
    );
    let kind = enums_to_strings(
        lookup,
        "ReadingType",
        "kind",
        reading_types.kind.as_slice(),
    );
    let phase = enums_to_strings(
        lookup,
        "ReadingType",
        "phase",
        reading_types.phase.as_slice(),
    );
    let uom = enums_to_strings(
        lookup,
        "ReadingType",
        "uom",
        reading_types.uom.as_slice(),
    );
    proof {
        assert(texts(quality@).len() == quality@.len());
        assert(texts(accumulation_behaviour@).len() == accumulation_behaviour@.len());
        assert(texts(commodity@).len() == commodity@.len());
        assert(texts(currency@).len() == currency@.len());
        assert(texts(data_qualifier@).len() == data_qualifier@.len());
        assert(texts(flow_direction@).len() == flow_direction@.len());
        assert(texts(kind@).len() == kind@.len());
        assert(texts(phase@).len() == phase@.len());
        assert(texts(uom@).len() == uom@.len());
    }
    let ghost base = denormalized_rows(*entries, *interval_readings, *reading_types, *lookup);
    let mut ts = TimeSeries::new();
    proof {
        crate::timeseries::lemma_rows_empty(base);
    }
    let n = interval_readings.len();
    let mut i: usize = 0;
    while i < n
        invariant
            entries.wf(),
            local_time_parameters.spec_len() == 1,
            first_broken_link(*entries, 0) is None,
            interval_readings.wf(),
            reading_types.wf(),
            references_valid(*entries, *interval_readings, *reading_types),
            n == interval_readings.spec_len(),
            links@.len() == entries.spec_len(),
            forall|k: int|
                0 <= k < entries.spec_len() ==> {
                    &&& (link_of(*entries, k) is NoRelation ==> #[trigger] links@[k] is None)
                    &&& (link_of(*entries, k) matches Link::ReadingType(t) ==> links@[k] == Some(
                        t as usize,
                    ))
                    &&& !is_broken(link_of(*entries, k))
                },
            forall|k: int|
                0 <= k < i ==> !(link_of(
                    *entries,
                    #[trigger] interval_readings.entry_index@[k] as int,
                ) is NoRelation),
            i <= n,
            quality@.len() == n,
            accumulation_behaviour@.len() == reading_types.spec_len(),
            commodity@.len() == reading_types.spec_len(),
            currency@.len() == reading_types.spec_len(),
            data_qualifier@.len() == reading_types.spec_len(),
            flow_direction@.len() == reading_types.spec_len(),
            kind@.len() == reading_types.spec_len(),
            phase@.len() == reading_types.spec_len(),
            uom@.len() == reading_types.spec_len(),
            ts@.wf(),
            ts@.len() == i,
            base == denormalized_rows(*entries, *interval_readings, *reading_types, *lookup),
            texts(quality@) == crate::gb_type_details::code_labels(
                lookup.entries@,
                ""@,
                "QualityOfReading"@,
                interval_readings.quality@,
            ),
            texts(accumulation_behaviour@) == crate::gb_type_details::code_labels(
                lookup.entries@,
                "ReadingType"@,
                "accumulationBehaviour"@,
                reading_types.accumulation_behaviour@,
            ),
            texts(commodity@) == crate::gb_type_details::code_labels(
                lookup.entries@,
                "ReadingType"@,
                "commodity"@,
                reading_types.commodity@,
            ),
            texts(currency@) == crate::gb_type_details::code_labels(
                lookup.entries@,
                "ReadingType"@,
                "currency"@,
                reading_types.currency@,
            ),
            texts(data_qualifier@) == crate::gb_type_details::code_labels(
                lookup.entries@,
                "ReadingType"@,
                "dataQualifier"@,
                reading_types.data_qualifier@,
            ),
            texts(flow_direction@) == crate::gb_type_details::code_labels(
                lookup.entries@,
                "ReadingType"@,
                "flowDirection"@,
                reading_types.flow_direction@,
            ),
            texts(kind@) == crate::gb_type_details::code_labels(
                lookup.entries@,
                "ReadingType"@,
                "kind"@,
                reading_types.kind@,
            ),
            texts(phase@) == crate::gb_type_details::code_labels(
                lookup.entries@,
                "ReadingType"@,
                "phase"@,
                reading_types.phase@,
            ),
            texts(uom@) == crate::gb_type_details::code_labels(
                lookup.entries@,
                "ReadingType"@,
                "uom"@,
                reading_types.uom@,
            ),
                ts@ == base.rows(0, i as int),
        decreases n - i,
    {
        let ghost before = ts@;
        proof {
            broadcast use group_texts;
        }
        let entry_index = interval_readings.entry_index[i];
        let t = match links[entry_index] {
            Some(t) => t,
            None => {
                assert(link_of(*entries, interval_readings.entry_index@[i as int] as int) is NoRelation);
                return Err(GreenButtonError::MissingReadingType);
            },
        };
        proof {
            lemma_link_bounds(*entries, *interval_readings, *reading_types, entry_index as int);
            assert(type_row(*entries, *interval_readings, i as int) == t as int);
        }
        let title = entries.title[entry_index].clone();
        ts.title.push(title);
        let cost = match interval_readings.cost[i] {
            Some(c) => Some(Decimal { mantissa: c, exponent: -5 }),
            None => None,
        };
        ts.cost.push(cost);
        let label = quality[i].clone();
        ts.quality.push(label);
        ts.value.push(
            Decimal {
                mantissa: interval_readings.value[i],
                exponent: reading_types.power_of_ten_multiplier[t],
            },
        );
        ts.tou.push(interval_readings.tou[i]);
        ts.time_period_start_unix_ms.push(interval_readings.time_period_start_unix_ms[i]);
        ts.time_period_duration_seconds.push(interval_readings.time_period_duration_seconds[i]);
        let label = accumulation_behaviour[t].clone();
        proof {
            assert(texts(accumulation_behaviour@)[t as int] == label@);
            assert(label@ == base.accumulation_behaviour[i as int]);
        }
        ts.accumulation_behaviour.push(label);
        let label = commodity[t].clone();
        proof {
            assert(texts(commodity@)[t as int] == label@);
            assert(label@ == base.commodity[i as int]);
        }
        ts.commodity.push(label);
        let label = currency[t].clone();
        proof {
            assert(texts(currency@)[t as int] == label@);
            assert(label@ == base.currency[i as int]);
        }
        ts.currency.push(label);
        let label = data_qualifier[t].clone();
        proof {
            assert(texts(data_qualifier@)[t as int] == label@);
            assert(label@ == base.data_qualifier[i as int]);
        }
        ts.data_qualifier.push(label);
        let label = flow_direction[t].clone();
        proof {
            assert(texts(flow_direction@)[t as int] == label@);
            assert(label@ == base.flow_direction[i as int]);
        }
        ts.flow_direction.push(label);
        let label = kind[t].clone();
        proof {
            assert(texts(kind@)[t as int] == label@);
            assert(label@ == base.kind[i as int]);
        }
        ts.kind.push(label);
        let label = phase[t].clone();
        proof {
            assert(texts(phase@)[t as int] == label@);
            assert(label@ == base.phase[i as int]);
        }
        ts.phase.push(label);
        let label = uom[t].clone();
        proof {
            assert(texts(uom@)[t as int] == label@);
            assert(label@ == base.uom[i as int]);
        }
        ts.uom.push(label);
        i = i + 1;
        proof {
                assert(ts@ == with_row_of(before, base, i - 1));
                lemma_rows_grow(base, i - 1);
        }
    }
    proof {
            lemma_rows_all(base);
            assert(base.rows(0, n as int) == base);
        assert(ts@ == base);
    }
    if entries.len() > 0 {
        ts.fix_provider_bugs_if_needed(entries.href[0].as_str());
    }
    Ok(ts)
}

} // verus!
