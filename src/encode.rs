use vstd::prelude::*;

use crate::decimal::{decimal_chars, decimal_text, padded_digits, strip_trailing_zeros, Decimal};
use crate::text::{
    chars_of, comma_joined, csv_record, csv_record_text, digits_text, int_text, is_plain_field, int_to_text, remove_matches, replace_text,
    replaced, string_of, word_chars_only, NON_WORD_PATTERN,
};
use crate::timeseries::{has_nonzero_cost, texts, TimeSeries, TimeSeriesView};

verus! {

/// The text of a cost: its decimal text, or `NaN` where none was given.
pub open spec fn cost_text(c: Option<Decimal>) -> Seq<char> {
    match c {
        Some(d) => decimal_text(d),
        None => "NaN"@,
    }
}

/// The header record of the CSV output: the fifteen column names.
pub open spec fn csv_header() -> Seq<Seq<char>> {
    seq![
        "title"@,
        "cost"@,
        "quality"@,
        "value"@,
        "tou"@,
        "time_period_start_unix_ms"@,
        "time_period_duration_seconds"@,
        "accumulation_behaviour"@,
        "commodity"@,
        "currency"@,
        "data_qualifier"@,
        "flow_direction"@,
        "kind"@,
        "phase"@,
        "uom"@,
    ]
}

/// The fields of row `i` in the CSV output, in header order.
pub open spec fn csv_fields(v: TimeSeriesView, i: int) -> Seq<Seq<char>> {
    seq![
        v.title[i],
        cost_text(v.cost[i]),
        v.quality[i],
        decimal_text(v.value[i]),
        int_text(v.tou[i] as int),
        int_text(v.time_period_start_unix_ms[i] as int),
        int_text(v.time_period_duration_seconds[i] as int),
        v.accumulation_behaviour[i],
        v.commodity[i],
        v.currency[i],
        v.data_qualifier[i],
        v.flow_direction[i],
        v.kind[i],
        v.phase[i],
        v.uom[i],
    ]
}

/// The CSV records of the first `k` rows.
pub open spec fn csv_rows_text(v: TimeSeriesView, k: int) -> Seq<char>
    decreases k,
{
    if k <= 0 {
        Seq::empty()
    } else {
        csv_rows_text(v, k - 1) + csv_record_text(csv_fields(v, k - 1))
    }
}

/// The CSV output: the header record, then one record per row.
pub open spec fn csv_text(v: TimeSeriesView) -> Seq<char> {
    csv_record_text(csv_header()) + csv_rows_text(v, v.len() as int)
}

/// Every text column of row `i` is a field the CSV writer leaves unquoted.
pub open spec fn row_is_plain(v: TimeSeriesView, i: int) -> bool {
    &&& is_plain_field(v.title[i])
    &&& is_plain_field(v.quality[i])
    &&& is_plain_field(v.accumulation_behaviour[i])
    &&& is_plain_field(v.commodity[i])
    &&& is_plain_field(v.currency[i])
    &&& is_plain_field(v.data_qualifier[i])
    &&& is_plain_field(v.flow_direction[i])
    &&& is_plain_field(v.kind[i])
    &&& is_plain_field(v.phase[i])
    &&& is_plain_field(v.uom[i])
}

/// The unquoted CSV lines of the first `k` rows.
pub open spec fn csv_plain_rows(v: TimeSeriesView, k: int) -> Seq<char>
    decreases k,
{
    if k <= 0 {
        Seq::empty()
    } else {
        csv_plain_rows(v, k - 1) + comma_joined(csv_fields(v, k - 1)) + seq!['\n']
    }
}

/// The CSV output of a table whose text needs no quoting: the column names
/// and each row's fields joined by `,`, one line each.
pub open spec fn csv_plain_text(v: TimeSeriesView) -> Seq<char> {
    comma_joined(csv_header()) + seq!['\n'] + csv_plain_rows(v, v.len() as int)
}

/// Every character of `s` is a decimal digit.
pub open spec fn all_digits(s: Seq<char>) -> bool {
    forall|i: int| 0 <= i < s.len() ==> '0' <= #[trigger] s[i] && s[i] <= '9'
}

/// Every character of `s` is a digit, `-` or `.`.
pub open spec fn numeric_chars(s: Seq<char>) -> bool {
    forall|i: int| 0 <= i < s.len() ==> ('0' <= #[trigger] s[i] && s[i] <= '9') || s[i] == '-' || s[i] == '.'
}

proof fn lemma_digits_text_digits(n: nat)
    ensures
        all_digits(digits_text(n)),
        digits_text(n).len() >= 1,
    decreases n,
{
    if n >= 10 {
        lemma_digits_text_digits(n / 10);
    }
}

proof fn lemma_int_text_plain(v: int)
    ensures
        numeric_chars(int_text(v)),
        is_plain_field(int_text(v)),
        int_text(v).len() >= 1,
{
    let n = if v < 0 { (-v) as nat } else { v as nat };
    lemma_digits_text_digits(n);
}

proof fn lemma_strip_is_prefix(s: Seq<char>)
    ensures
        exists|m: int| 0 <= m <= s.len() && strip_trailing_zeros(s) == s.take(m),
    decreases s.len(),
{
    if s.len() > 0 && s.last() == '0' {
        lemma_strip_is_prefix(s.drop_last());
        let m = choose|m: int| 0 <= m <= s.drop_last().len() && strip_trailing_zeros(s.drop_last()) == s.drop_last().take(m);
        assert(s.drop_last().take(m) =~= s.take(m));
    } else {
        assert(s.take(s.len() as int) =~= s);
    }
}

proof fn lemma_decimal_text_plain(d: Decimal)
    ensures
        is_plain_field(decimal_text(d)),
        decimal_text(d).len() >= 1,
{
    let m = d.mantissa as int;
    let e = d.exponent as int;
    if m != 0 {
        let ds = digits_text((if m < 0 { -m } else { m }) as nat);
        lemma_digits_text_digits((if m < 0 { -m } else { m }) as nat);
        if e < 0 {
            let p = padded_digits(ds, -e);
            assert(all_digits(p));
            let split = p.len() + e;
            let tail = p.subrange(split, p.len() as int);
            lemma_strip_is_prefix(tail);
            let frac = strip_trailing_zeros(tail);
            assert(all_digits(frac));
            assert(numeric_chars(decimal_text(d)));
        } else {
            assert(numeric_chars(decimal_text(d)));
        }
    }
    assert(numeric_chars(decimal_text(d)));
}

proof fn lemma_cost_text_plain(c: Option<Decimal>)
    ensures
        is_plain_field(cost_text(c)),
        cost_text(c).len() >= 1,
{
    reveal_strlit("NaN");
    if let Some(d) = c {
        lemma_decimal_text_plain(d);
    }
}

/// The fields of a plain row are all unquoted, and its cost is never empty.
proof fn lemma_row_fields_plain(v: TimeSeriesView, i: int)
    requires
        row_is_plain(v, i),
    ensures
        forall|k: int| 0 <= k < csv_fields(v, i).len() ==> is_plain_field(#[trigger] csv_fields(v, i)[k]),
        csv_fields(v, i)[1].len() >= 1,
{
    lemma_cost_text_plain(v.cost[i]);
    lemma_decimal_text_plain(v.value[i]);
    lemma_int_text_plain(v.tou[i] as int);
    lemma_int_text_plain(v.time_period_start_unix_ms[i] as int);
    lemma_int_text_plain(v.time_period_duration_seconds[i] as int);
}

proof fn lemma_header_plain()
    ensures
        forall|k: int| 0 <= k < csv_header().len() ==> is_plain_field(#[trigger] csv_header()[k]),
        csv_header()[0].len() >= 1,
{
    reveal_strlit("title");
    reveal_strlit("cost");
    reveal_strlit("quality");
    reveal_strlit("value");
    reveal_strlit("tou");
    reveal_strlit("time_period_start_unix_ms");
    reveal_strlit("time_period_duration_seconds");
    reveal_strlit("accumulation_behaviour");
    reveal_strlit("commodity");
    reveal_strlit("currency");
    reveal_strlit("data_qualifier");
    reveal_strlit("flow_direction");
    reveal_strlit("kind");
    reveal_strlit("phase");
    reveal_strlit("uom");
}

/// A tag or field value with each space escaped as `\ `.
pub open spec fn escaped(s: Seq<char>) -> Seq<char> {
    replaced(s, ' ', "\\ "@)
}

/// The measurement of a title: spaces become `_`, then every character
/// other than an ASCII letter, digit or `_` is dropped.
pub open spec fn measurement_of(title: Seq<char>) -> Seq<char> {
    word_chars_only(replaced(title, ' ', "_"@))
}

/// The `cost` field of a line, present only when the table has a cost.
pub open spec fn cost_field(c: Option<Decimal>, with_cost: bool) -> Seq<char> {
    if with_cost {
        ",cost="@ + cost_text(c)
    } else {
        Seq::empty()
    }
}

/// Line `i` of the line-protocol output: measurement, tags, fields and the
/// start in nanoseconds.
pub open spec fn influx_line(v: TimeSeriesView, i: int, with_cost: bool) -> Seq<char> {
    measurement_of(v.title[i])
        + ",db=greenbutton"@
        + ",accumulation_behavior="@
        + escaped(v.accumulation_behaviour[i])
        + ",commodity="@
        + escaped(v.commodity[i])
        + ",currency="@
        + escaped(v.currency[i])
        + ",data_qualifier="@
        + escaped(v.data_qualifier[i])
        + ",flow_direction="@
        + escaped(v.flow_direction[i])
        + ",kind="@
        + escaped(v.kind[i])
        + ",phase="@
        + escaped(v.phase[i])
        + ",uom="@
        + escaped(v.uom[i])
        + " quality="@
        + escaped(v.quality[i])
        + ",value="@
        + decimal_text(v.value[i])
        + ",tou="@
        + int_text(v.tou[i] as int)
        + ",time_period_duration_seconds="@
        + int_text(v.time_period_duration_seconds[i] as int)
        + cost_field(v.cost[i], with_cost)
        + " "@
        + int_text(v.time_period_start_unix_ms[i] * 1000000)
        + "\n"@
}

/// The first `k` lines of the line-protocol output.
pub open spec fn influx_lines(v: TimeSeriesView, k: int, with_cost: bool) -> Seq<char>
    decreases k,
{
    if k <= 0 {
        Seq::empty()
    } else {
        influx_lines(v, k - 1, with_cost) + influx_line(v, k - 1, with_cost)
    }
}

/// The line-protocol output: one line per row; the `cost` field appears on
/// every line when some row has a cost that is given and not zero.
pub open spec fn influx_text(v: TimeSeriesView) -> Seq<char> {
    influx_lines(v, v.len() as int, has_nonzero_cost(v.cost))
}

/// The text of a cost.
fn cost_string(c: Option<Decimal>) -> (r: String)
    ensures
        r@ == cost_text(c),
{
    match c {
        Some(d) => d.to_text(),
        None => "NaN".to_owned(),
    }
}

/// Appends the characters of `s` to `out`.
fn append_str(out: &mut Vec<char>, s: &str)
    ensures
        final(out)@ == old(out)@ + s@,
{
    let mut piece = chars_of(s);
    out.append(&mut piece);
}

/// A value with each space escaped as `\ `.
fn escape_spaces(s: &str) -> (r: String)
    ensures
        r@ == escaped(s@),
{
    proof {
        reveal_strlit(" ");
    }
    replace_text(s, " ", "\\ ")
}

/// The measurement of a title.
fn measurement(title: &str) -> (r: String)
    ensures
        r@ == measurement_of(title@),
{
    proof {
        reveal_strlit(" ");
    }
    let underscored = replace_text(title, " ", "_");
    remove_matches(NON_WORD_PATTERN, underscored.as_str())
}

impl TimeSeries {
    /// The table as CSV text: a header record of the fifteen column names,
    /// then one record per row. Writing to memory does not fail.
    pub fn as_csv(&self) -> (r: Result<String, String>)
        requires
            self@.wf(),
        ensures
            r matches Ok(s) && s@ == csv_text(self@),
            (forall|i: int| 0 <= i < self@.len() ==> #[trigger] row_is_plain(self@, i)) ==> (r matches Ok(
                s,
            ) && s@ == csv_plain_text(self@)),
    {
        let mut header: Vec<String> = Vec::new();
    header.push("title".to_owned());
    header.push("cost".to_owned());
    header.push("quality".to_owned());
    header.push("value".to_owned());
    header.push("tou".to_owned());
    header.push("time_period_start_unix_ms".to_owned());
    header.push("time_period_duration_seconds".to_owned());
    header.push("accumulation_behaviour".to_owned());
    header.push("commodity".to_owned());
    header.push("currency".to_owned());
    header.push("data_qualifier".to_owned());
    header.push("flow_direction".to_owned());
    header.push("kind".to_owned());
    header.push("phase".to_owned());
    header.push("uom".to_owned());
        assert(texts(header@) =~= csv_header());
        let ghost plain = forall|j: int| 0 <= j < self@.len() ==> #[trigger] row_is_plain(self@, j);
        let head = csv_record(&header);
        proof {
            if plain {
                lemma_header_plain();
                assert forall|k: int| 0 <= k < header@.len() implies is_plain_field(
                    #[trigger] header@[k]@,
                ) by {
                    assert(header@[k]@ == csv_header()[k]);
                }
                assert(header@[0]@.len() > 0);
                assert(header@.map_values(|f: String| f@) =~= csv_header());
            }
        }
        let mut out: Vec<char> = chars_of(head.as_str());
        let n = self.title.len();
        let mut i: usize = 0;
        assert(csv_plain_rows(self@, 0) =~= Seq::<char>::empty());
        while i < n
            invariant
                self@.wf(),
                n == self@.len(),
                i <= n,
                out@ == csv_record_text(csv_header()) + csv_rows_text(self@, i as int),
                plain == (forall|j: int| 0 <= j < self@.len() ==> #[trigger] row_is_plain(self@, j)),
                plain ==> out@ == comma_joined(csv_header()) + seq!['\n'] + csv_plain_rows(self@, i as int),
            decreases n - i,
        {
            let mut fields: Vec<String> = Vec::new();
            fields.push(self.title[i].clone());
            fields.push(cost_string(self.cost[i]));
            fields.push(self.quality[i].clone());
            fields.push(self.value[i].to_text());
            fields.push(int_to_text(self.tou[i] as i128));
            fields.push(int_to_text(self.time_period_start_unix_ms[i] as i128));
            fields.push(int_to_text(self.time_period_duration_seconds[i] as i128));
            fields.push(self.accumulation_behaviour[i].clone());
            fields.push(self.commodity[i].clone());
            fields.push(self.currency[i].clone());
            fields.push(self.data_qualifier[i].clone());
            fields.push(self.flow_direction[i].clone());
            fields.push(self.kind[i].clone());
            fields.push(self.phase[i].clone());
            fields.push(self.uom[i].clone());
            assert(texts(fields@) =~= csv_fields(self@, i as int));
            let line = csv_record(&fields);
            proof {
                if plain {
                    assert(row_is_plain(self@, i as int));
                    lemma_row_fields_plain(self@, i as int);
                    assert forall|k: int| 0 <= k < fields@.len() implies is_plain_field(
                        #[trigger] fields@[k]@,
                    ) by {
                        assert(fields@[k]@ == csv_fields(self@, i as int)[k]);
                    }
                    assert(fields@[1]@.len() > 0);
                }
            }
            let ghost before = out@;
            let mut record = chars_of(line.as_str());
            out.append(&mut record);
            i = i + 1;
            assert(out@ =~= csv_record_text(csv_header()) + csv_rows_text(self@, i as int));
            proof {
                if plain {
                    assert(out@ =~= comma_joined(csv_header()) + seq!['\n'] + csv_plain_rows(self@, i as int));
                }
            }
        }
        Ok(string_of(&out))
    }

    /// The table as line-protocol text, one line per row.
    pub fn as_influxdb(&self) -> (r: String)
        requires
            self@.wf(),
        ensures
            r@ == influx_text(self@),
    {
        let with_cost = self.has_cost();
        let n = self.title.len();
        let mut out: Vec<char> = Vec::new();
        let mut i: usize = 0;
        while i < n
            invariant
                self@.wf(),
                n == self@.len(),
                i <= n,
                with_cost == has_nonzero_cost(self@.cost),
                out@ == influx_lines(self@, i as int, with_cost),
            decreases n - i,
        {
            let mut line: Vec<char> = Vec::new();
        append_str(&mut line, measurement(self.title[i].as_str()).as_str());
        append_str(&mut line, ",db=greenbutton");
        append_str(&mut line, ",accumulation_behavior=");
        append_str(&mut line, escape_spaces(self.accumulation_behaviour[i].as_str()).as_str());
        append_str(&mut line, ",commodity=");
        append_str(&mut line, escape_spaces(self.commodity[i].as_str()).as_str());
        append_str(&mut line, ",currency=");
        append_str(&mut line, escape_spaces(self.currency[i].as_str()).as_str());
        append_str(&mut line, ",data_qualifier=");
        append_str(&mut line, escape_spaces(self.data_qualifier[i].as_str()).as_str());
        append_str(&mut line, ",flow_direction=");
        append_str(&mut line, escape_spaces(self.flow_direction[i].as_str()).as_str());
        append_str(&mut line, ",kind=");
        append_str(&mut line, escape_spaces(self.kind[i].as_str()).as_str());
        append_str(&mut line, ",phase=");
        append_str(&mut line, escape_spaces(self.phase[i].as_str()).as_str());
        append_str(&mut line, ",uom=");
        append_str(&mut line, escape_spaces(self.uom[i].as_str()).as_str());
        append_str(&mut line, " quality=");
        append_str(&mut line, escape_spaces(self.quality[i].as_str()).as_str());
        append_str(&mut line, ",value=");
        let mut value = decimal_chars(self.value[i]);
        line.append(&mut value);
        append_str(&mut line, ",tou=");
        append_str(&mut line, int_to_text(self.tou[i] as i128).as_str());
        append_str(&mut line, ",time_period_duration_seconds=");
        append_str(&mut line, int_to_text(self.time_period_duration_seconds[i] as i128).as_str());
        if with_cost {
            append_str(&mut line, ",cost=");
            append_str(&mut line, cost_string(self.cost[i]).as_str());
        }
        append_str(&mut line, " ");
        append_str(&mut line, int_to_text(self.time_period_start_unix_ms[i] as i128 * 1000000).as_str());
        append_str(&mut line, "\n");
            assert(line@ =~= influx_line(self@, i as int, with_cost));
            out.append(&mut line);
            i = i + 1;
        }
        string_of(&out)
    }
}

} // verus!
