use vstd::prelude::*;

use crate::decimal::Decimal;
use crate::text::{contains_text, str_contains};

verus! {

/// The token in a feed's first href that marks the provider whose costs
/// come a hundred times too small.
pub const BUGGY_PROVIDER_TOKEN: &'static str = "enova";

/// The denormalized table: one row per interval reading, held column by column.
#[derive(Debug, Clone)]
pub struct TimeSeries {
    pub title: Vec<String>,
    /// The cost in currency units; `None` where the feed gives none.
    pub cost: Vec<Option<Decimal>>,
    pub quality: Vec<String>,
    /// The reading scaled by its reading type's power of ten.
    pub value: Vec<Decimal>,
    pub tou: Vec<i32>,
    pub time_period_start_unix_ms: Vec<i64>,
    pub time_period_duration_seconds: Vec<i32>,
    pub accumulation_behaviour: Vec<String>,
    pub commodity: Vec<String>,
    pub currency: Vec<String>,
    pub data_qualifier: Vec<String>,
    pub flow_direction: Vec<String>,
    pub kind: Vec<String>,
    pub phase: Vec<String>,
    pub uom: Vec<String>,
}

/// The columns of a `TimeSeries` as sequences, strings as their text.
pub ghost struct TimeSeriesView {
    pub title: Seq<Seq<char>>,
    pub cost: Seq<Option<Decimal>>,
    pub quality: Seq<Seq<char>>,
    pub value: Seq<Decimal>,
    pub tou: Seq<i32>,
    pub time_period_start_unix_ms: Seq<i64>,
    pub time_period_duration_seconds: Seq<i32>,
    pub accumulation_behaviour: Seq<Seq<char>>,
    pub commodity: Seq<Seq<char>>,
    pub currency: Seq<Seq<char>>,
    pub data_qualifier: Seq<Seq<char>>,
    pub flow_direction: Seq<Seq<char>>,
    pub kind: Seq<Seq<char>>,
    pub phase: Seq<Seq<char>>,
    pub uom: Seq<Seq<char>>,
}

impl TimeSeriesView {
    pub open spec fn len(self) -> nat {
        self.title.len()
    }

    /// Every column holds the same number of rows.
    pub open spec fn wf(self) -> bool {
        let n = self.title.len();
        &&& self.cost.len() == n
        &&& self.quality.len() == n
        &&& self.value.len() == n
        &&& self.tou.len() == n
        &&& self.time_period_start_unix_ms.len() == n
        &&& self.time_period_duration_seconds.len() == n
        &&& self.accumulation_behaviour.len() == n
        &&& self.commodity.len() == n
        &&& self.currency.len() == n
        &&& self.data_qualifier.len() == n
        &&& self.flow_direction.len() == n
        &&& self.kind.len() == n
        &&& self.phase.len() == n
        &&& self.uom.len() == n
    }

    /// The rows of `self` followed by the rows of `other`, column by column.
    pub open spec fn concat(self, other: TimeSeriesView) -> TimeSeriesView {
        TimeSeriesView {
            title: self.title + other.title,
            cost: self.cost + other.cost,
            quality: self.quality + other.quality,
            value: self.value + other.value,
            tou: self.tou + other.tou,
            time_period_start_unix_ms: self.time_period_start_unix_ms
                + other.time_period_start_unix_ms,
            time_period_duration_seconds: self.time_period_duration_seconds
                + other.time_period_duration_seconds,
            accumulation_behaviour: self.accumulation_behaviour + other.accumulation_behaviour,
            commodity: self.commodity + other.commodity,
            currency: self.currency + other.currency,
            data_qualifier: self.data_qualifier + other.data_qualifier,
            flow_direction: self.flow_direction + other.flow_direction,
            kind: self.kind + other.kind,
            phase: self.phase + other.phase,
            uom: self.uom + other.uom,
        }
    }

    /// Rows `lo` up to `hi` (excluded), column by column.
    pub open spec fn rows(self, lo: int, hi: int) -> TimeSeriesView {
        TimeSeriesView {
            title: self.title.subrange(lo, hi),
            cost: self.cost.subrange(lo, hi),
            quality: self.quality.subrange(lo, hi),
            value: self.value.subrange(lo, hi),
            tou: self.tou.subrange(lo, hi),
            time_period_start_unix_ms: self.time_period_start_unix_ms.subrange(lo, hi),
            time_period_duration_seconds: self.time_period_duration_seconds.subrange(lo, hi),
            accumulation_behaviour: self.accumulation_behaviour.subrange(lo, hi),
            commodity: self.commodity.subrange(lo, hi),
            currency: self.currency.subrange(lo, hi),
            data_qualifier: self.data_qualifier.subrange(lo, hi),
            flow_direction: self.flow_direction.subrange(lo, hi),
            kind: self.kind.subrange(lo, hi),
            phase: self.phase.subrange(lo, hi),
            uom: self.uom.subrange(lo, hi),
        }
    }

    /// Row `i` of the result is row `p[i]` of `self`, in every column.
    pub open spec fn permute(self, p: Seq<usize>) -> TimeSeriesView {
        TimeSeriesView {
            title: permuted(self.title, p),
            cost: permuted(self.cost, p),
            quality: permuted(self.quality, p),
            value: permuted(self.value, p),
            tou: permuted(self.tou, p),
            time_period_start_unix_ms: permuted(self.time_period_start_unix_ms, p),
            time_period_duration_seconds: permuted(self.time_period_duration_seconds, p),
            accumulation_behaviour: permuted(self.accumulation_behaviour, p),
            commodity: permuted(self.commodity, p),
            currency: permuted(self.currency, p),
            data_qualifier: permuted(self.data_qualifier, p),
            flow_direction: permuted(self.flow_direction, p),
            kind: permuted(self.kind, p),
            phase: permuted(self.phase, p),
            uom: permuted(self.uom, p),
        }
    }
}

/// The text of each string of `v`.
pub open spec fn texts(v: Seq<String>) -> Seq<Seq<char>> {
    v.map_values(|s: String| s@)
}

pub broadcast proof fn lemma_texts_push(s: Seq<String>, x: String)
    ensures
        #[trigger] texts(s.push(x)) == texts(s).push(x@),
{
    assert(texts(s.push(x)) =~= texts(s).push(x@));
}

pub broadcast proof fn lemma_texts_concat(a: Seq<String>, b: Seq<String>)
    ensures
        #[trigger] texts(a + b) == texts(a) + texts(b),
{
    assert(texts(a + b) =~= texts(a) + texts(b));
}

pub broadcast proof fn lemma_texts_subrange(a: Seq<String>, i: int, j: int)
    requires
        0 <= i <= j <= a.len(),
    ensures
        #[trigger] texts(a.subrange(i, j)) == texts(a).subrange(i, j),
{
    assert(texts(a.subrange(i, j)) =~= texts(a).subrange(i, j));
}

/// The texts of a string column follow the column through `push`, `+` and
/// `subrange`.
pub broadcast group group_texts {
    lemma_texts_push,
    lemma_texts_concat,
    lemma_texts_subrange,
}

/// Element `i` of the result is element `p[i]` of `s`.
pub open spec fn permuted<T>(s: Seq<T>, p: Seq<usize>) -> Seq<T> {
    Seq::new(p.len(), |i: int| s[p[i] as int])
}

/// The cost once multiplied by one hundred.
pub open spec fn cost_times_hundred(c: Option<Decimal>) -> Option<Decimal> {
    match c {
        Some(d) => Some(Decimal { mantissa: d.mantissa, exponent: (d.exponent + 2) as i32 }),
        None => None,
    }
}

/// A cost that is given and not zero.
pub open spec fn is_nonzero_cost(c: Option<Decimal>) -> bool {
    match c {
        Some(d) => d.mantissa != 0,
        None => false,
    }
}

/// Some row has a cost that is given and not zero.
pub open spec fn has_nonzero_cost(cost: Seq<Option<Decimal>>) -> bool {
    exists|i: int| 0 <= i < cost.len() && is_nonzero_cost(#[trigger] cost[i])
}

/// Text `a` comes before text `b`: characters compared by code point, and a
/// proper prefix first.
pub open spec fn text_lt(a: Seq<char>, b: Seq<char>) -> bool
    decreases a.len(),
{
    if a.len() == 0 {
        b.len() > 0
    } else if b.len() == 0 {
        false
    } else if a[0] != b[0] {
        (a[0] as u32) < (b[0] as u32)
    } else {
        text_lt(a.drop_first(), b.drop_first())
    }
}

/// Row `i` comes strictly before row `j` by (title, start).
pub open spec fn key_lt(titles: Seq<Seq<char>>, starts: Seq<i64>, i: int, j: int) -> bool {
    text_lt(titles[i], titles[j]) || (titles[i] == titles[j] && starts[i] < starts[j])
}

/// Rows `i` and `j` have the same (title, start).
pub open spec fn key_eq(titles: Seq<Seq<char>>, starts: Seq<i64>, i: int, j: int) -> bool {
    titles[i] == titles[j] && starts[i] == starts[j]
}

/// `k` occurs in `p`.
pub open spec fn lists(p: Seq<usize>, k: int) -> bool {
    exists|i: int| 0 <= i < p.len() && #[trigger] p[i] == k
}

/// `p` lists each of `0..n` exactly once.
pub open spec fn is_permutation(p: Seq<usize>, n: nat) -> bool {
    &&& p.len() == n
    &&& forall|i: int| 0 <= i < n ==> #[trigger] p[i] < n
    &&& forall|i: int, j: int| 0 <= i < n && 0 <= j < n && i != j ==> p[i] != p[j]
    &&& forall|k: int| 0 <= k < n ==> #[trigger] lists(p, k)
}

/// `p` lists the rows in ascending (title, start) order, rows with equal
/// keys in the order they had.
pub open spec fn is_stable_sort_order(titles: Seq<Seq<char>>, starts: Seq<i64>, p: Seq<usize>) -> bool {
    &&& is_permutation(p, titles.len())
    &&& forall|i: int, j: int|
        0 <= i < j < p.len() ==> key_lt(titles, starts, #[trigger] p[i] as int, #[trigger] p[j] as int)
            || (key_eq(titles, starts, p[i] as int, p[j] as int) && p[i] < p[j])
}

/// The rows of `v` are in ascending (title, start) order.
pub open spec fn is_sorted(v: TimeSeriesView) -> bool {
    forall|i: int, j: int|
        0 <= i < j < v.len() ==> key_lt(v.title, v.time_period_start_unix_ms, i, j) || key_eq(
            v.title,
            v.time_period_start_unix_ms,
            i,
            j,
        )
}

/// `w` is `v` stably sorted by (title, start), every column moved alike.
pub open spec fn is_stable_sort(v: TimeSeriesView, w: TimeSeriesView) -> bool {
    exists|p: Seq<usize>|
        is_stable_sort_order(v.title, v.time_period_start_unix_ms, p) && w == v.permute(p)
}

/// The table with no rows.
pub open spec fn empty_view() -> TimeSeriesView {
    TimeSeriesView {
        title: Seq::empty(),
        cost: Seq::empty(),
        quality: Seq::empty(),
        value: Seq::empty(),
        tou: Seq::empty(),
        time_period_start_unix_ms: Seq::empty(),
        time_period_duration_seconds: Seq::empty(),
        accumulation_behaviour: Seq::empty(),
        commodity: Seq::empty(),
        currency: Seq::empty(),
        data_qualifier: Seq::empty(),
        flow_direction: Seq::empty(),
        kind: Seq::empty(),
        phase: Seq::empty(),
        uom: Seq::empty(),
    }
}

/// The rows of all tables of `s`, one table after the other.
pub open spec fn concat_all(s: Seq<TimeSeriesView>) -> TimeSeriesView
    decreases s.len(),
{
    if s.len() == 0 {
        empty_view()
    } else {
        concat_all(s.drop_last()).concat(s.last())
    }
}

/// The views of a list of tables.
pub open spec fn views(s: Seq<TimeSeries>) -> Seq<TimeSeriesView> {
    s.map_values(|t: TimeSeries| t@)
}

/// Every row of `v` has the title of its first row.
pub open spec fn one_title(v: TimeSeriesView) -> bool {
    forall|j: int| 0 <= j < v.len() ==> #[trigger] v.title[j] == v.title[0]
}

/// What `sort_and_chunk` returns for `v`: the stably sorted rows, cut into
/// maximal runs of one title, each run in (title, start) order.
pub open spec fn is_title_chunking(v: TimeSeriesView, chunks: Seq<TimeSeriesView>) -> bool {
    &&& exists|w: TimeSeriesView| is_stable_sort(v, w) && concat_all(chunks) == w
    &&& forall|i: int|
        0 <= i < chunks.len() ==> {
            &&& (#[trigger] chunks[i]).wf()
            &&& chunks[i].len() >= 1
            &&& one_title(chunks[i])
            &&& is_sorted(chunks[i])
        }
    &&& forall|i: int|
        0 <= i < chunks.len() - 1 ==> (#[trigger] chunks[i]).title[0] != chunks[i + 1].title[0]
}

impl View for TimeSeries {
    type V = TimeSeriesView;

    open spec fn view(&self) -> TimeSeriesView {
        TimeSeriesView {
            title: texts(self.title@),
            cost: self.cost@,
            quality: texts(self.quality@),
            value: self.value@,
            tou: self.tou@,
            time_period_start_unix_ms: self.time_period_start_unix_ms@,
            time_period_duration_seconds: self.time_period_duration_seconds@,
            accumulation_behaviour: texts(self.accumulation_behaviour@),
            commodity: texts(self.commodity@),
            currency: texts(self.currency@),
            data_qualifier: texts(self.data_qualifier@),
            flow_direction: texts(self.flow_direction@),
            kind: texts(self.kind@),
            phase: texts(self.phase@),
            uom: texts(self.uom@),
        }
    }
}

impl Default for TimeSeries {
    fn default() -> (r: TimeSeries)
        ensures
            r@.wf(),
            r@.len() == 0,
    {
        TimeSeries::new()
    }
}

impl TimeSeries {
    /// The empty table.
    pub fn new() -> (r: TimeSeries)
        ensures
            r@.wf(),
            r@.len() == 0,
            r@ == empty_view(),
    {
        let r = TimeSeries {
            title: Vec::new(),
            cost: Vec::new(),
            quality: Vec::new(),
            value: Vec::new(),
            tou: Vec::new(),
            time_period_start_unix_ms: Vec::new(),
            time_period_duration_seconds: Vec::new(),
            accumulation_behaviour: Vec::new(),
            commodity: Vec::new(),
            currency: Vec::new(),
            data_qualifier: Vec::new(),
            flow_direction: Vec::new(),
            kind: Vec::new(),
            phase: Vec::new(),
            uom: Vec::new(),
        };
        assert(texts(Seq::<String>::empty()) =~= Seq::<Seq<char>>::empty());
        r
    }

    /// The number of rows.
    pub fn len(&self) -> (r: usize)
        requires
            self@.wf(),
        ensures
            r == self@.len(),
    {
        self.title.len()
    }

    /// Appends the rows of `other` after the rows of `self`, in order.
    pub fn extend(&mut self, other: TimeSeries)
        requires
            old(self)@.wf(),
            other@.wf(),
        ensures
            final(self)@ == old(self)@.concat(other@),
            final(self)@.wf(),
    {
        let mut rest = other;
        self.title.append(&mut rest.title);
        self.cost.append(&mut rest.cost);
        self.quality.append(&mut rest.quality);
        self.value.append(&mut rest.value);
        self.tou.append(&mut rest.tou);
        self.time_period_start_unix_ms.append(&mut rest.time_period_start_unix_ms);
        self.time_period_duration_seconds.append(&mut rest.time_period_duration_seconds);
        self.accumulation_behaviour.append(&mut rest.accumulation_behaviour);
        self.commodity.append(&mut rest.commodity);
        self.currency.append(&mut rest.currency);
        self.data_qualifier.append(&mut rest.data_qualifier);
        self.flow_direction.append(&mut rest.flow_direction);
        self.kind.append(&mut rest.kind);
        self.phase.append(&mut rest.phase);
        self.uom.append(&mut rest.uom);
        proof {
            broadcast use group_texts;
        }
    }
}

/// Relies on `permutation::sort`, a stable sort of the row indices by their
/// (title, start) pairs in Rust's tuple order (strings by code point, a prefix
/// first), and on `Permutation::apply_slice`, which lists the indices in that order.
#[verifier::external_body]
fn stable_sort_order(titles: &Vec<String>, starts: &Vec<i64>) -> (r: Vec<usize>)
    requires
        titles@.len() == starts@.len(),
    ensures
        is_stable_sort_order(texts(titles@), starts@, r@),
{
    let keys: Vec<(&String, i64)> = titles.iter().zip(starts.iter().copied()).collect();
    let indices: Vec<usize> = (0..keys.len()).collect();
    permutation::sort(&keys).apply_slice(&indices)
}

/// Element `i` of the result is element `p[i]` of `v`.
fn permute_strings(v: &Vec<String>, p: &Vec<usize>) -> (r: Vec<String>)
    requires
        forall|i: int| 0 <= i < p@.len() ==> #[trigger] p@[i] < v@.len(),
    ensures
        r@ == permuted(v@, p@),
        texts(r@) == permuted(texts(v@), p@),
{
    let mut r: Vec<String> = Vec::new();
    let mut i: usize = 0;
    while i < p.len()
        invariant
            i <= p@.len(),
            forall|k: int| 0 <= k < p@.len() ==> #[trigger] p@[k] < v@.len(),
            r@ =~= permuted(v@, p@.take(i as int)),
        decreases p@.len() - i,
    {
        r.push(v[p[i]].clone());
        i = i + 1;
        assert(r@ =~= permuted(v@, p@.take(i as int)));
    }
    assert(p@.take(i as int) =~= p@);
    assert(texts(r@) =~= permuted(texts(v@), p@));
    r
}

/// Element `i` of the result is element `p[i]` of `v`.
fn permute_copies<T: Copy>(v: &Vec<T>, p: &Vec<usize>) -> (r: Vec<T>)
    requires
        forall|i: int| 0 <= i < p@.len() ==> #[trigger] p@[i] < v@.len(),
    ensures
        r@ == permuted(v@, p@),
{
    let mut r: Vec<T> = Vec::new();
    let mut i: usize = 0;
    while i < p.len()
        invariant
            i <= p@.len(),
            forall|k: int| 0 <= k < p@.len() ==> #[trigger] p@[k] < v@.len(),
            r@ =~= permuted(v@, p@.take(i as int)),
        decreases p@.len() - i,
    {
        r.push(v[p[i]]);
        i = i + 1;
        assert(r@ =~= permuted(v@, p@.take(i as int)));
    }
    assert(p@.take(i as int) =~= p@);
    r
}

impl TimeSeries {
    /// Orders the rows by (title, start) ascending, keeping rows with equal
    /// keys in their order; every column is moved by the same permutation.
    pub fn sort(&mut self)
        requires
            old(self)@.wf(),
        ensures
            final(self)@.wf(),
            is_stable_sort(old(self)@, final(self)@),
            is_sorted(old(self)@) ==> final(self)@ == old(self)@,
    {
        let order = stable_sort_order(&self.title, &self.time_period_start_unix_ms);
        assert(forall|i: int| 0 <= i < order@.len() ==> #[trigger] order@[i] < self@.len());
        let title = permute_strings(&self.title, &order);
        let cost = permute_copies(&self.cost, &order);
        let quality = permute_strings(&self.quality, &order);
        let value = permute_copies(&self.value, &order);
        let tou = permute_copies(&self.tou, &order);
        let time_period_start_unix_ms = permute_copies(&self.time_period_start_unix_ms, &order);
        let time_period_duration_seconds = permute_copies(&self.time_period_duration_seconds, &order);
        let accumulation_behaviour = permute_strings(&self.accumulation_behaviour, &order);
        let commodity = permute_strings(&self.commodity, &order);
        let currency = permute_strings(&self.currency, &order);
        let data_qualifier = permute_strings(&self.data_qualifier, &order);
        let flow_direction = permute_strings(&self.flow_direction, &order);
        let kind = permute_strings(&self.kind, &order);
        let phase = permute_strings(&self.phase, &order);
        let uom = permute_strings(&self.uom, &order);
        *self = TimeSeries {
            title,
            cost,
            quality,
            value,
            tou,
            time_period_start_unix_ms,
            time_period_duration_seconds,
            accumulation_behaviour,
            commodity,
            currency,
            data_qualifier,
            flow_direction,
            kind,
            phase,
            uom,
        };
        assert(self@ == old(self)@.permute(order@));
        proof {
            lemma_stable_sort_is_sorted(old(self)@, self@);
            if is_sorted(old(self)@) {
                lemma_sort_of_sorted_is_noop(old(self)@, self@);
            }
        }
    }

    /// Removes and returns the leading rows that share the first row's
    /// title; `None` when the table is empty. On a table sorted by title
    /// this is every row of that title.
    pub fn take_first_title_chunk(&mut self) -> (r: Option<TimeSeries>)
        requires
            old(self)@.wf(),
        ensures
            final(self)@.wf(),
            old(self)@.len() == 0 <==> r is None,
            r is None ==> final(self)@ == old(self)@,
            r matches Some(c) ==> {
                let k = c@.len() as int;
                &&& c@.wf()
                &&& 1 <= k <= old(self)@.len()
                &&& c@ == old(self)@.rows(0, k)
                &&& final(self)@ == old(self)@.rows(k, old(self)@.len() as int)
                &&& one_title(c@)
                &&& k < old(self)@.len() ==> old(self)@.title[k] != old(self)@.title[0]
            },
    {
        let n = self.title.len();
        if n == 0 {
            return None;
        }
        let mut end: usize = 1;
        while end < n && self.title[end] == self.title[0]
            invariant
                1 <= end <= n,
                n == self@.len(),
                self@ == old(self)@,
                forall|j: int| 0 <= j < end ==> #[trigger] self@.title[j] == self@.title[0],
            decreases n - end,
        {
            end = end + 1;
        }
        let mut chunk = TimeSeries {
            title: self.title.split_off(end),
            cost: self.cost.split_off(end),
            quality: self.quality.split_off(end),
            value: self.value.split_off(end),
            tou: self.tou.split_off(end),
            time_period_start_unix_ms: self.time_period_start_unix_ms.split_off(end),
            time_period_duration_seconds: self.time_period_duration_seconds.split_off(end),
            accumulation_behaviour: self.accumulation_behaviour.split_off(end),
            commodity: self.commodity.split_off(end),
            currency: self.currency.split_off(end),
            data_qualifier: self.data_qualifier.split_off(end),
            flow_direction: self.flow_direction.split_off(end),
            kind: self.kind.split_off(end),
            phase: self.phase.split_off(end),
            uom: self.uom.split_off(end),
        };
        std::mem::swap(self, &mut chunk);
        proof {
            broadcast use group_texts;
        }
        Some(chunk)
    }

    /// Sorts the rows, then cuts them into runs of one title, in order.
    pub fn sort_and_chunk(self) -> (r: Vec<TimeSeries>)
        requires
            self@.wf(),
        ensures
            is_title_chunking(self@, views(r@)),
    {
        let mut rest = self;
        rest.sort();
        let ghost sorted = rest@;
        let total = rest.len();
        let ghost n = total as int;
        let mut chunks: Vec<TimeSeries> = Vec::new();
        proof {
            lemma_stable_sort_is_sorted(self@, sorted);
            lemma_rows_all(sorted);
            assert(concat_all(views(chunks@)) =~~= sorted.rows(0, 0)) by {
                lemma_rows_empty(sorted);
            }
        }
        let mut taken: usize = 0;
        loop
            invariant
                sorted.wf(),
                is_sorted(sorted),
                sorted.len() == n,
                n == total,
                rest@.wf(),
                0 <= taken <= n,
                rest@ == sorted.rows(taken as int, n),
                concat_all(views(chunks@)) == sorted.rows(0, taken as int),
                forall|i: int|
                    0 <= i < chunks@.len() ==> {
                        &&& (#[trigger] views(chunks@)[i]).wf()
                        &&& views(chunks@)[i].len() >= 1
                        &&& one_title(views(chunks@)[i])
                        &&& is_sorted(views(chunks@)[i])
                    },
                forall|i: int|
                    0 <= i < chunks@.len() - 1 ==> (#[trigger] views(chunks@)[i]).title[0]
                        != views(chunks@)[i + 1].title[0],
                chunks@.len() > 0 && taken < n ==> views(chunks@).last().title[0] != sorted.title[taken as int],
            ensures
                taken == n,
            decreases n - taken,
        {
            let ghost before = chunks@;
            match rest.take_first_title_chunk() {
                Some(chunk) => {
                    let k_rows = chunk.len();
                    let ghost k = chunk@.len() as int;
                    proof {
                        lemma_rows_split(sorted, 0, taken as int, taken + k);
                        lemma_rows_sorted(sorted, taken as int, taken + k);
                        lemma_rows_of_rows(sorted, taken as int, n, 0, k);
                        lemma_rows_of_rows(sorted, taken as int, n, k, n - taken);
                    }
                    chunks.push(chunk);
                    proof {
                        assert(views(chunks@) =~= views(before).push(chunk@));
                        assert(views(chunks@).drop_last() =~= views(before));
                    }
                    taken = taken + k_rows;
                },
                None => {
                    assert(taken == n);
                    break;
                },
            }
        }
        proof {
            lemma_rows_all(sorted);
            assert(is_stable_sort(self@, sorted));
            assert(concat_all(views(chunks@)) == sorted);
        }
        chunks
    }

    /// Multiplies every cost by one hundred when `href` holds the token of
    /// the provider whose feeds state costs a hundred times too small.
    pub fn fix_provider_bugs_if_needed(&mut self, href: &str)
        requires
            old(self)@.wf(),
            forall|i: int|
                0 <= i < old(self)@.cost.len() ==> (#[trigger] old(self)@.cost[i] matches Some(d)
                    ==> d.exponent <= i32::MAX - 2),
        ensures
            final(self)@.wf(),
            contains_text(href@, BUGGY_PROVIDER_TOKEN@) ==> final(self)@ == (TimeSeriesView {
                cost: old(self)@.cost.map_values(|c: Option<Decimal>| cost_times_hundred(c)),
                ..old(self)@
            }),
            !contains_text(href@, BUGGY_PROVIDER_TOKEN@) ==> final(self)@ == old(self)@,
    {
        if str_contains(href, BUGGY_PROVIDER_TOKEN) {
            let mut cost: Vec<Option<Decimal>> = Vec::new();
            let mut i: usize = 0;
            while i < self.cost.len()
                invariant
                    i <= self.cost@.len(),
                    self@ == old(self)@,
                    forall|j: int|
                        0 <= j < old(self)@.cost.len() ==> (#[trigger] old(self)@.cost[j] matches Some(d)
                            ==> d.exponent <= i32::MAX - 2),
                    cost@ =~= self.cost@.take(i as int).map_values(
                        |c: Option<Decimal>| cost_times_hundred(c),
                    ),
                decreases self.cost@.len() - i,
            {
                assert(old(self)@.cost[i as int] == self.cost@[i as int]);
                let c = match self.cost[i] {
                    Some(d) => Some(Decimal { mantissa: d.mantissa, exponent: d.exponent + 2 }),
                    None => None,
                };
                cost.push(c);
                i = i + 1;
                assert(cost@ =~= self.cost@.take(i as int).map_values(
                    |c: Option<Decimal>| cost_times_hundred(c),
                ));
            }
            assert(self.cost@.take(i as int) =~= self.cost@);
            self.cost = cost;
        }
    }

    /// Some row has a cost that is given and not zero.
    pub fn has_cost(&self) -> (r: bool)
        requires
            self@.wf(),
        ensures
            r == has_nonzero_cost(self@.cost),
    {
        let mut i: usize = 0;
        while i < self.cost.len()
            invariant
                i <= self.cost@.len(),
                forall|j: int| 0 <= j < i ==> !is_nonzero_cost(#[trigger] self@.cost[j]),
            decreases self.cost@.len() - i,
        {
            if let Some(d) = self.cost[i] {
                if d.mantissa != 0 {
                    assert(is_nonzero_cost(self@.cost[i as int]));
                    return true;
                }
            }
            i = i + 1;
        }
        false
    }
}

pub proof fn lemma_rows_empty(v: TimeSeriesView)
    ensures
        concat_all(Seq::<TimeSeriesView>::empty()) == v.rows(0, 0),
{
    assert(concat_all(Seq::<TimeSeriesView>::empty()).title =~= v.rows(0, 0).title);
    assert(concat_all(Seq::<TimeSeriesView>::empty()).cost =~= v.rows(0, 0).cost);
    assert(concat_all(Seq::<TimeSeriesView>::empty()).quality =~= v.rows(0, 0).quality);
    assert(concat_all(Seq::<TimeSeriesView>::empty()).value =~= v.rows(0, 0).value);
    assert(concat_all(Seq::<TimeSeriesView>::empty()).tou =~= v.rows(0, 0).tou);
    assert(concat_all(Seq::<TimeSeriesView>::empty()).time_period_start_unix_ms =~= v.rows(0, 0).time_period_start_unix_ms);
    assert(concat_all(Seq::<TimeSeriesView>::empty()).time_period_duration_seconds =~= v.rows(0, 0).time_period_duration_seconds);
    assert(concat_all(Seq::<TimeSeriesView>::empty()).accumulation_behaviour =~= v.rows(0, 0).accumulation_behaviour);
    assert(concat_all(Seq::<TimeSeriesView>::empty()).commodity =~= v.rows(0, 0).commodity);
    assert(concat_all(Seq::<TimeSeriesView>::empty()).currency =~= v.rows(0, 0).currency);
    assert(concat_all(Seq::<TimeSeriesView>::empty()).data_qualifier =~= v.rows(0, 0).data_qualifier);
    assert(concat_all(Seq::<TimeSeriesView>::empty()).flow_direction =~= v.rows(0, 0).flow_direction);
    assert(concat_all(Seq::<TimeSeriesView>::empty()).kind =~= v.rows(0, 0).kind);
    assert(concat_all(Seq::<TimeSeriesView>::empty()).phase =~= v.rows(0, 0).phase);
    assert(concat_all(Seq::<TimeSeriesView>::empty()).uom =~= v.rows(0, 0).uom);
}

/// `v` with row `i` of `base` appended, column by column.
pub open spec fn with_row_of(v: TimeSeriesView, base: TimeSeriesView, i: int) -> TimeSeriesView {
    TimeSeriesView {
        title: v.title.push(base.title[i]),
        cost: v.cost.push(base.cost[i]),
        quality: v.quality.push(base.quality[i]),
        value: v.value.push(base.value[i]),
        tou: v.tou.push(base.tou[i]),
        time_period_start_unix_ms: v.time_period_start_unix_ms.push(base.time_period_start_unix_ms[i]),
        time_period_duration_seconds: v.time_period_duration_seconds.push(base.time_period_duration_seconds[i]),
        accumulation_behaviour: v.accumulation_behaviour.push(base.accumulation_behaviour[i]),
        commodity: v.commodity.push(base.commodity[i]),
        currency: v.currency.push(base.currency[i]),
        data_qualifier: v.data_qualifier.push(base.data_qualifier[i]),
        flow_direction: v.flow_direction.push(base.flow_direction[i]),
        kind: v.kind.push(base.kind[i]),
        phase: v.phase.push(base.phase[i]),
        uom: v.uom.push(base.uom[i]),
    }
}

/// Appending row `i` of `base` to its first `i` rows gives its first `i + 1`.
pub proof fn lemma_rows_grow(base: TimeSeriesView, i: int)
    requires
        base.wf(),
        0 <= i < base.len(),
    ensures
        with_row_of(base.rows(0, i), base, i) == base.rows(0, i + 1),
{
    assert(with_row_of(base.rows(0, i), base, i).title =~= base.rows(0, i + 1).title);
    assert(with_row_of(base.rows(0, i), base, i).cost =~= base.rows(0, i + 1).cost);
    assert(with_row_of(base.rows(0, i), base, i).quality =~= base.rows(0, i + 1).quality);
    assert(with_row_of(base.rows(0, i), base, i).value =~= base.rows(0, i + 1).value);
    assert(with_row_of(base.rows(0, i), base, i).tou =~= base.rows(0, i + 1).tou);
    assert(with_row_of(base.rows(0, i), base, i).time_period_start_unix_ms =~= base.rows(0, i + 1).time_period_start_unix_ms);
    assert(with_row_of(base.rows(0, i), base, i).time_period_duration_seconds =~= base.rows(0, i + 1).time_period_duration_seconds);
    assert(with_row_of(base.rows(0, i), base, i).accumulation_behaviour =~= base.rows(0, i + 1).accumulation_behaviour);
    assert(with_row_of(base.rows(0, i), base, i).commodity =~= base.rows(0, i + 1).commodity);
    assert(with_row_of(base.rows(0, i), base, i).currency =~= base.rows(0, i + 1).currency);
    assert(with_row_of(base.rows(0, i), base, i).data_qualifier =~= base.rows(0, i + 1).data_qualifier);
    assert(with_row_of(base.rows(0, i), base, i).flow_direction =~= base.rows(0, i + 1).flow_direction);
    assert(with_row_of(base.rows(0, i), base, i).kind =~= base.rows(0, i + 1).kind);
    assert(with_row_of(base.rows(0, i), base, i).phase =~= base.rows(0, i + 1).phase);
    assert(with_row_of(base.rows(0, i), base, i).uom =~= base.rows(0, i + 1).uom);
}

pub proof fn lemma_rows_all(v: TimeSeriesView)
    requires
        v.wf(),
    ensures
        v.rows(0, v.len() as int) == v,
{
    assert(v.rows(0, v.len() as int).title =~= v.title);
    assert(v.rows(0, v.len() as int).cost =~= v.cost);
    assert(v.rows(0, v.len() as int).quality =~= v.quality);
    assert(v.rows(0, v.len() as int).value =~= v.value);
    assert(v.rows(0, v.len() as int).tou =~= v.tou);
    assert(v.rows(0, v.len() as int).time_period_start_unix_ms =~= v.time_period_start_unix_ms);
    assert(v.rows(0, v.len() as int).time_period_duration_seconds =~= v.time_period_duration_seconds);
    assert(v.rows(0, v.len() as int).accumulation_behaviour =~= v.accumulation_behaviour);
    assert(v.rows(0, v.len() as int).commodity =~= v.commodity);
    assert(v.rows(0, v.len() as int).currency =~= v.currency);
    assert(v.rows(0, v.len() as int).data_qualifier =~= v.data_qualifier);
    assert(v.rows(0, v.len() as int).flow_direction =~= v.flow_direction);
    assert(v.rows(0, v.len() as int).kind =~= v.kind);
    assert(v.rows(0, v.len() as int).phase =~= v.phase);
    assert(v.rows(0, v.len() as int).uom =~= v.uom);
}

proof fn lemma_rows_split(v: TimeSeriesView, a: int, b: int, c: int)
    requires
        v.wf(),
        0 <= a <= b <= c <= v.len(),
    ensures
        v.rows(a, b).concat(v.rows(b, c)) == v.rows(a, c),
{
    assert(v.rows(a, b).concat(v.rows(b, c)).title =~= v.rows(a, c).title);
    assert(v.rows(a, b).concat(v.rows(b, c)).cost =~= v.rows(a, c).cost);
    assert(v.rows(a, b).concat(v.rows(b, c)).quality =~= v.rows(a, c).quality);
    assert(v.rows(a, b).concat(v.rows(b, c)).value =~= v.rows(a, c).value);
    assert(v.rows(a, b).concat(v.rows(b, c)).tou =~= v.rows(a, c).tou);
    assert(v.rows(a, b).concat(v.rows(b, c)).time_period_start_unix_ms =~= v.rows(a, c).time_period_start_unix_ms);
    assert(v.rows(a, b).concat(v.rows(b, c)).time_period_duration_seconds =~= v.rows(a, c).time_period_duration_seconds);
    assert(v.rows(a, b).concat(v.rows(b, c)).accumulation_behaviour =~= v.rows(a, c).accumulation_behaviour);
    assert(v.rows(a, b).concat(v.rows(b, c)).commodity =~= v.rows(a, c).commodity);
    assert(v.rows(a, b).concat(v.rows(b, c)).currency =~= v.rows(a, c).currency);
    assert(v.rows(a, b).concat(v.rows(b, c)).data_qualifier =~= v.rows(a, c).data_qualifier);
    assert(v.rows(a, b).concat(v.rows(b, c)).flow_direction =~= v.rows(a, c).flow_direction);
    assert(v.rows(a, b).concat(v.rows(b, c)).kind =~= v.rows(a, c).kind);
    assert(v.rows(a, b).concat(v.rows(b, c)).phase =~= v.rows(a, c).phase);
    assert(v.rows(a, b).concat(v.rows(b, c)).uom =~= v.rows(a, c).uom);
}

proof fn lemma_rows_of_rows(v: TimeSeriesView, a: int, b: int, c: int, d: int)
    requires
        v.wf(),
        0 <= a <= b <= v.len(),
        0 <= c <= d <= b - a,
    ensures
        v.rows(a, b).rows(c, d) == v.rows(a + c, a + d),
{
    assert(v.rows(a, b).rows(c, d).title =~= v.rows(a + c, a + d).title);
    assert(v.rows(a, b).rows(c, d).cost =~= v.rows(a + c, a + d).cost);
    assert(v.rows(a, b).rows(c, d).quality =~= v.rows(a + c, a + d).quality);
    assert(v.rows(a, b).rows(c, d).value =~= v.rows(a + c, a + d).value);
    assert(v.rows(a, b).rows(c, d).tou =~= v.rows(a + c, a + d).tou);
    assert(v.rows(a, b).rows(c, d).time_period_start_unix_ms =~= v.rows(a + c, a + d).time_period_start_unix_ms);
    assert(v.rows(a, b).rows(c, d).time_period_duration_seconds =~= v.rows(a + c, a + d).time_period_duration_seconds);
    assert(v.rows(a, b).rows(c, d).accumulation_behaviour =~= v.rows(a + c, a + d).accumulation_behaviour);
    assert(v.rows(a, b).rows(c, d).commodity =~= v.rows(a + c, a + d).commodity);
    assert(v.rows(a, b).rows(c, d).currency =~= v.rows(a + c, a + d).currency);
    assert(v.rows(a, b).rows(c, d).data_qualifier =~= v.rows(a + c, a + d).data_qualifier);
    assert(v.rows(a, b).rows(c, d).flow_direction =~= v.rows(a + c, a + d).flow_direction);
    assert(v.rows(a, b).rows(c, d).kind =~= v.rows(a + c, a + d).kind);
    assert(v.rows(a, b).rows(c, d).phase =~= v.rows(a + c, a + d).phase);
    assert(v.rows(a, b).rows(c, d).uom =~= v.rows(a + c, a + d).uom);
}

proof fn lemma_rows_sorted(v: TimeSeriesView, a: int, b: int)
    requires
        v.wf(),
        is_sorted(v),
        0 <= a <= b <= v.len(),
    ensures
        is_sorted(v.rows(a, b)),
        v.rows(a, b).wf(),
{
    let w = v.rows(a, b);
    assert forall|i: int, j: int| 0 <= i < j < w.len() implies key_lt(
        w.title,
        w.time_period_start_unix_ms,
        i,
        j,
    ) || key_eq(w.title, w.time_period_start_unix_ms, i, j) by {
        assert(key_lt(v.title, v.time_period_start_unix_ms, a + i, a + j) || key_eq(
            v.title,
            v.time_period_start_unix_ms,
            a + i,
            a + j,
        ));
    }
}

proof fn lemma_stable_sort_is_sorted(v: TimeSeriesView, w: TimeSeriesView)
    requires
        v.wf(),
        is_stable_sort(v, w),
    ensures
        w.wf(),
        w.len() == v.len(),
        is_sorted(w),
{
    let p = choose|p: Seq<usize>|
        is_stable_sort_order(v.title, v.time_period_start_unix_ms, p) && w == v.permute(p);
    assert forall|i: int, j: int| 0 <= i < j < w.len() implies key_lt(
        w.title,
        w.time_period_start_unix_ms,
        i,
        j,
    ) || key_eq(w.title, w.time_period_start_unix_ms, i, j) by {
        assert(key_lt(v.title, v.time_period_start_unix_ms, p[i] as int, p[j] as int) || (key_eq(
            v.title,
            v.time_period_start_unix_ms,
            p[i] as int,
            p[j] as int,
        ) && p[i] < p[j]));
    }
}

proof fn lemma_text_lt_irreflexive(a: Seq<char>)
    ensures
        !text_lt(a, a),
    decreases a.len(),
{
    if a.len() > 0 {
        lemma_text_lt_irreflexive(a.drop_first());
    }
}

proof fn lemma_text_lt_asymmetric(a: Seq<char>, b: Seq<char>)
    requires
        text_lt(a, b),
    ensures
        !text_lt(b, a),
    decreases a.len(),
{
    if a.len() > 0 && b.len() > 0 && a[0] == b[0] {
        lemma_text_lt_asymmetric(a.drop_first(), b.drop_first());
    }
}

/// Under a stable sort order `p` of rows already in key order, the first
/// `m` positions hold rows `0..m` themselves.
proof fn lemma_sorted_order_fixes_prefix(v: TimeSeriesView, p: Seq<usize>, m: int)
    requires
        v.wf(),
        is_sorted(v),
        is_stable_sort_order(v.title, v.time_period_start_unix_ms, p),
        0 <= m <= v.len(),
    ensures
        forall|k: int| 0 <= k < m ==> #[trigger] p[k] == k,
    decreases m,
{
    if m > 0 {
        let i = m - 1;
        lemma_sorted_order_fixes_prefix(v, p, i);
        let t = v.title;
        let st = v.time_period_start_unix_ms;
        if (p[i] as int) < i {
            let q = p[i] as int;
            assert(p[q] == q);
            assert(false);
        }
        if (p[i] as int) > i {
            assert(lists(p, i));
            let j = choose|j: int| 0 <= j < p.len() && p[j] == i;
            if j < i {
                assert(p[j] == j);
            }
            assert(j > i);
            assert(key_lt(t, st, p[i] as int, p[j] as int) || (key_eq(t, st, p[i] as int, p[j] as int)
                && p[i] < p[j]));
            let q = p[i] as int;
            assert(key_lt(t, st, i, q) || key_eq(t, st, i, q));
            assert(key_lt(t, st, q, i));
            if text_lt(t[i], t[q]) {
                lemma_text_lt_asymmetric(t[i], t[q]);
                lemma_text_lt_irreflexive(t[i]);
            } else if text_lt(t[q], t[i]) {
                lemma_text_lt_asymmetric(t[q], t[i]);
                lemma_text_lt_irreflexive(t[q]);
            } else {
                lemma_text_lt_irreflexive(t[i]);
            }
            assert(false);
        }
    }
}

/// Sorting a table whose rows are already in (title, start) order leaves
/// it as it is; in particular re-sorting any chunk that `sort_and_chunk`
/// returned changes nothing.
pub proof fn lemma_sort_of_sorted_is_noop(v: TimeSeriesView, w: TimeSeriesView)
    requires
        v.wf(),
        is_sorted(v),
        is_stable_sort(v, w),
    ensures
        w == v,
{
    let p = choose|p: Seq<usize>|
        is_stable_sort_order(v.title, v.time_period_start_unix_ms, p) && w == v.permute(p);
    lemma_sorted_order_fixes_prefix(v, p, v.len() as int);
    assert(w.title =~= v.title);
    assert(w.cost =~= v.cost);
    assert(w.quality =~= v.quality);
    assert(w.value =~= v.value);
    assert(w.tou =~= v.tou);
    assert(w.time_period_start_unix_ms =~= v.time_period_start_unix_ms);
    assert(w.time_period_duration_seconds =~= v.time_period_duration_seconds);
    assert(w.accumulation_behaviour =~= v.accumulation_behaviour);
    assert(w.commodity =~= v.commodity);
    assert(w.currency =~= v.currency);
    assert(w.data_qualifier =~= v.data_qualifier);
    assert(w.flow_direction =~= v.flow_direction);
    assert(w.kind =~= v.kind);
    assert(w.phase =~= v.phase);
    assert(w.uom =~= v.uom);
}

/// Every chunk that `sort_and_chunk` returns holds one title, in start
/// order, and sorting it again changes nothing.
pub proof fn lemma_chunks_are_sorted(v: TimeSeriesView, chunks: Seq<TimeSeriesView>, i: int, w: TimeSeriesView)
    requires
        is_title_chunking(v, chunks),
        0 <= i < chunks.len(),
        is_stable_sort(chunks[i], w),
    ensures
        w == chunks[i],
        one_title(chunks[i]),
{
    lemma_sort_of_sorted_is_noop(chunks[i], w);
}

/// A copy of `v`.
fn clone_strings(v: &Vec<String>) -> (r: Vec<String>)
    ensures
        r@ == v@,
{
    let mut r: Vec<String> = Vec::new();
    let mut i: usize = 0;
    while i < v.len()
        invariant
            i <= v@.len(),
            r@ =~= v@.take(i as int),
        decreases v@.len() - i,
    {
        r.push(v[i].clone());
        i = i + 1;
    }
    assert(v@.take(i as int) =~= v@);
    r
}

/// A copy of `v`.
fn clone_copies<T: Copy>(v: &Vec<T>) -> (r: Vec<T>)
    ensures
        r@ == v@,
{
    let mut r: Vec<T> = Vec::new();
    let mut i: usize = 0;
    while i < v.len()
        invariant
            i <= v@.len(),
            r@ =~= v@.take(i as int),
        decreases v@.len() - i,
    {
        r.push(v[i]);
        i = i + 1;
    }
    assert(v@.take(i as int) =~= v@);
    r
}

impl TimeSeries {
    /// A copy of the `title` column.
    pub fn title(&self) -> (r: Vec<String>)
        ensures
            r@ == self.title@,
    {
        clone_strings(&self.title)
    }

    /// A copy of the `quality` column.
    pub fn quality(&self) -> (r: Vec<String>)
        ensures
            r@ == self.quality@,
    {
        clone_strings(&self.quality)
    }

    /// A copy of the `accumulation_behaviour` column.
    pub fn accumulation_behaviour(&self) -> (r: Vec<String>)
        ensures
            r@ == self.accumulation_behaviour@,
    {
        clone_strings(&self.accumulation_behaviour)
    }

    /// A copy of the `commodity` column.
    pub fn commodity(&self) -> (r: Vec<String>)
        ensures
            r@ == self.commodity@,
    {
        clone_strings(&self.commodity)
    }

    /// A copy of the `currency` column.
    pub fn currency(&self) -> (r: Vec<String>)
        ensures
            r@ == self.currency@,
    {
        clone_strings(&self.currency)
    }

    /// A copy of the `data_qualifier` column.
    pub fn data_qualifier(&self) -> (r: Vec<String>)
        ensures
            r@ == self.data_qualifier@,
    {
        clone_strings(&self.data_qualifier)
    }

    /// A copy of the `flow_direction` column.
    pub fn flow_direction(&self) -> (r: Vec<String>)
        ensures
            r@ == self.flow_direction@,
    {
        clone_strings(&self.flow_direction)
    }

    /// A copy of the `kind` column.
    pub fn kind(&self) -> (r: Vec<String>)
        ensures
            r@ == self.kind@,
    {
        clone_strings(&self.kind)
    }

    /// A copy of the `phase` column.
    pub fn phase(&self) -> (r: Vec<String>)
        ensures
            r@ == self.phase@,
    {
        clone_strings(&self.phase)
    }

    /// A copy of the `uom` column.
    pub fn uom(&self) -> (r: Vec<String>)
        ensures
            r@ == self.uom@,
    {
        clone_strings(&self.uom)
    }

    /// A copy of the `cost` column.
    pub fn cost(&self) -> (r: Vec<Option<Decimal>>)
        ensures
            r@ == self.cost@,
    {
        clone_copies(&self.cost)
    }

    /// A copy of the `value` column.
    pub fn value(&self) -> (r: Vec<Decimal>)
        ensures
            r@ == self.value@,
    {
        clone_copies(&self.value)
    }

    /// A copy of the `tou` column.
    pub fn tou(&self) -> (r: Vec<i32>)
        ensures
            r@ == self.tou@,
    {
        clone_copies(&self.tou)
    }

    /// A copy of the `time_period_start_unix_ms` column.
    pub fn time_period_start_unix_ms(&self) -> (r: Vec<i64>)
        ensures
            r@ == self.time_period_start_unix_ms@,
    {
        clone_copies(&self.time_period_start_unix_ms)
    }

    /// A copy of the `time_period_duration_seconds` column.
    pub fn time_period_duration(&self) -> (r: Vec<i32>)
        ensures
            r@ == self.time_period_duration_seconds@,
    {
        clone_copies(&self.time_period_duration_seconds)
    }
}

/// Appending `b` and then `c` to `a` gives the same rows as appending to `a`
/// the rows of `c` appended to `b`: the plain concatenation of the three
/// tables, column by column, each keeping its row order.
pub proof fn lemma_extend_associative(a: TimeSeriesView, b: TimeSeriesView, c: TimeSeriesView)
    ensures
        a.concat(b).concat(c) == a.concat(b.concat(c)),
        a.concat(b).concat(c).title == a.title + b.title + c.title,
        a.concat(b).concat(c).cost == a.cost + b.cost + c.cost,
        a.concat(b).concat(c).value == a.value + b.value + c.value,
        a.concat(b).concat(c).time_period_start_unix_ms == a.time_period_start_unix_ms
            + b.time_period_start_unix_ms + c.time_period_start_unix_ms,
{
    assert(a.concat(b).concat(c).title =~= a.concat(b.concat(c)).title);
    assert(a.concat(b).concat(c).cost =~= a.concat(b.concat(c)).cost);
    assert(a.concat(b).concat(c).quality =~= a.concat(b.concat(c)).quality);
    assert(a.concat(b).concat(c).value =~= a.concat(b.concat(c)).value);
    assert(a.concat(b).concat(c).tou =~= a.concat(b.concat(c)).tou);
    assert(a.concat(b).concat(c).time_period_start_unix_ms =~= a.concat(b.concat(c)).time_period_start_unix_ms);
    assert(a.concat(b).concat(c).time_period_duration_seconds =~= a.concat(b.concat(c)).time_period_duration_seconds);
    assert(a.concat(b).concat(c).accumulation_behaviour =~= a.concat(b.concat(c)).accumulation_behaviour);
    assert(a.concat(b).concat(c).commodity =~= a.concat(b.concat(c)).commodity);
    assert(a.concat(b).concat(c).currency =~= a.concat(b.concat(c)).currency);
    assert(a.concat(b).concat(c).data_qualifier =~= a.concat(b.concat(c)).data_qualifier);
    assert(a.concat(b).concat(c).flow_direction =~= a.concat(b.concat(c)).flow_direction);
    assert(a.concat(b).concat(c).kind =~= a.concat(b.concat(c)).kind);
    assert(a.concat(b).concat(c).phase =~= a.concat(b.concat(c)).phase);
    assert(a.concat(b).concat(c).uom =~= a.concat(b.concat(c)).uom);
}

} // verus!
