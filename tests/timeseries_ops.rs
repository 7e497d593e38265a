use personalgreenbutton::{Decimal, TimeSeries};

fn s(x: &str) -> String {
    x.to_string()
}

fn series(titles: &[&str], starts: &[i64]) -> TimeSeries {
    let n = titles.len();
    let labels = |p: &str| (0..n).map(|i| format!("{}{}", p, i)).collect::<Vec<String>>();
    TimeSeries {
        title: titles.iter().map(|t| s(t)).collect(),
        cost: (0..n).map(|i| Some(Decimal { mantissa: i as i64, exponent: 0 })).collect(),
        quality: labels("q"),
        value: (0..n).map(|i| Decimal { mantissa: 10 * i as i64, exponent: 0 }).collect(),
        tou: (0..n).map(|i| i as i32).collect(),
        time_period_start_unix_ms: starts.to_vec(),
        time_period_duration_seconds: vec![3600; n],
        accumulation_behaviour: labels("a"),
        commodity: labels("c"),
        currency: labels("u"),
        data_qualifier: labels("d"),
        flow_direction: labels("f"),
        kind: labels("k"),
        phase: labels("p"),
        uom: labels("m"),
    }
}

fn test_timeseries() -> TimeSeries {
    TimeSeries {
        title: vec![s("a"), s("b")],
        cost: vec![
            Some(Decimal { mantissa: 1, exponent: 0 }),
            Some(Decimal { mantissa: 2, exponent: 0 }),
        ],
        quality: vec![s("a"), s("b")],
        value: vec![Decimal { mantissa: 3, exponent: 0 }, Decimal { mantissa: 4, exponent: 0 }],
        tou: vec![1, 2],
        time_period_start_unix_ms: vec![3, 4],
        time_period_duration_seconds: vec![3, 4],
        accumulation_behaviour: vec![s("a"), s("b")],
        commodity: vec![s("a"), s("b")],
        currency: vec![s("a"), s("b")],
        data_qualifier: vec![s("a"), s("b")],
        flow_direction: vec![s("a"), s("b")],
        kind: vec![s("a"), s("b")],
        phase: vec![s("a"), s("b")],
        uom: vec![s("a"), s("b")],
    }
}

fn same(a: &TimeSeries, b: &TimeSeries) -> bool {
    a.title == b.title
        && a.cost == b.cost
        && a.quality == b.quality
        && a.value == b.value
        && a.tou == b.tou
        && a.time_period_start_unix_ms == b.time_period_start_unix_ms
        && a.time_period_duration_seconds == b.time_period_duration_seconds
        && a.accumulation_behaviour == b.accumulation_behaviour
        && a.commodity == b.commodity
        && a.currency == b.currency
        && a.data_qualifier == b.data_qualifier
        && a.flow_direction == b.flow_direction
        && a.kind == b.kind
        && a.phase == b.phase
        && a.uom == b.uom
}

#[test]
fn extend_is_associative_concatenation() {
    let a = || series(&["x", "y"], &[1, 2]);
    let b = || series(&["z"], &[3]);
    let c = || series(&["w", "v", "u"], &[4, 5, 6]);
    let mut left = a();
    left.extend(b());
    left.extend(c());
    let mut bc = b();
    bc.extend(c());
    let mut right = a();
    right.extend(bc);
    assert!(same(&left, &right));
    assert_eq!(left.title, vec!["x", "y", "z", "w", "v", "u"]);
    assert_eq!(left.time_period_start_unix_ms, vec![1, 2, 3, 4, 5, 6]);
    assert_eq!(left.quality, vec!["q0", "q1", "q0", "q0", "q1", "q2"]);
    assert_eq!(left.len(), 6);
}

#[test]
fn extend_with_empty_changes_nothing() {
    let mut t = series(&["x"], &[1]);
    t.extend(TimeSeries::new());
    assert!(same(&t, &series(&["x"], &[1])));
}

#[test]
fn sort_orders_by_title_then_start_moving_every_column() {
    let mut t = series(&["b", "a", "b", "a"], &[5, 9, 1, 2]);
    t.sort();
    assert_eq!(t.title, vec!["a", "a", "b", "b"]);
    assert_eq!(t.time_period_start_unix_ms, vec![2, 9, 1, 5]);
    assert_eq!(t.quality, vec!["q3", "q1", "q2", "q0"]);
    assert_eq!(t.tou, vec![3, 1, 2, 0]);
    assert_eq!(t.uom, vec!["m3", "m1", "m2", "m0"]);
}

#[test]
fn sort_is_stable_for_equal_keys() {
    let mut t = series(&["a", "a", "a"], &[7, 7, 1]);
    t.sort();
    assert_eq!(t.time_period_start_unix_ms, vec![1, 7, 7]);
    assert_eq!(t.quality, vec!["q2", "q0", "q1"]);
}

#[test]
fn sort_and_chunk_groups_titles_and_chunks_stay_sorted() {
    let t = series(&["b", "a", "c", "a", "b"], &[3, 2, 1, 1, 0]);
    let chunks = t.sort_and_chunk();
    assert_eq!(chunks.len(), 3);
    assert_eq!(chunks[0].title, vec!["a", "a"]);
    assert_eq!(chunks[0].time_period_start_unix_ms, vec![1, 2]);
    assert_eq!(chunks[1].title, vec!["b", "b"]);
    assert_eq!(chunks[1].time_period_start_unix_ms, vec![0, 3]);
    assert_eq!(chunks[2].title, vec!["c"]);
    for chunk in chunks {
        let mut again = chunk.clone();
        again.sort();
        assert!(same(&again, &chunk));
    }
}

#[test]
fn take_first_title_chunk_on_empty_is_none() {
    let mut t = TimeSeries::new();
    assert!(t.take_first_title_chunk().is_none());
}

#[test]
fn take_first_title_chunk_takes_the_leading_run() {
    let mut t = series(&["a", "a", "b", "a"], &[1, 2, 3, 4]);
    let chunk = t.take_first_title_chunk().unwrap();
    assert_eq!(chunk.title, vec!["a", "a"]);
    assert_eq!(t.title, vec!["b", "a"]);
    assert_eq!(t.time_period_start_unix_ms, vec![3, 4]);
}

#[test]
fn provider_fix_multiplies_cost_by_hundred() {
    let mut t = test_timeseries();
    t.cost[1] = None;
    t.fix_provider_bugs_if_needed("https://enova.example/espi/1_1/resource/Subscription/1");
    assert_eq!(t.cost, vec![Some(Decimal { mantissa: 1, exponent: 2 }), None]);
    assert_eq!(t.cost[0].unwrap().to_text(), "100");
    assert_eq!(t.value, test_timeseries().value);
}

#[test]
fn provider_fix_leaves_other_feeds_alone() {
    let mut t = test_timeseries();
    t.fix_provider_bugs_if_needed("https://utility.example/espi/1_1/resource/Subscription/1");
    assert_eq!(t.cost, test_timeseries().cost);
}

#[test]
fn has_cost_needs_a_given_nonzero_cost() {
    let mut t = test_timeseries();
    assert!(t.has_cost());
    t.cost = vec![None, Some(Decimal { mantissa: 0, exponent: -5 })];
    assert!(!t.has_cost());
}

#[test]
fn decimal_text_is_plain_and_shortest() {
    let d = |m: i64, e: i32| Decimal { mantissa: m, exponent: e }.to_text();
    assert_eq!(d(5, 3), "5000");
    assert_eq!(d(12345, -5), "0.12345");
    assert_eq!(d(-150, -2), "-1.5");
    assert_eq!(d(100000, -5), "1");
    assert_eq!(d(0, 7), "0");
    assert_eq!(d(7, -3), "0.007");
    assert_eq!(d(i64::MIN, 0), "-9223372036854775808");
}

#[test]
fn csv_has_header_and_one_line_per_row() {
    let csv = test_timeseries().as_csv().unwrap();
    assert_eq!(csv.lines().count(), 3);
    assert_eq!(
        csv,
        "title,cost,quality,value,tou,time_period_start_unix_ms,time_period_duration_seconds,\
accumulation_behaviour,commodity,currency,data_qualifier,flow_direction,kind,phase,uom\n\
a,1,a,3,1,3,3,a,a,a,a,a,a,a,a\n\
b,2,b,4,2,4,4,b,b,b,b,b,b,b,b\n"
    );
}

#[test]
fn csv_quotes_fields_that_need_it() {
    let mut t = test_timeseries();
    t.title[0] = s("a, \"b\"");
    let csv = t.as_csv().unwrap();
    assert!(csv.contains("\"a, \"\"b\"\"\",1,"));
}

#[test]
fn line_protocol_has_one_line_per_row() {
    let lines = test_timeseries().as_influxdb();
    assert_eq!(lines.lines().count(), 2);
    assert_eq!(
        lines.lines().next().unwrap(),
        "a,db=greenbutton,accumulation_behavior=a,commodity=a,currency=a,data_qualifier=a,\
flow_direction=a,kind=a,phase=a,uom=a quality=a,value=3,tou=1,time_period_duration_seconds=3,\
cost=1 3000000"
    );
}

#[test]
fn line_protocol_escapes_and_strips() {
    let mut t = test_timeseries();
    t.title[0] = s("My Home-Meter #1");
    t.uom[0] = s("kilo watt hours");
    t.cost = vec![None, None];
    let lines = t.as_influxdb();
    let first = lines.lines().next().unwrap();
    assert!(first.starts_with("My_HomeMeter_1,db=greenbutton,"));
    assert!(first.contains(",uom=kilo\\ watt\\ hours "));
    assert!(!first.contains("cost="));
}
