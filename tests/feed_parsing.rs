use personalgreenbutton::{
    all_text, get_gb_type_details, get_meter_reading, parse_entry, parse_local_time_parameters,
    parse_nodes, parse_xml, strip_espi_prefix, CodeLookup, Decimal, Entries, EntryType,
    GreenButtonError, IntervalReadings, LocalTimeParameters, ReadingTypes,
};

const LTP_ENTRY: &str = r#"<entry>
    <link rel="self" href="HREF_BASE/LocalTimeParameters/1"/>
    <title>DST For North American Eastern Timezone</title>
    <content><LocalTimeParameters xmlns="http://naesb.org/espi">
      <dstEndRule>B40E2000</dstEndRule>
      <dstOffset>3600</dstOffset>
      <dstStartRule>360E2000</dstStartRule>
      <tzOffset>-18000</tzOffset>
    </LocalTimeParameters></content>
    <published>2012-10-24T00:00:00Z</published>
    <updated>2012-10-24T00:00:00Z</updated>
  </entry>"#;

const METER_ENTRY: &str = r#"<entry>
    <link rel="self" href="HREF_BASE/UsagePoint/1/MeterReading/1"/>
    <link rel="related" href="HREF_BASE/ReadingType/7" type="espi-entry/ReadingType"/>
    <title>Meter</title>
    <content><MeterReading xmlns="http://naesb.org/espi"/></content>
    <published>2012-10-24T00:00:00Z</published>
    <updated>2012-10-24T00:00:00Z</updated>
  </entry>"#;

const TYPE_ENTRY: &str = r#"<entry>
    <link rel="self" href="HREF_BASE/ReadingType/7"/>
    <title>Type</title>
    <content><ReadingType xmlns="http://naesb.org/espi">
      <accumulationBehaviour>4</accumulationBehaviour>
      <commodity>1</commodity>
      <currency>840</currency>
      <dataQualifier>12</dataQualifier>
      <flowDirection>1</flowDirection>
      <kind>12</kind>
      <powerOfTenMultiplier>3</powerOfTenMultiplier>
      <uom>72</uom>
    </ReadingType></content>
    <published>2012-10-24T00:00:00Z</published>
    <updated>2012-10-24T00:00:00Z</updated>
  </entry>"#;

const BLOCK_ENTRY: &str = r#"<entry>
    <link rel="self" href="HREF_BASE/UsagePoint/1/MeterReading/1/IntervalBlock/1"/>
    <title>Home Usage</title>
    <content><IntervalBlock xmlns="http://naesb.org/espi">
      <interval><duration>7200</duration><start>1330578000</start></interval>
      <IntervalReading>
        <cost>12345</cost>
        <timePeriod><duration>3600</duration><start>1330578000</start></timePeriod>
        <value>5</value>
      </IntervalReading>
      <IntervalReading>
        <ReadingQuality><quality>17</quality></ReadingQuality>
        <timePeriod><duration>3600</duration><start>1330581600</start></timePeriod>
        <value>7</value>
        <tou>2</tou>
      </IntervalReading>
    </IntervalBlock></content>
    <published>2012-10-24T00:00:00Z</published>
    <updated>2012-10-24T00:00:00Z</updated>
  </entry>"#;

fn feed(base: &str, entries: &[&str]) -> String {
    let body: Vec<String> = entries.iter().map(|e| e.replace("HREF_BASE", base)).collect();
    format!(
        "<?xml version=\"1.0\" encoding=\"UTF-8\"?>\n<feed xmlns=\"http://www.w3.org/2005/Atom\">\n{}\n</feed>\n",
        body.join("\n")
    )
}

const BASE: &str = "https://utility.example/espi/1_1/resource/Subscription/5";

fn lookup() -> CodeLookup {
    let mut l = CodeLookup::new();
    l.insert("".into(), "QualityOfReading".into(), 17, "validated".into(), "Validated data".into());
    l.insert("ReadingType".into(), "uom".into(), 72, "Wh".into(), "Watt-hours".into());
    l
}

#[test]
fn parses_a_feed_into_one_row_per_reading() {
    let xml = feed(BASE, &[LTP_ENTRY, METER_ENTRY, TYPE_ENTRY, BLOCK_ENTRY]);
    let ts = parse_xml(&xml, &lookup()).unwrap();
    assert_eq!(ts.len(), 2);
    assert_eq!(ts.title, vec!["Home Usage", "Home Usage"]);
    assert_eq!(ts.cost, vec![Some(Decimal { mantissa: 12345, exponent: -5 }), None]);
    assert_eq!(ts.cost[0].unwrap().to_text(), "0.12345");
    assert_eq!(ts.value, vec![Decimal { mantissa: 5, exponent: 3 }, Decimal { mantissa: 7, exponent: 3 }]);
    assert_eq!(ts.value[0].to_text(), "5000");
    assert_eq!(ts.quality, vec!["Missing app info", "validated"]);
    assert_eq!(ts.tou, vec![0, 2]);
    assert_eq!(ts.time_period_start_unix_ms, vec![1330578000, 1330581600]);
    assert_eq!(ts.time_period_duration_seconds, vec![3600, 3600]);
    assert_eq!(ts.uom, vec!["Wh", "Wh"]);
    assert_eq!(ts.kind, vec!["Missing app info", "Missing app info"]);
}

#[test]
fn known_buggy_provider_gets_costs_times_hundred() {
    let base = "https://enova.example/espi/1_1/resource/Subscription/5";
    let xml = feed(base, &[LTP_ENTRY, METER_ENTRY, TYPE_ENTRY, BLOCK_ENTRY]);
    let ts = parse_xml(&xml, &lookup()).unwrap();
    assert_eq!(ts.cost, vec![Some(Decimal { mantissa: 12345, exponent: -3 }), None]);
    assert_eq!(ts.cost[0].unwrap().to_text(), "12.345");
}

#[test]
fn entry_order_does_not_matter_for_linking() {
    let xml = feed(BASE, &[BLOCK_ENTRY, TYPE_ENTRY, LTP_ENTRY, METER_ENTRY]);
    let ts = parse_xml(&xml, &lookup()).unwrap();
    assert_eq!(ts.len(), 2);
    assert_eq!(ts.uom, vec!["Wh", "Wh"]);
}

#[test]
fn duplicate_interval_blocks_are_all_read() {
    let doubled = BLOCK_ENTRY.replace(
        "</IntervalBlock></content>",
        "</IntervalBlock><IntervalBlock xmlns=\"http://naesb.org/espi\"><IntervalReading><timePeriod><duration>60</duration><start>1</start></timePeriod><value>9</value></IntervalReading></IntervalBlock></content>",
    );
    let xml = feed(BASE, &[LTP_ENTRY, METER_ENTRY, TYPE_ENTRY, &doubled]);
    let ts = parse_xml(&xml, &lookup()).unwrap();
    assert_eq!(ts.len(), 3);
    assert_eq!(ts.time_period_start_unix_ms, vec![1330578000, 1330581600, 1]);
}

#[test]
fn missing_local_time_parameters_is_an_error() {
    let xml = feed(BASE, &[METER_ENTRY, TYPE_ENTRY, BLOCK_ENTRY]);
    assert_eq!(parse_xml(&xml, &lookup()).err(), Some(GreenButtonError::MissingLocalTimeParameters));
}

#[test]
fn several_local_time_parameters_are_an_error() {
    let second = LTP_ENTRY.replace("LocalTimeParameters/1", "LocalTimeParameters/2");
    let xml = feed(BASE, &[LTP_ENTRY, &second, METER_ENTRY, TYPE_ENTRY, BLOCK_ENTRY]);
    assert_eq!(parse_xml(&xml, &lookup()).err(), Some(GreenButtonError::MultipleLocalTimeParameters));
}

#[test]
fn reading_without_reading_type_is_an_error() {
    let xml = feed(BASE, &[LTP_ENTRY, METER_ENTRY.replace("ReadingType/7", "ReadingType/8").as_str(), TYPE_ENTRY, BLOCK_ENTRY]);
    assert_eq!(
        parse_xml(&xml, &lookup()).err(),
        Some(GreenButtonError::UnresolvedHref(format!("{}/ReadingType/8", BASE)))
    );
    let unrelated = BLOCK_ENTRY.replace("/MeterReading/1/IntervalBlock/1", "/IntervalBlock/1");
    let xml = feed(BASE, &[LTP_ENTRY, METER_ENTRY, TYPE_ENTRY, &unrelated]);
    assert_eq!(parse_xml(&xml, &lookup()).err(), Some(GreenButtonError::MissingReadingType));
}

#[test]
fn unknown_content_is_an_error() {
    let odd = METER_ENTRY.replace("<MeterReading xmlns=\"http://naesb.org/espi\"/>", "<Mystery/>");
    let xml = feed(BASE, &[LTP_ENTRY, &odd]);
    assert_eq!(
        parse_xml(&xml, &lookup()).err(),
        Some(GreenButtonError::UnknownContentTag("Mystery".to_string()))
    );
}

#[test]
fn mixed_content_is_an_error() {
    let mixed = METER_ENTRY.replace(
        "<MeterReading xmlns=\"http://naesb.org/espi\"/>",
        "<MeterReading xmlns=\"http://naesb.org/espi\"/><ReadingType xmlns=\"http://naesb.org/espi\"/>",
    );
    let xml = feed(BASE, &[LTP_ENTRY, &mixed]);
    assert_eq!(parse_xml(&xml, &lookup()).err(), Some(GreenButtonError::MixedContent));
}

#[test]
fn malformed_number_is_an_error() {
    let bad = BLOCK_ENTRY.replace("<value>5</value>", "<value>5x</value>");
    let xml = feed(BASE, &[LTP_ENTRY, METER_ENTRY, TYPE_ENTRY, &bad]);
    assert_eq!(
        parse_xml(&xml, &lookup()).err(),
        Some(GreenButtonError::InvalidNumber("5x".to_string()))
    );
}

#[test]
fn missing_start_time_is_an_error() {
    let bad = BLOCK_ENTRY.replace("<start>1330578000</start></timePeriod>", "</timePeriod>");
    let xml = feed(BASE, &[LTP_ENTRY, METER_ENTRY, TYPE_ENTRY, &bad]);
    assert_eq!(parse_xml(&xml, &lookup()).err(), Some(GreenButtonError::MissingStartTime));
}

#[test]
fn bad_timestamp_is_an_error() {
    let bad = METER_ENTRY.replacen("2012-10-24T00:00:00Z", "yesterday", 1);
    let xml = feed(BASE, &[LTP_ENTRY, &bad]);
    assert_eq!(
        parse_xml(&xml, &lookup()).err(),
        Some(GreenButtonError::InvalidTimestamp("yesterday".to_string()))
    );
}

#[test]
fn not_xml_and_no_feed_are_errors() {
    assert_eq!(parse_xml("<feed>", &lookup()).err(), Some(GreenButtonError::MalformedXml));
    assert_eq!(parse_xml("<other/>", &lookup()).err(), Some(GreenButtonError::MissingFeed));
}

#[test]
fn all_text_joins_trimmed_descendant_texts() {
    let nodes = parse_nodes("<a> 1 <b>\n 2 </b><c/>3</a>").unwrap();
    assert_eq!(all_text(&nodes, 1), "123");
}

#[test]
fn meter_reading_prefix_comes_from_the_self_href() {
    assert_eq!(
        get_meter_reading("https://x/UsagePoint/1/MeterReading/42/IntervalBlock/1"),
        Some("https://x/UsagePoint/1/MeterReading/42".to_string())
    );
    assert_eq!(get_meter_reading("https://x/UsagePoint/1/MeterReading/42"), None);
}

#[test]
fn strip_espi_prefix_drops_the_namespace_length() {
    assert_eq!(strip_espi_prefix("value"), "value");
    assert_eq!(strip_espi_prefix("{http://naesb.org/espi}value"), "value");
}

#[test]
fn code_lookup_gives_label_or_sentinels() {
    let l = lookup();
    let found = get_gb_type_details(&l, "ReadingType", "uom", 72);
    assert_eq!(found.app_info, "Wh");
    assert_eq!(found.description, "Watt-hours");
    let missing = get_gb_type_details(&l, "ReadingType", "uom", 73);
    assert_eq!(missing.app_info, "Missing app info");
    assert_eq!(missing.description, "Missing description");
}

#[test]
fn local_time_parameters_read_hex_rules_and_offsets() {
    let xml = "<LocalTimeParameters><dstEndRule>B40E2000</dstEndRule><dstOffset>3600</dstOffset>\
<dstStartRule>360e2000</dstStartRule><tzOffset>-18000</tzOffset></LocalTimeParameters>";
    let nodes = parse_nodes(xml).unwrap();
    let ltp = parse_local_time_parameters(LocalTimeParameters::default(), &nodes, 1).unwrap();
    assert_eq!(ltp.dst_start_rule, vec![0x360E_2000]);
    assert_eq!(ltp.dst_end_rule, vec![0xB40E_2000]);
    assert_eq!(ltp.dst_offset, vec![3600]);
    assert_eq!(ltp.tz_offset, vec![-18000]);

    let missing = "<LocalTimeParameters><dstOffset>3600</dstOffset></LocalTimeParameters>";
    let nodes = parse_nodes(missing).unwrap();
    assert_eq!(
        parse_local_time_parameters(LocalTimeParameters::default(), &nodes, 1).err(),
        Some(GreenButtonError::MissingField { field: "dst_start_rule", table: "LocalTimeParameters" })
    );
}

#[test]
fn entry_reads_title_timestamps_and_links() {
    let xml = METER_ENTRY.replace("HREF_BASE", BASE).replacen(
        "2012-10-24T00:00:00Z",
        "2012-10-24T01:00:00-04:00",
        1,
    );
    let nodes = parse_nodes(&xml).unwrap();
    let (entries, readings, types, ltp) = parse_entry(
        Entries::default(),
        IntervalReadings::default(),
        ReadingTypes::default(),
        LocalTimeParameters::default(),
        &nodes,
        1,
        0,
    )
    .unwrap();
    assert_eq!(entries.len(), 1);
    assert_eq!(entries.entry_type, vec![EntryType::Other]);
    assert_eq!(entries.title, vec!["Meter"]);
    assert_eq!(entries.href, vec![format!("{}/UsagePoint/1/MeterReading/1", BASE)]);
    assert_eq!(entries.related_reading_type_entry_href, vec![format!("{}/ReadingType/7", BASE)]);
    assert_eq!(entries.related_meter_reading_entry_href, vec![""]);
    // The written local time, read as if it were UTC.
    assert_eq!(entries.published_unix_ms, vec![1351040400]);
    assert_eq!(entries.updated_unix_ms, vec![1351036800]);
    assert_eq!((readings.len(), types.len(), ltp.len()), (0, 0, 0));
}

#[test]
fn strip_espi_prefix_counts_bytes() {
    let name = format!("é{}bcd", "a".repeat(21));
    assert_eq!(strip_espi_prefix(&name), "bcd");
    let split = format!("{}éx", "a".repeat(22));
    assert_eq!(strip_espi_prefix(&split), split.as_str());
}
