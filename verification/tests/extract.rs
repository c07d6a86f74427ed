use dicom_dictionary::extract::{Entry, XmlEntryIterator};

const ONE_ROW: &str = r#"<?xml version="1.0" encoding="utf-8"?>
<book xmlns="http://docbook.org/ns/docbook">
  <chapter>
    <table frame="box" xml:id="table_6-1">
      <caption>Registry of Data Elements</caption>
      <thead>
        <tr><th><para>Tag</para></th><th><para>Name</para></th></tr>
      </thead>
      <tbody>
        <tr>
          <td><para>(0010,0010)</para></td>
          <td><para>Patient's Name</para></td>
          <td><para>Patient&#8203;Name</para></td>
          <td><para>PN</para></td>
          <td><para>1</para></td>
          <td><para>See Note 1</para></td>
        </tr>
      </tbody>
    </table>
  </chapter>
</book>"#;

#[test]
fn one_row_table_yields_one_record() {
    let mut entries = XmlEntryIterator::new(ONE_ROW.as_bytes().to_vec());
    let first = entries.next().expect("a record").expect("no failure");
    assert_eq!(
        first,
        Entry {
            tag: "(0010,0010)".to_string(),
            name: Some("Patient's Name".to_string()),
            alias: Some("PatientName".to_string()),
            vr: Some("PN".to_string()),
            vm: Some("1".to_string()),
            obs: Some("See Note 1".to_string()),
        }
    );
    assert!(entries.next().is_none());
    assert!(entries.next().is_none());
}

#[test]
fn other_table_yields_no_record() {
    let document = ONE_ROW.replace("table_6-1", "table_7-1");
    let items = XmlEntryIterator::new(document.into_bytes()).collect();
    assert!(items.is_empty());
}

use dicom_dictionary::extract::{
    find_target, local_name, Step, TableScanner, XmlError, XmlErrorKind, XmlReadingState,
};
use dicom_dictionary::xml::XmlAttribute;

fn table(rows: &str) -> Vec<u8> {
    let mut document = String::from("<book><table xml:id=\"table_6-1\"><thead><tr><th><para>Tag</para></th></tr></thead><tbody>");
    document.push_str(rows);
    document.push_str("</tbody></table></book>");
    document.into_bytes()
}

fn record(tag: &str, alias: Option<&str>, obs: Option<&str>) -> Entry {
    Entry {
        tag: tag.to_string(),
        name: Some("Name".to_string()),
        alias: alias.map(|text| text.to_string()),
        vr: Some("CS".to_string()),
        vm: Some("1".to_string()),
        obs: obs.map(|text| text.to_string()),
    }
}

#[test]
fn rows_come_in_the_order_of_the_table() {
    let rows = "<tr><td><para>(0008,0001)</para></td><td><para>Name</para></td><td><para>LengthToEnd</para></td><td><para>CS</para></td><td><para>1</para></td><td><para>RET</para></td></tr>\
                <tr><td><para>(0008,0005)</para></td><td><para>Name</para></td><td><para/></td><td><para>CS</para></td><td><para>1</para></td><td><para/></td></tr>";
    let items = XmlEntryIterator::new(table(rows)).collect();
    assert_eq!(
        items,
        vec![
            Ok(record("(0008,0001)", Some("LengthToEnd"), Some("RET"))),
            Ok(record("(0008,0005)", None, None)),
        ]
    );
}

#[test]
fn text_is_unescaped_and_later_text_of_a_cell_wins() {
    let rows = "<tr><td><para>(0008,0001)</para></td><td><para>A &amp; B &#x3c;</para></td><td><para>first<emphasis>second</emphasis></para></td></tr>";
    let items = XmlEntryIterator::new(table(rows)).collect();
    assert_eq!(
        items,
        vec![Ok(Entry {
            tag: "(0008,0001)".to_string(),
            name: Some("A & B <".to_string()),
            alias: Some("second".to_string()),
            vr: None,
            vm: None,
            obs: None,
        })]
    );
}

#[test]
fn cells_after_the_sixth_are_passed_over() {
    let rows = "<tr><td><para>(0008,0001)</para></td><td><para>Name</para></td><td><para>Alias</para></td><td><para>CS</para></td><td><para>1</para></td><td><para>RET</para></td><td><para>seventh</para></td><td><para>eighth</para></td></tr>";
    let items = XmlEntryIterator::new(table(rows)).collect();
    assert_eq!(items, vec![Ok(record("(0008,0001)", Some("Alias"), Some("RET")))]);
}

#[test]
fn row_without_tag_gives_no_record_and_the_next_row_is_read() {
    let rows = "<tr><td><para/></td><td><para>Skipped</para></td></tr>\
                <tr><td><para>(0008,0005)</para></td></tr>";
    let items = XmlEntryIterator::new(table(rows)).collect();
    assert_eq!(
        items,
        vec![Ok(Entry {
            tag: "(0008,0005)".to_string(),
            name: Some("Skipped".to_string()),
            alias: None,
            vr: None,
            vm: None,
            obs: None,
        })]
    );
}

#[test]
fn nothing_is_read_after_the_end_of_the_body() {
    let mut document = table("<tr><td><para>(0008,0001)</para></td></tr>");
    document.extend_from_slice(b"<tr><td><para>(0008,0002)</para></td></tr>");
    let mut entries = XmlEntryIterator::new(document);
    assert_eq!(entries.next().map(|item| item.map(|entry| entry.tag)), Some(Ok("(0008,0001)".to_string())));
    assert_eq!(entries.next(), None);
    assert_eq!(entries.next(), None);
}

#[test]
fn empty_document_yields_nothing() {
    assert!(XmlEntryIterator::new(Vec::new()).collect().is_empty());
    assert_eq!(XmlEntryIterator::new(b"  \n ".to_vec()).next(), None);
}

#[test]
fn reader_failure_is_reported_once_and_ends_the_sequence() {
    let document = b"<book><chapter></book><table xml:id=\"table_6-1\"/>".to_vec();
    let mut entries = XmlEntryIterator::new(document);
    match entries.next() {
        Some(Err(XmlError { kind: XmlErrorKind::Reader, message })) => {
            assert_eq!(message, "Expecting </chapter> found </book>");
        }
        other => panic!("unexpected item {:?}", other),
    }
    assert_eq!(entries.next(), None);
}

#[test]
fn malformed_attribute_of_a_table_is_reported_and_reading_goes_on() {
    let mut document = b"<book><table xml:id=table_6-1></table>".to_vec();
    document.extend_from_slice(&table("<tr><td><para>(0008,0001)</para></td></tr>")[6..]);
    let items = XmlEntryIterator::new(document).collect();
    assert_eq!(items.len(), 2);
    match &items[0] {
        Err(XmlError { kind: XmlErrorKind::Attribute, message }) => {
            assert!(message.contains("Attribute value must start with a quote"));
        }
        other => panic!("unexpected item {:?}", other),
    }
    assert_eq!(items[1].as_ref().map(|entry| entry.tag.as_str()), Ok("(0008,0001)"));
}

#[test]
fn text_that_cannot_be_unescaped_is_reported_in_a_cell_only() {
    let mut document = b"<book><para>&bogus;</para>".to_vec();
    document.extend_from_slice(&table("<tr><td><para>&bogus;</para></td><td><para>Name</para></td></tr><tr><td><para>(0008,0001)</para></td></tr>")[6..]);
    let items = XmlEntryIterator::new(document).collect();
    assert_eq!(items.len(), 2);
    match &items[0] {
        Err(XmlError { kind: XmlErrorKind::Text, .. }) => {}
        other => panic!("unexpected item {:?}", other),
    }
    assert_eq!(
        items[1],
        Ok(Entry {
            tag: "(0008,0001)".to_string(),
            name: Some("Name".to_string()),
            alias: None,
            vr: None,
            vm: None,
            obs: None,
        })
    );
}

#[test]
fn identifier_is_found_among_other_attributes() {
    let document = b"<d:table frame=\"all\" xml:id=\"table_6-1\" rules=\"all\"><tbody><tr><td><d:para>(0008,0001)</d:para></td></tr></tbody></d:table>".to_vec();
    let items = XmlEntryIterator::new(document).collect();
    assert_eq!(items.len(), 1);
    let document = b"<table id=\"table_6-1\" xml:id=\"table_6-10\"><tbody><tr><td><para>(0008,0001)</para></td></tr></tbody></table>".to_vec();
    assert!(XmlEntryIterator::new(document).collect().is_empty());
}

#[test]
fn local_name_drops_the_prefix() {
    assert_eq!(local_name(b"table"), b"table");
    assert_eq!(local_name(b"d:table"), b"table");
    assert_eq!(local_name(b"a:b:c"), b"b:c");
    assert_eq!(local_name(b":"), b"");
    assert_eq!(local_name(b""), b"");
}

fn attribute(key: &str, value: &str) -> Result<XmlAttribute, String> {
    Ok(XmlAttribute { key: key.as_bytes().to_vec(), value: value.as_bytes().to_vec() })
}

#[test]
fn find_target_stops_at_the_first_hit() {
    assert_eq!(find_target(&vec![]), None);
    assert_eq!(find_target(&vec![attribute("frame", "box")]), None);
    assert_eq!(find_target(&vec![attribute("xml:id", "table_6-2")]), None);
    assert_eq!(find_target(&vec![attribute("id", "table_6-1")]), None);
    assert_eq!(
        find_target(&vec![attribute("frame", "box"), attribute("xml:id", "table_6-1")]),
        Some(Ok(()))
    );
    assert_eq!(
        find_target(&vec![attribute("xml:id", "table_6-1"), Err("bad".to_string())]),
        Some(Ok(()))
    );
    assert_eq!(
        find_target(&vec![Err("bad".to_string()), attribute("xml:id", "table_6-1")]),
        Some(Err("bad".to_string()))
    );
}

#[test]
fn scanner_walks_through_the_states() {
    let mut scanner = TableScanner::new();
    assert_eq!(scanner.state(), XmlReadingState::Off);
    assert!(!scanner.is_finished());
    assert!(scanner.reads_attributes(b"table"));
    assert!(!scanner.reads_attributes(b"tbody"));
    assert_eq!(scanner.start(b"table", &vec![attribute("xml:id", "other")]), Step::Continue);
    assert_eq!(scanner.state(), XmlReadingState::Off);
    assert_eq!(scanner.end(b"tbody"), Step::Continue);
    assert!(!scanner.is_finished());
    assert_eq!(scanner.text(Ok("ignored".to_string())), Step::Continue);
    assert_eq!(scanner.text(Err("ignored".to_string())), Step::Continue);
    assert_eq!(
        scanner.start(b"table", &vec![Err("bad".to_string())]),
        Step::Failure(XmlError { kind: XmlErrorKind::Attribute, message: "bad".to_string() })
    );
    assert_eq!(scanner.state(), XmlReadingState::Off);
    assert_eq!(scanner.start(b"table", &vec![attribute("xml:id", "table_6-1")]), Step::Continue);
    assert_eq!(scanner.state(), XmlReadingState::InTableHead);
    assert!(!scanner.reads_attributes(b"table"));
    assert_eq!(scanner.start(b"para", &vec![]), Step::Continue);
    assert_eq!(scanner.state(), XmlReadingState::InTableHead);
    assert_eq!(scanner.end(b"tr"), Step::Continue);
    assert_eq!(scanner.state(), XmlReadingState::InTableHead);
    assert_eq!(scanner.start(b"tbody", &vec![]), Step::Continue);
    assert_eq!(scanner.state(), XmlReadingState::InTable);
    assert!(!scanner.in_cell());
    let states = [
        XmlReadingState::InCellTag,
        XmlReadingState::InCellName,
        XmlReadingState::InCellKeyword,
        XmlReadingState::InCellVR,
        XmlReadingState::InCellVM,
        XmlReadingState::InCellObs,
    ];
    let texts = ["(0010,\u{200b}0010)", "Patient's Name", "Patient\u{200b}Name", "PN", "1", "RET"];
    for (state, text) in states.iter().zip(texts.iter()) {
        assert_eq!(scanner.start(b"td", &vec![]), Step::Continue);
        assert_eq!(scanner.start(b"para", &vec![]), Step::Continue);
        assert_eq!(scanner.state(), *state);
        assert!(scanner.in_cell());
        assert_eq!(scanner.text(Ok(text.to_string())), Step::Continue);
        assert_eq!(scanner.end(b"para"), Step::Continue);
        assert_eq!(scanner.end(b"td"), Step::Continue);
    }
    assert_eq!(scanner.start(b"para", &vec![]), Step::Continue);
    assert_eq!(scanner.state(), XmlReadingState::InCellUnknown);
    assert_eq!(scanner.start(b"para", &vec![]), Step::Continue);
    assert_eq!(scanner.state(), XmlReadingState::InCellUnknown);
    assert_eq!(scanner.text(Ok("ignored".to_string())), Step::Continue);
    assert_eq!(
        scanner.end(b"tr"),
        Step::Record(Entry {
            tag: "(0010,0010)".to_string(),
            name: Some("Patient's Name".to_string()),
            alias: Some("PatientName".to_string()),
            vr: Some("PN".to_string()),
            vm: Some("1".to_string()),
            obs: Some("RET".to_string()),
        })
    );
    assert_eq!(scanner.state(), XmlReadingState::InTable);
    assert_eq!(scanner.start(b"para", &vec![]), Step::Continue);
    assert_eq!(
        scanner.text(Err("bad".to_string())),
        Step::Failure(XmlError { kind: XmlErrorKind::Text, message: "bad".to_string() })
    );
    assert_eq!(scanner.start(b"para", &vec![]), Step::Continue);
    assert_eq!(scanner.end(b"tr"), Step::Continue);
    assert_eq!(scanner.state(), XmlReadingState::InTable);
    assert_eq!(scanner.end(b"tbody"), Step::Stop);
    assert!(scanner.is_finished());
    let mut other = TableScanner::new();
    other.finish();
    assert!(other.is_finished());
}
