use dicom_dictionary::emit::{classify_tag, attribute_line, entry_line, is_retired, normal_vr, to_code};
use dicom_dictionary::extract::Entry;
use dicom_dictionary::header::Tag;
use dicom_dictionary::keyed::{compare_bytes, compare_texts, copy_entry, keyed_entries, put_entry, TextOrder};
use dicom_dictionary::tag_range::TagRange;

fn record(tag: &str, alias: Option<&str>, vr: Option<&str>, obs: Option<&str>) -> Entry {
    Entry {
        tag: tag.to_string(),
        name: Some("Some Name".to_string()),
        alias: alias.map(|text| text.to_string()),
        vr: vr.map(|text| text.to_string()),
        vm: Some("1".to_string()),
        obs: obs.map(|text| text.to_string()),
    }
}

#[test]
fn classify_takes_the_strict_form_only() {
    assert_eq!(classify_tag("(0010,0010)"), Some(TagRange::Single(Tag(0x0010, 0x0010))));
    assert_eq!(classify_tag("(7FE0,0010)"), Some(TagRange::Single(Tag(0x7FE0, 0x0010))));
    assert_eq!(classify_tag("(60xx,3000)"), Some(TagRange::Group100(Tag(0x6000, 0x3000))));
    assert_eq!(classify_tag("(0020,31xx)"), Some(TagRange::Element100(Tag(0x0020, 0x3100))));
    assert_eq!(classify_tag("(60xx,30xx)"), None);
    assert_eq!(classify_tag("(7fe0,0010)"), None);
    assert_eq!(classify_tag("7FE0,0010"), None);
    assert_eq!(classify_tag("(7FE0,0010"), None);
    assert_eq!(classify_tag("7FE0,0010)"), None);
    assert_eq!(classify_tag("[7FE0,0010]"), None);
    assert_eq!(classify_tag("(7FE0;0010)"), None);
    assert_eq!(classify_tag("(7FE0,0010) "), None);
    assert_eq!(classify_tag("(60x0,3000)"), None);
    assert_eq!(classify_tag("(600x,3000)"), None);
    assert_eq!(classify_tag("(xx60,3000)"), None);
    assert_eq!(classify_tag("(60XX,3000)"), None);
    assert_eq!(classify_tag(""), None);
    assert_eq!(classify_tag("(é010,0010)"), None);
}

#[test]
fn classify_reads_what_to_text_writes() {
    let ranges = [
        TagRange::Single(Tag(0xABCD, 0x0123)),
        TagRange::Group100(Tag(0x5000, 0x2000)),
        TagRange::Element100(Tag(0x0028, 0x0400)),
    ];
    for range in ranges.iter() {
        assert_eq!(classify_tag(range.to_text().as_str()), Some(*range));
    }
}

#[test]
fn retired_records_are_left_out_on_request() {
    let retired = record("(0008,0001)", Some("LengthToEnd"), Some("UL"), Some("RET"));
    assert!(is_retired(&retired));
    assert_eq!(entry_line(&retired, false), None);
    assert_eq!(
        entry_line(&retired, true),
        Some("    E { tag: Single(0x0008, 0x0001), alias: \"LengthToEnd\", vr: UL }, // RET\n".to_string())
    );
    let current = record("(0008,0005)", Some("SpecificCharacterSet"), Some("CS"), None);
    assert!(!is_retired(&current));
    assert_eq!(entry_line(&current, false), entry_line(&current, true));
    assert!(entry_line(&current, false).is_some());
    let noted = record("(0008,0005)", Some("SpecificCharacterSet"), Some("CS"), Some("RET (2007)"));
    assert!(!is_retired(&noted));
    assert!(entry_line(&noted, false).is_some());
}

#[test]
fn records_without_alias_or_range_are_left_out() {
    assert_eq!(entry_line(&record("(0008,0005)", None, Some("CS"), None), true), None);
    assert_eq!(entry_line(&record("(60xx,30xx)", Some("A"), Some("CS"), None), true), None);
    assert_eq!(entry_line(&record("(60xx,30xx)", Some("A"), Some("CS"), None), false), None);
    assert_eq!(entry_line(&record("(60xx,30xx)", Some("A"), Some("CS"), Some("RET")), true), None);
    assert_eq!(entry_line(&record("0008,0005", Some("A"), Some("CS"), None), true), None);
    assert_eq!(
        entry_line(&record("(60xx,3000)", Some("OverlayData"), Some("OB or OW"), None), false),
        Some("    E { tag: Group100(0x6000, 0x3000), alias: \"OverlayData\", vr: OB /* or OW */ },\n".to_string())
    );
    assert_eq!(
        entry_line(&record("(0020,31xx)", Some("SourceImageIDs"), Some("CS"), Some("RET")), true),
        Some("    E { tag: Element100(0x0020, 0x3100), alias: \"SourceImageIDs\", vr: CS }, // RET\n".to_string())
    );
}

#[test]
fn value_representation_is_made_normal() {
    assert_eq!(normal_vr(&Some("See Note".to_string())), "UN See Note");
    assert_eq!(normal_vr(&Some("See Note 2".to_string())), "See Note 2");
    assert_eq!(normal_vr(&Some("PN".to_string())), "PN");
    assert_eq!(normal_vr(&None), "");
    let range = TagRange::Single(Tag(0xFFFE, 0xE000));
    assert_eq!(
        attribute_line(range, "Item", "UN See Note", &None),
        "    E { tag: Single(0xFFFE, 0xE000), alias: \"Item\", vr: UN /* See Note */ },\n"
    );
    assert_eq!(
        attribute_line(range, "Item", "U", &Some(String::new())),
        "    E { tag: Single(0xFFFE, 0xE000), alias: \"Item\", vr: U },\n"
    );
    assert_eq!(
        attribute_line(range, "Item", "", &Some("note".to_string())),
        "    E { tag: Single(0xFFFE, 0xE000), alias: \"Item\", vr:  }, // note\n"
    );
}

#[test]
fn code_lists_surviving_records_in_order() {
    let entries = vec![
        record("(0010,0010)", Some("PatientName"), Some("PN"), None),
        record("(0008,0001)", Some("LengthToEnd"), Some("UL"), Some("RET")),
        record("(60xx,30xx)", Some("Both"), Some("OB"), None),
        record("(0008,0002)", None, None, None),
        record("(FFFE,E000)", Some("Item"), Some("See Note"), None),
    ];
    let header = "//! Automatically generated. Edit at your own risk.\n\nuse dicom_core::dictionary::{DictionaryEntryRef, TagRange::*};\nuse dicom_core::Tag;\nuse dicom_core::VR::*;\n\ntype E = DictionaryEntryRef<'static>;\n\n#[rustfmt::skip]\npub const ENTRIES: &[E] = &[\n";
    let name = "    E { tag: Single(0x0010, 0x0010), alias: \"PatientName\", vr: PN },\n";
    let length = "    E { tag: Single(0x0008, 0x0001), alias: \"LengthToEnd\", vr: UL }, // RET\n";
    let item = "    E { tag: Single(0xFFFE, 0xE000), alias: \"Item\", vr: UN /* See Note */ },\n";
    assert_eq!(to_code(&entries, true), format!("{}{}{}{}];\n", header, name, length, item));
    assert_eq!(to_code(&entries, false), format!("{}{}{}];\n", header, name, item));
    assert_eq!(to_code(&Vec::new(), true), format!("{}];\n", header));
}

#[test]
fn texts_are_ordered_by_their_bytes() {
    assert_eq!(compare_bytes(b"", b""), TextOrder::Same);
    assert_eq!(compare_bytes(b"", b"a"), TextOrder::Before);
    assert_eq!(compare_bytes(b"a", b""), TextOrder::After);
    assert_eq!(compare_bytes(b"ab", b"b"), TextOrder::Before);
    assert_eq!(compare_bytes(b"b", b"ab"), TextOrder::After);
    assert_eq!(compare_bytes(b"ab", b"abc"), TextOrder::Before);
    assert_eq!(compare_bytes(b"abd", b"abc"), TextOrder::After);
    assert_eq!(compare_texts("(0008,0001)", "(0008,0001)"), TextOrder::Same);
    assert_eq!(compare_texts("(0008,0001)", "(0008,0010)"), TextOrder::Before);
    assert_eq!(compare_texts("(60xx,3000)", "(6000,3000)"), TextOrder::After);
    assert_eq!(compare_texts("z", "é"), TextOrder::Before);
}

#[test]
fn keyed_entries_are_ordered_and_the_later_record_wins() {
    let first = record("(0010,0010)", Some("First"), Some("PN"), None);
    let second = record("(0008,0001)", Some("Second"), Some("UL"), None);
    let third = record("(0010,0010)", Some("Third"), Some("LO"), Some("RET"));
    let fourth = record("(60xx,3000)", Some("Fourth"), Some("OB"), None);
    let fifth = record("(0009,0001)", None, None, None);
    let entries = vec![first.clone(), second.clone(), third.clone(), fourth.clone(), fifth.clone()];
    assert_eq!(keyed_entries(&entries), vec![second.clone(), fifth.clone(), third.clone(), fourth.clone()]);
    assert_eq!(keyed_entries(&Vec::new()), Vec::new());
    assert_eq!(copy_entry(&third), third);
    let mut list = vec![second.clone(), third.clone()];
    put_entry(&mut list, first.clone());
    assert_eq!(list, vec![second.clone(), first.clone()]);
    put_entry(&mut list, fourth.clone());
    assert_eq!(list, vec![second, first, fourth]);
}
