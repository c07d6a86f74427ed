use dicom_dictionary::dictionary::{
    DataDictionary, DictionaryEntry, DictionaryEntryBuf, DictionaryEntryRef, TagByName,
};
use dicom_dictionary::entries::{meta_entries, single, standard_entries};
use dicom_dictionary::header::{Tag, VR};
use dicom_dictionary::registry::{
    init_dictionary, tag_number, text_number, StandardDataDictionary, StandardDictionaryRegistry,
};
use dicom_dictionary::tag_range::TagRange;

// tests for just a few attributes to make sure that the entries
// were well installed into the crate
#[test]
fn smoke_test() {
    let dict = StandardDataDictionary::default();

    assert_eq!(
        dict.by_name("PatientName"),
        Some(&DictionaryEntryRef {
            tag: TagRange::Single(Tag(0x0010, 0x0010)),
            alias: "PatientName",
            vr: VR::PN,
        })
    );

    assert_eq!(
        dict.by_name("Modality"),
        Some(&DictionaryEntryRef {
            tag: TagRange::Single(Tag(0x0008, 0x0060)),
            alias: "Modality",
            vr: VR::CS,
        })
    );

    let pixel_data = dict.by_tag(Tag(0x7FE0, 0x0010))
        .expect("Pixel Data attribute should exist");
    assert_eq!(pixel_data.tag, TagRange::Single(Tag(0x7FE0, 0x0010)));
    assert_eq!(pixel_data.alias, "PixelData");
    assert!(pixel_data.vr == VR::OB || pixel_data.vr == VR::OW);
}

#[test]
fn standard_dictionary_holds_meta_entries() {
    let dict = StandardDataDictionary::new();
    let entry = dict.by_name("TransferSyntaxUID").expect("a meta entry");
    assert_eq!(entry.tag, TagRange::Single(Tag(0x0002, 0x0010)));
    assert_eq!(entry.vr, VR::UI);
    let entry = dict.by_tag(Tag(0x0002, 0x0000)).expect("a meta entry");
    assert_eq!(entry.alias, "FileMetaInformationGroupLength");
    assert_eq!(dict.by_name("patientname"), None);
    assert_eq!(dict.by_name(""), None);
    assert_eq!(dict.by_tag(Tag(0x0010, 0x0011)), None);
    assert_eq!(dict.to_text(), "Standard DICOM Data Dictionary");
}

#[test]
fn every_entry_is_found_by_alias_and_by_tag() {
    let registry = init_dictionary();
    let mut all = standard_entries();
    all.extend(meta_entries());
    assert_eq!(all.len(), 69);
    for entry in all.iter() {
        assert_eq!(registry.by_name(entry.alias), Some(entry));
        assert_eq!(registry.by_tag(entry.tag.inner()), Some(entry));
    }
}

#[test]
fn later_entry_wins() {
    let registry = StandardDictionaryRegistry::new();
    assert_eq!(registry.by_name("A"), None);
    assert_eq!(registry.by_tag(Tag(1, 1)), None);
    let registry = registry
        .index(single(1, 1, "A", VR::PN))
        .index(single(2, 2, "B", VR::CS))
        .index(single(3, 3, "A", VR::UI))
        .index(single(2, 2, "C", VR::DA));
    assert_eq!(registry.by_name("A"), Some(&single(3, 3, "A", VR::UI)));
    assert_eq!(registry.by_name("B"), Some(&single(2, 2, "B", VR::CS)));
    assert_eq!(registry.by_name("C"), Some(&single(2, 2, "C", VR::DA)));
    assert_eq!(registry.by_tag(Tag(1, 1)), Some(&single(1, 1, "A", VR::PN)));
    assert_eq!(registry.by_tag(Tag(2, 2)), Some(&single(2, 2, "C", VR::DA)));
    assert_eq!(registry.by_tag(Tag(3, 3)), Some(&single(3, 3, "A", VR::UI)));
    assert_eq!(registry.by_tag(Tag(3, 2)), None);
}

#[test]
fn range_entries_are_found_by_their_inner_tag() {
    let overlay = DictionaryEntryRef {
        tag: TagRange::Group100(Tag(0x6000, 0x3000)),
        alias: "OverlayData",
        vr: VR::OB,
    };
    let registry = StandardDictionaryRegistry::new().index(overlay);
    assert_eq!(registry.by_tag(Tag(0x6000, 0x3000)), Some(&overlay));
    assert_eq!(registry.by_tag(Tag(0x6002, 0x3000)), None);
    let dict = StandardDataDictionary::with_registry(registry);
    assert_eq!(dict.by_name("OverlayData"), Some(&overlay));
}

#[test]
fn aliases_with_one_number_are_told_apart() {
    // "Aa" and "BB" are filed under the same number
    assert_eq!(text_number("Aa"), text_number("BB"));
    assert_eq!(text_number(""), 0);
    assert_eq!(text_number("A"), 65);
    assert_eq!(text_number("Aa"), 65 * 31 + 97);
    let registry = StandardDictionaryRegistry::new()
        .index(single(1, 1, "Aa", VR::PN))
        .index(single(2, 2, "BB", VR::CS));
    assert_eq!(registry.by_name("Aa"), Some(&single(1, 1, "Aa", VR::PN)));
    assert_eq!(registry.by_name("BB"), Some(&single(2, 2, "BB", VR::CS)));
    assert_eq!(tag_number(Tag(0x7FE0, 0x0010)), 0x7FE0_0010);
}

#[test]
fn index_all_adds_in_order() {
    let registry = StandardDictionaryRegistry::new()
        .index_all(&vec![single(1, 1, "A", VR::PN), single(1, 1, "B", VR::CS)]);
    assert_eq!(registry.by_tag(Tag(1, 1)), Some(&single(1, 1, "B", VR::CS)));
    assert_eq!(registry.by_name("A"), Some(&single(1, 1, "A", VR::PN)));
}

#[test]
fn entries_give_their_fields() {
    let owned = DictionaryEntryBuf {
        tag: TagRange::Single(Tag(0x0010, 0x0020)),
        alias: "PatientID".to_string(),
        vr: VR::LO,
    };
    assert_eq!(owned.tag(), TagRange::Single(Tag(0x0010, 0x0020)));
    assert_eq!(owned.alias(), "PatientID");
    assert_eq!(owned.vr(), VR::LO);
    let borrowed = single(0x0010, 0x0020, "PatientID", VR::LO);
    assert_eq!(borrowed.tag(), TagRange::Single(Tag(0x0010, 0x0020)));
    assert_eq!(borrowed.alias(), "PatientID");
    assert_eq!(borrowed.vr(), VR::LO);
}

#[test]
fn tag_by_name_resolves_through_the_dictionary() {
    let resolver = TagByName::new(StandardDataDictionary::new(), "Modality");
    assert_eq!(resolver.resolve(), Some(Tag(0x0008, 0x0060)));
    let resolver = TagByName::new(StandardDataDictionary::new(), "PixelData");
    let tag: Option<Tag> = resolver.into();
    assert_eq!(tag, Some(Tag(0x7FE0, 0x0010)));
    let resolver = TagByName::new(StandardDataDictionary::new(), "NoSuchAttribute");
    let tag: Option<Tag> = Option::from(resolver);
    assert_eq!(tag, None);
}
