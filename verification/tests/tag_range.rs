use dicom_dictionary::header::Tag;
use dicom_dictionary::tag_range::{ParseErrorKind, TagRange, TagRangeParseError};

#[test]
fn test_parse_tag_range() {
    let tag: TagRange = "(1234,5678)".parse().unwrap();
    assert_eq!(tag, TagRange::Single(Tag(0x1234, 0x5678)));

    let tag: TagRange = "1234,5678".parse().unwrap();
    assert_eq!(tag, TagRange::Single(Tag(0x1234, 0x5678)));

    let tag: TagRange = "12xx,5678".parse().unwrap();
    assert_eq!(tag, TagRange::Group100(Tag(0x1200, 0x5678)));

    let tag: TagRange = "1234,56xx".parse().unwrap();
    assert_eq!(tag, TagRange::Element100(Tag(0x1234, 0x5600)));
}

fn kind_of(text: &str) -> ParseErrorKind {
    let result: Result<TagRange, TagRangeParseError> = text.parse();
    result.unwrap_err().kind
}

#[test]
fn parse_fails_distinctly() {
    assert_eq!(kind_of("12,5678"), ParseErrorKind::GroupLength);
    assert_eq!(kind_of("1234,567"), ParseErrorKind::ElementLength);
    assert_eq!(kind_of("12g4,5678"), ParseErrorKind::InvalidGroup);
    assert_eq!(kind_of("1234,56 8"), ParseErrorKind::InvalidElement);
    assert_eq!(kind_of("12xx,56xx"), ParseErrorKind::UnsupportedRange);
    assert_eq!(kind_of("12345678"), ParseErrorKind::NotEnoughComponents);
    assert_eq!(kind_of("1234,5678,9abc"), ParseErrorKind::TooManyComponents);
}

#[test]
fn parse_error_messages_differ() {
    let kinds = [
        ParseErrorKind::NotEnoughComponents,
        ParseErrorKind::TooManyComponents,
        ParseErrorKind::GroupLength,
        ParseErrorKind::ElementLength,
        ParseErrorKind::UnsupportedRange,
        ParseErrorKind::InvalidGroup,
        ParseErrorKind::InvalidElement,
    ];
    for (i, a) in kinds.iter().enumerate() {
        for b in kinds.iter().skip(i + 1) {
            assert_ne!(
                TagRangeParseError { kind: *a }.message(),
                TagRangeParseError { kind: *b }.message()
            );
        }
    }
    assert_eq!(
        TagRangeParseError { kind: ParseErrorKind::UnsupportedRange }.message(),
        "unsupported tag range"
    );
}

#[test]
fn parse_accepts_both_cases_and_rejects_signs() {
    assert_eq!(TagRange::parse("(7fe0,0010)"), Ok(TagRange::Single(Tag(0x7FE0, 0x0010))));
    assert_eq!(TagRange::parse("(7FE0,0010)"), Ok(TagRange::Single(Tag(0x7FE0, 0x0010))));
    assert_eq!(kind_of("+123,5678"), ParseErrorKind::InvalidGroup);
    assert_eq!(kind_of("1234,+678"), ParseErrorKind::InvalidElement);
    assert_eq!(kind_of("+1xx,5678"), ParseErrorKind::InvalidGroup);
}

#[test]
fn parse_strips_one_pair_of_parentheses() {
    assert_eq!(kind_of("((1234,5678))"), ParseErrorKind::GroupLength);
    assert_eq!(kind_of("(1234,5678"), ParseErrorKind::GroupLength);
    assert_eq!(kind_of("1234,5678)"), ParseErrorKind::ElementLength);
    assert_eq!(kind_of(""), ParseErrorKind::NotEnoughComponents);
    assert_eq!(kind_of("()"), ParseErrorKind::NotEnoughComponents);
    assert_eq!(kind_of(","), ParseErrorKind::GroupLength);
}

#[test]
fn parse_bytes_agrees_with_parse() {
    assert_eq!(
        TagRange::parse_bytes(b"(0028,04x0)"),
        Err(TagRangeParseError { kind: ParseErrorKind::InvalidElement })
    );
    assert_eq!(
        TagRange::parse_bytes(b"(0028,04xx)"),
        Ok(TagRange::Element100(Tag(0x0028, 0x0400)))
    );
}

#[test]
fn single_contains_only_its_tag() {
    let tag = Tag(0x0010, 0x0010);
    assert!(TagRange::Single(tag).contains(tag));
    assert!(!TagRange::Single(tag).contains(Tag(0x0010, 0x0011)));
    assert!(!TagRange::Single(tag).contains(Tag(0x0011, 0x0010)));
}

#[test]
fn group_wildcard_ignores_low_byte_of_group() {
    let range = TagRange::Group100(Tag(0x6000, 0x3000));
    assert!(range.contains(Tag(0x6000, 0x3000)));
    assert!(range.contains(Tag(0x6002, 0x3000)));
    assert!(range.contains(Tag(0x60FF, 0x3000)));
    assert!(!range.contains(Tag(0x6100, 0x3000)));
    assert!(!range.contains(Tag(0x5FFF, 0x3000)));
    assert!(!range.contains(Tag(0x6002, 0x3001)));
}

#[test]
fn element_wildcard_ignores_low_byte_of_element() {
    let range = TagRange::Element100(Tag(0x0020, 0x3100));
    assert!(range.contains(Tag(0x0020, 0x3100)));
    assert!(range.contains(Tag(0x0020, 0x31FF)));
    assert!(!range.contains(Tag(0x0020, 0x3200)));
    assert!(!range.contains(Tag(0x0021, 0x3100)));
}

#[test]
fn inner_gives_the_tag_of_each_variant() {
    assert_eq!(TagRange::Single(Tag(1, 2)).inner(), Tag(1, 2));
    assert_eq!(TagRange::Group100(Tag(0x1200, 2)).inner(), Tag(0x1200, 2));
    assert_eq!(TagRange::Element100(Tag(1, 0x3400)).inner(), Tag(1, 0x3400));
    assert_eq!(Tag(0x0008, 0x0060).group(), 0x0008);
    assert_eq!(Tag(0x0008, 0x0060).element(), 0x0060);
}

#[test]
fn to_text_writes_capital_digits_and_wildcards() {
    assert_eq!(TagRange::Single(Tag(0x7FE0, 0x0010)).to_text(), "(7FE0,0010)");
    assert_eq!(TagRange::Group100(Tag(0x6000, 0x3000)).to_text(), "(60xx,3000)");
    assert_eq!(TagRange::Element100(Tag(0x0020, 0x31AB)).to_text(), "(0020,31xx)");
    assert_eq!(TagRange::Single(Tag(0xABCD, 0xEF09)).to_text(), "(ABCD,EF09)");
}

#[test]
fn text_round_trip() {
    let ranges = [
        TagRange::Single(Tag(0x0000, 0x0000)),
        TagRange::Single(Tag(0xFFFF, 0xFFFF)),
        TagRange::Single(Tag(0x1234, 0xABCD)),
        TagRange::Group100(Tag(0x5000, 0x0005)),
        TagRange::Group100(Tag(0xFF00, 0xFFFF)),
        TagRange::Element100(Tag(0x0028, 0x0400)),
        TagRange::Element100(Tag(0x1010, 0xFF00)),
    ];
    for range in ranges.iter() {
        assert_eq!(TagRange::parse(range.to_text().as_str()), Ok(*range));
    }
}

#[test]
fn text_of_a_range_with_a_set_open_byte_reads_back_canonical() {
    let range = TagRange::Group100(Tag(0x1234, 0x5678));
    assert_eq!(range.canonical(), TagRange::Group100(Tag(0x1200, 0x5678)));
    assert_eq!(TagRange::parse(range.to_text().as_str()), Ok(range.canonical()));
    let range = TagRange::Element100(Tag(0x1234, 0x5678));
    assert_eq!(range.canonical(), TagRange::Element100(Tag(0x1234, 0x5600)));
    assert_eq!(TagRange::parse(range.to_text().as_str()), Ok(range.canonical()));
    assert_eq!(TagRange::Single(Tag(1, 2)).canonical(), TagRange::Single(Tag(1, 2)));
}
