//! Tag ranges: an exact tag, or a family of tags with one open byte, with their
//! textual syntax.

use vstd::prelude::*;
use crate::header::Tag;
use crate::hex::{spec_hex_byte, spec_hex_word, spec_hex_byte_text, spec_hex_word_text};
use crate::hex::{hex_byte, hex_word, hex_char};
use crate::hex::{lemma_hex_byte_round_trip, lemma_hex_word_round_trip};
use crate::text::{push_ascii, spec_ascii, spec_all_ascii, lemma_ascii_bytes};
use crate::text::{spec_has_byte, spec_is_first_byte, spec_first_byte, lemma_first_byte, find_byte};
use vstd::string::StringSliceAdditionalSpecFns;

verus! {

/// The range of tags that an attribute is registered for. Most attributes have one
/// tag `(GGGG,EEEE)`; a few are registered for a family of groups or of elements.
#[derive(Debug, Copy, Clone, Eq, Hash, PartialEq, Structural)]
pub enum TagRange {
    /// Only a specific tag.
    Single(Tag),
    /// The two rightmost digits of the group are open: `(GGxx,EEEE)`.
    Group100(Tag),
    /// The two rightmost digits of the element are open: `(GGGG,EExx)`.
    Element100(Tag),
}

/// Why a text is not a tag range.
#[derive(Debug, Copy, Clone, Eq, PartialEq, Structural)]
pub enum ParseErrorKind {
    /// There is no comma, so no element component.
    NotEnoughComponents,
    /// There is more than one comma.
    TooManyComponents,
    /// The group component is not four bytes long.
    GroupLength,
    /// The element component is not four bytes long.
    ElementLength,
    /// Both components end in `xx`.
    UnsupportedRange,
    /// The group component holds something other than hexadecimal digits.
    InvalidGroup,
    /// The element component holds something other than hexadecimal digits.
    InvalidElement,
}

/// An error returned when parsing an invalid tag range.
#[derive(Debug, Copy, Clone, Eq, PartialEq, Structural)]
pub struct TagRangeParseError {
    /// The cause.
    pub kind: ParseErrorKind,
}

/// The byte `(`.
pub const OPEN_PAREN: u8 = 0x28;

/// The byte `)`.
pub const CLOSE_PAREN: u8 = 0x29;

/// The byte `,`, which parts the group from the element.
pub const COMMA: u8 = 0x2c;

/// The byte `x`, two of which stand for an open byte.
pub const WILDCARD: u8 = 0x78;

/// `text` without one pair of enclosing parentheses, if it has one.
pub open spec fn spec_strip_parens(text: Seq<u8>) -> Seq<u8> {
    if text.len() >= 2 && text[0] == OPEN_PAREN && text[text.len() - 1] == CLOSE_PAREN {
        text.subrange(1, text.len() - 1)
    } else {
        text
    }
}

/// Whether a four-byte component ends in the wildcard `xx`.
pub open spec fn spec_is_wildcard(field: Seq<u8>) -> bool
    recommends
        field.len() == 4,
{
    field[2] == WILDCARD && field[3] == WILDCARD
}

/// The range that the two components of a text denote.
pub open spec fn spec_parse_fields(group: Seq<u8>, element: Seq<u8>) -> Result<
    TagRange,
    TagRangeParseError,
> {
    if group.len() != 4 {
        Err(TagRangeParseError { kind: ParseErrorKind::GroupLength })
    } else if element.len() != 4 {
        Err(TagRangeParseError { kind: ParseErrorKind::ElementLength })
    } else if spec_is_wildcard(group) && spec_is_wildcard(element) {
        Err(TagRangeParseError { kind: ParseErrorKind::UnsupportedRange })
    } else if spec_is_wildcard(group) {
        match spec_hex_byte(group.subrange(0, 2)) {
            None => Err(TagRangeParseError { kind: ParseErrorKind::InvalidGroup }),
            Some(g) => match spec_hex_word(element) {
                None => Err(TagRangeParseError { kind: ParseErrorKind::InvalidElement }),
                Some(e) => Ok(TagRange::Group100(Tag((g as u16) << 8, e))),
            },
        }
    } else if spec_is_wildcard(element) {
        match spec_hex_word(group) {
            None => Err(TagRangeParseError { kind: ParseErrorKind::InvalidGroup }),
            Some(g) => match spec_hex_byte(element.subrange(0, 2)) {
                None => Err(TagRangeParseError { kind: ParseErrorKind::InvalidElement }),
                Some(e) => Ok(TagRange::Element100(Tag(g, (e as u16) << 8))),
            },
        }
    } else {
        match spec_hex_word(group) {
            None => Err(TagRangeParseError { kind: ParseErrorKind::InvalidGroup }),
            Some(g) => match spec_hex_word(element) {
                None => Err(TagRangeParseError { kind: ParseErrorKind::InvalidElement }),
                Some(e) => Ok(TagRange::Single(Tag(g, e))),
            },
        }
    }
}

/// The range that a text denotes, or the first reason why it denotes none.
///
/// The text may stand in parentheses. It has two components of four bytes each,
/// `group,element`, in hexadecimal digits of either case; the last two bytes of
/// one of them, not of both, may be `xx`.
pub open spec fn spec_parse(text: Seq<u8>) -> Result<TagRange, TagRangeParseError> {
    let body = spec_strip_parens(text);
    if !spec_has_byte(body, COMMA) {
        Err(TagRangeParseError { kind: ParseErrorKind::NotEnoughComponents })
    } else {
        let at = spec_first_byte(body, COMMA);
        let element = body.subrange(at + 1, body.len() as int);
        if spec_has_byte(element, COMMA) {
            Err(TagRangeParseError { kind: ParseErrorKind::TooManyComponents })
        } else {
            spec_parse_fields(body.subrange(0, at), element)
        }
    }
}

/// The text that names a cause.
pub open spec fn spec_message(kind: ParseErrorKind) -> Seq<char> {
    match kind {
        ParseErrorKind::NotEnoughComponents => "not enough tag components, expected `group,element`"@,
        ParseErrorKind::TooManyComponents => "too many tag components, expected `group,element`"@,
        ParseErrorKind::GroupLength => "tag component `group` has an invalid length, must be 4"@,
        ParseErrorKind::ElementLength => "tag component `element` has an invalid length, must be 4"@,
        ParseErrorKind::UnsupportedRange => "unsupported tag range"@,
        ParseErrorKind::InvalidGroup => "Invalid component `group`"@,
        ParseErrorKind::InvalidElement => "Invalid component `element`"@,
    }
}

impl TagRangeParseError {
    /// A text that names the cause.
    pub fn message(&self) -> (m: &'static str)
        ensures
            m@ == spec_message(self.kind),
    {
        match self.kind {
            ParseErrorKind::NotEnoughComponents => "not enough tag components, expected `group,element`",
            ParseErrorKind::TooManyComponents => "too many tag components, expected `group,element`",
            ParseErrorKind::GroupLength => "tag component `group` has an invalid length, must be 4",
            ParseErrorKind::ElementLength => "tag component `element` has an invalid length, must be 4",
            ParseErrorKind::UnsupportedRange => "unsupported tag range",
            ParseErrorKind::InvalidGroup => "Invalid component `group`",
            ParseErrorKind::InvalidElement => "Invalid component `element`",
        }
    }
}

impl TagRange {
    /// The tag that this range holds.
    pub open spec fn spec_inner(self) -> Tag {
        match self {
            TagRange::Single(inner) => inner,
            TagRange::Group100(inner) => inner,
            TagRange::Element100(inner) => inner,
        }
    }

    /// Whether `tag` lies in this range.
    pub open spec fn spec_contains(self, tag: Tag) -> bool {
        match self {
            TagRange::Single(inner) => inner == tag,
            TagRange::Group100(inner) => inner.0 >> 8 == tag.0 >> 8 && inner.1 == tag.1,
            TagRange::Element100(inner) => inner.0 == tag.0 && inner.1 >> 8 == tag.1 >> 8,
        }
    }

    /// Whether the open byte of this range, if it has one, is zero. A range that
    /// `parse` returns is canonical.
    pub open spec fn is_canonical(self) -> bool {
        match self {
            TagRange::Single(_) => true,
            TagRange::Group100(inner) => inner.0 & 0xff == 0,
            TagRange::Element100(inner) => inner.1 & 0xff == 0,
        }
    }

    /// This range with its open byte, if it has one, set to zero.
    pub open spec fn spec_canonical(self) -> TagRange {
        match self {
            TagRange::Single(inner) => self,
            TagRange::Group100(inner) => TagRange::Group100(Tag((inner.0 >> 8) << 8, inner.1)),
            TagRange::Element100(inner) => TagRange::Element100(Tag(inner.0, (inner.1 >> 8) << 8)),
        }
    }

    /// The text of this range: `(GGGG,EEEE)` in capital hexadecimal digits, with
    /// `xx` in place of the open byte.
    pub open spec fn spec_text(self) -> Seq<u8> {
        let (group, element) = match self {
            TagRange::Single(inner) => (spec_hex_word_text(inner.0), spec_hex_word_text(inner.1)),
            TagRange::Group100(inner) => (
                spec_hex_byte_text((inner.0 >> 8) as u8) + seq![WILDCARD, WILDCARD],
                spec_hex_word_text(inner.1),
            ),
            TagRange::Element100(inner) => (
                spec_hex_word_text(inner.0),
                spec_hex_byte_text((inner.1 >> 8) as u8) + seq![WILDCARD, WILDCARD],
            ),
        };
        seq![OPEN_PAREN] + group + seq![COMMA] + element + seq![CLOSE_PAREN]
    }

    /// Retrieve the inner tag representation of this range.
    pub fn inner(self) -> (tag: Tag)
        ensures
            tag == self.spec_inner(),
    {
        match self {
            TagRange::Single(inner) => inner,
            TagRange::Group100(inner) => inner,
            TagRange::Element100(inner) => inner,
        }
    }

    /// Check whether this range contains the given tag.
    pub fn contains(self, tag: Tag) -> (found: bool)
        ensures
            found == self.spec_contains(tag),
    {
        match self {
            TagRange::Single(inner) => inner.0 == tag.0 && inner.1 == tag.1,
            TagRange::Group100(inner) => inner.0 >> 8 == tag.0 >> 8 && inner.1 == tag.1,
            TagRange::Element100(inner) => inner.0 == tag.0 && inner.1 >> 8 == tag.1 >> 8,
        }
    }
    /// This range with its open byte, if it has one, set to zero.
    pub fn canonical(self) -> (range: TagRange)
        ensures
            range == self.spec_canonical(),
            range.is_canonical(),
            forall|tag: Tag| range.spec_contains(tag) == self.spec_contains(tag),
    {
        match self {
            TagRange::Single(inner) => self,
            TagRange::Group100(inner) => {
                let g: u16 = inner.0;
                assert(((g >> 8) << 8) & 0xff == 0) by (bit_vector);
                assert(((g >> 8) << 8) >> 8 == g >> 8) by (bit_vector);
                TagRange::Group100(Tag((g >> 8) << 8, inner.1))
            },
            TagRange::Element100(inner) => {
                let e: u16 = inner.1;
                assert(((e >> 8) << 8) & 0xff == 0) by (bit_vector);
                assert(((e >> 8) << 8) >> 8 == e >> 8) by (bit_vector);
                TagRange::Element100(Tag(inner.0, (e >> 8) << 8))
            },
        }
    }

    /// Reads a tag range from the bytes of a text.
    pub fn parse_bytes(text: &[u8]) -> (result: Result<TagRange, TagRangeParseError>)
        ensures
            result == spec_parse(text@),
            result matches Ok(range) ==> range.is_canonical(),
    {
        let len = text.len();
        let (start, end) = if len >= 2 && text[0] == OPEN_PAREN && text[len - 1] == CLOSE_PAREN {
            (1usize, len - 1)
        } else {
            (0usize, len)
        };
        let ghost body = spec_strip_parens(text@);
        assert(body =~= text@.subrange(start as int, end as int));
        let at = find_byte(text, COMMA, start, end);
        if at == end {
            return Err(TagRangeParseError { kind: ParseErrorKind::NotEnoughComponents });
        }
        proof {
            lemma_first_byte(body, COMMA, at - start);
        }
        let ghost group = body.subrange(0, at - start);
        let ghost element = body.subrange(at - start + 1, body.len() as int);
        assert(group =~= text@.subrange(start as int, at as int));
        assert(element =~= text@.subrange(at + 1, end as int));
        let next = find_byte(text, COMMA, at + 1, end);
        if next < end {
            return Err(TagRangeParseError { kind: ParseErrorKind::TooManyComponents });
        }
        parse_fields(text, start, at, end)
    }

    /// Reads a tag range from a text such as `(0010,0010)`, `7FE0,0010` or `(60xx,3000)`.
    pub fn parse(text: &str) -> (result: Result<TagRange, TagRangeParseError>)
        ensures
            result == spec_parse(text.spec_bytes()),
            result matches Ok(range) ==> range.is_canonical(),
    {
        TagRange::parse_bytes(text.as_bytes())
    }

    /// Writes this range as `(GGGG,EEEE)`, in capital hexadecimal digits and with
    /// `xx` in place of the open byte.
    pub fn to_text(self) -> (text: String)
        ensures
            text@ == spec_ascii(self.spec_text()),
            spec_all_ascii(self.spec_text()),
    {
        let mut out = String::new();
        push_ascii(&mut out, OPEN_PAREN);
        match self {
            TagRange::Single(inner) => {
                push_hex_word(&mut out, inner.0);
                push_ascii(&mut out, COMMA);
                push_hex_word(&mut out, inner.1);
            },
            TagRange::Group100(inner) => {
                push_hex_byte(&mut out, (inner.0 >> 8) as u8);
                push_ascii(&mut out, WILDCARD);
                push_ascii(&mut out, WILDCARD);
                push_ascii(&mut out, COMMA);
                push_hex_word(&mut out, inner.1);
            },
            TagRange::Element100(inner) => {
                push_hex_word(&mut out, inner.0);
                push_ascii(&mut out, COMMA);
                push_hex_byte(&mut out, (inner.1 >> 8) as u8);
                push_ascii(&mut out, WILDCARD);
                push_ascii(&mut out, WILDCARD);
            },
        }
        push_ascii(&mut out, CLOSE_PAREN);
        proof {
            lemma_text_shape(self);
            assert(out@ =~= spec_ascii(self.spec_text()));
        }
        out
    }
}

/// Reads the group that stands in `text` from `start` to the comma at `at`, and
/// the element that stands after the comma and before `end`.
fn parse_fields(text: &[u8], start: usize, at: usize, end: usize) -> (result: Result<
    TagRange,
    TagRangeParseError,
>)
    requires
        start <= at < end <= text@.len(),
    ensures
        result == spec_parse_fields(
            text@.subrange(start as int, at as int),
            text@.subrange(at + 1, end as int),
        ),
        result matches Ok(range) ==> range.is_canonical(),
{
    let ghost group = text@.subrange(start as int, at as int);
    let ghost element = text@.subrange(at + 1, end as int);
    if at - start != 4 {
        return Err(TagRangeParseError { kind: ParseErrorKind::GroupLength });
    }
    if end - (at + 1) != 4 {
        return Err(TagRangeParseError { kind: ParseErrorKind::ElementLength });
    }
    let group_open = text[start + 2] == WILDCARD && text[start + 3] == WILDCARD;
    let element_open = text[at + 3] == WILDCARD && text[at + 4] == WILDCARD;
    proof {
        assert(group[2] == text@[start + 2] && group[3] == text@[start + 3]);
        assert(element[2] == text@[at + 3] && element[3] == text@[at + 4]);
        assert(group.subrange(0, 2) =~= text@.subrange(start as int, start + 2));
        assert(element.subrange(0, 2) =~= text@.subrange(at + 1, at + 3));
        assert(group =~= text@.subrange(start as int, start + 4));
        assert(element =~= text@.subrange(at + 1, at + 5));
    }
    if group_open && element_open {
        Err(TagRangeParseError { kind: ParseErrorKind::UnsupportedRange })
    } else if group_open {
        match hex_byte(text, start) {
            None => Err(TagRangeParseError { kind: ParseErrorKind::InvalidGroup }),
            Some(g) => match hex_word(text, at + 1) {
                None => Err(TagRangeParseError { kind: ParseErrorKind::InvalidElement }),
                Some(e) => {
                    let high: u16 = g as u16;
                    assert((high << 8) & 0xff == 0) by (bit_vector);
                    Ok(TagRange::Group100(Tag(high << 8, e)))
                },
            },
        }
    } else if element_open {
        match hex_word(text, start) {
            None => Err(TagRangeParseError { kind: ParseErrorKind::InvalidGroup }),
            Some(g) => match hex_byte(text, at + 1) {
                None => Err(TagRangeParseError { kind: ParseErrorKind::InvalidElement }),
                Some(e) => {
                    let high: u16 = e as u16;
                    assert((high << 8) & 0xff == 0) by (bit_vector);
                    Ok(TagRange::Element100(Tag(g, high << 8)))
                },
            },
        }
    } else {
        match hex_word(text, start) {
            None => Err(TagRangeParseError { kind: ParseErrorKind::InvalidGroup }),
            Some(g) => match hex_word(text, at + 1) {
                None => Err(TagRangeParseError { kind: ParseErrorKind::InvalidElement }),
                Some(e) => Ok(TagRange::Single(Tag(g, e))),
            },
        }
    }
}

/// Appends the two capital hexadecimal digits of a byte.
pub fn push_hex_byte(out: &mut String, b: u8)
    ensures
        final(out)@ == old(out)@ + spec_ascii(spec_hex_byte_text(b)),
{
    let high = hex_char(b / 16);
    let low = hex_char(b % 16);
    push_ascii(out, high);
    push_ascii(out, low);
    assert(final(out)@ =~= old(out)@ + spec_ascii(spec_hex_byte_text(b)));
}

/// Appends the four capital hexadecimal digits of a 16-bit number.
pub fn push_hex_word(out: &mut String, w: u16)
    ensures
        final(out)@ == old(out)@ + spec_ascii(spec_hex_word_text(w)),
{
    push_hex_byte(out, (w / 256) as u8);
    push_hex_byte(out, (w % 256) as u8);
    assert(final(out)@ =~= old(out)@ + spec_ascii(spec_hex_word_text(w)));
}

/// The text of a range has eleven bytes, all ASCII, with the parentheses at both
/// ends and the one comma in the middle.
pub proof fn lemma_text_shape(range: TagRange)
    ensures
        range.spec_text().len() == 11,
        spec_all_ascii(range.spec_text()),
        range.spec_text()[0] == OPEN_PAREN,
        range.spec_text()[5] == COMMA,
        range.spec_text()[10] == CLOSE_PAREN,
        forall|i: int| 0 <= i < 11 && i != 5 ==> #[trigger] range.spec_text()[i] != COMMA,
{
    let inner = range.spec_inner();
    lemma_hex_word_round_trip(inner.0);
    lemma_hex_word_round_trip(inner.1);
    lemma_hex_byte_round_trip((inner.0 >> 8) as u8);
    lemma_hex_byte_round_trip((inner.1 >> 8) as u8);
    let t = range.spec_text();
    assert(t.len() == 11);
    assert forall|i: int| 0 <= i < 11 implies #[trigger] t[i] < 128 && (i != 5 ==> t[i] != COMMA) by {
        match range {
            TagRange::Single(_) => {
                if 1 <= i < 5 {
                    assert(t[i] == spec_hex_word_text(inner.0)[i - 1]);
                } else if 6 <= i < 10 {
                    assert(t[i] == spec_hex_word_text(inner.1)[i - 6]);
                }
            },
            TagRange::Group100(_) => {
                if 1 <= i < 3 {
                    assert(t[i] == spec_hex_byte_text((inner.0 >> 8) as u8)[i - 1]);
                } else if 6 <= i < 10 {
                    assert(t[i] == spec_hex_word_text(inner.1)[i - 6]);
                }
            },
            TagRange::Element100(_) => {
                if 1 <= i < 5 {
                    assert(t[i] == spec_hex_word_text(inner.0)[i - 1]);
                } else if 6 <= i < 8 {
                    assert(t[i] == spec_hex_byte_text((inner.1 >> 8) as u8)[i - 6]);
                }
            },
        }
    }
}

/// A single-tag range contains its own tag and no other tag.
pub proof fn lemma_single_contains(tag: Tag, other: Tag)
    ensures
        TagRange::Single(tag).spec_contains(tag),
        other != tag ==> !TagRange::Single(tag).spec_contains(other),
{
}

/// A range with an open group byte, made of the high byte `high` and the element
/// `element`, contains a tag with that element exactly when the high byte of the
/// tag's group is `high`, whatever the low byte of the group.
pub proof fn lemma_group_wildcard_contains(high: u8, element: u16, group: u16)
    ensures
        TagRange::Group100(Tag((high as u16) << 8, element)).spec_contains(Tag(group, element))
            <==> group >> 8 == high,
{
    let h: u16 = high as u16;
    assert((h << 8) >> 8 == h) by (bit_vector)
        requires
            h < 256,
    ;
}

/// A range with an open element byte, made of the group `group` and the high
/// byte `high`, contains a tag of that group exactly when the high byte of the
/// tag's element is `high`, whatever the low byte of the element.
pub proof fn lemma_element_wildcard_contains(group: u16, high: u8, element: u16)
    ensures
        TagRange::Element100(Tag(group, (high as u16) << 8)).spec_contains(Tag(group, element))
            <==> element >> 8 == high,
{
    let h: u16 = high as u16;
    assert((h << 8) >> 8 == h) by (bit_vector)
        requires
            h < 256,
    ;
}

/// The text of a range reads back as that range with its open byte set to zero,
/// which contains the same tags.
pub proof fn lemma_parse_text(range: TagRange)
    ensures
        spec_parse(range.spec_text()) == Ok::<TagRange, TagRangeParseError>(range.spec_canonical()),
        forall|tag: Tag| range.spec_canonical().spec_contains(tag) == range.spec_contains(tag),
{
    lemma_text_shape(range);
    let inner = range.spec_inner();
    let g: u16 = inner.0;
    let e: u16 = inner.1;
    lemma_hex_word_round_trip(g);
    lemma_hex_word_round_trip(e);
    lemma_hex_byte_round_trip((g >> 8) as u8);
    lemma_hex_byte_round_trip((e >> 8) as u8);
    let t = range.spec_text();
    let body = spec_strip_parens(t);
    assert(body =~= t.subrange(1, 10));
    assert(body[4] == t[5]);
    assert(spec_is_first_byte(body, COMMA, 4)) by {
        assert forall|j: int| 0 <= j < 4 implies body[j] != COMMA by {
            assert(body[j] == t[j + 1]);
        }
    }
    lemma_first_byte(body, COMMA, 4);
    let group = body.subrange(0, 4);
    let element = body.subrange(5, 9);
    assert(!spec_has_byte(element, COMMA)) by {
        assert forall|i: int| 0 <= i < element.len() implies element[i] != COMMA by {
            assert(element[i] == t[i + 6]);
        }
    }
    assert(((g >> 8) as u8) as u16 == g >> 8) by (bit_vector);
    assert(((e >> 8) as u8) as u16 == e >> 8) by (bit_vector);
    assert(((g >> 8) << 8) >> 8 == g >> 8) by (bit_vector);
    assert(((e >> 8) << 8) >> 8 == e >> 8) by (bit_vector);
    match range {
        TagRange::Single(_) => {
            assert(group =~= spec_hex_word_text(g));
            assert(element =~= spec_hex_word_text(e));
        },
        TagRange::Group100(_) => {
            assert(group =~= spec_hex_byte_text((g >> 8) as u8) + seq![WILDCARD, WILDCARD]);
            assert(group.subrange(0, 2) =~= spec_hex_byte_text((g >> 8) as u8));
            assert(element =~= spec_hex_word_text(e));
        },
        TagRange::Element100(_) => {
            assert(group =~= spec_hex_word_text(g));
            assert(element =~= spec_hex_byte_text((e >> 8) as u8) + seq![WILDCARD, WILDCARD]);
            assert(element.subrange(0, 2) =~= spec_hex_byte_text((e >> 8) as u8));
        },
    }
}

/// Round trip: the text of a canonical range reads back as the same range. This
/// holds of every range that `parse` returns, and of every single-tag range.
pub proof fn lemma_parse_text_round_trip(range: TagRange)
    requires
        range.is_canonical(),
    ensures
        spec_parse(range.spec_text()) == Ok::<TagRange, TagRangeParseError>(range),
{
    lemma_parse_text(range);
    let inner = range.spec_inner();
    let g: u16 = inner.0;
    let e: u16 = inner.1;
    assert(g & 0xff == 0 ==> (g >> 8) << 8 == g) by (bit_vector);
    assert(e & 0xff == 0 ==> (e >> 8) << 8 == e) by (bit_vector);
}

/// A range that a text denotes is canonical, and its own text denotes it again:
/// writing a parsed range and parsing what was written gives an equal value.
pub proof fn lemma_parse_is_canonical(text: Seq<u8>)
    ensures
        spec_parse(text) matches Ok(range) ==> range.is_canonical() && spec_parse(
            range.spec_text(),
        ) == Ok::<TagRange, TagRangeParseError>(range),
{
    let body = spec_strip_parens(text);
    if spec_has_byte(body, COMMA) {
        let at = spec_first_byte(body, COMMA);
        let group = body.subrange(0, at);
        let element = body.subrange(at + 1, body.len() as int);
        match spec_hex_byte(group.subrange(0, 2)) {
            Some(g) => {
                let high: u16 = g as u16;
                assert((high << 8) & 0xff == 0) by (bit_vector);
            },
            None => {},
        }
        match spec_hex_byte(element.subrange(0, 2)) {
            Some(e) => {
                let high: u16 = e as u16;
                assert((high << 8) & 0xff == 0) by (bit_vector);
            },
            None => {},
        }
    }
    match spec_parse(text) {
        Ok(range) => {
            lemma_parse_text_round_trip(range);
        },
        Err(_) => {},
    }
}

/// Round trip through a string: a string that holds the text of a canonical range,
/// as `to_text` returns it, is read by `parse` as that range.
pub proof fn lemma_parse_string_round_trip(range: TagRange, text: &str)
    requires
        range.is_canonical(),
        text@ == spec_ascii(range.spec_text()),
    ensures
        spec_parse(text.spec_bytes()) == Ok::<TagRange, TagRangeParseError>(range),
{
    lemma_text_shape(range);
    lemma_ascii_bytes(text, range.spec_text());
    lemma_parse_text_round_trip(range);
}

impl std::str::FromStr for TagRange {
    type Err = TagRangeParseError;

    /// Reads a tag range as `TagRange::parse` does.
    fn from_str(s: &str) -> (result: Result<Self, Self::Err>)
        ensures
            result == spec_parse(s.spec_bytes()),
    {
        TagRange::parse(s)
    }
}

} // verus!
