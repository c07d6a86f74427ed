//! Classification and emission: from the raw records of the table to the text
//! of a generated table of entries.

use vstd::prelude::*;
use vstd::string::{StringExecFns, StringSliceAdditionalSpecFns};
use vstd::utf8::encode_utf8;
use crate::extract::{Entry, EntryView, spec_entry_views, spec_opt_text};
use crate::hex::{is_upper_hex, spec_hex_word_text, spec_is_upper_hex};
use crate::hex::{lemma_hex_byte_round_trip, lemma_hex_word_round_trip};
use crate::tag_range::{TagRange, TagRangeParseError, spec_parse, lemma_parse_text, lemma_text_shape};
use crate::tag_range::{CLOSE_PAREN, COMMA, OPEN_PAREN, WILDCARD, push_hex_word};
use crate::text::{spec_ascii, spec_head_len, split_chars, str_eq};

verus! {

/// Whether the four bytes of `text` from `at` on are a component in the strict
/// form: capital hexadecimal digits, the last two of which may both be `x`.
pub open spec fn spec_is_strict_field(text: Seq<u8>, at: int) -> bool {
    &&& spec_is_upper_hex(text[at])
    &&& spec_is_upper_hex(text[at + 1])
    &&& (spec_is_upper_hex(text[at + 2]) && spec_is_upper_hex(text[at + 3])) || (text[at + 2]
        == WILDCARD && text[at + 3] == WILDCARD)
}

/// Whether `text` has the strict form of a tag in the table: `(GGGG,EEEE)`, in
/// parentheses and in capital hexadecimal digits, where `xx` may stand for the
/// last two digits of a component.
pub open spec fn spec_is_strict(text: Seq<u8>) -> bool {
    &&& text.len() == 11
    &&& text[0] == OPEN_PAREN
    &&& text[5] == COMMA
    &&& text[10] == CLOSE_PAREN
    &&& spec_is_strict_field(text, 1)
    &&& spec_is_strict_field(text, 6)
}

/// The range that the tag text of a record denotes: that of a text in the strict
/// form that is a tag range; none for any other text.
pub open spec fn spec_classify(text: Seq<u8>) -> Option<TagRange> {
    if spec_is_strict(text) {
        match spec_parse(text) {
            Ok(range) => Some(range),
            Err(_) => None,
        }
    } else {
        None
    }
}

/// Tells whether the four bytes from `at` on are a component in the strict form.
fn is_strict_field(text: &[u8], at: usize) -> (strict: bool)
    requires
        at + 4 <= text@.len(),
    ensures
        strict == spec_is_strict_field(text@, at as int),
{
    is_upper_hex(text[at]) && is_upper_hex(text[at + 1]) && ((is_upper_hex(text[at + 2])
        && is_upper_hex(text[at + 3])) || (text[at + 2] == WILDCARD && text[at + 3] == WILDCARD))
}

/// Classifies the tag text of a record.
pub fn classify_tag(text: &str) -> (range: Option<TagRange>)
    ensures
        range == spec_classify(text.spec_bytes()),
        range matches Some(r) ==> r.is_canonical(),
{
    let bytes = text.as_bytes();
    if bytes.len() == 11 && bytes[0] == OPEN_PAREN && bytes[5] == COMMA && bytes[10] == CLOSE_PAREN
        && is_strict_field(bytes, 1) && is_strict_field(bytes, 6) {
        match TagRange::parse_bytes(bytes) {
            Ok(range) => Some(range),
            Err(_) => None,
        }
    } else {
        None
    }
}

/// The marker that the notes of a retired attribute hold.
pub open spec fn spec_retired_marker() -> Seq<char> {
    "RET"@
}

/// Whether a record is one of a retired attribute.
pub open spec fn spec_is_retired(entry: EntryView) -> bool {
    entry.obs == Some(spec_retired_marker())
}

/// The value representation text of a record, made normal: empty where the
/// record has none, and `UN See Note` in place of `See Note`.
pub open spec fn spec_normal_vr(vr: Option<Seq<char>>) -> Seq<char> {
    match vr {
        None => Seq::empty(),
        Some(text) => if text == "See Note"@ {
            "UN See Note"@
        } else {
            text
        },
    }
}

/// The comment that follows the code of a value representation: empty where
/// nothing follows the code's two characters.
pub open spec fn spec_vr_note(vr: Seq<char>) -> Seq<char> {
    let rest = vr.skip(spec_head_len(vr, 2));
    if rest.len() > 0 {
        " /*"@ + rest + " */"@
    } else {
        Seq::empty()
    }
}

/// The comment at the end of a line: the notes of the record, where it has any.
pub open spec fn spec_obs_note(obs: Option<Seq<char>>) -> Seq<char> {
    match obs {
        Some(text) => if text.len() > 0 {
            " // "@ + text
        } else {
            Seq::empty()
        },
        None => Seq::empty(),
    }
}

/// The name of the variant of a range.
pub open spec fn spec_variant_name(range: TagRange) -> Seq<char> {
    match range {
        TagRange::Single(_) => "Single"@,
        TagRange::Group100(_) => "Group100"@,
        TagRange::Element100(_) => "Element100"@,
    }
}

/// The line of the generated table for an attribute.
pub open spec fn spec_attribute_line(
    range: TagRange,
    alias: Seq<char>,
    vr: Seq<char>,
    obs: Option<Seq<char>>,
) -> Seq<char> {
    "    E { tag: "@ + spec_variant_name(range) + "(0x"@ + spec_ascii(
        spec_hex_word_text(range.spec_inner().0),
    ) + ", 0x"@ + spec_ascii(spec_hex_word_text(range.spec_inner().1)) + "), alias: \""@ + alias
        + "\", vr: "@ + vr.take(spec_head_len(vr, 2)) + spec_vr_note(vr) + " },"@ + spec_obs_note(
        obs,
    ) + "\n"@
}

/// The line of the generated table for a record, or none where the record is
/// left out: where it has no alias, where it is retired and retired attributes
/// are not wanted, and where its tag text denotes no range.
pub open spec fn spec_entry_line(entry: EntryView, include_retired: bool) -> Option<Seq<char>> {
    if entry.alias is None {
        None
    } else if spec_is_retired(entry) && !include_retired {
        None
    } else {
        match spec_classify(encode_utf8(entry.tag)) {
            None => None,
            Some(range) => Some(
                spec_attribute_line(range, entry.alias->0, spec_normal_vr(entry.vr), entry.obs),
            ),
        }
    }
}

/// The lines of the generated table for a list of records, in the list's order.
pub open spec fn spec_lines(entries: Seq<EntryView>, include_retired: bool) -> Seq<char>
    decreases entries.len(),
{
    if entries.len() == 0 {
        Seq::empty()
    } else {
        spec_lines(entries.drop_last(), include_retired) + match spec_entry_line(
            entries.last(),
            include_retired,
        ) {
            Some(line) => line,
            None => Seq::empty(),
        }
    }
}

/// What the generated table begins with.
pub open spec fn spec_header() -> Seq<char> {
    "//! Automatically generated. Edit at your own risk.\n\nuse dicom_core::dictionary::{DictionaryEntryRef, TagRange::*};\nuse dicom_core::Tag;\nuse dicom_core::VR::*;\n\ntype E = DictionaryEntryRef<'static>;\n\n#[rustfmt::skip]\npub const ENTRIES: &[E] = &[\n"@
}

/// What the generated table ends with.
pub open spec fn spec_footer() -> Seq<char> {
    "];\n"@
}

/// The text of the generated table for a list of records.
pub open spec fn spec_code(entries: Seq<EntryView>, include_retired: bool) -> Seq<char> {
    spec_header() + spec_lines(entries, include_retired) + spec_footer()
}

/// Tells whether a record is one of a retired attribute.
pub fn is_retired(entry: &Entry) -> (retired: bool)
    ensures
        retired == spec_is_retired(entry@),
{
    match &entry.obs {
        Some(text) => str_eq(text.as_str(), "RET"),
        None => false,
    }
}

/// The value representation text of a record, made normal.
pub fn normal_vr(vr: &Option<String>) -> (text: String)
    ensures
        text@ == spec_normal_vr(spec_opt_text(*vr)),
{
    match vr {
        None => String::new(),
        Some(text) => if str_eq(text.as_str(), "See Note") {
            "UN See Note".to_owned()
        } else {
            text.clone()
        },
    }
}

/// Writes the line of the generated table for an attribute.
pub fn attribute_line(range: TagRange, alias: &str, vr: &str, obs: &Option<String>) -> (text: String)
    ensures
        text@ == spec_attribute_line(range, alias@, vr@, spec_opt_text(*obs)),
{
    let (code, rest) = split_chars(vr, 2);
    let mut vr_note = String::new();
    if rest.as_str().unicode_len() > 0 {
        vr_note = " /*".to_owned();
        vr_note.append(rest.as_str());
        vr_note.append(" */");
    }
    let mut obs_note = String::new();
    match obs {
        Some(notes) => {
            if notes.as_str().unicode_len() > 0 {
                obs_note = " // ".to_owned();
                obs_note.append(notes.as_str());
            }
        },
        None => {},
    }
    let inner = range.inner();
    let mut text = "    E { tag: ".to_owned();
    match range {
        TagRange::Single(_) => text.append("Single"),
        TagRange::Group100(_) => text.append("Group100"),
        TagRange::Element100(_) => text.append("Element100"),
    }
    text.append("(0x");
    push_hex_word(&mut text, inner.0);
    text.append(", 0x");
    push_hex_word(&mut text, inner.1);
    text.append("), alias: \"");
    text.append(alias);
    text.append("\", vr: ");
    text.append(code.as_str());
    text.append(vr_note.as_str());
    text.append(" },");
    text.append(obs_note.as_str());
    text.append("\n");
    text
}

/// Writes the line of the generated table for a record, unless the record is
/// left out.
pub fn entry_line(entry: &Entry, include_retired: bool) -> (text: Option<String>)
    ensures
        spec_opt_text(text) == spec_entry_line(entry@, include_retired),
{
    let alias = match &entry.alias {
        Some(alias) => alias,
        None => {
            return None;
        },
    };
    if is_retired(entry) && !include_retired {
        return None;
    }
    match classify_tag(entry.tag.as_str()) {
        None => None,
        Some(range) => {
            let vr = normal_vr(&entry.vr);
            Some(attribute_line(range, alias.as_str(), vr.as_str(), &entry.obs))
        },
    }
}

/// Writes the generated table for a list of records: one line for each record
/// that is not left out, in the list's order, between a header and a footer.
pub fn to_code(entries: &Vec<Entry>, include_retired: bool) -> (text: String)
    ensures
        text@ == spec_code(spec_entry_views(entries@), include_retired),
{
    let ghost views = spec_entry_views(entries@);
    let mut text = "//! Automatically generated. Edit at your own risk.\n\nuse dicom_core::dictionary::{DictionaryEntryRef, TagRange::*};\nuse dicom_core::Tag;\nuse dicom_core::VR::*;\n\ntype E = DictionaryEntryRef<'static>;\n\n#[rustfmt::skip]\npub const ENTRIES: &[E] = &[\n".to_owned();
    let mut i: usize = 0;
    assert(views.take(0) =~= Seq::<EntryView>::empty());
    assert(text@ =~= spec_header() + spec_lines(views.take(0), include_retired));
    while i < entries.len()
        invariant
            i <= entries@.len(),
            views == spec_entry_views(entries@),
            text@ == spec_header() + spec_lines(views.take(i as int), include_retired),
        decreases entries@.len() - i,
    {
        proof {
            let longer = views.take(i + 1);
            assert(longer.drop_last() =~= views.take(i as int));
            assert(longer.last() == entries@[i as int]@);
        }
        let ghost before = text@;
        match entry_line(&entries[i], include_retired) {
            Some(line) => {
                text.append(line.as_str());
                assert(text@ =~= spec_header() + spec_lines(views.take(i + 1), include_retired));
            },
            None => {
                assert(text@ =~= spec_header() + spec_lines(views.take(i + 1), include_retired));
            },
        }
        i += 1;
    }
    assert(views.take(entries@.len() as int) =~= views);
    text.append("];\n");
    text
}

/// Whether both components of an eleven-byte tag text end in `xx`.
pub open spec fn spec_is_dual_wildcard(text: Seq<u8>) -> bool {
    &&& text.len() == 11
    &&& text[3] == WILDCARD && text[4] == WILDCARD
    &&& text[8] == WILDCARD && text[9] == WILDCARD
}

/// A text in the strict form denotes a range unless both of its components end
/// in `xx`; so a tag text denotes a range exactly when it is in the strict form
/// with at most one such component.
pub proof fn lemma_classify(text: Seq<u8>)
    ensures
        spec_classify(text) is Some <==> spec_is_strict(text) && !spec_is_dual_wildcard(text),
        spec_classify(text) matches Some(range) ==> spec_parse(text) == Ok::<
            TagRange,
            TagRangeParseError,
        >(range),
{
    if spec_is_strict(text) {
        let body = crate::tag_range::spec_strip_parens(text);
        assert(body =~= text.subrange(1, 10));
        assert(body[4] == text[5]);
        assert(crate::text::spec_is_first_byte(body, COMMA, 4)) by {
            assert forall|j: int| 0 <= j < 4 implies body[j] != COMMA by {
                assert(body[j] == text[j + 1]);
            }
        }
        crate::text::lemma_first_byte(body, COMMA, 4);
        let group = body.subrange(0, 4);
        let element = body.subrange(5, 9);
        assert(!crate::text::spec_has_byte(element, COMMA)) by {
            assert forall|i: int| 0 <= i < element.len() implies element[i] != COMMA by {
                assert(element[i] == text[i + 6]);
            }
        }
        assert(group[0] == text[1] && group[1] == text[2] && group[2] == text[3] && group[3]
            == text[4]);
        assert(element[0] == text[6] && element[1] == text[7] && element[2] == text[8]
            && element[3] == text[9]);
        let g_high = group.subrange(0, 2);
        let g_low = group.subrange(2, 4);
        let e_high = element.subrange(0, 2);
        let e_low = element.subrange(2, 4);
        assert(g_high[0] == group[0] && g_high[1] == group[1]);
        assert(g_low[0] == group[2] && g_low[1] == group[3]);
        assert(e_high[0] == element[0] && e_high[1] == element[1]);
        assert(e_low[0] == element[2] && e_low[1] == element[3]);
    }
}

/// A tag text of which both components end in `xx` denotes no range.
pub proof fn lemma_dual_wildcard_unclassified(text: Seq<u8>)
    requires
        spec_is_dual_wildcard(text),
    ensures
        spec_classify(text) is None,
{
    lemma_classify(text);
}

/// A record whose tag text has `xx` at the end of both components is left out,
/// whether retired attributes are wanted or not.
pub proof fn lemma_dual_wildcard_excluded(entry: EntryView, include_retired: bool)
    requires
        spec_is_dual_wildcard(encode_utf8(entry.tag)),
    ensures
        spec_entry_line(entry, include_retired) is None,
{
    lemma_classify(encode_utf8(entry.tag));
}

/// A retired record is left out where retired attributes are not wanted. Where
/// they are wanted it is treated as any other record: it has a line exactly when
/// it has an alias and its tag text denotes a range.
pub proof fn lemma_retired(entry: EntryView)
    requires
        spec_is_retired(entry),
    ensures
        spec_entry_line(entry, false) is None,
        spec_entry_line(entry, true) is Some <==> entry.alias is Some && spec_classify(
            encode_utf8(entry.tag),
        ) is Some,
{
}

/// Whether retired attributes are wanted makes no difference to a record that is
/// not retired.
pub proof fn lemma_not_retired(entry: EntryView)
    requires
        !spec_is_retired(entry),
    ensures
        spec_entry_line(entry, false) == spec_entry_line(entry, true),
{
}

/// The text of a range is in the strict form, and it is classified as that range
/// with its open byte set to zero.
pub proof fn lemma_classify_text(range: TagRange)
    ensures
        spec_is_strict(range.spec_text()),
        spec_classify(range.spec_text()) == Some(range.spec_canonical()),
{
    lemma_text_shape(range);
    lemma_parse_text(range);
    let inner = range.spec_inner();
    lemma_hex_word_round_trip(inner.0);
    lemma_hex_word_round_trip(inner.1);
    lemma_hex_byte_round_trip((inner.0 >> 8) as u8);
    lemma_hex_byte_round_trip((inner.1 >> 8) as u8);
    let t = range.spec_text();
    match range {
        TagRange::Single(_) => {
            assert(t[1] == spec_hex_word_text(inner.0)[0]);
            assert(t[2] == spec_hex_word_text(inner.0)[1]);
            assert(t[3] == spec_hex_word_text(inner.0)[2]);
            assert(t[4] == spec_hex_word_text(inner.0)[3]);
            assert(t[6] == spec_hex_word_text(inner.1)[0]);
            assert(t[7] == spec_hex_word_text(inner.1)[1]);
            assert(t[8] == spec_hex_word_text(inner.1)[2]);
            assert(t[9] == spec_hex_word_text(inner.1)[3]);
        },
        TagRange::Group100(_) => {
            let high = crate::hex::spec_hex_byte_text((inner.0 >> 8) as u8);
            assert(t[1] == high[0] && t[2] == high[1]);
            assert(t[3] == WILDCARD && t[4] == WILDCARD);
            assert(t[6] == spec_hex_word_text(inner.1)[0]);
            assert(t[7] == spec_hex_word_text(inner.1)[1]);
            assert(t[8] == spec_hex_word_text(inner.1)[2]);
            assert(t[9] == spec_hex_word_text(inner.1)[3]);
        },
        TagRange::Element100(_) => {
            let high = crate::hex::spec_hex_byte_text((inner.1 >> 8) as u8);
            assert(t[6] == high[0] && t[7] == high[1]);
            assert(t[8] == WILDCARD && t[9] == WILDCARD);
            assert(t[1] == spec_hex_word_text(inner.0)[0]);
            assert(t[2] == spec_hex_word_text(inner.0)[1]);
            assert(t[3] == spec_hex_word_text(inner.0)[2]);
            assert(t[4] == spec_hex_word_text(inner.0)[3]);
        },
    }
    assert(spec_is_strict_field(t, 1));
    assert(spec_is_strict_field(t, 6));
}

} // verus!
