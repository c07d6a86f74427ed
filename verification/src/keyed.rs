//! The structured data file: the records keyed by their tag text, in the order
//! of the keys, where a later record takes the place of an earlier one with the
//! same tag text.

use vstd::prelude::*;
use vstd::utf8::encode_utf8;
use crate::extract::{Entry, EntryView, spec_entry_views, spec_opt_text};

verus! {

/// Whether `a` comes before `b` in the order of byte strings: at the first index
/// at which they differ `a` has the smaller byte, or `a` ends there and `b` does
/// not.
pub open spec fn spec_bytes_before(a: Seq<u8>, b: Seq<u8>) -> bool {
    exists|i: int| #[trigger] spec_differ_at(a, b, i) && (i == a.len() || a[i] < b[i])
}

/// Whether `a` and `b` are equal before the index `i` and not equal at it, `b`
/// being the longer one where one of them ends at `i`.
pub open spec fn spec_differ_at(a: Seq<u8>, b: Seq<u8>, i: int) -> bool {
    &&& 0 <= i <= a.len()
    &&& i < b.len()
    &&& a.take(i) == b.take(i)
    &&& i < a.len() ==> a[i] != b[i]
}

/// How one text stands to another in the order of their bytes.
#[derive(Debug, Clone, Copy, PartialEq, Eq, Structural)]
pub enum TextOrder {
    /// The first comes before the second.
    Before,
    /// The two are equal.
    Same,
    /// The first comes after the second.
    After,
}

/// The order of byte strings is transitive.
pub proof fn lemma_before_transitive(a: Seq<u8>, b: Seq<u8>, c: Seq<u8>)
    requires
        spec_bytes_before(a, b),
        spec_bytes_before(b, c),
    ensures
        spec_bytes_before(a, c),
{
    let i = choose|i: int| #[trigger] spec_differ_at(a, b, i) && (i == a.len() || a[i] < b[i]);
    let j = choose|j: int| #[trigger] spec_differ_at(b, c, j) && (j == b.len() || b[j] < c[j]);
    let k = if i <= j {
        i
    } else {
        j
    };
    assert(a.take(k) =~= c.take(k)) by {
        assert forall|x: int| 0 <= x < k implies a[x] == c[x] by {
            assert(a.take(i)[x] == b.take(i)[x]);
            assert(b.take(j)[x] == c.take(j)[x]);
        }
    }
    if i < j {
        assert(b.take(j)[i] == c.take(j)[i]);
    } else if j < i {
        assert(a.take(i)[j] == b.take(i)[j]);
    }
    assert(spec_differ_at(a, c, k));
}

/// No byte string comes before itself.
pub proof fn lemma_before_irreflexive(a: Seq<u8>)
    ensures
        !spec_bytes_before(a, a),
{
}

/// How `a` stands to `b` in the order of byte strings.
pub open spec fn spec_compare(a: Seq<u8>, b: Seq<u8>) -> TextOrder {
    if a == b {
        TextOrder::Same
    } else if spec_bytes_before(a, b) {
        TextOrder::Before
    } else {
        TextOrder::After
    }
}

/// Of two byte strings that are not equal, one comes before the other, and not
/// both ways.
pub proof fn lemma_before_asymmetric(a: Seq<u8>, b: Seq<u8>)
    requires
        spec_bytes_before(a, b),
    ensures
        a != b,
        !spec_bytes_before(b, a),
{
    lemma_before_irreflexive(a);
    if spec_bytes_before(b, a) {
        lemma_before_transitive(a, b, a);
    }
}

/// Compares two byte strings.
pub fn compare_bytes(a: &[u8], b: &[u8]) -> (order: TextOrder)
    ensures
        order == spec_compare(a@, b@),
        order == TextOrder::Before ==> spec_bytes_before(a@, b@),
        order == TextOrder::Same ==> a@ == b@,
        order == TextOrder::After ==> spec_bytes_before(b@, a@),
{
    let mut i: usize = 0;
    assert(a@.take(0) =~= b@.take(0));
    while i < a.len() && i < b.len()
        invariant
            i <= a@.len(),
            i <= b@.len(),
            a@.take(i as int) == b@.take(i as int),
        decreases a@.len() - i,
    {
        if a[i] < b[i] {
            assert(spec_differ_at(a@, b@, i as int));
            proof {
                lemma_before_asymmetric(a@, b@);
            }
            return TextOrder::Before;
        }
        if a[i] > b[i] {
            assert(spec_differ_at(b@, a@, i as int));
            proof {
                lemma_before_asymmetric(b@, a@);
            }
            return TextOrder::After;
        }
        assert(a@.take(i + 1) =~= a@.take(i as int).push(a@[i as int]));
        assert(b@.take(i + 1) =~= b@.take(i as int).push(b@[i as int]));
        i += 1;
    }
    if i < b.len() {
        assert(spec_differ_at(a@, b@, i as int));
        proof {
            lemma_before_asymmetric(a@, b@);
        }
        TextOrder::Before
    } else if i < a.len() {
        assert(spec_differ_at(b@, a@, i as int));
        proof {
            lemma_before_asymmetric(b@, a@);
        }
        TextOrder::After
    } else {
        assert(a@.take(a@.len() as int) =~= a@);
        assert(b@.take(b@.len() as int) =~= b@);
        TextOrder::Same
    }
}

/// Compares two texts by their bytes, as std orders strings.
pub fn compare_texts(a: &str, b: &str) -> (order: TextOrder)
    ensures
        order == spec_compare(encode_utf8(a@), encode_utf8(b@)),
        order == TextOrder::Before ==> spec_bytes_before(encode_utf8(a@), encode_utf8(b@)),
        order == TextOrder::Same ==> a@ == b@,
        order == TextOrder::After ==> spec_bytes_before(encode_utf8(b@), encode_utf8(a@)),
{
    let order = compare_bytes(a.as_bytes(), b.as_bytes());
    proof {
        vstd::utf8::encode_utf8_decode_utf8(a@);
        vstd::utf8::encode_utf8_decode_utf8(b@);
    }
    order
}

/// The records by their tag text: each record of the list put in, in the list's
/// order, under its tag text, in place of an earlier one with the same text.
pub open spec fn spec_keyed(entries: Seq<EntryView>) -> Map<Seq<char>, EntryView>
    decreases entries.len(),
{
    if entries.len() == 0 {
        Map::empty()
    } else {
        spec_keyed(entries.drop_last()).insert(entries.last().tag, entries.last())
    }
}

/// Whether the tag texts of a list of records rise strictly from each record to
/// the next, in the order of their bytes.
pub open spec fn spec_rising(list: Seq<EntryView>) -> bool {
    forall|i: int, j: int|
        0 <= i < j < list.len() ==> spec_bytes_before(
            encode_utf8((#[trigger] list[i]).tag),
            encode_utf8((#[trigger] list[j]).tag),
        )
}

/// Whether `list` lists what `keyed` holds: in the order of the keys, each record
/// of `keyed` once, under its own tag text, and nothing else.
pub open spec fn spec_lists(list: Seq<EntryView>, keyed: Map<Seq<char>, EntryView>) -> bool {
    &&& spec_rising(list)
    &&& forall|i: int|
        0 <= i < list.len() ==> keyed.contains_key((#[trigger] list[i]).tag) && keyed[list[i].tag]
            == list[i]
    &&& forall|key: Seq<char>| #[trigger]
        keyed.contains_key(key) ==> exists|i: int| 0 <= i < list.len() && (#[trigger] list[i]).tag == key
}

/// A copy of a text that may be absent.
fn copy_text(text: &Option<String>) -> (copy: Option<String>)
    ensures
        spec_opt_text(copy) == spec_opt_text(*text),
{
    match text {
        Some(text) => Some(text.clone()),
        None => None,
    }
}

/// A copy of a record.
pub fn copy_entry(entry: &Entry) -> (copy: Entry)
    ensures
        copy@ == entry@,
{
    Entry {
        tag: entry.tag.clone(),
        name: copy_text(&entry.name),
        alias: copy_text(&entry.alias),
        vr: copy_text(&entry.vr),
        vm: copy_text(&entry.vm),
        obs: copy_text(&entry.obs),
    }
}

/// Puts a record into a list that is in the order of the tag texts: in place of
/// the record with the same tag text, if there is one.
pub fn put_entry(list: &mut Vec<Entry>, entry: Entry)
    requires
        spec_rising(spec_entry_views(old(list)@)),
    ensures
        spec_rising(spec_entry_views(final(list)@)),
        forall|keyed: Map<Seq<char>, EntryView>|
            spec_lists(spec_entry_views(old(list)@), keyed) ==> spec_lists(
                spec_entry_views(final(list)@),
                #[trigger] keyed.insert(entry@.tag, entry@),
            ),
{
    let ghost before = spec_entry_views(list@);
    let ghost key = encode_utf8(entry@.tag);
    let mut at: usize = 0;
    let mut same = false;
    while at < list.len()
        invariant_except_break
            !same,
        invariant
            at <= list@.len(),
            before == spec_entry_views(list@),
            list@ == old(list)@,
            key == encode_utf8(entry@.tag),
            forall|i: int| 0 <= i < at ==> spec_bytes_before(encode_utf8((#[trigger] before[i]).tag), key),
        ensures
            at <= list@.len(),
            before == spec_entry_views(list@),
            list@ == old(list)@,
            forall|i: int| 0 <= i < at ==> spec_bytes_before(encode_utf8((#[trigger] before[i]).tag), key),
            same ==> at < list@.len() && before[at as int].tag == entry@.tag,
            !same && at < list@.len() ==> spec_bytes_before(key, encode_utf8(before[at as int].tag)),
        decreases list@.len() - at,
    {
        assert(before[at as int] == list@[at as int]@);
        match compare_texts(list[at].tag.as_str(), entry.tag.as_str()) {
            TextOrder::Before => {
                at += 1;
            },
            TextOrder::Same => {
                same = true;
                break;
            },
            TextOrder::After => {
                break;
            },
        }
    }
    let ghost view = entry@;
    if same {
        list.set(at, entry);
        proof {
            let after = spec_entry_views(list@);
            assert(after =~= before.update(at as int, view));
            assert(spec_rising(after)) by {
                assert forall|i: int, j: int| 0 <= i < j < after.len() implies spec_bytes_before(
                    encode_utf8((#[trigger] after[i]).tag),
                    encode_utf8((#[trigger] after[j]).tag),
                ) by {
                    assert(after[i].tag == before[i].tag);
                    assert(after[j].tag == before[j].tag);
                }
            }
            assert forall|keyed: Map<Seq<char>, EntryView>|
                spec_lists(before, keyed) implies spec_lists(
                after,
                #[trigger] keyed.insert(view.tag, view),
            ) by {
                let next = keyed.insert(view.tag, view);
                assert forall|i: int| 0 <= i < after.len() implies next.contains_key(
                    (#[trigger] after[i]).tag,
                ) && next[after[i].tag] == after[i] by {
                    if i != at {
                        assert(after[i] == before[i]);
                        assert(before[i].tag != view.tag) by {
                            lemma_before_irreflexive(encode_utf8(view.tag));
                            if i < at {
                                assert(spec_bytes_before(
                                    encode_utf8(before[i].tag),
                                    encode_utf8(before[at as int].tag),
                                ));
                            } else {
                                assert(spec_bytes_before(
                                    encode_utf8(before[at as int].tag),
                                    encode_utf8(before[i].tag),
                                ));
                            }
                        }
                    }
                }
                assert forall|k: Seq<char>| #[trigger] next.contains_key(k) implies exists|i: int|
                    0 <= i < after.len() && (#[trigger] after[i]).tag == k by {
                    if k == view.tag {
                        assert(after[at as int].tag == k);
                    } else {
                        assert(keyed.contains_key(k));
                        let i = choose|i: int| 0 <= i < before.len() && (#[trigger] before[i]).tag == k;
                        assert(after[i].tag == k);
                    }
                }
            }
        }
    } else {
        list.insert(at, entry);
        proof {
            let after = spec_entry_views(list@);
            assert(after =~= before.insert(at as int, view));
            assert forall|i: int| at < i < after.len() implies spec_bytes_before(
                key,
                encode_utf8((#[trigger] after[i]).tag),
            ) by {
                assert(after[i] == before[i - 1]);
                if i - 1 > at {
                    assert(spec_bytes_before(
                        encode_utf8(before[at as int].tag),
                        encode_utf8(before[i - 1].tag),
                    ));
                    lemma_before_transitive(
                        key,
                        encode_utf8(before[at as int].tag),
                        encode_utf8(before[i - 1].tag),
                    );
                }
            }
            assert(spec_rising(after)) by {
                assert forall|i: int, j: int| 0 <= i < j < after.len() implies spec_bytes_before(
                    encode_utf8((#[trigger] after[i]).tag),
                    encode_utf8((#[trigger] after[j]).tag),
                ) by {
                    if i < at {
                        assert(after[i] == before[i]);
                    } else if i > at {
                        assert(after[i] == before[i - 1]);
                    }
                    if j < at {
                        assert(after[j] == before[j]);
                    } else if j > at {
                        assert(after[j] == before[j - 1]);
                    }
                    if i < at && j > at {
                        assert(spec_bytes_before(encode_utf8(before[i].tag), key));
                        lemma_before_transitive(
                            encode_utf8(before[i].tag),
                            key,
                            encode_utf8(after[j].tag),
                        );
                    }
                }
            }
            assert forall|keyed: Map<Seq<char>, EntryView>|
                spec_lists(before, keyed) implies spec_lists(
                after,
                #[trigger] keyed.insert(view.tag, view),
            ) by {
                let next = keyed.insert(view.tag, view);
                assert forall|i: int| 0 <= i < after.len() implies next.contains_key(
                    (#[trigger] after[i]).tag,
                ) && next[after[i].tag] == after[i] by {
                    lemma_before_irreflexive(key);
                    if i < at {
                        assert(after[i] == before[i]);
                        assert(spec_bytes_before(encode_utf8(before[i].tag), key));
                    } else if i > at {
                        assert(after[i] == before[i - 1]);
                        assert(spec_bytes_before(key, encode_utf8(after[i].tag)));
                    }
                }
                assert forall|k: Seq<char>| #[trigger] next.contains_key(k) implies exists|i: int|
                    0 <= i < after.len() && (#[trigger] after[i]).tag == k by {
                    if k == view.tag {
                        assert(after[at as int].tag == k);
                    } else {
                        assert(keyed.contains_key(k));
                        let i = choose|i: int| 0 <= i < before.len() && (#[trigger] before[i]).tag == k;
                        if i < at {
                            assert(after[i].tag == k);
                        } else {
                            assert(after[i + 1] == before[i]);
                            assert(after[i + 1].tag == k);
                        }
                    }
                }
            }
        }
    }
}

/// The records of the structured data file: for each tag text the last record of
/// the list with that text, in the order of the tag texts' bytes.
pub fn keyed_entries(entries: &Vec<Entry>) -> (list: Vec<Entry>)
    ensures
        spec_lists(spec_entry_views(list@), spec_keyed(spec_entry_views(entries@))),
{
    let ghost views = spec_entry_views(entries@);
    let mut list: Vec<Entry> = Vec::new();
    let mut i: usize = 0;
    assert(views.take(0) =~= Seq::<EntryView>::empty());
    assert(spec_lists(spec_entry_views(list@), spec_keyed(views.take(0))));
    while i < entries.len()
        invariant
            i <= entries@.len(),
            views == spec_entry_views(entries@),
            spec_lists(spec_entry_views(list@), spec_keyed(views.take(i as int))),
        decreases entries@.len() - i,
    {
        proof {
            let longer = views.take(i + 1);
            assert(longer.drop_last() =~= views.take(i as int));
            assert(longer.last() == entries@[i as int]@);
        }
        let ghost keyed = spec_keyed(views.take(i as int));
        let copy = copy_entry(&entries[i]);
        put_entry(&mut list, copy);
        assert(spec_lists(spec_entry_views(list@), keyed.insert(copy@.tag, copy@)));
        i += 1;
    }
    assert(views.take(entries@.len() as int) =~= views);
    list
}

} // verus!
