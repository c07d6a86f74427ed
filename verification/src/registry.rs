//! The registry: an index of dictionary entries by alias and by tag, built once
//! from a list of entries, and the standard dictionary that consults it.

use vstd::prelude::*;
use vstd::string::StringSliceAdditionalSpecFns;
use std::collections::HashMap;
use crate::dictionary::{DataDictionary, DictionaryEntryRef};
use crate::header::Tag;
use crate::text::str_eq;
use crate::entries::{meta_entries, spec_meta_entries, spec_standard_entries, standard_entries};

verus! {

/// The index that comes of inserting each entry of a list, in the list's order,
/// under the key that `key` gives it: of two entries with one key the later one
/// stays.
pub open spec fn spec_index_by<K>(
    entries: Seq<DictionaryEntryRef<'static>>,
    key: spec_fn(DictionaryEntryRef<'static>) -> K,
) -> Map<K, DictionaryEntryRef<'static>>
    decreases entries.len(),
{
    if entries.len() == 0 {
        Map::empty()
    } else {
        spec_index_by(entries.drop_last(), key).insert(key(entries.last()), entries.last())
    }
}

/// The key of an entry in the index by alias: the characters of its alias.
pub open spec fn spec_alias_key() -> spec_fn(DictionaryEntryRef<'static>) -> Seq<char> {
    |entry: DictionaryEntryRef<'static>| entry.alias@
}

/// The key of an entry in the index by tag: the inner tag of its range.
pub open spec fn spec_tag_key() -> spec_fn(DictionaryEntryRef<'static>) -> Tag {
    |entry: DictionaryEntryRef<'static>| entry.tag.spec_inner()
}

/// Whether the entry at index `i` is the last of the list with the key `k`.
pub open spec fn spec_is_last_with<K>(
    entries: Seq<DictionaryEntryRef<'static>>,
    key: spec_fn(DictionaryEntryRef<'static>) -> K,
    k: K,
    i: int,
) -> bool {
    &&& 0 <= i < entries.len()
    &&& key(entries[i]) == k
    &&& forall|j: int| i < j < entries.len() ==> key(#[trigger] entries[j]) != k
}

/// Last write wins: the index holds under a key the last entry of the list that
/// has this key.
pub proof fn lemma_index_holds_last<K>(
    entries: Seq<DictionaryEntryRef<'static>>,
    key: spec_fn(DictionaryEntryRef<'static>) -> K,
    k: K,
    i: int,
)
    requires
        spec_is_last_with(entries, key, k, i),
    ensures
        spec_index_by(entries, key).contains_key(k),
        spec_index_by(entries, key)[k] == entries[i],
    decreases entries.len(),
{
    if i < entries.len() - 1 {
        let shorter = entries.drop_last();
        assert(key(entries[entries.len() - 1]) != k);
        assert forall|j: int| i < j < shorter.len() implies key(#[trigger] shorter[j]) != k by {
            assert(shorter[j] == entries[j]);
        }
        lemma_index_holds_last(shorter, key, k, i);
    }
}

/// The index holds nothing under a key that no entry of the list has.
pub proof fn lemma_index_lacks<K>(
    entries: Seq<DictionaryEntryRef<'static>>,
    key: spec_fn(DictionaryEntryRef<'static>) -> K,
    k: K,
)
    requires
        forall|j: int| 0 <= j < entries.len() ==> key(#[trigger] entries[j]) != k,
    ensures
        !spec_index_by(entries, key).contains_key(k),
    decreases entries.len(),
{
    if entries.len() > 0 {
        let shorter = entries.drop_last();
        assert(key(entries[entries.len() - 1]) != k);
        assert forall|j: int| 0 <= j < shorter.len() implies key(#[trigger] shorter[j]) != k by {
            assert(shorter[j] == entries[j]);
        }
        lemma_index_lacks(shorter, key, k);
    }
}

/// The number under which a tag is filed: its group times 65536 plus its element.
pub open spec fn spec_tag_number(tag: Tag) -> u32 {
    (tag.0 * 65536 + tag.1) as u32
}

/// The number under which a tag is filed.
pub fn tag_number(tag: Tag) -> (number: u32)
    ensures
        number == spec_tag_number(tag),
{
    let group: u32 = tag.0 as u32;
    let element: u32 = tag.1 as u32;
    group * 65536 + element
}

/// The number under which a text is filed, from its bytes: starting from zero,
/// each byte in turn makes of `h` the number `31 * h + byte` modulo 2^64.
pub open spec fn spec_text_number(bytes: Seq<u8>) -> u64
    decreases bytes.len(),
{
    if bytes.len() == 0 {
        0
    } else {
        ((spec_text_number(bytes.drop_last()) * 31 + bytes.last()) % 0x1_0000_0000_0000_0000) as u64
    }
}

/// The number under which a text is filed.
pub fn text_number(text: &str) -> (number: u64)
    ensures
        number == spec_text_number(text.spec_bytes()),
{
    let bytes = text.as_bytes();
    let mut number: u64 = 0;
    let mut i: usize = 0;
    assert(bytes@.take(0) =~= Seq::<u8>::empty());
    while i < bytes.len()
        invariant
            i <= bytes@.len(),
            number == spec_text_number(bytes@.take(i as int)),
        decreases bytes@.len() - i,
    {
        proof {
            let longer = bytes@.take(i + 1);
            assert(longer.drop_last() =~= bytes@.take(i as int));
            assert(longer.last() == bytes@[i as int]);
        }
        let wide: u128 = (number as u128) * 31 + (bytes[i] as u128);
        number = (wide % 0x1_0000_0000_0000_0000) as u64;
        i += 1;
    }
    assert(bytes@.take(bytes@.len() as int) =~= bytes@);
    number
}

/// The number under which an entry is filed by its alias.
pub open spec fn spec_alias_number(entry: DictionaryEntryRef<'static>) -> u64 {
    spec_text_number(entry.alias.spec_bytes())
}

/// Whether `bucket` lists, in rising order, indices of entries whose aliases are
/// filed under `number`.
pub open spec fn spec_bucket_ok(
    entries: Seq<DictionaryEntryRef<'static>>,
    number: u64,
    bucket: Seq<usize>,
) -> bool {
    &&& forall|k: int|
        0 <= k < bucket.len() ==> (#[trigger] bucket[k]) < entries.len() && spec_alias_number(
            entries[bucket[k] as int],
        ) == number
    &&& forall|k1: int, k2: int|
        0 <= k1 < k2 < bucket.len() ==> (#[trigger] bucket[k1]) < (#[trigger] bucket[k2])
}

/// Whether `bucket` lists the index `i`.
pub open spec fn spec_bucket_lists(bucket: Seq<usize>, i: int) -> bool {
    exists|k: int| 0 <= k < bucket.len() && #[trigger] bucket[k] == i
}

/// The data struct containing the standard dictionary: the entries in the order
/// in which they were indexed, and where to find them by alias and by tag.
#[derive(Debug)]
pub struct StandardDictionaryRegistry {
    entries: Vec<DictionaryEntryRef<'static>>,
    by_name: HashMap<u64, Vec<usize>>,
    by_tag: HashMap<u32, usize>,
}

impl StandardDictionaryRegistry {
    /// The entries, in the order in which they were indexed.
    pub closed spec fn spec_entries(&self) -> Seq<DictionaryEntryRef<'static>> {
        self.entries@
    }

    /// The entries by alias: of two with one alias, the one indexed later.
    pub open spec fn spec_by_name(&self) -> Map<Seq<char>, DictionaryEntryRef<'static>> {
        spec_index_by(self.spec_entries(), spec_alias_key())
    }

    /// The entries by the inner tag of their range: of two with one tag, the one
    /// indexed later.
    pub open spec fn spec_by_tag(&self) -> Map<Tag, DictionaryEntryRef<'static>> {
        spec_index_by(self.spec_entries(), spec_tag_key())
    }

    /// The two tables of the registry lead to its entries: each entry is listed
    /// under the number of its alias, and the table by tag holds for each tag's
    /// number the last entry with that tag.
    #[verifier::type_invariant]
    spec fn wf(&self) -> bool {
        &&& forall|number: u64| #[trigger]
            self.by_name@.contains_key(number) ==> spec_bucket_ok(
                self.entries@,
                number,
                self.by_name@[number]@,
            )
        &&& forall|i: int|
            0 <= i < self.entries@.len() ==> self.by_name@.contains_key(
                spec_alias_number(#[trigger] self.entries@[i]),
            ) && spec_bucket_lists(self.by_name@[spec_alias_number(self.entries@[i])]@, i)
        &&& forall|number: u32| #[trigger]
            self.by_tag@.contains_key(number) ==> {
                &&& self.by_tag@[number] < self.entries@.len()
                &&& spec_tag_number(self.entries@[self.by_tag@[number] as int].tag.spec_inner())
                    == number
                &&& forall|j: int|
                    self.by_tag@[number] < j < self.entries@.len() ==> spec_tag_number(
                        (#[trigger] self.entries@[j]).tag.spec_inner(),
                    ) != number
            }
        &&& forall|i: int|
            0 <= i < self.entries@.len() ==> self.by_tag@.contains_key(
                spec_tag_number((#[trigger] self.entries@[i]).tag.spec_inner()),
            )
    }

    /// A registry without entries.
    pub fn new() -> (registry: StandardDictionaryRegistry)
        ensures
            registry.spec_entries() == Seq::<DictionaryEntryRef<'static>>::empty(),
    {
        StandardDictionaryRegistry {
            entries: Vec::new(),
            by_name: HashMap::new(),
            by_tag: HashMap::new(),
        }
    }

    /// Adds an entry, to be found by its alias and by the inner tag of its range
    /// in place of any entry with that alias or that tag that was added before.
    pub fn index(self, entry: DictionaryEntryRef<'static>) -> (registry: StandardDictionaryRegistry)
        ensures
            registry.spec_entries() == self.spec_entries().push(entry),
    {
        broadcast use vstd::std_specs::hash::group_hash_axioms;

        proof {
            use_type_invariant(&self);
        }
        let ghost before = self.entries@;
        let ghost names_before = self.by_name@;
        let ghost tags_before = self.by_tag@;
        let mut entries = self.entries;
        let mut by_name = self.by_name;
        let mut by_tag = self.by_tag;
        let i = entries.len();
        let name_number = text_number(entry.alias);
        let number = tag_number(entry.tag.inner());
        entries.push(entry);
        let mut bucket = match by_name.remove(&name_number) {
            Some(bucket) => bucket,
            None => Vec::new(),
        };
        let ghost bucket_before = bucket@;
        bucket.push(i);
        by_name.insert(name_number, bucket);
        by_tag.insert(number, i);
        proof {
            let after = entries@;
            assert(forall|j: int| 0 <= j < before.len() ==> after[j] == before[j]);
            assert(after[i as int] == entry);
            assert(spec_bucket_ok(before, name_number, bucket_before));
            assert(bucket@[bucket_before.len() as int] == i);
            assert forall|n: u64| #[trigger] by_name@.contains_key(n) implies spec_bucket_ok(
                after,
                n,
                by_name@[n]@,
            ) by {
                if n == name_number {
                    assert forall|k: int| 0 <= k < bucket@.len() implies (#[trigger] bucket@[k])
                        < after.len() && spec_alias_number(after[bucket@[k] as int]) == n by {
                        if k < bucket_before.len() {
                            assert(bucket@[k] == bucket_before[k]);
                        }
                    }
                    assert forall|k1: int, k2: int| 0 <= k1 < k2 < bucket@.len() implies (
                    #[trigger] bucket@[k1]) < (#[trigger] bucket@[k2]) by {
                        assert(bucket@[k1] == bucket_before[k1]);
                        if k2 < bucket_before.len() {
                            assert(bucket@[k2] == bucket_before[k2]);
                        }
                    }
                } else {
                    assert(names_before.contains_key(n));
                    assert(by_name@[n] == names_before[n]);
                    assert(spec_bucket_ok(before, n, names_before[n]@));
                }
            }
            assert forall|j: int| 0 <= j < after.len() implies by_name@.contains_key(
                spec_alias_number(#[trigger] after[j]),
            ) && spec_bucket_lists(by_name@[spec_alias_number(after[j])]@, j) by {
                let n = spec_alias_number(after[j]);
                if j == i {
                    assert(bucket@[bucket_before.len() as int] == j);
                } else {
                    assert(after[j] == before[j]);
                    assert(names_before.contains_key(n));
                    assert(spec_bucket_lists(names_before[n]@, j));
                    if n == name_number {
                        let k = choose|k: int|
                            0 <= k < bucket_before.len() && #[trigger] bucket_before[k] == j;
                        assert(bucket@[k] == j);
                    }
                }
            }
            assert forall|n: u32| #[trigger] by_tag@.contains_key(n) implies {
                &&& by_tag@[n] < after.len()
                &&& spec_tag_number(after[by_tag@[n] as int].tag.spec_inner()) == n
                &&& forall|j: int|
                    by_tag@[n] < j < after.len() ==> spec_tag_number(
                        (#[trigger] after[j]).tag.spec_inner(),
                    ) != n
            } by {
                if n != number {
                    assert(tags_before.contains_key(n));
                    let at = tags_before[n];
                    assert(after[at as int] == before[at as int]);
                    assert forall|j: int| at < j < after.len() implies spec_tag_number(
                        (#[trigger] after[j]).tag.spec_inner(),
                    ) != n by {
                        if j < before.len() {
                            assert(after[j] == before[j]);
                        }
                    }
                }
            }
            assert forall|j: int| 0 <= j < after.len() implies by_tag@.contains_key(
                spec_tag_number((#[trigger] after[j]).tag.spec_inner()),
            ) by {
                if j < before.len() {
                    assert(after[j] == before[j]);
                }
            }
        }
        StandardDictionaryRegistry { entries, by_name, by_tag }
    }

    /// Fetch an entry by its alias.
    pub fn by_name(&self, name: &str) -> (entry: Option<&DictionaryEntryRef<'static>>)
        ensures
            entry == (if self.spec_by_name().contains_key(name@) {
                Some(&self.spec_by_name()[name@])
            } else {
                None
            }),
    {
        broadcast use vstd::std_specs::hash::group_hash_axioms;

        proof {
            use_type_invariant(self);
        }
        let number = text_number(name);
        let ghost entries = self.entries@;
        let ghost key = spec_alias_key();
        match self.by_name.get(&number) {
            None => {
                proof {
                    assert forall|j: int| 0 <= j < entries.len() implies key(
                        #[trigger] entries[j],
                    ) != name@ by {
                        if entries[j].alias@ == name@ {
                            assert(spec_alias_number(entries[j]) == number);
                        }
                    }
                    lemma_index_lacks(entries, key, name@);
                }
                None
            },
            Some(bucket) => {
                let mut k: usize = bucket.len();
                while k > 0
                    invariant
                        self.wf(),
                        entries == self.entries@,
                        key == spec_alias_key(),
                        self.by_name@.contains_key(number),
                        *bucket == self.by_name@[number],
                        number == spec_text_number(name.spec_bytes()),
                        k <= bucket@.len(),
                        forall|k2: int|
                            k <= k2 < bucket@.len() ==> entries[(#[trigger] bucket@[k2]) as int].alias@
                                != name@,
                    decreases k,
                {
                    k -= 1;
                    assert(spec_bucket_ok(entries, number, bucket@));
                    let i = bucket[k];
                    if str_eq(self.entries[i].alias, name) {
                        proof {
                            assert forall|j: int| i < j < entries.len() implies key(
                                #[trigger] entries[j],
                            ) != name@ by {
                                if entries[j].alias@ == name@ {
                                    assert(spec_alias_number(entries[j]) == number);
                                    assert(spec_bucket_lists(bucket@, j));
                                    let k2 = choose|k2: int|
                                        0 <= k2 < bucket@.len() && #[trigger] bucket@[k2] == j;
                                    if k2 < k {
                                        assert(bucket@[k2] < bucket@[k as int]);
                                    }
                                }
                            }
                            lemma_index_holds_last(entries, key, name@, i as int);
                        }
                        return Some(&self.entries[i]);
                    }
                }
                proof {
                    assert forall|j: int| 0 <= j < entries.len() implies key(
                        #[trigger] entries[j],
                    ) != name@ by {
                        if entries[j].alias@ == name@ {
                            assert(spec_alias_number(entries[j]) == number);
                            assert(spec_bucket_lists(bucket@, j));
                        }
                    }
                    lemma_index_lacks(entries, key, name@);
                }
                None
            },
        }
    }

    /// Fetch an entry by its tag.
    pub fn by_tag(&self, tag: Tag) -> (entry: Option<&DictionaryEntryRef<'static>>)
        ensures
            entry == (if self.spec_by_tag().contains_key(tag) {
                Some(&self.spec_by_tag()[tag])
            } else {
                None
            }),
    {
        broadcast use vstd::std_specs::hash::group_hash_axioms;

        proof {
            use_type_invariant(self);
        }
        let number = tag_number(tag);
        let ghost entries = self.entries@;
        let ghost key = spec_tag_key();
        match self.by_tag.get(&number) {
            None => {
                proof {
                    assert forall|j: int| 0 <= j < entries.len() implies key(
                        #[trigger] entries[j],
                    ) != tag by {
                        if entries[j].tag.spec_inner() == tag {
                            assert(spec_tag_number(entries[j].tag.spec_inner()) == number);
                        }
                    }
                    lemma_index_lacks(entries, key, tag);
                }
                None
            },
            Some(at) => {
                let i = *at;
                proof {
                    assert(self.by_tag@.contains_key(number));
                    assert(key(entries[i as int]) == tag);
                    assert forall|j: int| i < j < entries.len() implies key(
                        #[trigger] entries[j],
                    ) != tag by {
                        assert(spec_tag_number(entries[j].tag.spec_inner()) != number);
                    }
                    lemma_index_holds_last(entries, key, tag, i as int);
                }
                Some(&self.entries[i])
            },
        }
    }
}

impl StandardDictionaryRegistry {
    /// Adds the entries of a list, in the list's order.
    pub fn index_all(self, entries: &Vec<DictionaryEntryRef<'static>>) -> (registry:
        StandardDictionaryRegistry)
        ensures
            registry.spec_entries() == self.spec_entries() + entries@,
    {
        let mut registry = self;
        let mut i: usize = 0;
        assert(self.spec_entries() + entries@.take(0) =~= self.spec_entries());
        while i < entries.len()
            invariant
                i <= entries@.len(),
                registry.spec_entries() == self.spec_entries() + entries@.take(i as int),
            decreases entries@.len() - i,
        {
            registry = registry.index(entries[i]);
            assert(entries@.take(i + 1) =~= entries@.take(i as int).push(entries@[i as int]));
            assert(registry.spec_entries() =~= self.spec_entries() + entries@.take(i + 1));
            i += 1;
        }
        assert(entries@.take(entries@.len() as int) =~= entries@);
        registry
    }
}

/// Builds the registry of the standard dictionary: the attributes of the
/// standard's registry of data elements, then those of the file meta
/// information, which take the place of an earlier entry with the same alias or
/// tag.
pub fn init_dictionary() -> (registry: StandardDictionaryRegistry)
    ensures
        registry.spec_entries() == spec_standard_entries() + spec_meta_entries(),
{
    let registry = StandardDictionaryRegistry::new().index_all(&standard_entries()).index_all(
        &meta_entries(),
    );
    assert(registry.spec_entries() =~= spec_standard_entries() + spec_meta_entries());
    registry
}

/// A data dictionary that holds the registry of the standard dictionary.
#[derive(Debug)]
pub struct StandardDataDictionary {
    registry: StandardDictionaryRegistry,
}

impl StandardDataDictionary {
    /// The entries of the dictionary, in the order in which they were indexed.
    pub closed spec fn spec_entries(&self) -> Seq<DictionaryEntryRef<'static>> {
        self.registry.spec_entries()
    }

    /// The standard dictionary.
    pub fn new() -> (dictionary: StandardDataDictionary)
        ensures
            dictionary.spec_entries() == spec_standard_entries() + spec_meta_entries(),
    {
        StandardDataDictionary { registry: init_dictionary() }
    }

    /// A dictionary over a registry.
    pub fn with_registry(registry: StandardDictionaryRegistry) -> (dictionary:
        StandardDataDictionary)
        ensures
            dictionary.spec_entries() == registry.spec_entries(),
    {
        StandardDataDictionary { registry }
    }

    /// The name of this dictionary.
    pub fn to_text(&self) -> (text: String)
        ensures
            text@ == "Standard DICOM Data Dictionary"@,
    {
        "Standard DICOM Data Dictionary".to_owned()
    }
}

impl Default for StandardDataDictionary {
    fn default() -> (dictionary: StandardDataDictionary)
        ensures
            dictionary.spec_entries() == spec_standard_entries() + spec_meta_entries(),
    {
        StandardDataDictionary::new()
    }
}

impl DataDictionary for StandardDataDictionary {
    type Entry = DictionaryEntryRef<'static>;

    open spec fn spec_by_name(&self) -> Map<Seq<char>, DictionaryEntryRef<'static>> {
        spec_index_by(self.spec_entries(), spec_alias_key())
    }

    open spec fn spec_by_tag(&self) -> Map<Tag, DictionaryEntryRef<'static>> {
        spec_index_by(self.spec_entries(), spec_tag_key())
    }

    fn by_name(&self, name: &str) -> (entry: Option<&DictionaryEntryRef<'static>>) {
        self.registry.by_name(name)
    }

    fn by_tag(&self, tag: Tag) -> (entry: Option<&DictionaryEntryRef<'static>>) {
        self.registry.by_tag(tag)
    }
}

impl<'a> DataDictionary for &'a StandardDataDictionary {
    type Entry = DictionaryEntryRef<'static>;

    open spec fn spec_by_name(&self) -> Map<Seq<char>, DictionaryEntryRef<'static>> {
        spec_index_by(self.spec_entries(), spec_alias_key())
    }

    open spec fn spec_by_tag(&self) -> Map<Tag, DictionaryEntryRef<'static>> {
        spec_index_by(self.spec_entries(), spec_tag_key())
    }

    fn by_name(&self, name: &str) -> (entry: Option<&DictionaryEntryRef<'static>>) {
        self.registry.by_name(name)
    }

    fn by_tag(&self, tag: Tag) -> (entry: Option<&DictionaryEntryRef<'static>>) {
        self.registry.by_tag(tag)
    }
}

} // verus!
