//! The concept of a data dictionary: entries that describe attributes, and
//! lookup of an entry by alias or by tag.

use vstd::prelude::*;
use crate::header::{Tag, VR};
use crate::tag_range::TagRange;

verus! {

/// The dictionary entry data type, representing one attribute.
pub trait DictionaryEntry {
    /// The attribute tag or tag range, as a value of the model.
    spec fn spec_tag(&self) -> TagRange;

    /// The characters of the alias.
    spec fn spec_alias(&self) -> Seq<char>;

    /// The value representation, as a value of the model.
    spec fn spec_vr(&self) -> VR;

    /// The attribute tag or tag range.
    fn tag(&self) -> (tag: TagRange)
        ensures
            tag == self.spec_tag(),
    ;

    /// The alias of the attribute, with no spaces, usually in UpperCamelCase.
    fn alias(&self) -> (alias: &str)
        ensures
            alias@ == self.spec_alias(),
    ;

    /// The typical value representation of the attribute.
    fn vr(&self) -> (vr: VR)
        ensures
            vr == self.spec_vr(),
    ;
}

/// A dictionary of attributes: the means to find an attribute's entry by its alias
/// or by its tag.
pub trait DataDictionary {
    /// The type of the dictionary entry.
    type Entry: DictionaryEntry;

    /// The entries that the dictionary holds, by the characters of their alias.
    spec fn spec_by_name(&self) -> Map<Seq<char>, Self::Entry>;

    /// The entries that the dictionary holds, by tag.
    spec fn spec_by_tag(&self) -> Map<Tag, Self::Entry>;

    /// Fetch an entry by its usual alias (e.g. "PatientName" or "SOPInstanceUID").
    /// Aliases are case sensitive and not separated by spaces.
    fn by_name(&self, name: &str) -> (entry: Option<&Self::Entry>)
        ensures
            entry == (if self.spec_by_name().contains_key(name@) {
                Some(&self.spec_by_name()[name@])
            } else {
                None
            }),
    ;

    /// Fetch an entry by its tag.
    fn by_tag(&self, tag: Tag) -> (entry: Option<&Self::Entry>)
        ensures
            entry == (if self.spec_by_tag().contains_key(tag) {
                Some(&self.spec_by_tag()[tag])
            } else {
                None
            }),
    ;
}

/// A data type for a dictionary entry with full ownership.
#[derive(Debug, PartialEq, Eq, Hash, Clone)]
pub struct DictionaryEntryBuf {
    /// The attribute tag or tag range
    pub tag: TagRange,
    /// The alias of the attribute, with no spaces, usually in UpperCamelCase
    pub alias: String,
    /// The typical value representation of the attribute, although more may be applicable
    pub vr: VR,
}

impl DictionaryEntry for DictionaryEntryBuf {
    open spec fn spec_tag(&self) -> TagRange {
        self.tag
    }

    open spec fn spec_alias(&self) -> Seq<char> {
        self.alias@
    }

    open spec fn spec_vr(&self) -> VR {
        self.vr
    }

    fn tag(&self) -> (tag: TagRange) {
        self.tag
    }

    fn alias(&self) -> (alias: &str) {
        self.alias.as_str()
    }

    fn vr(&self) -> (vr: VR) {
        self.vr
    }
}

/// A data type for a dictionary entry with a string slice for its alias.
#[derive(Debug, PartialEq, Eq, Hash, Copy, Clone)]
pub struct DictionaryEntryRef<'a> {
    /// The attribute tag
    pub tag: TagRange,
    /// The alias of the attribute, with no spaces, usually in UpperCamelCase
    pub alias: &'a str,
    /// The typical value representation of the attribute
    pub vr: VR,
}

impl<'a> DictionaryEntry for DictionaryEntryRef<'a> {
    open spec fn spec_tag(&self) -> TagRange {
        self.tag
    }

    open spec fn spec_alias(&self) -> Seq<char> {
        self.alias@
    }

    open spec fn spec_vr(&self) -> VR {
        self.vr
    }

    fn tag(&self) -> (tag: TagRange) {
        self.tag
    }

    fn alias(&self) -> (alias: &str) {
        self.alias
    }

    fn vr(&self) -> (vr: VR) {
        self.vr
    }
}

/// Utility data structure that resolves to an attribute tag at a later time.
#[derive(Debug)]
pub struct TagByName<'a, D: DataDictionary> {
    dict: D,
    name: &'a str,
}

impl<'a, D: DataDictionary> TagByName<'a, D> {
    /// The dictionary that the name is looked up in.
    pub closed spec fn spec_dictionary(self) -> D {
        self.dict
    }

    /// The characters of the name.
    pub closed spec fn spec_name(self) -> Seq<char> {
        self.name@
    }

    /// The tag that the name resolves to: the inner tag of the entry that the
    /// dictionary holds under the name, if it holds one.
    pub open spec fn spec_resolve(self) -> Option<Tag> {
        let entries = self.spec_dictionary().spec_by_name();
        if entries.contains_key(self.spec_name()) {
            Some(entries[self.spec_name()].spec_tag().spec_inner())
        } else {
            None
        }
    }

    /// Create a tag resolver by name using the given dictionary.
    pub fn new(dictionary: D, name: &'a str) -> (resolver: TagByName<'a, D>)
        ensures
            resolver.spec_dictionary() == dictionary,
            resolver.spec_name() == name@,
    {
        TagByName { dict: dictionary, name: name }
    }

    /// Looks the name up and gives the tag of the entry found.
    pub fn resolve(self) -> (tag: Option<Tag>)
        ensures
            tag == self.spec_resolve(),
    {
        match self.dict.by_name(self.name) {
            Some(entry) => Some(entry.tag().inner()),
            None => None,
        }
    }
}

impl<'a, D: DataDictionary> From<TagByName<'a, D>> for Option<Tag> {
    fn from(tag: TagByName<'a, D>) -> (resolved: Option<Tag>) {
        tag.resolve()
    }
}

impl<'a, D: DataDictionary> vstd::std_specs::convert::FromSpecImpl<TagByName<'a, D>> for Option<Tag> {
    open spec fn obeys_from_spec() -> bool {
        true
    }

    open spec fn from_spec(tag: TagByName<'a, D>) -> Option<Tag> {
        tag.spec_resolve()
    }
}

} // verus!
