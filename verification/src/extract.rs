//! The extraction pipeline: a single pass over the events of a markup document
//! that finds the attribute table and hands out its rows as raw records.

use vstd::prelude::*;
use vstd::slice::slice_subrange;
use vstd::string::StringSliceAdditionalSpecFns;
use crate::text::{bytes_eq, find_byte, lemma_first_byte, remove_char};
use crate::text::{spec_first_byte, spec_has_byte, spec_remove_char};
use crate::xml::{EventReader, XmlAttribute, XmlEvent, XmlEventView};
use crate::xml::{open_reader, read_attributes, read_event, unescape_text};
use crate::xml::{reader_pending, xml_attributes, xml_events, xml_unescaped};
use crate::xml::{spec_attribute_item, spec_attribute_items, spec_decoded};

verus! {

/// The zero-width space, which is taken out of each cell's text.
pub const ZERO_WIDTH_SPACE: char = '\u{200b}';

/// The byte `:`, which parts the prefix of an element's name from its local name.
pub const COLON: u8 = 0x3a;

/// Where the pipeline stands in the document.
#[derive(Debug, PartialEq, Eq, Clone, Copy, Structural)]
pub enum XmlReadingState {
    /// Before the table.
    Off,
    /// In the table, before its body.
    InTableHead,
    /// In the body, between cells of a row or between rows.
    InTable,
    /// In the first cell of a row: the tag.
    InCellTag,
    /// In the second cell: the name.
    InCellName,
    /// In the third cell: the keyword, which is the alias.
    InCellKeyword,
    /// In the fourth cell: the value representation.
    InCellVR,
    /// In the fifth cell: the value multiplicity.
    InCellVM,
    /// In the sixth cell: the notes.
    InCellObs,
    /// In a cell after the sixth.
    InCellUnknown,
}

/// A raw record: one row of the table, as text.
#[derive(Debug, PartialEq, Eq, Clone)]
pub struct Entry {
    /// The tag, such as `(0010,0010)`.
    pub tag: String,
    /// The name of the attribute.
    pub name: Option<String>,
    /// The keyword of the attribute, which is its alias.
    pub alias: Option<String>,
    /// The value representation.
    pub vr: Option<String>,
    /// The value multiplicity.
    pub vm: Option<String>,
    /// The notes, such as `RET` for a retired attribute.
    pub obs: Option<String>,
}

/// The mathematical value of a raw record.
pub struct EntryView {
    pub tag: Seq<char>,
    pub name: Option<Seq<char>>,
    pub alias: Option<Seq<char>>,
    pub vr: Option<Seq<char>>,
    pub vm: Option<Seq<char>>,
    pub obs: Option<Seq<char>>,
}

/// The characters of a text that may be absent.
pub open spec fn spec_opt_text(text: Option<String>) -> Option<Seq<char>> {
    match text {
        Some(s) => Some(s@),
        None => None,
    }
}

impl View for Entry {
    type V = EntryView;

    open spec fn view(&self) -> EntryView {
        EntryView {
            tag: self.tag@,
            name: spec_opt_text(self.name),
            alias: spec_opt_text(self.alias),
            vr: spec_opt_text(self.vr),
            vm: spec_opt_text(self.vm),
            obs: spec_opt_text(self.obs),
        }
    }
}

/// The mathematical values of a list of records.
pub open spec fn spec_entry_views(entries: Seq<Entry>) -> Seq<EntryView> {
    entries.map_values(|entry: Entry| entry@)
}

/// Where a failure of the pipeline comes from.
#[derive(Debug, PartialEq, Eq, Clone, Copy, Structural)]
pub enum XmlErrorKind {
    /// The reader cannot read the document any further.
    Reader,
    /// An attribute of a table's start tag is malformed.
    Attribute,
    /// The text of a cell cannot be unescaped or decoded.
    Text,
}

/// A failure to read the document, reported in place of a record.
#[derive(Debug, PartialEq, Eq, Clone)]
pub struct XmlError {
    /// Where the failure comes from.
    pub kind: XmlErrorKind,
    /// The message of the markup reader.
    pub message: String,
}

impl View for XmlError {
    type V = (XmlErrorKind, Seq<char>);

    open spec fn view(&self) -> (XmlErrorKind, Seq<char>) {
        (self.kind, self.message@)
    }
}

/// What one event brings about.
#[derive(Debug, PartialEq, Eq, Clone)]
pub enum Step {
    /// Nothing to hand out; the next event is to be read.
    Continue,
    /// A row has ended: its record.
    Record(Entry),
    /// A failure, to be reported in place of a record.
    Failure(XmlError),
    /// The table has ended, or the document has.
    Stop,
}

/// The mathematical value of a `Step`.
pub enum StepView {
    Continue,
    Record(EntryView),
    Failure((XmlErrorKind, Seq<char>)),
    Stop,
}

impl View for Step {
    type V = StepView;

    open spec fn view(&self) -> StepView {
        match self {
            Step::Continue => StepView::Continue,
            Step::Record(entry) => StepView::Record(entry@),
            Step::Failure(error) => StepView::Failure(error@),
            Step::Stop => StepView::Stop,
        }
    }
}

/// The state of the pipeline apart from its reader: where it stands, and the
/// cells of the current row that it has seen.
pub struct TableScanner {
    state: XmlReadingState,
    depth: u32,
    tag: Option<String>,
    name: Option<String>,
    keyword: Option<String>,
    vr: Option<String>,
    vm: Option<String>,
    obs: Option<String>,
    finished: bool,
}

/// The mathematical value of a `TableScanner`.
pub struct ScannerView {
    pub state: XmlReadingState,
    /// The number of elements that are open, modulo 2^32.
    pub depth: u32,
    pub tag: Option<Seq<char>>,
    pub name: Option<Seq<char>>,
    pub keyword: Option<Seq<char>>,
    pub vr: Option<Seq<char>>,
    pub vm: Option<Seq<char>>,
    pub obs: Option<Seq<char>>,
    /// Whether the table or the document has ended.
    pub finished: bool,
}

impl View for TableScanner {
    type V = ScannerView;

    closed spec fn view(&self) -> ScannerView {
        ScannerView {
            state: self.state,
            depth: self.depth,
            tag: spec_opt_text(self.tag),
            name: spec_opt_text(self.name),
            keyword: spec_opt_text(self.keyword),
            vr: spec_opt_text(self.vr),
            vm: spec_opt_text(self.vm),
            obs: spec_opt_text(self.obs),
            finished: self.finished,
        }
    }
}

/// The name of the element that holds the table.
pub open spec fn spec_table_name() -> Seq<u8> {
    "table".spec_bytes()
}

/// The name of the element that holds the table's body.
pub open spec fn spec_body_name() -> Seq<u8> {
    "tbody".spec_bytes()
}

/// The name of the element that holds a row.
pub open spec fn spec_row_name() -> Seq<u8> {
    "tr".spec_bytes()
}

/// The name of the element that holds the text of a cell.
pub open spec fn spec_cell_name() -> Seq<u8> {
    "para".spec_bytes()
}

/// Whether an attribute is the identifier of the attribute table.
pub open spec fn spec_is_target(attribute: (Seq<u8>, Seq<u8>)) -> bool {
    attribute.0 == "xml:id".spec_bytes() && attribute.1 == "table_6-1".spec_bytes()
}

/// The part of an element's name after its first colon, or the whole name where
/// it has no colon.
pub open spec fn spec_local_name(name: Seq<u8>) -> Seq<u8> {
    if spec_has_byte(name, COLON) {
        name.subrange(spec_first_byte(name, COLON) + 1, name.len() as int)
    } else {
        name
    }
}

/// The first attribute that is malformed or identifies the attribute table:
/// `Some(Ok(()))` where that is the identifier, `Some(Err(..))` with the message
/// where it is malformed, `None` where there is no such attribute.
pub open spec fn spec_find_target(items: Seq<Result<(Seq<u8>, Seq<u8>), Seq<char>>>) -> Option<
    Result<(), Seq<char>>,
>
    decreases items.len(),
{
    if items.len() == 0 {
        None
    } else {
        match items[0] {
            Err(message) => Some(Err(message)),
            Ok(attribute) => if spec_is_target(attribute) {
                Some(Ok(()))
            } else {
                spec_find_target(items.drop_first())
            },
        }
    }
}

/// Whether text is kept in this state: in one of the six cells of a row.
pub open spec fn spec_in_cell(state: XmlReadingState) -> bool {
    match state {
        XmlReadingState::InCellTag
        | XmlReadingState::InCellName
        | XmlReadingState::InCellKeyword
        | XmlReadingState::InCellVR
        | XmlReadingState::InCellVM
        | XmlReadingState::InCellObs => true,
        _ => false,
    }
}

/// The state after the start of a cell.
pub open spec fn spec_next_cell(state: XmlReadingState) -> XmlReadingState {
    match state {
        XmlReadingState::InTable => XmlReadingState::InCellTag,
        XmlReadingState::InCellTag => XmlReadingState::InCellName,
        XmlReadingState::InCellName => XmlReadingState::InCellKeyword,
        XmlReadingState::InCellKeyword => XmlReadingState::InCellVR,
        XmlReadingState::InCellVR => XmlReadingState::InCellVM,
        XmlReadingState::InCellVM => XmlReadingState::InCellObs,
        XmlReadingState::InCellObs => XmlReadingState::InCellUnknown,
        other => other,
    }
}

/// `depth` plus one, modulo 2^32.
pub open spec fn spec_deeper(depth: u32) -> u32 {
    if depth == u32::MAX {
        0
    } else {
        (depth + 1) as u32
    }
}

/// `depth` minus one, modulo 2^32.
pub open spec fn spec_shallower(depth: u32) -> u32 {
    if depth == 0 {
        u32::MAX
    } else {
        (depth - 1) as u32
    }
}

impl ScannerView {
    /// The pipeline before the first event.
    pub open spec fn initial() -> ScannerView {
        ScannerView {
            state: XmlReadingState::Off,
            depth: 0,
            tag: None,
            name: None,
            keyword: None,
            vr: None,
            vm: None,
            obs: None,
            finished: false,
        }
    }

    /// The record of the current row, where its tag has been seen.
    pub open spec fn record(self) -> EntryView
        recommends
            self.tag is Some,
    {
        EntryView {
            tag: self.tag->0,
            name: self.name,
            alias: self.keyword,
            vr: self.vr,
            vm: self.vm,
            obs: self.obs,
        }
    }

    /// Whether the attributes of a start tag with this local name are looked at.
    pub open spec fn reads_attributes(self, local_name: Seq<u8>) -> bool {
        self.state == XmlReadingState::Off && local_name == spec_table_name()
    }

    /// The pipeline after a start tag with the given local name and attributes,
    /// and what the tag brings about.
    pub open spec fn on_start(
        self,
        local_name: Seq<u8>,
        attributes: Seq<Result<(Seq<u8>, Seq<u8>), Seq<char>>>,
    ) -> (ScannerView, StepView) {
        let opened = ScannerView { depth: spec_deeper(self.depth), ..self };
        match self.state {
            XmlReadingState::Off => if local_name == spec_table_name() {
                match spec_find_target(attributes) {
                    Some(Ok(_)) => (
                        ScannerView { state: XmlReadingState::InTableHead, ..opened },
                        StepView::Continue,
                    ),
                    Some(Err(message)) => (
                        opened,
                        StepView::Failure((XmlErrorKind::Attribute, message)),
                    ),
                    None => (opened, StepView::Continue),
                }
            } else {
                (opened, StepView::Continue)
            },
            XmlReadingState::InTableHead => if local_name == spec_body_name() {
                (ScannerView { state: XmlReadingState::InTable, ..opened }, StepView::Continue)
            } else {
                (opened, StepView::Continue)
            },
            state => if local_name == spec_cell_name() {
                (ScannerView { state: spec_next_cell(state), ..opened }, StepView::Continue)
            } else {
                (opened, StepView::Continue)
            },
        }
    }

    /// The pipeline after an end tag with the given local name, and what the tag
    /// brings about. Before the table nothing. The end of a row hands out the
    /// row's record and clears the cells where the row's tag has been seen, and
    /// without a record, too, it makes a pipeline that is in the body await the
    /// next row. The end of the body ends the table.
    pub open spec fn on_end(self, local_name: Seq<u8>) -> (ScannerView, StepView) {
        let closed = ScannerView { depth: spec_shallower(self.depth), ..self };
        if self.state == XmlReadingState::Off {
            (closed, StepView::Continue)
        } else if local_name == spec_row_name() && self.tag is Some {
            (
                ScannerView {
                    state: XmlReadingState::InTable,
                    tag: None,
                    name: None,
                    keyword: None,
                    vr: None,
                    vm: None,
                    obs: None,
                    ..closed
                },
                StepView::Record(self.record()),
            )
        } else if local_name == spec_row_name() {
            if self.state == XmlReadingState::InTableHead {
                (closed, StepView::Continue)
            } else {
                (ScannerView { state: XmlReadingState::InTable, ..closed }, StepView::Continue)
            }
        } else if local_name == spec_body_name() {
            (ScannerView { finished: true, ..closed }, StepView::Stop)
        } else {
            (closed, StepView::Continue)
        }
    }

    /// The pipeline after character data, given what decoding the data gives, and
    /// what the data brings about. In a cell, the text without its zero-width
    /// spaces becomes the cell's text; elsewhere the data is passed over.
    pub open spec fn on_text(self, decoded: Result<Seq<char>, Seq<char>>) -> (
        ScannerView,
        StepView,
    ) {
        if !spec_in_cell(self.state) {
            (self, StepView::Continue)
        } else {
            match decoded {
                Err(message) => (self, StepView::Failure((XmlErrorKind::Text, message))),
                Ok(text) => {
                    let cell = Some(spec_remove_char(text, ZERO_WIDTH_SPACE));
                    let next = match self.state {
                        XmlReadingState::InCellTag => ScannerView { tag: cell, ..self },
                        XmlReadingState::InCellName => ScannerView { name: cell, ..self },
                        XmlReadingState::InCellKeyword => ScannerView { keyword: cell, ..self },
                        XmlReadingState::InCellVR => ScannerView { vr: cell, ..self },
                        XmlReadingState::InCellVM => ScannerView { vm: cell, ..self },
                        _ => ScannerView { obs: cell, ..self },
                    };
                    (next, StepView::Continue)
                },
            }
        }
    }

    /// The pipeline once the reader reports the end of the document or fails.
    pub open spec fn finish(self) -> ScannerView {
        ScannerView { finished: true, ..self }
    }

    /// The pipeline after an event of the reader, and what the event brings about.
    pub open spec fn on_event(self, event: XmlEventView) -> (ScannerView, StepView) {
        match event {
            XmlEventView::Start { content, name_len } => self.on_start(
                spec_local_name(content.subrange(0, name_len as int)),
                xml_attributes(content, name_len as int),
            ),
            XmlEventView::End { name } => self.on_end(spec_local_name(name)),
            XmlEventView::Text { escaped } => if spec_in_cell(self.state) {
                self.on_text(xml_unescaped(escaped))
            } else {
                (self, StepView::Continue)
            },
            XmlEventView::Other => (self, StepView::Continue),
            XmlEventView::Eof => (self.finish(), StepView::Stop),
            XmlEventView::Failure { message } => (
                self.finish(),
                StepView::Failure((XmlErrorKind::Reader, message)),
            ),
        }
    }
}

/// The mathematical value of what `find_target` returns.
pub open spec fn spec_found(found: Option<Result<(), String>>) -> Option<Result<(), Seq<char>>> {
    match found {
        Some(Ok(_)) => Some(Ok(())),
        Some(Err(message)) => Some(Err(message@)),
        None => None,
    }
}

/// The part of an element's name after its first colon, or the whole name where
/// it has no colon.
pub fn local_name(name: &[u8]) -> (local: &[u8])
    ensures
        local@ == spec_local_name(name@),
{
    let at = find_byte(name, COLON, 0, name.len());
    assert(name@.subrange(0, name@.len() as int) =~= name@);
    if at < name.len() {
        proof {
            lemma_first_byte(name@, COLON, at as int);
        }
        slice_subrange(name, at + 1, name.len())
    } else {
        name
    }
}

/// Looks for the first attribute that is malformed or identifies the attribute
/// table.
pub fn find_target(attributes: &Vec<Result<XmlAttribute, String>>) -> (found: Option<
    Result<(), String>,
>)
    ensures
        spec_found(found) == spec_find_target(spec_attribute_items(attributes@)),
{
    let ghost items = spec_attribute_items(attributes@);
    let mut i: usize = 0;
    assert(items.skip(0) =~= items);
    while i < attributes.len()
        invariant
            i <= attributes@.len(),
            items == spec_attribute_items(attributes@),
            spec_find_target(items) == spec_find_target(items.skip(i as int)),
        decreases attributes@.len() - i,
    {
        proof {
            let rest = items.skip(i as int);
            assert(rest[0] == spec_attribute_item(attributes@[i as int]));
            assert(rest.drop_first() =~= items.skip(i + 1));
        }
        match &attributes[i] {
            Err(message) => {
                return Some(Err(message.clone()));
            },
            Ok(attribute) => {
                if bytes_eq(attribute.key.as_slice(), "xml:id".as_bytes()) && bytes_eq(
                    attribute.value.as_slice(),
                    "table_6-1".as_bytes(),
                ) {
                    return Some(Ok(()));
                }
            },
        }
        i += 1;
    }
    None
}

impl TableScanner {
    /// A scanner that stands before the table.
    pub fn new() -> (scanner: TableScanner)
        ensures
            scanner@ == ScannerView::initial(),
    {
        TableScanner {
            state: XmlReadingState::Off,
            depth: 0,
            tag: None,
            name: None,
            keyword: None,
            vr: None,
            vm: None,
            obs: None,
            finished: false,
        }
    }

    /// Where the scanner stands.
    pub fn state(&self) -> (state: XmlReadingState)
        ensures
            state == self@.state,
    {
        self.state
    }

    /// Whether the table or the document has ended.
    pub fn is_finished(&self) -> (finished: bool)
        ensures
            finished == self@.finished,
    {
        self.finished
    }

    /// Whether the scanner stands in one of the six cells of a row.
    pub fn in_cell(&self) -> (in_cell: bool)
        ensures
            in_cell == spec_in_cell(self@.state),
    {
        match self.state {
            XmlReadingState::InCellTag
            | XmlReadingState::InCellName
            | XmlReadingState::InCellKeyword
            | XmlReadingState::InCellVR
            | XmlReadingState::InCellVM
            | XmlReadingState::InCellObs => true,
            _ => false,
        }
    }

    /// Whether the scanner looks at the attributes of a start tag with this local
    /// name.
    pub fn reads_attributes(&self, local_name: &[u8]) -> (reads: bool)
        ensures
            reads == self@.reads_attributes(local_name@),
    {
        match self.state {
            XmlReadingState::Off => bytes_eq(local_name, "table".as_bytes()),
            _ => false,
        }
    }

    /// Takes in a start tag.
    pub fn start(&mut self, local_name: &[u8], attributes: &Vec<Result<XmlAttribute, String>>) -> (step:
        Step)
        ensures
            (final(self)@, step@) == old(self)@.on_start(
                local_name@,
                spec_attribute_items(attributes@),
            ),
    {
        self.depth = if self.depth == u32::MAX {
            0
        } else {
            self.depth + 1
        };
        match self.state {
            XmlReadingState::Off => {
                if bytes_eq(local_name, "table".as_bytes()) {
                    match find_target(attributes) {
                        Some(Ok(_)) => {
                            self.state = XmlReadingState::InTableHead;
                        },
                        Some(Err(message)) => {
                            return Step::Failure(
                                XmlError { kind: XmlErrorKind::Attribute, message },
                            );
                        },
                        None => {},
                    }
                }
            },
            XmlReadingState::InTableHead => {
                if bytes_eq(local_name, "tbody".as_bytes()) {
                    self.state = XmlReadingState::InTable;
                }
            },
            state => {
                if bytes_eq(local_name, "para".as_bytes()) {
                    self.state = match state {
                        XmlReadingState::InTable => XmlReadingState::InCellTag,
                        XmlReadingState::InCellTag => XmlReadingState::InCellName,
                        XmlReadingState::InCellName => XmlReadingState::InCellKeyword,
                        XmlReadingState::InCellKeyword => XmlReadingState::InCellVR,
                        XmlReadingState::InCellVR => XmlReadingState::InCellVM,
                        XmlReadingState::InCellVM => XmlReadingState::InCellObs,
                        XmlReadingState::InCellObs => XmlReadingState::InCellUnknown,
                        other => other,
                    };
                }
            },
        }
        Step::Continue
    }

    /// Takes in an end tag.
    pub fn end(&mut self, local_name: &[u8]) -> (step: Step)
        ensures
            (final(self)@, step@) == old(self)@.on_end(local_name@),
    {
        self.depth = if self.depth == 0 {
            u32::MAX
        } else {
            self.depth - 1
        };
        match self.state {
            XmlReadingState::Off => Step::Continue,
            state => {
                if bytes_eq(local_name, "tr".as_bytes()) {
                    match self.tag.take() {
                        Some(tag) => {
                            let entry = Entry {
                                tag,
                                name: self.name.take(),
                                alias: self.keyword.take(),
                                vr: self.vr.take(),
                                vm: self.vm.take(),
                                obs: self.obs.take(),
                            };
                            self.state = XmlReadingState::InTable;
                            Step::Record(entry)
                        },
                        None => {
                            match state {
                                XmlReadingState::InTableHead => {},
                                _ => {
                                    self.state = XmlReadingState::InTable;
                                },
                            }
                            Step::Continue
                        },
                    }
                } else if bytes_eq(local_name, "tbody".as_bytes()) {
                    self.finished = true;
                    Step::Stop
                } else {
                    Step::Continue
                }
            },
        }
    }

    /// Takes in character data, given what decoding it gave.
    pub fn text(&mut self, decoded: Result<String, String>) -> (step: Step)
        ensures
            (final(self)@, step@) == old(self)@.on_text(spec_decoded(decoded)),
    {
        if !self.in_cell() {
            return Step::Continue;
        }
        match decoded {
            Err(message) => Step::Failure(XmlError { kind: XmlErrorKind::Text, message }),
            Ok(text) => {
                let cell = Some(remove_char(text.as_str(), ZERO_WIDTH_SPACE));
                match self.state {
                    XmlReadingState::InCellTag => {
                        self.tag = cell;
                    },
                    XmlReadingState::InCellName => {
                        self.name = cell;
                    },
                    XmlReadingState::InCellKeyword => {
                        self.keyword = cell;
                    },
                    XmlReadingState::InCellVR => {
                        self.vr = cell;
                    },
                    XmlReadingState::InCellVM => {
                        self.vm = cell;
                    },
                    _ => {
                        self.obs = cell;
                    },
                }
                Step::Continue
            },
        }
    }

    /// Takes in the end of the document, or a failure of the reader.
    pub fn finish(&mut self)
        ensures
            final(self)@ == old(self)@.finish(),
    {
        self.finished = true;
    }
}

/// What one call of `XmlEntryIterator::next` comes to.
pub struct Advance {
    /// The scanner after the call.
    pub scanner: ScannerView,
    /// The events that the reader has yet to yield after the call.
    pub pending: Seq<XmlEventView>,
    /// What the call hands out.
    pub item: Option<Result<EntryView, (XmlErrorKind, Seq<char>)>>,
}

/// Takes events from `pending` until one brings about a record, a failure or
/// the end. Once the scanner has finished, no event is taken.
pub open spec fn spec_advance(scanner: ScannerView, pending: Seq<XmlEventView>) -> Advance
    decreases pending.len(),
{
    if scanner.finished {
        Advance { scanner, pending, item: None }
    } else if pending.len() == 0 {
        Advance { scanner: scanner.finish(), pending, item: None }
    } else {
        let (next, step) = scanner.on_event(pending[0]);
        match step {
            StepView::Continue => spec_advance(next, pending.drop_first()),
            StepView::Record(entry) => Advance {
                scanner: next,
                pending: pending.drop_first(),
                item: Some(Ok(entry)),
            },
            StepView::Failure(error) => Advance {
                scanner: next,
                pending: pending.drop_first(),
                item: Some(Err(error)),
            },
            StepView::Stop => Advance { scanner: next, pending: pending.drop_first(), item: None },
        }
    }
}

/// The mathematical value of what the iterator hands out.
pub open spec fn spec_item(item: Option<Result<Entry, XmlError>>) -> Option<
    Result<EntryView, (XmlErrorKind, Seq<char>)>,
> {
    match item {
        Some(Ok(entry)) => Some(Ok(entry@)),
        Some(Err(error)) => Some(Err(error@)),
        None => None,
    }
}

/// The records and failures that the pipeline hands out for the events
/// `pending`, in order, until the table ends or the events do.
pub open spec fn spec_items(scanner: ScannerView, pending: Seq<XmlEventView>) -> Seq<
    Result<EntryView, (XmlErrorKind, Seq<char>)>,
>
    decreases pending.len(),
{
    if scanner.finished || pending.len() == 0 {
        Seq::empty()
    } else {
        let (next, step) = scanner.on_event(pending[0]);
        match step {
            StepView::Continue => spec_items(next, pending.drop_first()),
            StepView::Record(entry) => seq![Ok(entry)] + spec_items(next, pending.drop_first()),
            StepView::Failure(error) => seq![Err(error)] + spec_items(next, pending.drop_first()),
            StepView::Stop => Seq::empty(),
        }
    }
}

/// The mathematical values of a list of records and failures.
pub open spec fn spec_item_list(items: Seq<Result<Entry, XmlError>>) -> Seq<
    Result<EntryView, (XmlErrorKind, Seq<char>)>,
> {
    items.map_values(
        |item: Result<Entry, XmlError>|
            match item {
                Ok(entry) => Ok(entry@),
                Err(error) => Err(error@),
            },
    )
}

/// One call of `next` hands out the first of the pipeline's items and leaves the
/// rest to the calls that follow; it hands out nothing exactly when none is left.
pub proof fn lemma_advance_items(scanner: ScannerView, pending: Seq<XmlEventView>)
    ensures
        ({
            let advance = spec_advance(scanner, pending);
            let items = spec_items(scanner, pending);
            match advance.item {
                Some(item) => advance.pending.len() < pending.len() && items == seq![item]
                    + spec_items(advance.scanner, advance.pending),
                None => items.len() == 0 && advance.scanner.finished,
            }
        }),
    decreases pending.len(),
{
    if !scanner.finished && pending.len() > 0 {
        let (next, step) = scanner.on_event(pending[0]);
        match step {
            StepView::Continue => {
                lemma_advance_items(next, pending.drop_first());
            },
            _ => {},
        }
    }
}

/// An iterator over the raw records of the attribute table of a document.
pub struct XmlEntryIterator {
    parser: EventReader,
    scanner: TableScanner,
}

impl XmlEntryIterator {
    /// The events that the reader has yet to yield.
    pub closed spec fn pending(&self) -> Seq<XmlEventView> {
        reader_pending(self.parser)
    }

    /// The state of the pipeline apart from its reader.
    pub closed spec fn scanner(&self) -> ScannerView {
        self.scanner@
    }

    /// An iterator over the document `xml`, before its first event.
    pub fn new(xml: Vec<u8>) -> (iterator: XmlEntryIterator)
        ensures
            iterator.pending() == xml_events(xml@),
            iterator.scanner() == ScannerView::initial(),
    {
        XmlEntryIterator { parser: open_reader(xml), scanner: TableScanner::new() }
    }

    /// Takes in one event of the reader.
    fn take_event(&mut self, event: XmlEvent) -> (step: Step)
        requires
            event matches XmlEvent::Start { content, name_len } ==> name_len <= content@.len(),
        ensures
            (final(self).scanner(), step@) == old(self).scanner().on_event(event@),
            final(self).pending() == old(self).pending(),
    {
        match event {
            XmlEvent::Start { content, name_len } => {
                let local = local_name(slice_subrange(content.as_slice(), 0, name_len));
                let attributes = if self.scanner.reads_attributes(local) {
                    read_attributes(content.as_slice(), name_len)
                } else {
                    Vec::new()
                };
                self.scanner.start(local, &attributes)
            },
            XmlEvent::End { name } => self.scanner.end(local_name(name.as_slice())),
            XmlEvent::Text { escaped } => {
                if self.scanner.in_cell() {
                    let decoded = unescape_text(&self.parser, escaped.as_slice());
                    self.scanner.text(decoded)
                } else {
                    Step::Continue
                }
            },
            XmlEvent::Other => Step::Continue,
            XmlEvent::Eof => {
                self.scanner.finish();
                Step::Stop
            },
            XmlEvent::Failure { message } => {
                self.scanner.finish();
                Step::Failure(XmlError { kind: XmlErrorKind::Reader, message })
            },
        }
    }

    /// The next record of the table, or a failure to read the document; `None`
    /// once the table or the document has ended.
    pub fn next(&mut self) -> (item: Option<Result<Entry, XmlError>>)
        ensures
            ({
                let advance = spec_advance(old(self).scanner(), old(self).pending());
                &&& final(self).scanner() == advance.scanner
                &&& final(self).pending() == advance.pending
                &&& spec_item(item) == advance.item
            }),
    {
        if self.scanner.is_finished() {
            return None;
        }
        loop
            invariant
                !self.scanner().finished,
                spec_advance(self.scanner(), self.pending()) == spec_advance(
                    old(self).scanner(),
                    old(self).pending(),
                ),
            decreases self.pending().len(),
        {
            let event = read_event(&mut self.parser);
            match self.take_event(event) {
                Step::Continue => {},
                Step::Record(entry) => {
                    return Some(Ok(entry));
                },
                Step::Failure(error) => {
                    return Some(Err(error));
                },
                Step::Stop => {
                    return None;
                },
            }
        }
    }

    /// All the records and failures that are left, in order.
    pub fn collect(self) -> (items: Vec<Result<Entry, XmlError>>)
        ensures
            spec_item_list(items@) == spec_items(self.scanner(), self.pending()),
    {
        let mut rest = self;
        let mut items: Vec<Result<Entry, XmlError>> = Vec::new();
        let ghost all = spec_items(self.scanner(), self.pending());
        loop
            invariant
                all == spec_items(self.scanner(), self.pending()),
                spec_item_list(items@) + spec_items(rest.scanner(), rest.pending()) == all,
            decreases rest.pending().len(),
        {
            proof {
                lemma_advance_items(rest.scanner(), rest.pending());
            }
            let ghost before = spec_item_list(items@);
            let ghost remaining = spec_items(rest.scanner(), rest.pending());
            match rest.next() {
                Some(item) => {
                    items.push(item);
                    assert(spec_item_list(items@) =~= before + seq![spec_item(Some(item))->0]);
                },
                None => {
                    assert(before + remaining =~= before);
                    return items;
                },
            }
        }
    }
}

/// Whether an event is the start tag of the attribute table: a start tag of a
/// `table` element whose first attribute that is malformed or the table's
/// identifier is the identifier.
pub open spec fn spec_opens_table(event: XmlEventView) -> bool {
    event matches XmlEventView::Start { content, name_len } && spec_local_name(
        content.subrange(0, name_len as int),
    ) == spec_table_name() && spec_find_target(xml_attributes(content, name_len as int)) == Some(
        Ok::<(), Seq<char>>(()),
    )
}

/// A pipeline that stands before the table hands out no record for events of
/// which none is the start tag of the attribute table.
pub proof fn lemma_no_table_no_record(scanner: ScannerView, pending: Seq<XmlEventView>)
    requires
        scanner.state == XmlReadingState::Off,
        forall|i: int| 0 <= i < pending.len() ==> !spec_opens_table(#[trigger] pending[i]),
    ensures
        forall|k: int|
            0 <= k < spec_items(scanner, pending).len() ==> (#[trigger] spec_items(
                scanner,
                pending,
            )[k]) is Err,
    decreases pending.len(),
{
    if !scanner.finished && pending.len() > 0 {
        let (next, step) = scanner.on_event(pending[0]);
        let rest = pending.drop_first();
        assert(!spec_opens_table(pending[0]));
        match pending[0] {
            XmlEventView::Start { content, name_len } => {
                match spec_find_target(xml_attributes(content, name_len as int)) {
                    Some(Ok(unit)) => {
                        assert(unit == ());
                    },
                    _ => {},
                }
            },
            _ => {},
        }
        assert(next.state == XmlReadingState::Off);
        assert(!(step is Record));
        assert forall|i: int| 0 <= i < rest.len() implies !spec_opens_table(#[trigger] rest[i]) by {
            assert(rest[i] == pending[i + 1]);
        }
        lemma_no_table_no_record(next, rest);
    }
}

} // verus!
