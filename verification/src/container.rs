//! Walks a blob into its ordered items: the header, the padding behind it,
//! and the records that fill the rest.

use crate::bytes::le_u32;
use crate::record::{
    lemma_entry_encoding, ApobEntry, ApobHeader, APOB_ENTRY_SIZE, APOB_HEADER_SIZE, APOB_SIG,
    APOB_VERSION,
};
use crate::text::{hex_prefixed, hex_with_prefix};
use vstd::prelude::*;
use vstd::slice::{slice_subrange, slice_to_vec};
use vstd::string::StringExecFns;

verus! {

/// What an item of the blob is.
#[derive(Copy, Clone, Debug)]
pub enum Item {
    Header(ApobHeader),
    Padding,
    Entry(ApobEntry),
}

/// One item of the blob: where it starts, what it is, and its payload.
///
/// The payload of the header item is the header region itself, that of the
/// padding is the padding, and that of a record is what follows its fixed
/// header.
#[derive(Clone, Debug)]
pub struct Entry {
    pub offset: usize,
    pub entry: Item,
    pub data: Vec<u8>,
}

/// The three kinds of item.
#[derive(Copy, Clone, Debug, PartialEq, Eq, Structural)]
pub enum ItemKind {
    Header,
    Padding,
    Record,
}

/// Why a blob was refused.
#[derive(Copy, Clone, Debug, PartialEq, Eq, Structural)]
pub enum ParseError {
    /// The first four bytes are not the signature.
    BadSignature,
    /// The version is not the known one.
    BadVersion,
    /// The blob is shorter than a header, or the header places the first
    /// record inside itself or behind the end of the blob.
    TruncatedHeader,
    /// At `offset` fewer bytes are left than a record header takes, or the
    /// record there declares a size smaller than its own header.
    TruncatedRecord { offset: usize },
    /// The record at `offset` declares a size that runs past the end of the
    /// blob.
    RecordOverrun { offset: usize },
}

impl ParseError {
    /// The byte offset at which the blob breaks the format: that of the
    /// header or of its field for a fault in the header, that of the record
    /// for a fault in a record.
    pub open spec fn spec_offset(self) -> nat {
        match self {
            ParseError::BadSignature => 0,
            ParseError::BadVersion => 4,
            ParseError::TruncatedHeader => 0,
            ParseError::TruncatedRecord { offset } => offset as nat,
            ParseError::RecordOverrun { offset } => offset as nat,
        }
    }

    /// What went wrong, in words.
    pub open spec fn spec_reason(self) -> Seq<char> {
        match self {
            ParseError::BadSignature => "bad signature"@,
            ParseError::BadVersion => "bad version"@,
            ParseError::TruncatedHeader => "truncated header"@,
            ParseError::TruncatedRecord { .. } => "truncated record"@,
            ParseError::RecordOverrun { .. } => "record runs past the end"@,
        }
    }

    /// The message for the fault: what went wrong and at which offset.
    pub open spec fn spec_message(self) -> Seq<char> {
        self.spec_reason() + " at offset "@ + hex_prefixed(self.spec_offset())
    }

    /// The byte offset at which the blob breaks the format.
    pub fn offset(&self) -> (r: usize)
        ensures
            r == self.spec_offset(),
    {
        match self {
            ParseError::BadSignature => 0,
            ParseError::BadVersion => 4,
            ParseError::TruncatedHeader => 0,
            ParseError::TruncatedRecord { offset } => *offset,
            ParseError::RecordOverrun { offset } => *offset,
        }
    }

    /// The message for the fault: what went wrong and at which offset.
    pub fn message(&self) -> (r: String)
        ensures
            r@ == self.spec_message(),
    {
        let mut out = String::from_str(
            match self {
                ParseError::BadSignature => "bad signature",
                ParseError::BadVersion => "bad version",
                ParseError::TruncatedHeader => "truncated header",
                ParseError::TruncatedRecord { .. } => "truncated record",
                ParseError::RecordOverrun { .. } => "record runs past the end",
            },
        );
        out.append(" at offset ");
        out.append(hex_with_prefix(self.offset() as u64).as_str());
        out
    }
}

/// An item as a value of the model: its offset, its kind, the fixed header
/// bytes in front of its payload (none but for a record), and its payload.
pub struct ItemModel {
    pub offset: int,
    pub kind: ItemKind,
    pub head: Seq<u8>,
    pub data: Seq<u8>,
}

impl ItemModel {
    /// The bytes of the blob that the item stands for.
    pub open spec fn raw(self) -> Seq<u8> {
        self.head + self.data
    }

    /// One past the last byte of the item.
    pub open spec fn end(self) -> int {
        self.offset + self.head.len() + self.data.len()
    }
}

/// The size that the record header at `pos` declares.
pub open spec fn record_size(s: Seq<u8>, pos: int) -> int {
    le_u32(s, pos + 12)
}

/// The record at `pos`, taken with the size that its header declares.
pub open spec fn record_at(s: Seq<u8>, pos: int) -> ItemModel {
    ItemModel {
        offset: pos,
        kind: ItemKind::Record,
        head: s.subrange(pos, pos + APOB_ENTRY_SIZE),
        data: s.subrange(pos + APOB_ENTRY_SIZE, pos + record_size(s, pos)),
    }
}

/// The records laid out back to back from `pos` to the end of `s`, or the
/// first fault met on the way.
pub open spec fn spec_records(s: Seq<u8>, pos: int) -> Result<Seq<ItemModel>, ParseError>
    decreases s.len() - pos,
{
    if pos < 0 || pos >= s.len() {
        Ok(Seq::empty())
    } else if s.len() - pos < APOB_ENTRY_SIZE || record_size(s, pos) < APOB_ENTRY_SIZE {
        Err(ParseError::TruncatedRecord { offset: pos as usize })
    } else if record_size(s, pos) > s.len() - pos {
        Err(ParseError::RecordOverrun { offset: pos as usize })
    } else {
        match spec_records(s, pos + record_size(s, pos)) {
            Ok(rest) => Ok(seq![record_at(s, pos)] + rest),
            Err(e) => Err(e),
        }
    }
}

/// The header item of a blob of at least 16 bytes.
pub open spec fn header_item(s: Seq<u8>) -> ItemModel {
    ItemModel {
        offset: 0,
        kind: ItemKind::Header,
        head: Seq::empty(),
        data: s.subrange(0, APOB_HEADER_SIZE as int),
    }
}

/// The padding between the header and the first record.
pub open spec fn padding_item(s: Seq<u8>) -> ItemModel {
    ItemModel {
        offset: APOB_HEADER_SIZE as int,
        kind: ItemKind::Padding,
        head: Seq::empty(),
        data: s.subrange(APOB_HEADER_SIZE as int, le_u32(s, 12)),
    }
}

/// What parsing a blob gives: its items in file order, or the first fault.
pub open spec fn spec_parse(s: Seq<u8>) -> Result<Seq<ItemModel>, ParseError> {
    if s.len() < APOB_HEADER_SIZE {
        Err(ParseError::TruncatedHeader)
    } else if s.subrange(0, 4) != APOB_SIG@ {
        Err(ParseError::BadSignature)
    } else if le_u32(s, 4) != APOB_VERSION {
        Err(ParseError::BadVersion)
    } else if le_u32(s, 12) < APOB_HEADER_SIZE || le_u32(s, 12) > s.len() {
        Err(ParseError::TruncatedHeader)
    } else {
        match spec_records(s, le_u32(s, 12)) {
            Ok(records) => Ok(seq![header_item(s), padding_item(s)] + records),
            Err(e) => Err(e),
        }
    }
}

impl Entry {
    /// The item as a value of the model.
    pub open spec fn model(self) -> ItemModel {
        ItemModel {
            offset: self.offset as int,
            kind: match self.entry {
                Item::Header(_) => ItemKind::Header,
                Item::Padding => ItemKind::Padding,
                Item::Entry(_) => ItemKind::Record,
            },
            head: match self.entry {
                Item::Entry(e) => e.encoding(),
                _ => Seq::empty(),
            },
            data: self.data@,
        }
    }

    /// The item is part of the blob `s`: its header fields are the ones
    /// stored there, and its payload lies inside the blob.
    pub open spec fn within(self, s: Seq<u8>) -> bool {
        match self.entry {
            Item::Header(h) => h.decodes(s) && self.offset == 0 && self.data@ == s.subrange(
                0,
                APOB_HEADER_SIZE as int,
            ),
            Item::Padding => self.offset + self.data@.len() <= s.len() && self.data@
                == s.subrange(self.offset as int, self.offset + self.data@.len()),
            Item::Entry(e) => e.decodes(s, self.offset as int) && e.size == APOB_ENTRY_SIZE
                + self.data@.len() && self.offset + e.size <= s.len() && self.data@ == s.subrange(
                self.offset + APOB_ENTRY_SIZE,
                self.offset + e.size,
            ),
        }
    }

    /// The kind of the item.
    pub fn kind(&self) -> (r: ItemKind)
        ensures
            r == self.model().kind,
    {
        match self.entry {
            Item::Header(_) => ItemKind::Header,
            Item::Padding => ItemKind::Padding,
            Item::Entry(_) => ItemKind::Record,
        }
    }
}

/// The items as values of the model, in order.
pub open spec fn models_of(items: Seq<Entry>) -> Seq<ItemModel> {
    Seq::new(items.len(), |i: int| items[i].model())
}

/// The items are the ones that parsing `s` gives.
pub open spec fn items_of(items: Seq<Entry>, s: Seq<u8>) -> bool {
    &&& spec_parse(s) == Ok::<Seq<ItemModel>, ParseError>(models_of(items))
    &&& forall|i: int| 0 <= i < items.len() ==> (#[trigger] items[i]).within(s)
}

/// Parses a blob into its header and its items in file order.
///
/// Succeeds exactly on the blobs that the format admits, and then returns
/// the header at offset 0, the padding behind it, and every record up to the
/// end of the blob: items that lie back to back, end where the blob ends,
/// and give the blob back when their bytes are put one after the other. On
/// any fault nothing is returned but the first fault.
pub fn parse(bytes: &[u8]) -> (r: Result<(ApobHeader, Vec<Entry>), ParseError>)
    ensures
        match r {
            Ok((header, items)) => {
                &&& header.decodes(bytes@)
                &&& items_of(items@, bytes@)
                &&& items@.len() >= 2
                &&& contiguous_from(models_of(items@), 0)
                &&& end_of(models_of(items@), 0) == bytes@.len()
                &&& concat_raw(models_of(items@)) == bytes@
            },
            Err(e) => spec_parse(bytes@) == Err::<Seq<ItemModel>, ParseError>(e),
        },
{
    let header = match ApobHeader::read(bytes) {
        Some(h) => h,
        None => {
            return Err(ParseError::TruncatedHeader);
        },
    };
    if !header.has_signature() {
        return Err(ParseError::BadSignature);
    }
    if header.version != APOB_VERSION {
        return Err(ParseError::BadVersion);
    }
    let first = header.offset as usize;
    if first < APOB_HEADER_SIZE || first > bytes.len() {
        return Err(ParseError::TruncatedHeader);
    }
    let mut items: Vec<Entry> = Vec::new();
    items.push(
        Entry {
            offset: 0,
            entry: Item::Header(header),
            data: slice_to_vec(slice_subrange(bytes, 0, APOB_HEADER_SIZE)),
        },
    );
    items.push(
        Entry {
            offset: APOB_HEADER_SIZE,
            entry: Item::Padding,
            data: slice_to_vec(slice_subrange(bytes, APOB_HEADER_SIZE, first)),
        },
    );
    proof {
        assert(models_of(items@) =~= seq![header_item(bytes@), padding_item(bytes@)]);
    }
    let mut pos = first;
    while pos < bytes.len()
        invariant
            first <= pos <= bytes@.len(),
            forall|i: int| 0 <= i < items@.len() ==> (#[trigger] items@[i]).within(bytes@),
            spec_parse(bytes@) == match spec_records(bytes@, pos as int) {
                Ok(rest) => Ok::<Seq<ItemModel>, ParseError>(models_of(items@) + rest),
                Err(e) => Err(e),
            },
        decreases bytes@.len() - pos,
    {
        let entry = match ApobEntry::read(bytes, pos) {
            Some(e) => e,
            None => {
                return Err(ParseError::TruncatedRecord { offset: pos });
            },
        };
        let size = entry.size as usize;
        if size < APOB_ENTRY_SIZE {
            return Err(ParseError::TruncatedRecord { offset: pos });
        }
        if size > bytes.len() - pos {
            return Err(ParseError::RecordOverrun { offset: pos });
        }
        let item = Entry {
            offset: pos,
            entry: Item::Entry(entry),
            data: slice_to_vec(slice_subrange(bytes, pos + APOB_ENTRY_SIZE, pos + size)),
        };
        proof {
            let ghost before = items@;
            let ghost next = spec_records(bytes@, pos + size);
            lemma_entry_encoding(entry, bytes@, pos as int);
            assert(item.model().head == record_at(bytes@, pos as int).head);
            assert(item.model() == record_at(bytes@, pos as int));
            if next is Ok {
                assert(models_of(before.push(item)) + next.unwrap() =~= models_of(before) + (
                seq![record_at(bytes@, pos as int)] + next.unwrap()));
            }
        }
        items.push(item);
        pos = pos + size;
    }
    proof {
        assert(models_of(items@) + Seq::<ItemModel>::empty() =~= models_of(items@));
        lemma_items_cover(bytes@);
        lemma_round_trip(bytes@);
    }
    Ok((header, items))
}

/// The bytes of all items, one after the other.
pub open spec fn concat_raw(items: Seq<ItemModel>) -> Seq<u8>
    decreases items.len(),
{
    if items.len() == 0 {
        Seq::empty()
    } else {
        concat_raw(items.drop_last()) + items.last().raw()
    }
}

/// The items lie back to back from `start`: the first begins at `start` and
/// each next one begins where the one before it ends.
pub open spec fn contiguous_from(items: Seq<ItemModel>, start: int) -> bool {
    &&& items.len() > 0 ==> items[0].offset == start
    &&& forall|i: int, j: int|
        0 <= i && j == i + 1 && j < items.len() ==> (#[trigger] items[j]).offset == (
        #[trigger] items[i]).end()
}

/// Where a run of items that starts at `start` ends.
pub open spec fn end_of(items: Seq<ItemModel>, start: int) -> int {
    if items.len() == 0 {
        start
    } else {
        items.last().end()
    }
}

/// The item stands for the bytes of `s` from its offset to its end.
pub open spec fn in_blob(m: ItemModel, s: Seq<u8>) -> bool {
    &&& 0 <= m.offset <= m.end() <= s.len()
    &&& m.raw() == s.subrange(m.offset, m.end())
}

/// Every item stands for its own bytes of `s`.
pub open spec fn all_in_blob(items: Seq<ItemModel>, s: Seq<u8>) -> bool {
    forall|i: int| 0 <= i < items.len() ==> in_blob(#[trigger] items[i], s)
}

/// Every item is a record that starts at `pos` or later.
pub open spec fn all_records(items: Seq<ItemModel>, pos: int) -> bool {
    forall|i: int|
        0 <= i < items.len() ==> {
            let m = #[trigger] items[i];
            &&& m.kind == ItemKind::Record
            &&& m.head.len() == APOB_ENTRY_SIZE
            &&& m.offset >= pos
        }
}

/// The bytes of a run of items with one more in front are that item's bytes
/// followed by the bytes of the run.
pub proof fn lemma_concat_raw_prepend(first: ItemModel, rest: Seq<ItemModel>)
    ensures
        concat_raw(seq![first] + rest) == first.raw() + concat_raw(rest),
    decreases rest.len(),
{
    let all = seq![first] + rest;
    if rest.len() == 0 {
        assert(all.drop_last() =~= Seq::<ItemModel>::empty());
        assert(concat_raw(all.drop_last()) =~= Seq::<u8>::empty());
        assert(concat_raw(all) =~= first.raw() + concat_raw(rest));
    } else {
        lemma_concat_raw_prepend(first, rest.drop_last());
        assert(all.drop_last() =~= seq![first] + rest.drop_last());
        assert(all.last() == rest.last());
        assert(concat_raw(all) =~= first.raw() + concat_raw(rest));
    }
}

/// Putting one item in front of a run that starts where it ends keeps the
/// run back to back, and keeps every item inside the blob.
proof fn lemma_prepend(first: ItemModel, rest: Seq<ItemModel>, s: Seq<u8>)
    requires
        in_blob(first, s),
        contiguous_from(rest, first.end()),
        all_in_blob(rest, s),
    ensures
        contiguous_from(seq![first] + rest, first.offset),
        all_in_blob(seq![first] + rest, s),
        end_of(seq![first] + rest, first.offset) == end_of(rest, first.end()),
{
    let all = seq![first] + rest;
    assert(all[0] == first);
    assert forall|i: int| 1 <= i < all.len() implies #[trigger] all[i] == rest[i - 1] by {}
    assert forall|i: int, j: int| 0 <= i && j == i + 1 && j < all.len() implies (
    #[trigger] all[j]).offset == (#[trigger] all[i]).end() by {
        assert(all[j] == rest[j - 1]);
        if i > 0 {
            assert(all[i] == rest[i - 1]);
        }
    }
    assert forall|i: int| 0 <= i < all.len() implies in_blob(#[trigger] all[i], s) by {
        if i > 0 {
            assert(all[i] == rest[i - 1]);
        }
    }
    if rest.len() > 0 {
        assert(all.last() == rest.last());
    }
}

/// The records found from `pos` lie back to back, end at the end of the
/// blob, and together are the bytes from `pos` on.
pub proof fn lemma_records_cover(s: Seq<u8>, pos: int)
    requires
        0 <= pos <= s.len(),
        spec_records(s, pos).is_ok(),
    ensures
        contiguous_from(spec_records(s, pos).unwrap(), pos),
        end_of(spec_records(s, pos).unwrap(), pos) == s.len(),
        all_in_blob(spec_records(s, pos).unwrap(), s),
        all_records(spec_records(s, pos).unwrap(), pos),
        concat_raw(spec_records(s, pos).unwrap()) == s.subrange(pos, s.len() as int),
    decreases s.len() - pos,
{
    let records = spec_records(s, pos).unwrap();
    if pos >= s.len() {
        assert(concat_raw(records) =~= s.subrange(pos, s.len() as int));
    } else {
        let next = pos + record_size(s, pos);
        let rest = spec_records(s, next).unwrap();
        let first = record_at(s, pos);
        lemma_records_cover(s, next);
        assert(records == seq![first] + rest);
        assert(first.raw() =~= s.subrange(pos, next));
        lemma_prepend(first, rest, s);
        assert forall|i: int| 0 <= i < records.len() implies {
            let m = #[trigger] records[i];
            &&& m.kind == ItemKind::Record
            &&& m.head.len() == APOB_ENTRY_SIZE
            &&& m.offset >= pos
        } by {
            if i > 0 {
                assert(records[i] == rest[i - 1]);
            }
        }
        lemma_concat_raw_prepend(first, rest);
        assert(concat_raw(records) =~= s.subrange(pos, s.len() as int));
    }
}

/// The items of a blob that parses cover it exactly: the first is the header
/// at offset 0, the second the padding, each item starts where the one
/// before it ends, each stands for its own bytes, and the last ends at the
/// end of the blob.
pub proof fn lemma_items_cover(s: Seq<u8>)
    requires
        spec_parse(s).is_ok(),
    ensures
        spec_parse(s).unwrap().len() >= 2,
        spec_parse(s).unwrap()[0] == header_item(s),
        spec_parse(s).unwrap()[1] == padding_item(s),
        all_records(spec_parse(s).unwrap().skip(2), le_u32(s, 12)),
        contiguous_from(spec_parse(s).unwrap(), 0),
        all_in_blob(spec_parse(s).unwrap(), s),
        end_of(spec_parse(s).unwrap(), 0) == s.len(),
{
    let items = spec_parse(s).unwrap();
    let first = le_u32(s, 12);
    let records = spec_records(s, first).unwrap();
    let tail = seq![padding_item(s)] + records;
    lemma_records_cover(s, first);
    assert(items =~= seq![header_item(s)] + tail);
    assert(items.skip(2) =~= records);
    assert(padding_item(s).raw() =~= s.subrange(APOB_HEADER_SIZE as int, first));
    assert(header_item(s).raw() =~= s.subrange(0, APOB_HEADER_SIZE as int));
    lemma_prepend(padding_item(s), records, s);
    lemma_prepend(header_item(s), tail, s);
}

/// In a run of items that lie back to back, a later item starts no earlier
/// than an earlier one ends.
pub proof fn lemma_contiguous_ordered(items: Seq<ItemModel>, start: int, i: int, j: int)
    requires
        contiguous_from(items, start),
        forall|k: int| 0 <= k < items.len() ==> (#[trigger] items[k]).offset <= items[k].end(),
        0 <= i < j < items.len(),
    ensures
        items[i].end() <= items[j].offset,
    decreases j - i,
{
    if j > i + 1 {
        lemma_contiguous_ordered(items, start, i, j - 1);
        assert(items[j - 1].offset <= items[j - 1].end());
    }
    assert(items[j].offset == items[j - 1].end());
}

/// The items of a blob that parses are ordered by offset and do not overlap:
/// of two items the later one starts no earlier than the earlier one ends.
/// The offsets increase strictly behind every item but the padding, which is
/// the one item that can be empty.
pub proof fn lemma_items_ordered(s: Seq<u8>, i: int, j: int)
    requires
        spec_parse(s).is_ok(),
        0 <= i < j < spec_parse(s).unwrap().len(),
    ensures
        spec_parse(s).unwrap()[i].end() <= spec_parse(s).unwrap()[j].offset,
        spec_parse(s).unwrap()[i].offset <= spec_parse(s).unwrap()[j].offset,
        i != 1 || le_u32(s, 12) > APOB_HEADER_SIZE ==> spec_parse(s).unwrap()[i].offset
            < spec_parse(s).unwrap()[j].offset,
{
    let items = spec_parse(s).unwrap();
    lemma_items_cover(s);
    assert forall|k: int| 0 <= k < items.len() implies (#[trigger] items[k]).offset
        <= items[k].end() by {
        assert(in_blob(items[k], s));
    }
    lemma_contiguous_ordered(items, 0, i, j);
    assert(in_blob(items[i], s));
    if i >= 2 {
        assert(items.skip(2)[i - 2] == items[i]);
    }
}

/// Putting the bytes of the items of a blob that parses one after the other,
/// the fixed header of each record in front of its payload, gives the blob
/// back byte for byte.
pub proof fn lemma_round_trip(s: Seq<u8>)
    requires
        spec_parse(s).is_ok(),
    ensures
        concat_raw(spec_parse(s).unwrap()) == s,
{
    let items = spec_parse(s).unwrap();
    let first = le_u32(s, 12);
    let records = spec_records(s, first).unwrap();
    let tail = seq![padding_item(s)] + records;
    let a = s.subrange(0, APOB_HEADER_SIZE as int);
    let b = s.subrange(APOB_HEADER_SIZE as int, first);
    let c = s.subrange(first, s.len() as int);
    assert(concat_raw(records) == c) by {
        lemma_records_cover(s, first);
    }
    assert(concat_raw(tail) == b + c) by {
        lemma_concat_raw_prepend(padding_item(s), records);
        assert(padding_item(s).raw() =~= b);
    }
    assert(concat_raw(seq![header_item(s)] + tail) == a + (b + c)) by {
        lemma_concat_raw_prepend(header_item(s), tail);
        assert(header_item(s).raw() =~= a);
    }
    assert(items == seq![header_item(s)] + tail) by {
        assert(items =~= seq![header_item(s)] + tail);
    }
    assert(a + (b + c) =~= s);
}

/// Walking sound records from `pos` arrives at `at`.
pub open spec fn reaches(s: Seq<u8>, pos: int, at: int) -> bool
    decreases s.len() - pos,
{
    if pos >= at {
        pos == at
    } else if pos + APOB_ENTRY_SIZE <= s.len() && APOB_ENTRY_SIZE <= record_size(s, pos)
        && record_size(s, pos) <= s.len() - pos {
        reaches(s, pos + record_size(s, pos), at)
    } else {
        false
    }
}

/// From `pos` on, a record whose declared size runs past the end of the blob
/// makes the walk fail with `RecordOverrun` at that record, however many
/// sound records lie between.
proof fn lemma_overrun_stops_walk(s: Seq<u8>, pos: int, at: int)
    requires
        0 <= pos <= at,
        s.len() <= usize::MAX,
        at + APOB_ENTRY_SIZE <= s.len(),
        APOB_ENTRY_SIZE <= record_size(s, at),
        record_size(s, at) > s.len() - at,
        reaches(s, pos, at),
    ensures
        spec_records(s, pos) == Err::<Seq<ItemModel>, ParseError>(
            ParseError::RecordOverrun { offset: at as usize },
        ),
    decreases at - pos,
{
    if pos != at {
        let next = pos + record_size(s, pos);
        assert(reaches(s, next, at));
        lemma_overrun_stops_walk(s, next, at);
    }
}

/// A blob with a sound header and sound records up to `at`, where a record
/// declares a size that runs past the end of the blob, does not parse: the
/// result is `RecordOverrun` at that record, and nothing is kept of the
/// records before it.
pub proof fn lemma_overrun_fails(s: Seq<u8>, at: int)
    requires
        s.len() <= usize::MAX,
        APOB_HEADER_SIZE <= s.len(),
        s.subrange(0, 4) == APOB_SIG@,
        le_u32(s, 4) == APOB_VERSION,
        APOB_HEADER_SIZE <= le_u32(s, 12) <= at,
        at + APOB_ENTRY_SIZE <= s.len(),
        APOB_ENTRY_SIZE <= record_size(s, at),
        record_size(s, at) > s.len() - at,
        reaches(s, le_u32(s, 12), at),
    ensures
        spec_parse(s) == Err::<Seq<ItemModel>, ParseError>(
            ParseError::RecordOverrun { offset: at as usize },
        ),
{
    lemma_overrun_stops_walk(s, le_u32(s, 12), at);
}

} // verus!
