use apob::classify::{decode_specialized, specialized, SpecializedTag};
use apob::container::{parse, Entry, Item, ItemKind, ParseError};
use apob::payload::{DecodeError, PmuTfi};
use apob::record::{ApobEntry, ApobGroup, ApobHeader, APOB_SIG, APOB_VERSION};

fn header_bytes(sig: &[u8; 4], version: u32, size: u32, offset: u32) -> Vec<u8> {
    let mut out = Vec::new();
    out.extend_from_slice(sig);
    out.extend_from_slice(&version.to_le_bytes());
    out.extend_from_slice(&size.to_le_bytes());
    out.extend_from_slice(&offset.to_le_bytes());
    out
}

fn record_bytes(group: u32, ty: u32, inst: u32, size: u32, payload: &[u8]) -> Vec<u8> {
    let mut out = Vec::new();
    out.extend_from_slice(&group.to_le_bytes());
    out.extend_from_slice(&ty.to_le_bytes());
    out.extend_from_slice(&inst.to_le_bytes());
    out.extend_from_slice(&size.to_le_bytes());
    for i in 0..32u8 {
        out.push(0xA0 ^ i);
    }
    out.extend_from_slice(payload);
    out
}

fn blob(offset: u32, records: &[Vec<u8>]) -> Vec<u8> {
    let mut out = header_bytes(&APOB_SIG, APOB_VERSION, 0, offset);
    let mut fill = 1u8;
    while out.len() < offset as usize {
        out.push(fill);
        fill = fill.wrapping_add(1);
    }
    for r in records {
        out.extend_from_slice(r);
    }
    out
}

fn encode_entry(e: &ApobEntry) -> Vec<u8> {
    let mut out = Vec::new();
    out.extend_from_slice(&e.group.to_le_bytes());
    out.extend_from_slice(&e.ty.to_le_bytes());
    out.extend_from_slice(&e.inst.to_le_bytes());
    out.extend_from_slice(&e.size.to_le_bytes());
    out.extend_from_slice(&e.hmac);
    out
}

fn reassemble(items: &[Entry]) -> Vec<u8> {
    let mut out = Vec::new();
    for item in items {
        if let Item::Entry(e) = &item.entry {
            out.extend_from_slice(&encode_entry(e));
        }
        out.extend_from_slice(&item.data);
    }
    out
}

fn sample() -> Vec<u8> {
    blob(
        64,
        &[
            record_bytes(1, 22, 0, 48 + 5, &[1, 2, 3, 4, 5]),
            record_bytes(0xFFFF_0007, 6, 3, 48, &[]),
            record_bytes(9, 9, 1, 48 + 16, &[0u8; 16]),
        ],
    )
}

#[test]
fn signature_is_apob_in_ascii() {
    assert_eq!(&APOB_SIG, b"APOB");
    assert_eq!(APOB_VERSION, 0x18);
}

#[test]
fn header_fields_are_read_little_endian() {
    let mut bytes = header_bytes(&APOB_SIG, 0x18, 0x0403_0201, 16);
    bytes[8..12].copy_from_slice(&[0x78, 0x56, 0x34, 0x12]);
    let h = ApobHeader::read(&bytes).unwrap();
    assert_eq!(h.sig, *b"APOB");
    assert_eq!(h.version, 0x18);
    assert_eq!(h.size, 0x1234_5678);
    assert_eq!(h.offset, 16);
    assert!(h.has_signature());
    assert!(ApobHeader::read(&bytes[..15]).is_none());
}

#[test]
fn record_header_fields_are_read_in_place() {
    let mut bytes = vec![0xEEu8; 3];
    bytes.extend_from_slice(&record_bytes(0x0102_0304, 0x0A0B_0C0D, 7, 48, &[]));
    let e = ApobEntry::read(&bytes, 3).unwrap();
    assert_eq!(e.group, 0x0102_0304);
    assert_eq!(e.ty, 0x0A0B_0C0D);
    assert_eq!(e.inst, 7);
    assert_eq!(e.size, 48);
    for i in 0..32u8 {
        assert_eq!(e.hmac[i as usize], 0xA0 ^ i);
    }
    assert!(ApobEntry::read(&bytes, 4).is_none());
    assert!(ApobEntry::read(&bytes, usize::MAX).is_none());
}

#[test]
fn example_with_one_training_failure_record() {
    let payload = [0u8; 10];
    let bytes = blob(64, &[record_bytes(1, 22, 0, 48 + 10, &payload)]);
    let (header, items) = parse(&bytes).unwrap();
    assert_eq!(header.offset, 64);
    assert_eq!(header.version, 0x18);
    assert_eq!(items.len(), 3);
    assert_eq!(items[0].kind(), ItemKind::Header);
    assert_eq!(items[0].offset, 0);
    assert_eq!(items[0].data, bytes[..16].to_vec());
    assert_eq!(items[1].kind(), ItemKind::Padding);
    assert_eq!(items[1].offset, 16);
    assert_eq!(items[1].data.len(), 48);
    assert_eq!(items[2].kind(), ItemKind::Record);
    assert_eq!(items[2].offset, 64);
    assert_eq!(items[2].data, payload.to_vec());
    let Item::Entry(e) = items[2].entry else {
        panic!("not a record");
    };
    assert_eq!(e.group(), Some(ApobGroup::MEMORY));
    assert!(!e.cancelled());
    assert_eq!(specialized(items[2].entry), Some(SpecializedTag::PmuTrainingFailure));
    assert_eq!(PmuTfi::decode(&items[2].data).err(), Some(DecodeError::Truncated));
    assert!(matches!(decode_specialized(&items[2]), Some(Err(DecodeError::Truncated))));
    assert_eq!(specialized(items[0].entry), Some(SpecializedTag::Header));
    assert_eq!(specialized(items[1].entry), None);
}

#[test]
fn items_cover_the_blob_in_order() {
    let bytes = sample();
    let (_, items) = parse(&bytes).unwrap();
    assert_eq!(items.len(), 5);
    let mut pos = 0usize;
    for item in &items {
        assert_eq!(item.offset, pos);
        let head = if item.kind() == ItemKind::Record { 48 } else { 0 };
        pos += head + item.data.len();
    }
    assert_eq!(pos, bytes.len());
    for w in items.windows(2) {
        assert!(w[0].offset < w[1].offset);
    }
}

#[test]
fn empty_padding_shares_its_offset_with_the_first_record() {
    let bytes = blob(16, &[record_bytes(2, 1, 0, 48, &[])]);
    let (_, items) = parse(&bytes).unwrap();
    assert_eq!(items.len(), 3);
    assert_eq!(items[1].offset, 16);
    assert!(items[1].data.is_empty());
    assert_eq!(items[2].offset, 16);
}

#[test]
fn items_reassemble_to_the_blob() {
    let bytes = sample();
    let (_, items) = parse(&bytes).unwrap();
    assert_eq!(reassemble(&items), bytes);
}

#[test]
fn blob_without_records_has_header_and_padding() {
    let bytes = blob(40, &[]);
    let (_, items) = parse(&bytes).unwrap();
    assert_eq!(items.len(), 2);
    assert_eq!(items[1].data, bytes[16..].to_vec());
    assert_eq!(reassemble(&items), bytes);
}

#[test]
fn bad_signature_is_refused() {
    let mut bytes = sample();
    bytes[3] = b'X';
    assert_eq!(parse(&bytes).err(), Some(ParseError::BadSignature));
}

#[test]
fn bad_version_is_refused() {
    let mut bytes = sample();
    bytes[4] = 0x19;
    assert_eq!(parse(&bytes).err(), Some(ParseError::BadVersion));
}

#[test]
fn short_blob_is_a_truncated_header() {
    assert_eq!(parse(&[]).err(), Some(ParseError::TruncatedHeader));
    assert_eq!(parse(&sample()[..15]).err(), Some(ParseError::TruncatedHeader));
}

#[test]
fn first_record_inside_the_header_is_a_truncated_header() {
    let mut bytes = sample();
    bytes[12] = 15;
    assert_eq!(parse(&bytes).err(), Some(ParseError::TruncatedHeader));
}

#[test]
fn first_record_behind_the_end_is_a_truncated_header() {
    let bytes = header_bytes(&APOB_SIG, APOB_VERSION, 0, 17);
    assert_eq!(parse(&bytes).err(), Some(ParseError::TruncatedHeader));
}

#[test]
fn record_header_cut_short_is_a_truncated_record() {
    let mut bytes = sample();
    bytes.extend_from_slice(&[0u8; 47]);
    let at = sample().len();
    assert_eq!(parse(&bytes).err(), Some(ParseError::TruncatedRecord { offset: at }));
}

#[test]
fn record_smaller_than_its_header_is_a_truncated_record() {
    let bytes = blob(16, &[record_bytes(1, 1, 0, 47, &[])]);
    assert_eq!(parse(&bytes).err(), Some(ParseError::TruncatedRecord { offset: 16 }));
    let bytes = blob(16, &[record_bytes(1, 1, 0, 0, &[])]);
    assert_eq!(parse(&bytes).err(), Some(ParseError::TruncatedRecord { offset: 16 }));
}

#[test]
fn record_past_the_end_is_an_overrun() {
    let bytes = blob(
        32,
        &[record_bytes(1, 1, 0, 48 + 2, &[9, 9]), record_bytes(2, 2, 0, 48 + 3, &[1, 2])],
    );
    assert_eq!(parse(&bytes).err(), Some(ParseError::RecordOverrun { offset: 32 + 50 }));
}

#[test]
fn cancelled_group_still_names_its_group() {
    let bytes = sample();
    let (_, items) = parse(&bytes).unwrap();
    let Item::Entry(e) = items[3].entry else {
        panic!("not a record");
    };
    assert!(e.cancelled());
    assert_eq!(e.group(), Some(ApobGroup::GENERAL));
    assert_eq!(specialized(items[3].entry), Some(SpecializedTag::EventLog));
    assert_eq!(e.listed_type(), 6);
}

#[test]
fn cancellation_reads_the_top_half_only() {
    let mut e = ApobEntry { group: 0xFFFF_0001, ty: 0, inst: 0, size: 48, hmac: [0; 32] };
    assert!(e.cancelled());
    assert_eq!(e.group(), Some(ApobGroup::MEMORY));
    e.group = 0x0001_FFFF;
    assert!(!e.cancelled());
    assert_eq!(e.group(), None);
    e.group = 0xFFFE_0001;
    assert!(!e.cancelled());
    assert_eq!(e.group(), Some(ApobGroup::MEMORY));
    e.group = 0x7FFF_0001;
    assert!(!e.cancelled());
    for g in [0u32, 1, 5, 10, 11, 0xFFFF] {
        for top in [0u32, 1, 0x8000, 0xFFFE, 0xFFFF] {
            e.group = (top << 16) | g;
            assert_eq!(e.cancelled(), (e.group >> 16) == 0xFFFF);
            assert_eq!(e.group(), ApobGroup::from_repr(g as usize));
        }
    }
}

#[test]
fn groups_have_the_ids_one_to_ten() {
    let all = [
        ApobGroup::MEMORY,
        ApobGroup::DF,
        ApobGroup::CCX,
        ApobGroup::NBIO,
        ApobGroup::FCH,
        ApobGroup::PSP,
        ApobGroup::GENERAL,
        ApobGroup::SMBIOS,
        ApobGroup::FABRIC,
        ApobGroup::APCB,
    ];
    for (i, g) in all.iter().enumerate() {
        assert_eq!(g.repr() as usize, i + 1);
        assert_eq!(ApobGroup::from_repr(i + 1), Some(*g));
    }
    assert_eq!(ApobGroup::from_repr(0), None);
    assert_eq!(ApobGroup::from_repr(11), None);
    assert_eq!(ApobGroup::GENERAL.name(), "GENERAL");
    assert_eq!(ApobGroup::DF.name(), "DF");
}
