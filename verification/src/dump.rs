//! The flat text form of a blob: one line for each record, the raw payload
//! as a hex dump, and the decoded payload where its layout is known.

use crate::bytes::{le_u16, le_u32};
use crate::cell::{lemma_lines_push, lines_view};
use crate::classify::{spec_specialized, specialized, SpecializedTag};
use crate::container::{Entry, Item};
use crate::model::page_count;
use crate::payload::{
    field, hole_capacity, lemma_valid_entries, lemma_valid_events, stored_entries, stored_events,
    stored_holes, ApobSysMemMap, ApobSysMemMapHole, DecodeError, MilanApobEvent,
    MilanApobEventClass, MilanApobEventInfo, MilanApobEventLog, PmuTfi, PmuTfiEntry,
    PmuTfiEntryModel, APOB_SYS_MEM_MAP_SIZE, MILAN_APOB_EVENT_LOG_SIZE, MILAN_APOB_EVENT_SLOTS,
    PMU_TFI_SIZE, PMU_TFI_SLOTS,
};
use crate::record::{spec_group_of, ApobEntry, APOB_ENTRY_SIZE};
use crate::text::{
    dec, dec_digits, hex, hex_digits, hex_fixed, hex_padded, hex_prefixed, hex_prefixed_fixed,
    hex_with_prefix, hex_with_prefix_padded, pad_left, pad_right, padded_left, padded_right,
    printable, printable_char, push_char, push_repeat, repeat,
};
use vstd::prelude::*;
use vstd::slice::slice_subrange;
use vstd::string::StringExecFns;

verus! {

/// Number of bytes in one line of a hex dump.
pub const HEX_DUMP_WIDTH: usize = 16;

/// The bytes of `data` that row `i` shows at `width` bytes in a row.
pub open spec fn chunk(data: Seq<u8>, i: int, width: int) -> Seq<u8> {
    data.subrange(
        i * width,
        if (i + 1) * width < data.len() {
            (i + 1) * width
        } else {
            data.len() as int
        },
    )
}

/// Each byte of `d` as two hexadecimal digits and a space.
pub open spec fn hex_cells(d: Seq<u8>) -> Seq<char>
    decreases d.len(),
{
    if d.len() == 0 {
        Seq::empty()
    } else {
        hex_cells(d.drop_last()) + hex_fixed(d.last() as nat, 2) + seq![' ']
    }
}

/// Each byte of `d` as the character it is shown as.
pub open spec fn ascii_cells(d: Seq<u8>) -> Seq<char> {
    Seq::new(d.len(), |i: int| printable(d[i]))
}

/// The line above a hex dump, which numbers the columns.
pub open spec fn hex_dump_title() -> Seq<char> {
    "            00 01 02 03 04 05 06 07 08 09 0a 0b 0c 0d 0e 0f"@
}

/// The line of a hex dump that shows the bytes `d`, which start at `addr`:
/// the address, the bytes in hexadecimal, room for the bytes that a full
/// line would have more, and the bytes as characters.
pub open spec fn hex_dump_line(d: Seq<u8>, addr: int) -> Seq<char> {
    "    "@ + hex_fixed(addr as nat, 4) + " |  "@ + hex_cells(d) + repeat(
        ' ',
        3 * (HEX_DUMP_WIDTH - d.len()),
    ) + "| "@ + ascii_cells(d)
}

/// The hex dump of `data`: the title and one line for every 16 bytes.
pub open spec fn hex_dump(data: Seq<u8>) -> Seq<Seq<char>> {
    seq![hex_dump_title()] + Seq::new(
        page_count(data.len() as int, HEX_DUMP_WIDTH as int) as nat,
        |i: int| hex_dump_line(chunk(data, i, HEX_DUMP_WIDTH as int), i * HEX_DUMP_WIDTH),
    )
}

/// Appends each byte of `d` as two hexadecimal digits and a space.
pub fn push_hex_cells(out: &mut String, d: &[u8])
    ensures
        final(out)@ == old(out)@ + hex_cells(d@),
{
    let mut i: usize = 0;
    proof {
        assert(d@.subrange(0, 0) =~= Seq::<u8>::empty());
        assert(out@ =~= old(out)@ + hex_cells(d@.subrange(0, 0)));
    }
    while i < d.len()
        invariant
            i <= d.len(),
            out@ == old(out)@ + hex_cells(d@.subrange(0, i as int)),
        decreases d.len() - i,
    {
        let cell = hex_padded(d[i] as u64, 2);
        proof {
            let upto = d@.subrange(0, i + 1);
            assert(upto.drop_last() =~= d@.subrange(0, i as int));
            assert(upto.last() == d@[i as int]);
        }
        let ghost before = out@;
        out.append(cell.as_str());
        push_char(out, ' ');
        i = i + 1;
        proof {
            assert(out@ =~= before + hex_fixed(d@[i - 1] as nat, 2) + seq![' ']);
            assert(out@ =~= old(out)@ + hex_cells(d@.subrange(0, i as int)));
        }
    }
    proof {
        assert(d@.subrange(0, d@.len() as int) =~= d@);
    }
}

/// Appends each byte of `d` as the character it is shown as.
pub fn push_ascii_cells(out: &mut String, d: &[u8])
    ensures
        final(out)@ == old(out)@ + ascii_cells(d@),
{
    let mut i: usize = 0;
    proof {
        assert(out@ =~= old(out)@ + ascii_cells(d@.subrange(0, 0)));
    }
    while i < d.len()
        invariant
            i <= d.len(),
            out@ == old(out)@ + ascii_cells(d@.subrange(0, i as int)),
        decreases d.len() - i,
    {
        push_char(out, printable_char(d[i]));
        i = i + 1;
        proof {
            assert(out@ =~= old(out)@ + ascii_cells(d@.subrange(0, i as int)));
        }
    }
    proof {
        assert(d@.subrange(0, d@.len() as int) =~= d@);
    }
}

/// The line of a hex dump that shows the bytes `d`, which start at `addr`.
pub fn hex_line(d: &[u8], addr: usize) -> (r: String)
    requires
        d.len() <= HEX_DUMP_WIDTH,
    ensures
        r@ == hex_dump_line(d@, addr as int),
{
    let mut out = String::from_str("    ");
    let address = hex_padded(addr as u64, 4);
    out.append(address.as_str());
    out.append(" |  ");
    push_hex_cells(&mut out, d);
    push_repeat(&mut out, ' ', 3 * (HEX_DUMP_WIDTH - d.len()));
    out.append("| ");
    push_ascii_cells(&mut out, d);
    out
}

/// The bytes of `data` that row `i` shows at `width` bytes in a row.
pub fn row_bytes(data: &[u8], i: usize, width: usize) -> (r: &[u8])
    requires
        width > 0,
        i < page_count(data.len() as int, width as int),
    ensures
        r@ == chunk(data@, i as int, width as int),
        0 < r@.len() <= width,
        i * width + r@.len() <= data.len(),
        i * width <= usize::MAX,
{
    let len = data.len();
    proof {
        lemma_row_start(len as int, i as int, width as int);
    }
    let start = i * width;
    let end = if len - start > width {
        start + width
    } else {
        len
    };
    assert((i + 1) * width == i * width + width) by (nonlinear_arith);
    slice_subrange(data, start, end)
}

/// A row that exists starts inside the data.
pub proof fn lemma_row_start(len: int, i: int, width: int)
    requires
        width > 0,
        0 <= len,
        0 <= i < page_count(len, width),
    ensures
        0 <= i * width < len,
{
    assert(i * width < len && 0 <= i * width) by (nonlinear_arith)
        requires
            width > 0,
            0 <= len,
            0 <= i < (len + width - 1) / width,
    ;
}

/// The hex dump of `data`: the title and one line for every 16 bytes.
pub fn print_hex(data: &[u8]) -> (r: Vec<String>)
    ensures
        lines_view(r@) == hex_dump(data@),
{
    let mut lines: Vec<String> = Vec::new();
    lines.push(String::from_str("            00 01 02 03 04 05 06 07 08 09 0a 0b 0c 0d 0e 0f"));
    let rows = crate::model::rows_for(data.len(), HEX_DUMP_WIDTH);
    let mut i: usize = 0;
    proof {
        assert(lines_view(lines@) =~= seq![hex_dump_title()] + Seq::new(
            0,
            |k: int|
                hex_dump_line(chunk(data@, k, HEX_DUMP_WIDTH as int), k * HEX_DUMP_WIDTH),
        ));
    }
    while i < rows
        invariant
            i <= rows,
            rows == page_count(data.len() as int, HEX_DUMP_WIDTH as int),
            lines_view(lines@) == seq![hex_dump_title()] + Seq::new(
                i as nat,
                |k: int|
                    hex_dump_line(chunk(data@, k, HEX_DUMP_WIDTH as int), k * HEX_DUMP_WIDTH),
            ),
        decreases rows - i,
    {
        let d = row_bytes(data, i, HEX_DUMP_WIDTH);
        let line = hex_line(d, i * HEX_DUMP_WIDTH);
        proof {
            lemma_lines_push(lines@, line);
        }
        lines.push(line);
        i = i + 1;
        proof {
            assert(lines_view(lines@) =~= seq![hex_dump_title()] + Seq::new(
                i as nat,
                |k: int|
                    hex_dump_line(chunk(data@, k, HEX_DUMP_WIDTH as int), k * HEX_DUMP_WIDTH),
            ));
        }
    }
    lines
}

/// An event class as text: its name and its number, or the number alone
/// where the class is not known.
pub open spec fn class_text(class: u32) -> Seq<char> {
    match MilanApobEventClass::spec_from_repr(class as int) {
        Some(c) => c.spec_name() + " ("@ + hex_prefixed(class as nat) + ")"@,
        None => hex_prefixed(class as nat),
    }
}

/// An event as text: its name and its number, or the number alone where the
/// event is not known.
pub open spec fn info_text(info: u32) -> Seq<char> {
    match MilanApobEventInfo::spec_from_repr(info as int) {
        Some(c) => c.spec_name() + " ("@ + hex_prefixed(info as nat) + ")"@,
        None => hex_prefixed(info as nat),
    }
}

/// The line for event `i` of an event log.
pub open spec fn event_line(i: int, e: MilanApobEvent) -> Seq<char> {
    "       "@ + hex_fixed(i as nat, 2) + "  "@ + padded_left(class_text(e.class), 12, ' ') + "  "@
        + padded_right(info_text(e.info), 20, ' ') + "  "@ + hex_prefixed(e.data0 as nat) + " "@
        + hex_prefixed(e.data1 as nat)
}

/// The text of an event log with the given events.
pub open spec fn event_log_text(events: Seq<MilanApobEvent>) -> Seq<Seq<char>> {
    seq![
        "    Milan APOB event log"@,
        "    -------------------------------------"@,
        "    INDEX   CLASS        EVENT                 DATA"@,
    ] + Seq::new(events.len(), |i: int| event_line(i, events[i]))
}

/// The line for one hole of a memory map.
pub open spec fn hole_line(h: ApobSysMemMapHole) -> Seq<char> {
    "    "@ + hex_prefixed_fixed(h.base as nat, 10) + "  "@ + hex_prefixed_fixed(h.size as nat, 8)
        + "  "@ + hex_prefixed_fixed(h.ty as nat, 2)
}

/// The text of a memory map with the given holes.
pub open spec fn mem_map_text(map: ApobSysMemMap, holes: Seq<ApobSysMemMapHole>) -> Seq<Seq<char>> {
    seq![
        "    APOB fabric"@,
        "    high_phys: "@ + padded_left(hex_prefixed(map.high_phys as nat), 10, ' '),
        "    -------------------------------------"@,
        "            BASE        SIZE  TYPE"@,
    ] + Seq::new(holes.len(), |i: int| hole_line(holes[i]))
}

/// The line for entry `i` of a training failure log.
pub open spec fn pmu_line(i: int, e: PmuTfiEntryModel) -> Seq<char> {
    "       "@ + hex_fixed(i as nat, 2) + "  "@ + padded_left(
        dec_digits(field(e.bits, 1, 2) as nat),
        4,
        ' ',
    ) + " "@ + padded_left(dec_digits(field(e.bits, 2, 8) as nat), 3, ' ') + "  "@ + padded_left(
        dec_digits(field(e.bits, 16, 2) as nat),
        5,
        ' ',
    ) + " "@ + padded_left(dec_digits(field(e.bits, 32, 8) as nat), 5, ' ') + " "@ + padded_left(
        dec_digits(field(e.bits, 0x8000, 0x1_0000) as nat),
        6,
        ' ',
    ) + "  "@ + hex_digits(e.error as nat) + "  "@ + hex_digits(e.data[0] as nat) + " "@
        + hex_digits(e.data[1] as nat) + " "@ + hex_digits(e.data[2] as nat) + " "@ + hex_digits(
        e.data[3] as nat,
    )
}

/// The text of a training failure log with the given entries.
pub open spec fn pmu_text(entries: Seq<PmuTfiEntryModel>) -> Seq<Seq<char>> {
    seq![
        "    PMU training failure log"@,
        "    -------------------------------------"@,
        "    INDEX  SOCK UMC   1D2D 1DNUM  STAGE  ERROR   DATA"@,
    ] + Seq::new(entries.len(), |i: int| pmu_line(i, entries[i]))
}

/// An event class as text.
pub fn class_label(class: u32) -> (r: String)
    ensures
        r@ == class_text(class),
{
    match MilanApobEventClass::from_repr(class as usize) {
        Some(c) => {
            let mut out = String::from_str(c.name());
            out.append(" (");
            out.append(hex_with_prefix(class as u64).as_str());
            out.append(")");
            out
        },
        None => hex_with_prefix(class as u64),
    }
}

/// An event as text.
pub fn info_label(info: u32) -> (r: String)
    ensures
        r@ == info_text(info),
{
    match MilanApobEventInfo::from_repr(info as usize) {
        Some(c) => {
            let mut out = String::from_str(c.name());
            out.append(" (");
            out.append(hex_with_prefix(info as u64).as_str());
            out.append(")");
            out
        },
        None => hex_with_prefix(info as u64),
    }
}

/// The line for event `i` of an event log.
pub fn event_text_line(i: usize, e: &MilanApobEvent) -> (r: String)
    ensures
        r@ == event_line(i as int, *e),
{
    let mut out = String::from_str("       ");
    out.append(hex_padded(i as u64, 2).as_str());
    out.append("  ");
    out.append(pad_left(class_label(e.class).as_str(), 12, ' ').as_str());
    out.append("  ");
    out.append(pad_right(info_label(e.info).as_str(), 20, ' ').as_str());
    out.append("  ");
    out.append(hex_with_prefix(e.data0 as u64).as_str());
    out.append(" ");
    out.append(hex_with_prefix(e.data1 as u64).as_str());
    out
}

/// The text of an event log.
pub fn event_log_lines(log: &MilanApobEventLog) -> (r: Vec<String>)
    ensures
        lines_view(r@) == event_log_text(log.valid_events()),
{
    let mut lines: Vec<String> = Vec::new();
    lines.push(String::from_str("    Milan APOB event log"));
    lines.push(String::from_str("    -------------------------------------"));
    lines.push(String::from_str("    INDEX   CLASS        EVENT                 DATA"));
    let n = log.valid();
    let ghost events = log.valid_events();
    let ghost head = lines_view(lines@);
    proof {
        assert(head =~= seq![
            "    Milan APOB event log"@,
            "    -------------------------------------"@,
            "    INDEX   CLASS        EVENT                 DATA"@,
        ]);
        assert(lines_view(lines@) =~= head + Seq::new(0, |k: int| event_line(k, events[k])));
    }
    let mut i: usize = 0;
    while i < n
        invariant
            i <= n,
            n == events.len(),
            n <= MILAN_APOB_EVENT_SLOTS,
            events == log.valid_events(),
            lines_view(lines@) == head + Seq::new(i as nat, |k: int| event_line(k, events[k])),
        decreases n - i,
    {
        let line = event_text_line(i, &log.events[i]);
        proof {
            lemma_lines_push(lines@, line);
        }
        lines.push(line);
        i = i + 1;
        proof {
            assert(lines_view(lines@) =~= head + Seq::new(
                i as nat,
                |k: int| event_line(k, events[k]),
            ));
        }
    }
    lines
}

/// The line for one hole of a memory map.
pub fn hole_text_line(h: &ApobSysMemMapHole) -> (r: String)
    ensures
        r@ == hole_line(*h),
{
    let mut out = String::from_str("    ");
    out.append(hex_with_prefix_padded(h.base, 10).as_str());
    out.append("  ");
    out.append(hex_with_prefix_padded(h.size, 8).as_str());
    out.append("  ");
    out.append(hex_with_prefix_padded(h.ty as u64, 2).as_str());
    out
}

/// The text of a memory map.
pub fn mem_map_lines(map: &ApobSysMemMap, holes: &Vec<ApobSysMemMapHole>) -> (r: Vec<String>)
    ensures
        lines_view(r@) == mem_map_text(*map, holes@),
{
    let mut lines: Vec<String> = Vec::new();
    lines.push(String::from_str("    APOB fabric"));
    let mut high = String::from_str("    high_phys: ");
    high.append(pad_left(hex_with_prefix(map.high_phys).as_str(), 10, ' ').as_str());
    lines.push(high);
    lines.push(String::from_str("    -------------------------------------"));
    lines.push(String::from_str("            BASE        SIZE  TYPE"));
    let ghost head = lines_view(lines@);
    proof {
        assert(head =~= seq![
            "    APOB fabric"@,
            "    high_phys: "@ + padded_left(hex_prefixed(map.high_phys as nat), 10, ' '),
            "    -------------------------------------"@,
            "            BASE        SIZE  TYPE"@,
        ]);
        assert(lines_view(lines@) =~= head + Seq::new(0, |k: int| hole_line(holes@[k])));
    }
    let mut i: usize = 0;
    while i < holes.len()
        invariant
            i <= holes.len(),
            lines_view(lines@) == head + Seq::new(i as nat, |k: int| hole_line(holes@[k])),
        decreases holes.len() - i,
    {
        let line = hole_text_line(&holes[i]);
        proof {
            lemma_lines_push(lines@, line);
        }
        lines.push(line);
        i = i + 1;
        proof {
            assert(lines_view(lines@) =~= head + Seq::new(i as nat, |k: int| hole_line(holes@[k])));
        }
    }
    lines
}

/// The line for entry `i` of a training failure log.
pub fn pmu_text_line(i: usize, e: &PmuTfiEntry) -> (r: String)
    ensures
        r@ == pmu_line(i as int, e@),
{
    let mut out = String::from_str("       ");
    out.append(hex_padded(i as u64, 2).as_str());
    out.append("  ");
    out.append(pad_left(dec(e.bits.sock() as u64).as_str(), 4, ' ').as_str());
    out.append(" ");
    out.append(pad_left(dec(e.bits.umc() as u64).as_str(), 3, ' ').as_str());
    out.append("  ");
    out.append(pad_left(dec(e.bits.dimension() as u64).as_str(), 5, ' ').as_str());
    out.append(" ");
    out.append(pad_left(dec(e.bits.num_1d() as u64).as_str(), 5, ' ').as_str());
    out.append(" ");
    out.append(pad_left(dec(e.bits.stage() as u64).as_str(), 6, ' ').as_str());
    out.append("  ");
    out.append(hex(e.error as u64).as_str());
    out.append("  ");
    out.append(hex(e.data[0] as u64).as_str());
    out.append(" ");
    out.append(hex(e.data[1] as u64).as_str());
    out.append(" ");
    out.append(hex(e.data[2] as u64).as_str());
    out.append(" ");
    out.append(hex(e.data[3] as u64).as_str());
    out
}

/// The text of a training failure log.
pub fn pmu_lines(log: &PmuTfi) -> (r: Vec<String>)
    ensures
        lines_view(r@) == pmu_text(log.valid_entries()),
{
    let mut lines: Vec<String> = Vec::new();
    lines.push(String::from_str("    PMU training failure log"));
    lines.push(String::from_str("    -------------------------------------"));
    lines.push(String::from_str("    INDEX  SOCK UMC   1D2D 1DNUM  STAGE  ERROR   DATA"));
    let n = log.valid();
    let ghost entries = log.valid_entries();
    let ghost head = lines_view(lines@);
    proof {
        assert(head =~= seq![
            "    PMU training failure log"@,
            "    -------------------------------------"@,
            "    INDEX  SOCK UMC   1D2D 1DNUM  STAGE  ERROR   DATA"@,
        ]);
        assert(lines_view(lines@) =~= head + Seq::new(0, |k: int| pmu_line(k, entries[k])));
    }
    let mut i: usize = 0;
    while i < n
        invariant
            i <= n,
            n == entries.len(),
            n <= PMU_TFI_SLOTS,
            entries == log.valid_entries(),
            lines_view(lines@) == head + Seq::new(i as nat, |k: int| pmu_line(k, entries[k])),
        decreases n - i,
    {
        let line = pmu_text_line(i, &log.entries[i]);
        proof {
            lemma_lines_push(lines@, line);
        }
        lines.push(line);
        i = i + 1;
        proof {
            assert(lines_view(lines@) =~= head + Seq::new(i as nat, |k: int| pmu_line(k, entries[k])));
        }
    }
    lines
}

/// What the decoded payload of a record is as text, or why the payload was
/// refused: the text of its layout where the record has one, and no text
/// where it has none.
pub open spec fn spec_decode_item(entry: ApobEntry, s: Seq<u8>) -> Result<
    Seq<Seq<char>>,
    DecodeError,
> {
    match spec_specialized(Item::Entry(entry)) {
        Some(SpecializedTag::EventLog) => if s.len() < MILAN_APOB_EVENT_LOG_SIZE {
            Err(DecodeError::Truncated)
        } else if le_u16(s, 0) > MILAN_APOB_EVENT_SLOTS {
            Err(DecodeError::CountExceedsCapacity)
        } else {
            Ok(event_log_text(stored_events(s)))
        },
        Some(SpecializedTag::MemMap) => if s.len() < APOB_SYS_MEM_MAP_SIZE {
            Err(DecodeError::Truncated)
        } else if le_u32(s, 8) > hole_capacity(s.len() as int) {
            Err(DecodeError::CountExceedsCapacity)
        } else {
            Ok(mem_map_text(crate::payload::mem_map_at(s), stored_holes(s)))
        },
        Some(SpecializedTag::PmuTrainingFailure) => if s.len() < PMU_TFI_SIZE {
            Err(DecodeError::Truncated)
        } else if le_u32(s, 0) > PMU_TFI_SLOTS {
            Err(DecodeError::CountExceedsCapacity)
        } else {
            Ok(pmu_text(stored_entries(s)))
        },
        _ => Ok(Seq::empty()),
    }
}

/// The decoded payload of a record as text.
///
/// A record without a known layout gives no text. A payload that its decoder
/// refuses gives the decoder's error.
pub fn decode_item(entry: &ApobEntry, data: &[u8]) -> (r: Result<Vec<String>, DecodeError>)
    ensures
        match r {
            Ok(lines) => spec_decode_item(*entry, data@) == Ok::<Seq<Seq<char>>, DecodeError>(
                lines_view(lines@),
            ),
            Err(e) => spec_decode_item(*entry, data@) == Err::<Seq<Seq<char>>, DecodeError>(e),
        },
{
    match specialized(Item::Entry(*entry)) {
        Some(SpecializedTag::EventLog) => match MilanApobEventLog::decode(data) {
            Ok(log) => {
                proof {
                    lemma_valid_events(log, data@);
                }
                Ok(event_log_lines(&log))
            },
            Err(e) => Err(e),
        },
        Some(SpecializedTag::MemMap) => match ApobSysMemMap::decode(data) {
            Ok((map, holes)) => Ok(mem_map_lines(&map, &holes)),
            Err(e) => Err(e),
        },
        Some(SpecializedTag::PmuTrainingFailure) => match PmuTfi::decode(data) {
            Ok(log) => {
                proof {
                    lemma_valid_entries(log, data@);
                }
                Ok(pmu_lines(&log))
            },
            Err(e) => Err(e),
        },
        _ => {
            let lines: Vec<String> = Vec::new();
            proof {
                assert(lines_view(lines@) =~= Seq::<Seq<char>>::empty());
            }
            Ok(lines)
        },
    }
}

/// A group field as text: the name of its group, or the number that is
/// left when the cancellation bits are masked off where no group has it.
pub open spec fn group_text(group: u32) -> Seq<char> {
    match spec_group_of(group) {
        Some(g) => g.spec_name(),
        None => hex_prefixed((group & 0xFFFF) as nat),
    }
}

/// The number of payload bytes that a record header declares: its size
/// without the header itself.
pub open spec fn declared_payload(entry: ApobEntry) -> nat {
    if entry.size >= APOB_ENTRY_SIZE {
        (entry.size - APOB_ENTRY_SIZE) as nat
    } else {
        0
    }
}

/// The line above the list of records, which names the columns.
pub open spec fn summary_title() -> Seq<char> {
    "OFFSET    GROUP      TYPE   INSTANCE   DATA SIZE"@
}

/// The line that lists the record at `offset`: its offset, group, type,
/// instance and payload size, all numbers in hexadecimal.
pub open spec fn summary_line(offset: usize, entry: ApobEntry) -> Seq<char> {
    hex_prefixed_fixed(offset as nat, 5) + "   "@ + padded_right(group_text(entry.group), 8, ' ')
        + "   "@ + padded_left(hex_digits((entry.ty & 0xFFFF) as nat), 4, ' ') + "   "@
        + padded_left(hex_digits(entry.inst as nat), 8, ' ') + "   "@ + padded_left(
        hex_digits(declared_payload(entry)),
        9,
        ' ',
    )
}

/// The line that reports a payload which its decoder refused.
pub open spec fn refused_line(e: DecodeError) -> Seq<char> {
    "    not decoded: "@ + e.spec_message()
}

/// The text for one item: nothing for the header and the padding; for a
/// record its line, then its hex dump if `raw` is set, then, if `decode` is
/// set, its decoded payload, or the line that reports why the payload was
/// refused.
pub open spec fn item_text(item: Entry, raw: bool, decode: bool) -> Seq<Seq<char>> {
    match item.entry {
        Item::Entry(entry) => seq![summary_line(item.offset, entry)] + (if raw {
            hex_dump(item.data@)
        } else {
            Seq::empty()
        }) + (if decode {
            match spec_decode_item(entry, item.data@) {
                Ok(lines) => lines,
                Err(e) => seq![refused_line(e)],
            }
        } else {
            Seq::empty()
        }),
        _ => Seq::empty(),
    }
}

/// The text for the items, one after the other.
pub open spec fn items_text(items: Seq<Entry>, raw: bool, decode: bool) -> Seq<Seq<char>>
    decreases items.len(),
{
    if items.len() == 0 {
        Seq::empty()
    } else {
        items_text(items.drop_last(), raw, decode) + item_text(items.last(), raw, decode)
    }
}

/// The text of a blob: the column titles, then the text for each item.
pub open spec fn dump_text(items: Seq<Entry>, raw: bool, decode: bool) -> Seq<Seq<char>> {
    seq![summary_title()] + items_text(items, raw, decode)
}

/// The lines of two texts, one after the other.
pub proof fn lemma_lines_add(a: Seq<String>, b: Seq<String>)
    ensures
        lines_view(a + b) == lines_view(a) + lines_view(b),
{
    assert(lines_view(a + b) =~= lines_view(a) + lines_view(b));
}

/// A group field as text.
pub fn group_label(entry: &ApobEntry) -> (r: String)
    ensures
        r@ == group_text(entry.group),
{
    match entry.group() {
        Some(g) => String::from_str(g.name()),
        None => {
            let g: u32 = entry.group;
            assert(g & !0xFFFF_0000u32 == g & 0xFFFF) by (bit_vector);
            hex_with_prefix((entry.group & !crate::record::APOB_CANCELLED) as u64)
        },
    }
}

/// The number of payload bytes that a record header declares.
pub fn payload_size(entry: &ApobEntry) -> (r: usize)
    ensures
        r == declared_payload(*entry),
{
    if entry.size as usize >= APOB_ENTRY_SIZE {
        entry.size as usize - APOB_ENTRY_SIZE
    } else {
        0
    }
}

/// The line that lists the record at `offset`.
pub fn summary_text_line(offset: usize, entry: &ApobEntry) -> (r: String)
    ensures
        r@ == summary_line(offset, *entry),
{
    let mut out = hex_with_prefix_padded(offset as u64, 5);
    out.append("   ");
    out.append(pad_right(group_label(entry).as_str(), 8, ' ').as_str());
    out.append("   ");
    out.append(pad_left(hex(entry.listed_type() as u64).as_str(), 4, ' ').as_str());
    out.append("   ");
    out.append(pad_left(hex(entry.inst as u64).as_str(), 8, ' ').as_str());
    out.append("   ");
    out.append(pad_left(hex(payload_size(entry) as u64).as_str(), 9, ' ').as_str());
    out
}

/// The text for one item.
pub fn item_lines(item: &Entry, raw: bool, decode: bool) -> (r: Vec<String>)
    ensures
        lines_view(r@) == item_text(*item, raw, decode),
{
    let mut lines: Vec<String> = Vec::new();
    match item.entry {
        Item::Entry(entry) => {
            lines.push(summary_text_line(item.offset, &entry));
            proof {
                assert(lines_view(lines@) =~= seq![summary_line(item.offset, entry)]);
            }
            if raw {
                let mut hex_lines = print_hex(item.data.as_slice());
                proof {
                    lemma_lines_add(lines@, hex_lines@);
                }
                lines.append(&mut hex_lines);
            }
            proof {
                assert(lines_view(lines@) =~= seq![summary_line(item.offset, entry)] + (if raw {
                    hex_dump(item.data@)
                } else {
                    Seq::empty()
                }));
            }
            if decode {
                match decode_item(&entry, item.data.as_slice()) {
                    Ok(decoded) => {
                        let mut decoded = decoded;
                        proof {
                            lemma_lines_add(lines@, decoded@);
                        }
                        lines.append(&mut decoded);
                    },
                    Err(e) => {
                        let mut line = String::from_str("    not decoded: ");
                        line.append(e.message());
                        proof {
                            lemma_lines_push(lines@, line);
                        }
                        lines.push(line);
                    },
                }
            }
            proof {
                assert(lines_view(lines@) =~= item_text(*item, raw, decode));
            }
        },
        _ => {
            proof {
                assert(lines_view(lines@) =~= Seq::<Seq<char>>::empty());
            }
        },
    }
    lines
}

/// The text of a blob: the column titles, then for each record its line,
/// its hex dump if `raw` is set, and, if `decode` is set, its decoded payload
/// or the line that reports why the payload was refused.
pub fn dump(items: &Vec<Entry>, raw: bool, decode: bool) -> (r: Vec<String>)
    ensures
        lines_view(r@) == dump_text(items@, raw, decode),
{
    let mut lines: Vec<String> = Vec::new();
    lines.push(String::from_str("OFFSET    GROUP      TYPE   INSTANCE   DATA SIZE"));
    proof {
        assert(items@.take(0) =~= Seq::<Entry>::empty());
        assert(lines_view(lines@) =~= seq![summary_title()] + items_text(
            items@.take(0),
            raw,
            decode,
        ));
    }
    let mut i: usize = 0;
    while i < items.len()
        invariant
            i <= items.len(),
            lines_view(lines@) == seq![summary_title()] + items_text(
                items@.take(i as int),
                raw,
                decode,
            ),
        decreases items.len() - i,
    {
        let mut more = item_lines(&items[i], raw, decode);
        proof {
            lemma_lines_add(lines@, more@);
            let upto = items@.take(i + 1);
            assert(upto.drop_last() =~= items@.take(i as int));
            assert(upto.last() == items@[i as int]);
        }
        lines.append(&mut more);
        i = i + 1;
        proof {
            assert(lines_view(lines@) =~= seq![summary_title()] + items_text(
                items@.take(i as int),
                raw,
                decode,
            ));
        }
    }
    proof {
        assert(items@.take(items@.len() as int) =~= items@);
    }
    lines
}

} // verus!
