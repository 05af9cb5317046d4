//! The pane that shows the decoded payload of the selected item, where its
//! layout is known and the payload decodes.

use crate::browser::App;
use crate::bytes::{le_u16, le_u32};
use crate::cell::{
    cells_view, class_color, colored, left, lemma_rows_push, lines_view, plain, right, rows_view,
    spec_class_color, Cell, CellModel, CellStyle,
};
use crate::classify::{decode_specialized, spec_specialized, SpecializedTag, SpecializedView};
use crate::container::{Entry, Item};
use crate::dump::{ascii_cells, info_label, info_text, push_ascii_cells};
use crate::payload::{
    field, hole_capacity, lemma_valid_entries, lemma_valid_events, mem_map_at, stored_entries,
    stored_events, stored_holes, ApobSysMemMap, ApobSysMemMapHole, MilanApobEvent,
    MilanApobEventClass, MilanApobEventInfo, MilanApobEventLog, MilanTrainErrorData0,
    MilanTrainErrorData1, PmuTfi, PmuTfiEntry, PmuTfiEntryModel, APOB_SYS_MEM_MAP_SIZE,
    MILAN_APOB_EVENT_LOG_SIZE, MILAN_APOB_EVENT_SLOTS, PMU_TFI_SIZE, PMU_TFI_SLOTS,
};
use crate::record::ApobHeader;
use crate::render::{PaneModel, TablePane};
use crate::text::{
    dec, dec_digits, hex_fixed, hex_padded, hex_prefixed, hex_prefixed_fixed, hex_with_prefix,
    hex_with_prefix_padded, pad_right, padded_right,
};
use vstd::prelude::*;
use vstd::string::{StrSliceExecFns, StringExecFns};

verus! {

/// The pane for a decoded payload, as it is handed to the drawing surface.
#[derive(Clone, Debug)]
pub enum SpecializedPane {
    /// The header of the blob, one field to a line.
    Header { title: String, lines: Vec<String> },
    /// The memory map: its upper bound, and the table of its holes.
    MemMap { title: String, high_phys: String, holes: TablePane },
    /// The event log as a table.
    EventLog(TablePane),
    /// The training failure log as a table.
    PmuTrainingFailure(TablePane),
}

/// The pane for a decoded payload as a value of the model.
pub enum SpecializedPaneModel {
    Header { title: Seq<char>, lines: Seq<Seq<char>> },
    MemMap { title: Seq<char>, high_phys: Seq<char>, holes: PaneModel },
    EventLog(PaneModel),
    PmuTrainingFailure(PaneModel),
}

impl View for SpecializedPane {
    type V = SpecializedPaneModel;

    open spec fn view(&self) -> SpecializedPaneModel {
        match self {
            SpecializedPane::Header { title, lines } => SpecializedPaneModel::Header {
                title: title@,
                lines: lines_view(lines@),
            },
            SpecializedPane::MemMap { title, high_phys, holes } => SpecializedPaneModel::MemMap {
                title: title@,
                high_phys: high_phys@,
                holes: holes@,
            },
            SpecializedPane::EventLog(t) => SpecializedPaneModel::EventLog(t@),
            SpecializedPane::PmuTrainingFailure(t) => SpecializedPaneModel::PmuTrainingFailure(t@),
        }
    }
}

/// The length of the longest of the texts.
pub open spec fn widest(texts: Seq<Seq<char>>) -> nat
    decreases texts.len(),
{
    if texts.len() == 0 {
        0
    } else if widest(texts.drop_last()) >= texts.last().len() {
        widest(texts.drop_last())
    } else {
        texts.last().len()
    }
}

/// With one more text the longest is that text or the longest so far.
pub proof fn lemma_widest_push(texts: Seq<Seq<char>>, t: Seq<char>)
    ensures
        widest(texts.push(t)) == if widest(texts) >= t.len() {
            widest(texts)
        } else {
            t.len()
        },
{
    assert(texts.push(t).drop_last() =~= texts);
}

/// Every byte of `s` is printable ASCII.
pub open spec fn all_printable(s: Seq<u8>) -> bool {
    forall|i: int| 0 <= i < s.len() ==> 0x20 <= #[trigger] s[i] <= 0x7e
}

/// The bytes of `s` as decimal numbers with commas between them.
pub open spec fn byte_list(s: Seq<u8>) -> Seq<char>
    decreases s.len(),
{
    if s.len() == 0 {
        Seq::empty()
    } else if s.len() == 1 {
        dec_digits(s[0] as nat)
    } else {
        byte_list(s.drop_last()) + ", "@ + dec_digits(s.last() as nat)
    }
}

/// A signature as text: between quotes where all its bytes are printable,
/// else as the list of its bytes.
pub open spec fn sig_text(s: Seq<u8>) -> Seq<char> {
    if all_printable(s) {
        "'"@ + ascii_cells(s) + "'"@
    } else {
        "(["@ + byte_list(s) + "])"@
    }
}

/// The pane for the header of the blob.
pub open spec fn header_pane(h: ApobHeader) -> SpecializedPaneModel {
    SpecializedPaneModel::Header {
        title: "APOB Header"@,
        lines: seq![
            "signature: "@ + sig_text(h.sig@),
            "version:    "@ + hex_prefixed(h.version as nat),
            "size:       "@ + hex_prefixed(h.size as nat),
            "offset:     "@ + hex_prefixed(h.offset as nat),
        ],
    }
}

/// A signature as text.
pub fn sig_label(sig: &[u8; 4]) -> (r: String)
    ensures
        r@ == sig_text(sig@),
{
    let s = vstd::array::array_as_slice(sig);
    let mut printable = true;
    let mut i: usize = 0;
    while i < 4
        invariant
            i <= 4,
            s@ == sig@,
            s@.len() == 4,
            printable <==> forall|j: int| 0 <= j < i ==> 0x20 <= #[trigger] s@[j] <= 0x7e,
        decreases 4 - i,
    {
        if !(0x20 <= s[i] && s[i] <= 0x7e) {
            printable = false;
        }
        i = i + 1;
    }
    if printable {
        let mut out = String::from_str("'");
        push_ascii_cells(&mut out, s);
        out.append("'");
        out
    } else {
        let mut out = String::from_str("([");
        let ghost start = out@;
        let mut k: usize = 0;
        proof {
            assert(s@.subrange(0, 0) =~= Seq::<u8>::empty());
            assert(out@ =~= start + byte_list(s@.subrange(0, 0)));
        }
        while k < 4
            invariant
                k <= 4,
                s@.len() == 4,
                out@ == start + byte_list(s@.subrange(0, k as int)),
            decreases 4 - k,
        {
            proof {
                let upto = s@.subrange(0, k + 1);
                assert(upto.drop_last() =~= s@.subrange(0, k as int));
                assert(upto.last() == s@[k as int]);
                assert(upto[0] == s@[0]);
            }
            if k > 0 {
                out.append(", ");
            }
            out.append(dec(s[k] as u64).as_str());
            k = k + 1;
            proof {
                assert(out@ =~= start + byte_list(s@.subrange(0, k as int)));
            }
        }
        proof {
            assert(s@.subrange(0, 4) =~= s@);
        }
        out.append("])");
        out
    }
}

/// The pane for the header of the blob.
pub fn render_header(h: &ApobHeader) -> (r: SpecializedPane)
    ensures
        r@ == header_pane(*h),
{
    let mut lines: Vec<String> = Vec::new();
    let mut signature = String::from_str("signature: ");
    signature.append(sig_label(&h.sig).as_str());
    lines.push(signature);
    let mut version = String::from_str("version:    ");
    version.append(hex_with_prefix(h.version as u64).as_str());
    lines.push(version);
    let mut size = String::from_str("size:       ");
    size.append(hex_with_prefix(h.size as u64).as_str());
    lines.push(size);
    let mut offset = String::from_str("offset:     ");
    offset.append(hex_with_prefix(h.offset as u64).as_str());
    lines.push(offset);
    proof {
        assert(lines_view(lines@) =~= seq![
            "signature: "@ + sig_text(h.sig@),
            "version:    "@ + hex_prefixed(h.version as nat),
            "size:       "@ + hex_prefixed(h.size as nat),
            "offset:     "@ + hex_prefixed(h.offset as nat),
        ]);
    }
    SpecializedPane::Header { title: String::from_str("APOB Header"), lines }
}

/// The row for one hole of a memory map.
pub open spec fn hole_row(h: ApobSysMemMapHole) -> Seq<CellModel> {
    seq![
        left(hex_prefixed_fixed(h.base as nat, 10), plain()),
        left(hex_prefixed_fixed(h.size as nat, 8), plain()),
        left(hex_prefixed_fixed(h.ty as nat, 2), plain()),
    ]
}

/// The pane for a memory map with the given holes.
pub open spec fn mem_map_pane(
    map: ApobSysMemMap,
    holes: Seq<ApobSysMemMapHole>,
) -> SpecializedPaneModel {
    SpecializedPaneModel::MemMap {
        title: "APOB memory map"@,
        high_phys: "high_phys: "@ + hex_prefixed(map.high_phys as nat),
        holes: PaneModel {
            title: "HOLES"@,
            header: seq!["BASE"@, "SIZE"@, "TYPE"@],
            widths: seq![14usize, 12usize, 8usize],
            rows: Seq::new(holes.len(), |i: int| hole_row(holes[i])),
        },
    }
}

/// The pane for a memory map.
pub fn render_mem_map(map: &ApobSysMemMap, holes: &Vec<ApobSysMemMapHole>) -> (r: SpecializedPane)
    ensures
        r@ == mem_map_pane(*map, holes@),
{
    let mut rows: Vec<Vec<Cell>> = Vec::new();
    let mut i: usize = 0;
    proof {
        assert(rows_view(rows@) =~= Seq::new(0, |k: int| hole_row(holes@[k])));
    }
    while i < holes.len()
        invariant
            i <= holes.len(),
            rows_view(rows@) == Seq::new(i as nat, |k: int| hole_row(holes@[k])),
        decreases holes.len() - i,
    {
        let h = &holes[i];
        let mut cells: Vec<Cell> = Vec::new();
        cells.push(Cell::from_text(hex_with_prefix_padded(h.base, 10)));
        cells.push(Cell::from_text(hex_with_prefix_padded(h.size, 8)));
        cells.push(Cell::from_text(hex_with_prefix_padded(h.ty as u64, 2)));
        proof {
            assert(cells_view(cells@) =~= hole_row(*h));
            lemma_rows_push(rows@, cells);
        }
        rows.push(cells);
        i = i + 1;
        proof {
            assert(rows_view(rows@) =~= Seq::new(i as nat, |k: int| hole_row(holes@[k])));
        }
    }
    let mut header: Vec<String> = Vec::new();
    header.push(String::from_str("BASE"));
    header.push(String::from_str("SIZE"));
    header.push(String::from_str("TYPE"));
    let mut widths: Vec<usize> = Vec::new();
    widths.push(14);
    widths.push(12);
    widths.push(8);
    let mut high = String::from_str("high_phys: ");
    high.append(hex_with_prefix(map.high_phys).as_str());
    let table = TablePane { title: String::from_str("HOLES"), header, widths, rows };
    proof {
        assert(table@.header =~= seq!["BASE"@, "SIZE"@, "TYPE"@]);
        assert(table@.widths =~= seq![14usize, 12usize, 8usize]);
    }
    SpecializedPane::MemMap { title: String::from_str("APOB memory map"), high_phys: high, holes: table }
}

/// The cell for the class of an event: its name and number in the colour
/// of the class, or the number alone where the class is not known.
pub open spec fn class_cell(class: u32) -> CellModel {
    match MilanApobEventClass::spec_from_repr(class as int) {
        Some(c) => left(
            " "@ + padded_right(c.spec_name(), 5, ' ') + " ("@ + hex_prefixed(class as nat) + ")"@,
            colored(spec_class_color(c)),
        ),
        None => left(" "@ + hex_prefixed(class as nat), plain()),
    }
}

/// A row of the event table that only holds `text`, under the event.
pub open spec fn bonus_row(text: Seq<char>) -> Seq<CellModel> {
    seq![
        left(Seq::empty(), plain()),
        left(Seq::empty(), plain()),
        left(text, plain()),
        left(Seq::empty(), plain()),
        left(Seq::empty(), plain()),
    ]
}

/// The rows under a training error, which take its two data words apart:
/// socket and channel, DIMM and rank, and one row for each error flag that
/// is set.
pub open spec fn train_error_rows(e: MilanApobEvent) -> Seq<Seq<CellModel>> {
    seq![
        bonus_row(
            "  sock: "@ + dec_digits(field(e.data0, 1, 0x100) as nat) + "  chan: "@ + dec_digits(
                field(e.data0, 0x100, 0x100) as nat,
            ),
        ),
        bonus_row(
            "  dimm: "@ + dec_digits(field(e.data0, 0x1_0000, 4) as nat) + "  rank: "@ + dec_digits(
                field(e.data0, 0x100_0000, 16) as nat,
            ),
        ),
    ] + (if field(e.data1, 1, 2) == 1 {
        seq![bonus_row("  PMU load error"@)]
    } else {
        Seq::empty()
    }) + (if field(e.data1, 2, 2) == 1 {
        seq![bonus_row("  PMU train error"@)]
    } else {
        Seq::empty()
    })
}

/// The rows for event `i`: its own row, and under a training error the rows
/// that take its data apart.
pub open spec fn event_rows(i: int, e: MilanApobEvent) -> Seq<Seq<CellModel>> {
    seq![
        seq![
            right(hex_fixed(i as nat, 2), plain()),
            class_cell(e.class),
            left(info_text(e.info), plain()),
            left(hex_prefixed(e.data0 as nat), plain()),
            left(hex_prefixed(e.data1 as nat), plain()),
        ],
    ] + (if MilanApobEventInfo::spec_from_repr(e.info as int) == Some(
        MilanApobEventInfo::TRAIN_ERROR,
    ) {
        train_error_rows(e)
    } else {
        Seq::empty()
    })
}

/// The rows for all the events, in order.
pub open spec fn all_event_rows(events: Seq<MilanApobEvent>) -> Seq<Seq<CellModel>>
    decreases events.len(),
{
    if events.len() == 0 {
        Seq::empty()
    } else {
        all_event_rows(events.drop_last()) + event_rows(events.len() - 1, events.last())
    }
}

/// The pane for an event log with the given events. The two data columns
/// are as wide as their longest entry.
pub open spec fn event_log_pane(events: Seq<MilanApobEvent>) -> SpecializedPaneModel {
    SpecializedPaneModel::EventLog(
        PaneModel {
            title: "APOB event log"@,
            header: seq!["INDEX"@, " CLASS"@, "EVENT"@, "DATA"@, ""@],
            widths: seq![
                5usize,
                14usize,
                20usize,
                widest(Seq::new(events.len(), |i: int| hex_prefixed(events[i].data0 as nat))) as usize,
                widest(Seq::new(events.len(), |i: int| hex_prefixed(events[i].data1 as nat))) as usize,
            ],
            rows: all_event_rows(events),
        },
    )
}

/// The cell for the class of an event.
pub fn render_class_cell(class: u32) -> (r: Cell)
    ensures
        r@ == class_cell(class),
{
    match MilanApobEventClass::from_repr(class as usize) {
        Some(c) => {
            let mut text = String::from_str(" ");
            text.append(pad_right(c.name(), 5, ' ').as_str());
            text.append(" (");
            text.append(hex_with_prefix(class as u64).as_str());
            text.append(")");
            Cell::from_text(text).styled(CellStyle::fg(class_color(c)))
        },
        None => {
            let mut text = String::from_str(" ");
            text.append(hex_with_prefix(class as u64).as_str());
            Cell::from_text(text)
        },
    }
}

/// A row of the event table that only holds `text`.
pub fn render_bonus_row(text: String) -> (r: Vec<Cell>)
    ensures
        cells_view(r@) == bonus_row(text@),
{
    let mut cells: Vec<Cell> = Vec::new();
    cells.push(Cell::from_text(String::new()));
    cells.push(Cell::from_text(String::new()));
    cells.push(Cell::from_text(text));
    cells.push(Cell::from_text(String::new()));
    cells.push(Cell::from_text(String::new()));
    proof {
        assert(cells_view(cells@) =~= bonus_row(text@));
    }
    cells
}

/// Appends the rows for event `i` to the rows of the event table.
pub fn push_event_rows(rows: &mut Vec<Vec<Cell>>, i: usize, e: &MilanApobEvent)
    ensures
        rows_view(final(rows)@) == rows_view(old(rows)@) + event_rows(i as int, *e),
{
    let mut cells: Vec<Cell> = Vec::new();
    cells.push(Cell::from_text_right(hex_padded(i as u64, 2)));
    cells.push(render_class_cell(e.class));
    cells.push(Cell::from_text(info_label(e.info)));
    cells.push(Cell::from_text(hex_with_prefix(e.data0 as u64)));
    cells.push(Cell::from_text(hex_with_prefix(e.data1 as u64)));
    let ghost main = cells_view(cells@);
    proof {
        assert(main =~= event_rows(i as int, *e)[0]);
        lemma_rows_push(rows@, cells);
    }
    rows.push(cells);
    let ghost base = rows_view(old(rows)@);
    match MilanApobEventInfo::from_repr(e.info as usize) {
        Some(MilanApobEventInfo::TRAIN_ERROR) => {
            let data0 = MilanTrainErrorData0(e.data0);
            let mut first = String::from_str("  sock: ");
            first.append(dec(data0.sock() as u64).as_str());
            first.append("  chan: ");
            first.append(dec(data0.chan() as u64).as_str());
            let row1 = render_bonus_row(first);
            proof {
                lemma_rows_push(rows@, row1);
            }
            rows.push(row1);
            let mut second = String::from_str("  dimm: ");
            second.append(dec(data0.dimm() as u64).as_str());
            second.append("  rank: ");
            second.append(dec(data0.rank() as u64).as_str());
            let row2 = render_bonus_row(second);
            proof {
                lemma_rows_push(rows@, row2);
            }
            rows.push(row2);
            let data1 = MilanTrainErrorData1(e.data1);
            if data1.pmu_load() {
                let row3 = render_bonus_row(String::from_str("  PMU load error"));
                proof {
                    lemma_rows_push(rows@, row3);
                }
                rows.push(row3);
            }
            if data1.pmu_train() {
                let row4 = render_bonus_row(String::from_str("  PMU train error"));
                proof {
                    lemma_rows_push(rows@, row4);
                }
                rows.push(row4);
            }
            proof {
                assert(rows_view(rows@) =~= base + event_rows(i as int, *e));
            }
        },
        None => {
            proof {
                assert(rows_view(rows@) =~= base + event_rows(i as int, *e));
            }
        },
    }
}

/// The pane for an event log.
pub fn render_event_log(log: &MilanApobEventLog) -> (r: SpecializedPane)
    ensures
        r@ == event_log_pane(log.valid_events()),
{
    let n = log.valid();
    let ghost events = log.valid_events();
    let mut rows: Vec<Vec<Cell>> = Vec::new();
    let mut data0_len: usize = 0;
    let mut data1_len: usize = 0;
    let mut i: usize = 0;
    proof {
        assert(events.take(0) =~= Seq::<MilanApobEvent>::empty());
        assert(rows_view(rows@) =~= all_event_rows(events.take(0)));
    }
    while i < n
        invariant
            i <= n,
            n == events.len(),
            n <= MILAN_APOB_EVENT_SLOTS,
            events == log.valid_events(),
            rows_view(rows@) == all_event_rows(events.take(i as int)),
            data0_len == widest(Seq::new(i as nat, |k: int| hex_prefixed(events[k].data0 as nat))),
            data1_len == widest(Seq::new(i as nat, |k: int| hex_prefixed(events[k].data1 as nat))),
        decreases n - i,
    {
        let e = &log.events[i];
        let len0 = hex_with_prefix(e.data0 as u64).as_str().unicode_len();
        let len1 = hex_with_prefix(e.data1 as u64).as_str().unicode_len();
        proof {
            let upto = events.take(i + 1);
            assert(upto.drop_last() =~= events.take(i as int));
            assert(upto.last() == *e);
            let before0 = Seq::new(i as nat, |k: int| hex_prefixed(events[k].data0 as nat));
            let before1 = Seq::new(i as nat, |k: int| hex_prefixed(events[k].data1 as nat));
            lemma_widest_push(before0, hex_prefixed(e.data0 as nat));
            lemma_widest_push(before1, hex_prefixed(e.data1 as nat));
            assert(before0.push(hex_prefixed(e.data0 as nat)) =~= Seq::new(
                (i + 1) as nat,
                |k: int| hex_prefixed(events[k].data0 as nat),
            ));
            assert(before1.push(hex_prefixed(e.data1 as nat)) =~= Seq::new(
                (i + 1) as nat,
                |k: int| hex_prefixed(events[k].data1 as nat),
            ));
        }
        if len0 > data0_len {
            data0_len = len0;
        }
        if len1 > data1_len {
            data1_len = len1;
        }
        push_event_rows(&mut rows, i, e);
        i = i + 1;
    }
    proof {
        assert(events.take(n as int) =~= events);
    }
    let mut header: Vec<String> = Vec::new();
    header.push(String::from_str("INDEX"));
    header.push(String::from_str(" CLASS"));
    header.push(String::from_str("EVENT"));
    header.push(String::from_str("DATA"));
    header.push(String::from_str(""));
    let mut widths: Vec<usize> = Vec::new();
    widths.push(5);
    widths.push(14);
    widths.push(20);
    widths.push(data0_len);
    widths.push(data1_len);
    let table = TablePane { title: String::from_str("APOB event log"), header, widths, rows };
    proof {
        assert(table@.header =~= seq!["INDEX"@, " CLASS"@, "EVENT"@, "DATA"@, ""@]);
        assert(table@.widths =~= event_log_pane(events)->EventLog_0.widths);
    }
    SpecializedPane::EventLog(table)
}

/// The row for entry `i` of a training failure log: the fields packed into
/// its first word in decimal, its error code and data words in hexadecimal.
pub open spec fn pmu_row(i: int, e: PmuTfiEntryModel) -> Seq<CellModel> {
    seq![
        right(hex_fixed(i as nat, 2), plain()),
        right(dec_digits(field(e.bits, 1, 2) as nat), plain()),
        right(dec_digits(field(e.bits, 2, 8) as nat), plain()),
        right(dec_digits(field(e.bits, 16, 2) as nat), plain()),
        right(dec_digits(field(e.bits, 32, 8) as nat), plain()),
        right(dec_digits(field(e.bits, 0x8000, 0x1_0000) as nat), plain()),
        left(hex_prefixed(e.error as nat), plain()),
        left(hex_prefixed(e.data[0] as nat), plain()),
        left(hex_prefixed(e.data[1] as nat), plain()),
        left(hex_prefixed(e.data[2] as nat), plain()),
        left(hex_prefixed(e.data[3] as nat), plain()),
    ]
}

/// The texts of column `column` of a training failure table, counted from
/// the error column, for the first `n` entries.
pub open spec fn pmu_column(entries: Seq<PmuTfiEntryModel>, n: nat, column: int) -> Seq<Seq<char>> {
    Seq::new(
        n,
        |i: int|
            if column == 0 {
                hex_prefixed(entries[i].error as nat)
            } else {
                hex_prefixed(entries[i].data[column - 1] as nat)
            },
    )
}

/// The pane for a training failure log with the given entries. The error
/// column and the four data columns are as wide as their longest entry.
pub open spec fn pmu_pane(entries: Seq<PmuTfiEntryModel>) -> SpecializedPaneModel {
    SpecializedPaneModel::PmuTrainingFailure(
        PaneModel {
            title: "PMU training failure log"@,
            header: seq![
                "INDEX"@,
                "SOCK"@,
                "UMC"@,
                "1D2D"@,
                "1DNUM"@,
                "STAGE"@,
                "ERROR"@,
                "DATA"@,
                ""@,
                ""@,
                ""@,
            ],
            widths: seq![
                5usize,
                4usize,
                3usize,
                4usize,
                5usize,
                5usize,
                widest(pmu_column(entries, entries.len(), 0)) as usize,
                widest(pmu_column(entries, entries.len(), 1)) as usize,
                widest(pmu_column(entries, entries.len(), 2)) as usize,
                widest(pmu_column(entries, entries.len(), 3)) as usize,
                widest(pmu_column(entries, entries.len(), 4)) as usize,
            ],
            rows: Seq::new(entries.len(), |i: int| pmu_row(i, entries[i])),
        },
    )
}

/// The row for entry `i` of a training failure log.
pub fn render_pmu_row(i: usize, e: &PmuTfiEntry) -> (r: Vec<Cell>)
    ensures
        cells_view(r@) == pmu_row(i as int, e@),
{
    let mut cells: Vec<Cell> = Vec::new();
    cells.push(Cell::from_text_right(hex_padded(i as u64, 2)));
    cells.push(Cell::from_text_right(dec(e.bits.sock() as u64)));
    cells.push(Cell::from_text_right(dec(e.bits.umc() as u64)));
    cells.push(Cell::from_text_right(dec(e.bits.dimension() as u64)));
    cells.push(Cell::from_text_right(dec(e.bits.num_1d() as u64)));
    cells.push(Cell::from_text_right(dec(e.bits.stage() as u64)));
    cells.push(Cell::from_text(hex_with_prefix(e.error as u64)));
    cells.push(Cell::from_text(hex_with_prefix(e.data[0] as u64)));
    cells.push(Cell::from_text(hex_with_prefix(e.data[1] as u64)));
    cells.push(Cell::from_text(hex_with_prefix(e.data[2] as u64)));
    cells.push(Cell::from_text(hex_with_prefix(e.data[3] as u64)));
    proof {
        assert(cells_view(cells@) =~= pmu_row(i as int, e@));
    }
    cells
}

/// The longer of the width so far and the length of `n` in hexadecimal
/// behind `0x`.
fn wider(so_far: usize, n: u32) -> (r: usize)
    ensures
        r == if so_far >= hex_prefixed(n as nat).len() {
            so_far as nat
        } else {
            hex_prefixed(n as nat).len()
        },
{
    let len = hex_with_prefix(n as u64).as_str().unicode_len();
    if len > so_far {
        len
    } else {
        so_far
    }
}

/// The pane for a training failure log.
pub fn render_pmu(log: &PmuTfi) -> (r: SpecializedPane)
    ensures
        r@ == pmu_pane(log.valid_entries()),
{
    let n = log.valid();
    let ghost entries = log.valid_entries();
    let mut rows: Vec<Vec<Cell>> = Vec::new();
    let mut err_len: usize = 0;
    let mut len0: usize = 0;
    let mut len1: usize = 0;
    let mut len2: usize = 0;
    let mut len3: usize = 0;
    let mut i: usize = 0;
    proof {
        assert(rows_view(rows@) =~= Seq::new(0, |k: int| pmu_row(k, entries[k])));
    }
    while i < n
        invariant
            i <= n,
            n == entries.len(),
            n <= PMU_TFI_SLOTS,
            entries == log.valid_entries(),
            rows_view(rows@) == Seq::new(i as nat, |k: int| pmu_row(k, entries[k])),
            err_len == widest(pmu_column(entries, i as nat, 0)),
            len0 == widest(pmu_column(entries, i as nat, 1)),
            len1 == widest(pmu_column(entries, i as nat, 2)),
            len2 == widest(pmu_column(entries, i as nat, 3)),
            len3 == widest(pmu_column(entries, i as nat, 4)),
        decreases n - i,
    {
        let e = &log.entries[i];
        proof {
            assert(e@ == entries[i as int]);
            assert(e.data@.len() == 4);
            lemma_widest_push(pmu_column(entries, i as nat, 0), hex_prefixed(e.error as nat));
            lemma_widest_push(pmu_column(entries, i as nat, 1), hex_prefixed(e.data@[0] as nat));
            lemma_widest_push(pmu_column(entries, i as nat, 2), hex_prefixed(e.data@[1] as nat));
            lemma_widest_push(pmu_column(entries, i as nat, 3), hex_prefixed(e.data@[2] as nat));
            lemma_widest_push(pmu_column(entries, i as nat, 4), hex_prefixed(e.data@[3] as nat));
            assert(pmu_column(entries, i as nat, 0).push(hex_prefixed(e.error as nat))
                =~= pmu_column(entries, (i + 1) as nat, 0));
            assert(pmu_column(entries, i as nat, 1).push(hex_prefixed(e.data@[0] as nat))
                =~= pmu_column(entries, (i + 1) as nat, 1));
            assert(pmu_column(entries, i as nat, 2).push(hex_prefixed(e.data@[1] as nat))
                =~= pmu_column(entries, (i + 1) as nat, 2));
            assert(pmu_column(entries, i as nat, 3).push(hex_prefixed(e.data@[2] as nat))
                =~= pmu_column(entries, (i + 1) as nat, 3));
            assert(pmu_column(entries, i as nat, 4).push(hex_prefixed(e.data@[3] as nat))
                =~= pmu_column(entries, (i + 1) as nat, 4));
        }
        err_len = wider(err_len, e.error);
        len0 = wider(len0, e.data[0]);
        len1 = wider(len1, e.data[1]);
        len2 = wider(len2, e.data[2]);
        len3 = wider(len3, e.data[3]);
        let row = render_pmu_row(i, e);
        proof {
            lemma_rows_push(rows@, row);
        }
        rows.push(row);
        i = i + 1;
        proof {
            assert(rows_view(rows@) =~= Seq::new(i as nat, |k: int| pmu_row(k, entries[k])));
        }
    }
    let mut header: Vec<String> = Vec::new();
    header.push(String::from_str("INDEX"));
    header.push(String::from_str("SOCK"));
    header.push(String::from_str("UMC"));
    header.push(String::from_str("1D2D"));
    header.push(String::from_str("1DNUM"));
    header.push(String::from_str("STAGE"));
    header.push(String::from_str("ERROR"));
    header.push(String::from_str("DATA"));
    header.push(String::from_str(""));
    header.push(String::from_str(""));
    header.push(String::from_str(""));
    let mut widths: Vec<usize> = Vec::new();
    widths.push(5);
    widths.push(4);
    widths.push(3);
    widths.push(4);
    widths.push(5);
    widths.push(5);
    widths.push(err_len);
    widths.push(len0);
    widths.push(len1);
    widths.push(len2);
    widths.push(len3);
    let table = TablePane {
        title: String::from_str("PMU training failure log"),
        header,
        widths,
        rows,
    };
    proof {
        assert(table@.header =~= pmu_pane(entries)->PmuTrainingFailure_0.header);
        assert(table@.widths =~= pmu_pane(entries)->PmuTrainingFailure_0.widths);
    }
    SpecializedPane::PmuTrainingFailure(table)
}

/// The pane for the decoded payload of an item: that of its layout where
/// the item has one and its payload decodes, and none otherwise.
pub open spec fn specialized_pane(item: Entry) -> Option<SpecializedPaneModel> {
    let s = item.data@;
    match spec_specialized(item.entry) {
        None => None,
        Some(SpecializedTag::Header) => match item.entry {
            Item::Header(h) => Some(header_pane(h)),
            _ => None,
        },
        Some(SpecializedTag::EventLog) => if s.len() >= MILAN_APOB_EVENT_LOG_SIZE && le_u16(s, 0)
            <= MILAN_APOB_EVENT_SLOTS {
            Some(event_log_pane(stored_events(s)))
        } else {
            None
        },
        Some(SpecializedTag::MemMap) => if s.len() >= APOB_SYS_MEM_MAP_SIZE && le_u32(s, 8)
            <= hole_capacity(s.len() as int) {
            Some(mem_map_pane(mem_map_at(s), stored_holes(s)))
        } else {
            None
        },
        Some(SpecializedTag::PmuTrainingFailure) => if s.len() >= PMU_TFI_SIZE && le_u32(s, 0)
            <= PMU_TFI_SLOTS {
            Some(pmu_pane(stored_entries(s)))
        } else {
            None
        },
    }
}

/// The pane for the decoded payload of an item.
pub fn render_item(item: &Entry) -> (r: Option<SpecializedPane>)
    ensures
        match r {
            Some(pane) => specialized_pane(*item) == Some(pane@),
            None => specialized_pane(*item) is None,
        },
{
    match decode_specialized(item) {
        Some(Ok(SpecializedView::Header(h))) => Some(render_header(&h)),
        Some(Ok(SpecializedView::EventLog(log))) => {
            proof {
                lemma_valid_events(log, item.data@);
            }
            Some(render_event_log(&log))
        },
        Some(Ok(SpecializedView::MemMap(map, holes))) => Some(render_mem_map(&map, &holes)),
        Some(Ok(SpecializedView::PmuTrainingFailure(log))) => {
            proof {
                lemma_valid_entries(log, item.data@);
            }
            Some(render_pmu(&log))
        },
        Some(Err(_)) => None,
        None => None,
    }
}

/// The pane for the decoded payload of the selected item.
pub fn render_specialized(app: &App) -> (r: Option<SpecializedPane>)
    requires
        app@.wf(),
    ensures
        match r {
            Some(pane) => specialized_pane(app@.items[app@.selected]) == Some(pane@),
            None => specialized_pane(app@.items[app@.selected]) is None,
        },
{
    render_item(&app.items()[app.selected()])
}

} // verus!
