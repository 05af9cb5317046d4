use apob::browser::App;
use apob::cell::{border_style, class_color, data_style, group_color, Align, Cell, CellStyle, Color};
use apob::container::{Entry, Item};
use apob::model::{DataGrouping, Endian};
use apob::payload::{ApobSysMemMap, ApobSysMemMapHole, MilanApobEventClass, MilanApobEventLog, PmuTfi};
use apob::record::{ApobEntry, ApobGroup, ApobHeader};
use apob::render::{help_line, render_data, render_table, render_table_row, value_cell, TablePane};
use apob::special::{
    render_event_log, render_header, render_item, render_mem_map, render_pmu, render_specialized,
    sig_label, SpecializedPane,
};

const PLAIN: CellStyle = CellStyle { fg: None, dim: false };
const DIM: CellStyle = CellStyle { fg: None, dim: true };

fn fg(c: Color) -> CellStyle {
    CellStyle { fg: Some(c), dim: false }
}

fn texts(row: &[Cell]) -> Vec<String> {
    row.iter().map(|c| c.text.clone()).collect()
}

fn record(offset: usize, group: u32, ty: u32, inst: u32, data: Vec<u8>) -> Entry {
    let e = ApobEntry { group, ty, inst, size: 48 + data.len() as u32, hmac: [0; 32] };
    Entry { offset, entry: Item::Entry(e), data }
}

fn header_item() -> Entry {
    let h = ApobHeader { sig: *b"APOB", version: 0x18, size: 0x2000, offset: 0x40 };
    let mut data = b"APOB".to_vec();
    for v in [h.version, h.size, h.offset] {
        data.extend_from_slice(&v.to_le_bytes());
    }
    Entry { offset: 0, entry: Item::Header(h), data }
}

fn event_log_bytes(count: u16, events: &[(u32, u32, u32, u32)]) -> Vec<u8> {
    let mut out = Vec::new();
    out.extend_from_slice(&count.to_le_bytes());
    out.extend_from_slice(&[0, 0]);
    for i in 0..64 {
        let (c, n, a, b) = events.get(i).copied().unwrap_or((0, 0, 0, 0));
        for v in [c, n, a, b] {
            out.extend_from_slice(&v.to_le_bytes());
        }
    }
    out
}

fn pmu_bytes(nvalid: u32, entries: &[(u32, u32, [u32; 4])]) -> Vec<u8> {
    let mut out = Vec::new();
    out.extend_from_slice(&nvalid.to_le_bytes());
    for i in 0..40 {
        let (bits, err, data) = entries.get(i).copied().unwrap_or((0, 0, [0; 4]));
        out.extend_from_slice(&bits.to_le_bytes());
        out.extend_from_slice(&err.to_le_bytes());
        for d in data {
            out.extend_from_slice(&d.to_le_bytes());
        }
    }
    out
}

fn table(pane: SpecializedPane) -> TablePane {
    match pane {
        SpecializedPane::EventLog(t) | SpecializedPane::PmuTrainingFailure(t) => t,
        SpecializedPane::MemMap { holes, .. } => holes,
        SpecializedPane::Header { .. } => panic!("no table"),
    }
}

#[test]
fn value_colours() {
    assert_eq!(data_style(&[]), DIM);
    assert_eq!(data_style(&[0]), DIM);
    assert_eq!(data_style(&[0, 0, 0]), DIM);
    assert_eq!(data_style(&[0xFF]), fg(Color::Yellow));
    assert_eq!(data_style(&[0xFF; 8]), fg(Color::Yellow));
    assert_eq!(data_style(&[0xFF; 5]), fg(Color::Yellow));
    assert_eq!(data_style(&[0x30]), fg(Color::Cyan));
    assert_eq!(data_style(&[0x03]), fg(Color::Blue));
    assert_eq!(data_style(&[0x33]), fg(Color::Green));
    assert_eq!(data_style(&[0, 5]), fg(Color::Cyan));
    assert_eq!(data_style(&[5, 0]), fg(Color::Blue));
    assert_eq!(data_style(&[5, 5]), fg(Color::Green));
    assert_eq!(data_style(&[0, 0, 1, 0]), fg(Color::Cyan));
    assert_eq!(data_style(&[0, 1, 0, 0]), fg(Color::Blue));
    assert_eq!(data_style(&[0, 1, 0, 1]), fg(Color::Green));
    assert_eq!(data_style(&[0, 0, 0, 0, 0, 0, 0, 1]), fg(Color::Cyan));
    assert_eq!(data_style(&[1, 0, 0, 0, 0, 0, 0, 0]), fg(Color::Blue));
    assert_eq!(data_style(&[0, 0, 0, 1, 1, 0, 0, 0]), fg(Color::Green));
    assert_eq!(data_style(&[0, 0, 1]), PLAIN);
    assert_eq!(data_style(&[1, 0, 0, 0, 0, 0]), PLAIN);
    assert_eq!(data_style(&[0xFF, 0xFF, 0xFE]), PLAIN);
}

#[test]
fn group_and_class_colours() {
    assert_eq!(group_color(ApobGroup::MEMORY), Color::Blue);
    assert_eq!(group_color(ApobGroup::DF), Color::LightBlue);
    assert_eq!(group_color(ApobGroup::CCX), Color::Red);
    assert_eq!(group_color(ApobGroup::NBIO), Color::LightGreen);
    assert_eq!(group_color(ApobGroup::FCH), Color::LightRed);
    assert_eq!(group_color(ApobGroup::PSP), Color::LightCyan);
    assert_eq!(group_color(ApobGroup::GENERAL), Color::Magenta);
    assert_eq!(group_color(ApobGroup::SMBIOS), Color::Green);
    assert_eq!(group_color(ApobGroup::FABRIC), Color::Cyan);
    assert_eq!(group_color(ApobGroup::APCB), Color::LightMagenta);
    assert_eq!(class_color(MilanApobEventClass::ALERT), Color::Green);
    assert_eq!(class_color(MilanApobEventClass::WARN), Color::Blue);
    assert_eq!(class_color(MilanApobEventClass::ERROR), Color::Magenta);
    assert_eq!(class_color(MilanApobEventClass::CRIT), Color::Yellow);
    assert_eq!(class_color(MilanApobEventClass::FATAL), Color::Red);
    assert_eq!(border_style(true), PLAIN);
    assert_eq!(border_style(false), DIM);
}

#[test]
fn item_list_rows() {
    let row = render_table_row(&record(0x40, 1, 22, 3, vec![0; 0x3c4]));
    assert_eq!(texts(&row), ["00040", "MEMORY+", "0x16", "3", "3c4"]);
    assert_eq!(row[1].style, fg(Color::Blue));
    assert_eq!(row[1].align, Align::Left);
    for i in [0, 2, 3, 4] {
        assert_eq!(row[i].align, Align::Right);
        assert_eq!(row[i].style, PLAIN);
    }
    let row = render_table_row(&record(0x12345, 0xFFFF_0007, 0xFFFF_0006, 0xAB, vec![1]));
    assert_eq!(texts(&row), ["12345", "GENERAL*", "0x06", "ab", "1"]);
    assert_eq!(row[1].style, DIM);
    let row = render_table_row(&record(0x1234567, 2, 0x100, 0, vec![]));
    assert_eq!(texts(&row), ["1234567", "DF", "0x100", "0", "0"]);
    assert_eq!(row[1].style, fg(Color::LightBlue));
    let row = render_table_row(&record(0, 0x2b, 1, 0, vec![]));
    assert_eq!(texts(&row), ["00000", "0x2b", "0x01", "0", "0"]);
    assert_eq!(row[1].style, PLAIN);
    let row = render_table_row(&header_item());
    assert_eq!(texts(&row), ["00000", "HEADER+", "--", "--", "--"]);
    assert_eq!(row[1].style, fg(Color::Yellow));
    assert_eq!(row[2].align, Align::Right);
    let row = render_table_row(&Entry { offset: 16, entry: Item::Padding, data: vec![0; 48] });
    assert_eq!(texts(&row), ["00010", "PADDING", "--", "--", "30"]);
    assert_eq!(row[1].style, fg(Color::LightRed));
}

#[test]
fn item_list_has_a_row_for_each_item() {
    let items = vec![
        header_item(),
        Entry { offset: 16, entry: Item::Padding, data: vec![] },
        record(16, 9, 9, 0, vec![0; 16]),
    ];
    let app = App::new(items.clone());
    let pane = render_table(&app);
    assert_eq!(pane.title, "APOB entries");
    assert_eq!(pane.header, ["OFFSET", "GROUP", "TYPE", "INSTANCE", "DATA SIZE"]);
    assert_eq!(pane.widths, [6, 8, 4, 8, 9]);
    assert_eq!(pane.rows.len(), 3);
    for (row, item) in pane.rows.iter().zip(&items) {
        assert_eq!(texts(row), texts(&render_table_row(item)));
    }
    assert_eq!(texts(&pane.rows[2]), ["00010", "FABRIC+", "0x09", "0", "10"]);
}

#[test]
fn values_follow_the_byte_order() {
    let c = value_cell(&[0x12, 0x34, 0xab, 0x00], Endian::Little, false);
    assert_eq!(c.text, "00ab3412");
    assert_eq!(c.style, PLAIN);
    assert_eq!(c.align, Align::Left);
    let c = value_cell(&[0x12, 0x34, 0xab, 0x00], Endian::Big, true);
    assert_eq!(c.text, "1234ab00");
    assert_eq!(c.style, fg(Color::Green));
    assert_eq!(value_cell(&[7], Endian::Little, true).text, "07");
    assert_eq!(value_cell(&[7], Endian::Little, true).style, fg(Color::Blue));
    assert_eq!(value_cell(&[], Endian::Big, true).text, "");
}

#[test]
fn payload_pane_in_bytes() {
    let data: Vec<u8> = b"ABCDEFGHIJ\x00".to_vec();
    let app = App::new(vec![record(0, 1, 1, 0, data)]);
    let pane = render_data(&app);
    assert_eq!(pane.title, "Entry data");
    assert_eq!(pane.header, ["OFFSET", "00", "01", "02", "03", "04", "05", "06", "07"]);
    assert_eq!(pane.widths, [8, 2, 2, 2, 2, 2, 2, 2, 2, 8]);
    assert_eq!(pane.rows.len(), 2);
    assert_eq!(
        texts(&pane.rows[0]),
        ["000000", "41", "42", "43", "44", "45", "46", "47", "48", "ABCDEFGH"]
    );
    assert_eq!(texts(&pane.rows[1]), ["000008", "49", "4a", "00", "", "", "", "", "", "IJ."]);
    assert_eq!(pane.rows[0][0].style, DIM);
    assert_eq!(pane.rows[0][1].style, PLAIN);
    assert!(pane.rows.iter().flatten().all(|c| c.align == Align::Left));
}

#[test]
fn payload_pane_in_groups() {
    let data: Vec<u8> = (1..=21).collect();
    let mut app = App::new(vec![record(0, 1, 1, 0, data)]);
    app.set_viewport(20, 100);
    app.set_grouping(DataGrouping::DoubleWord);
    app.toggle_colors();
    let pane = render_data(&app);
    assert_eq!(pane.header, ["OFFSET", "00", "04", "08", "0c"]);
    assert_eq!(pane.widths, [8, 8, 8, 8, 8, 16]);
    assert_eq!(pane.rows.len(), 2);
    assert_eq!(
        texts(&pane.rows[0])[..5],
        ["000000", "04030201", "08070605", "0c0b0a09", "100f0e0d"]
    );
    assert_eq!(pane.rows[0][5].text, "................");
    assert_eq!(texts(&pane.rows[1]), ["000010", "14131211", "15", "", "", "", "....."]);
    assert_eq!(pane.rows[0][1].style, fg(Color::Green));
    assert_eq!(pane.rows[1][2].style, fg(Color::Green));
    assert_eq!(pane.rows[1][3].style, PLAIN);
    app.flip_endian();
    let pane = render_data(&app);
    assert_eq!(texts(&pane.rows[1]), ["000010", "11121314", "15", "", "", "", "....."]);
}

#[test]
fn payload_pane_titles() {
    let app = App::new(vec![header_item(), Entry { offset: 16, entry: Item::Padding, data: vec![] }]);
    assert_eq!(render_data(&app).title, "Raw header");
    assert_eq!(render_data(&app).rows.len(), 2);
    let mut app = app;
    app.set_item_scroll(1);
    let pane = render_data(&app);
    assert_eq!(pane.title, "Padding data");
    assert!(pane.rows.is_empty());
    assert_eq!(pane.header.len(), 9);
}

#[test]
fn help_line_names_the_options() {
    let mut app = App::new(vec![header_item()]);
    assert_eq!(help_line(&app), " [1]-byte groups, [c]olor off, little-[e]ndian");
    app.set_grouping(DataGrouping::QuadWord);
    app.toggle_colors();
    app.flip_endian();
    assert_eq!(help_line(&app), " [8]-byte groups, [c]olor on, big-[e]ndian");
}

#[test]
fn header_pane_shows_the_fields() {
    let h = ApobHeader { sig: *b"APOB", version: 0x18, size: 0x2000, offset: 0x40 };
    let SpecializedPane::Header { title, lines } = render_header(&h) else {
        panic!("not a header pane");
    };
    assert_eq!(title, "APOB Header");
    assert_eq!(
        lines,
        ["signature: 'APOB'", "version:    0x18", "size:       0x2000", "offset:     0x40"]
    );
}

#[test]
fn signature_that_is_not_printable_shows_as_bytes() {
    assert_eq!(sig_label(b"APOB"), "'APOB'");
    assert_eq!(sig_label(b" ~az"), "' ~az'");
    assert_eq!(sig_label(&[65, 0, 255, 7]), "([65, 0, 255, 7])");
    assert_eq!(sig_label(&[0x7f, 80, 79, 66]), "([127, 80, 79, 66])");
    assert_eq!(sig_label(&[65, 80, 79, 0x1f]), format!("({:?})", [65u8, 80, 79, 0x1f]));
}

#[test]
fn mem_map_pane_lists_the_holes() {
    let map = ApobSysMemMap { high_phys: 0x4_5000_0000, hole_count: 2, padding: 0 };
    let holes = vec![
        ApobSysMemMapHole { base: 0xA0000, size: 0x20000, ty: 1, padding: 0 },
        ApobSysMemMapHole { base: 0xFD_0000_0000, size: 0x3_0000_0000, ty: 0x12, padding: 0 },
    ];
    let SpecializedPane::MemMap { title, high_phys, holes } = render_mem_map(&map, &holes) else {
        panic!("not a memory map pane");
    };
    assert_eq!(title, "APOB memory map");
    assert_eq!(high_phys, "high_phys: 0x450000000");
    assert_eq!(holes.title, "HOLES");
    assert_eq!(holes.header, ["BASE", "SIZE", "TYPE"]);
    assert_eq!(holes.widths, [14, 12, 8]);
    assert_eq!(holes.rows.len(), 2);
    assert_eq!(texts(&holes.rows[0]), ["0x00000a0000", "0x00020000", "0x01"]);
    assert_eq!(texts(&holes.rows[1]), ["0xfd00000000", "0x300000000", "0x12"]);
}

#[test]
fn event_log_pane_takes_training_errors_apart() {
    let bytes = event_log_bytes(
        3,
        &[
            (7, 0x4001, 0x0B02_1234, 3),
            (0x33, 0x44, 0x5_5555, 0x66),
            (6, 0x4001, 0, 0),
            (9, 9, 9, 9),
        ],
    );
    let log = MilanApobEventLog::decode(&bytes).unwrap();
    let t = table(render_event_log(&log));
    assert_eq!(t.title, "APOB event log");
    assert_eq!(t.header, ["INDEX", " CLASS", "EVENT", "DATA", ""]);
    assert_eq!(t.widths, [5, 14, 20, 9, 4]);
    let rows: Vec<Vec<String>> = t.rows.iter().map(|r| texts(r)).collect();
    assert_eq!(
        rows,
        vec![
            vec!["00", " ERROR (0x7)", "TRAIN_ERROR (0x4001)", "0xb021234", "0x3"],
            vec!["", "", "  sock: 52  chan: 18", "", ""],
            vec!["", "", "  dimm: 2  rank: 11", "", ""],
            vec!["", "", "  PMU load error", "", ""],
            vec!["", "", "  PMU train error", "", ""],
            vec!["01", " 0x33", "0x44", "0x55555", "0x66"],
            vec!["02", " WARN  (0x6)", "TRAIN_ERROR (0x4001)", "0x0", "0x0"],
            vec!["", "", "  sock: 0  chan: 0", "", ""],
            vec!["", "", "  dimm: 0  rank: 0", "", ""],
        ]
    );
    assert_eq!(t.rows[0][0].align, Align::Right);
    assert_eq!(t.rows[0][1].style, fg(Color::Magenta));
    assert_eq!(t.rows[5][1].style, PLAIN);
    assert_eq!(t.rows[6][1].style, fg(Color::Blue));
    let empty = table(render_event_log(&MilanApobEventLog::decode(&event_log_bytes(0, &[])).unwrap()));
    assert!(empty.rows.is_empty());
    assert_eq!(empty.widths, [5, 14, 20, 0, 0]);
}

#[test]
fn training_failure_pane() {
    let bits = 1 | (5 << 1) | (1 << 4) | (3 << 5) | (0x1234 << 15);
    let bytes = pmu_bytes(2, &[(bits, 0xE1, [0xA, 0, 0xFFFF_FFFF, 1]), (0, 0x12345, [0, 0x100, 0, 0])]);
    let log = PmuTfi::decode(&bytes).unwrap();
    let t = table(render_pmu(&log));
    assert_eq!(t.title, "PMU training failure log");
    assert_eq!(
        t.header,
        ["INDEX", "SOCK", "UMC", "1D2D", "1DNUM", "STAGE", "ERROR", "DATA", "", "", ""]
    );
    assert_eq!(t.widths, [5, 4, 3, 4, 5, 5, 7, 3, 5, 10, 3]);
    assert_eq!(
        texts(&t.rows[0]),
        ["00", "1", "5", "1", "3", "4660", "0xe1", "0xa", "0x0", "0xffffffff", "0x1"]
    );
    assert_eq!(
        texts(&t.rows[1]),
        ["01", "0", "0", "0", "0", "0", "0x12345", "0x0", "0x100", "0x0", "0x0"]
    );
    for i in 0..6 {
        assert_eq!(t.rows[0][i].align, Align::Right);
    }
    for i in 6..11 {
        assert_eq!(t.rows[0][i].align, Align::Left);
    }
}

#[test]
fn pane_follows_the_selected_item() {
    let items = vec![
        header_item(),
        Entry { offset: 16, entry: Item::Padding, data: vec![0; 48] },
        record(64, 7, 6, 0, event_log_bytes(1, &[(5, 1, 2, 3)])),
        record(2000, 1, 22, 0, vec![0; 10]),
        record(3000, 1, 22, 0, pmu_bytes(41, &[])),
        record(4000, 9, 9, 0, vec![0; 16]),
        record(5000, 3, 9, 0, vec![0; 16]),
        record(6000, 7, 6, 0, event_log_bytes(65, &[])),
    ];
    let mut app = App::new(items);
    assert!(matches!(render_specialized(&app), Some(SpecializedPane::Header { .. })));
    app.next_item_row(1);
    assert!(render_specialized(&app).is_none());
    app.next_item_row(1);
    assert!(matches!(render_specialized(&app), Some(SpecializedPane::EventLog(_))));
    assert_eq!(table(render_specialized(&app).unwrap()).rows.len(), 1);
    app.next_item_row(1);
    assert!(render_specialized(&app).is_none());
    assert_eq!(render_data(&app).rows.len(), 2);
    app.next_item_row(1);
    assert!(render_specialized(&app).is_none());
    app.next_item_row(1);
    assert!(matches!(render_specialized(&app), Some(SpecializedPane::MemMap { .. })));
    app.next_item_row(1);
    assert!(render_specialized(&app).is_none());
    app.next_item_row(1);
    assert!(render_specialized(&app).is_none());
    assert!(render_item(&app.items()[0]).is_some());
}
