//! What the browser shows: the list of items, the payload of the selected
//! item in rows of values, and the line that explains the display options.
//! Everything here is computed from the state and changes nothing.

use crate::browser::App;
use crate::cell::{
    cells_view, colored, data_style, dimmed, group_color, left, lemma_cells_push, lemma_rows_push,
    lines_view, plain, right, rows_view, spec_data_style, spec_group_color, Cell, CellModel,
    CellStyle, Color,
};
use crate::classify::{spec_specialized, specialized};
use crate::container::{Entry, Item};
use crate::dump::{
    ascii_cells, chunk, declared_payload, group_label, group_text, payload_size, push_ascii_cells,
    row_bytes,
};
use crate::model::{page_count, rows_for, AppModel, Endian};
use crate::record::{spec_cancelled, spec_group_of, ApobEntry};
use crate::text::{
    dec, dec_digits, hex, hex_digits, hex_fixed, hex_padded, hex_prefixed_fixed,
    hex_with_prefix_padded,
};
use vstd::prelude::*;
use vstd::string::StringExecFns;

verus! {

/// A table as it is handed to the drawing surface.
#[derive(Clone, Debug)]
pub struct TablePane {
    pub title: String,
    pub header: Vec<String>,
    pub widths: Vec<usize>,
    pub rows: Vec<Vec<Cell>>,
}

/// A table as a value of the model.
pub struct PaneModel {
    pub title: Seq<char>,
    pub header: Seq<Seq<char>>,
    pub widths: Seq<usize>,
    pub rows: Seq<Seq<CellModel>>,
}

impl View for TablePane {
    type V = PaneModel;

    open spec fn view(&self) -> PaneModel {
        PaneModel {
            title: self.title@,
            header: lines_view(self.header@),
            widths: self.widths@,
            rows: rows_view(self.rows@),
        }
    }
}

/// The mark behind the group of a record: a star where the record is
/// cancelled, else a plus where its payload has a known layout.
pub open spec fn group_mark(entry: ApobEntry) -> Seq<char> {
    if spec_cancelled(entry.group) {
        "*"@
    } else if spec_specialized(Item::Entry(entry)) is Some {
        "+"@
    } else {
        ""@
    }
}

/// The style of the group of a record: dimmed where the record is
/// cancelled, else in the colour of its group, if it has one.
pub open spec fn group_style(entry: ApobEntry) -> CellStyle {
    if spec_cancelled(entry.group) {
        dimmed()
    } else {
        match spec_group_of(entry.group) {
            Some(g) => colored(spec_group_color(g)),
            None => plain(),
        }
    }
}

/// The row of the item list for one item: its offset, what it is, and for a
/// record its type, instance and payload size, all numbers in hexadecimal.
pub open spec fn table_row(item: Entry) -> Seq<CellModel> {
    match item.entry {
        Item::Entry(entry) => seq![
            right(hex_fixed(item.offset as nat, 5), plain()),
            left(group_text(entry.group) + group_mark(entry), group_style(entry)),
            right(hex_prefixed_fixed((entry.ty & 0xFFFF) as nat, 2), plain()),
            right(hex_digits(entry.inst as nat), plain()),
            right(hex_digits(declared_payload(entry)), plain()),
        ],
        Item::Header(_) => seq![
            right(hex_fixed(item.offset as nat, 5), plain()),
            left("HEADER+"@, colored(Color::Yellow)),
            right("--"@, plain()),
            right("--"@, plain()),
            right("--"@, plain()),
        ],
        Item::Padding => seq![
            right(hex_fixed(item.offset as nat, 5), plain()),
            left("PADDING"@, colored(Color::LightRed)),
            right("--"@, plain()),
            right("--"@, plain()),
            right(hex_digits(item.data@.len()), plain()),
        ],
    }
}

/// The item list: one row for each item, in file order.
pub open spec fn table_pane(items: Seq<Entry>) -> PaneModel {
    PaneModel {
        title: "APOB entries"@,
        header: seq!["OFFSET"@, "GROUP"@, "TYPE"@, "INSTANCE"@, "DATA SIZE"@],
        widths: seq![6usize, 8usize, 4usize, 8usize, 9usize],
        rows: Seq::new(items.len(), |i: int| table_row(items[i])),
    }
}

/// The row of the item list for one item.
pub fn render_table_row(item: &Entry) -> (r: Vec<Cell>)
    ensures
        cells_view(r@) == table_row(*item),
{
    let mut cells: Vec<Cell> = Vec::new();
    cells.push(Cell::from_text_right(hex_padded(item.offset as u64, 5)));
    match item.entry {
        Item::Entry(entry) => {
            let cancelled = entry.cancelled();
            let style = if cancelled {
                CellStyle::dim()
            } else {
                match entry.group() {
                    Some(g) => CellStyle::fg(group_color(g)),
                    None => CellStyle::new(),
                }
            };
            let mut text = group_label(&entry);
            text.append(
                if cancelled {
                    "*"
                } else if specialized(item.entry).is_some() {
                    "+"
                } else {
                    ""
                },
            );
            cells.push(Cell::from_text(text).styled(style));
            cells.push(Cell::from_text_right(hex_with_prefix_padded(entry.listed_type() as u64, 2)));
            cells.push(Cell::from_text_right(hex(entry.inst as u64)));
            cells.push(Cell::from_text_right(hex(payload_size(&entry) as u64)));
        },
        Item::Header(_) => {
            cells.push(Cell::from_literal("HEADER+").styled(CellStyle::fg(Color::Yellow)));
            cells.push(Cell::from_literal_right("--"));
            cells.push(Cell::from_literal_right("--"));
            cells.push(Cell::from_literal_right("--"));
        },
        Item::Padding => {
            cells.push(Cell::from_literal("PADDING").styled(CellStyle::fg(Color::LightRed)));
            cells.push(Cell::from_literal_right("--"));
            cells.push(Cell::from_literal_right("--"));
            cells.push(Cell::from_text_right(hex(item.data.len() as u64)));
        },
    }
    proof {
        assert(cells_view(cells@) =~= table_row(*item));
    }
    cells
}

/// The five strings as a vector.
fn strings5(a: &str, b: &str, c: &str, d: &str, e: &str) -> (r: Vec<String>)
    ensures
        lines_view(r@) == seq![a@, b@, c@, d@, e@],
{
    let mut out: Vec<String> = Vec::new();
    out.push(String::from_str(a));
    out.push(String::from_str(b));
    out.push(String::from_str(c));
    out.push(String::from_str(d));
    out.push(String::from_str(e));
    proof {
        assert(lines_view(out@) =~= seq![a@, b@, c@, d@, e@]);
    }
    out
}

/// The item list of the browser.
pub fn render_table(app: &App) -> (r: TablePane)
    ensures
        r@ == table_pane(app@.items),
{
    let items = app.items();
    let mut rows: Vec<Vec<Cell>> = Vec::new();
    let mut i: usize = 0;
    proof {
        assert(rows_view(rows@) =~= Seq::new(0, |k: int| table_row(items@[k])));
    }
    while i < items.len()
        invariant
            i <= items.len(),
            rows_view(rows@) == Seq::new(i as nat, |k: int| table_row(items@[k])),
        decreases items.len() - i,
    {
        let row = render_table_row(&items[i]);
        proof {
            lemma_rows_push(rows@, row);
        }
        rows.push(row);
        i = i + 1;
        proof {
            assert(rows_view(rows@) =~= Seq::new(i as nat, |k: int| table_row(items@[k])));
        }
    }
    let mut widths: Vec<usize> = Vec::new();
    widths.push(6);
    widths.push(8);
    widths.push(4);
    widths.push(8);
    widths.push(9);
    let pane = TablePane {
        title: String::from_str("APOB entries"),
        header: strings5("OFFSET", "GROUP", "TYPE", "INSTANCE", "DATA SIZE"),
        widths,
        rows,
    };
    proof {
        assert(pane@.widths =~= table_pane(app@.items).widths);
        assert(pane@.rows =~= table_pane(app@.items).rows);
    }
    pane
}

/// Each byte of `d` as two hexadecimal digits, one after the other.
pub open spec fn hex_join(d: Seq<u8>) -> Seq<char>
    decreases d.len(),
{
    if d.len() == 0 {
        Seq::empty()
    } else {
        hex_join(d.drop_last()) + hex_fixed(d.last() as nat, 2)
    }
}

/// The bytes of one value as text: read as a little-endian number, the last
/// byte comes first; read as a big-endian one, the bytes stay in order.
pub open spec fn value_text(d: Seq<u8>, endian: Endian) -> Seq<char> {
    match endian {
        Endian::Little => hex_join(d.reverse()),
        Endian::Big => hex_join(d),
    }
}

/// The style of one value: by its bytes where colours are on.
pub open spec fn value_style(d: Seq<u8>, colors: bool) -> CellStyle {
    if colors {
        spec_data_style(d)
    } else {
        plain()
    }
}

/// The number of values that `len` bytes make at `bytes` bytes to a value,
/// a last shorter one counted.
pub open spec fn value_count(len: int, bytes: int) -> int {
    page_count(len, bytes)
}

/// The number of empty cells behind the values of a row of `len` bytes: one
/// for each whole value that a full row has more.
pub open spec fn filler_count(len: int, width: int, bytes: int) -> int {
    width / bytes - len / bytes
}

/// One row of the payload pane: the offset of its first byte, its values,
/// empty cells up to the width of a full row, and its bytes as characters.
pub open spec fn data_row(d: Seq<u8>, row: int, m: AppModel) -> Seq<CellModel> {
    let bytes = m.grouping.spec_bytes();
    seq![left(hex_fixed((row * m.width) as nat, 6), dimmed())] + Seq::new(
        value_count(d.len() as int, bytes) as nat,
        |k: int| left(value_text(chunk(d, k, bytes), m.endian), value_style(chunk(d, k, bytes), m.colors)),
    ) + Seq::new(
        if filler_count(d.len() as int, m.width, bytes) > 0 {
            filler_count(d.len() as int, m.width, bytes) as nat
        } else {
            0
        },
        |k: int| left(Seq::empty(), plain()),
    ) + seq![left(ascii_cells(d), plain())]
}

/// The title of the payload pane for an item.
pub open spec fn data_title(item: Entry) -> Seq<char> {
    match item.entry {
        Item::Header(_) => "Raw header"@,
        Item::Padding => "Padding data"@,
        Item::Entry(_) => "Entry data"@,
    }
}

/// The number of value columns in the payload pane.
pub open spec fn data_columns(m: AppModel) -> int {
    m.width / m.grouping.spec_bytes()
}

/// The payload pane: the payload of the selected item in rows of `width`
/// bytes, under a header that numbers the value columns.
pub open spec fn data_pane(m: AppModel) -> PaneModel {
    let bytes = m.grouping.spec_bytes();
    let data = m.items[m.selected].data@;
    PaneModel {
        title: data_title(m.items[m.selected]),
        header: seq!["OFFSET"@] + Seq::new(
            data_columns(m) as nat,
            |i: int| hex_fixed((i * bytes) as nat, 2),
        ),
        widths: seq![8usize] + Seq::new(data_columns(m) as nat, |i: int| (bytes * 2) as usize)
            + seq![m.width as usize],
        rows: Seq::new(
            page_count(data.len() as int, m.width) as nat,
            |row: int| data_row(chunk(data, row, m.width), row, m),
        ),
    }
}

/// Appends each byte of `d` as two hexadecimal digits.
fn push_hex_join(out: &mut String, d: &[u8], backwards: bool)
    ensures
        final(out)@ == old(out)@ + hex_join(
            if backwards {
                d@.reverse()
            } else {
                d@
            },
        ),
{
    let n = d.len();
    let ghost order = if backwards {
        d@.reverse()
    } else {
        d@
    };
    let mut i: usize = 0;
    proof {
        assert(order.subrange(0, 0) =~= Seq::<u8>::empty());
        assert(out@ =~= old(out)@ + hex_join(order.subrange(0, 0)));
    }
    while i < n
        invariant
            i <= n,
            n == d.len(),
            order.len() == n,
            order == if backwards {
                d@.reverse()
            } else {
                d@
            },
            out@ == old(out)@ + hex_join(order.subrange(0, i as int)),
        decreases n - i,
    {
        let b = if backwards {
            d[n - 1 - i]
        } else {
            d[i]
        };
        proof {
            let upto = order.subrange(0, i + 1);
            assert(upto.drop_last() =~= order.subrange(0, i as int));
            assert(upto.last() == b);
        }
        out.append(hex_padded(b as u64, 2).as_str());
        i = i + 1;
        proof {
            assert(out@ =~= old(out)@ + hex_join(order.subrange(0, i as int)));
        }
    }
    proof {
        assert(order.subrange(0, n as int) =~= order);
    }
}

/// The cell for one value of the payload.
pub fn value_cell(d: &[u8], endian: Endian, colors: bool) -> (r: Cell)
    ensures
        r@ == left(value_text(d@, endian), value_style(d@, colors)),
{
    let mut text = String::new();
    match endian {
        Endian::Little => push_hex_join(&mut text, d, true),
        Endian::Big => push_hex_join(&mut text, d, false),
    }
    proof {
        assert(text@ =~= value_text(d@, endian));
    }
    let style = if colors {
        data_style(d)
    } else {
        CellStyle::new()
    };
    Cell::from_text(text).styled(style)
}

/// One row of the payload pane, for the bytes `d` of row `row`.
pub fn render_data_row(app: &App, d: &[u8], row: usize) -> (r: Vec<Cell>)
    requires
        app@.wf(),
        0 < d.len() <= app@.width,
        row * app@.width <= usize::MAX,
    ensures
        cells_view(r@) == data_row(d@, row as int, app@),
{
    let bytes = app.grouping().bytes();
    let width = app.data_width();
    let endian = app.endian();
    let colors = app.colors();
    let ghost m = app@;
    let mut cells: Vec<Cell> = Vec::new();
    cells.push(Cell::from_text(hex_padded((row * width) as u64, 6)).styled(CellStyle::dim()));
    let ghost head = cells_view(cells@);
    let values = rows_for(d.len(), bytes);
    let mut k: usize = 0;
    proof {
        assert(head =~= seq![left(hex_fixed((row * m.width) as nat, 6), dimmed())]);
        assert(cells_view(cells@) =~= head + Seq::new(
            0,
            |j: int|
                left(
                    value_text(chunk(d@, j, bytes as int), m.endian),
                    value_style(chunk(d@, j, bytes as int), m.colors),
                ),
        ));
    }
    while k < values
        invariant
            k <= values,
            bytes > 0,
            values == page_count(d.len() as int, bytes as int),
            endian == m.endian,
            colors == m.colors,
            cells_view(cells@) == head + Seq::new(
                k as nat,
                |j: int|
                    left(
                        value_text(chunk(d@, j, bytes as int), m.endian),
                        value_style(chunk(d@, j, bytes as int), m.colors),
                    ),
            ),
        decreases values - k,
    {
        let c = row_bytes(d, k, bytes);
        let cell = value_cell(c, endian, colors);
        proof {
            lemma_cells_push(cells@, cell);
        }
        cells.push(cell);
        k = k + 1;
        proof {
            assert(cells_view(cells@) =~= head + Seq::new(
                k as nat,
                |j: int|
                    left(
                        value_text(chunk(d@, j, bytes as int), m.endian),
                        value_style(chunk(d@, j, bytes as int), m.colors),
                    ),
            ));
        }
    }
    let ghost valued = cells_view(cells@);
    let full = width / bytes;
    let have = d.len() / bytes;
    let fillers = if full > have {
        full - have
    } else {
        0
    };
    let mut f: usize = 0;
    proof {
        assert(cells_view(cells@) =~= valued + Seq::new(0, |j: int| left(Seq::empty(), plain())));
    }
    while f < fillers
        invariant
            f <= fillers,
            cells_view(cells@) == valued + Seq::new(f as nat, |j: int| left(Seq::empty(), plain())),
        decreases fillers - f,
    {
        let cell = Cell::from_text(String::new());
        proof {
            lemma_cells_push(cells@, cell);
        }
        cells.push(cell);
        f = f + 1;
        proof {
            assert(cells_view(cells@) =~= valued + Seq::new(
                f as nat,
                |j: int| left(Seq::empty(), plain()),
            ));
        }
    }
    let mut text = String::new();
    push_ascii_cells(&mut text, d);
    let last = Cell::from_text(text);
    proof {
        assert(text@ =~= ascii_cells(d@));
        lemma_cells_push(cells@, last);
    }
    cells.push(last);
    proof {
        assert(cells_view(cells@) =~= data_row(d@, row as int, m));
    }
    cells
}

/// The payload pane of the browser.
pub fn render_data(app: &App) -> (r: TablePane)
    requires
        app@.wf(),
    ensures
        r@ == data_pane(app@),
{
    let bytes = app.grouping().bytes();
    let width = app.data_width();
    let ghost m = app@;
    let item = &app.items()[app.selected()];
    let data = item.data.as_slice();
    let columns = width / bytes;
    let mut header: Vec<String> = Vec::new();
    header.push(String::from_str("OFFSET"));
    let mut widths: Vec<usize> = Vec::new();
    widths.push(8);
    let mut i: usize = 0;
    proof {
        assert(lines_view(header@) =~= seq!["OFFSET"@] + Seq::new(
            0,
            |j: int| hex_fixed((j * bytes) as nat, 2),
        ));
        assert(widths@ =~= seq![8usize] + Seq::new(0, |j: int| (bytes * 2) as usize));
    }
    while i < columns
        invariant
            i <= columns,
            0 < bytes <= 8,
            columns == width / bytes,
            lines_view(header@) == seq!["OFFSET"@] + Seq::new(
                i as nat,
                |j: int| hex_fixed((j * bytes) as nat, 2),
            ),
            widths@ == seq![8usize] + Seq::new(i as nat, |j: int| (bytes * 2) as usize),
        decreases columns - i,
    {
        assert(i * bytes <= width) by (nonlinear_arith)
            requires
                i < width / bytes,
                bytes > 0,
        ;
        let title = hex_padded((i * bytes) as u64, 2);
        proof {
            crate::cell::lemma_lines_push(header@, title);
        }
        header.push(title);
        widths.push(bytes * 2);
        i = i + 1;
        proof {
            assert(lines_view(header@) =~= seq!["OFFSET"@] + Seq::new(
                i as nat,
                |j: int| hex_fixed((j * bytes) as nat, 2),
            ));
            assert(widths@ =~= seq![8usize] + Seq::new(i as nat, |j: int| (bytes * 2) as usize));
        }
    }
    widths.push(width);
    let count = rows_for(data.len(), width);
    let mut rows: Vec<Vec<Cell>> = Vec::new();
    let mut row: usize = 0;
    proof {
        assert(rows_view(rows@) =~= Seq::new(
            0,
            |j: int| data_row(chunk(data@, j, m.width), j, m),
        ));
    }
    while row < count
        invariant
            row <= count,
            app@ == m,
            m.wf(),
            width == m.width,
            count == page_count(data.len() as int, width as int),
            rows_view(rows@) == Seq::new(
                row as nat,
                |j: int| data_row(chunk(data@, j, m.width), j, m),
            ),
        decreases count - row,
    {
        let d = row_bytes(data, row, width);
        let cells = render_data_row(app, d, row);
        proof {
            lemma_rows_push(rows@, cells);
        }
        rows.push(cells);
        row = row + 1;
        proof {
            assert(rows_view(rows@) =~= Seq::new(
                row as nat,
                |j: int| data_row(chunk(data@, j, m.width), j, m),
            ));
        }
    }
    let title = match item.entry {
        Item::Header(_) => "Raw header",
        Item::Padding => "Padding data",
        Item::Entry(_) => "Entry data",
    };
    let pane = TablePane { title: String::from_str(title), header, widths, rows };
    proof {
        assert(pane@.widths =~= data_pane(m).widths);
        assert(pane@.header =~= data_pane(m).header);
        assert(pane@.rows =~= data_pane(m).rows);
    }
    pane
}

/// The line that explains the display options.
pub open spec fn help_text(m: AppModel) -> Seq<char> {
    " ["@ + dec_digits(m.grouping.spec_bytes() as nat) + "]-byte groups, [c]olor "@ + (if m.colors {
        "on"@
    } else {
        "off"@
    }) + ", "@ + (match m.endian {
        Endian::Big => "big"@,
        Endian::Little => "little"@,
    }) + "-[e]ndian"@
}

/// The line that explains the display options.
pub fn help_line(app: &App) -> (r: String)
    ensures
        r@ == help_text(app@),
{
    let mut out = String::from_str(" [");
    out.append(dec(app.grouping().bytes() as u64).as_str());
    out.append("]-byte groups, [c]olor ");
    out.append(
        if app.colors() {
            "on"
        } else {
            "off"
        },
    );
    out.append(", ");
    out.append(
        match app.endian() {
            Endian::Big => "big",
            Endian::Little => "little",
        },
    );
    out.append("-[e]ndian");
    out
}

} // verus!
