//! Cells and rows as they are handed to the drawing surface, and the colours
//! that values are shown in.

use crate::payload::MilanApobEventClass;
use crate::record::ApobGroup;
use vstd::prelude::*;
use vstd::string::StringExecFns;

verus! {

/// The colours that the browser uses.
#[derive(Copy, Clone, Debug, PartialEq, Eq, Structural)]
pub enum Color {
    Blue,
    LightBlue,
    Red,
    LightGreen,
    LightRed,
    LightCyan,
    Magenta,
    Green,
    Cyan,
    LightMagenta,
    Yellow,
}

/// How the text of a cell is drawn: in a colour or in the default one, and
/// dimmed or not.
#[derive(Copy, Clone, Debug, PartialEq, Eq, Structural)]
pub struct CellStyle {
    pub fg: Option<Color>,
    pub dim: bool,
}

/// The side of its column that the text of a cell is set against.
#[derive(Copy, Clone, Debug, PartialEq, Eq, Structural)]
pub enum Align {
    Left,
    Right,
}

/// One cell of a table.
#[derive(Clone, Debug)]
pub struct Cell {
    pub text: String,
    pub style: CellStyle,
    pub align: Align,
}

/// A cell as a value of the model.
pub struct CellModel {
    pub text: Seq<char>,
    pub style: CellStyle,
    pub align: Align,
}

impl View for Cell {
    type V = CellModel;

    open spec fn view(&self) -> CellModel {
        CellModel { text: self.text@, style: self.style, align: self.align }
    }
}

/// The default style.
pub open spec fn plain() -> CellStyle {
    CellStyle { fg: None, dim: false }
}

/// The dimmed style.
pub open spec fn dimmed() -> CellStyle {
    CellStyle { fg: None, dim: true }
}

/// The style that draws in `color`.
pub open spec fn colored(color: Color) -> CellStyle {
    CellStyle { fg: Some(color), dim: false }
}

/// A cell with `text` set to the left, in `style`.
pub open spec fn left(text: Seq<char>, style: CellStyle) -> CellModel {
    CellModel { text, style, align: Align::Left }
}

/// A cell with `text` set to the right, in `style`.
pub open spec fn right(text: Seq<char>, style: CellStyle) -> CellModel {
    CellModel { text, style, align: Align::Right }
}

/// The cells as values of the model, in order.
pub open spec fn cells_view(cells: Seq<Cell>) -> Seq<CellModel> {
    Seq::new(cells.len(), |i: int| cells[i]@)
}

/// The rows as values of the model, in order.
pub open spec fn rows_view(rows: Seq<Vec<Cell>>) -> Seq<Seq<CellModel>> {
    Seq::new(rows.len(), |i: int| cells_view(rows[i]@))
}

/// The strings as sequences of characters, in order.
pub open spec fn lines_view(lines: Seq<String>) -> Seq<Seq<char>> {
    Seq::new(lines.len(), |i: int| lines[i]@)
}

/// Appending a cell to a row appends its model to the row's model.
pub proof fn lemma_cells_push(cells: Seq<Cell>, c: Cell)
    ensures
        cells_view(cells.push(c)) == cells_view(cells).push(c@),
{
    assert(cells_view(cells.push(c)) =~= cells_view(cells).push(c@));
}

/// Appending a row to a table appends its model to the table's model.
pub proof fn lemma_rows_push(rows: Seq<Vec<Cell>>, r: Vec<Cell>)
    ensures
        rows_view(rows.push(r)) == rows_view(rows).push(cells_view(r@)),
{
    assert(rows_view(rows.push(r)) =~= rows_view(rows).push(cells_view(r@)));
}

/// Appending a line to a text appends its characters to the text's model.
pub proof fn lemma_lines_push(lines: Seq<String>, l: String)
    ensures
        lines_view(lines.push(l)) == lines_view(lines).push(l@),
{
    assert(lines_view(lines.push(l)) =~= lines_view(lines).push(l@));
}

impl CellStyle {
    /// The default style.
    pub fn new() -> (r: CellStyle)
        ensures
            r == plain(),
    {
        CellStyle { fg: None, dim: false }
    }

    /// The dimmed style.
    pub fn dim() -> (r: CellStyle)
        ensures
            r == dimmed(),
    {
        CellStyle { fg: None, dim: true }
    }

    /// The style that draws in `color`.
    pub fn fg(color: Color) -> (r: CellStyle)
        ensures
            r == colored(color),
    {
        CellStyle { fg: Some(color), dim: false }
    }
}

impl Cell {
    /// A cell with `text` set to the left, in the default style.
    pub fn from_text(text: String) -> (r: Cell)
        ensures
            r@ == left(text@, plain()),
    {
        Cell { text, style: CellStyle::new(), align: Align::Left }
    }

    /// A cell with `text` set to the right, in the default style.
    pub fn from_text_right(text: String) -> (r: Cell)
        ensures
            r@ == right(text@, plain()),
    {
        Cell { text, style: CellStyle::new(), align: Align::Right }
    }

    /// A cell with the literal `text` set to the left, in the default style.
    pub fn from_literal(text: &str) -> (r: Cell)
        ensures
            r@ == left(text@, plain()),
    {
        Cell { text: String::from_str(text), style: CellStyle::new(), align: Align::Left }
    }

    /// A cell with the literal `text` set to the right, in the default
    /// style.
    pub fn from_literal_right(text: &str) -> (r: Cell)
        ensures
            r@ == right(text@, plain()),
    {
        Cell { text: String::from_str(text), style: CellStyle::new(), align: Align::Right }
    }

    /// The same cell in `style`.
    pub fn styled(self, style: CellStyle) -> (r: Cell)
        ensures
            r@ == (CellModel { style, ..self@ }),
    {
        Cell { text: self.text, style, align: self.align }
    }
}

/// Every byte of `s` is `v`.
pub open spec fn all_bytes(s: Seq<u8>, v: u8) -> bool {
    forall|i: int| 0 <= i < s.len() ==> s[i] == v
}

/// The style of a value by its bytes: dimmed where all are zero, yellow
/// where all are ones; otherwise cyan where the first half is zero, blue
/// where the second half is, and green where neither is. The halves of a
/// single byte are its upper and lower four bits, the lower counting as the
/// first. A value of another length than 1, 2, 4 or 8 bytes that is neither
/// all zero nor all ones has the default style.
pub open spec fn spec_data_style(b: Seq<u8>) -> CellStyle {
    let half = (b.len() / 2) as int;
    if all_bytes(b, 0) {
        dimmed()
    } else if all_bytes(b, 0xFF) {
        colored(Color::Yellow)
    } else if b.len() == 1 {
        if b[0] as int % 16 == 0 {
            colored(Color::Cyan)
        } else if b[0] as int / 16 == 0 {
            colored(Color::Blue)
        } else {
            colored(Color::Green)
        }
    } else if b.len() == 2 || b.len() == 4 || b.len() == 8 {
        if all_bytes(b.subrange(0, half), 0) {
            colored(Color::Cyan)
        } else if all_bytes(b.subrange(half, b.len() as int), 0) {
            colored(Color::Blue)
        } else {
            colored(Color::Green)
        }
    } else {
        plain()
    }
}

/// Whether every byte from `from` up to `to` is `v`.
pub fn all_equal(b: &[u8], from: usize, to: usize, v: u8) -> (r: bool)
    requires
        from <= to <= b.len(),
    ensures
        r == all_bytes(b@.subrange(from as int, to as int), v),
{
    let mut i = from;
    while i < to
        invariant
            from <= i <= to <= b.len(),
            forall|j: int| from <= j < i ==> b@[j] == v,
        decreases to - i,
    {
        if b[i] != v {
            proof {
                assert(b@.subrange(from as int, to as int)[i - from] == b@[i as int]);
            }
            return false;
        }
        i = i + 1;
    }
    proof {
        assert forall|j: int| 0 <= j < b@.subrange(from as int, to as int).len() implies b@.subrange(
            from as int,
            to as int,
        )[j] == v by {
            assert(b@[from + j] == v);
        }
    }
    true
}

/// The style of a value by its bytes.
pub fn data_style(b: &[u8]) -> (r: CellStyle)
    ensures
        r == spec_data_style(b@),
{
    let n = b.len();
    proof {
        assert(b@.subrange(0, n as int) =~= b@);
    }
    if all_equal(b, 0, n, 0) {
        CellStyle::dim()
    } else if all_equal(b, 0, n, 0xFF) {
        CellStyle::fg(Color::Yellow)
    } else if n == 1 {
        let v = b[0];
        assert(v & 0xF == v % 16) by (bit_vector);
        assert((v & 0xF0 == 0) <==> (v / 16 == 0)) by (bit_vector);
        if v & 0xF == 0 {
            CellStyle::fg(Color::Cyan)
        } else if v & 0xF0 == 0 {
            CellStyle::fg(Color::Blue)
        } else {
            CellStyle::fg(Color::Green)
        }
    } else if n == 2 || n == 4 || n == 8 {
        if all_equal(b, 0, n / 2, 0) {
            CellStyle::fg(Color::Cyan)
        } else if all_equal(b, n / 2, n, 0) {
            CellStyle::fg(Color::Blue)
        } else {
            CellStyle::fg(Color::Green)
        }
    } else {
        CellStyle::new()
    }
}

/// The colour that a group is listed in.
pub open spec fn spec_group_color(group: ApobGroup) -> Color {
    match group {
        ApobGroup::MEMORY => Color::Blue,
        ApobGroup::DF => Color::LightBlue,
        ApobGroup::CCX => Color::Red,
        ApobGroup::NBIO => Color::LightGreen,
        ApobGroup::FCH => Color::LightRed,
        ApobGroup::PSP => Color::LightCyan,
        ApobGroup::GENERAL => Color::Magenta,
        ApobGroup::SMBIOS => Color::Green,
        ApobGroup::FABRIC => Color::Cyan,
        ApobGroup::APCB => Color::LightMagenta,
    }
}

/// The colour that a group is listed in.
pub fn group_color(group: ApobGroup) -> (r: Color)
    ensures
        r == spec_group_color(group),
{
    match group {
        ApobGroup::MEMORY => Color::Blue,
        ApobGroup::DF => Color::LightBlue,
        ApobGroup::CCX => Color::Red,
        ApobGroup::NBIO => Color::LightGreen,
        ApobGroup::FCH => Color::LightRed,
        ApobGroup::PSP => Color::LightCyan,
        ApobGroup::GENERAL => Color::Magenta,
        ApobGroup::SMBIOS => Color::Green,
        ApobGroup::FABRIC => Color::Cyan,
        ApobGroup::APCB => Color::LightMagenta,
    }
}

/// The colour that an event class is listed in.
pub open spec fn spec_class_color(class: MilanApobEventClass) -> Color {
    match class {
        MilanApobEventClass::ALERT => Color::Green,
        MilanApobEventClass::WARN => Color::Blue,
        MilanApobEventClass::ERROR => Color::Magenta,
        MilanApobEventClass::CRIT => Color::Yellow,
        MilanApobEventClass::FATAL => Color::Red,
    }
}

/// The colour that an event class is listed in.
pub fn class_color(class: MilanApobEventClass) -> (r: Color)
    ensures
        r == spec_class_color(class),
{
    match class {
        MilanApobEventClass::ALERT => Color::Green,
        MilanApobEventClass::WARN => Color::Blue,
        MilanApobEventClass::ERROR => Color::Magenta,
        MilanApobEventClass::CRIT => Color::Yellow,
        MilanApobEventClass::FATAL => Color::Red,
    }
}

/// The style of a pane's border: dimmed unless the pane has the focus.
pub fn border_style(focus: bool) -> (r: CellStyle)
    ensures
        r == if focus {
            plain()
        } else {
            dimmed()
        },
{
    if focus {
        CellStyle::new()
    } else {
        CellStyle::dim()
    }
}

} // verus!
