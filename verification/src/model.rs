//! The browser as a mathematical state machine: what the state holds, how
//! each input changes it, and what holds of every run.

use crate::container::Entry;
use vstd::arithmetic::div_mod::{lemma_div_by_multiple, lemma_div_is_ordered, lemma_div_pos_is_pos};
use vstd::arithmetic::mul::{lemma_mul_inequality, lemma_mul_nonnegative};
use vstd::prelude::*;

verus! {

/// The highest value that the scroll momentum reaches.
pub const MOMENTUM_MAX: usize = 16;

/// The width of the item list in terminal columns. The list takes the
/// columns from 0 up to this width; the columns from this width on belong to
/// the payload pane.
pub const ITEM_PANE_WIDTH: u16 = 45;

/// Rows of the item list's area that hold no item: its borders and header.
pub const ITEM_PANE_FRAME_ROWS: u16 = 3;

/// Columns of the payload's area that hold no payload: its borders and the
/// scroll bar.
pub const PANE_FRAME_COLUMNS: u16 = 3;

/// The narrowest payload area, borders taken off, that still shows 16 bytes
/// in a row: the offset column, a gap, 16 cells of two digits with their
/// gaps, and 16 characters.
pub const WIDE_ROW_THRESHOLD: u16 = 73;

/// How many bytes are shown as one value in the payload pane.
#[derive(Copy, Clone, Debug, PartialEq, Eq, Structural)]
pub enum DataGrouping {
    Byte,
    Word,
    DoubleWord,
    QuadWord,
}

impl DataGrouping {
    /// The number of bytes in one group.
    pub open spec fn spec_bytes(self) -> int {
        match self {
            DataGrouping::Byte => 1,
            DataGrouping::Word => 2,
            DataGrouping::DoubleWord => 4,
            DataGrouping::QuadWord => 8,
        }
    }

    /// The number of bytes in one group.
    pub fn bytes(&self) -> (r: usize)
        ensures
            r == self.spec_bytes(),
    {
        match self {
            DataGrouping::Byte => 1,
            DataGrouping::Word => 2,
            DataGrouping::DoubleWord => 4,
            DataGrouping::QuadWord => 8,
        }
    }
}

/// The order in which the bytes of one group are shown.
#[derive(Copy, Clone, Debug, PartialEq, Eq, Structural)]
pub enum Endian {
    Little,
    Big,
}

/// A key of the keyboard, as far as the browser tells keys apart.
#[derive(Copy, Clone, Debug, PartialEq, Eq, Structural)]
pub enum Key {
    Char(char),
    Esc,
    Down,
    Up,
    Left,
    Right,
    PageDown,
    PageUp,
    Other,
}

/// One input to the browser.
#[derive(Copy, Clone, Debug, PartialEq, Eq, Structural)]
pub enum Event {
    /// A key was pressed.
    Key(Key),
    /// The left button went down at `column` and `row` of the terminal,
    /// while the item list showed the item `list_offset` in its first row.
    Click { column: u16, row: u16, list_offset: usize },
    /// The wheel turned down with the pointer at `column`.
    ScrollDown { column: u16 },
    /// The wheel turned up with the pointer at `column`.
    ScrollUp { column: u16 },
    /// Any other pointer event at `column`.
    Pointer { column: u16 },
    /// An input that the browser does not act on.
    Other,
    /// The input could not be read.
    Failed,
}

/// What the event loop does after an input.
#[derive(Copy, Clone, Debug, PartialEq, Eq, Structural)]
pub enum Action {
    Continue,
    Quit,
}

/// The number of rows that `len` bytes take at `width` bytes in a row.
pub open spec fn page_count(len: int, width: int) -> int {
    (len + width - 1) / width
}

/// The last row that can be scrolled to: the last of the rows, or row 0
/// where there is none.
pub open spec fn max_row(len: int, width: int) -> int {
    if len <= 0 {
        0
    } else {
        (len - 1) / width
    }
}

/// The number of rows that `len` bytes take at `width` bytes in a row.
pub fn rows_for(len: usize, width: usize) -> (r: usize)
    requires
        width > 0,
    ensures
        r == page_count(len as int, width as int),
{
    if len == 0 {
        assert((width - 1) / (width as int) == 0) by (nonlinear_arith)
            requires
                width > 0,
        ;
        0
    } else {
        assert((len - 1) / (width as int) + 1 == (len + width - 1) / (width as int))
            by (nonlinear_arith)
            requires
                width > 0,
                len >= 1,
        ;
        (len - 1) / width + 1
    }
}

/// The last row that `len` bytes have at `width` bytes in a row, or 0 where
/// there is no row.
pub fn last_row_for(len: usize, width: usize) -> (r: usize)
    requires
        width > 0,
    ensures
        r == max_row(len as int, width as int),
{
    if len == 0 {
        0
    } else {
        (len - 1) / width
    }
}

/// The number of payload bytes in a row for a payload area that is
/// `area_width` columns wide, borders included: 16 where they fit, else 8.
pub open spec fn spec_row_width(area_width: int) -> int {
    if area_width - PANE_FRAME_COLUMNS >= WIDE_ROW_THRESHOLD {
        16
    } else {
        8
    }
}

/// The number of payload bytes in a row for a payload area that is
/// `area_width` columns wide.
pub fn row_width_for(area_width: u16) -> (r: usize)
    ensures
        r == spec_row_width(area_width as int),
{
    if area_width >= PANE_FRAME_COLUMNS && area_width - PANE_FRAME_COLUMNS >= WIDE_ROW_THRESHOLD {
        16
    } else {
        8
    }
}

/// `v` held to the range from `lo` to `hi`.
pub open spec fn clamp(v: int, lo: int, hi: int) -> int {
    if v < lo {
        lo
    } else if v > hi {
        hi
    } else {
        v
    }
}

/// The row that shows, at `width` bytes in a row, the byte that the row
/// `row` started with when rows were `old_width` bytes.
pub open spec fn rescaled(row: int, old_width: int, width: int) -> int {
    (row * old_width) / width
}

/// Each remembered row exists at `width` bytes in a row.
pub open spec fn rows_in_range(items: Seq<Entry>, rows: Seq<int>, width: int) -> bool {
    forall|i: int|
        0 <= i < rows.len() ==> 0 <= #[trigger] rows[i] <= max_row(
            items[i].data@.len() as int,
            width,
        )
}

/// The state of the browser.
pub struct AppModel {
    /// The items that are browsed, in file order.
    pub items: Seq<Entry>,
    /// The index of the selected item.
    pub selected: int,
    /// For each item the payload row last viewed, 0 for one never viewed.
    pub rows: Seq<int>,
    /// The number of payload bytes in one row.
    pub width: int,
    pub grouping: DataGrouping,
    pub endian: Endian,
    /// Whether values are coloured by their content.
    pub colors: bool,
    /// Whether the payload pane has the input focus, rather than the list.
    pub focus: bool,
    /// The height of the item list as last measured, which is a page step.
    pub window_height: int,
    /// The step that the next wheel event takes if it follows at once.
    pub momentum: int,
}

impl AppModel {
    /// The length of the payload of item `i`.
    pub open spec fn len_of(self, i: int) -> int {
        self.items[i].data@.len() as int
    }

    /// The state is sound: there is an item, one is selected, each
    /// remembered row exists at the current width, and the momentum is
    /// within its range.
    pub open spec fn wf(self) -> bool {
        &&& self.items.len() > 0
        &&& self.rows.len() == self.items.len()
        &&& 0 <= self.selected < self.items.len()
        &&& self.width > 0
        &&& rows_in_range(self.items, self.rows, self.width)
        &&& 0 <= self.window_height <= u16::MAX
        &&& 1 <= self.momentum <= MOMENTUM_MAX
    }

    /// The state in which browsing starts.
    pub open spec fn initial(items: Seq<Entry>) -> AppModel {
        AppModel {
            items,
            selected: 0,
            rows: Seq::new(items.len(), |i: int| 0int),
            width: 8,
            grouping: DataGrouping::Byte,
            endian: Endian::Little,
            colors: false,
            focus: false,
            window_height: 16,
            momentum: 1,
        }
    }

    /// The payload row of the selected item.
    pub open spec fn row(self) -> int {
        self.rows[self.selected]
    }

    /// The number of payload rows of the selected item.
    pub open spec fn pages(self) -> int {
        page_count(self.len_of(self.selected), self.width)
    }

    /// The last payload row of the selected item.
    pub open spec fn last_row(self) -> int {
        max_row(self.len_of(self.selected), self.width)
    }

    /// Selects item `i`, held to the items there are. The payload row is
    /// then the one remembered for that item.
    pub open spec fn set_item(self, i: int) -> AppModel {
        AppModel { selected: clamp(i, 0, self.items.len() - 1), ..self }
    }

    /// Moves the selection `d` items down.
    pub open spec fn next_item(self, d: int) -> AppModel {
        self.set_item(self.selected + d)
    }

    /// Moves the selection `d` items up.
    pub open spec fn prev_item(self, d: int) -> AppModel {
        self.set_item(self.selected - d)
    }

    /// Scrolls the payload of the selected item to row `r`, held to the rows
    /// there are, and remembers the row for that item.
    pub open spec fn set_row(self, r: int) -> AppModel {
        AppModel { rows: self.rows.update(self.selected, clamp(r, 0, self.last_row())), ..self }
    }

    /// Scrolls the payload `d` rows down.
    pub open spec fn next_row(self, d: int) -> AppModel {
        self.set_row(self.row() + d)
    }

    /// Scrolls the payload `d` rows up.
    pub open spec fn prev_row(self, d: int) -> AppModel {
        self.set_row(self.row() - d)
    }

    /// Changes the number of bytes in a row to `width`. Every remembered
    /// row, that of the selected item and of all others, moves to the row
    /// that shows the byte it started with.
    pub open spec fn resize(self, width: int) -> AppModel {
        AppModel {
            rows: Seq::new(self.rows.len(), |i: int| rescaled(self.rows[i], self.width, width)),
            width,
            ..self
        }
    }

    /// Takes the measures of the terminal: the height of the item list's
    /// area and the width of the payload's area.
    pub open spec fn viewport(self, list_height: int, data_width: int) -> AppModel {
        let height = if list_height >= ITEM_PANE_FRAME_ROWS {
            list_height - ITEM_PANE_FRAME_ROWS
        } else {
            0
        };
        AppModel { window_height: height, ..self.resize(spec_row_width(data_width)) }
    }

    /// Moves down by `d` in the pane that has the focus.
    pub open spec fn move_down(self, d: int) -> AppModel {
        if self.focus {
            self.next_row(d)
        } else {
            self.next_item(d)
        }
    }

    /// Moves up by `d` in the pane that has the focus.
    pub open spec fn move_up(self, d: int) -> AppModel {
        if self.focus {
            self.prev_row(d)
        } else {
            self.prev_item(d)
        }
    }

    /// Goes to the first row of the pane that has the focus.
    pub open spec fn home(self) -> AppModel {
        if self.focus {
            self.set_row(0)
        } else {
            self.set_item(0)
        }
    }

    /// The state after a key press.
    pub open spec fn press(self, key: Key) -> AppModel {
        match key {
            Key::Char(c) => if c == '0' {
                self.home()
            } else if c == '1' {
                AppModel { grouping: DataGrouping::Byte, ..self }
            } else if c == '2' {
                AppModel { grouping: DataGrouping::Word, ..self }
            } else if c == '4' {
                AppModel { grouping: DataGrouping::DoubleWord, ..self }
            } else if c == '8' {
                AppModel { grouping: DataGrouping::QuadWord, ..self }
            } else if c == 'e' {
                AppModel {
                    endian: match self.endian {
                        Endian::Big => Endian::Little,
                        Endian::Little => Endian::Big,
                    },
                    ..self
                }
            } else if c == 'j' {
                self.move_down(1)
            } else if c == 'k' {
                self.move_up(1)
            } else if c == 'l' {
                AppModel { focus: true, ..self }
            } else if c == 'h' {
                AppModel { focus: false, ..self }
            } else if c == 'c' {
                AppModel { colors: !self.colors, ..self }
            } else {
                self
            },
            Key::Down => self.move_down(1),
            Key::Up => self.move_up(1),
            Key::Right => AppModel { focus: true, ..self },
            Key::Left => AppModel { focus: false, ..self },
            Key::PageDown => self.move_down(self.window_height),
            Key::PageUp => self.move_up(self.window_height),
            Key::Esc => self,
            Key::Other => self,
        }
    }

    /// The state after a click at `row` of the terminal while the list
    /// showed item `list_offset` in its first row: in the list, the item
    /// under the pointer is selected, if there is one.
    pub open spec fn click(self, row: int, list_offset: int) -> AppModel {
        let target = list_offset + row - 2;
        if !self.focus && 0 <= target < self.items.len() {
            self.set_item(target)
        } else {
            self
        }
    }

    /// The step that a wheel event takes: the momentum, or 1 where the event
    /// did not follow the one before it within the poll timeout.
    pub open spec fn wheel_delta(self, ready: bool) -> int {
        if ready {
            self.momentum
        } else {
            1
        }
    }

    /// The state after a wheel event, down or up: the pane with the focus
    /// moves by the step, and the momentum is one more than the step, up to
    /// its maximum.
    pub open spec fn wheel(self, down: bool, ready: bool) -> AppModel {
        let delta = self.wheel_delta(ready);
        let moved = if down {
            self.move_down(delta)
        } else {
            self.move_up(delta)
        };
        AppModel { momentum: clamp(delta + 1, 1, MOMENTUM_MAX as int), ..moved }
    }

    /// The pointer at `column` gives the focus to the pane under it: to the
    /// payload pane from the first column beyond the item list on.
    pub open spec fn point(self, column: int) -> AppModel {
        AppModel { focus: column >= ITEM_PANE_WIDTH, ..self }
    }

    /// The state after an input. `ready` says whether the input followed
    /// the one before it within the poll timeout. Every input but a wheel
    /// event sets the momentum back to 1.
    pub open spec fn step(self, event: Event, ready: bool) -> AppModel {
        match event {
            Event::Key(key) => AppModel { momentum: 1, ..self.press(key) },
            Event::Click { column, row, list_offset } => AppModel {
                momentum: 1,
                ..self.point(column as int).click(row as int, list_offset as int)
            },
            Event::ScrollDown { column } => self.point(column as int).wheel(true, ready),
            Event::ScrollUp { column } => self.point(column as int).wheel(false, ready),
            Event::Pointer { column } => AppModel { momentum: 1, ..self.point(column as int) },
            Event::Other => AppModel { momentum: 1, ..self },
            Event::Failed => self,
        }
    }

    /// The state after the inputs `events`, taken in order, where each
    /// followed the one before it within the poll timeout.
    pub open spec fn steps(self, events: Seq<Event>) -> AppModel
        decreases events.len(),
    {
        if events.len() == 0 {
            self
        } else {
            self.steps(events.drop_last()).step(events.last(), true)
        }
    }
}

/// Whether the input is a turn of the wheel, down or up.
pub open spec fn is_wheel(event: Event) -> bool {
    event is ScrollDown || event is ScrollUp
}

/// What the event loop does after `event`: it ends on `q`, on escape, and
/// when the input cannot be read.
pub open spec fn spec_action(event: Event) -> Action {
    match event {
        Event::Key(Key::Char(c)) => if c == 'q' {
            Action::Quit
        } else {
            Action::Continue
        },
        Event::Key(Key::Esc) => Action::Quit,
        Event::Failed => Action::Quit,
        _ => Action::Continue,
    }
}

/// A row that exists at one width moves to a row that exists at the other,
/// and the byte it starts with lies within the payload.
pub proof fn lemma_rescale_in_range(row: int, len: int, old_width: int, width: int)
    requires
        old_width > 0,
        width > 0,
        0 <= len,
        0 <= row <= max_row(len, old_width),
    ensures
        0 <= row * old_width <= len,
        0 <= rescaled(row, old_width, width) <= max_row(len, width),
{
    if len <= 0 {
        assert(row == 0);
        assert(row * old_width == 0);
        assert(0int / width == 0);
    } else {
        let top = (len - 1) / old_width;
        lemma_mul_nonnegative(row, old_width);
        lemma_mul_inequality(row, top, old_width);
        assert(top * old_width <= len - 1) by (nonlinear_arith)
            requires
                top == (len - 1) / old_width,
                old_width > 0,
                len >= 1,
        ;
        lemma_div_is_ordered(row * old_width, len - 1, width);
        lemma_div_pos_is_pos(row * old_width, width);
    }
}

/// Changing the width keeps the state sound.
pub proof fn lemma_resize_wf(m: AppModel, width: int)
    requires
        m.wf(),
        width > 0,
    ensures
        m.resize(width).wf(),
{
    let after = m.resize(width);
    assert forall|i: int| 0 <= i < after.rows.len() implies 0 <= #[trigger] after.rows[i]
        <= max_row(after.items[i].data@.len() as int, width) by {
        lemma_rescale_in_range(m.rows[i], m.len_of(i), m.width, width);
    }
}

/// Changing the width from A to B and back to A restores the remembered row
/// of every item whose first shown byte starts a row at both widths.
pub proof fn lemma_resize_round_trip(m: AppModel, b: int, i: int)
    requires
        m.wf(),
        b > 0,
        0 <= i < m.items.len(),
        (m.rows[i] * m.width) % b == 0,
    ensures
        m.resize(b).resize(m.width).rows[i] == m.rows[i],
        m.resize(b).resize(m.width).width == m.width,
{
    let a = m.width;
    let r = m.rows[i];
    let mid = rescaled(r, a, b);
    assert(mid * b == r * a) by (nonlinear_arith)
        requires
            mid == (r * a) / b,
            (r * a) % b == 0,
            b > 0,
    ;
    lemma_div_by_multiple(r, a);
    assert(rescaled(mid, b, a) == r);
}

/// Going from item `i` to another item, scrolling there, and coming back
/// shows item `i` at the row it was left at.
pub proof fn lemma_revisit_restores_row(m: AppModel, i: int, j: int, r: int)
    requires
        m.wf(),
        0 <= i < m.items.len(),
        0 <= j < m.items.len(),
        i != j,
    ensures
        m.set_item(i).set_item(j).set_item(i).row() == m.set_item(i).row(),
        m.set_item(i).set_item(j).set_row(r).set_item(i).row() == m.set_item(i).row(),
        m.set_item(i).set_row(r).set_item(j).set_item(i).row() == m.set_item(i).set_row(r).row(),
{
}

/// Selecting an item and scrolling keep the state sound.
pub proof fn lemma_moves_wf(m: AppModel, v: int)
    requires
        m.wf(),
    ensures
        m.set_item(v).wf(),
        m.set_row(v).wf(),
        0 <= m.set_item(v).selected < m.items.len(),
        0 <= m.set_row(v).row() <= m.last_row(),
{
    let after = m.set_row(v);
    assert forall|i: int| 0 <= i < after.rows.len() implies 0 <= #[trigger] after.rows[i]
        <= max_row(after.items[i].data@.len() as int, after.width) by {
        if i != m.selected {
            assert(after.rows[i] == m.rows[i]);
        }
    }
}

/// Moving in the pane that has the focus keeps the state sound.
pub proof fn lemma_move_wf(m: AppModel, d: int)
    requires
        m.wf(),
    ensures
        m.move_down(d).wf(),
        m.move_up(d).wf(),
        m.home().wf(),
{
    lemma_moves_wf(m, 0);
    lemma_moves_wf(m, m.selected + d);
    lemma_moves_wf(m, m.selected - d);
    lemma_moves_wf(m, m.row() + d);
    lemma_moves_wf(m, m.row() - d);
}

/// A key press keeps the state sound.
pub proof fn lemma_press_wf(m: AppModel, key: Key)
    requires
        m.wf(),
    ensures
        m.press(key).wf(),
{
    lemma_move_wf(m, 1);
    lemma_move_wf(m, m.window_height);
}

/// A click keeps the state sound.
pub proof fn lemma_click_wf(m: AppModel, row: int, list_offset: int)
    requires
        m.wf(),
    ensures
        m.click(row, list_offset).wf(),
{
    lemma_moves_wf(m, list_offset + row - 2);
}

/// A wheel event leaves the momentum one above the step it took, up to the
/// maximum, whichever way it turned and whatever moved; and it keeps the
/// state sound.
pub proof fn lemma_wheel_momentum(m: AppModel, down: bool, ready: bool)
    requires
        m.wf(),
    ensures
        m.wheel(down, ready).momentum == clamp(
            m.wheel_delta(ready) + 1,
            1,
            MOMENTUM_MAX as int,
        ),
        m.wheel(down, ready).wf(),
{
    lemma_move_wf(m, m.wheel_delta(ready));
}

/// Every input keeps the state sound.
pub proof fn lemma_step_wf(m: AppModel, event: Event, ready: bool)
    requires
        m.wf(),
    ensures
        m.step(event, ready).wf(),
{
    match event {
        Event::Key(key) => {
            lemma_press_wf(m, key);
        },
        Event::Click { column, row, list_offset } => {
            lemma_click_wf(m.point(column as int), row as int, list_offset as int);
        },
        Event::ScrollDown { column } => {
            lemma_wheel_momentum(m.point(column as int), true, ready);
        },
        Event::ScrollUp { column } => {
            lemma_wheel_momentum(m.point(column as int), false, ready);
        },
        _ => {},
    }
}

/// A turn of the wheel, down or up and with the pointer at any column,
/// moves the pane under the pointer by the momentum, or by 1 where it did
/// not follow the input before it within the poll timeout; and it leaves
/// the momentum one above the step it took, up to the maximum.
pub proof fn lemma_wheel_step(m: AppModel, event: Event, ready: bool)
    requires
        m.wf(),
        is_wheel(event),
    ensures
        m.step(event, ready).wf(),
        m.step(event, ready).momentum == clamp(
            m.wheel_delta(ready) + 1,
            1,
            MOMENTUM_MAX as int,
        ),
        m.wheel_delta(ready) == if ready {
            m.momentum
        } else {
            1
        },
        event matches Event::ScrollDown { column } ==> m.step(event, ready) == (AppModel {
            momentum: m.step(event, ready).momentum,
            ..m.point(column as int).move_down(m.wheel_delta(ready))
        }),
        event matches Event::ScrollUp { column } ==> m.step(event, ready) == (AppModel {
            momentum: m.step(event, ready).momentum,
            ..m.point(column as int).move_up(m.wheel_delta(ready))
        }),
{
    lemma_step_wf(m, event, ready);
}

/// Turns of the wheel that follow each other within the poll timeout take
/// steps that grow by one from turn to turn until they reach the maximum,
/// whichever way each turns and wherever the pointer is: after `n` such
/// turns on a state whose momentum is 1, the next step is `n + 1`, or the
/// maximum if that is less.
pub proof fn lemma_momentum_grows(m: AppModel, events: Seq<Event>, next: Event)
    requires
        m.wf(),
        m.momentum == 1,
        forall|i: int| 0 <= i < events.len() ==> is_wheel(#[trigger] events[i]),
        is_wheel(next),
    ensures
        m.steps(events).wf(),
        m.steps(events).wheel_delta(true) == clamp(
            events.len() as int + 1,
            1,
            MOMENTUM_MAX as int,
        ),
        events.len() + 1 < MOMENTUM_MAX ==> m.steps(events.push(next)).wheel_delta(true)
            > m.steps(events).wheel_delta(true),
    decreases events.len(),
{
    if events.len() > 0 {
        lemma_momentum_grows(m, events.drop_last(), events.last());
        lemma_wheel_step(m.steps(events.drop_last()), events.last(), true);
    }
    let here = m.steps(events);
    lemma_wheel_step(here, next, true);
    assert(events.push(next).drop_last() =~= events);
    assert(m.steps(events.push(next)) == here.step(next, true));
}

/// A turn of the wheel that comes after a gap longer than the poll timeout
/// takes the step 1, whatever the momentum was; and so does the first turn
/// after any input that is no turn of the wheel.
pub proof fn lemma_momentum_resets(m: AppModel, event: Event, ready: bool)
    requires
        m.wf(),
    ensures
        m.wheel_delta(false) == 1,
        !is_wheel(event) && !(event is Failed) ==> m.step(event, ready).wheel_delta(true) == 1,
{
}

} // verus!
