//! The state of the interactive browser and the inputs that change it.

use crate::container::Entry;
use crate::model::{
    last_row_for, lemma_moves_wf, lemma_rescale_in_range, lemma_resize_wf, max_row, rescaled,
    row_width_for, rows_for, spec_action, Action, AppModel, DataGrouping, Endian, Event, Key,
    ITEM_PANE_FRAME_ROWS, ITEM_PANE_WIDTH, MOMENTUM_MAX,
};
use std::collections::HashMap;
use vstd::prelude::*;

verus! {

broadcast use vstd::std_specs::hash::group_hash_axioms;

/// The row that the cache remembers for item `i`: the one stored under `i`,
/// or 0 for an item that was never scrolled.
spec fn remembered(cache: Map<usize, usize>, i: int) -> int {
    if 0 <= i <= usize::MAX && cache.contains_key(i as usize) {
        cache[i as usize] as int
    } else {
        0
    }
}

/// The browser: the items of a blob and the state of the view on them.
///
/// The payload row last viewed is remembered for the items that were
/// scrolled, under the item's index; an item without an entry is at row 0.
pub struct App {
    items: Vec<Entry>,
    item_selected: usize,
    data_scroll_cache: HashMap<usize, usize>,
    data_width: usize,
    data_endian: Endian,
    data_focus: bool,
    data_grouping: DataGrouping,
    data_colors: bool,
    window_height: u16,
    scroll_momentum: usize,
}

impl View for App {
    type V = AppModel;

    closed spec fn view(&self) -> AppModel {
        AppModel {
            items: self.items@,
            selected: self.item_selected as int,
            rows: Seq::new(self.items@.len(), |i: int| remembered(self.data_scroll_cache@, i)),
            width: self.data_width as int,
            grouping: self.data_grouping,
            endian: self.data_endian,
            colors: self.data_colors,
            focus: self.data_focus,
            window_height: self.window_height as int,
            momentum: self.scroll_momentum as int,
        }
    }
}

impl App {
    /// Starts browsing `items` with the first item selected, eight bytes in
    /// a row, and the focus on the item list.
    pub fn new(items: Vec<Entry>) -> (r: App)
        requires
            items@.len() > 0,
        ensures
            r@ == AppModel::initial(items@),
            r@.wf(),
    {
        let out = App {
            items,
            item_selected: 0,
            data_scroll_cache: HashMap::new(),
            data_width: 8,
            data_endian: Endian::Little,
            data_focus: false,
            data_grouping: DataGrouping::Byte,
            data_colors: false,
            window_height: 16,
            scroll_momentum: 1,
        };
        proof {
            assert(out@.rows =~= AppModel::initial(items@).rows);
        }
        out
    }

    /// Whether the state is sound. Every state that `new` returns is sound,
    /// and every method keeps it so.
    pub fn is_wf(&self) -> (r: bool)
        ensures
            r == self@.wf(),
    {
        let n = self.items.len();
        if n == 0 || self.item_selected >= n || self.data_width == 0 || self.scroll_momentum < 1
            || self.scroll_momentum > MOMENTUM_MAX {
            return false;
        }
        let mut i: usize = 0;
        while i < n
            invariant
                i <= n,
                n == self.items@.len(),
                self.data_width > 0,
                forall|j: int|
                    0 <= j < i ==> 0 <= #[trigger] self@.rows[j] <= max_row(
                        self@.items[j].data@.len() as int,
                        self@.width,
                    ),
            decreases n - i,
        {
            let last = last_row_for(self.items[i].data.len(), self.data_width);
            if self.cached_row(i) > last {
                proof {
                    assert(self@.rows[i as int] > max_row(
                        self@.items[i as int].data@.len() as int,
                        self@.width,
                    ));
                }
                return false;
            }
            i = i + 1;
        }
        true
    }

    /// The row remembered for item `i`, or 0 for an item never scrolled.
    fn cached_row(&self, i: usize) -> (r: usize)
        ensures
            r == remembered(self.data_scroll_cache@, i as int),
    {
        match self.data_scroll_cache.get(&i) {
            Some(row) => *row,
            None => 0,
        }
    }

    /// The items that are browsed.
    pub fn items(&self) -> (r: &Vec<Entry>)
        ensures
            r@ == self@.items,
    {
        &self.items
    }

    /// The index of the selected item.
    pub fn selected(&self) -> (r: usize)
        ensures
            r == self@.selected,
    {
        self.item_selected
    }

    /// The payload row of the selected item.
    pub fn data_row(&self) -> (r: usize)
        requires
            self@.wf(),
        ensures
            r == self@.row(),
    {
        self.cached_row(self.item_selected)
    }

    /// The number of payload rows of the selected item.
    pub fn data_rows(&self) -> (r: usize)
        requires
            self@.wf(),
        ensures
            r == self@.pages(),
    {
        rows_for(self.items[self.item_selected].data.len(), self.data_width)
    }

    /// The number of payload bytes in one row.
    pub fn data_width(&self) -> (r: usize)
        ensures
            r == self@.width,
    {
        self.data_width
    }

    /// How many bytes are shown as one value.
    pub fn grouping(&self) -> (r: DataGrouping)
        ensures
            r == self@.grouping,
    {
        self.data_grouping
    }

    /// The order in which the bytes of one value are shown.
    pub fn endian(&self) -> (r: Endian)
        ensures
            r == self@.endian,
    {
        self.data_endian
    }

    /// Whether values are coloured by their content.
    pub fn colors(&self) -> (r: bool)
        ensures
            r == self@.colors,
    {
        self.data_colors
    }

    /// Whether the payload pane has the focus.
    pub fn focus(&self) -> (r: bool)
        ensures
            r == self@.focus,
    {
        self.data_focus
    }

    /// The height of the item list as last measured.
    pub fn window_height(&self) -> (r: u16)
        ensures
            r == self@.window_height,
    {
        self.window_height
    }

    /// The step that the next wheel event takes if it follows at once.
    pub fn momentum(&self) -> (r: usize)
        ensures
            r == self@.momentum,
    {
        self.scroll_momentum
    }

    /// Selects item `i`, held to the items there are.
    pub fn set_item_scroll(&mut self, i: usize)
        requires
            old(self)@.wf(),
        ensures
            final(self)@ == old(self)@.set_item(i as int),
            final(self)@.wf(),
    {
        proof {
            lemma_moves_wf(self@, i as int);
        }
        let last = self.items.len() - 1;
        self.item_selected = if i > last {
            last
        } else {
            i
        };
    }

    /// Moves the selection `d` items down, stopping at the last item.
    pub fn next_item_row(&mut self, d: usize)
        requires
            old(self)@.wf(),
        ensures
            final(self)@ == old(self)@.next_item(d as int),
            final(self)@.wf(),
    {
        proof {
            lemma_moves_wf(self@, self@.selected + d);
        }
        let last = self.items.len() - 1;
        let i = if d > last - self.item_selected {
            last
        } else {
            self.item_selected + d
        };
        self.item_selected = i;
    }

    /// Moves the selection `d` items up, stopping at the first item.
    pub fn prev_item_row(&mut self, d: usize)
        requires
            old(self)@.wf(),
        ensures
            final(self)@ == old(self)@.prev_item(d as int),
            final(self)@.wf(),
    {
        proof {
            lemma_moves_wf(self@, self@.selected - d);
        }
        let i = if d > self.item_selected {
            0
        } else {
            self.item_selected - d
        };
        self.item_selected = i;
    }

    /// Scrolls the payload of the selected item to row `i`, held to the rows
    /// there are, and remembers the row for that item.
    pub fn set_data_scroll(&mut self, i: usize)
        requires
            old(self)@.wf(),
        ensures
            final(self)@ == old(self)@.set_row(i as int),
            final(self)@.wf(),
    {
        proof {
            lemma_moves_wf(self@, i as int);
        }
        let last = last_row_for(self.items[self.item_selected].data.len(), self.data_width);
        let row = if i > last {
            last
        } else {
            i
        };
        self.data_scroll_cache.insert(self.item_selected, row);
        proof {
            assert(self@.rows =~= old(self)@.set_row(i as int).rows);
        }
    }

    /// Scrolls the payload `d` rows down, stopping at the last row.
    pub fn next_data_row(&mut self, d: usize)
        requires
            old(self)@.wf(),
        ensures
            final(self)@ == old(self)@.next_row(d as int),
            final(self)@.wf(),
    {
        proof {
            lemma_moves_wf(self@, self@.row() + d);
        }
        let last = last_row_for(self.items[self.item_selected].data.len(), self.data_width);
        let row = self.cached_row(self.item_selected);
        let next = if d > last - row {
            last
        } else {
            row + d
        };
        self.data_scroll_cache.insert(self.item_selected, next);
        proof {
            assert(self@.rows =~= old(self)@.next_row(d as int).rows);
        }
    }

    /// Scrolls the payload `d` rows up, stopping at the first row.
    pub fn prev_data_row(&mut self, d: usize)
        requires
            old(self)@.wf(),
        ensures
            final(self)@ == old(self)@.prev_row(d as int),
            final(self)@.wf(),
    {
        proof {
            lemma_moves_wf(self@, self@.row() - d);
        }
        let row = self.cached_row(self.item_selected);
        let next = if d > row {
            0
        } else {
            row - d
        };
        self.data_scroll_cache.insert(self.item_selected, next);
        proof {
            assert(self@.rows =~= old(self)@.prev_row(d as int).rows);
        }
    }

    /// Changes the number of bytes in a row, and moves every remembered row
    /// to the row that shows the byte it started with.
    pub fn resize_data(&mut self, data_width: usize)
        requires
            old(self)@.wf(),
            data_width > 0,
        ensures
            final(self)@ == old(self)@.resize(data_width as int),
            final(self)@.wf(),
    {
        proof {
            lemma_resize_wf(self@, data_width as int);
        }
        if data_width != self.data_width {
            let old_width = self.data_width;
            let n = self.items.len();
            let mut i: usize = 0;
            while i < n
                invariant
                    old_width == old(self).data_width,
                    old_width > 0,
                    data_width > 0,
                    old(self)@.wf(),
                    self.items == old(self).items,
                    self.item_selected == old(self).item_selected,
                    self.data_width == old(self).data_width,
                    self.data_endian == old(self).data_endian,
                    self.data_focus == old(self).data_focus,
                    self.data_grouping == old(self).data_grouping,
                    self.data_colors == old(self).data_colors,
                    self.window_height == old(self).window_height,
                    self.scroll_momentum == old(self).scroll_momentum,
                    n == self.items@.len(),
                    i <= n,
                    forall|j: int|
                        0 <= j < i ==> #[trigger] remembered(self.data_scroll_cache@, j)
                            == rescaled(
                            remembered(old(self).data_scroll_cache@, j),
                            old_width as int,
                            data_width as int,
                        ),
                    forall|j: int|
                        i <= j < n ==> #[trigger] remembered(self.data_scroll_cache@, j)
                            == remembered(old(self).data_scroll_cache@, j),
                decreases n - i,
            {
                let cached: Option<usize> = match self.data_scroll_cache.get(&i) {
                    Some(row) => Some(*row),
                    None => None,
                };
                let ghost before = self.data_scroll_cache@;
                match cached {
                    Some(row) => {
                        proof {
                            assert(remembered(before, i as int) == row);
                            assert(old(self)@.rows[i as int] == row);
                            assert(old(self).items@[i as int].data.len() == old(self)@.len_of(
                                i as int,
                            ));
                            lemma_rescale_in_range(
                                row as int,
                                old(self)@.len_of(i as int),
                                old_width as int,
                                data_width as int,
                            );
                        }
                        let index = row * old_width;
                        self.data_scroll_cache.insert(i, index / data_width);
                    },
                    None => {
                        proof {
                            assert(remembered(before, i as int) == 0);
                            assert(rescaled(0, old_width as int, data_width as int) == 0)
                                by (nonlinear_arith)
                                requires
                                    data_width > 0,
                            ;
                        }
                    },
                }
                proof {
                    let after = self.data_scroll_cache@;
                    assert(remembered(before, i as int) == remembered(
                        old(self).data_scroll_cache@,
                        i as int,
                    ));
                    assert(remembered(after, i as int) == rescaled(
                        remembered(before, i as int),
                        old_width as int,
                        data_width as int,
                    ));
                    assert forall|j: int| 0 <= j < i + 1 implies #[trigger] remembered(after, j)
                        == rescaled(
                        remembered(old(self).data_scroll_cache@, j),
                        old_width as int,
                        data_width as int,
                    ) by {
                        if j != i {
                            assert(remembered(after, j) == remembered(before, j));
                        }
                    }
                    assert forall|j: int| i + 1 <= j < n implies #[trigger] remembered(after, j)
                        == remembered(old(self).data_scroll_cache@, j) by {
                        assert(remembered(after, j) == remembered(before, j));
                    }
                }
                i = i + 1;
            }
            self.data_width = data_width;
            proof {
                assert(self@.rows =~= old(self)@.resize(data_width as int).rows);
            }
        } else {
            proof {
                assert forall|j: int| 0 <= j < self@.rows.len() implies rescaled(
                    self@.rows[j],
                    data_width as int,
                    data_width as int,
                ) == self@.rows[j] by {
                    vstd::arithmetic::div_mod::lemma_div_by_multiple(
                        self@.rows[j],
                        data_width as int,
                    );
                }
                assert(self@.rows =~= old(self)@.resize(data_width as int).rows);
            }
        }
    }

    /// Takes the measures of the terminal: the height of the item list's
    /// area, of which the rows between its frame are a page step, and the
    /// width of the payload's area, which decides whether a row shows 16
    /// bytes or 8.
    pub fn set_viewport(&mut self, list_height: u16, data_width: u16)
        requires
            old(self)@.wf(),
        ensures
            final(self)@ == old(self)@.viewport(list_height as int, data_width as int),
            final(self)@.wf(),
    {
        self.resize_data(row_width_for(data_width));
        self.window_height = if list_height >= ITEM_PANE_FRAME_ROWS {
            list_height - ITEM_PANE_FRAME_ROWS
        } else {
            0
        };
    }

    /// Shows `grouping` bytes as one value. The scroll position stays.
    pub fn set_grouping(&mut self, grouping: DataGrouping)
        requires
            old(self)@.wf(),
        ensures
            final(self)@ == (AppModel { grouping, ..old(self)@ }),
            final(self)@.wf(),
    {
        self.data_grouping = grouping;
    }

    /// Shows the bytes of each value in the other order. The scroll position
    /// stays.
    pub fn flip_endian(&mut self)
        requires
            old(self)@.wf(),
        ensures
            final(self)@ == old(self)@.press(Key::Char('e')),
            final(self)@.wf(),
    {
        self.data_endian = match self.data_endian {
            Endian::Big => Endian::Little,
            Endian::Little => Endian::Big,
        };
    }

    /// Turns the colouring of values on or off. The scroll position stays.
    pub fn toggle_colors(&mut self)
        requires
            old(self)@.wf(),
        ensures
            final(self)@ == old(self)@.press(Key::Char('c')),
            final(self)@.wf(),
    {
        self.data_colors = !self.data_colors;
    }

    /// Gives the focus to the payload pane, or to the item list.
    pub fn set_focus(&mut self, data_focus: bool)
        requires
            old(self)@.wf(),
        ensures
            final(self)@ == (AppModel { focus: data_focus, ..old(self)@ }),
            final(self)@.wf(),
    {
        self.data_focus = data_focus;
    }

    /// Moves down by `d` in the pane that has the focus.
    fn move_down(&mut self, d: usize)
        requires
            old(self)@.wf(),
        ensures
            final(self)@ == old(self)@.move_down(d as int),
            final(self)@.wf(),
    {
        if self.data_focus {
            self.next_data_row(d)
        } else {
            self.next_item_row(d)
        }
    }

    /// Moves up by `d` in the pane that has the focus.
    fn move_up(&mut self, d: usize)
        requires
            old(self)@.wf(),
        ensures
            final(self)@ == old(self)@.move_up(d as int),
            final(self)@.wf(),
    {
        if self.data_focus {
            self.prev_data_row(d)
        } else {
            self.prev_item_row(d)
        }
    }

    /// Acts on a key press.
    fn press(&mut self, key: Key)
        requires
            old(self)@.wf(),
        ensures
            final(self)@ == old(self)@.press(key),
            final(self)@.wf(),
    {
        match key {
            Key::Char(c) => {
                if c == '0' {
                    if self.data_focus {
                        self.set_data_scroll(0)
                    } else {
                        self.set_item_scroll(0)
                    }
                } else if c == '1' {
                    self.data_grouping = DataGrouping::Byte
                } else if c == '2' {
                    self.data_grouping = DataGrouping::Word
                } else if c == '4' {
                    self.data_grouping = DataGrouping::DoubleWord
                } else if c == '8' {
                    self.data_grouping = DataGrouping::QuadWord
                } else if c == 'e' {
                    self.flip_endian()
                } else if c == 'j' {
                    self.move_down(1)
                } else if c == 'k' {
                    self.move_up(1)
                } else if c == 'l' {
                    self.data_focus = true;
                } else if c == 'h' {
                    self.data_focus = false;
                } else if c == 'c' {
                    self.toggle_colors()
                }
            },
            Key::Down => self.move_down(1),
            Key::Up => self.move_up(1),
            Key::Right => {
                self.data_focus = true;
            },
            Key::Left => {
                self.data_focus = false;
            },
            Key::PageDown => {
                let d = self.window_height as usize;
                self.move_down(d)
            },
            Key::PageUp => {
                let d = self.window_height as usize;
                self.move_up(d)
            },
            Key::Esc => {},
            Key::Other => {},
        }
    }

    /// Acts on a wheel event.
    fn wheel(&mut self, down: bool, event_was_ready: bool)
        requires
            old(self)@.wf(),
        ensures
            final(self)@ == old(self)@.wheel(down, event_was_ready),
            final(self)@.wf(),
    {
        let delta = if event_was_ready {
            self.scroll_momentum
        } else {
            1
        };
        if down {
            self.move_down(delta)
        } else {
            self.move_up(delta)
        }
        self.scroll_momentum = if delta + 1 > MOMENTUM_MAX {
            MOMENTUM_MAX
        } else {
            delta + 1
        };
    }

    /// Acts on one input and says whether the event loop goes on.
    ///
    /// `event_was_ready` says whether the input followed the one before it
    /// within the poll timeout.
    pub fn handle_event(&mut self, event: Event, event_was_ready: bool) -> (r: Action)
        requires
            old(self)@.wf(),
        ensures
            final(self)@ == old(self)@.step(event, event_was_ready),
            final(self)@.wf(),
            r == spec_action(event),
    {
        match event {
            Event::Key(key) => {
                self.press(key);
                self.scroll_momentum = 1;
                match key {
                    Key::Char(c) => if c == 'q' {
                        Action::Quit
                    } else {
                        Action::Continue
                    },
                    Key::Esc => Action::Quit,
                    _ => Action::Continue,
                }
            },
            Event::Click { column, row, list_offset } => {
                self.data_focus = column >= ITEM_PANE_WIDTH;
                if !self.data_focus {
                    let row = row as usize;
                    if row >= 2 && list_offset < self.items.len() && row - 2 < self.items.len()
                        - list_offset {
                        self.set_item_scroll(list_offset + (row - 2));
                    } else if row < 2 && list_offset >= 2 - row && list_offset - (2 - row)
                        < self.items.len() {
                        self.set_item_scroll(list_offset - (2 - row));
                    }
                }
                self.scroll_momentum = 1;
                Action::Continue
            },
            Event::ScrollDown { column } => {
                self.data_focus = column >= ITEM_PANE_WIDTH;
                self.wheel(true, event_was_ready);
                Action::Continue
            },
            Event::ScrollUp { column } => {
                self.data_focus = column >= ITEM_PANE_WIDTH;
                self.wheel(false, event_was_ready);
                Action::Continue
            },
            Event::Pointer { column } => {
                self.data_focus = column >= ITEM_PANE_WIDTH;
                self.scroll_momentum = 1;
                Action::Continue
            },
            Event::Other => {
                self.scroll_momentum = 1;
                Action::Continue
            },
            Event::Failed => Action::Quit,
        }
    }
}

} // verus!
