use apob::browser::App;
use apob::container::{Entry, Item};
use apob::model::{
    last_row_for, row_width_for, rows_for, Action, DataGrouping, Endian, Event, Key,
    ITEM_PANE_WIDTH,
};

fn items(lens: &[usize]) -> Vec<Entry> {
    lens.iter()
        .enumerate()
        .map(|(i, &n)| Entry { offset: i * 1000, entry: Item::Padding, data: vec![i as u8; n] })
        .collect()
}

fn app(lens: &[usize]) -> App {
    App::new(items(lens))
}

fn key(c: char) -> Event {
    Event::Key(Key::Char(c))
}

#[test]
fn rows_round_up() {
    assert_eq!(rows_for(0, 8), 0);
    assert_eq!(rows_for(1, 8), 1);
    assert_eq!(rows_for(8, 8), 1);
    assert_eq!(rows_for(9, 8), 2);
    assert_eq!(rows_for(usize::MAX, 1), usize::MAX);
    assert_eq!(rows_for(usize::MAX, 16), usize::MAX / 16 + 1);
    for len in 0..70usize {
        for w in 1..20usize {
            assert_eq!(rows_for(len, w), len.div_ceil(w));
            assert_eq!(last_row_for(len, w), len.div_ceil(w).saturating_sub(1));
        }
    }
}

#[test]
fn browsing_starts_at_the_first_item() {
    let a = app(&[16, 100, 0]);
    assert_eq!(a.selected(), 0);
    assert_eq!(a.data_row(), 0);
    assert_eq!(a.data_width(), 8);
    assert_eq!(a.data_rows(), 2);
    assert_eq!(a.grouping(), DataGrouping::Byte);
    assert_eq!(a.endian(), Endian::Little);
    assert!(!a.colors());
    assert!(!a.focus());
    assert_eq!(a.window_height(), 16);
    assert_eq!(a.momentum(), 1);
    assert_eq!(a.items().len(), 3);
}

#[test]
fn selection_is_clamped() {
    let mut a = app(&[1, 2, 3, 4]);
    a.set_item_scroll(2);
    assert_eq!(a.selected(), 2);
    a.set_item_scroll(4);
    assert_eq!(a.selected(), 3);
    a.set_item_scroll(usize::MAX);
    assert_eq!(a.selected(), 3);
    a.prev_item_row(1);
    assert_eq!(a.selected(), 2);
    a.prev_item_row(5);
    assert_eq!(a.selected(), 0);
    a.prev_item_row(usize::MAX);
    assert_eq!(a.selected(), 0);
    a.next_item_row(1);
    assert_eq!(a.selected(), 1);
    a.next_item_row(2);
    assert_eq!(a.selected(), 3);
    a.next_item_row(usize::MAX);
    assert_eq!(a.selected(), 3);
    a.set_item_scroll(0);
    a.next_item_row(usize::MAX);
    assert_eq!(a.selected(), 3);
}

#[test]
fn payload_scroll_is_clamped() {
    let mut a = app(&[80, 0, 1]);
    assert_eq!(a.data_rows(), 10);
    a.next_data_row(3);
    assert_eq!(a.data_row(), 3);
    a.next_data_row(100);
    assert_eq!(a.data_row(), 9);
    a.next_data_row(usize::MAX);
    assert_eq!(a.data_row(), 9);
    a.prev_data_row(4);
    assert_eq!(a.data_row(), 5);
    a.prev_data_row(usize::MAX);
    assert_eq!(a.data_row(), 0);
    a.set_data_scroll(7);
    assert_eq!(a.data_row(), 7);
    a.set_data_scroll(10);
    assert_eq!(a.data_row(), 9);
    a.set_item_scroll(1);
    assert_eq!(a.data_rows(), 0);
    a.next_data_row(1);
    assert_eq!(a.data_row(), 0);
    a.set_data_scroll(5);
    assert_eq!(a.data_row(), 0);
    a.set_item_scroll(2);
    a.next_data_row(1);
    assert_eq!(a.data_row(), 0);
}

#[test]
fn each_item_remembers_its_row() {
    let mut a = app(&[800, 800, 800]);
    a.set_item_scroll(1);
    a.set_data_scroll(17);
    a.set_item_scroll(2);
    assert_eq!(a.data_row(), 0);
    a.next_data_row(5);
    a.set_item_scroll(1);
    assert_eq!(a.data_row(), 17);
    a.set_item_scroll(2);
    assert_eq!(a.data_row(), 5);
    a.set_item_scroll(0);
    assert_eq!(a.data_row(), 0);
}

#[test]
fn width_change_keeps_the_byte_in_view() {
    let mut a = app(&[800, 800, 800, 3]);
    a.set_data_scroll(10);
    a.set_item_scroll(1);
    a.set_data_scroll(7);
    a.set_item_scroll(2);
    a.set_data_scroll(99);
    a.resize_data(16);
    assert_eq!(a.data_width(), 16);
    assert_eq!(a.data_row(), 49);
    assert_eq!(a.data_rows(), 50);
    a.set_item_scroll(0);
    assert_eq!(a.data_row(), 5);
    a.set_item_scroll(1);
    assert_eq!(a.data_row(), 3);
    a.set_item_scroll(3);
    assert_eq!(a.data_row(), 0);
}

#[test]
fn width_change_and_back_restores_even_rows() {
    let mut a = app(&[800, 800, 800]);
    a.set_data_scroll(10);
    a.set_item_scroll(1);
    a.set_data_scroll(64);
    a.set_item_scroll(2);
    a.set_data_scroll(7);
    a.resize_data(16);
    a.resize_data(8);
    assert_eq!(a.data_row(), 6);
    a.set_item_scroll(0);
    assert_eq!(a.data_row(), 10);
    a.set_item_scroll(1);
    assert_eq!(a.data_row(), 64);
    a.resize_data(8);
    assert_eq!(a.data_row(), 64);
    a.resize_data(3);
    assert_eq!(a.data_row(), 170);
    a.resize_data(5);
    assert_eq!(a.data_row(), 102);
}

#[test]
fn viewport_picks_the_row_width() {
    let mut a = app(&[100]);
    a.set_viewport(40, 76);
    assert_eq!(a.data_width(), 16);
    assert_eq!(a.window_height(), 37);
    a.set_viewport(2, 75);
    assert_eq!(a.data_width(), 8);
    assert_eq!(a.window_height(), 0);
    a.set_viewport(3, 0);
    assert_eq!(a.data_width(), 8);
    assert_eq!(a.window_height(), 0);
    a.set_viewport(u16::MAX, u16::MAX);
    assert_eq!(a.data_width(), 16);
    assert_eq!(a.window_height(), u16::MAX - 3);
}

#[test]
fn display_options_leave_the_scroll_alone() {
    let mut a = app(&[800, 800]);
    a.set_item_scroll(1);
    a.set_data_scroll(20);
    for (c, g) in [
        ('2', DataGrouping::Word),
        ('4', DataGrouping::DoubleWord),
        ('8', DataGrouping::QuadWord),
        ('1', DataGrouping::Byte),
    ] {
        assert_eq!(a.handle_event(key(c), true), Action::Continue);
        assert_eq!(a.grouping(), g);
        assert_eq!(g.bytes().to_string(), c.to_string());
        assert_eq!((a.selected(), a.data_row(), a.data_width()), (1, 20, 8));
    }
    a.handle_event(key('e'), true);
    assert_eq!(a.endian(), Endian::Big);
    a.handle_event(key('e'), true);
    assert_eq!(a.endian(), Endian::Little);
    a.handle_event(key('c'), true);
    assert!(a.colors());
    a.handle_event(key('c'), true);
    assert!(!a.colors());
    a.set_grouping(DataGrouping::Word);
    a.flip_endian();
    a.toggle_colors();
    assert_eq!((a.grouping(), a.endian(), a.colors()), (DataGrouping::Word, Endian::Big, true));
    assert_eq!((a.selected(), a.data_row(), a.data_width()), (1, 20, 8));
}

#[test]
fn keys_move_in_the_focused_pane() {
    let mut a = app(&[800; 40]);
    a.handle_event(key('j'), false);
    a.handle_event(Event::Key(Key::Down), false);
    assert_eq!(a.selected(), 2);
    a.handle_event(key('k'), false);
    assert_eq!(a.selected(), 1);
    a.handle_event(Event::Key(Key::Up), false);
    a.handle_event(Event::Key(Key::Up), false);
    assert_eq!(a.selected(), 0);
    a.handle_event(Event::Key(Key::PageDown), false);
    assert_eq!(a.selected(), 16);
    a.handle_event(Event::Key(Key::PageDown), false);
    a.handle_event(Event::Key(Key::PageDown), false);
    assert_eq!(a.selected(), 39);
    a.handle_event(Event::Key(Key::PageUp), false);
    assert_eq!(a.selected(), 23);
    a.handle_event(key('l'), false);
    assert!(a.focus());
    a.handle_event(key('j'), false);
    a.handle_event(Event::Key(Key::PageDown), false);
    assert_eq!((a.selected(), a.data_row()), (23, 17));
    a.handle_event(Event::Key(Key::PageUp), false);
    a.handle_event(key('k'), false);
    assert_eq!(a.data_row(), 0);
    a.handle_event(Event::Key(Key::PageDown), false);
    a.handle_event(key('0'), false);
    assert_eq!((a.selected(), a.data_row()), (23, 0));
    a.handle_event(key('h'), false);
    assert!(!a.focus());
    a.handle_event(key('0'), false);
    assert_eq!(a.selected(), 0);
    a.handle_event(Event::Key(Key::Right), false);
    assert!(a.focus());
    a.handle_event(Event::Key(Key::Left), false);
    assert!(!a.focus());
    a.handle_event(key('x'), false);
    a.handle_event(Event::Key(Key::Other), false);
    a.handle_event(Event::Other, false);
    assert_eq!((a.selected(), a.data_row(), a.focus()), (0, 0, false));
}

#[test]
fn quit_keys_end_the_loop() {
    let mut a = app(&[8, 8]);
    a.next_item_row(1);
    assert_eq!(a.handle_event(key('q'), true), Action::Quit);
    assert_eq!(a.handle_event(Event::Key(Key::Esc), true), Action::Quit);
    assert_eq!(a.handle_event(Event::Failed, true), Action::Quit);
    assert_eq!(a.handle_event(key('Q'), true), Action::Continue);
    assert_eq!(a.handle_event(Event::Other, true), Action::Continue);
    assert_eq!(a.selected(), 1);
}

#[test]
fn pointer_column_sets_the_focus() {
    let mut a = app(&[8, 8]);
    a.handle_event(Event::Pointer { column: 46 }, false);
    assert!(a.focus());
    a.handle_event(Event::Pointer { column: 44 }, false);
    assert!(!a.focus());
    a.handle_event(Event::Pointer { column: 45 }, false);
    assert!(a.focus());
    a.handle_event(Event::ScrollDown { column: 44 }, false);
    assert!(!a.focus());
    a.handle_event(Event::ScrollUp { column: 45 }, false);
    assert!(a.focus());
    a.handle_event(Event::Click { column: 44, row: 2, list_offset: 1 }, false);
    assert!(!a.focus());
    assert_eq!(a.selected(), 1);
    a.handle_event(Event::Click { column: 45, row: 2, list_offset: 0 }, false);
    assert!(a.focus());
    assert_eq!(a.selected(), 1);
    for column in 0..200u16 {
        a.handle_event(Event::Pointer { column }, false);
        assert_eq!(a.focus(), column >= ITEM_PANE_WIDTH);
    }
    assert_eq!(ITEM_PANE_WIDTH, 45);
    a.handle_event(Event::ScrollDown { column: 100 }, false);
    assert!(a.focus());
    a.handle_event(Event::ScrollUp { column: 0 }, false);
    assert!(!a.focus());
    a.handle_event(Event::Click { column: 60, row: 3, list_offset: 0 }, false);
    assert!(a.focus());
    assert_eq!(a.selected(), 0);
}

#[test]
fn click_selects_the_item_under_the_pointer() {
    let mut a = app(&[8; 30]);
    a.handle_event(Event::Click { column: 10, row: 5, list_offset: 0 }, false);
    assert_eq!(a.selected(), 3);
    a.handle_event(Event::Click { column: 10, row: 2, list_offset: 20 }, false);
    assert_eq!(a.selected(), 20);
    a.handle_event(Event::Click { column: 10, row: 11, list_offset: 20 }, false);
    assert_eq!(a.selected(), 29);
    a.handle_event(Event::Click { column: 10, row: 12, list_offset: 20 }, false);
    assert_eq!(a.selected(), 29);
    a.handle_event(Event::Click { column: 10, row: 1, list_offset: 0 }, false);
    assert_eq!(a.selected(), 29);
    a.handle_event(Event::Click { column: 10, row: 0, list_offset: 1 }, false);
    assert_eq!(a.selected(), 29);
    a.handle_event(Event::Click { column: 10, row: 0, list_offset: 2 }, false);
    assert_eq!(a.selected(), 0);
    a.handle_event(Event::Click { column: 10, row: 1, list_offset: 5 }, false);
    assert_eq!(a.selected(), 4);
    a.handle_event(Event::Click { column: 10, row: u16::MAX, list_offset: usize::MAX }, false);
    assert_eq!(a.selected(), 4);
    a.handle_event(Event::Click { column: 10, row: 3, list_offset: usize::MAX }, false);
    assert_eq!(a.selected(), 4);
}

#[test]
fn wheel_steps_grow_while_events_follow_each_other() {
    let mut a = app(&[8; 1000]);
    let mut deltas = Vec::new();
    let mut ready = false;
    for _ in 0..20 {
        let before = a.selected();
        assert_eq!(a.handle_event(Event::ScrollDown { column: 0 }, ready), Action::Continue);
        deltas.push(a.selected() - before);
        ready = true;
    }
    assert_eq!(deltas, vec![1, 2, 3, 4, 5, 6, 7, 8, 9, 10, 11, 12, 13, 14, 15, 16, 16, 16, 16, 16]);
    assert_eq!(a.momentum(), 16);
}

#[test]
fn a_gap_resets_the_wheel_step() {
    let mut a = app(&[8; 1000]);
    a.handle_event(Event::ScrollDown { column: 0 }, false);
    a.handle_event(Event::ScrollDown { column: 0 }, true);
    a.handle_event(Event::ScrollDown { column: 0 }, true);
    assert_eq!(a.selected(), 6);
    assert_eq!(a.momentum(), 4);
    a.handle_event(Event::ScrollDown { column: 0 }, false);
    assert_eq!(a.selected(), 7);
    assert_eq!(a.momentum(), 2);
    a.handle_event(Event::ScrollUp { column: 0 }, true);
    assert_eq!(a.selected(), 5);
    a.handle_event(Event::ScrollUp { column: 0 }, true);
    assert_eq!(a.selected(), 2);
    a.handle_event(Event::ScrollUp { column: 0 }, true);
    assert_eq!(a.selected(), 0);
}

#[test]
fn other_inputs_reset_the_wheel_step() {
    for other in [key('c'), Event::Other, Event::Pointer { column: 1 }, Event::Key(Key::Down)] {
        let mut a = app(&[8; 1000]);
        for _ in 0..5 {
            a.handle_event(Event::ScrollDown { column: 0 }, true);
        }
        assert_eq!(a.momentum(), 6);
        a.handle_event(other, true);
        assert_eq!(a.momentum(), 1);
        let before = a.selected();
        a.handle_event(Event::ScrollDown { column: 0 }, true);
        assert_eq!(a.selected() - before, 1);
    }
    let mut a = app(&[8; 1000]);
    a.handle_event(Event::ScrollDown { column: 0 }, true);
    a.handle_event(Event::Click { column: 0, row: 2, list_offset: 0 }, true);
    assert_eq!(a.momentum(), 1);
}

#[test]
fn wheel_scrolls_the_payload_when_it_has_the_focus() {
    let mut a = app(&[8000]);
    a.handle_event(Event::ScrollDown { column: 50 }, false);
    a.handle_event(Event::ScrollDown { column: 50 }, true);
    a.handle_event(Event::ScrollDown { column: 50 }, true);
    assert_eq!((a.selected(), a.data_row()), (0, 6));
    a.handle_event(Event::ScrollUp { column: 50 }, true);
    assert_eq!(a.data_row(), 2);
}

#[test]
fn every_step_keeps_the_state_sound() {
    let mut a = app(&[0, 1, 7, 8, 9, 800, 33]);
    assert!(a.is_wf());
    let inputs = [
        Event::ScrollDown { column: 0 },
        Event::ScrollDown { column: 90 },
        key('j'),
        Event::Key(Key::PageDown),
        Event::Click { column: 3, row: 7, list_offset: 0 },
        key('l'),
        Event::Key(Key::PageDown),
        Event::ScrollDown { column: 90 },
        Event::ScrollUp { column: 90 },
        key('0'),
        key('k'),
        Event::Pointer { column: 0 },
        Event::Key(Key::PageUp),
        Event::Other,
        Event::Failed,
    ];
    for round in 0..6u16 {
        for (i, e) in inputs.iter().enumerate() {
            a.handle_event(*e, (i + round as usize) % 3 != 0);
            assert!(a.is_wf());
            assert!(a.selected() < 7);
            assert!(a.data_row() <= a.data_rows().saturating_sub(1));
        }
        a.set_viewport(round * 9, 60 + round * 5);
        assert!(a.is_wf());
        a.resize_data(1 + round as usize);
        assert!(a.is_wf());
    }
}

#[test]
fn sixteen_bytes_need_seventy_six_columns() {
    assert_eq!(row_width_for(0), 8);
    assert_eq!(row_width_for(2), 8);
    assert_eq!(row_width_for(75), 8);
    assert_eq!(row_width_for(76), 16);
    assert_eq!(row_width_for(u16::MAX), 16);
    for w in 0..200u16 {
        let available = w.saturating_sub(3);
        let expected = if available >= 8 + 1 + 16 * 3 + 16 { 16 } else { 8 };
        assert_eq!(row_width_for(w), expected);
    }
}
