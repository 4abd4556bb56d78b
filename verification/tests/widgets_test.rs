use discourse_ui::backend::{Backend, MemoryBackend, Size};
use discourse_ui::choice::Choice;
use discourse_ui::events::{KeyCode, KeyEvent};
use discourse_ui::layout::Layout;
use discourse_ui::widget::Widget;
use discourse_ui::widgets::{
    lower_ascii, no_filter, parse_usize, upper_ascii, usize_digits, CharInput, StringInput, Text,
};

fn layout_80x24() -> Layout {
    Layout::new(0, Size { width: 80, height: 24 })
}

#[test]
fn no_filter_lets_everything_through() {
    assert_eq!(no_filter('x'), Some('x'));
    assert_eq!(no_filter('\n'), Some('\n'));
}

#[test]
fn digits_of_zero() {
    let v = usize_digits(0);
    assert_eq!(v, vec!['0']);
}

#[test]
fn digits_of_a_larger_number() {
    let v = usize_digits(907);
    assert_eq!(v, vec!['9', '0', '7']);
}

#[test]
fn parse_rejects_empty_input() {
    assert_eq!(parse_usize(&vec![]), None);
}

#[test]
fn parse_reads_decimal() {
    assert_eq!(parse_usize(&vec!['1', '2']), Some(12));
    assert_eq!(parse_usize(&vec!['0', '7']), Some(7));
}

#[test]
fn parse_rejects_non_digits() {
    assert_eq!(parse_usize(&vec!['1', 'a']), None);
}

#[test]
fn parse_rejects_overflow() {
    let huge: Vec<char> = "99999999999999999999999".chars().collect();
    assert_eq!(parse_usize(&huge), None);
}

#[test]
fn case_folding_is_mutually_inverse_on_letters() {
    assert_eq!(lower_ascii('B'), 'b');
    assert_eq!(upper_ascii('b'), 'B');
    assert_eq!(lower_ascii('!'), '!');
    assert_eq!(upper_ascii('!'), '!');
}

#[test]
fn text_renders_its_line_and_truncates_to_the_width() {
    let t = Text::new(String::from("hello world"));
    let mut b = MemoryBackend::new(6, 10);
    let l = Layout::new(0, Size { width: 6, height: 10 });
    <Text as Widget<MemoryBackend>>::render(&t, l, &mut b).unwrap();
    let s: String = b.written.iter().collect();
    // One column is kept free at the right edge.
    assert_eq!(s, "hello");
    assert_eq!(<Text as Widget<MemoryBackend>>::height(&t, l), 1);
}

#[test]
fn separator_text_is_cut_at_its_first_line_break() {
    let sep: Choice<Text> = Choice::Separator(String::from("ab\ncd"));
    let mut b = MemoryBackend::new(80, 24);
    <Choice<Text> as Widget<MemoryBackend>>::render(&sep, layout_80x24(), &mut b).unwrap();
    let s: String = b.written.iter().collect();
    assert_eq!(s, "ab");
}

#[test]
fn string_input_edits_like_a_line_editor() {
    let mut input = StringInput::new(false);
    let keys = ['a', 'b', 'c'];
    for k in keys {
        assert!(input.handle_edit_key(KeyEvent::new(KeyCode::Char(k))));
    }
    assert_eq!(input.value_chars(), &vec!['a', 'b', 'c']);
    // Move left twice and insert.
    assert!(input.handle_edit_key(KeyEvent::new(KeyCode::Left)));
    assert!(input.handle_edit_key(KeyEvent::new(KeyCode::Left)));
    assert!(input.handle_edit_key(KeyEvent::new(KeyCode::Char('x'))));
    assert_eq!(input.value_chars(), &vec!['a', 'x', 'b', 'c']);
    // Delete the character under the cursor, then the one before it.
    assert!(input.handle_edit_key(KeyEvent::new(KeyCode::Delete)));
    assert!(input.handle_edit_key(KeyEvent::new(KeyCode::Backspace)));
    assert_eq!(input.value_chars(), &vec!['a', 'c']);
    // Boundary moves are no-ops and report unhandled.
    assert!(input.handle_edit_key(KeyEvent::new(KeyCode::End)));
    assert!(!input.handle_edit_key(KeyEvent::new(KeyCode::Right)));
}

#[test]
fn digit_restricted_input_rejects_letters() {
    let mut input = StringInput::new(true);
    assert!(!input.handle_edit_key(KeyEvent::new(KeyCode::Char('a'))));
    assert!(input.handle_edit_key(KeyEvent::new(KeyCode::Char('7'))));
    assert_eq!(input.value_chars(), &vec!['7']);
}

#[test]
fn char_input_folds_and_filters() {
    let mut input = CharInput::new(vec!['a', 'b', 'h']);
    assert!(!input.handle_input_key(KeyEvent::new(KeyCode::Char('z'))));
    assert_eq!(input.value(), None);
    assert!(input.handle_input_key(KeyEvent::new(KeyCode::Char('B'))));
    assert_eq!(input.value(), Some('b'));
    assert!(input.handle_input_key(KeyEvent::new(KeyCode::Backspace)));
    assert_eq!(input.value(), None);
    assert!(!input.handle_input_key(KeyEvent::new(KeyCode::Backspace)));
}

#[test]
fn choice_map_and_accessors() {
    let c: Choice<u32> = Choice::Choice(3);
    assert!(!c.is_separator());
    let mapped = c.map(|x| x + 1);
    match mapped {
        Choice::Choice(v) => assert_eq!(v, 4),
        _ => panic!("expected a choice"),
    }
    let sep: Choice<u32> = Choice::DefaultSeparator;
    assert!(sep.is_separator());
    let c2: Choice<u32> = Choice::Choice(9);
    match c2.as_ref() {
        Choice::Choice(v) => assert_eq!(*v, 9),
        _ => panic!("expected a choice"),
    }
    assert_eq!(c2.unwrap_choice(), 9);
}

#[test]
fn memory_backend_tracks_cursor_and_modes() {
    let mut b = MemoryBackend::new(20, 5);
    b.move_cursor_to(3, 2).unwrap();
    assert_eq!(b.get_cursor_pos().unwrap(), (3, 2));
    b.move_cursor_up(4).unwrap();
    assert_eq!(b.get_cursor_pos().unwrap(), (3, 0));
    b.enable_raw_mode().unwrap();
    b.hide_cursor().unwrap();
    assert_eq!(b.raw_log, vec![true]);
    assert_eq!(b.visibility_log, vec![false]);
    assert_eq!(b.size().unwrap(), Size { width: 20, height: 5 });
}
