use discourse_ui::backend::{Backend, MemoryBackend, Size};
use discourse_ui::choice::{Choice, ChoiceList};
use discourse_ui::events::{KeyCode, KeyEvent};
use discourse_ui::layout::Layout;
use discourse_ui::select::{ListSpec, Select};
use discourse_ui::widget::Widget;
use discourse_ui::widgets::Text;

fn text(s: &str) -> Choice<Text> {
    Choice::Choice(Text::new(String::from(s)))
}

fn list_of(choices: Vec<Choice<Text>>, should_loop: bool) -> ChoiceList<Text> {
    let mut l: ChoiceList<Text> = Default::default();
    for c in choices {
        l.push(c);
    }
    l.set_should_loop(should_loop);
    l
}

fn key(code: KeyCode) -> KeyEvent {
    KeyEvent::new(code)
}

#[test]
fn wraparound_skips_separators_both_ways() {
    // Hovering "a", Up wraps past the separator to "c"; Down from "c" wraps
    // back to "a".
    let l = list_of(
        vec![text("a"), Choice::DefaultSeparator, text("b"), text("c")],
        true,
    );
    let mut sel = Select::new(l);
    assert_eq!(sel.get_at(), 0);
    assert!(sel.handle_nav_key(key(KeyCode::Up)));
    assert_eq!(sel.get_at(), 3);
    assert!(sel.handle_nav_key(key(KeyCode::Down)));
    assert_eq!(sel.get_at(), 0);
}

#[test]
fn n_next_moves_return_to_the_start_in_a_looping_list() {
    // Three selectable entries: three consecutive "next" moves from any
    // starting point land back on it.
    for start in [0usize, 2, 3] {
        let l = list_of(
            vec![text("a"), Choice::DefaultSeparator, text("b"), text("c")],
            true,
        );
        let mut sel = Select::new(l);
        sel.set_at(start);
        for _ in 0..3 {
            sel.handle_nav_key(key(KeyCode::Down));
        }
        assert_eq!(sel.get_at(), start);
    }
}

#[test]
fn next_moves_clamp_at_the_end_of_a_non_looping_list() {
    let l = list_of(vec![text("a"), text("b"), text("c")], false);
    let mut sel = Select::new(l);
    sel.set_at(2);
    for _ in 0..3 {
        // At the boundary the key is a no-op and reported unhandled.
        assert!(!sel.handle_nav_key(key(KeyCode::Down)));
    }
    assert_eq!(sel.get_at(), 2);
    // And symmetrically at the top.
    sel.set_at(0);
    assert!(!sel.handle_nav_key(key(KeyCode::Up)));
    assert_eq!(sel.get_at(), 0);
}

#[test]
fn home_and_end_jump_to_the_first_and_last_selectable() {
    let l = list_of(
        vec![
            Choice::Separator(String::from("top")),
            text("a"),
            text("b"),
            Choice::DefaultSeparator,
        ],
        true,
    );
    let mut sel = Select::new(l);
    assert_eq!(sel.get_at(), 1);
    assert!(sel.handle_nav_key(key(KeyCode::End)));
    assert_eq!(sel.get_at(), 2);
    assert!(sel.handle_nav_key(key(KeyCode::Home)));
    assert_eq!(sel.get_at(), 1);
}

#[test]
fn page_down_jumps_about_one_page_of_rows() {
    let mut entries = Vec::new();
    for _ in 0..30 {
        entries.push(text("x"));
    }
    let mut l = list_of(entries, true);
    l.set_page_size(5);
    let mut sel = Select::new(l);
    assert!(sel.handle_nav_key(key(KeyCode::PageDown)));
    assert_eq!(sel.get_at(), 5);
    assert!(sel.handle_nav_key(key(KeyCode::PageUp)));
    assert_eq!(sel.get_at(), 0);
}

#[test]
fn height_is_capped_by_the_page_size() {
    let mut entries = Vec::new();
    for _ in 0..30 {
        entries.push(text("x"));
    }
    let mut l = list_of(entries, true);
    l.set_page_size(5);
    let sel = Select::new(l);
    let layout = Layout::new(0, Size { width: 40, height: 20 });
    assert_eq!(<Select<ChoiceList<Text>> as Widget<MemoryBackend>>::height(&sel, layout), 5);
}

#[test]
fn short_lists_render_whole() {
    let l = list_of(vec![text("a"), text("b")], true);
    let sel = Select::new(l);
    let layout = Layout::new(0, Size { width: 40, height: 20 });
    assert_eq!(<Select<ChoiceList<Text>> as Widget<MemoryBackend>>::height(&sel, layout), 2);
}

#[test]
fn rendering_marks_the_hovered_entry() {
    let l = list_of(vec![text("aa"), text("bb")], true);
    let sel = Select::new(l);
    let layout = Layout::new(0, Size { width: 40, height: 20 });
    let mut b = MemoryBackend::new(40, 20);
    <Select<ChoiceList<Text>> as Widget<MemoryBackend>>::render(&sel, layout, &mut b).unwrap();
    let s: String = b.written.iter().collect();
    let marked = format!("{} aa", discourse_ui::symbols::ARROW);
    assert!(s.contains(&marked));
    assert!(s.contains("  bb"));
}

#[test]
fn empty_lists_still_occupy_one_row() {
    let l = list_of(vec![], true);
    let sel = Select::new(l);
    let layout = Layout::new(0, Size { width: 40, height: 20 });
    assert_eq!(sel.get_at(), 0);
    assert_eq!(<Select<ChoiceList<Text>> as Widget<MemoryBackend>>::height(&sel, layout), 1);
}

#[test]
fn render_occupies_exactly_the_declared_height() {
    // Height/render consistency, observed through the backend: after a render
    // the cursor sits on the widget's last row, `height - 1` rows below its
    // first.
    let mut entries = Vec::new();
    for i in 0..12 {
        if i % 4 == 3 {
            entries.push(Choice::DefaultSeparator);
        } else {
            entries.push(text("entry"));
        }
    }
    let mut l = list_of(entries, true);
    l.set_page_size(7);
    let sel = Select::new(l);
    let layout = Layout::new(0, Size { width: 40, height: 20 });
    let h = <Select<ChoiceList<Text>> as Widget<MemoryBackend>>::height(&sel, layout);
    let mut b = MemoryBackend::new(40, 20);
    <Select<ChoiceList<Text>> as Widget<MemoryBackend>>::render(&sel, layout, &mut b).unwrap();
    assert_eq!(b.get_cursor_pos().unwrap().1, h - 1);
}

#[test]
fn choice_list_accessors_round_trip() {
    let mut l: ChoiceList<Text> = Default::default();
    assert_eq!(l.page_size(), 15);
    assert_eq!(l.default_index(), None);
    assert!(l.should_loop());
    assert_eq!(l.len(), 0);
    l.set_page_size(7);
    l.set_default(2);
    l.set_should_loop(false);
    l.push(text("a"));
    assert_eq!(l.page_size(), 7);
    assert_eq!(l.default_index(), Some(2));
    assert!(!l.should_loop());
    assert_eq!(l.len(), 1);
    assert_eq!(ListSpec::len(&l), 1);
}
