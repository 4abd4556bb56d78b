use discourse_ui::backend::MemoryBackend;
use discourse_ui::error::ErrorKind;
use discourse_ui::events::{KeyCode, KeyEvent, ScriptedEvents};
use discourse_ui::question::{Answer, Question, QuestionKind};
use discourse_ui::rawlist::Rawlist;
use discourse_ui::choice::Choice;
use discourse_ui::events::KeyModifiers;

fn key(code: KeyCode) -> KeyEvent {
    KeyEvent::new(code)
}

fn built_rawlist() -> Rawlist {
    let q = Question::rawlist(String::from("dish"))
        .choice(String::from("pizza"))
        .choice(String::from("pasta"))
        .default_separator()
        .choice(String::from("salad"))
        .build();
    match q.kind {
        QuestionKind::Rawlist(l) => l,
        _ => panic!("expected a rawlist"),
    }
}

#[test]
fn builder_numbers_entries_and_keeps_separators() {
    let l = built_rawlist();
    assert_eq!(l.choices.len(), 4);
    match &l.choices.choices[0] {
        Choice::Choice((n, s)) => {
            assert_eq!(*n, 0);
            assert_eq!(s, "pizza");
        },
        _ => panic!("expected an entry"),
    }
    match &l.choices.choices[2] {
        Choice::DefaultSeparator => {},
        _ => panic!("expected the separator"),
    }
    match &l.choices.choices[3] {
        Choice::Choice((n, s)) => {
            assert_eq!(*n, 2);
            assert_eq!(s, "salad");
        },
        _ => panic!("expected an entry"),
    }
}

#[test]
fn builder_choices_numbers_a_whole_run() {
    let q = Question::rawlist(String::from("dish"))
        .choices(vec![
            Choice::Choice(String::from("a")),
            Choice::Separator(String::from("---")),
            Choice::Choice(String::from("b")),
        ])
        .build();
    let l = match q.kind {
        QuestionKind::Rawlist(l) => l,
        _ => panic!("expected a rawlist"),
    };
    assert_eq!(l.choices.len(), 3);
    match &l.choices.choices[2] {
        Choice::Choice((n, s)) => {
            assert_eq!(*n, 1);
            assert_eq!(s, "b");
        },
        _ => panic!("expected an entry"),
    }
}

#[test]
fn builder_options_round_trip() {
    let q = Question::rawlist(String::from("dish"))
        .choice(String::from("a"))
        .page_size(9)
        .should_loop(false)
        .default(0)
        .build();
    let l = match q.kind {
        QuestionKind::Rawlist(l) => l,
        _ => panic!("expected a rawlist"),
    };
    assert_eq!(l.choices.page_size(), 9);
    assert!(!l.choices.should_loop());
    assert_eq!(l.choices.default_index(), Some(0));
}

#[test]
fn picking_by_arrow_keys() {
    let l = built_rawlist();
    let mut events = ScriptedEvents::new(vec![key(KeyCode::Down), key(KeyCode::Enter)]);
    let (res, _b) = l.ask(String::from("Pick a dish"), MemoryBackend::new(60, 20), &mut events);
    match res.unwrap() {
        Answer::ListItem(item) => {
            assert_eq!(item.index, 1);
            assert_eq!(item.name, "pasta");
        },
        _ => panic!("expected a list item"),
    }
}

#[test]
fn picking_by_typed_number() {
    let l = built_rawlist();
    let mut events = ScriptedEvents::new(vec![key(KeyCode::Char('3')), key(KeyCode::Enter)]);
    let (res, _b) = l.ask(String::from("Pick a dish"), MemoryBackend::new(60, 20), &mut events);
    match res.unwrap() {
        Answer::ListItem(item) => {
            // The third entry sits past the separator.
            assert_eq!(item.index, 3);
            assert_eq!(item.name, "salad");
        },
        _ => panic!("expected a list item"),
    }
}

#[test]
fn invalid_number_shows_an_error_then_recovers() {
    let l = built_rawlist();
    let mut events = ScriptedEvents::new(vec![
        key(KeyCode::Char('9')),
        key(KeyCode::Enter),
        key(KeyCode::Backspace),
        key(KeyCode::Char('1')),
        key(KeyCode::Enter),
    ]);
    let (res, b) = l.ask(String::from("Pick a dish"), MemoryBackend::new(60, 20), &mut events);
    match res.unwrap() {
        Answer::ListItem(item) => {
            assert_eq!(item.index, 0);
            assert_eq!(item.name, "pizza");
        },
        _ => panic!("expected a list item"),
    }
    let crosses = b.written.iter().filter(|c| **c == discourse_ui::symbols::CROSS).count();
    assert_eq!(crosses, 1);
}

#[test]
fn escape_takes_the_default() {
    let q = Question::rawlist(String::from("dish"))
        .choice(String::from("a"))
        .choice(String::from("b"))
        .default(1)
        .build();
    let l = match q.kind {
        QuestionKind::Rawlist(l) => l,
        _ => panic!("expected a rawlist"),
    };
    let mut events = ScriptedEvents::new(vec![key(KeyCode::Esc)]);
    let (res, _b) = l.ask(String::from("Pick"), MemoryBackend::new(60, 20), &mut events);
    match res.unwrap() {
        Answer::ListItem(item) => {
            assert_eq!(item.index, 1);
            assert_eq!(item.name, "b");
        },
        _ => panic!("expected a list item"),
    }
}

#[test]
fn cancelling_returns_interrupted() {
    let l = built_rawlist();
    let mut events = ScriptedEvents::new(vec![KeyEvent {
        code: KeyCode::Char('c'),
        modifiers: KeyModifiers { control: true, shift: false, alt: false },
    }]);
    let (res, b) = l.ask(String::from("Pick"), MemoryBackend::new(60, 20), &mut events);
    assert_eq!(res.unwrap_err(), ErrorKind::Interrupted);
    assert!(!b.raw);
}
