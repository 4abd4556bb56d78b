use discourse_ui::backend::MemoryBackend;
use discourse_ui::choice::Choice;
use discourse_ui::events::{KeyCode, KeyEvent, ScriptedEvents};
use discourse_ui::expand::Expand;
use discourse_ui::question::{Answer, ExpandItem, Question, QuestionKind};

fn key(code: KeyCode) -> KeyEvent {
    KeyEvent::new(code)
}

fn built_expand(default: char) -> Expand {
    let q = Question::expand(String::from("action"))
        .choice('o', String::from("Overwrite"))
        .choice('A', String::from("Abort"))
        .default_separator()
        .choice('x', String::from("Examine"))
        .default(default)
        .build();
    match q.kind {
        QuestionKind::Expand(e) => e,
        _ => panic!("expected an expand"),
    }
}

#[test]
fn builder_folds_keys_to_lowercase() {
    let e = built_expand('h');
    assert_eq!(e.choices.len(), 4);
    match &e.choices.choices[1] {
        Choice::Choice(item) => {
            assert_eq!(item.key, 'a');
            assert_eq!(item.name, "Abort");
        },
        _ => panic!("expected an entry"),
    }
    assert_eq!(e.default, 'h');
}

#[test]
fn builder_tracks_used_keys() {
    let b = Question::expand(String::from("action")).choice('o', String::from("Overwrite"));
    // The key is found case-folded; fresh keys are not.
    assert!(b.has_choice_key('o'));
    assert!(b.has_choice_key('O'));
    assert!(!b.has_choice_key('z'));
}

#[test]
fn builder_choices_appends_a_whole_run_folded() {
    let b = Question::expand(String::from("action")).choices(vec![
        Choice::Choice(ExpandItem { key: 'O', name: String::from("Overwrite") }),
        Choice::DefaultSeparator,
        Choice::Choice(ExpandItem { key: 'd', name: String::from("Diff") }),
    ]);
    assert!(b.has_choice_key('o'));
    assert!(b.has_choice_key('D'));
    assert!(!b.has_choice_key('h'));
    let q = b.build();
    let e = match q.kind {
        QuestionKind::Expand(e) => e,
        _ => panic!("expected an expand"),
    };
    assert_eq!(e.choices.len(), 3);
    match &e.choices.choices[0] {
        Choice::Choice(item) => assert_eq!(item.key, 'o'),
        _ => panic!("expected an entry"),
    }
}

#[test]
fn typing_a_key_and_submitting_picks_that_entry() {
    let e = built_expand('h');
    let mut events = ScriptedEvents::new(vec![key(KeyCode::Char('A')), key(KeyCode::Enter)]);
    let (res, _b) = e.ask(String::from("What now?"), MemoryBackend::new(60, 20), &mut events);
    match res.unwrap() {
        Answer::ExpandItem(item) => {
            assert_eq!(item.key, 'a');
            assert_eq!(item.name, "Abort");
        },
        _ => panic!("expected an expand item"),
    }
}

#[test]
fn help_expands_the_list_and_the_session_goes_on() {
    // With the default `h`, a bare Enter expands; the session finishes only
    // after a real key.
    let e = built_expand('h');
    let mut events = ScriptedEvents::new(vec![
        key(KeyCode::Enter),
        key(KeyCode::Char('x')),
        key(KeyCode::Enter),
    ]);
    let (res, _b) = e.ask(String::from("What now?"), MemoryBackend::new(60, 20), &mut events);
    match res.unwrap() {
        Answer::ExpandItem(item) => {
            assert_eq!(item.key, 'x');
            assert_eq!(item.name, "Examine");
        },
        _ => panic!("expected an expand item"),
    }
}

#[test]
fn escape_takes_the_default_key() {
    let e = built_expand('o');
    let mut events = ScriptedEvents::new(vec![key(KeyCode::Esc)]);
    let (res, _b) = e.ask(String::from("What now?"), MemoryBackend::new(60, 20), &mut events);
    match res.unwrap() {
        Answer::ExpandItem(item) => {
            assert_eq!(item.key, 'o');
            assert_eq!(item.name, "Overwrite");
        },
        _ => panic!("expected an expand item"),
    }
}

#[test]
fn the_hint_shows_the_default_uppercased() {
    let e = built_expand('x');
    let mut events = ScriptedEvents::new(vec![key(KeyCode::Esc)]);
    let (_res, b) = e.ask(String::from("What now?"), MemoryBackend::new(60, 20), &mut events);
    let s: String = b.written.iter().collect();
    assert!(s.contains("(oaXh)"));
}
