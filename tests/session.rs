use quiz::record::{Answer, Question};
use quiz::session::{answer_pane, decode_key, grade, Action, AnswerPane, Event, Key, SessionState};

fn s(x: &str) -> String {
    String::from(x)
}

fn mc() -> Question {
    Question { description: vec![s("Q")], options: Some(vec![('A', s("foo")), ('B', s("bar"))]) }
}

fn free() -> Question {
    Question { description: vec![s("Q")], options: None }
}

#[test]
fn fresh_state_is_hidden() {
    assert_eq!(SessionState::new(), SessionState { revealed: false, user_selection: None });
}

#[test]
fn toggle_twice_returns_to_hidden() {
    let q = mc();
    let mut st = SessionState::new();
    assert_eq!(st.handle(&q, Event::SelectOption('B')), Action::Stay);
    assert_eq!(st, SessionState { revealed: true, user_selection: Some('B') });
    st.handle(&q, Event::ToggleReveal);
    assert_eq!(st, SessionState { revealed: false, user_selection: None });
    st.handle(&q, Event::ToggleReveal);
    st.handle(&q, Event::ToggleReveal);
    assert_eq!(st, SessionState { revealed: false, user_selection: None });
}

#[test]
fn select_without_options_is_noop() {
    let q = free();
    let mut st = SessionState::new();
    assert_eq!(st.handle(&q, Event::SelectOption('A')), Action::Stay);
    assert_eq!(st, SessionState::new());
}

#[test]
fn select_unknown_label_is_noop() {
    let q = mc();
    let mut st = SessionState::new();
    assert_eq!(st.handle(&q, Event::SelectOption('Z')), Action::Stay);
    assert_eq!(st, SessionState::new());
}

#[test]
fn select_when_revealed_is_noop() {
    let q = mc();
    let mut st = SessionState::new();
    st.handle(&q, Event::ToggleReveal);
    st.handle(&q, Event::SelectOption('A'));
    assert_eq!(st, SessionState { revealed: true, user_selection: None });
}

#[test]
fn advance_and_quit() {
    let q = mc();
    let mut st = SessionState::new();
    st.handle(&q, Event::SelectOption('A'));
    assert_eq!(st.handle(&q, Event::Quit), Action::Quit);
    assert_eq!(st.user_selection, Some('A'));
    assert_eq!(st.handle(&q, Event::Advance), Action::Next);
    assert_eq!(st, SessionState::new());
}

#[test]
fn grading() {
    assert_eq!(grade(Some('B'), Some('B')), Some(true));
    assert_eq!(grade(Some('B'), Some('A')), Some(false));
    assert_eq!(grade(Some('B'), None), None);
    assert_eq!(grade(None, None), None);
}

#[test]
fn keys_to_events() {
    assert_eq!(decode_key(Key::Char { c: 'c', ctrl: true }), Some(Event::Quit));
    assert_eq!(decode_key(Key::Char { c: 'c', ctrl: false }), Some(Event::SelectOption('C')));
    assert_eq!(decode_key(Key::Char { c: ' ', ctrl: false }), Some(Event::ToggleReveal));
    assert_eq!(decode_key(Key::Char { c: 'B', ctrl: false }), Some(Event::SelectOption('B')));
    assert_eq!(decode_key(Key::Char { c: 'z', ctrl: true }), Some(Event::SelectOption('Z')));
    assert_eq!(decode_key(Key::Char { c: '1', ctrl: false }), Some(Event::SelectOption('1')));
    assert_eq!(decode_key(Key::Enter), Some(Event::Advance));
    assert_eq!(decode_key(Key::Other), None);
}

#[test]
fn answer_panes() {
    let mc_answer = Answer { correct_option: Some('B'), reason: vec![] };
    let free_answer = Answer { correct_option: None, reason: vec![s("r")] };
    let hidden = SessionState::new();
    assert_eq!(answer_pane(&mc_answer, &hidden), AnswerPane::PickPrompt);
    assert_eq!(answer_pane(&free_answer, &hidden), AnswerPane::RevealPrompt);
    let wrong = SessionState { revealed: true, user_selection: Some('A') };
    assert_eq!(
        answer_pane(&mc_answer, &wrong),
        AnswerPane::Shown { correct_option: Some('B'), user_selection: Some('A'), verdict: Some(false) }
    );
    let shown = SessionState { revealed: true, user_selection: None };
    assert_eq!(
        answer_pane(&free_answer, &shown),
        AnswerPane::Shown { correct_option: None, user_selection: None, verdict: None }
    );
}
