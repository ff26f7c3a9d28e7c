//! The reveal/answer state machine of the question on screen, the events
//! that drive it, and grading.

use vstd::prelude::*;
use crate::record::{Answer, Question, has_label};

verus! {

/// The state of the question on screen: whether its answer is shown, and
/// which option the user picked, if any.
#[derive(Clone, Copy, Debug, PartialEq, Eq, Structural)]
pub struct SessionState {
    pub revealed: bool,
    pub user_selection: Option<char>,
}

/// A logical input event.
#[derive(Clone, Copy, Debug, PartialEq, Eq, Structural)]
pub enum Event {
    /// Show or hide the answer.
    ToggleReveal,
    /// Pick the option with this label.
    SelectOption(char),
    /// Go on to the next question.
    Advance,
    /// End the session.
    Quit,
}

/// What the session does after an event.
#[derive(Clone, Copy, Debug, PartialEq, Eq, Structural)]
pub enum Action {
    /// Stay on the question on screen.
    Stay,
    /// Go on to the next question, with a fresh state.
    Next,
    /// End the session.
    Quit,
}

/// A key as the input source reports it.
#[derive(Clone, Copy, Debug, PartialEq, Eq, Structural)]
pub enum Key {
    /// A character key; `ctrl` holds when Control alone was held with it.
    Char { c: char, ctrl: bool },
    Enter,
    Other,
}

/// The state in which a question is entered: answer hidden, nothing picked.
pub open spec fn hidden() -> SessionState {
    SessionState { revealed: false, user_selection: None }
}

/// One transition of the state machine of the question whose options are
/// `opts`.
pub open spec fn session_step(
    s: SessionState,
    opts: Option<Seq<(char, Seq<char>)>>,
    e: Event,
) -> (SessionState, Action) {
    match e {
        Event::ToggleReveal => (SessionState { revealed: !s.revealed, user_selection: None }, Action::Stay),
        Event::SelectOption(c) => if !s.revealed && (opts matches Some(o) && has_label(o, c)) {
            (SessionState { revealed: true, user_selection: Some(c) }, Action::Stay)
        } else {
            (s, Action::Stay)
        },
        Event::Advance => (hidden(), Action::Next),
        Event::Quit => (s, Action::Quit),
    }
}

impl SessionState {
    /// A fresh state: answer hidden, nothing picked.
    pub fn new() -> (r: SessionState)
        ensures
            r == hidden(),
    {
        SessionState { revealed: false, user_selection: None }
    }

    /// Feeds one event about `question` to the state machine.
    pub fn handle(&mut self, question: &Question, event: Event) -> (a: Action)
        ensures
            (*final(self), a) == session_step(*old(self), question@.options, event),
    {
        match event {
            Event::ToggleReveal => {
                self.revealed = !self.revealed;
                self.user_selection = None;
                Action::Stay
            },
            Event::SelectOption(c) => {
                if !self.revealed {
                    if let Some(opts) = &question.options {
                        let ghost m = question@.options->0;
                        let mut k: usize = 0;
                        while k < opts.len()
                            invariant
                                k <= opts.len(),
                                m == question@.options->0,
                                question.options == Some(*opts),
                                m.len() == opts@.len(),
                                forall|j: int| 0 <= j < k ==> m[j].0 != c,
                                !self.revealed,
                                *self == *old(self),
                                event == Event::SelectOption(c),
                            decreases opts.len() - k,
                        {
                            if opts[k].0 == c {
                                assert(m[k as int].0 == c);
                                assert(has_label(m, c));
                                self.revealed = true;
                                self.user_selection = Some(c);
                                return Action::Stay;
                            }
                            k += 1;
                        }
                    }
                }
                Action::Stay
            },
            Event::Advance => {
                *self = SessionState::new();
                Action::Next
            },
            Event::Quit => Action::Quit,
        }
    }
}

/// Toggling twice restores whether the answer is shown and leaves no pick,
/// whatever had been picked.
pub proof fn lemma_toggle_twice(s: SessionState, opts: Option<Seq<(char, Seq<char>)>>)
    ensures
        ({
            let once = session_step(s, opts, Event::ToggleReveal).0;
            let twice = session_step(once, opts, Event::ToggleReveal).0;
            twice.revealed == s.revealed && twice.user_selection is None
        }),
{
}

/// A pick of an existing option on a fresh question records it and shows
/// the answer; a toggle then goes back to the fresh state, the pick undone.
pub proof fn lemma_pick_then_toggle(opts: Seq<(char, Seq<char>)>, c: char)
    requires
        has_label(opts, c),
    ensures
        ({
            let picked = session_step(hidden(), Some(opts), Event::SelectOption(c)).0;
            &&& picked == SessionState { revealed: true, user_selection: Some(c) }
            &&& session_step(picked, Some(opts), Event::ToggleReveal).0 == hidden()
        }),
{
}

/// Picking an option on a question without options changes nothing.
pub proof fn lemma_pick_without_options(s: SessionState, c: char)
    ensures
        session_step(s, None, Event::SelectOption(c)) == (s, Action::Stay),
{
}

/// Picking a label that no option carries changes nothing.
pub proof fn lemma_pick_unknown_label(s: SessionState, opts: Seq<(char, Seq<char>)>, c: char)
    requires
        !has_label(opts, c),
    ensures
        session_step(s, Some(opts), Event::SelectOption(c)) == (s, Action::Stay),
{
}

/// `c` in upper case where it is an ASCII lowercase letter.
pub open spec fn ascii_upper(c: char) -> char {
    if 'a' <= c <= 'z' {
        ((c as u32) - 32) as u8 as char
    } else {
        c
    }
}

/// The event that a key stands for, if any: Control-C quits, space shows or
/// hides the answer, Enter goes on, and any other character picks the
/// option of that letter, in either case.
pub open spec fn event_of_key(k: Key) -> Option<Event> {
    match k {
        Key::Char { c, ctrl } => if c == 'c' && ctrl {
            Some(Event::Quit)
        } else if c == ' ' {
            Some(Event::ToggleReveal)
        } else {
            Some(Event::SelectOption(ascii_upper(c)))
        },
        Key::Enter => Some(Event::Advance),
        Key::Other => None,
    }
}

/// Translates a key into its event.
pub fn decode_key(k: Key) -> (r: Option<Event>)
    ensures
        r == event_of_key(k),
{
    match k {
        Key::Char { c, ctrl } => {
            if c == 'c' && ctrl {
                Some(Event::Quit)
            } else if c == ' ' {
                Some(Event::ToggleReveal)
            } else if c >= 'a' && c <= 'z' {
                let b: u8 = ((c as u32) - 32) as u8;
                Some(Event::SelectOption(b as char))
            } else {
                Some(Event::SelectOption(c))
            }
        },
        Key::Enter => Some(Event::Advance),
        Key::Other => None,
    }
}

/// The verdict on a pick: whether it is the correct option; none where
/// nothing was picked or the question has no correct option.
pub open spec fn verdict(correct_option: Option<char>, user_selection: Option<char>) -> Option<bool> {
    match (correct_option, user_selection) {
        (Some(c), Some(u)) => Some(u == c),
        _ => None,
    }
}

/// Grades the user's pick against the correct option.
pub fn grade(correct_option: Option<char>, user_selection: Option<char>) -> (r: Option<bool>)
    ensures
        r == verdict(correct_option, user_selection),
{
    match (correct_option, user_selection) {
        (Some(c), Some(u)) => Some(u == c),
        _ => None,
    }
}

/// What the answer pane shows.
#[derive(Clone, Copy, Debug, PartialEq, Eq, Structural)]
pub enum AnswerPane {
    /// Answer hidden, on a multiple-choice question: the user is asked to pick.
    PickPrompt,
    /// Answer hidden, on a question without options: the user is told to reveal it.
    RevealPrompt,
    /// Answer shown: the correct option and the pick, if any, with the
    /// verdict, above the reason.
    Shown { correct_option: Option<char>, user_selection: Option<char>, verdict: Option<bool> },
}

/// The answer pane of an answer whose correct option is `answer_correct`,
/// in state `s`.
pub open spec fn pane_of(answer_correct: Option<char>, s: SessionState) -> AnswerPane {
    if !s.revealed {
        if answer_correct is Some {
            AnswerPane::PickPrompt
        } else {
            AnswerPane::RevealPrompt
        }
    } else {
        AnswerPane::Shown {
            correct_option: answer_correct,
            user_selection: s.user_selection,
            verdict: verdict(answer_correct, s.user_selection),
        }
    }
}

/// Decides what the answer pane shows for `answer` in state `s`.
pub fn answer_pane(answer: &Answer, s: &SessionState) -> (r: AnswerPane)
    ensures
        r == pane_of(answer.correct_option, *s),
{
    if !s.revealed {
        if answer.correct_option.is_some() {
            AnswerPane::PickPrompt
        } else {
            AnswerPane::RevealPrompt
        }
    } else {
        AnswerPane::Shown {
            correct_option: answer.correct_option,
            user_selection: s.user_selection,
            verdict: grade(answer.correct_option, s.user_selection),
        }
    }
}

} // verus!
