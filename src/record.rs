//! Question and answer records, as parsed from a bank.

use vstd::prelude::*;

verus! {

/// A question: the lines of its body and, for a multiple-choice question,
/// its options as (label, text) pairs in order.
#[derive(Clone, Debug, PartialEq, Eq)]
pub struct Question {
    pub description: Vec<String>,
    pub options: Option<Vec<(char, String)>>,
}

/// An answer: the label of the correct option (multiple-choice questions
/// only) and the lines of the explanation.
#[derive(Clone, Debug, PartialEq, Eq)]
pub struct Answer {
    pub correct_option: Option<char>,
    pub reason: Vec<String>,
}

/// What a `Question` holds, as mathematical values.
pub struct QuestionModel {
    pub description: Seq<Seq<char>>,
    pub options: Option<Seq<(char, Seq<char>)>>,
}

/// What an `Answer` holds, as mathematical values.
pub struct AnswerModel {
    pub correct_option: Option<char>,
    pub reason: Seq<Seq<char>>,
}

/// The character sequences of a sequence of strings.
pub open spec fn lines_view(v: Seq<String>) -> Seq<Seq<char>> {
    v.map_values(|s: String| s@)
}

/// The mathematical (label, text) pairs of a list of options.
pub open spec fn pairs_view(v: Seq<(char, String)>) -> Seq<(char, Seq<char>)> {
    v.map_values(|p: (char, String)| p@)
}

/// The mathematical options of an option list.
pub open spec fn options_view(o: Option<Vec<(char, String)>>) -> Option<Seq<(char, Seq<char>)>> {
    match o {
        Some(v) => Some(pairs_view(v@)),
        None => None,
    }
}

impl View for Question {
    type V = QuestionModel;

    open spec fn view(&self) -> QuestionModel {
        QuestionModel { description: lines_view(self.description@), options: options_view(self.options) }
    }
}

impl View for Answer {
    type V = AnswerModel;

    open spec fn view(&self) -> AnswerModel {
        AnswerModel { correct_option: self.correct_option, reason: lines_view(self.reason@) }
    }
}

/// Whether `c` is an option label: an uppercase ASCII letter.
pub open spec fn is_label(c: char) -> bool {
    'A' <= c <= 'Z'
}

/// No two options share a label.
pub open spec fn labels_distinct(opts: Seq<(char, Seq<char>)>) -> bool {
    forall|i: int, j: int| 0 <= i < j < opts.len() ==> opts[i].0 != opts[j].0
}

/// Some option has label `c`.
pub open spec fn has_label(opts: Seq<(char, Seq<char>)>, c: char) -> bool {
    exists|i: int| 0 <= i < opts.len() && opts[i].0 == c
}

/// A well-formed question/answer pair: options and a correct option come
/// together, there are at most 26 options, their labels are distinct, and the
/// correct option is one of them.
pub open spec fn record_wf(q: QuestionModel, a: AnswerModel) -> bool {
    match q.options {
        Some(opts) => {
            &&& opts.len() <= 26
            &&& labels_distinct(opts)
            &&& a.correct_option matches Some(c) && has_label(opts, c)
        },
        None => a.correct_option is None,
    }
}

} // verus!
