//! The question-bank parser.
//!
//! A bank is split into blocks at blank lines; each block is read line by
//! line through a five-state machine:
//!
//! ```text
//! Start -> ReadDescription -> ReadOptions -> ReadCorrectOption -> ReadReason
//!               |                                                     ^
//!               +-----------------------------------------------------+
//! ```
//!
//! Any malformed block fails the whole bank.

use vstd::prelude::*;
use crate::record::{Answer, AnswerModel, Question, QuestionModel, has_label, is_label, labels_distinct, lines_view, options_view, pairs_view, record_wf};
use crate::text::{chars_of, same_chars, split_blank, split_blocks, split_chars, split_on, string_of, views};

verus! {

/// Why a bank is malformed.
#[derive(Clone, Copy, Debug, PartialEq, Eq, Structural)]
pub enum FormatError {
    /// A block does not start with the line `Question`.
    MissingHeader,
    /// An option line does not start with an uppercase letter.
    BadOptionLabel,
    /// A question has more than 26 options.
    TooManyOptions,
    /// Two options of a question share a label.
    DuplicateOptionLabel,
    /// The correct-option line names no option of the question.
    CorrectOptionNotFound,
    /// A block ends before its answer's reason is reached.
    PrematureEnd,
    /// A question without options has an empty reason.
    EmptyReason,
}

/// Where the parser stands within a block.
#[derive(Clone, Copy, Debug, PartialEq, Eq, Structural)]
pub enum ParseState {
    Start,
    ReadDescription,
    ReadOptions,
    ReadCorrectOption,
    ReadReason,
}

/// A record under construction, as mathematical values.
pub struct DraftModel {
    pub state: ParseState,
    pub description: Seq<Seq<char>>,
    pub options: Option<Seq<(char, Seq<char>)>>,
    pub correct_option: Option<char>,
    pub reason: Seq<Seq<char>>,
}

/// The line that opens a block.
pub open spec fn question_word() -> Seq<char> {
    seq!['Q', 'u', 'e', 's', 't', 'i', 'o', 'n']
}

/// The line that opens the answer.
pub open spec fn answer_word() -> Seq<char> {
    seq!['A', 'n', 's', 'w', 'e', 'r']
}

/// The line that opens the options of a multiple-choice question.
pub open spec fn options_mark() -> Seq<char> {
    seq!['=', '=', '=']
}

/// The draft at the start of a block.
pub open spec fn initial_draft() -> DraftModel {
    DraftModel {
        state: ParseState::Start,
        description: Seq::empty(),
        options: None,
        correct_option: None,
        reason: Seq::empty(),
    }
}

/// The characters after the first `'.'` of `s` (none if there is no `'.'`).
pub open spec fn after_first_dot(s: Seq<char>) -> Seq<char>
    decreases s.len(),
{
    if s.len() == 0 {
        Seq::empty()
    } else if s[0] == '.' {
        s.drop_first()
    } else {
        after_first_dot(s.drop_first())
    }
}

/// The text of an option line: what follows its first `'.'`, with every
/// further `'.'` read as a space.
pub open spec fn option_text(line: Seq<char>) -> Seq<char> {
    after_first_dot(line).map_values(|c: char| if c == '.' { ' ' } else { c })
}

/// An option line `L.text`: its label is its first character, which must be
/// an uppercase letter.
pub open spec fn option_of_line(line: Seq<char>) -> Result<(char, Seq<char>), FormatError> {
    if line.len() == 0 || !is_label(line[0]) {
        Err(FormatError::BadOptionLabel)
    } else {
        Ok((line[0], option_text(line)))
    }
}

/// The correct option given on `line` for the options `opts`, once the
/// options are checked: at most 26, labels distinct, and the line's first
/// character one of the labels.
pub open spec fn correct_of_line(opts: Seq<(char, Seq<char>)>, line: Seq<char>) -> Result<char, FormatError> {
    if opts.len() > 26 {
        Err(FormatError::TooManyOptions)
    } else if !labels_distinct(opts) {
        Err(FormatError::DuplicateOptionLabel)
    } else if line.len() == 0 || !has_label(opts, line[0]) {
        Err(FormatError::CorrectOptionNotFound)
    } else {
        Ok(line[0])
    }
}

/// The options of a draft, empty where it has none.
pub open spec fn options_or_empty(o: Option<Seq<(char, Seq<char>)>>) -> Seq<(char, Seq<char>)> {
    match o {
        Some(opts) => opts,
        None => Seq::empty(),
    }
}

/// One transition of the block state machine.
pub open spec fn step_line(d: DraftModel, line: Seq<char>) -> Result<DraftModel, FormatError> {
    match d.state {
        ParseState::Start => if line == question_word() {
            Ok(DraftModel { state: ParseState::ReadDescription, ..d })
        } else {
            Err(FormatError::MissingHeader)
        },
        ParseState::ReadDescription => if line == answer_word() {
            Ok(DraftModel { state: ParseState::ReadReason, ..d })
        } else if line == options_mark() {
            Ok(DraftModel { state: ParseState::ReadOptions, options: Some(Seq::empty()), ..d })
        } else {
            Ok(DraftModel { description: d.description.push(line), ..d })
        },
        ParseState::ReadOptions => if line == answer_word() {
            Ok(DraftModel { state: ParseState::ReadCorrectOption, ..d })
        } else {
            match option_of_line(line) {
                Ok(o) => Ok(DraftModel { options: Some(options_or_empty(d.options).push(o)), ..d }),
                Err(e) => Err(e),
            }
        },
        ParseState::ReadCorrectOption => match correct_of_line(options_or_empty(d.options), line) {
            Ok(c) => Ok(DraftModel { state: ParseState::ReadReason, correct_option: Some(c), ..d }),
            Err(e) => Err(e),
        },
        ParseState::ReadReason => Ok(DraftModel { reason: d.reason.push(line), ..d }),
    }
}

/// Runs the block state machine from `d` over `lines`; the first failing
/// line decides the error.
pub open spec fn run_lines(d: DraftModel, lines: Seq<Seq<char>>) -> Result<DraftModel, FormatError>
    decreases lines.len(),
{
    if lines.len() == 0 {
        Ok(d)
    } else {
        match step_line(d, lines[0]) {
            Ok(next) => run_lines(next, lines.drop_first()),
            Err(e) => Err(e),
        }
    }
}

/// The record that a finished draft stands for, or why it is no record: the
/// machine must have reached the reason, and the reason may be empty only
/// for a multiple-choice question.
pub open spec fn finish_draft(d: DraftModel) -> Result<(QuestionModel, AnswerModel), FormatError> {
    if d.state != ParseState::ReadReason {
        Err(FormatError::PrematureEnd)
    } else if d.reason.len() == 0 && d.correct_option is None {
        Err(FormatError::EmptyReason)
    } else {
        Ok((
            QuestionModel { description: d.description, options: d.options },
            AnswerModel { correct_option: d.correct_option, reason: d.reason },
        ))
    }
}

/// The record of one block, or why it is malformed.
pub open spec fn block_record(block: Seq<char>) -> Result<(QuestionModel, AnswerModel), FormatError> {
    match run_lines(initial_draft(), split_chars(block, '\n')) {
        Ok(d) => finish_draft(d),
        Err(e) => Err(e),
    }
}

/// The records of the blocks, in order, or the error of the first malformed one.
pub open spec fn records_of(blocks: Seq<Seq<char>>) -> Result<Seq<(QuestionModel, AnswerModel)>, FormatError>
    decreases blocks.len(),
{
    if blocks.len() == 0 {
        Ok(Seq::empty())
    } else {
        match block_record(blocks[0]) {
            Err(e) => Err(e),
            Ok(p) => match records_of(blocks.drop_first()) {
                Err(e) => Err(e),
                Ok(rest) => Ok(seq![p] + rest),
            },
        }
    }
}

/// The bank that a document holds: the records of its blank-line separated
/// blocks.
pub open spec fn bank_of(text: Seq<char>) -> Result<Seq<(QuestionModel, AnswerModel)>, FormatError> {
    records_of(split_blank(text))
}

/// The mathematical records of a bank.
pub open spec fn bank_view(bank: Seq<(Question, Answer)>) -> Seq<(QuestionModel, AnswerModel)> {
    bank.map_values(|p: (Question, Answer)| p@)
}

/// A `Result` with its success value seen through its view.
pub open spec fn result_view<T: View, E>(r: Result<T, E>) -> Result<T::V, E> {
    match r {
        Ok(t) => Ok(t@),
        Err(e) => Err(e),
    }
}

fn question_chars() -> (r: Vec<char>)
    ensures
        r@ == question_word(),
{
    let r = vec!['Q', 'u', 'e', 's', 't', 'i', 'o', 'n'];
    assert(r@ =~= question_word());
    r
}

fn answer_chars() -> (r: Vec<char>)
    ensures
        r@ == answer_word(),
{
    let r = vec!['A', 'n', 's', 'w', 'e', 'r'];
    assert(r@ =~= answer_word());
    r
}

fn options_mark_chars() -> (r: Vec<char>)
    ensures
        r@ == options_mark(),
{
    let r = vec!['=', '=', '='];
    assert(r@ =~= options_mark());
    r
}

/// Reads an option line `L.text` into its label and text.
pub fn option_from_line(line: &Vec<char>) -> (r: Result<(char, String), FormatError>)
    ensures
        result_view(r) == option_of_line(line@),
{
    if line.len() == 0 || !(line[0] >= 'A' && line[0] <= 'Z') {
        return Err(FormatError::BadOptionLabel);
    }
    let mut i: usize = 0;
    assert(line@.skip(0) =~= line@);
    while i < line.len() && line[i] != '.'
        invariant
            i <= line.len(),
            after_first_dot(line@) == after_first_dot(line@.skip(i as int)),
        decreases line.len() - i,
    {
        assert(line@.skip(i as int).drop_first() =~= line@.skip(i + 1));
        i += 1;
    }
    let ghost after = after_first_dot(line@);
    let mut text: Vec<char> = Vec::new();
    let mut k: usize = i;
    if i < line.len() {
        assert(line@.skip(i as int).drop_first() =~= line@.skip(i + 1));
        k = i + 1;
    } else {
        assert(line@.skip(i as int) =~= Seq::<char>::empty());
    }
    assert(after =~= line@.skip(k as int));
    while k < line.len()
        invariant
            k <= line.len(),
            after =~= line@.skip((k - text@.len()) as int),
            k >= text@.len(),
            text@ =~= after.take(text@.len() as int).map_values(|c: char| if c == '.' { ' ' } else { c }),
        decreases line.len() - k,
    {
        let c = line[k];
        if c == '.' {
            text.push(' ');
        } else {
            text.push(c);
        }
        k += 1;
    }
    assert(after.take(text@.len() as int) =~= after);
    Ok((line[0], string_of(&text)))
}

/// The correct option that `line` gives for the options `opts`, after
/// checking the options.
pub fn correct_from_line(opts: &Vec<(char, String)>, line: &Vec<char>) -> (r: Result<char, FormatError>)
    ensures
        r == correct_of_line(pairs_view(opts@), line@),
{
    let ghost m = pairs_view(opts@);
    if opts.len() > 26 {
        return Err(FormatError::TooManyOptions);
    }
    let mut i: usize = 0;
    while i < opts.len()
        invariant
            i <= opts.len(),
            m == pairs_view(opts@),
            opts@.len() <= 26,
            forall|a: int, b: int| 0 <= a < i && a < b < m.len() ==> m[a].0 != m[b].0,
        decreases opts.len() - i,
    {
        let mut j: usize = i + 1;
        while j < opts.len()
            invariant
                i < opts.len(),
                i + 1 <= j <= opts.len(),
                m == pairs_view(opts@),
                opts@.len() <= 26,
            opts@.len() <= 26,
                forall|a: int, b: int| 0 <= a < i && a < b < m.len() ==> m[a].0 != m[b].0,
                forall|b: int| i < b < j ==> m[i as int].0 != m[b].0,
            decreases opts.len() - j,
        {
            if opts[i].0 == opts[j].0 {
                assert(m[i as int].0 == m[j as int].0);
                assert(!labels_distinct(m));
                return Err(FormatError::DuplicateOptionLabel);
            }
            j += 1;
        }
        i += 1;
    }
    assert(labels_distinct(m));
    if line.len() == 0 {
        return Err(FormatError::CorrectOptionNotFound);
    }
    let c = line[0];
    let mut k: usize = 0;
    while k < opts.len()
        invariant
            k <= opts.len(),
            m == pairs_view(opts@),
            opts@.len() <= 26,
            forall|a: int| 0 <= a < k ==> m[a].0 != c,
            labels_distinct(m),
            line@.len() > 0 && c == line@[0],
        decreases opts.len() - k,
    {
        if opts[k].0 == c {
            assert(m[k as int].0 == c);
            assert(has_label(m, c));
            return Ok(c);
        }
        k += 1;
    }
    Err(FormatError::CorrectOptionNotFound)
}

/// A record under construction.
struct Draft {
    state: ParseState,
    description: Vec<String>,
    options: Option<Vec<(char, String)>>,
    correct_option: Option<char>,
    reason: Vec<String>,
}

impl View for Draft {
    type V = DraftModel;

    closed spec fn view(&self) -> DraftModel {
        DraftModel {
            state: self.state,
            description: lines_view(self.description@),
            options: options_view(self.options),
            correct_option: self.correct_option,
            reason: lines_view(self.reason@),
        }
    }
}

impl Draft {
    fn new() -> (d: Draft)
        ensures
            d@ == initial_draft(),
    {
        let d = Draft {
            state: ParseState::Start,
            description: Vec::new(),
            options: None,
            correct_option: None,
            reason: Vec::new(),
        };
        assert(d@.description =~= Seq::<Seq<char>>::empty());
        assert(d@.reason =~= Seq::<Seq<char>>::empty());
        d
    }

    /// Feeds one line to the block state machine.
    fn step(&mut self, line: &Vec<char>) -> (r: Result<(), FormatError>)
        ensures
            match step_line(old(self)@, line@) {
                Ok(d) => r is Ok && final(self)@ == d,
                Err(e) => r == Err::<(), FormatError>(e),
            },
    {
        match self.state {
            ParseState::Start => {
                if same_chars(line, &question_chars()) {
                    self.state = ParseState::ReadDescription;
                    Ok(())
                } else {
                    Err(FormatError::MissingHeader)
                }
            },
            ParseState::ReadDescription => {
                if same_chars(line, &answer_chars()) {
                    self.state = ParseState::ReadReason;
                } else if same_chars(line, &options_mark_chars()) {
                    self.state = ParseState::ReadOptions;
                    self.options = Some(Vec::new());
                    assert(options_view(self.options) == Some(Seq::<(char, Seq<char>)>::empty()));
                } else {
                    self.description.push(string_of(line));
                    assert(lines_view(self.description@) =~= lines_view(old(self).description@).push(line@));
                }
                Ok(())
            },
            ParseState::ReadOptions => {
                if same_chars(line, &answer_chars()) {
                    self.state = ParseState::ReadCorrectOption;
                    Ok(())
                } else {
                    match option_from_line(line) {
                        Ok(o) => {
                            let mut opts = match self.options.take() {
                                Some(v) => v,
                                None => Vec::new(),
                            };
                            let ghost before = opts@;
                            assert(pairs_view(before) =~= options_or_empty(old(self)@.options));
                            opts.push(o);
                            assert(pairs_view(opts@) =~= options_or_empty(old(self)@.options).push(o@));
                            self.options = Some(opts);
                            Ok(())
                        },
                        Err(e) => Err(e),
                    }
                }
            },
            ParseState::ReadCorrectOption => {
                let r = match &self.options {
                    Some(opts) => correct_from_line(opts, line),
                    None => correct_from_line(&Vec::new(), line),
                };
                proof {
                    if self.options is None {
                        assert(pairs_view(Seq::<(char, String)>::empty()) =~= Seq::<(char, Seq<char>)>::empty());
                    }
                }
                match r {
                    Ok(c) => {
                        self.correct_option = Some(c);
                        self.state = ParseState::ReadReason;
                        Ok(())
                    },
                    Err(e) => Err(e),
                }
            },
            ParseState::ReadReason => {
                self.reason.push(string_of(line));
                assert(lines_view(self.reason@) =~= lines_view(old(self).reason@).push(line@));
                Ok(())
            },
        }
    }

    /// The record that the finished draft stands for.
    fn finish(self) -> (r: Result<(Question, Answer), FormatError>)
        ensures
            result_view(r) == finish_draft(self@),
    {
        if self.state != ParseState::ReadReason {
            return Err(FormatError::PrematureEnd);
        }
        if self.reason.len() == 0 && self.correct_option.is_none() {
            return Err(FormatError::EmptyReason);
        }
        let q = Question { description: self.description, options: self.options };
        let a = Answer { correct_option: self.correct_option, reason: self.reason };
        Ok((q, a))
    }
}

/// Parses one block into its question and answer.
pub fn parse_block(block: &Vec<char>) -> (r: Result<(Question, Answer), FormatError>)
    ensures
        result_view(r) == block_record(block@),
{
    let lines = split_on(block, '\n');
    let ghost all = views(lines@);
    let mut d = Draft::new();
    let mut i: usize = 0;
    assert(all.skip(0) =~= all);
    while i < lines.len()
        invariant
            i <= lines.len(),
            all == views(lines@),
            all == split_chars(block@, '\n'),
            run_lines(initial_draft(), all) == run_lines(d@, all.skip(i as int)),
        decreases lines.len() - i,
    {
        assert(all.skip(i as int).drop_first() =~= all.skip(i + 1));
        assert(all.skip(i as int)[0] == lines@[i as int]@);
        match d.step(&lines[i]) {
            Ok(()) => {},
            Err(e) => {
                return Err(e);
            },
        }
        i += 1;
    }
    assert(all.skip(i as int) =~= Seq::<Seq<char>>::empty());
    d.finish()
}

/// What parsing `text` gives: the records of `bank_of(text)`, or its error.
pub open spec fn parsed_as(text: Seq<char>, r: Result<Vec<(Question, Answer)>, FormatError>) -> bool {
    match r {
        Ok(bank) => bank_of(text) == Ok::<_, FormatError>(bank_view(bank@)),
        Err(e) => bank_of(text) == Err::<Seq<(QuestionModel, AnswerModel)>, FormatError>(e),
    }
}

/// The records of well-formed blocks are as many as the blocks.
pub proof fn lemma_records_len(blocks: Seq<Seq<char>>)
    ensures
        records_of(blocks) matches Ok(bank) ==> bank.len() == blocks.len(),
    decreases blocks.len(),
{
    if blocks.len() > 0 {
        lemma_records_len(blocks.drop_first());
    }
}

/// What holds of a draft in each state: options appear with `===`, and a
/// correct option only once the options are checked.
pub open spec fn draft_consistent(d: DraftModel) -> bool {
    match d.state {
        ParseState::Start | ParseState::ReadDescription => d.options is None && d.correct_option is None,
        ParseState::ReadOptions | ParseState::ReadCorrectOption => d.options is Some && d.correct_option is None,
        ParseState::ReadReason => record_wf(
            QuestionModel { description: d.description, options: d.options },
            AnswerModel { correct_option: d.correct_option, reason: d.reason },
        ),
    }
}

proof fn lemma_run_lines_consistent(d: DraftModel, lines: Seq<Seq<char>>)
    requires
        draft_consistent(d),
    ensures
        run_lines(d, lines) matches Ok(e) ==> draft_consistent(e),
    decreases lines.len(),
{
    if lines.len() > 0 {
        if let Ok(next) = step_line(d, lines[0]) {
            if d.state == ParseState::ReadCorrectOption {
                let opts = options_or_empty(d.options);
                let line = lines[0];
                assert(has_label(opts, line[0]));
            }
            lemma_run_lines_consistent(next, lines.drop_first());
        }
    }
}

/// Every record that the parser produces is well formed.
pub proof fn lemma_block_record_wf(block: Seq<char>)
    ensures
        block_record(block) matches Ok(p) ==> record_wf(p.0, p.1),
{
    lemma_run_lines_consistent(initial_draft(), split_chars(block, '\n'));
}

proof fn lemma_records_wf(blocks: Seq<Seq<char>>)
    ensures
        records_of(blocks) matches Ok(bank) ==> forall|i: int| 0 <= i < bank.len() ==> record_wf(#[trigger] bank[i].0, bank[i].1),
    decreases blocks.len(),
{
    if blocks.len() > 0 {
        lemma_block_record_wf(blocks[0]);
        lemma_records_wf(blocks.drop_first());
        if let Ok(p) = block_record(blocks[0]) {
            if let Ok(rest) = records_of(blocks.drop_first()) {
                let bank = seq![p] + rest;
                assert forall|i: int| 0 <= i < bank.len() implies record_wf(#[trigger] bank[i].0, bank[i].1) by {
                    if i > 0 {
                        assert(bank[i] == rest[i - 1]);
                    }
                }
            }
        }
    }
}

/// Parsing is deterministic: two parses of the same text give the same
/// records, or the same error.
pub proof fn lemma_parse_deterministic(
    text: Seq<char>,
    r1: Result<Vec<(Question, Answer)>, FormatError>,
    r2: Result<Vec<(Question, Answer)>, FormatError>,
)
    requires
        parsed_as(text, r1),
        parsed_as(text, r2),
    ensures
        match (r1, r2) {
            (Ok(b1), Ok(b2)) => bank_view(b1@) == bank_view(b2@),
            (Err(e1), Err(e2)) => e1 == e2,
            _ => false,
        },
{
}

/// Parses a whole bank document into its records, in order; a malformed
/// block fails the whole bank. A bank that parses holds at least one record.
pub fn parse_bank(text: &str) -> (r: Result<Vec<(Question, Answer)>, FormatError>)
    ensures
        parsed_as(text@, r),
        r matches Ok(bank) ==> bank@.len() >= 1,
        r matches Ok(bank) ==> forall|i: int| 0 <= i < bank@.len() ==> record_wf(#[trigger] bank@[i].0@, bank@[i].1@),
{
    let chars = chars_of(text);
    let blocks = split_blocks(&chars);
    let ghost all = views(blocks@);
    let mut bank: Vec<(Question, Answer)> = Vec::new();
    let mut i: usize = 0;
    assert(all.skip(0) =~= all);
    assert(bank_view(bank@) =~= Seq::<(QuestionModel, AnswerModel)>::empty());
    while i < blocks.len()
        invariant
            i <= blocks.len(),
            all == views(blocks@),
            all == split_blank(text@),
            records_of(all) == match records_of(all.skip(i as int)) {
                Ok(rest) => Ok(bank_view(bank@) + rest),
                Err(e) => Err(e),
            },
        decreases blocks.len() - i,
    {
        assert(all.skip(i as int).drop_first() =~= all.skip(i + 1));
        assert(all.skip(i as int)[0] == blocks@[i as int]@);
        match parse_block(&blocks[i]) {
            Ok(p) => {
                let ghost before = bank_view(bank@);
                bank.push(p);
                assert(bank_view(bank@) =~= before.push(p@));
                assert forall|rest: Seq<(QuestionModel, AnswerModel)>| before + (seq![p@] + rest) =~= before.push(p@) + rest by {}
            },
            Err(e) => {
                return Err(e);
            },
        }
        i += 1;
    }
    assert(all.skip(i as int) =~= Seq::<Seq<char>>::empty());
    assert(bank_view(bank@) + Seq::<(QuestionModel, AnswerModel)>::empty() =~= bank_view(bank@));
    proof {
        assert(records_of(all) == Ok::<_, FormatError>(bank_view(bank@)));
        lemma_records_len(all);
        lemma_records_wf(all);
        assert forall|i: int| 0 <= i < bank@.len() implies record_wf(#[trigger] bank@[i].0@, bank@[i].1@) by {
            assert(bank_view(bank@)[i] == bank@[i]@);
            assert(record_wf(bank_view(bank@)[i].0, bank_view(bank@)[i].1));
        }
        crate::text::lemma_split_blank_nonempty(text@);
    }
    Ok(bank)
}

/// What `str::trim` gives: the text without leading and trailing whitespace.
pub uninterp spec fn trimmed(s: Seq<char>) -> Seq<char>;

/// Relies on `str::trim`, whose result depends on the text alone.
#[verifier::external_body]
fn trim_text(s: &str) -> (r: &str)
    ensures
        r@ == trimmed(s@),
{
    s.trim()
}

/// Loads a bank from the contents of a bank file: the contents without
/// surrounding whitespace, parsed.
pub fn load_bank(contents: &str) -> (r: Result<Vec<(Question, Answer)>, FormatError>)
    ensures
        parsed_as(trimmed(contents@), r),
        r matches Ok(bank) ==> bank@.len() >= 1,
        r matches Ok(bank) ==> forall|i: int| 0 <= i < bank@.len() ==> record_wf(#[trigger] bank@[i].0@, bank@[i].1@),
{
    parse_bank(trim_text(contents))
}

} // verus!
