//! Presentation policy: the order in which a bank is walked, and the
//! per-presentation relabeling of a multiple-choice question's options.

use vstd::prelude::*;
use rand::seq::SliceRandom;
use crate::record::{Answer, AnswerModel, Question, QuestionModel, has_label, is_label, labels_distinct, lines_view, pairs_view, record_wf};

verus! {

/// `order` lists each of `0..n` exactly once.
pub open spec fn is_order(order: Seq<usize>, n: int) -> bool {
    &&& order.len() == n
    &&& forall|k: int| 0 <= k < n ==> order[k] < n
    &&& forall|i: usize| i < n ==> #[trigger] order.contains(i)
    &&& order.no_duplicates()
}

/// Relies on rand's `SliceRandom::shuffle` with `rand::thread_rng()`, which
/// permutes the vector in place (by swaps; uniformly at random, which no
/// contract can state).
#[verifier::external_body]
fn shuffle_in_place(v: &mut Vec<usize>)
    ensures
        final(v)@.to_multiset() == old(v)@.to_multiset(),
{
    v.shuffle(&mut rand::thread_rng());
}

/// A fresh random order of `0..n`: one round visits each of `n` records
/// exactly once.
pub fn round_order(n: usize) -> (r: Vec<usize>)
    ensures
        is_order(r@, n as int),
{
    let mut v: Vec<usize> = Vec::new();
    let mut i: usize = 0;
    while i < n
        invariant
            i <= n,
            v@.len() == i,
            forall|j: int| 0 <= j < i ==> v@[j] == j,
        decreases n - i,
    {
        v.push(i);
        i += 1;
    }
    let ghost id = v@;
    assert(id.no_duplicates());
    shuffle_in_place(&mut v);
    proof {
        let s = v@;
        id.to_multiset_ensures();
        s.to_multiset_ensures();
        id.lemma_multiset_has_no_duplicates();
        s.lemma_multiset_has_no_duplicates_conv();
        assert forall|k: int| 0 <= k < n implies s[k] < n by {
            assert(s.contains(s[k]));
            assert(s.to_multiset().count(s[k]) > 0);
            assert(id.to_multiset().count(s[k]) > 0);
            assert(id.contains(s[k]));
        }
        assert forall|j: usize| j < n implies #[trigger] s.contains(j) by {
            assert(id[j as int] == j);
            assert(id.contains(j));
            assert(id.to_multiset().count(j) > 0);
            assert(s.to_multiset().count(j) > 0);
        }
    }
    v
}

/// The label of the option at position `k` after relabeling: `A`, `B`, ...
pub open spec fn letter(k: int) -> char {
    (65 + k) as u8 as char
}

/// The letter of position `k`.
fn letter_at(k: usize) -> (c: char)
    requires
        k < 26,
    ensures
        c == letter(k as int),
        is_label(c),
{
    let b: u8 = 65 + k as u8;
    b as char
}

/// The options in the given order, labeled `A`, `B`, ... by position.
pub open spec fn relabeled_options(opts: Seq<(char, Seq<char>)>, order: Seq<usize>) -> Seq<(char, Seq<char>)> {
    Seq::new(order.len(), |k: int| (letter(k), opts[order[k] as int].1))
}

/// The new label of the option labeled `c`: the letter of the position to
/// which the order moves it.
pub open spec fn relabeled_correct(opts: Seq<(char, Seq<char>)>, order: Seq<usize>, c: char) -> char {
    letter(choose|k: int| 0 <= k < order.len() && opts[order[k] as int].0 == c)
}

/// A question as presented under `order`.
pub open spec fn relabeled_question(q: QuestionModel, order: Seq<usize>) -> QuestionModel {
    QuestionModel {
        description: q.description,
        options: match q.options {
            Some(opts) => Some(relabeled_options(opts, order)),
            None => None,
        },
    }
}

/// An answer as presented under `order`.
pub open spec fn relabeled_answer(q: QuestionModel, a: AnswerModel, order: Seq<usize>) -> AnswerModel {
    AnswerModel {
        correct_option: match (q.options, a.correct_option) {
            (Some(opts), Some(c)) => Some(relabeled_correct(opts, order, c)),
            _ => a.correct_option,
        },
        reason: a.reason,
    }
}

/// A copy of a list of lines.
fn copy_lines(v: &Vec<String>) -> (r: Vec<String>)
    ensures
        lines_view(r@) == lines_view(v@),
{
    let mut r: Vec<String> = Vec::new();
    let mut i: usize = 0;
    while i < v.len()
        invariant
            i <= v.len(),
            lines_view(r@) =~= lines_view(v@).take(i as int),
        decreases v.len() - i,
    {
        let line = v[i].clone();
        let ghost before = r@;
        r.push(line);
        assert(r@ == before.push(line));
        assert(lines_view(v@).take(i + 1) =~= lines_view(v@).take(i as int).push(v@[i as int]@));
        assert(lines_view(r@) =~= lines_view(before).push(line@));
        i += 1;
    }
    assert(lines_view(v@).take(v.len() as int) =~= lines_view(v@));
    r
}

/// The presentation copy of a record under `order`: the options are put in
/// that order and relabeled `A`, `B`, ... by position, and the correct
/// option follows its option to its new label. The record itself is left
/// as it is.
pub fn relabel(question: &Question, answer: &Answer, order: &Vec<usize>) -> (r: (Question, Answer))
    requires
        record_wf(question@, answer@),
        question@.options matches Some(opts) ==> is_order(order@, opts.len() as int),
    ensures
        r.0@ == relabeled_question(question@, order@),
        r.1@ == relabeled_answer(question@, answer@, order@),
        record_wf(r.0@, r.1@),
{
    let description = copy_lines(&question.description);
    let reason = copy_lines(&answer.reason);
    match (&question.options, answer.correct_option) {
        (Some(opts), Some(c)) => {
            let ghost m = pairs_view(opts@);
            let n = opts.len();
            let mut new_opts: Vec<(char, String)> = Vec::new();
            let mut new_c: Option<char> = None;
            let ghost mut found: int = 0;
            let mut k: usize = 0;
            while k < n
                invariant
                    n == opts@.len(),
                    n <= 26,
                    m == pairs_view(opts@),
                    is_order(order@, n as int),
                    k <= n,
                    pairs_view(new_opts@) =~= relabeled_options(m, order@).take(k as int),
                    new_c matches Some(x) ==> 0 <= found < k && m[order@[found] as int].0 == c
                        && x == letter(found),
                    new_c is None ==> forall|j: int| 0 <= j < k ==> m[order@[j] as int].0 != c,
                decreases n - k,
            {
                let idx = order[k];
                let label = letter_at(k);
                let text = opts[idx].1.clone();
                assert(text@ == m[idx as int].1);
                let ghost before = new_opts@;
                new_opts.push((label, text));
                assert(new_opts@ == before.push((label, text)));
                assert(pairs_view(new_opts@) =~= pairs_view(before).push((label, text@)));
                assert(relabeled_options(m, order@).take(k + 1) =~= relabeled_options(m, order@).take(k as int).push((label, text@)));
                if opts[idx].0 == c {
                    new_c = Some(label);
                    proof {
                        found = k as int;
                    }
                }
                k += 1;
            }
            proof {
                let new_m = relabeled_options(m, order@);
                assert(new_m.take(n as int) =~= new_m);
                let i = choose|i: int| 0 <= i < m.len() && m[i].0 == c;
                if new_c is None {
                    assert(order@.contains(i as usize));
                    let j = choose|j: int| 0 <= j < n && order@[j] == i as usize;
                    assert(m[order@[j] as int].0 == c);
                }
                let kc = choose|k: int| 0 <= k < order@.len() && m[order@[k] as int].0 == c;
                assert(0 <= kc < order@.len() && m[order@[kc] as int].0 == c);
                assert(order@[kc] == order@[found]);
                assert(kc == found);
                assert forall|a: int, b: int| 0 <= a < b < new_m.len() implies new_m[a].0 != new_m[b].0 by {
                    assert(letter(a) != letter(b));
                }
                assert(new_m[found].0 == letter(found));
                assert(has_label(new_m, letter(found)));
            }
            (Question { description, options: Some(new_opts) }, Answer { correct_option: new_c, reason })
        },
        _ => {
            (Question { description, options: None }, Answer { correct_option: None, reason })
        },
    }
}

/// The presentation copy of a record: its options in a fresh random order,
/// relabeled as `relabel` does.
pub fn question_internal_shuffle(question: &Question, answer: &Answer) -> (r: (Question, Answer))
    requires
        record_wf(question@, answer@),
    ensures
        exists|order: Seq<usize>|
            (question@.options matches Some(opts) ==> is_order(order, opts.len() as int))
            && r.0@ == relabeled_question(question@, order)
            && r.1@ == relabeled_answer(question@, answer@, order),
        record_wf(r.0@, r.1@),
{
    let n = match &question.options {
        Some(opts) => opts.len(),
        None => 0,
    };
    let order = round_order(n);
    relabel(question, answer, &order)
}

/// No two options share a text.
pub open spec fn texts_distinct(opts: Seq<(char, Seq<char>)>) -> bool {
    forall|i: int, j: int| 0 <= i < j < opts.len() ==> opts[i].1 != opts[j].1
}

/// Each option labeled `c` among `opts` reappears among `new_opts` with
/// label `new_c` and its text; where no two options of `opts` share a text,
/// every option of `new_opts` with that text has label `new_c`.
pub open spec fn keeps_correct(
    opts: Seq<(char, Seq<char>)>,
    c: char,
    new_opts: Seq<(char, Seq<char>)>,
    new_c: char,
) -> bool {
    forall|i: int| 0 <= i < opts.len() && #[trigger] opts[i].0 == c ==> {
        &&& exists|k: int| 0 <= k < new_opts.len() && new_opts[k].0 == new_c && #[trigger] new_opts[k].1 == opts[i].1
        &&& texts_distinct(opts) ==> forall|k: int|
            0 <= k < new_opts.len() && #[trigger] new_opts[k].1 == opts[i].1 ==> new_opts[k].0 == new_c
    }
}

/// Relabeling keeps the correct answer: the option that carries the new
/// correct label has the text of the old correct option, and where no two
/// options share a text, no option with another label has that text.
pub proof fn lemma_relabel_keeps_correct(q: QuestionModel, a: AnswerModel, order: Seq<usize>)
    requires
        record_wf(q, a),
        q.options matches Some(opts) ==> is_order(order, opts.len() as int),
    ensures
        match (q.options, a.correct_option) {
            (Some(opts), Some(c)) => relabeled_question(q, order).options matches Some(new_opts)
                && relabeled_answer(q, a, order).correct_option matches Some(new_c)
                && keeps_correct(opts, c, new_opts, new_c),
            _ => relabeled_question(q, order).options is None
                && relabeled_answer(q, a, order).correct_option is None,
        },
{
    if let (Some(opts), Some(c)) = (q.options, a.correct_option) {
        let new_opts = relabeled_options(opts, order);
        let i0 = choose|i: int| 0 <= i < opts.len() && opts[i].0 == c;
        assert(order.contains(i0 as usize));
        let j0 = choose|j: int| 0 <= j < order.len() && order[j] == i0 as usize;
        assert(opts[order[j0] as int].0 == c);
        let kc = choose|k: int| 0 <= k < order.len() && opts[order[k] as int].0 == c;
        assert(0 <= kc < order.len() && opts[order[kc] as int].0 == c);
        assert(relabeled_correct(opts, order, c) == letter(kc));
        assert forall|i: int| 0 <= i < opts.len() && #[trigger] opts[i].0 == c implies {
            &&& exists|k: int| 0 <= k < new_opts.len() && new_opts[k].0 == letter(kc) && #[trigger] new_opts[k].1 == opts[i].1
            &&& texts_distinct(opts) ==> forall|k: int|
                0 <= k < new_opts.len() && #[trigger] new_opts[k].1 == opts[i].1 ==> new_opts[k].0 == letter(kc)
        } by {
            assert(order[kc] as int == i);
            assert(new_opts[kc].1 == opts[i].1);
            assert(new_opts[kc].0 == letter(kc));
            assert(0 <= kc < new_opts.len() && new_opts[kc].0 == letter(kc) && new_opts[kc].1 == opts[i].1);
            if texts_distinct(opts) {
                assert forall|k: int| 0 <= k < new_opts.len() && new_opts[k].1 == opts[i].1 implies new_opts[k].0 == letter(kc) by {
                    assert(opts[order[k] as int].1 == opts[i].1);
                    assert(order[k] as int == i);
                    assert(order[k] == order[kc]);
                }
            }
        }
        assert(relabeled_question(q, order).options == Some(new_opts));
        assert(relabeled_answer(q, a, order).correct_option == Some(letter(kc)));
        assert(keeps_correct(opts, c, new_opts, letter(kc)));
    }
}

/// Where a session stands: the order of the current round, and the
/// position of the question on screen within it.
pub struct Round {
    pub order: Vec<usize>,
    pub pos: usize,
}

impl Round {
    /// The order is one of all the records, and the position lies in it.
    pub open spec fn wf(&self) -> bool {
        &&& self.order@.len() >= 1
        &&& is_order(self.order@, self.order@.len() as int)
        &&& self.pos < self.order@.len()
    }

    /// The first round over `n` records, at its start.
    pub fn new(n: usize) -> (r: Round)
        requires
            n >= 1,
        ensures
            r.wf(),
            r.order@.len() == n,
            r.pos == 0,
    {
        Round { order: round_order(n), pos: 0 }
    }

    /// The record on screen.
    pub fn current(&self) -> (i: usize)
        requires
            self.wf(),
        ensures
            i == self.order@[self.pos as int],
            i < self.order@.len(),
    {
        self.order[self.pos]
    }

    /// Moves to the next record of the round, or, after the last one, to
    /// the start of a new round in a fresh order over the same records.
    pub fn advance(&mut self)
        requires
            old(self).wf(),
        ensures
            final(self).wf(),
            final(self).order@.len() == old(self).order@.len(),
            old(self).pos + 1 < old(self).order@.len() ==> final(self).order@ == old(self).order@
                && final(self).pos == old(self).pos + 1,
            old(self).pos + 1 == old(self).order@.len() ==> final(self).pos == 0,
    {
        if self.pos < self.order.len() - 1 {
            self.pos = self.pos + 1;
        } else {
            self.order = round_order(self.order.len());
            self.pos = 0;
        }
    }
}

} // verus!
