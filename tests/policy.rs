use quiz::parser::parse_bank;
use quiz::policy::{question_internal_shuffle, relabel, round_order, Round};
use quiz::record::{Answer, Question};

fn s(x: &str) -> String {
    String::from(x)
}

fn is_permutation(order: &[usize], n: usize) -> bool {
    let mut seen = vec![false; n];
    if order.len() != n {
        return false;
    }
    for &i in order {
        if i >= n || seen[i] {
            return false;
        }
        seen[i] = true;
    }
    true
}

#[test]
fn round_visits_each_record_once() {
    for n in 0..20 {
        let order = round_order(n);
        assert!(is_permutation(&order, n));
    }
}

#[test]
fn round_positions_are_uniform() {
    let n = 4;
    let rounds = 40000;
    let mut counts = vec![vec![0u32; n]; n];
    for _ in 0..rounds {
        let order = round_order(n);
        for (pos, &rec) in order.iter().enumerate() {
            counts[pos][rec] += 1;
        }
    }
    let expected = rounds as f64 / n as f64;
    for pos in 0..n {
        for rec in 0..n {
            let freq = counts[pos][rec] as f64;
            assert!((freq - expected).abs() < expected * 0.1, "position {} record {}: {}", pos, rec, freq);
        }
    }
}

#[test]
fn round_advances_then_reshuffles() {
    let mut round = Round::new(3);
    assert_eq!(round.pos, 0);
    let first = round.order.clone();
    let mut seen = vec![round.current()];
    round.advance();
    assert_eq!(round.order, first);
    seen.push(round.current());
    round.advance();
    seen.push(round.current());
    assert_eq!(seen, first);
    round.advance();
    assert_eq!(round.pos, 0);
    assert!(is_permutation(&round.order, 3));
}

fn mc_record() -> (Question, Answer) {
    (
        Question {
            description: vec![s("Q")],
            options: Some(vec![('A', s("foo")), ('B', s("bar")), ('C', s("baz"))]),
        },
        Answer { correct_option: Some('B'), reason: vec![s("r")] },
    )
}

#[test]
fn relabel_follows_order() {
    let (q, a) = mc_record();
    let (q2, a2) = relabel(&q, &a, &vec![2, 1, 0]);
    assert_eq!(q2.options, Some(vec![('A', s("baz")), ('B', s("bar")), ('C', s("foo"))]));
    assert_eq!(a2.correct_option, Some('B'));
    let (q3, a3) = relabel(&q, &a, &vec![1, 2, 0]);
    assert_eq!(q3.options, Some(vec![('A', s("bar")), ('B', s("baz")), ('C', s("foo"))]));
    assert_eq!(a3.correct_option, Some('A'));
    assert_eq!(q3.description, q.description);
    assert_eq!(a3.reason, a.reason);
    // the stored record is untouched
    assert_eq!((q, a), mc_record());
}

#[test]
fn relabel_without_options_copies() {
    let q = Question { description: vec![s("Q"), s("more")], options: None };
    let a = Answer { correct_option: None, reason: vec![s("A")] };
    let (q2, a2) = relabel(&q, &a, &vec![]);
    assert_eq!(q2, q);
    assert_eq!(a2, a);
}

#[test]
fn shuffle_keeps_correct_text() {
    let bank = parse_bank("Question\nQ\n===\nA.foo\nB.bar\nC.baz\nD.qux\nAnswer\nC\nbecause").unwrap();
    let (q, a) = &bank[0];
    let mut correct_at = vec![0u32; 4];
    for _ in 0..2000 {
        let (q2, a2) = question_internal_shuffle(q, a);
        let opts = q2.options.unwrap();
        let labels: Vec<char> = opts.iter().map(|o| o.0).collect();
        assert_eq!(labels, vec!['A', 'B', 'C', 'D']);
        let c = a2.correct_option.unwrap();
        let text = &opts.iter().find(|o| o.0 == c).unwrap().1;
        assert_eq!(text, "baz");
        correct_at[(c as u8 - b'A') as usize] += 1;
        assert_eq!(a2.reason, vec![s("because")]);
    }
    for n in correct_at {
        assert!(n > 300);
    }
    assert_eq!(q.options.as_ref().unwrap()[2], ('C', s("baz")));
}
