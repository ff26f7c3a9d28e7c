use quiz::parser::{load_bank, parse_bank, FormatError};
use quiz::record::{Answer, Question};

fn s(x: &str) -> String {
    String::from(x)
}

#[test]
fn free_text_block() {
    let bank = load_bank("Question\nQ\nAnswer\nA\n").unwrap();
    assert_eq!(bank.len(), 1);
    let (q, a) = &bank[0];
    assert_eq!(q.description, vec![s("Q")]);
    assert_eq!(q.options, None);
    assert_eq!(a.correct_option, None);
    assert_eq!(a.reason, vec![s("A")]);
}

#[test]
fn free_text_block_untrimmed_keeps_trailing_line() {
    // the parser itself does not trim: the final newline yields an empty line
    let bank = parse_bank("Question\nQ\nAnswer\nA\n").unwrap();
    assert_eq!(bank[0].1.reason, vec![s("A"), s("")]);
}

#[test]
fn load_trims_surrounding_whitespace() {
    let bank = load_bank("  \n\nQuestion\nQ\nAnswer\nA\n\n \t").unwrap();
    assert_eq!(bank.len(), 1);
    assert_eq!(bank[0].1.reason, vec![s("A")]);
    assert_eq!(parse_bank("  \n\nQuestion\nQ\nAnswer\nA"), Err(FormatError::MissingHeader));
}

#[test]
fn multiple_choice_block() {
    let bank = load_bank("Question\nQ\n===\nA.foo\nB.bar\nAnswer\nB\n").unwrap();
    let (q, a) = &bank[0];
    assert_eq!(q.description, vec![s("Q")]);
    assert_eq!(q.options, Some(vec![('A', s("foo")), ('B', s("bar"))]));
    assert_eq!(a.correct_option, Some('B'));
    assert!(a.reason.is_empty());
}

#[test]
fn option_text_with_more_dots() {
    let bank = parse_bank("Question\nPick\n===\nA.a.b.c\nB\nC.x.\nAnswer\nC\nwhy").unwrap();
    let q = &bank[0].0;
    assert_eq!(q.options, Some(vec![('A', s("a b c")), ('B', s("")), ('C', s("x "))]));
    assert_eq!(bank[0].1.reason, vec![s("why")]);
}

#[test]
fn several_blocks_in_order() {
    let text = "Question\nOne\nline two\nAnswer\nr1\nr2\n\nQuestion\nTwo\n===\nA.x\nAnswer\nA";
    let bank = parse_bank(text).unwrap();
    assert_eq!(bank.len(), 2);
    assert_eq!(
        bank[0],
        (
            Question { description: vec![s("One"), s("line two")], options: None },
            Answer { correct_option: None, reason: vec![s("r1"), s("r2")] }
        )
    );
    assert_eq!(bank[1].0.description, vec![s("Two")]);
    assert_eq!(bank[1].0.options, Some(vec![('A', s("x"))]));
    assert_eq!(bank[1].1.correct_option, Some('A'));
}

#[test]
fn parsing_is_deterministic() {
    let text = "Question\nQ\n===\nA.foo\nB.bar\nAnswer\nB\nbecause\n\nQuestion\nZ\nAnswer\nz";
    assert_eq!(parse_bank(text), parse_bank(text));
    let bad = "Question\nQ\n===\nA.x\nAnswer\nC";
    assert_eq!(parse_bank(bad), parse_bank(bad));
}

#[test]
fn missing_header() {
    assert_eq!(parse_bank("Q\nAnswer\nA"), Err(FormatError::MissingHeader));
    assert_eq!(load_bank(""), Err(FormatError::MissingHeader));
}

#[test]
fn correct_option_not_among_options() {
    assert_eq!(
        parse_bank("Question\nQ\n===\nA.foo\nB.bar\nAnswer\nC\n"),
        Err(FormatError::CorrectOptionNotFound)
    );
    assert_eq!(parse_bank("Question\nQ\n===\nA.foo\nAnswer\n"), Err(FormatError::CorrectOptionNotFound));
}

#[test]
fn too_many_options() {
    let mut text = String::from("Question\nQ\n===\n");
    let letters = "ABCDEFGHIJKLMNOPQRSTUVWXYZ";
    for c in letters.chars() {
        text.push_str(&format!("{}.option {}\n", c, c));
    }
    text.push_str("A.one more\nAnswer\nA\n");
    assert_eq!(parse_bank(&text), Err(FormatError::TooManyOptions));
}

#[test]
fn twenty_six_options_are_accepted() {
    let mut text = String::from("Question\nQ\n===\n");
    for c in "ABCDEFGHIJKLMNOPQRSTUVWXYZ".chars() {
        text.push_str(&format!("{}.option\n", c));
    }
    text.push_str("Answer\nZ");
    let bank = parse_bank(&text).unwrap();
    assert_eq!(bank[0].0.options.as_ref().unwrap().len(), 26);
    assert_eq!(bank[0].1.correct_option, Some('Z'));
}

#[test]
fn duplicate_option_labels() {
    assert_eq!(
        parse_bank("Question\nQ\n===\nA.x\nA.y\nAnswer\nA\n"),
        Err(FormatError::DuplicateOptionLabel)
    );
}

#[test]
fn bad_option_label() {
    assert_eq!(parse_bank("Question\nQ\n===\na.x\nAnswer\nA"), Err(FormatError::BadOptionLabel));
    assert_eq!(parse_bank("Question\nQ\n===\n.x\nAnswer\nA"), Err(FormatError::BadOptionLabel));
    assert_eq!(parse_bank("Question\nQ\n===\n1.x\nAnswer\nA"), Err(FormatError::BadOptionLabel));
    assert_eq!(parse_bank("Question\nQ\n===\n===\nAnswer\nA"), Err(FormatError::BadOptionLabel));
    // an empty line ends the block instead
    assert_eq!(parse_bank("Question\nQ\n===\n\nAnswer\nA"), Err(FormatError::PrematureEnd));
}

#[test]
fn premature_end() {
    assert_eq!(parse_bank("Question\nQ"), Err(FormatError::PrematureEnd));
    assert_eq!(parse_bank("Question\nQ\n===\nA.x"), Err(FormatError::PrematureEnd));
    assert_eq!(parse_bank("Question\nQ\n===\nA.x\nAnswer"), Err(FormatError::PrematureEnd));
}

#[test]
fn empty_reason_only_for_multiple_choice() {
    assert_eq!(parse_bank("Question\nQ\nAnswer"), Err(FormatError::EmptyReason));
    assert!(parse_bank("Question\nQ\n===\nA.x\nAnswer\nA").is_ok());
}

#[test]
fn one_bad_block_fails_the_bank() {
    let text = "Question\nQ\nAnswer\nA\n\nNope\n\nQuestion\nQ\nAnswer";
    assert_eq!(parse_bank(text), Err(FormatError::MissingHeader));
}

#[test]
fn three_newlines_start_next_block_with_empty_line() {
    assert_eq!(
        parse_bank("Question\nQ\nAnswer\nA\n\n\nQuestion\nQ\nAnswer\nB"),
        Err(FormatError::MissingHeader)
    );
}

#[test]
fn unicode_text_is_kept() {
    let bank = parse_bank("Question\nÉté ?\n===\nA.ça\nB.naïve.x\nAnswer\nB\nparce que").unwrap();
    assert_eq!(bank[0].0.description, vec![s("Été ?")]);
    assert_eq!(bank[0].0.options, Some(vec![('A', s("ça")), ('B', s("naïve x"))]));
}
