use pollbot::poll::{ParseError, Poll};
use pollbot::text::{parse_u64, trim, u64_to_string};

fn labels(p: &Poll) -> Vec<(u64, String)> {
    p.answers()
}

#[test]
fn parse_valid_spec() {
    let p = Poll::parse("5|Best color?|Red|Green|Blue").unwrap();
    assert_eq!(p.duration(), 5);
    assert_eq!(p.name(), "Best color?");
    assert_eq!(p.num_answers(), 3);
    let a = labels(&p);
    assert_eq!(a.len(), 3);
    assert_eq!(a[0], (0, "Red".to_string()));
    assert_eq!(a[1], (0, "Green".to_string()));
    assert_eq!(a[2], (0, "Blue".to_string()));
}

#[test]
fn parse_trims_fields() {
    let p = Poll::parse(" 5 | Best color? |  Red | Green ").unwrap();
    assert_eq!(p.duration(), 5);
    assert_eq!(p.name(), "Best color?");
    let a = labels(&p);
    assert_eq!(a[0].1, "Red");
    assert_eq!(a[1].1, "Green");
}

#[test]
fn parse_rejects_zero_minutes() {
    assert!(matches!(Poll::parse("0|Q|A|B"), Err(ParseError::BadMinutes)));
}

#[test]
fn parse_rejects_negative_minutes() {
    assert!(matches!(Poll::parse("-3|Q|A|B"), Err(ParseError::BadMinutes)));
}

#[test]
fn parse_rejects_non_numeric_minutes() {
    assert!(matches!(Poll::parse("abc|Q|A|B"), Err(ParseError::BadMinutes)));
}

#[test]
fn parse_rejects_empty_question() {
    assert!(matches!(Poll::parse("5||A|B"), Err(ParseError::EmptyQuestion)));
}

#[test]
fn parse_rejects_single_answer() {
    assert!(matches!(Poll::parse("5|Q|OnlyOne"), Err(ParseError::TooFewAnswers)));
}

#[test]
fn parse_rejects_missing_question_field() {
    assert!(matches!(Poll::parse("5"), Err(ParseError::EmptyQuestion)));
}

#[test]
fn evaluate_no_votes_single_notice() {
    let p = Poll::parse("5|Lunch?|Soup|Salad").unwrap();
    let msgs = p.evaluate();
    assert_eq!(msgs, vec!["No response to 'Lunch?'".to_string()]);
}

#[test]
fn vote_then_evaluate_counts_and_percentages() {
    let mut p = Poll::parse("5|Q|A|B").unwrap();
    p.add_vote(0);
    let msgs = p.evaluate();
    assert_eq!(
        msgs,
        vec![
            "Poll result for 'Q'".to_string(),
            "#1: A: 1 votes (100.00%)".to_string(),
            "#2: B: 0 votes (0.00%)".to_string(),
        ]
    );
}

#[test]
fn vote_increases_only_chosen_answer() {
    let mut p = Poll::parse("5|Q|A|B|C").unwrap();
    p.add_vote(1);
    p.add_vote(1);
    p.add_vote(2);
    let a = labels(&p);
    assert_eq!(a[0].0, 0);
    assert_eq!(a[1].0, 2);
    assert_eq!(a[2].0, 1);
}

#[test]
fn percentages_round_to_nearest_hundredth() {
    let mut p = Poll::parse("5|Q|A|B").unwrap();
    p.add_vote(0);
    p.add_vote(1);
    p.add_vote(1);
    let msgs = p.evaluate();
    assert_eq!(msgs[1], "#1: A: 1 votes (33.33%)");
    assert_eq!(msgs[2], "#2: B: 2 votes (66.67%)");
}

#[test]
fn percentages_pad_fraction_below_ten_hundredths() {
    let mut p = Poll::parse("5|Q|A|B").unwrap();
    p.add_vote(0);
    for _ in 0..999 {
        p.add_vote(1);
    }
    let msgs = p.evaluate();
    assert_eq!(msgs[1], "#1: A: 1 votes (0.10%)");
    assert_eq!(msgs[2], "#2: B: 999 votes (99.90%)");
}

#[test]
fn decimal_rendering_exact() {
    assert_eq!(u64_to_string(0), "0");
    assert_eq!(u64_to_string(7), "7");
    assert_eq!(u64_to_string(10), "10");
    assert_eq!(u64_to_string(105), "105");
    assert_eq!(u64_to_string(u64::MAX), "18446744073709551615");
}

#[test]
fn number_parsing_exact() {
    assert_eq!(parse_u64("0"), Some(0));
    assert_eq!(parse_u64("007"), Some(7));
    assert_eq!(parse_u64("18446744073709551615"), Some(u64::MAX));
    assert_eq!(parse_u64("18446744073709551616"), None);
    assert_eq!(parse_u64(""), None);
    assert_eq!(parse_u64("1x"), None);
    assert_eq!(parse_u64("-1"), None);
}

#[test]
fn trimming_strips_surrounding_whitespace_only() {
    assert_eq!(trim("  a b\t\n"), "a b");
    assert_eq!(trim("ab"), "ab");
    assert_eq!(trim(" \t "), "");
    assert_eq!(trim(""), "");
}
