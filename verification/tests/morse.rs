use communicator::morse::{blink, blink_iter, blink_sign, letter, Morse, Pulse, UNIT};
use communicator::morse::Morse::{Dash, Dot, Letter, Word};

#[test]
fn sos_is_spelled_with_gaps_and_closed_by_three_word_gaps() {
    let signs = blink("SOS");
    let expected = vec![
        Dot, Dot, Dot, Letter, Dash, Dash, Dash, Letter, Dot, Dot, Dot, Letter, Word, Word, Word,
    ];
    assert_eq!(signs, expected);
}

#[test]
fn empty_message_is_three_word_gaps() {
    assert_eq!(blink(""), vec![Word, Word, Word]);
    assert_eq!(blink_iter(&[]), vec![Word, Word, Word]);
}

#[test]
fn blink_iter_and_blink_agree() {
    let text = "Hi, 73?";
    let chars: Vec<char> = text.chars().collect();
    assert_eq!(blink_iter(&chars), blink(text));
}

#[test]
fn space_is_a_word_gap_followed_by_a_letter_gap() {
    assert_eq!(blink("e e"), vec![Dot, Letter, Word, Letter, Dot, Letter, Word, Word, Word]);
}

#[test]
fn unmappable_character_is_sent_as_the_error_glyph() {
    assert_eq!(letter('#'), &[Word, Dot, Word]);
    assert_eq!(letter('\u{e9}'), &[Word, Dot, Word]);
    assert_eq!(blink("#"), vec![Word, Dot, Word, Letter, Word, Word, Word]);
}

#[test]
fn letter_is_case_blind() {
    for (lower, upper) in ('a'..='z').zip('A'..='Z') {
        assert_eq!(letter(lower), letter(upper));
    }
    assert_eq!(letter('Q'), &[Dash, Dash, Dot, Dash]);
}

#[test]
fn letters_have_their_codes() {
    assert_eq!(letter('a'), &[Dot, Dash]);
    assert_eq!(letter('b'), &[Dash, Dot, Dot, Dot]);
    assert_eq!(letter('c'), &[Dash, Dot, Dash, Dot]);
    assert_eq!(letter('e'), &[Dot]);
    assert_eq!(letter('j'), &[Dot, Dash, Dash, Dash]);
    assert_eq!(letter('o'), &[Dash, Dash, Dash]);
    assert_eq!(letter('s'), &[Dot, Dot, Dot]);
    assert_eq!(letter('t'), &[Dash]);
    assert_eq!(letter('y'), &[Dash, Dot, Dash, Dash]);
    assert_eq!(letter('z'), &[Dash, Dash, Dot, Dot]);
}

#[test]
fn digits_and_punctuation_have_their_codes() {
    assert_eq!(letter('1'), &[Dot, Dash, Dash, Dash, Dash]);
    assert_eq!(letter('5'), &[Dot, Dot, Dot, Dot, Dot]);
    assert_eq!(letter('6'), &[Dash, Dot, Dot, Dot, Dot]);
    assert_eq!(letter('0'), &[Dash, Dash, Dash, Dash, Dash]);
    assert_eq!(letter('.'), &[Dot, Dash, Dot, Dash, Dot, Dash]);
    assert_eq!(letter(','), &[Dash, Dash, Dot, Dot, Dash, Dash]);
    assert_eq!(letter('?'), &[Dot, Dot, Dash, Dash, Dot, Dot]);
    assert_eq!(letter('\''), &[Dot, Dash, Dash, Dash, Dash, Dot]);
    assert_eq!(letter(' '), &[Word]);
}

#[test]
fn signs_have_their_units() {
    assert_eq!(Morse::Dash.time(), (3, 1));
    assert_eq!(Morse::Dot.time(), (1, 1));
    assert_eq!(Morse::Letter.time(), (0, 2));
    assert_eq!(Morse::Word.time(), (0, 4));
}

#[test]
fn pulses_are_units_of_125000_cycles() {
    assert_eq!(UNIT, 125_000);
    assert_eq!(blink_sign(Dash), Pulse { high: 375_000, low: 125_000 });
    assert_eq!(blink_sign(Dot), Pulse { high: 125_000, low: 125_000 });
    assert_eq!(blink_sign(Letter), Pulse { high: 0, low: 250_000 });
    assert_eq!(blink_sign(Word), Pulse { high: 0, low: 500_000 });
}
