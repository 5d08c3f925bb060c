use haikubot::counting::{
    count_line, count_token, count_word, is_haiku, is_haiku_single, SyllableCounter,
    Uncountable,
};
use haikubot::dictionary::Dictionary;
use haikubot::text::{join_with_spaces, split_words, strip_punctuation};

const ENTRIES: &[&str] = &[
    ";;; # a few entries of the CMU pronouncing dictionary",
    "'ALLO  AA2 L OW1",
    "A  AH0",
    "A(1)  EY1",
    "ABUNDANT  AH0 B AH1 N D AH0 N T",
    "B  B IY1",
    "BIRDS  B ER1 D Z",
    "BLACK  B L AE1 K",
    "BRANCHES  B R AE1 N CH AH0 Z",
    "BRANCHES(1)  B R AE1 N CH IH0 Z",
    "C  S IY1",
    "CAT  K AE1 T",
    "CATALOG  K AE1 T AH0 L AO2 G",
    "CLINGING  K L IH1 NG IH0 NG",
    "COME  K AH1 M",
    "DATABASE  D AE1 T AH0 B EY2 S",
    "DICTIONARY  D IH1 K SH AH0 N EH2 R IY0",
    "DON'T  D OW1 N T",
    "EXPLODE  IH0 K S P L OW1 D",
    "GENERAL  JH EH1 N ER0 AH0 L",
    "HAIKU  HH AY1 K UW0",
    "HELLO  HH AH0 L OW1",
    "INTO  IH0 N T UW1",
    "KENOBI  K AH0 N OW1 B IY0",
    "LAST  L AE1 S T",
    "LEAVES  L IY1 V Z",
    "SAID  S EH1 D",
    "SPRING  S P R IH1 NG",
    "THE  DH AH0",
    "THE(1)  DH AH1",
    "THE(2)  DH IY0",
    "THERE  DH EH1 R",
    "TO  T UW1",
    "TO(1)  T IH0",
    "TO(2)  T AH0",
    "USES  Y UW1 S AH0 Z",
    "USES(1)  Y UW1 S IH0 Z",
    "WINTER  W IH1 N T ER0",
];

fn counter() -> SyllableCounter {
    let entries = ENTRIES.iter().map(|l| l.to_string()).collect();
    SyllableCounter::new(Dictionary::new(entries))
}

#[test]
fn test_count_word() {
    let mut c = counter();
    assert_eq!(count_word(&mut c, "ABUNDANT"), Ok(3));
    assert_eq!(count_word(&mut c, "abundant"), Ok(3));
    assert_eq!(count_word(&mut c, "abUNdaNT"), Ok(3));
    assert_eq!(count_word(&mut c, "a"), Ok(1));
    assert_eq!(count_word(&mut c, "A"), Ok(1));
    assert_eq!(count_word(&mut c, "Don't"), Ok(1));
    assert_eq!(count_word(&mut c, "'Allo"), Ok(2));
    assert_eq!(count_word(&mut c, "Allo"), Err(Uncountable));
    assert_eq!(count_word(&mut c, "X Y Z"), Err(Uncountable));
    assert_eq!(count_word(&mut c, "XYZ"), Err(Uncountable));
    assert_eq!(count_word(&mut c, "#$&^%&"), Err(Uncountable));
}

#[test]
fn test_count_line() {
    let mut c = counter();
    assert_eq!(count_line(&mut c, "A B C"), Ok(3));
    assert_eq!(count_line(&mut c, "Abundant haiku"), Ok(5));
    assert_eq!(count_line(&mut c, "Uses a dictionary"), Ok(7));
    assert_eq!(count_line(&mut c, "Database to come"), Ok(5));
    assert_eq!(count_line(&mut c, "'Allo 'allo"), Ok(4));
    assert_eq!(count_line(&mut c, "'Hello there'"), Ok(3));
    assert_eq!(count_line(&mut c, "\"Hello there.\" said General Kenobi."), Ok(10));
}

#[test]
fn test_haiku_single() {
    let mut c = counter();
    assert_eq!(
        is_haiku_single(
            &mut c,
            "The last winter leaves Clinging to the black branches Explode into birds"
        ),
        Ok(Some([
            "The last winter leaves".to_owned(),
            "Clinging to the black branches".to_owned(),
            "Explode into birds".to_owned()
        ]))
    );
    assert_eq!(
        is_haiku_single(
            &mut c,
            "The last winter leaves, clinging to the black branches, explode into birds."
        ),
        Ok(Some([
            "The last winter leaves,".to_owned(),
            "clinging to the black branches,".to_owned(),
            "explode into birds.".to_owned()
        ]))
    );
    assert_eq!(
        is_haiku_single(
            &mut c,
            "The last spring leaves Clinging to the black branches Explode into birds"
        ),
        Ok(None)
    );
    assert_eq!(
        is_haiku_single(
            &mut c,
            "The last ^%^$&^ leaves Clinging to the black branches Explode into birds"
        ),
        Err(Uncountable)
    );
}

#[test]
fn test_haiku() {
    let mut c = counter();
    assert!(is_haiku(
        &mut c,
        &[
            "The last winter leaves".to_owned(),
            "Clinging to the black branches".to_owned(),
            "Explode into birds".to_owned()
        ]
    ));
    assert!(is_haiku(
        &mut c,
        &[
            "The last 'winter' leaves.".to_owned(),
            "Clinging to the black branches.".to_owned(),
            "Explode into birds".to_owned()
        ]
    ));
    assert!(!is_haiku(
        &mut c,
        &[
            "The last spring leaves".to_owned(),
            "Clinging to the black branches".to_owned(),
            "Explode into birds".to_owned()
        ]
    ));
    assert!(!is_haiku(
        &mut c,
        &[
            "The last $^%$^ leaves".to_owned(),
            "Clinging to the black branches".to_owned(),
            "Explode into birds".to_owned()
        ]
    ));
}

#[test]
fn count_word_ignores_case() {
    let mut c = counter();
    assert_eq!(count_word(&mut c, "Hello"), Ok(2));
    assert_eq!(count_word(&mut c, "HELLO"), Ok(2));
    assert_eq!(count_word(&mut c, "hElLo"), Ok(2));
}

#[test]
fn count_word_does_not_match_a_longer_entry() {
    let mut c = counter();
    assert_eq!(count_word(&mut c, "cat"), Ok(1));
    assert_eq!(count_word(&mut c, "catalog"), Ok(3));
    assert_eq!(count_word(&mut c, "cata"), Err(Uncountable));
}

#[test]
fn count_word_rejects_malformed_words() {
    let mut c = counter();
    assert_eq!(count_word(&mut c, ""), Err(Uncountable));
    assert_eq!(count_word(&mut c, "hello!"), Err(Uncountable));
    assert_eq!(count_word(&mut c, "the-cat"), Err(Uncountable));
    assert_eq!(count_word(&mut c, "A B C"), Err(Uncountable));
    assert_eq!(c.lookups(), 4);
    assert_eq!(count_word(&mut c, "A B C"), Err(Uncountable));
    assert_eq!(c.lookups(), 4);
}

#[test]
fn count_word_twice_scans_once() {
    let mut c = counter();
    assert_eq!(c.lookups(), 0);
    let first = count_word(&mut c, "abundant");
    assert_eq!(c.lookups(), 1);
    let second = count_word(&mut c, "abundant");
    assert_eq!(first, second);
    assert_eq!(first, Ok(3));
    assert_eq!(c.lookups(), 1);
    assert_eq!(count_word(&mut c, "Abundant"), Ok(3));
    assert_eq!(c.lookups(), 2);
    assert_eq!(count_word(&mut c, "Allo"), Err(Uncountable));
    assert_eq!(count_word(&mut c, "Allo"), Err(Uncountable));
    assert_eq!(c.lookups(), 3);
}

#[test]
fn count_word_past_cache_capacity() {
    let mut c = counter();
    for i in 0..1100 {
        let w = format!("word{}", i);
        assert_eq!(count_word(&mut c, &w), Err(Uncountable));
    }
    assert_eq!(c.lookups(), 1100);
    assert_eq!(count_word(&mut c, "word1099"), Err(Uncountable));
    assert_eq!(c.lookups(), 1100);
    assert_eq!(count_word(&mut c, "word0"), Err(Uncountable));
    assert_eq!(c.lookups(), 1101);
}

#[test]
fn count_token_retries_trimmed() {
    let mut c = counter();
    assert_eq!(count_token(&mut c, "\"Hello"), Ok(2));
    assert_eq!(count_token(&mut c, "there.\""), Ok(1));
    assert_eq!(count_token(&mut c, "'Allo"), Ok(2));
    assert_eq!(count_token(&mut c, "...!"), Err(Uncountable));
}

#[test]
fn count_line_of_empty_and_blank_lines() {
    let mut c = counter();
    assert_eq!(count_line(&mut c, ""), Ok(0));
    assert_eq!(count_line(&mut c, " \t  "), Ok(0));
    assert_eq!(count_line(&mut c, "  the\tcat  "), Ok(2));
    assert_eq!(count_line(&mut c, "the zzz cat"), Err(Uncountable));
}

#[test]
fn count_line_of_examples() {
    let mut c = counter();
    assert_eq!(count_line(&mut c, "A B C"), Ok(3));
    assert_eq!(count_line(&mut c, "'Allo 'allo"), Ok(4));
    assert_eq!(count_line(&mut c, "\"Hello there.\" said General Kenobi."), Ok(10));
}

#[test]
fn haiku_single_needs_all_words_used() {
    let mut c = counter();
    assert_eq!(
        is_haiku_single(
            &mut c,
            "The last winter leaves Clinging to the black branches Explode into birds the"
        ),
        Ok(None)
    );
    assert_eq!(is_haiku_single(&mut c, ""), Ok(None));
    assert_eq!(is_haiku_single(&mut c, "The last winter leaves"), Ok(None));
}

#[test]
fn split_trim_and_join() {
    let words = split_words("  a\tbb \n c ");
    assert_eq!(words, vec!["a".to_owned(), "bb".to_owned(), "c".to_owned()]);
    assert_eq!(split_words(""), Vec::<String>::new());
    assert_eq!(strip_punctuation("\"Hello there.\""), "Hello there");
    assert_eq!(strip_punctuation("'don't'"), "don't");
    assert_eq!(strip_punctuation("#$&"), "");
    assert_eq!(strip_punctuation("été!"), "été");
    assert_eq!(join_with_spaces(&words), "a bb c");
    assert_eq!(join_with_spaces(&Vec::new()), "");
}

#[test]
fn dictionary_lookup_counts_stress_digits() {
    let d = Dictionary::new(vec![
        "DICTIONARY  D IH1 K SH AH0 N EH2 R IY0".to_owned(),
        "TO  T UW1".to_owned(),
    ]);
    assert_eq!(d.len(), 2);
    assert_eq!(d.lookup("dictionary"), Some(4));
    assert_eq!(d.lookup("To"), Some(1));
    assert_eq!(d.lookup("T"), None);
    assert_eq!(d.lookup("to!"), None);
}
