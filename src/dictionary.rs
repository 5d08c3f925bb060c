//! Pronunciation lookup over a word list in the CMU dictionary's text form.
//!
//! Each entry line starts with an upper-case word, then whitespace, then
//! phonemes; a vowel phoneme ends in a stress digit.
use crate::text::is_white_space;
use vstd::prelude::*;

verus! {

/// What `str::to_uppercase` returns for a string.
pub uninterp spec fn upper_of(s: Seq<char>) -> Seq<char>;

/// Relies on `str::to_uppercase`: the upper-case form of `s`, which depends on
/// its characters alone.
#[verifier::external_body]
fn to_uppercase(s: &str) -> (r: String)
    ensures
        r@ == upper_of(s@),
{
    s.to_uppercase()
}

/// Whether the regular expression `^[\w']+$` matches the whole of `s`.
pub uninterp spec fn word_shape(s: Seq<char>) -> bool;

/// Relies on `regex::Regex::new` and `Regex::is_match` with the pattern
/// `^[\w']+$`: one or more word characters or apostrophes, and nothing else.
/// The pattern is valid, so compiling it does not fail.
#[verifier::external_body]
fn has_word_shape(s: &str) -> (r: bool)
    ensures
        r == word_shape(s@),
{
    regex::Regex::new(r"^[\w']+$").unwrap().is_match(s)
}

/// An ASCII letter, the class `[[:alpha:]]` of the regex crate.
pub open spec fn is_ascii_letter(c: char) -> bool {
    let u = c as u32;
    (0x41 <= u <= 0x5a) || (0x61 <= u <= 0x7a)
}

/// An ASCII digit, the class `[[:digit:]]` of the regex crate.
pub open spec fn is_ascii_digit(c: char) -> bool {
    let u = c as u32;
    0x30 <= u <= 0x39
}

/// At `i` of `line` stands a stressed phoneme: one or more letters, then a digit.
pub open spec fn stressed_phoneme_at(line: Seq<char>, i: int) -> bool {
    exists|j: int|
        #![trigger line[j]]
        i < j < line.len() && is_ascii_digit(line[j]) && forall|k: int|
            i <= k < j ==> is_ascii_letter(#[trigger] line[k])
}

/// The number of places among the first `n` characters of `line` where
/// whitespace is followed by a stressed phoneme.
pub open spec fn stress_marks_before(line: Seq<char>, n: int) -> nat
    decreases n,
{
    if n <= 0 {
        0
    } else {
        stress_marks_before(line, n - 1) + if is_white_space(line[n - 1]) && stressed_phoneme_at(
            line,
            n,
        ) {
            1nat
        } else {
            0nat
        }
    }
}

/// The number of stress-marked phonemes of an entry line: the matches of
/// `\s(?:[[:alpha:]]+([[:digit:]]))` in it.
pub open spec fn stress_marks(line: Seq<char>) -> nat {
    stress_marks_before(line, line.len() as int)
}

/// Relies on `regex::Regex::new` and `Regex::captures_iter` with the pattern
/// `\s(?:[[:alpha:]]+([[:digit:]]))`: the matches never overlap, so there is
/// one for each whitespace character followed by letters and a digit. The
/// pattern is valid, so compiling it does not fail.
#[verifier::external_body]
fn count_stress_marks(line: &str) -> (r: usize)
    ensures
        r as nat == stress_marks(line@),
{
    regex::Regex::new(r"\s(?:[[:alpha:]]+([[:digit:]]))").unwrap().captures_iter(line).count()
}

/// `p` is a prefix of `s`.
pub open spec fn has_prefix(s: Seq<char>, p: Seq<char>) -> bool {
    p.len() <= s.len() && s.subrange(0, p.len() as int) == p
}

/// The prefix that marks the entry of `word`: its upper-case form and a space.
pub open spec fn entry_key(word: Seq<char>) -> Seq<char> {
    upper_of(word) + seq![' ']
}

/// The first of `lines` that starts with `key`.
pub open spec fn first_entry(lines: Seq<Seq<char>>, key: Seq<char>) -> Option<Seq<char>>
    decreases lines.len(),
{
    if lines.len() == 0 {
        None
    } else if has_prefix(lines[0], key) {
        Some(lines[0])
    } else {
        first_entry(lines.drop_first(), key)
    }
}

/// The syllables of `word` in the entry lines `dict`: none where the word has
/// a character other than word characters and apostrophes, or no entry.
pub open spec fn dictionary_syllables(dict: Seq<Seq<char>>, word: Seq<char>) -> Option<nat> {
    if !word_shape(word) {
        None
    } else {
        match first_entry(dict, entry_key(word)) {
            Some(line) => Some(stress_marks(line)),
            None => None,
        }
    }
}

/// A pronunciation dictionary: its entry lines, in file order.
pub struct Dictionary {
    entries: Vec<String>,
}

impl View for Dictionary {
    type V = Seq<Seq<char>>;

    closed spec fn view(&self) -> Seq<Seq<char>> {
        crate::text::views(self.entries@)
    }
}

/// Whether `s` starts with `p`.
fn starts_with(s: &str, p: &str) -> (r: bool)
    ensures
        r == has_prefix(s@, p@),
{
    let n = s.unicode_len();
    let m = p.unicode_len();
    if m > n {
        return false;
    }
    let mut i: usize = 0;
    while i < m
        invariant
            n == s@.len(),
            m == p@.len(),
            m <= n,
            i <= m,
            s@.subrange(0, i as int) == p@.subrange(0, i as int),
        decreases m - i,
    {
        if s.get_char(i) != p.get_char(i) {
            return false;
        }
        assert(s@.subrange(0, i + 1) =~= s@.subrange(0, i as int).push(s@[i as int]));
        assert(p@.subrange(0, i + 1) =~= p@.subrange(0, i as int).push(p@[i as int]));
        i = i + 1;
    }
    assert(p@.subrange(0, m as int) =~= p@);
    true
}

impl Dictionary {
    /// A dictionary of the given entry lines.
    pub fn new(entries: Vec<String>) -> (r: Dictionary)
        ensures
            r@ == crate::text::views(entries@),
    {
        Dictionary { entries }
    }

    /// The number of entry lines.
    pub fn len(&self) -> (r: usize)
        ensures
            r == self@.len(),
    {
        self.entries.len()
    }

    /// The stress marks of the first entry line that starts with `upper` and
    /// a space; none if no line does.
    pub fn entry_syllables(&self, upper: &str) -> (r: Option<usize>)
        ensures
            match first_entry(self@, upper@ + seq![' ']) {
                Some(line) => r == Some(stress_marks(line) as usize) && stress_marks(line)
                    <= usize::MAX,
                None => r is None,
            },
    {
        proof {
            reveal_strlit(" ");
        }
        let key = upper.to_owned().concat(" ");
        assert(key@ =~= upper@ + seq![' ']);
        assert(self@.len() == self.entries@.len());
        assert(self@.subrange(0, self@.len() as int) =~= self@);
        let mut i: usize = 0;
        while i < self.entries.len()
            invariant
                i <= self.entries@.len(),
                self@.len() == self.entries@.len(),
                key@ == upper@ + seq![' '],
                first_entry(self@, key@) == first_entry(
                    self@.subrange(i as int, self@.len() as int),
                    key@,
                ),
            decreases self.entries@.len() - i,
        {
            let line = &self.entries[i];
            assert(self@[i as int] == line@);
            assert(self@.subrange(i as int, self@.len() as int)[0] == line@);
            if starts_with(line.as_str(), key.as_str()) {
                let ghost rest = self@.subrange(i as int, self@.len() as int);
                assert(rest.len() > 0 && has_prefix(rest[0], key@));
                assert(first_entry(rest, key@) == Some(line@));
                return Some(count_stress_marks(line.as_str()));
            }
            assert(self@.subrange(i as int, self@.len() as int).drop_first() =~= self@.subrange(
                i + 1,
                self@.len() as int,
            ));
            i = i + 1;
        }
        None
    }

    /// Looks `word` up: the stress marks of the first entry line that starts
    /// with the upper-case word and a space. Nothing is scanned for a word
    /// with a character other than word characters and apostrophes.
    pub fn lookup(&self, word: &str) -> (r: Option<usize>)
        ensures
            match r {
                Some(n) => dictionary_syllables(self@, word@) == Some(n as nat),
                None => dictionary_syllables(self@, word@) is None,
            },
    {
        if !has_word_shape(word) {
            return None;
        }
        let upper = to_uppercase(word);
        self.entry_syllables(upper.as_str())
    }
}

} // verus!
