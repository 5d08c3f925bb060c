//! Syllable counting of words and lines, and the single-message haiku check.
use crate::dictionary::{
    dictionary_syllables, entry_key, first_entry, stress_marks, upper_of, word_shape, Dictionary,
};
use crate::text::{
    join_with_spaces, join_words, split_words, strip_punctuation, trim_punctuation, views,
    words_of,
};
use cached::stores::LruCache;
use cached::Cached;
use vstd::prelude::*;

verus! {

#[verifier::external_type_specification]
#[verifier::external_body]
#[verifier::reject_recursive_types(K)]
#[verifier::reject_recursive_types(V)]
#[verifier::reject_recursive_types(S)]
pub struct ExLruCache<K, V, S>(LruCache<K, V, S>);

/// The entries that a word cache holds, by key.
pub uninterp spec fn cache_entries(c: LruCache<String, Option<usize>>) -> Map<
    Seq<char>,
    Option<usize>,
>;

/// The number of entries that a word cache was made to hold at most.
pub uninterp spec fn cache_capacity(c: LruCache<String, Option<usize>>) -> nat;

/// Relies on `cached::stores::LruCache::new`: an empty cache that holds at most
/// `size` entries. It panics on a size of zero, or on one too large to allocate.
#[verifier::external_body]
fn new_cache(size: usize) -> (c: LruCache<String, Option<usize>>)
    requires
        0 < size <= 4096,
    ensures
        cache_entries(c).dom().is_empty(),
        cache_capacity(c) == size,
{
    LruCache::new(size)
}

/// Relies on `Cached::cache_get` of `LruCache`: the value stored under `key`, if
/// any. Only the recency order changes, not the entries or the capacity.
#[verifier::external_body]
fn cache_lookup(c: &mut LruCache<String, Option<usize>>, key: &String) -> (r: Option<
    Option<usize>,
>)
    ensures
        cache_entries(*final(c)) == cache_entries(*old(c)),
        cache_capacity(*final(c)) == cache_capacity(*old(c)),
        r == (if cache_entries(*old(c)).contains_key(key@) {
            Some(cache_entries(*old(c))[key@])
        } else {
            None
        }),
{
    c.cache_get(key).copied()
}

/// Relies on `Cached::cache_set` of `LruCache`: `key` is stored with `value` as
/// the most recent entry; while there are more entries than the capacity, the
/// least recent one is evicted, so with a capacity of one or more the new entry
/// stays and every other entry is one that was there before.
#[verifier::external_body]
fn cache_store(c: &mut LruCache<String, Option<usize>>, key: String, value: Option<usize>)
    requires
        cache_capacity(*old(c)) > 0,
    ensures
        cache_capacity(*final(c)) == cache_capacity(*old(c)),
        cache_entries(*final(c)).contains_key(key@),
        cache_entries(*final(c))[key@] == value,
        forall|k: Seq<char>|
            #![trigger cache_entries(*final(c)).contains_key(k)]
            cache_entries(*final(c)).contains_key(k) && k != key@ ==> cache_entries(
                *old(c),
            ).contains_key(k) && cache_entries(*final(c))[k] == cache_entries(*old(c))[k],
        cache_entries(*final(c)).dom().finite(),
        cache_entries(*final(c)).len() <= cache_capacity(*final(c)),
{
    c.cache_set(key, value);
}

/// The number of words a counter remembers.
pub const WORD_CACHE_SIZE: usize = 1000;

/// A word could not be given a syllable count.
#[derive(Debug, Clone, Copy, PartialEq, Eq, Structural)]
pub struct Uncountable;

/// The count that a result stands for; none for `Uncountable`.
pub open spec fn counted(r: Result<usize, Uncountable>) -> Option<nat> {
    match r {
        Ok(n) => Some(n as nat),
        Err(_) => None,
    }
}

/// The count that a cache value stands for.
pub open spec fn remembered(v: Option<usize>) -> Option<nat> {
    match v {
        Some(n) => Some(n as nat),
        None => None,
    }
}

/// Counts syllables of words against a dictionary, remembering the answers for
/// the most recently used words.
pub struct SyllableCounter {
    dictionary: Dictionary,
    cache: LruCache<String, Option<usize>>,
    lookup_calls: u64,
}

impl SyllableCounter {
    /// The entry lines of the dictionary counted against.
    pub closed spec fn dict(&self) -> Seq<Seq<char>> {
        self.dictionary@
    }

    /// The remembered answers, by exact word.
    pub closed spec fn remembered(&self) -> Map<Seq<char>, Option<usize>> {
        cache_entries(self.cache)
    }

    /// How many times the dictionary was consulted, that is how many counts
    /// were not answered from memory (stops at `u64::MAX`).
    pub closed spec fn lookup_count(&self) -> nat {
        self.lookup_calls as nat
    }

    /// Every remembered answer is the dictionary's, and there are at most
    /// `WORD_CACHE_SIZE` of them.
    pub closed spec fn wf(&self) -> bool {
        &&& cache_capacity(self.cache) == WORD_CACHE_SIZE
        &&& self.remembered().dom().finite()
        &&& self.remembered().len() <= WORD_CACHE_SIZE
        &&& forall|w: Seq<char>| #[trigger]
            self.remembered().contains_key(w) ==> remembered(self.remembered()[w])
                == dictionary_syllables(self.dict(), w)
    }

    /// A counter over `dictionary` that remembers nothing yet.
    pub fn new(dictionary: Dictionary) -> (r: SyllableCounter)
        ensures
            r.wf(),
            r.dict() == dictionary@,
            r.remembered() == Map::<Seq<char>, Option<usize>>::empty(),
            r.lookup_count() == 0,
    {
        let cache = new_cache(WORD_CACHE_SIZE);
        SyllableCounter { dictionary, cache, lookup_calls: 0 }
    }

    /// How many times the dictionary was consulted; stops growing at
    /// `u64::MAX`.
    pub fn lookups(&self) -> (r: u64)
        ensures
            r as nat == self.lookup_count(),
    {
        self.lookup_calls
    }
}

/// Counts the syllables of `word` exactly as given: a remembered answer if
/// there is one, else a dictionary lookup whose answer is then remembered.
pub fn count_word(counter: &mut SyllableCounter, word: &str) -> (r: Result<usize, Uncountable>)
    requires
        old(counter).wf(),
    ensures
        final(counter).wf(),
        final(counter).dict() == old(counter).dict(),
        counted(r) == dictionary_syllables(old(counter).dict(), word@),
        final(counter).remembered().contains_key(word@),
        old(counter).remembered().contains_key(word@) ==> final(counter).lookup_count() == old(
            counter,
        ).lookup_count(),
{
    let key = word.to_owned();
    let found = cache_lookup(&mut counter.cache, &key);
    let v = match found {
        Some(v) => v,
        None => {
            let v = counter.dictionary.lookup(word);
            counter.lookup_calls = counter.lookup_calls.saturating_add(1);
            cache_store(&mut counter.cache, key, v);
            v
        },
    };
    match v {
        Some(n) => Ok(n),
        None => Err(Uncountable),
    }
}

/// The syllables of a token: its own count if it has one, else that of the
/// token with the punctuation at both ends trimmed.
pub open spec fn token_syllables(dict: Seq<Seq<char>>, token: Seq<char>) -> Option<nat> {
    match dictionary_syllables(dict, token) {
        Some(n) => Some(n),
        None => dictionary_syllables(dict, trim_punctuation(token)),
    }
}

/// The total syllables of `tokens`; none if one of them has no count.
pub open spec fn tokens_syllables(dict: Seq<Seq<char>>, tokens: Seq<Seq<char>>) -> Option<nat>
    decreases tokens.len(),
{
    if tokens.len() == 0 {
        Some(0)
    } else {
        match (tokens_syllables(dict, tokens.drop_last()), token_syllables(dict, tokens.last())) {
            (Some(a), Some(b)) => Some(a + b),
            _ => None,
        }
    }
}

/// The syllables of a line: the sum over its whitespace-separated tokens.
pub open spec fn line_syllables(dict: Seq<Seq<char>>, line: Seq<char>) -> Option<nat> {
    tokens_syllables(dict, words_of(line))
}

/// A count as a machine word can hold it: none where it is too large.
pub open spec fn fitting(n: Option<nat>) -> Option<nat> {
    match n {
        Some(k) => if k <= usize::MAX {
            Some(k)
        } else {
            None
        },
        None => None,
    }
}

/// The three lines count 5, 7 and 5 syllables.
pub open spec fn is_five_seven_five(
    dict: Seq<Seq<char>>,
    a: Seq<char>,
    b: Seq<char>,
    c: Seq<char>,
) -> bool {
    &&& line_syllables(dict, a) == Some(5nat)
    &&& line_syllables(dict, b) == Some(7nat)
    &&& line_syllables(dict, c) == Some(5nat)
}

/// Counts a token, retrying with its punctuation trimmed when it has no count.
pub fn count_token(counter: &mut SyllableCounter, token: &str) -> (r: Result<usize, Uncountable>)
    requires
        old(counter).wf(),
    ensures
        final(counter).wf(),
        final(counter).dict() == old(counter).dict(),
        counted(r) == token_syllables(old(counter).dict(), token@),
{
    match count_word(counter, token) {
        Ok(n) => Ok(n),
        Err(_) => {
            let trimmed = strip_punctuation(token);
            count_word(counter, trimmed.as_str())
        },
    }
}

/// Counts the syllables of a line: the sum over its whitespace-separated
/// tokens, each counted as `count_token` does. `Uncountable` if a token has no
/// count, or if the sum does not fit in a `usize`.
pub fn count_line(counter: &mut SyllableCounter, line: &str) -> (r: Result<usize, Uncountable>)
    requires
        old(counter).wf(),
    ensures
        final(counter).wf(),
        final(counter).dict() == old(counter).dict(),
        counted(r) == fitting(line_syllables(old(counter).dict(), line@)),
{
    let ghost dict = counter.dict();
    let words = split_words(line);
    let ghost ws = views(words@);
    let mut total: usize = 0;
    let mut i: usize = 0;
    while i < words.len()
        invariant
            counter.wf(),
            counter.dict() == dict,
            dict == old(counter).dict(),
            ws == views(words@),
            ws == words_of(line@),
            i <= words@.len(),
            tokens_syllables(dict, ws.take(i as int)) == Some(total as nat),
        decreases words@.len() - i,
    {
        proof {
            assert(ws.take(i + 1).drop_last() =~= ws.take(i as int));
            assert(ws.take(i + 1).last() == words@[i as int]@);
        }
        match count_token(counter, words[i].as_str()) {
            Ok(n) => {
                if n > usize::MAX - total {
                    proof {
                        lemma_tokens_syllables_grow(dict, ws, i as int + 1);
                    }
                    return Err(Uncountable);
                }
                total = total + n;
            },
            Err(_) => {
                proof {
                    lemma_tokens_syllables_none(dict, ws, i as int + 1);
                }
                return Err(Uncountable);
            },
        }
        i = i + 1;
    }
    assert(ws.take(words@.len() as int) =~= ws);
    Ok(total)
}

/// A total over a prefix bounds the total over the whole, when there is one.
proof fn lemma_tokens_syllables_grow(dict: Seq<Seq<char>>, ws: Seq<Seq<char>>, i: int)
    requires
        0 <= i <= ws.len(),
        tokens_syllables(dict, ws.take(i)) is Some,
    ensures
        tokens_syllables(dict, ws) is Some ==> tokens_syllables(dict, ws)->0 >= tokens_syllables(
            dict,
            ws.take(i),
        )->0,
    decreases ws.len() - i,
{
    if i < ws.len() {
        assert(ws.take(i + 1).drop_last() =~= ws.take(i));
        if tokens_syllables(dict, ws.take(i + 1)) is Some {
            lemma_tokens_syllables_grow(dict, ws, i + 1);
        } else {
            lemma_tokens_syllables_none(dict, ws, i + 1);
        }
    } else {
        assert(ws.take(i) =~= ws);
    }
}

/// A token without a count leaves the whole without a total.
proof fn lemma_tokens_syllables_none(dict: Seq<Seq<char>>, ws: Seq<Seq<char>>, i: int)
    requires
        0 <= i <= ws.len(),
        tokens_syllables(dict, ws.take(i)) is None,
    ensures
        tokens_syllables(dict, ws) is None,
    decreases ws.len() - i,
{
    if i < ws.len() {
        assert(ws.take(i + 1).drop_last() =~= ws.take(i));
        lemma_tokens_syllables_none(dict, ws, i + 1);
    } else {
        assert(ws.take(i) =~= ws);
    }
}

/// Whether three lines count 5, 7 and 5 syllables.
pub(crate) fn five_seven_five(counter: &mut SyllableCounter, a: &str, b: &str, c: &str) -> (r: bool)
    requires
        old(counter).wf(),
    ensures
        final(counter).wf(),
        final(counter).dict() == old(counter).dict(),
        r == is_five_seven_five(old(counter).dict(), a@, b@, c@),
{
    let ghost dict = counter.dict();
    let ra = count_line(counter, a);
    if !matches!(ra, Ok(5)) {
        return false;
    }
    let rb = count_line(counter, b);
    if !matches!(rb, Ok(7)) {
        return false;
    }
    let rc = count_line(counter, c);
    matches!(rc, Ok(5))
}

/// Whether the first three lines count 5, 7 and 5 syllables.
pub fn is_haiku(counter: &mut SyllableCounter, lines: &[String]) -> (r: bool)
    requires
        old(counter).wf(),
        lines@.len() >= 3,
    ensures
        final(counter).wf(),
        final(counter).dict() == old(counter).dict(),
        r == is_five_seven_five(old(counter).dict(), lines@[0]@, lines@[1]@, lines@[2]@),
{
    five_seven_five(counter, lines[0].as_str(), lines[1].as_str(), lines[2].as_str())
}

/// The words of `ws` spread over three segments by the running total of their
/// syllables: a word goes to the first while the total with it is at most 5,
/// to the second while it is at most 12, else to the third. Gives the total and
/// the segments; none if a word has no count.
pub open spec fn spread_words(dict: Seq<Seq<char>>, ws: Seq<Seq<char>>) -> Option<
    (nat, Seq<Seq<char>>, Seq<Seq<char>>, Seq<Seq<char>>),
>
    decreases ws.len(),
{
    if ws.len() == 0 {
        Some((0nat, Seq::empty(), Seq::empty(), Seq::empty()))
    } else {
        match spread_words(dict, ws.drop_last()) {
            None => None,
            Some(p) => match token_syllables(dict, ws.last()) {
                None => None,
                Some(n) => {
                    let t = p.0 + n;
                    let w = ws.last();
                    if t <= 5 {
                        Some((t, p.1.push(w), p.2, p.3))
                    } else if t <= 12 {
                        Some((t, p.1, p.2.push(w), p.3))
                    } else {
                        Some((t, p.1, p.2, p.3.push(w)))
                    }
                },
            },
        }
    }
}

/// The single-message reading of `line`: none if a word has no count; else the
/// three spread segments, joined with spaces, when they count 5, 7 and 5.
pub open spec fn inline_haiku(dict: Seq<Seq<char>>, line: Seq<char>) -> Option<
    Option<Seq<Seq<char>>>,
> {
    match spread_words(dict, words_of(line)) {
        None => None,
        Some(p) => {
            let a = join_words(p.1);
            let b = join_words(p.2);
            let c = join_words(p.3);
            if is_five_seven_five(dict, a, b, c) {
                Some(Some(seq![a, b, c]))
            } else {
                Some(None)
            }
        },
    }
}

/// A word without a count leaves the whole without a spread.
proof fn lemma_spread_none(dict: Seq<Seq<char>>, ws: Seq<Seq<char>>, i: int)
    requires
        0 <= i <= ws.len(),
        spread_words(dict, ws.take(i)) is None,
    ensures
        spread_words(dict, ws) is None,
    decreases ws.len() - i,
{
    if i < ws.len() {
        assert(ws.take(i + 1).drop_last() =~= ws.take(i));
        lemma_spread_none(dict, ws, i + 1);
    } else {
        assert(ws.take(i) =~= ws);
    }
}

/// Reads one message line as a whole haiku: spreads its words over three
/// lines by running syllable total and keeps them if they count 5, 7 and 5.
pub fn is_haiku_single(counter: &mut SyllableCounter, line: &str) -> (r: Result<
    Option<[String; 3]>,
    Uncountable,
>)
    requires
        old(counter).wf(),
    ensures
        final(counter).wf(),
        final(counter).dict() == old(counter).dict(),
        match r {
            Err(_) => inline_haiku(old(counter).dict(), line@) is None,
            Ok(None) => inline_haiku(old(counter).dict(), line@) == Some(None::<Seq<Seq<char>>>),
            Ok(Some(lines)) => inline_haiku(old(counter).dict(), line@) == Some(
                Some(seq![lines@[0]@, lines@[1]@, lines@[2]@]),
            ),
        },
{
    let ghost dict = counter.dict();
    let words = split_words(line);
    let ghost ws = views(words@);
    let mut total: usize = 0;
    let mut first: Vec<String> = Vec::new();
    let mut second: Vec<String> = Vec::new();
    let mut third: Vec<String> = Vec::new();
    let mut i: usize = 0;
    while i < words.len()
        invariant
            counter.wf(),
            counter.dict() == dict,
            dict == old(counter).dict(),
            ws == views(words@),
            ws == words_of(line@),
            i <= words@.len(),
            spread_words(dict, ws.take(i as int)) is Some,
            ({
                let p = spread_words(dict, ws.take(i as int))->0;
                &&& total as nat == if p.0 <= usize::MAX {
                    p.0
                } else {
                    usize::MAX as nat
                }
                &&& views(first@) == p.1
                &&& views(second@) == p.2
                &&& views(third@) == p.3
            }),
        decreases words@.len() - i,
    {
        proof {
            assert(ws.take(i + 1).drop_last() =~= ws.take(i as int));
            assert(ws.take(i + 1).last() == words@[i as int]@);
        }
        match count_token(counter, words[i].as_str()) {
            Ok(n) => {
                total = total.saturating_add(n);
                let w = words[i].clone();
                if total <= 5 {
                    proof {
                        assert(views(first@.push(w)) =~= views(first@).push(w@));
                    }
                    first.push(w);
                } else if total <= 12 {
                    proof {
                        assert(views(second@.push(w)) =~= views(second@).push(w@));
                    }
                    second.push(w);
                } else {
                    proof {
                        assert(views(third@.push(w)) =~= views(third@).push(w@));
                    }
                    third.push(w);
                }
            },
            Err(_) => {
                proof {
                    lemma_spread_none(dict, ws, i as int + 1);
                }
                return Err(Uncountable);
            },
        }
        i = i + 1;
    }
    assert(ws.take(words@.len() as int) =~= ws);
    let a = join_with_spaces(&first);
    let b = join_with_spaces(&second);
    let c = join_with_spaces(&third);
    if five_seven_five(counter, a.as_str(), b.as_str(), c.as_str()) {
        let lines = [a, b, c];
        assert(seq![lines@[0]@, lines@[1]@, lines@[2]@] =~= seq![a@, b@, c@]);
        Ok(Some(lines))
    } else {
        Ok(None)
    }
}

/// A word made of word characters and apostrophes is counted by the first
/// entry keyed by its upper-case form, so two such words that differ only in
/// case have the same count.
pub proof fn lemma_count_ignores_case(dict: Seq<Seq<char>>, w1: Seq<char>, w2: Seq<char>)
    requires
        word_shape(w1),
        word_shape(w2),
        upper_of(w1) == upper_of(w2),
        first_entry(dict, entry_key(w1)) is Some,
    ensures
        dictionary_syllables(dict, w1) == Some(stress_marks(first_entry(dict, entry_key(w1))->0)),
        dictionary_syllables(dict, w1) == dictionary_syllables(dict, w2),
{
}

/// A word with a character other than word characters and apostrophes has no
/// count, whatever the dictionary holds.
pub proof fn lemma_malformed_word_uncountable(dict: Seq<Seq<char>>, w: Seq<char>)
    requires
        !word_shape(w),
    ensures
        dictionary_syllables(dict, w) is None,
{
}

/// Counting the same word twice in a row gives the same answer, and the second
/// count is answered from memory without consulting the dictionary.
pub proof fn lemma_count_word_twice(
    c0: SyllableCounter,
    c1: SyllableCounter,
    c2: SyllableCounter,
    w: Seq<char>,
    r1: Result<usize, Uncountable>,
    r2: Result<usize, Uncountable>,
)
    requires
        c0.wf(),
        c1.wf(),
        c1.dict() == c0.dict(),
        counted(r1) == dictionary_syllables(c0.dict(), w),
        c1.remembered().contains_key(w),
        counted(r2) == dictionary_syllables(c1.dict(), w),
        c1.remembered().contains_key(w) ==> c2.lookup_count() == c1.lookup_count(),
    ensures
        r1 == r2,
        c2.lookup_count() == c1.lookup_count(),
{
    match (r1, r2) {
        (Ok(n1), Ok(n2)) => assert(n1 as nat == n2 as nat),
        (Err(e1), Err(e2)) => assert(e1 == e2),
        _ => {},
    }
}

} // verus!
