//! Tokenising rules: whitespace splitting, punctuation trimming, joining.
use vstd::prelude::*;

verus! {

/// The characters with the Unicode `White_Space` property.
pub open spec fn is_white_space(c: char) -> bool {
    let u = c as u32;
    ||| 0x09 <= u <= 0x0d
    ||| u == 0x20
    ||| u == 0x85
    ||| u == 0xa0
    ||| u == 0x1680
    ||| 0x2000 <= u <= 0x200a
    ||| u == 0x2028
    ||| u == 0x2029
    ||| u == 0x202f
    ||| u == 0x205f
    ||| u == 0x3000
}

/// Tests a character for the Unicode `White_Space` property.
pub fn white_space(c: char) -> (r: bool)
    ensures
        r == is_white_space(c),
{
    let u = c as u32;
    (0x09 <= u && u <= 0x0d) || u == 0x20 || u == 0x85 || u == 0xa0 || u == 0x1680 || (0x2000
        <= u && u <= 0x200a) || u == 0x2028 || u == 0x2029 || u == 0x202f || u == 0x205f || u
        == 0x3000
}

/// Scans `s` from the left: the words completed so far, and the word being read.
pub open spec fn scan_words(s: Seq<char>) -> (Seq<Seq<char>>, Seq<char>)
    decreases s.len(),
{
    if s.len() == 0 {
        (Seq::empty(), Seq::empty())
    } else {
        let prev = scan_words(s.drop_last());
        let c = s.last();
        if is_white_space(c) {
            if prev.1.len() > 0 {
                (prev.0.push(prev.1), Seq::empty())
            } else {
                prev
            }
        } else {
            (prev.0, prev.1.push(c))
        }
    }
}

/// The maximal runs of non-whitespace characters of `s`, in order.
pub open spec fn words_of(s: Seq<char>) -> Seq<Seq<char>> {
    let st = scan_words(s);
    if st.1.len() > 0 {
        st.0.push(st.1)
    } else {
        st.0
    }
}

/// The views of a vector of strings.
pub open spec fn views(v: Seq<String>) -> Seq<Seq<char>> {
    v.map_values(|w: String| w@)
}

/// Splits `s` on runs of whitespace; no word is empty.
pub fn split_words(s: &str) -> (r: Vec<String>)
    ensures
        views(r@) == words_of(s@),
{
    let n = s.unicode_len();
    let mut out: Vec<String> = Vec::new();
    let mut start: usize = 0;
    let mut i: usize = 0;
    while i < n
        invariant
            n == s@.len(),
            start <= i <= n,
            scan_words(s@.take(i as int)).0 == views(out@),
            scan_words(s@.take(i as int)).1 == s@.subrange(start as int, i as int),
        decreases n - i,
    {
        let c = s.get_char(i);
        let ghost prev = scan_words(s@.take(i as int));
        proof {
            assert(s@.take(i + 1).drop_last() =~= s@.take(i as int));
            assert(s@.take(i + 1).last() == c);
        }
        if white_space(c) {
            if start < i {
                let w = s.substring_char(start, i).to_owned();
                proof {
                    assert(views(out@.push(w)) =~= views(out@).push(w@));
                }
                out.push(w);
            }
            start = i + 1;
        } else {
            assert(s@.subrange(start as int, i + 1) =~= s@.subrange(start as int, i as int).push(
                c,
            ));
        }
        i = i + 1;
    }
    assert(s@.take(n as int) =~= s@);
    if start < n {
        let w = s.substring_char(start, n).to_owned();
        proof {
            assert(views(out@.push(w)) =~= views(out@).push(w@));
        }
        out.push(w);
    }
    out
}

/// Whether `a` and `b` hold the same characters.
pub fn same_text(a: &str, b: &str) -> (r: bool)
    ensures
        r == (a@ == b@),
{
    let n = a.unicode_len();
    if n != b.unicode_len() {
        return false;
    }
    let mut i: usize = 0;
    while i < n
        invariant
            n == a@.len(),
            n == b@.len(),
            i <= n,
            a@.take(i as int) == b@.take(i as int),
        decreases n - i,
    {
        if a.get_char(i) != b.get_char(i) {
            return false;
        }
        assert(a@.take(i + 1) =~= a@.take(i as int).push(a@[i as int]));
        assert(b@.take(i + 1) =~= b@.take(i as int).push(b@[i as int]));
        i = i + 1;
    }
    assert(a@.take(n as int) =~= a@);
    assert(b@.take(n as int) =~= b@);
    true
}

/// What `char::is_alphanumeric` answers for a character.
pub uninterp spec fn alnum(c: char) -> bool;

/// Relies on `char::is_alphanumeric`: whether `c` is alphabetic or numeric in
/// Unicode; the answer depends on `c` alone.
#[verifier::external_body]
fn is_alphanumeric(c: char) -> (r: bool)
    ensures
        r == alnum(c),
{
    c.is_alphanumeric()
}

/// `s` without its leading non-alphanumeric characters.
pub open spec fn trim_start(s: Seq<char>) -> Seq<char>
    decreases s.len(),
{
    if s.len() > 0 && !alnum(s[0]) {
        trim_start(s.drop_first())
    } else {
        s
    }
}

/// `s` without its trailing non-alphanumeric characters.
pub open spec fn trim_end(s: Seq<char>) -> Seq<char>
    decreases s.len(),
{
    if s.len() > 0 && !alnum(s.last()) {
        trim_end(s.drop_last())
    } else {
        s
    }
}

/// `s` without the non-alphanumeric characters at either end; inner ones stay.
pub open spec fn trim_punctuation(s: Seq<char>) -> Seq<char> {
    trim_end(trim_start(s))
}

/// Strips the non-alphanumeric characters from both ends of `s`.
pub fn strip_punctuation(s: &str) -> (r: String)
    ensures
        r@ == trim_punctuation(s@),
{
    let n = s.unicode_len();
    let mut a: usize = 0;
    assert(s@.subrange(0, n as int) =~= s@);
    while a < n && !is_alphanumeric(s.get_char(a))
        invariant
            n == s@.len(),
            a <= n,
            trim_start(s@.subrange(a as int, n as int)) == trim_start(s@),
        decreases n - a,
    {
        assert(s@.subrange(a as int, n as int).drop_first() =~= s@.subrange(a + 1, n as int));
        a = a + 1;
    }
    assert(trim_start(s@) == s@.subrange(a as int, n as int));
    let mut b: usize = n;
    while b > a && !is_alphanumeric(s.get_char(b - 1))
        invariant
            n == s@.len(),
            a <= b <= n,
            trim_start(s@) == s@.subrange(a as int, n as int),
            trim_end(s@.subrange(a as int, b as int)) == trim_punctuation(s@),
        decreases b,
    {
        assert(s@.subrange(a as int, b as int).drop_last() =~= s@.subrange(a as int, b - 1));
        b = b - 1;
    }
    s.substring_char(a, b).to_owned()
}

/// The words of `ws` with one space between each two.
pub open spec fn join_words(ws: Seq<Seq<char>>) -> Seq<char>
    decreases ws.len(),
{
    if ws.len() == 0 {
        Seq::empty()
    } else if ws.len() == 1 {
        ws[0]
    } else {
        join_words(ws.drop_last()) + seq![' '] + ws.last()
    }
}

/// Joins `ws` with single spaces.
pub fn join_with_spaces(ws: &Vec<String>) -> (r: String)
    ensures
        r@ == join_words(views(ws@)),
{
    let mut r = String::new();
    let mut i: usize = 0;
    while i < ws.len()
        invariant
            i <= ws@.len(),
            r@ == join_words(views(ws@).take(i as int)),
        decreases ws@.len() - i,
    {
        proof {
            assert(views(ws@).take(i + 1).drop_last() =~= views(ws@).take(i as int));
        }
        if i > 0 {
            proof {
                reveal_strlit(" ");
            }
            r.append(" ");
        }
        r.append(ws[i].as_str());
        proof {
            if i == 0 {
                assert(r@ =~= views(ws@).take(1)[0]);
            }
        }
        i = i + 1;
    }
    assert(views(ws@).take(ws@.len() as int) =~= views(ws@));
    r
}

} // verus!
