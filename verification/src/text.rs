//! Character classes and small text checks shared by the name and domain rules.
use vstd::prelude::*;

verus! {

/// An ASCII decimal digit.
pub open spec fn is_digit(c: char) -> bool {
    '0' <= c && c <= '9'
}

/// A character allowed in an app name or a domain label: an ASCII letter or digit,
/// `-` or `_`.
pub open spec fn is_word_char(c: char) -> bool {
    ||| ('a' <= c && c <= 'z')
    ||| ('A' <= c && c <= 'Z')
    ||| is_digit(c)
    ||| c == '-'
    ||| c == '_'
}

/// The characters of `s` that are not word characters, each once, in the order in
/// which they first occur.
pub open spec fn bad_chars(s: Seq<char>) -> Seq<char>
    decreases s.len(),
{
    if s.len() == 0 {
        Seq::<char>::empty()
    } else {
        let earlier = bad_chars(s.drop_last());
        if !is_word_char(s.last()) && !earlier.contains(s.last()) {
            earlier.push(s.last())
        } else {
            earlier
        }
    }
}

/// Whether `c` is an ASCII decimal digit.
pub fn char_is_digit(c: char) -> (r: bool)
    ensures
        r == is_digit(c),
{
    '0' <= c && c <= '9'
}

/// Whether `c` is an ASCII letter or digit, `-` or `_`.
pub fn char_is_word(c: char) -> (r: bool)
    ensures
        r == is_word_char(c),
{
    ('a' <= c && c <= 'z') || ('A' <= c && c <= 'Z') || ('0' <= c && c <= '9') || c == '-' || c
        == '_'
}

fn vec_has_char(v: &Vec<char>, c: char) -> (r: bool)
    ensures
        r == v@.contains(c),
{
    let mut i: usize = 0;
    while i < v.len()
        invariant
            i <= v.len(),
            forall|j: int| 0 <= j < i ==> v@[j] != c,
        decreases v.len() - i,
    {
        if v[i] == c {
            assert(v@[i as int] == c);
            return true;
        }
        i = i + 1;
    }
    false
}

/// The characters of `s` that are not word characters, each once, in order of first
/// occurrence.
pub fn find_bad_chars(s: &str) -> (bad: Vec<char>)
    ensures
        bad@ == bad_chars(s@),
{
    let n = s.unicode_len();
    let mut bad: Vec<char> = Vec::new();
    let mut i: usize = 0;
    while i < n
        invariant
            n == s@.len(),
            i <= n,
            bad@ == bad_chars(s@.take(i as int)),
        decreases n - i,
    {
        let c = s.get_char(i);
        let ghost next = s@.take(i as int + 1);
        assert(next.drop_last() =~= s@.take(i as int));
        assert(next.last() == c);
        if !char_is_word(c) && !vec_has_char(&bad, c) {
            bad.push(c);
        }
        i = i + 1;
    }
    assert(s@.take(n as int) =~= s@);
    bad
}

/// Whether two texts hold the same characters.
pub fn same_text(a: &str, b: &str) -> (r: bool)
    ensures
        r == (a@ == b@),
{
    let n = a.unicode_len();
    if n != b.unicode_len() {
        return false;
    }
    let mut i: usize = 0;
    while i < n
        invariant
            n == a@.len(),
            n == b@.len(),
            i <= n,
            forall|j: int| 0 <= j < i ==> a@[j] == b@[j],
        decreases n - i,
    {
        if a.get_char(i) != b.get_char(i) {
            return false;
        }
        i = i + 1;
    }
    assert(a@ =~= b@);
    true
}


/// The bad characters of a text are exactly the characters in it that are not word
/// characters, each listed once.
pub proof fn lemma_bad_chars_exact(s: Seq<char>)
    ensures
        forall|c: char| #[trigger] bad_chars(s).contains(c) <==> (s.contains(c) && !is_word_char(c)),
        bad_chars(s).no_duplicates(),
        bad_chars(s).len() == 0 <==> (forall|i: int| 0 <= i < s.len() ==> is_word_char(#[trigger] s[i])),
    decreases s.len(),
{
    if s.len() > 0 {
        let t = s.drop_last();
        lemma_bad_chars_exact(t);
        let earlier = bad_chars(t);
        let last = s.last();
        assert forall|c: char| #[trigger] bad_chars(s).contains(c) <==> (s.contains(c) && !is_word_char(c)) by {
            if s.contains(c) {
                let k = choose|k: int| 0 <= k < s.len() && s[k] == c;
                if k < t.len() {
                    assert(t[k] == c);
                    assert(t.contains(c));
                }
            }
            if t.contains(c) {
                let k = choose|k: int| 0 <= k < t.len() && t[k] == c;
                assert(s[k] == c);
            }
            assert(s[s.len() - 1] == last);
            if !is_word_char(last) && !earlier.contains(last) {
                assert(earlier.push(last)[earlier.len() as int] == last);
                if earlier.push(last).contains(c) && c != last {
                    let k = choose|k: int| 0 <= k < earlier.push(last).len() && earlier.push(last)[k] == c;
                    assert(earlier[k] == c);
                }
                if earlier.contains(c) {
                    let k = choose|k: int| 0 <= k < earlier.len() && earlier[k] == c;
                    assert(earlier.push(last)[k] == c);
                }
            }
        }
        if !is_word_char(last) && !earlier.contains(last) {
            let out = earlier.push(last);
            assert forall|i: int, j: int| 0 <= i < out.len() && 0 <= j < out.len() && i != j implies out[i]
                != out[j] by {
                if i < earlier.len() && j < earlier.len() {
                } else if i == earlier.len() {
                    assert(earlier[j] == out[j]);
                } else {
                    assert(earlier[i] == out[i]);
                }
            }
        }
        if bad_chars(s).len() == 0 {
            assert forall|i: int| 0 <= i < s.len() implies is_word_char(#[trigger] s[i]) by {
                if !is_word_char(s[i]) {
                    assert(s.contains(s[i]));
                    assert(bad_chars(s).contains(s[i]));
                }
            }
        }
        if forall|i: int| 0 <= i < s.len() ==> is_word_char(#[trigger] s[i]) {
            assert forall|i: int| 0 <= i < t.len() implies is_word_char(#[trigger] t[i]) by {
                assert(t[i] == s[i]);
            }
            assert(is_word_char(s[s.len() - 1]));
        }
    }
}

} // verus!
