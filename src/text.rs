//! Small string utilities shared by the header parsers and the key builders.

use vstd::prelude::*;
use vstd::string::*;

verus! {

/// The pieces of `s` between occurrences of `sep`, with `cur` already
/// collected as the start of the first piece.
pub open spec fn split_from(s: Seq<char>, sep: char, cur: Seq<char>) -> Seq<Seq<char>>
    decreases s.len(),
{
    if s.len() == 0 {
        seq![cur]
    } else if s[0] == sep {
        seq![cur] + split_from(s.drop_first(), sep, Seq::empty())
    } else {
        split_from(s.drop_first(), sep, cur.push(s[0]))
    }
}

/// The pieces of `s` between occurrences of `sep` (always at least one).
pub open spec fn split_spec(s: Seq<char>, sep: char) -> Seq<Seq<char>> {
    split_from(s, sep, Seq::empty())
}

/// Whether `p` is a prefix of `s`.
pub open spec fn is_prefix(p: Seq<char>, s: Seq<char>) -> bool {
    p.len() <= s.len() && s.subrange(0, p.len() as int) == p
}

/// ASCII lower-casing of one character.
pub open spec fn ascii_lower_char(c: char) -> char {
    if 'A' <= c && c <= 'Z' {
        ((c as u32) + 32) as char
    } else {
        c
    }
}

/// ASCII lower-casing of a text: other characters are kept.
pub open spec fn ascii_lower(s: Seq<char>) -> Seq<char> {
    s.map_values(|c: char| ascii_lower_char(c))
}

/// Whether a character has the Unicode property White_Space.
pub open spec fn is_white_space(c: char) -> bool {
    ||| ('\t' <= c && c <= '\r')
    ||| c == ' ' || c == '\u{85}' || c == '\u{a0}' || c == '\u{1680}'
    ||| ('\u{2000}' <= c && c <= '\u{200a}')
    ||| c == '\u{2028}' || c == '\u{2029}' || c == '\u{202f}' || c == '\u{205f}' || c == '\u{3000}'
}

/// A text without its leading white space.
pub open spec fn trim_start_of(s: Seq<char>) -> Seq<char>
    decreases s.len(),
{
    if s.len() > 0 && is_white_space(s[0]) {
        trim_start_of(s.drop_first())
    } else {
        s
    }
}

/// A text without its trailing white space.
pub open spec fn trim_end_of(s: Seq<char>) -> Seq<char>
    decreases s.len(),
{
    if s.len() > 0 && is_white_space(s.last()) {
        trim_end_of(s.drop_last())
    } else {
        s
    }
}

/// A text without its leading and trailing white space.
pub open spec fn trim_of(s: Seq<char>) -> Seq<char> {
    trim_end_of(trim_start_of(s))
}

/// What `str::to_lowercase` returns on a text.
pub uninterp spec fn lower_of(s: Seq<char>) -> Seq<char>;

/// Relies on `str::trim`: leading and trailing characters with the Unicode
/// property White_Space are removed.
#[verifier::external_body]
pub(crate) fn trim_text(s: &str) -> (r: String)
    ensures
        r@ == trim_of(s@),
{
    s.trim().to_string()
}

/// Relies on `str::to_lowercase`: the result depends on the text alone, and
/// an empty text stays empty.
#[verifier::external_body]
pub(crate) fn lowercase_text(s: &str) -> (r: String)
    ensures
        r@ == lower_of(s@),
        s@.len() == 0 ==> r@.len() == 0,
{
    s.to_lowercase()
}

/// Relies on `str::to_ascii_lowercase`: ASCII capitals become small letters,
/// every other character is kept.
#[verifier::external_body]
pub(crate) fn ascii_lowercase_text(s: &str) -> (r: String)
    ensures
        r@ == ascii_lower(s@),
{
    s.to_ascii_lowercase()
}

/// Copies a text into a new `String`.
pub fn owned(s: &str) -> (r: String)
    ensures
        r@ == s@,
{
    String::from_str(s)
}

/// Character-wise equality of two texts.
pub fn text_is(s: &str, t: &str) -> (r: bool)
    ensures
        r == (s@ == t@),
{
    let n = s.unicode_len();
    if n != t.unicode_len() {
        return false;
    }
    let mut i: usize = 0;
    while i < n
        invariant
            n == s@.len(),
            n == t@.len(),
            i <= n,
            s@.subrange(0, i as int) == t@.subrange(0, i as int),
        decreases n - i,
    {
        if s.get_char(i) != t.get_char(i) {
            assert(s@[i as int] != t@[i as int]);
            return false;
        }
        assert(s@.subrange(0, i + 1) == s@.subrange(0, i as int).push(s@[i as int]));
        assert(t@.subrange(0, i + 1) == t@.subrange(0, i as int).push(t@[i as int]));
        i = i + 1;
    }
    assert(s@ == s@.subrange(0, n as int));
    assert(t@ == t@.subrange(0, n as int));
    true
}

/// Whether `p` is a prefix of `s`, character by character.
pub fn starts_with(s: &str, p: &str) -> (r: bool)
    ensures
        r == is_prefix(p@, s@),
{
    let n = p.unicode_len();
    if n > s.unicode_len() {
        return false;
    }
    let head = s.substring_char(0, n);
    text_is(head, p)
}

proof fn lemma_split_step(s: Seq<char>, sep: char, start: int, i: int)
    requires
        0 <= start <= i < s.len(),
    ensures
        split_from(s.subrange(i, s.len() as int), sep, s.subrange(start, i)) == if s[i] == sep {
            seq![s.subrange(start, i)] + split_from(s.subrange(i + 1, s.len() as int), sep, Seq::empty())
        } else {
            split_from(s.subrange(i + 1, s.len() as int), sep, s.subrange(start, i + 1))
        },
{
    let rest = s.subrange(i, s.len() as int);
    assert(rest.drop_first() == s.subrange(i + 1, s.len() as int));
    assert(s.subrange(start, i).push(s[i]) == s.subrange(start, i + 1));
    assert(Seq::<char>::empty() == s.subrange(i + 1, i + 1));
}

/// Splits a text at every `sep` and trims each piece.
pub fn split_trimmed(s: &str, sep: char) -> (r: Vec<String>)
    ensures
        r@.len() == split_spec(s@, sep).len(),
        forall|k: int| 0 <= k < r@.len() ==> #[trigger] r@[k]@ == trim_of(split_spec(s@, sep)[k]),
{
    let n = s.unicode_len();
    let mut out: Vec<String> = Vec::new();
    let mut start: usize = 0;
    let mut i: usize = 0;
    let ghost mut done: Seq<Seq<char>> = Seq::empty();
    assert(s@.subrange(0, n as int) == s@);
    assert(s@.subrange(0, 0) == Seq::<char>::empty());
    assert(done + split_spec(s@, sep) == split_spec(s@, sep));
    while i < n
        invariant
            n == s@.len(),
            start <= i <= n,
            out@.len() == done.len(),
            forall|k: int| 0 <= k < out@.len() ==> #[trigger] out@[k]@ == trim_of(done[k]),
            split_spec(s@, sep) == done + split_from(s@.subrange(i as int, n as int), sep, s@.subrange(start as int, i as int)),
        decreases n - i,
    {
        proof {
            lemma_split_step(s@, sep, start as int, i as int);
        }
        if s.get_char(i) == sep {
            let piece = s.substring_char(start, i);
            let t = trim_text(piece);
            out.push(t);
            proof {
                let ghost old_done = done;
                done = done.push(s@.subrange(start as int, i as int));
                assert(split_spec(s@, sep) == old_done + (seq![s@.subrange(start as int, i as int)] + split_from(s@.subrange(i + 1, n as int), sep, Seq::empty())));
                assert(old_done + (seq![s@.subrange(start as int, i as int)] + split_from(s@.subrange(i + 1, n as int), sep, Seq::empty())) == done + split_from(s@.subrange(i + 1, n as int), sep, Seq::empty()));
                assert(s@.subrange(i + 1, i + 1) == Seq::<char>::empty());
            }
            start = i + 1;
        }
        i = i + 1;
    }
    let piece = s.substring_char(start, n);
    let t = trim_text(piece);
    out.push(t);
    proof {
        assert(s@.subrange(n as int, n as int) == Seq::<char>::empty());
        assert(split_from(Seq::<char>::empty(), sep, s@.subrange(start as int, n as int)) == seq![s@.subrange(start as int, n as int)]);
        done = done.push(s@.subrange(start as int, n as int));
    }
    out
}

} // verus!
