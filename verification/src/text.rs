//! Characters and strings: the predicates the scanner sorts characters by,
//! and the few string operations it needs.

use vstd::prelude::*;
use vstd::string::*;

verus! {

broadcast use vstd::string::group_string_axioms;

/// Whether `char::is_alphanumeric` holds of `c`: the character is a letter or
/// a number in the sense of the Unicode character database.
pub uninterp spec fn unicode_alphanumeric(c: char) -> bool;

/// What `str::to_lowercase` makes of the text `s`: its lowercase equivalent
/// under the Unicode case mappings.
pub uninterp spec fn unicode_lowercase(s: Seq<char>) -> Seq<char>;

/// The ten decimal digits `0` to `9`.
pub open spec fn is_decimal_digit(c: char) -> bool {
    '0' <= c && c <= '9'
}

/// A character that may continue an identifier: a letter or number of any
/// script, or an underscore.
pub open spec fn is_word_char(c: char) -> bool {
    unicode_alphanumeric(c) || c == '_'
}

/// Every character of `s` is a decimal digit. Holds of the empty text.
pub open spec fn all_digits(s: Seq<char>) -> bool {
    forall|i: int| 0 <= i < s.len() ==> is_decimal_digit(#[trigger] s[i])
}

/// Every character of `s` may continue an identifier. Holds of the empty text.
pub open spec fn all_word(s: Seq<char>) -> bool {
    forall|i: int| 0 <= i < s.len() ==> is_word_char(#[trigger] s[i])
}

/// Every mark of `w` from index `from` up to, not including, `to` is set.
pub open spec fn all_marked(w: Seq<bool>, from: int, to: int) -> bool {
    forall|j: int| from <= j < to ==> #[trigger] w[j]
}

/// For each character of `s`, whether it may continue an identifier.
pub open spec fn word_marks(s: Seq<char>) -> Seq<bool> {
    Seq::new(s.len(), |i: int| is_word_char(s[i]))
}

/// Calls `char::is_alphanumeric`. The answer is taken on trust and is known
/// to the verifier only under the name `unicode_alphanumeric`.
#[verifier::external_body]
pub(crate) fn char_is_alphanumeric(c: char) -> (r: bool)
    ensures
        r == unicode_alphanumeric(c),
{
    c.is_alphanumeric()
}

/// Calls `str::to_lowercase`. The result is taken on trust and is known to
/// the verifier only under the name `unicode_lowercase`.
#[verifier::external_body]
pub(crate) fn lowercase_of(s: &str) -> (r: String)
    ensures
        r@ == unicode_lowercase(s@),
{
    s.to_lowercase()
}

/// Tells whether `c` is one of the ten decimal digits.
pub fn decimal_digit(c: char) -> (r: bool)
    ensures
        r == is_decimal_digit(c),
{
    c >= '0' && c <= '9'
}

/// Tells whether `c` may continue an identifier.
pub fn word_char(c: char) -> (r: bool)
    ensures
        r == is_word_char(c),
{
    char_is_alphanumeric(c) || c == '_'
}

/// The characters of `s`, in order.
pub fn chars_of(s: &str) -> (v: Vec<char>)
    ensures
        v@ == s@,
{
    let mut v: Vec<char> = Vec::new();
    for c in it: s.chars()
        invariant
            v@ == it.seq().take(it.index()),
            it.seq() == s@,
    {
        v.push(c);
    }
    v
}

/// Tells whether `text` and `word` hold the same characters.
pub fn spells(text: &Vec<char>, word: &str) -> (r: bool)
    ensures
        r == (text@ == word@),
{
    let mut i: usize = 0;
    for c in it: word.chars()
        invariant
            it.seq() == word@,
            i == it.index(),
            i <= text.len(),
            text@.take(i as int) == word@.take(i as int),
    {
        if i >= text.len() || text[i] != c {
            assert(text@ != word@) by {
                if text@ == word@ {
                    assert(text@[i as int] == word@[i as int]);
                }
            }
            return false;
        }
        assert(text@.take(i + 1) == text@.take(i as int).push(text@[i as int]));
        assert(word@.take(i + 1) == word@.take(i as int).push(word@[i as int]));
        i += 1;
    }
    assert(word@.take(i as int) == word@);
    if i == text.len() {
        assert(text@.take(i as int) == text@);
        true
    } else {
        false
    }
}

/// Tells whether every character of `text` is a decimal digit.
pub fn only_digits(text: &Vec<char>) -> (r: bool)
    ensures
        r == all_digits(text@),
{
    let mut i: usize = 0;
    while i < text.len()
        invariant
            i <= text.len(),
            forall|j: int| 0 <= j < i ==> is_decimal_digit(#[trigger] text@[j]),
        decreases text.len() - i,
    {
        if !decimal_digit(text[i]) {
            return false;
        }
        i += 1;
    }
    true
}

/// Tells whether every character of `text` may continue an identifier.
pub fn only_word_chars(text: &Vec<char>) -> (r: bool)
    ensures
        r == all_word(text@),
{
    let mut i: usize = 0;
    while i < text.len()
        invariant
            i <= text.len(),
            forall|j: int| 0 <= j < i ==> is_word_char(#[trigger] text@[j]),
        decreases text.len() - i,
    {
        if !word_char(text[i]) {
            return false;
        }
        i += 1;
    }
    true
}

/// Marks each character of `text` that may continue an identifier.
pub fn word_marks_of(text: &Vec<char>) -> (marks: Vec<bool>)
    ensures
        marks@ == word_marks(text@),
{
    let mut marks: Vec<bool> = Vec::new();
    let mut i: usize = 0;
    while i < text.len()
        invariant
            i <= text.len(),
            marks@ == word_marks(text@.take(i as int)),
        decreases text.len() - i,
    {
        marks.push(word_char(text[i]));
        assert(marks@ =~= word_marks(text@.take(i + 1)));
        i += 1;
    }
    assert(text@.take(i as int) =~= text@);
    marks
}

/// Tells whether every mark from index `from` up to, not including, `to` is
/// set.
pub fn marked(marks: &Vec<bool>, from: usize, to: usize) -> (r: bool)
    requires
        from <= to <= marks.len(),
    ensures
        r == all_marked(marks@, from as int, to as int),
{
    let mut i: usize = from;
    while i < to
        invariant
            from <= i <= to <= marks.len(),
            all_marked(marks@, from as int, i as int),
        decreases to - i,
    {
        if !marks[i] {
            return false;
        }
        i += 1;
    }
    true
}

} // verus!
