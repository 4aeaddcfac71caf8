//! The scanning engine: how one line of text falls into lexical units, and
//! the scanner that walks lines and collects their tokens.
//!
//! Which characters may continue an identifier is a question for the Unicode
//! tables. The engine does not ask it: it works on a line together with its
//! marks, one per character, that answer it. `Scanner::scan_line` makes the
//! marks of a line and hands both to `Scanner::scan_marked`.

use vstd::prelude::*;
use vstd::string::*;
use crate::text::{
    all_marked, chars_of, decimal_digit, is_decimal_digit, lowercase_of, marked, unicode_lowercase,
    word_marks, word_marks_of,
};
use crate::laws::{marked_line_keeps_wf, next_line_keeps_wf};
use crate::token::{kind_given, token_views, Token, TokenType, TokenView};

verus! {

/// The classes of character that decide what the scanner does next.
#[derive(Debug, Clone, Copy, PartialEq, Eq, Structural)]
pub enum CharClass {
    /// A space or a tab.
    Blank,
    /// A letter `a` to `z` or `A` to `Z`, or an underscore.
    WordStart,
    /// A decimal digit.
    Digit,
    /// The character `/`.
    Slash,
    /// One of `& | = ! < >`, which may open a two-character operator.
    PairStart,
    /// Anything else.
    Other,
}

/// The class of a character.
pub open spec fn char_class(c: char) -> CharClass {
    if c == ' ' || c == '\t' {
        CharClass::Blank
    } else if ('a' <= c && c <= 'z') || ('A' <= c && c <= 'Z') || c == '_' {
        CharClass::WordStart
    } else if is_decimal_digit(c) {
        CharClass::Digit
    } else if c == '/' {
        CharClass::Slash
    } else if c == '&' || c == '|' || c == '=' || c == '!' || c == '<' || c == '>' {
        CharClass::PairStart
    } else {
        CharClass::Other
    }
}

/// Whether `a` followed by `b` is one of the two-character operators
/// `&& || == != <= >= << >>`.
pub open spec fn is_pair(a: char, b: char) -> bool {
    ||| (a == '&' && b == '&')
    ||| (a == '|' && b == '|')
    ||| (a == '=' && b == '=')
    ||| (a == '!' && b == '=')
    ||| (a == '<' && b == '=')
    ||| (a == '>' && b == '=')
    ||| (a == '<' && b == '<')
    ||| (a == '>' && b == '>')
}

/// How many marks of `w`, from index `i` on, are set before one that is
/// not, or the end of `w`: the length of a run of identifier characters.
pub open spec fn word_run(w: Seq<bool>, i: int) -> nat
    decreases w.len() - i,
{
    if 0 <= i < w.len() && w[i] {
        1 + word_run(w, i + 1)
    } else {
        0
    }
}

/// How many characters of `s`, from index `i` on, are decimal digits before
/// one that is not, or the end of `s`.
pub open spec fn digit_run(s: Seq<char>, i: int) -> nat
    decreases s.len() - i,
{
    if 0 <= i < s.len() && is_decimal_digit(s[i]) {
        1 + digit_run(s, i + 1)
    } else {
        0
    }
}

/// How many characters the lexical unit that starts at index `i` of `s`
/// takes after its first: the rest of the longest identifier or digit run,
/// the second character of a two-character operator, and none otherwise.
pub open spec fn unit_rest(s: Seq<char>, w: Seq<bool>, i: int) -> nat
    recommends
        0 <= i < s.len(),
        w.len() == s.len(),
{
    match char_class(s[i]) {
        CharClass::WordStart => word_run(w, i + 1),
        CharClass::Digit => digit_run(s, i + 1),
        CharClass::PairStart => if i + 1 < s.len() && is_pair(s[i], s[i + 1]) {
            1
        } else {
            0
        },
        _ => 0,
    }
}

/// The length of the lexical unit that starts at index `i` of `s`.
pub open spec fn unit_len(s: Seq<char>, w: Seq<bool>, i: int) -> nat
    recommends
        0 <= i < s.len(),
        w.len() == s.len(),
{
    1 + unit_rest(s, w, i)
}

/// Whether a line comment starts at index `i` of `s`: a `/` directly
/// followed by another.
pub open spec fn comment_at(s: Seq<char>, i: int) -> bool
    recommends
        0 <= i < s.len(),
{
    s[i] == '/' && i + 1 < s.len() && s[i + 1] == '/'
}

/// Whether the unit at index `i` of `s` is consumed without a token: a
/// blank, or a `/` that ends the line.
pub open spec fn silent_at(s: Seq<char>, i: int) -> bool
    recommends
        0 <= i < s.len(),
{
    char_class(s[i]) == CharClass::Blank || (s[i] == '/' && i + 1 >= s.len())
}

/// The kind of the token for the unit at index `i` of `s`: a digit run is an
/// integer literal, a `/` is the division operator, and everything else is
/// classified by its lexeme, its lower-case form, and its marks.
pub open spec fn unit_kind(s: Seq<char>, w: Seq<bool>, i: int) -> TokenType
    recommends
        0 <= i < s.len(),
        w.len() == s.len(),
{
    let lexeme = s.subrange(i, i + unit_len(s, w, i));
    match char_class(s[i]) {
        CharClass::Digit => TokenType::INT_NUM,
        CharClass::Slash => TokenType::DIV_OP,
        _ => kind_given(
            lexeme,
            unicode_lowercase(lexeme),
            all_marked(w, i, i + unit_len(s, w, i)),
        ),
    }
}

/// The token for the unit at index `i` of `s`, on line `line`, where index 0
/// of `s` stands at column `base`.
pub open spec fn unit_token(s: Seq<char>, w: Seq<bool>, i: int, line: nat, base: nat) -> TokenView
    recommends
        0 <= i < s.len(),
        w.len() == s.len(),
{
    TokenView {
        kind: unit_kind(s, w, i),
        lexeme: s.subrange(i, i + unit_len(s, w, i)),
        line: line,
        column: (base + i) as nat,
    }
}

/// How many characters of `s` stand at index `i` and after it.
pub open spec fn left_at(s: Seq<char>, i: int) -> nat {
    if i < s.len() {
        (s.len() - i) as nat
    } else {
        0
    }
}

/// The tokens of `s` from index `i` on, in order, up to the end of `s` or to
/// the first line comment.
pub open spec fn tokens_from(s: Seq<char>, w: Seq<bool>, i: int, line: nat, base: nat) -> Seq<
    TokenView,
>
    decreases left_at(s, i),
{
    if i < 0 || i >= s.len() || comment_at(s, i) {
        Seq::empty()
    } else if silent_at(s, i) {
        tokens_from(s, w, i + unit_len(s, w, i), line, base)
    } else {
        seq![unit_token(s, w, i, line, base)] + tokens_from(
            s,
            w,
            i + unit_len(s, w, i),
            line,
            base,
        )
    }
}

/// The index at which scanning `s` from index `i` stops: the end of `s`, or
/// just past the first `/` of a line comment.
pub open spec fn stop_from(s: Seq<char>, w: Seq<bool>, i: int) -> int
    decreases left_at(s, i),
{
    if i < 0 || i >= s.len() {
        i
    } else if comment_at(s, i) {
        i + 1
    } else {
        stop_from(s, w, i + unit_len(s, w, i))
    }
}

/// How many tokens the units of `s` from index `i` on give rise to: every
/// unit counts but blanks, a `/` that ends the line, and whatever follows the
/// start of a line comment.
pub open spec fn units_from(s: Seq<char>, w: Seq<bool>, i: int) -> nat
    decreases left_at(s, i),
{
    if i < 0 || i >= s.len() || comment_at(s, i) {
        0
    } else if silent_at(s, i) {
        units_from(s, w, i + unit_len(s, w, i))
    } else {
        1 + units_from(s, w, i + unit_len(s, w, i))
    }
}

/// The tokens of the line `s` with marks `w`, numbered `line`, whose first
/// character stands at column `base`.
pub open spec fn marked_tokens(s: Seq<char>, w: Seq<bool>, line: nat, base: nat) -> Seq<
    TokenView,
> {
    tokens_from(s, w, 0, line, base)
}

/// How many characters of the line `s` with marks `w` the scanner consumes.
pub open spec fn marked_consumed(s: Seq<char>, w: Seq<bool>) -> nat {
    stop_from(s, w, 0) as nat
}

/// The tokens of the line `s`, numbered `line`, whose first character stands
/// at column `base`.
pub open spec fn line_tokens(s: Seq<char>, line: nat, base: nat) -> Seq<TokenView> {
    marked_tokens(s, word_marks(s), line, base)
}

/// How many characters of the line `s` the scanner consumes: all of them, or
/// those up to and with the first `/` of a line comment.
pub open spec fn consumed(s: Seq<char>) -> nat {
    marked_consumed(s, word_marks(s))
}

/// The number of lexical units recognized on the line `s`.
pub open spec fn unit_count(s: Seq<char>) -> nat {
    units_from(s, word_marks(s), 0)
}

/// The column at which a line of a text starts: the first line at `base`,
/// every later one at column 1.
pub open spec fn start_column(index: int, base: nat) -> nat {
    if index == 0 {
        base
    } else {
        1
    }
}

/// The tokens of a text of several lines, the first of them numbered `first`
/// and starting at column `base`.
pub open spec fn text_tokens(lines: Seq<Seq<char>>, first: nat, base: nat) -> Seq<TokenView>
    decreases lines.len(),
{
    if lines.len() == 0 {
        Seq::empty()
    } else {
        text_tokens(lines.drop_last(), first, base) + line_tokens(
            lines.last(),
            (first + lines.len() - 1) as nat,
            start_column(lines.len() - 1, base),
        )
    }
}

/// The characters of each line of a list of lines.
pub open spec fn texts(lines: Seq<String>) -> Seq<Seq<char>> {
    Seq::new(lines.len(), |i: int| lines[i]@)
}

/// Whether a line whose first character stands at `column` can be scanned
/// without a column running past the largest `usize`.
pub open spec fn fits(column: nat, s: Seq<char>) -> bool {
    column + s.len() <= usize::MAX
}

/// Whether token `a` ends before token `b` starts: on an earlier line, or on
/// the same line with its last character left of the first of `b`.
pub open spec fn precedes(a: TokenView, b: TokenView) -> bool {
    a.line < b.line || (a.line == b.line && a.column + a.lexeme.len() <= b.column)
}

/// Whether token `t` lies wholly before the position `line`, `column`.
pub open spec fn ends_before(t: TokenView, line: nat, column: nat) -> bool {
    t.line < line || (t.line == line && t.column + t.lexeme.len() <= column)
}

/// Whether the tokens stand in source order, none overlapping the next.
pub open spec fn in_source_order(tokens: Seq<TokenView>) -> bool {
    forall|j: int, k: int|
        0 <= j < k < tokens.len() ==> precedes(#[trigger] tokens[j], #[trigger] tokens[k])
}

impl CharClass {
    /// Sorts a character into its class.
    pub fn of(c: char) -> (class: CharClass)
        ensures
            class == char_class(c),
    {
        if c == ' ' || c == '\t' {
            CharClass::Blank
        } else if (c >= 'a' && c <= 'z') || (c >= 'A' && c <= 'Z') || c == '_' {
            CharClass::WordStart
        } else if decimal_digit(c) {
            CharClass::Digit
        } else if c == '/' {
            CharClass::Slash
        } else if c == '&' || c == '|' || c == '=' || c == '!' || c == '<' || c == '>' {
            CharClass::PairStart
        } else {
            CharClass::Other
        }
    }
}

/// Tells whether `a` followed by `b` is a two-character operator.
pub fn pair(a: char, b: char) -> (r: bool)
    ensures
        r == is_pair(a, b),
{
    (a == '&' && b == '&') || (a == '|' && b == '|') || (b == '=' && (a == '=' || a == '!' || a
        == '<' || a == '>')) || (a == '<' && b == '<') || (a == '>' && b == '>')
}

/// The index just past the set marks that start at `from`.
fn word_end(word: &Vec<bool>, from: usize) -> (end: usize)
    requires
        from <= word.len(),
    ensures
        end == from + word_run(word@, from as int),
        end <= word.len(),
{
    let mut end: usize = from;
    while end < word.len() && word[end]
        invariant
            from <= end <= word.len(),
            end + word_run(word@, end as int) == from + word_run(word@, from as int),
        decreases word.len() - end,
    {
        end += 1;
    }
    end
}

/// The index just past the digits that start at `from`.
fn digits_end(chars: &Vec<char>, from: usize) -> (end: usize)
    requires
        from <= chars.len(),
    ensures
        end == from + digit_run(chars@, from as int),
        end <= chars.len(),
{
    let mut end: usize = from;
    while end < chars.len() && decimal_digit(chars[end])
        invariant
            from <= end <= chars.len(),
            end + digit_run(chars@, end as int) == from + digit_run(chars@, from as int),
        decreases chars.len() - end,
    {
        end += 1;
    }
    end
}

/// The index just past the lexical unit that starts at `i`, in a line of
/// characters `chars` of which `word` marks those that may continue an
/// identifier.
pub fn unit_end(chars: &Vec<char>, word: &Vec<bool>, i: usize) -> (end: usize)
    requires
        i < chars.len(),
        word.len() == chars.len(),
    ensures
        end == i + unit_len(chars@, word@, i as int),
        i < end <= chars.len(),
{
    match CharClass::of(chars[i]) {
        CharClass::WordStart => word_end(word, i + 1),
        CharClass::Digit => digits_end(chars, i + 1),
        CharClass::PairStart => if i + 1 < chars.len() && pair(chars[i], chars[i + 1]) {
            i + 2
        } else {
            i + 1
        },
        _ => i + 1,
    }
}

/// A scanner as contracts see it: the tokens found so far, and the 1-based
/// line and column of the next character to be read.
pub struct ScannerView {
    pub tokens: Seq<TokenView>,
    pub line: nat,
    pub column: nat,
}

impl ScannerView {
    /// What holds of every scanner: lines and columns count from 1, every
    /// token has a lexeme and lies wholly before the scanner's position, and
    /// the tokens stand in source order.
    pub open spec fn wf(self) -> bool {
        &&& self.line >= 1
        &&& self.column >= 1
        &&& forall|k: int|
            0 <= k < self.tokens.len() ==> {
                let t = #[trigger] self.tokens[k];
                &&& t.line >= 1
                &&& t.column >= 1
                &&& t.lexeme.len() >= 1
                &&& ends_before(t, self.line, self.column)
            }
        &&& in_source_order(self.tokens)
    }
}

/// Turns lines of source text into tokens, keeping track of where it is.
pub struct Scanner {
    tokens: Vec<Token>,
    line: usize,
    column: usize,
}

impl View for Scanner {
    type V = ScannerView;

    closed spec fn view(&self) -> ScannerView {
        ScannerView {
            tokens: token_views(self.tokens@),
            line: self.line as nat,
            column: self.column as nat,
        }
    }
}

impl Scanner {
    /// A scanner that has read nothing: no tokens, at line 1, column 1.
    pub fn new() -> (scanner: Scanner)
        ensures
            scanner@ == (ScannerView { tokens: Seq::empty(), line: 1, column: 1 }),
            scanner@.wf(),
    {
        let scanner = Scanner { tokens: Vec::new(), line: 1, column: 1 };
        assert(scanner@.tokens =~= Seq::empty());
        scanner
    }

    /// The line on which the scanner stands, counted from 1.
    pub fn line(&self) -> (line: usize)
        ensures
            line == self@.line,
    {
        self.line
    }

    /// The column of the next character to be read, counted from 1.
    pub fn column(&self) -> (column: usize)
        ensures
            column == self@.column,
    {
        self.column
    }

    /// The tokens found so far, in source order.
    pub fn get_tokens(&self) -> (tokens: &Vec<Token>)
        ensures
            token_views(tokens@) == self@.tokens,
    {
        &self.tokens
    }

    /// Scans one line of text whose characters are already marked: `word`
    /// says of each character of `line` whether it may continue an
    /// identifier.
    ///
    /// The tokens carry the scanner's current line number, and columns that
    /// count on from its current column. The column moves past every
    /// character consumed; the line number stays.
    pub fn scan_marked(&mut self, line: &str, word: &Vec<bool>)
        requires
            old(self)@.wf(),
            fits(old(self)@.column, line@),
            word@.len() == line@.len(),
        ensures
            final(self)@.wf(),
            final(self)@.tokens == old(self)@.tokens + marked_tokens(
                line@,
                word@,
                old(self)@.line,
                old(self)@.column,
            ),
            final(self)@.line == old(self)@.line,
            final(self)@.column == old(self)@.column + marked_consumed(line@, word@),
    {
        let chars = chars_of(line);
        let n = chars.len();
        let base = self.column;
        let ghost before = self@.tokens;
        let ghost number = self.line as nat;
        let ghost all = marked_tokens(chars@, word@, number, base as nat);
        let ghost stop = stop_from(chars@, word@, 0);
        let mut i: usize = 0;
        let mut in_comment = false;
        while i < n && !in_comment
            invariant
                chars@ == line@,
                n == chars.len(),
                n == word.len(),
                base + n <= usize::MAX,
                i <= n,
                self.line == number,
                self.column == base,
                all == marked_tokens(chars@, word@, number, base as nat),
                stop == stop_from(chars@, word@, 0),
                !in_comment ==> self@.tokens + tokens_from(
                    chars@,
                    word@,
                    i as int,
                    number,
                    base as nat,
                ) == before + all,
                !in_comment ==> stop_from(chars@, word@, i as int) == stop,
                in_comment ==> self@.tokens == before + all,
                in_comment ==> i == stop,
            decreases n - i + if in_comment { 0int } else { 1int },
        {
            let c = chars[i];
            if c == '/' && i + 1 < n && chars[i + 1] == '/' {
                i += 1;
                in_comment = true;
            } else {
                let end = unit_end(&chars, word, i);
                let class = CharClass::of(c);
                let silent = class == CharClass::Blank || (class == CharClass::Slash && i + 1 >= n);
                if !silent {
                    let lexeme = line.substring_char(i, end).to_owned();
                    let kind = match class {
                        CharClass::Digit => TokenType::INT_NUM,
                        CharClass::Slash => TokenType::DIV_OP,
                        _ => {
                            let lowered = lowercase_of(lexeme.as_str());
                            TokenType::from_parts(
                                lexeme.as_str(),
                                lowered.as_str(),
                                marked(word, i, end),
                            )
                        },
                    };
                    let ghost shown = self@.tokens;
                    let ghost rest = tokens_from(chars@, word@, end as int, number, base as nat);
                    let token = Token::new(kind, lexeme, self.line, base + i);
                    assert(token@ == unit_token(chars@, word@, i as int, number, base as nat));
                    self.tokens.push(token);
                    assert(self@.tokens == shown.push(token@));
                    assert(shown.push(token@) + rest == shown + (seq![token@] + rest));
                }
                i = end;
            }
        }
        self.column = base + i;
        proof {
            marked_line_keeps_wf(old(self)@, line@, word@);
        }
    }

    /// Scans one line of text, left to right, and appends its tokens.
    ///
    /// The tokens carry the scanner's current line number, and columns that
    /// count on from its current column. The column moves past every
    /// character consumed; the line number stays.
    pub fn scan_line(&mut self, line: &str)
        requires
            old(self)@.wf(),
            fits(old(self)@.column, line@),
        ensures
            final(self)@.wf(),
            final(self)@.tokens == old(self)@.tokens + line_tokens(
                line@,
                old(self)@.line,
                old(self)@.column,
            ),
            final(self)@.line == old(self)@.line,
            final(self)@.column == old(self)@.column + consumed(line@),
    {
        let chars = chars_of(line);
        let word = word_marks_of(&chars);
        self.scan_marked(line, &word);
    }

    /// Scans a text line by line and appends its tokens.
    ///
    /// The first line carries the scanner's current line number and counts
    /// columns on from its current column; every later line starts at column
    /// 1 of the next line number. After the last line the scanner stands at
    /// column 1 of the line that follows it.
    pub fn scan(&mut self, lines: &Vec<String>)
        requires
            old(self)@.wf(),
            old(self)@.line + lines@.len() <= usize::MAX,
            forall|k: int|
                0 <= k < lines@.len() ==> fits(
                    start_column(k, old(self)@.column),
                    (#[trigger] lines@[k])@,
                ),
        ensures
            final(self)@.wf(),
            final(self)@.tokens == old(self)@.tokens + text_tokens(
                texts(lines@),
                old(self)@.line,
                old(self)@.column,
            ),
            final(self)@.line == old(self)@.line + lines@.len(),
            final(self)@.column == start_column(lines@.len() as int, old(self)@.column),
    {
        let ghost before = self@;
        let ghost all = texts(lines@);
        let mut k: usize = 0;
        assert(all.take(0) =~= Seq::empty());
        while k < lines.len()
            invariant
                k <= lines.len(),
                all == texts(lines@),
                before.line + lines@.len() <= usize::MAX,
                forall|j: int|
                    0 <= j < lines@.len() ==> fits(
                        start_column(j, before.column),
                        (#[trigger] lines@[j])@,
                    ),
                self@.wf(),
                self@.line == before.line + k,
                self@.column == start_column(k as int, before.column),
                self@.tokens == before.tokens + text_tokens(
                    all.take(k as int),
                    before.line,
                    before.column,
                ),
            decreases lines.len() - k,
        {
            let ghost shown = self@;
            self.scan_line(lines[k].as_str());
            proof {
                next_line_keeps_wf(self@);
                let part = all.take(k + 1);
                assert(part.drop_last() =~= all.take(k as int));
                assert(part.last() == lines@[k as int]@);
                assert(self@.tokens == before.tokens + text_tokens(
                    part,
                    before.line,
                    before.column,
                )) by {
                    assert(self@.tokens =~= before.tokens + (text_tokens(
                        all.take(k as int),
                        before.line,
                        before.column,
                    ) + line_tokens(lines@[k as int]@, shown.line, shown.column)));
                }
            }
            self.line += 1;
            self.column = 1;
            k += 1;
        }
        assert(all.take(k as int) =~= all);
    }
}

} // verus!
