//! What holds of the tokens of a line and of a text, proved from the
//! definitions in `scanner`.

use vstd::prelude::*;
use crate::scanner::{
    comment_at, consumed, digit_run, ends_before, in_source_order, left_at, line_tokens,
    marked_consumed, marked_tokens, precedes, silent_at, start_column, stop_from, text_tokens,
    tokens_from, unit_count, unit_kind, unit_len, unit_token, units_from, word_run, CharClass,
    ScannerView, char_class,
};
use crate::text::{
    all_marked, all_word, is_decimal_digit, is_word_char, unicode_lowercase, word_marks,
};
use crate::token::{classify, reserved_kind, TokenType, TokenView};

verus! {

/// A run of identifier characters ends within the line.
pub proof fn word_run_in_bounds(w: Seq<bool>, i: int)
    requires
        0 <= i <= w.len(),
    ensures
        i + word_run(w, i) <= w.len(),
    decreases w.len() - i,
{
    if i < w.len() && w[i] {
        word_run_in_bounds(w, i + 1);
    }
}

/// A run of digits ends within the line.
pub proof fn digit_run_in_bounds(s: Seq<char>, i: int)
    requires
        0 <= i <= s.len(),
    ensures
        i + digit_run(s, i) <= s.len(),
    decreases s.len() - i,
{
    if i < s.len() && is_decimal_digit(s[i]) {
        digit_run_in_bounds(s, i + 1);
    }
}

/// Longest match for identifiers: the run from `i` holds marked characters
/// only, and the character after it, if there is one, is not marked.
pub proof fn word_run_is_longest(w: Seq<bool>, i: int)
    requires
        0 <= i <= w.len(),
    ensures
        all_marked(w, i, i + word_run(w, i)),
        i + word_run(w, i) < w.len() ==> !w[i + word_run(w, i)],
    decreases w.len() - i,
{
    if i < w.len() && w[i] {
        word_run_is_longest(w, i + 1);
    }
}

/// Longest match for integers: the run from `i` holds digits only, and the
/// character after it, if there is one, is no digit.
pub proof fn digit_run_is_longest(s: Seq<char>, i: int)
    requires
        0 <= i <= s.len(),
    ensures
        forall|j: int| i <= j < i + digit_run(s, i) ==> is_decimal_digit(#[trigger] s[j]),
        i + digit_run(s, i) < s.len() ==> !is_decimal_digit(s[i + digit_run(s, i)]),
    decreases s.len() - i,
{
    if i < s.len() && is_decimal_digit(s[i]) {
        digit_run_is_longest(s, i + 1);
    }
}

/// Reserved words match whatever their case: two lexemes with the same
/// lower-case form, that form being a reserved word, are of the same kind.
pub proof fn reserved_words_ignore_case(a: Seq<char>, b: Seq<char>)
    requires
        unicode_lowercase(a) == unicode_lowercase(b),
        reserved_kind(unicode_lowercase(a)) is Some,
    ensures
        classify(a) == classify(b),
        Some(classify(a)) == reserved_kind(unicode_lowercase(a)),
{
}

/// A lexical unit has at least one character and ends within the line.
pub proof fn unit_in_bounds(s: Seq<char>, w: Seq<bool>, i: int)
    requires
        0 <= i < s.len(),
        w.len() == s.len(),
    ensures
        i < i + unit_len(s, w, i) <= s.len(),
{
    word_run_in_bounds(w, i + 1);
    digit_run_in_bounds(s, i + 1);
}

/// Scanning stops within the line, at or after the index it started from.
pub proof fn stop_in_bounds(s: Seq<char>, w: Seq<bool>, i: int)
    requires
        0 <= i <= s.len(),
        w.len() == s.len(),
    ensures
        i <= stop_from(s, w, i) <= s.len(),
    decreases s.len() - i,
{
    if i < s.len() && !comment_at(s, i) {
        unit_in_bounds(s, w, i);
        stop_in_bounds(s, w, i + unit_len(s, w, i));
    }
}

/// Whether `t` is a token of line `line` that lies between index `from` and
/// index `to` of the text `s`, whose index 0 stands at column `base`, and
/// whose lexeme is the very text found there.
pub open spec fn sits_in(t: TokenView, s: Seq<char>, line: nat, base: nat, from: int, to: int) -> bool {
    &&& t.line == line
    &&& t.lexeme.len() >= 1
    &&& base + from <= t.column
    &&& t.column + t.lexeme.len() <= base + to
    &&& to <= s.len()
    &&& t.lexeme == s.subrange(t.column - base, t.column - base + t.lexeme.len())
}

/// Every token of a line from index `i` on sits in the text between `i` and
/// the index at which scanning stops, and each ends before the next starts.
pub proof fn tokens_from_sit(s: Seq<char>, w: Seq<bool>, i: int, line: nat, base: nat)
    requires
        0 <= i <= s.len(),
        w.len() == s.len(),
    ensures
        forall|k: int|
            0 <= k < tokens_from(s, w, i, line, base).len() ==> sits_in(
                #[trigger] tokens_from(s, w, i, line, base)[k],
                s,
                line,
                base,
                i,
                stop_from(s, w, i),
            ),
        in_source_order(tokens_from(s, w, i, line, base)),
    decreases s.len() - i,
{
    let ts = tokens_from(s, w, i, line, base);
    let stop = stop_from(s, w, i);
    stop_in_bounds(s, w, i);
    if i < s.len() && !comment_at(s, i) {
        unit_in_bounds(s, w, i);
        let e = i + unit_len(s, w, i);
        let rest = tokens_from(s, w, e, line, base);
        tokens_from_sit(s, w, e, line, base);
        stop_in_bounds(s, w, e);
        if silent_at(s, i) {
            assert(ts == rest);
            assert forall|k: int| 0 <= k < ts.len() implies sits_in(
                #[trigger] ts[k],
                s,
                line,
                base,
                i,
                stop,
            ) by {
                assert(sits_in(rest[k], s, line, base, e, stop_from(s, w, e)));
            }
        } else {
            let u = unit_token(s, w, i, line, base);
            assert(ts == seq![u] + rest);
            assert(sits_in(u, s, line, base, i, stop));
            assert forall|k: int| 0 <= k < ts.len() implies sits_in(
                #[trigger] ts[k],
                s,
                line,
                base,
                i,
                stop,
            ) by {
                if k > 0 {
                    assert(ts[k] == rest[k - 1]);
                    assert(sits_in(rest[k - 1], s, line, base, e, stop_from(s, w, e)));
                }
            }
            assert forall|j: int, k: int| 0 <= j < k < ts.len() implies precedes(
                #[trigger] ts[j],
                #[trigger] ts[k],
            ) by {
                assert(ts[k] == rest[k - 1]);
                assert(sits_in(rest[k - 1], s, line, base, e, stop_from(s, w, e)));
                if j > 0 {
                    assert(ts[j] == rest[j - 1]);
                }
            }
        }
    }
}

/// The columns of the tokens of a marked line: every token stands on that
/// line, its lexeme is the text of the line from the token's column on, and
/// each token ends before the next starts, so that columns strictly
/// increase. With `base` 1, a token's column is the 1-based index of its
/// first character.
pub proof fn marked_tokens_columns(s: Seq<char>, w: Seq<bool>, line: nat, base: nat)
    requires
        w.len() == s.len(),
    ensures
        marked_consumed(s, w) <= s.len(),
        forall|k: int|
            0 <= k < marked_tokens(s, w, line, base).len() ==> {
                let t = #[trigger] marked_tokens(s, w, line, base)[k];
                &&& t.line == line
                &&& t.lexeme.len() >= 1
                &&& base <= t.column
                &&& t.column + t.lexeme.len() <= base + marked_consumed(s, w)
                &&& t.lexeme == s.subrange(t.column - base, t.column - base + t.lexeme.len())
            },
        forall|j: int, k: int|
            0 <= j < k < marked_tokens(s, w, line, base).len() ==> marked_tokens(
                s,
                w,
                line,
                base,
            )[j].column < marked_tokens(s, w, line, base)[k].column,
        in_source_order(marked_tokens(s, w, line, base)),
{
    tokens_from_sit(s, w, 0, line, base);
    stop_in_bounds(s, w, 0);
    let ts = marked_tokens(s, w, line, base);
    assert forall|k: int| 0 <= k < ts.len() implies {
        let t = #[trigger] ts[k];
        &&& t.line == line
        &&& t.lexeme.len() >= 1
        &&& base <= t.column
        &&& t.column + t.lexeme.len() <= base + marked_consumed(s, w)
        &&& t.lexeme == s.subrange(t.column - base, t.column - base + t.lexeme.len())
    } by {
        assert(sits_in(ts[k], s, line, base, 0, stop_from(s, w, 0)));
    }
    assert forall|j: int, k: int| 0 <= j < k < ts.len() implies ts[j].column < ts[k].column by {
        assert(precedes(ts[j], ts[k]));
        assert(sits_in(ts[j], s, line, base, 0, stop_from(s, w, 0)));
        assert(sits_in(ts[k], s, line, base, 0, stop_from(s, w, 0)));
    }
}

/// The columns of the tokens of a line: every token stands on that line, its
/// lexeme is the text of the line from the token's column on, and each token
/// ends before the next starts, so that columns strictly increase. With
/// `base` 1, a token's column is the 1-based index of its first character.
pub proof fn line_tokens_columns(s: Seq<char>, line: nat, base: nat)
    ensures
        consumed(s) <= s.len(),
        forall|k: int|
            0 <= k < line_tokens(s, line, base).len() ==> {
                let t = #[trigger] line_tokens(s, line, base)[k];
                &&& t.line == line
                &&& t.lexeme.len() >= 1
                &&& base <= t.column
                &&& t.column + t.lexeme.len() <= base + consumed(s)
                &&& t.lexeme == s.subrange(t.column - base, t.column - base + t.lexeme.len())
            },
        forall|j: int, k: int|
            0 <= j < k < line_tokens(s, line, base).len() ==> line_tokens(s, line, base)[j].column
                < line_tokens(s, line, base)[k].column,
        in_source_order(line_tokens(s, line, base)),
{
    marked_tokens_columns(s, word_marks(s), line, base);
}

/// A marked line gives as many tokens as it has lexical units.
pub proof fn tokens_from_count(s: Seq<char>, w: Seq<bool>, i: int, line: nat, base: nat)
    ensures
        tokens_from(s, w, i, line, base).len() == units_from(s, w, i),
    decreases left_at(s, i),
{
    if 0 <= i < s.len() && !comment_at(s, i) {
        tokens_from_count(s, w, i + unit_len(s, w, i), line, base);
    }
}

/// With the marks that the characters of a line really have, a unit that is
/// neither a digit run nor a `/` is of the kind that the classifier gives
/// its lexeme.
pub proof fn unit_kind_is_classified(s: Seq<char>, i: int)
    requires
        0 <= i < s.len(),
        char_class(s[i]) != CharClass::Digit,
        char_class(s[i]) != CharClass::Slash,
    ensures
        unit_kind(s, word_marks(s), i) == classify(
            s.subrange(i, i + unit_len(s, word_marks(s), i)),
        ),
{
    let w = word_marks(s);
    unit_in_bounds(s, w, i);
    let e = i + unit_len(s, w, i);
    let lexeme = s.subrange(i, e);
    assert(all_marked(w, i, e) == all_word(lexeme)) by {
        if all_marked(w, i, e) {
            assert forall|j: int| 0 <= j < lexeme.len() implies is_word_char(
                #[trigger] lexeme[j],
            ) by {
                assert(w[i + j]);
            }
        }
        if all_word(lexeme) {
            assert forall|j: int| i <= j < e implies #[trigger] w[j] by {
                assert(lexeme[j - i] == s[j]);
            }
        }
    }
}

/// The kind that a lexeme has wherever it is found: a lexeme that starts
/// with a digit is an integer literal, a `/` is the division operator, and
/// every other lexeme is of the kind that the classifier gives it.
pub open spec fn lexeme_kind(lexeme: Seq<char>) -> TokenType
    recommends
        lexeme.len() >= 1,
{
    match char_class(lexeme[0]) {
        CharClass::Digit => TokenType::INT_NUM,
        CharClass::Slash => TokenType::DIV_OP,
        _ => classify(lexeme),
    }
}

/// Every token of a line from index `i` on is of the kind of its lexeme.
proof fn tokens_from_kinds(s: Seq<char>, i: int, line: nat, base: nat)
    requires
        0 <= i <= s.len(),
    ensures
        forall|k: int|
            0 <= k < tokens_from(s, word_marks(s), i, line, base).len() ==> (
            #[trigger] tokens_from(s, word_marks(s), i, line, base)[k]).kind == lexeme_kind(
                tokens_from(s, word_marks(s), i, line, base)[k].lexeme,
            ),
    decreases s.len() - i,
{
    let w = word_marks(s);
    let ts = tokens_from(s, w, i, line, base);
    if i < s.len() && !comment_at(s, i) {
        unit_in_bounds(s, w, i);
        let e = i + unit_len(s, w, i);
        let rest = tokens_from(s, w, e, line, base);
        tokens_from_kinds(s, e, line, base);
        if !silent_at(s, i) {
            let u = unit_token(s, w, i, line, base);
            assert(ts == seq![u] + rest);
            assert(u.lexeme[0] == s[i]);
            if char_class(s[i]) != CharClass::Digit && char_class(s[i]) != CharClass::Slash {
                unit_kind_is_classified(s, i);
            }
            assert forall|k: int| 0 <= k < ts.len() implies (#[trigger] ts[k]).kind == lexeme_kind(
                ts[k].lexeme,
            ) by {
                if k > 0 {
                    assert(ts[k] == rest[k - 1]);
                }
            }
        }
    }
}

/// The kind of every token of a line is the kind of its lexeme: what a
/// token is does not depend on where it stands or on what stands around it.
pub proof fn line_tokens_kinds(s: Seq<char>, line: nat, base: nat)
    ensures
        forall|k: int|
            0 <= k < line_tokens(s, line, base).len() ==> (#[trigger] line_tokens(
                s,
                line,
                base,
            )[k]).kind == lexeme_kind(line_tokens(s, line, base)[k].lexeme),
{
    tokens_from_kinds(s, 0, line, base);
}

/// The tokens that stand on line `l`.
pub open spec fn on_line(l: nat) -> spec_fn(TokenView) -> bool {
    |t: TokenView| t.line == l
}

/// Keeping the tokens of line `l` among tokens that all stand on line
/// `line` keeps all of them if `l` is that line, and none if it is not.
proof fn filter_one_line(ts: Seq<TokenView>, line: nat, l: nat)
    requires
        forall|k: int| 0 <= k < ts.len() ==> (#[trigger] ts[k]).line == line,
    ensures
        ts.filter(on_line(l)) == if l == line {
            ts
        } else {
            Seq::empty()
        },
    decreases ts.len(),
{
    reveal(Seq::filter);
    if ts.len() > 0 {
        let front = ts.drop_last();
        assert forall|k: int| 0 <= k < front.len() implies (#[trigger] front[k]).line == line by {
            assert(front[k] == ts[k]);
        }
        filter_one_line(front, line, l);
        assert(ts.last() == ts[ts.len() - 1]);
        if l == line {
            assert(front.push(ts.last()) =~= ts);
        }
    }
}

/// The tokens of line `l` in a text: exactly the tokens of that line of the
/// text, in the same order, and none if the text has no line `l`.
pub proof fn tokens_on_line(lines: Seq<Seq<char>>, first: nat, base: nat, l: nat)
    ensures
        text_tokens(lines, first, base).filter(on_line(l)) == if first <= l < first + lines.len() {
            line_tokens(lines[l - first], l, start_column(l - first, base))
        } else {
            Seq::empty()
        },
    decreases lines.len(),
{
    reveal(Seq::filter);
    if lines.len() > 0 {
        let front = lines.drop_last();
        let number = (first + lines.len() - 1) as nat;
        let tail = line_tokens(lines.last(), number, start_column(lines.len() - 1, base));
        tokens_on_line(front, first, base, l);
        line_tokens_columns(lines.last(), number, start_column(lines.len() - 1, base));
        filter_one_line(tail, number, l);
        Seq::filter_distributes_over_add(text_tokens(front, first, base), tail, on_line(l));
        if first <= l < first + front.len() {
            assert(front[l - first] == lines[l - first]);
            assert(text_tokens(front, first, base).filter(on_line(l)) + Seq::<TokenView>::empty()
                =~= text_tokens(front, first, base).filter(on_line(l)));
        } else {
            assert(Seq::<TokenView>::empty() + tail.filter(on_line(l)) =~= tail.filter(
                on_line(l),
            ));
        }
    }
}

/// The positions of the tokens of a text: every token stands on a line of
/// the text, its lexeme is the text of that line from the token's column on,
/// and the tokens stand in source order. For a text that starts at line 1,
/// column 1, a token's column is the 1-based index of its first character.
pub proof fn text_tokens_positions(lines: Seq<Seq<char>>, first: nat, base: nat)
    ensures
        forall|k: int|
            0 <= k < text_tokens(lines, first, base).len() ==> {
                let t = #[trigger] text_tokens(lines, first, base)[k];
                let start = start_column(t.line - first, base);
                &&& first <= t.line < first + lines.len()
                &&& t.lexeme.len() >= 1
                &&& start <= t.column
                &&& t.column - start + t.lexeme.len() <= lines[t.line - first].len()
                &&& t.lexeme == lines[t.line - first].subrange(
                    t.column - start,
                    t.column - start + t.lexeme.len(),
                )
            },
        in_source_order(text_tokens(lines, first, base)),
    decreases lines.len(),
{
    if lines.len() > 0 {
        let all = text_tokens(lines, first, base);
        let front = lines.drop_last();
        let number = (first + lines.len() - 1) as nat;
        let head = text_tokens(front, first, base);
        let tail = line_tokens(lines.last(), number, start_column(lines.len() - 1, base));
        text_tokens_positions(front, first, base);
        line_tokens_columns(lines.last(), number, start_column(lines.len() - 1, base));
        assert(all == head + tail);
        assert forall|k: int| 0 <= k < all.len() implies {
            let t = #[trigger] all[k];
            let start = start_column(t.line - first, base);
            &&& first <= t.line < first + lines.len()
            &&& t.lexeme.len() >= 1
            &&& start <= t.column
            &&& t.column - start + t.lexeme.len() <= lines[t.line - first].len()
            &&& t.lexeme == lines[t.line - first].subrange(
                t.column - start,
                t.column - start + t.lexeme.len(),
            )
        } by {
            if k < head.len() {
                assert(all[k] == head[k]);
                assert(front[head[k].line - first] == lines[head[k].line - first]);
            } else {
                assert(all[k] == tail[k - head.len()]);
            }
        }
        assert forall|j: int, k: int| 0 <= j < k < all.len() implies precedes(
            #[trigger] all[j],
            #[trigger] all[k],
        ) by {
            if k < head.len() {
                assert(all[j] == head[j]);
                assert(all[k] == head[k]);
            } else if j < head.len() {
                assert(all[j] == head[j]);
                assert(all[k] == tail[k - head.len()]);
            } else {
                assert(all[j] == tail[j - head.len()]);
                assert(all[k] == tail[k - head.len()]);
            }
        }
    }
}

/// The number of tokens whose line is `l` is the number of lexical units
/// recognized on line `l` of the text.
pub proof fn count_on_line(lines: Seq<Seq<char>>, first: nat, base: nat, l: nat)
    requires
        first <= l < first + lines.len(),
    ensures
        text_tokens(lines, first, base).filter(on_line(l)).len() == unit_count(lines[l - first]),
{
    tokens_on_line(lines, first, base, l);
    tokens_from_count(
        lines[l - first],
        word_marks(lines[l - first]),
        0,
        l,
        start_column(l - first, base),
    );
}

/// Scanning a marked line leaves a well-formed scanner well formed.
pub proof fn marked_line_keeps_wf(v: ScannerView, s: Seq<char>, w: Seq<bool>)
    requires
        v.wf(),
        w.len() == s.len(),
    ensures
        (ScannerView {
            tokens: v.tokens + marked_tokens(s, w, v.line, v.column),
            line: v.line,
            column: v.column + marked_consumed(s, w),
        }).wf(),
{
    let added = marked_tokens(s, w, v.line, v.column);
    let after = ScannerView {
        tokens: v.tokens + added,
        line: v.line,
        column: v.column + marked_consumed(s, w),
    };
    marked_tokens_columns(s, w, v.line, v.column);
    assert forall|k: int| 0 <= k < after.tokens.len() implies {
        let t = #[trigger] after.tokens[k];
        &&& t.line >= 1
        &&& t.column >= 1
        &&& t.lexeme.len() >= 1
        &&& ends_before(t, after.line, after.column)
    } by {
        if k < v.tokens.len() {
            assert(after.tokens[k] == v.tokens[k]);
        } else {
            assert(after.tokens[k] == added[k - v.tokens.len()]);
        }
    }
    assert forall|j: int, k: int| 0 <= j < k < after.tokens.len() implies precedes(
        #[trigger] after.tokens[j],
        #[trigger] after.tokens[k],
    ) by {
        if k < v.tokens.len() {
            assert(after.tokens[j] == v.tokens[j]);
            assert(after.tokens[k] == v.tokens[k]);
        } else if j < v.tokens.len() {
            assert(after.tokens[j] == v.tokens[j]);
            assert(after.tokens[k] == added[k - v.tokens.len()]);
        } else {
            assert(after.tokens[j] == added[j - v.tokens.len()]);
            assert(after.tokens[k] == added[k - v.tokens.len()]);
        }
    }
}

/// Scanning a line leaves a well-formed scanner well formed.
pub proof fn line_keeps_wf(v: ScannerView, s: Seq<char>)
    requires
        v.wf(),
    ensures
        (ScannerView {
            tokens: v.tokens + line_tokens(s, v.line, v.column),
            line: v.line,
            column: v.column + consumed(s),
        }).wf(),
{
    marked_line_keeps_wf(v, s, word_marks(s));
}

/// Moving to the start of the next line leaves a well-formed scanner well
/// formed.
pub proof fn next_line_keeps_wf(v: ScannerView)
    requires
        v.wf(),
    ensures
        (ScannerView { tokens: v.tokens, line: v.line + 1, column: 1 }).wf(),
{
}

} // verus!
