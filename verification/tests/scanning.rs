use lexscan::scanner::Scanner;
use lexscan::token::TokenType;

fn found(scanner: &Scanner) -> Vec<(TokenType, String, usize, usize)> {
    scanner
        .get_tokens()
        .iter()
        .map(|t| (t.kind, t.lexeme.clone(), t.line, t.column))
        .collect()
}

fn scan_one(line: &str) -> Vec<(TokenType, String, usize, usize)> {
    let mut scanner = Scanner::new();
    scanner.scan_line(line);
    found(&scanner)
}

fn tok(kind: TokenType, lexeme: &str, line: usize, column: usize) -> (TokenType, String, usize, usize) {
    (kind, lexeme.to_string(), line, column)
}

#[test]
fn new_scanner_is_empty_at_line_one_column_one() {
    let scanner = Scanner::new();
    assert!(scanner.get_tokens().is_empty());
    assert_eq!(scanner.line(), 1);
    assert_eq!(scanner.column(), 1);
}

#[test]
fn keyword_keeps_its_casing_in_the_lexeme() {
    assert_eq!(scan_one("IF"), vec![tok(TokenType::IF, "IF", 1, 1)]);
    assert_eq!(scan_one("If"), vec![tok(TokenType::IF, "If", 1, 1)]);
    assert_eq!(scan_one("if"), vec![tok(TokenType::IF, "if", 1, 1)]);
}

#[test]
fn identifier_is_not_split_at_digits() {
    assert_eq!(scan_one("abc123"), vec![tok(TokenType::ID, "abc123", 1, 1)]);
}

#[test]
fn less_or_equal_is_one_token() {
    assert_eq!(scan_one("<="), vec![tok(TokenType::LTEQ, "<=", 1, 1)]);
}

#[test]
fn less_than_before_a_name_is_two_tokens() {
    assert_eq!(
        scan_one("<x"),
        vec![tok(TokenType::LT, "<", 1, 1), tok(TokenType::ID, "x", 1, 2)]
    );
}

#[test]
fn every_two_character_operator_is_one_token() {
    assert_eq!(scan_one("&&"), vec![tok(TokenType::AND_OP, "&&", 1, 1)]);
    assert_eq!(scan_one("||"), vec![tok(TokenType::OR_OP, "||", 1, 1)]);
    assert_eq!(scan_one("=="), vec![tok(TokenType::EQ, "==", 1, 1)]);
    assert_eq!(scan_one("!="), vec![tok(TokenType::NOTEQ, "!=", 1, 1)]);
    assert_eq!(scan_one(">="), vec![tok(TokenType::GTEQ, ">=", 1, 1)]);
    assert_eq!(scan_one("<<"), vec![tok(TokenType::SHL_OP, "<<", 1, 1)]);
    assert_eq!(scan_one(">>"), vec![tok(TokenType::SHR_OP, ">>", 1, 1)]);
}

#[test]
fn operators_pair_up_from_the_left() {
    assert_eq!(
        scan_one("<<="),
        vec![tok(TokenType::SHL_OP, "<<", 1, 1), tok(TokenType::ASSIGN, "=", 1, 3)]
    );
    assert_eq!(
        scan_one("==="),
        vec![tok(TokenType::EQ, "==", 1, 1), tok(TokenType::ASSIGN, "=", 1, 3)]
    );
    assert_eq!(
        scan_one("=<"),
        vec![tok(TokenType::ASSIGN, "=", 1, 1), tok(TokenType::LT, "<", 1, 2)]
    );
    assert_eq!(
        scan_one("!!"),
        vec![tok(TokenType::NOT_OP, "!", 1, 1), tok(TokenType::NOT_OP, "!", 1, 2)]
    );
}

#[test]
fn lone_ampersand_and_bar_are_errors() {
    assert_eq!(
        scan_one("a & b | c"),
        vec![
            tok(TokenType::ID, "a", 1, 1),
            tok(TokenType::ERR, "&", 1, 3),
            tok(TokenType::ID, "b", 1, 5),
            tok(TokenType::ERR, "|", 1, 7),
            tok(TokenType::ID, "c", 1, 9),
        ]
    );
}

#[test]
fn line_comment_hides_the_rest_of_the_line() {
    assert_eq!(
        scan_one("int x; // trailing"),
        vec![
            tok(TokenType::INT, "int", 1, 1),
            tok(TokenType::ID, "x", 1, 5),
            tok(TokenType::SEMI, ";", 1, 6),
        ]
    );
}

#[test]
fn comment_only_line_gives_no_token() {
    assert_eq!(scan_one("// int x;"), vec![]);
    assert_eq!(scan_one("   // int x;"), vec![]);
    assert_eq!(scan_one("//"), vec![]);
}

#[test]
fn column_stops_after_the_first_slash_of_a_comment() {
    let mut scanner = Scanner::new();
    scanner.scan_line("ab // c");
    assert_eq!(scanner.column(), 5);
    assert_eq!(scanner.line(), 1);
}

#[test]
fn end_to_end_line() {
    assert_eq!(
        scan_one("if (x == 10) { return x; }"),
        vec![
            tok(TokenType::IF, "if", 1, 1),
            tok(TokenType::LPAR, "(", 1, 4),
            tok(TokenType::ID, "x", 1, 5),
            tok(TokenType::EQ, "==", 1, 7),
            tok(TokenType::INT_NUM, "10", 1, 10),
            tok(TokenType::RPAR, ")", 1, 12),
            tok(TokenType::LBRACE, "{", 1, 14),
            tok(TokenType::RETURN, "return", 1, 16),
            tok(TokenType::ID, "x", 1, 23),
            tok(TokenType::SEMI, ";", 1, 24),
            tok(TokenType::RBRACE, "}", 1, 26),
        ]
    );
}

#[test]
fn unrecognized_character_does_not_stop_the_scan() {
    assert_eq!(
        scan_one("x @ y"),
        vec![
            tok(TokenType::ID, "x", 1, 1),
            tok(TokenType::ERR, "@", 1, 3),
            tok(TokenType::ID, "y", 1, 5),
        ]
    );
}

#[test]
fn division_is_a_token_when_something_follows() {
    assert_eq!(
        scan_one("a/b"),
        vec![
            tok(TokenType::ID, "a", 1, 1),
            tok(TokenType::DIV_OP, "/", 1, 2),
            tok(TokenType::ID, "b", 1, 3),
        ]
    );
    assert_eq!(
        scan_one("/ 2"),
        vec![tok(TokenType::DIV_OP, "/", 1, 1), tok(TokenType::INT_NUM, "2", 1, 3)]
    );
}

#[test]
fn slash_that_ends_the_line_gives_no_token() {
    assert_eq!(scan_one("a /"), vec![tok(TokenType::ID, "a", 1, 1)]);
    assert_eq!(scan_one("/"), vec![]);
    let mut scanner = Scanner::new();
    scanner.scan_line("a /");
    assert_eq!(scanner.column(), 4);
}

#[test]
fn blanks_move_the_column_and_give_no_token() {
    assert_eq!(scan_one(""), vec![]);
    assert_eq!(scan_one("  \t "), vec![]);
    assert_eq!(scan_one("\t\tx"), vec![tok(TokenType::ID, "x", 1, 3)]);
    let mut scanner = Scanner::new();
    scanner.scan_line("  \t ");
    assert_eq!(scanner.column(), 5);
}

#[test]
fn digits_stop_at_the_first_letter() {
    assert_eq!(
        scan_one("123abc"),
        vec![tok(TokenType::INT_NUM, "123", 1, 1), tok(TokenType::ID, "abc", 1, 4)]
    );
    assert_eq!(scan_one("007"), vec![tok(TokenType::INT_NUM, "007", 1, 1)]);
}

#[test]
fn identifier_may_start_with_any_ascii_letter_or_underscore() {
    assert_eq!(scan_one("Zeta9"), vec![tok(TokenType::ID, "Zeta9", 1, 1)]);
    assert_eq!(scan_one("_x"), vec![tok(TokenType::ID, "_x", 1, 1)]);
    assert_eq!(scan_one("Z"), vec![tok(TokenType::ID, "Z", 1, 1)]);
    assert_eq!(scan_one("__"), vec![tok(TokenType::ID, "__", 1, 1)]);
}

#[test]
fn identifier_goes_on_over_letters_of_other_scripts() {
    assert_eq!(scan_one("caf\u{e9}s x"), vec![
        tok(TokenType::ID, "caf\u{e9}s", 1, 1),
        tok(TokenType::ID, "x", 1, 7),
    ]);
    // such a letter cannot start an identifier: it is a unit of its own
    assert_eq!(scan_one("\u{e9}a"), vec![
        tok(TokenType::ID, "\u{e9}", 1, 1),
        tok(TokenType::ID, "a", 1, 2),
    ]);
}

#[test]
fn columns_count_characters_not_bytes() {
    assert_eq!(
        scan_one("\u{20ac} x"),
        vec![tok(TokenType::ERR, "\u{20ac}", 1, 1), tok(TokenType::ID, "x", 1, 3)]
    );
}

#[test]
fn every_single_symbol_advances_the_column() {
    assert_eq!(
        scan_one("{}[]();+-*,"),
        vec![
            tok(TokenType::LBRACE, "{", 1, 1),
            tok(TokenType::RBRACE, "}", 1, 2),
            tok(TokenType::LSQUARE, "[", 1, 3),
            tok(TokenType::RQUARE, "]", 1, 4),
            tok(TokenType::LPAR, "(", 1, 5),
            tok(TokenType::RPAR, ")", 1, 6),
            tok(TokenType::SEMI, ";", 1, 7),
            tok(TokenType::PLUS, "+", 1, 8),
            tok(TokenType::MINUS, "-", 1, 9),
            tok(TokenType::MUL_OP, "*", 1, 10),
            tok(TokenType::COMMA, ",", 1, 11),
        ]
    );
}

#[test]
fn hash_is_scanned_apart_from_the_word_after_it() {
    assert_eq!(
        scan_one("#include x"),
        vec![
            tok(TokenType::ERR, "#", 1, 1),
            tok(TokenType::ID, "include", 1, 2),
            tok(TokenType::ID, "x", 1, 10),
        ]
    );
}

#[test]
fn scan_line_keeps_the_line_and_counts_columns_on() {
    let mut scanner = Scanner::new();
    scanner.scan_line("ab ");
    assert_eq!(scanner.line(), 1);
    assert_eq!(scanner.column(), 4);
    scanner.scan_line("cd");
    assert_eq!(scanner.line(), 1);
    assert_eq!(scanner.column(), 6);
    assert_eq!(
        found(&scanner),
        vec![tok(TokenType::ID, "ab", 1, 1), tok(TokenType::ID, "cd", 1, 4)]
    );
}

#[test]
fn scan_numbers_the_lines_and_restarts_the_columns() {
    let lines = vec![
        "int main() {".to_string(),
        "  // nothing here".to_string(),
        "".to_string(),
        "  return 0; // done".to_string(),
        "}".to_string(),
    ];
    let mut scanner = Scanner::new();
    scanner.scan(&lines);
    assert_eq!(scanner.line(), 6);
    assert_eq!(scanner.column(), 1);
    assert_eq!(
        found(&scanner),
        vec![
            tok(TokenType::INT, "int", 1, 1),
            tok(TokenType::MAIN, "main", 1, 5),
            tok(TokenType::LPAR, "(", 1, 9),
            tok(TokenType::RPAR, ")", 1, 10),
            tok(TokenType::LBRACE, "{", 1, 12),
            tok(TokenType::RETURN, "return", 4, 3),
            tok(TokenType::INT_NUM, "0", 4, 10),
            tok(TokenType::SEMI, ";", 4, 11),
            tok(TokenType::RBRACE, "}", 5, 1),
        ]
    );
}

#[test]
fn scan_of_no_lines_changes_nothing() {
    let mut scanner = Scanner::new();
    scanner.scan_line("ab");
    scanner.scan(&Vec::new());
    assert_eq!(scanner.line(), 1);
    assert_eq!(scanner.column(), 3);
    assert_eq!(found(&scanner), vec![tok(TokenType::ID, "ab", 1, 1)]);
}

#[test]
fn scan_goes_on_where_the_scanner_stands() {
    let mut scanner = Scanner::new();
    scanner.scan(&vec!["a".to_string()]);
    scanner.scan_line("  b");
    scanner.scan(&vec![" c".to_string(), "d".to_string()]);
    assert_eq!(scanner.line(), 4);
    assert_eq!(scanner.column(), 1);
    assert_eq!(
        found(&scanner),
        vec![
            tok(TokenType::ID, "a", 1, 1),
            tok(TokenType::ID, "b", 2, 3),
            tok(TokenType::ID, "c", 2, 5),
            tok(TokenType::ID, "d", 3, 1),
        ]
    );
}

#[test]
fn tokens_per_line_match_the_units_on_it() {
    let lines = vec![
        "x = y + 1;".to_string(),
        "// only a comment".to_string(),
        "while (x <= 10) x = x << 1; // shift".to_string(),
        "a /".to_string(),
    ];
    let mut scanner = Scanner::new();
    scanner.scan(&lines);
    let count = |l: usize| scanner.get_tokens().iter().filter(|t| t.line == l).count();
    assert_eq!(count(1), 6);
    assert_eq!(count(2), 0);
    assert_eq!(count(3), 12);
    assert_eq!(count(4), 1);
    assert_eq!(count(5), 0);
    assert_eq!(scanner.get_tokens().len(), 19);
}

#[test]
fn columns_increase_and_point_at_the_lexeme() {
    let lines = vec![
        "if (x == 10) { return x; }".to_string(),
        "\twhile(a&&b||!c) a = a >> 2 / 3;".to_string(),
        "caf\u{e9} @ \u{20ac}9 <=>".to_string(),
    ];
    let mut scanner = Scanner::new();
    scanner.scan(&lines);
    let tokens = scanner.get_tokens();
    assert!(!tokens.is_empty());
    for token in tokens.iter() {
        let chars: Vec<char> = lines[token.line - 1].chars().collect();
        let lexeme: Vec<char> = token.lexeme.chars().collect();
        assert!(!lexeme.is_empty());
        assert_eq!(&chars[token.column - 1..token.column - 1 + lexeme.len()], &lexeme[..]);
    }
    for pair in tokens.windows(2) {
        if pair[0].line == pair[1].line {
            assert!(pair[0].column + pair[0].lexeme.chars().count() <= pair[1].column);
            assert!(pair[0].column < pair[1].column);
        } else {
            assert!(pair[0].line < pair[1].line);
        }
    }
}

#[test]
fn scan_marked_ends_identifiers_where_the_marks_end() {
    let mut scanner = Scanner::new();
    let marks = vec![true, true, true, false, false, true, false, false, false, false, true];
    scanner.scan_marked("ab1 <x // c", &marks);
    assert_eq!(
        found(&scanner),
        vec![
            tok(TokenType::ID, "ab1", 1, 1),
            tok(TokenType::LT, "<", 1, 5),
            tok(TokenType::ID, "x", 1, 6),
        ]
    );
    assert_eq!(scanner.column(), 9);
    assert_eq!(scanner.line(), 1);
}

#[test]
fn scan_marked_judges_shape_by_the_marks() {
    let mut scanner = Scanner::new();
    scanner.scan_marked("abcd", &vec![false, true, false, true]);
    assert_eq!(
        found(&scanner),
        vec![tok(TokenType::ERR, "ab", 1, 1), tok(TokenType::ERR, "cd", 1, 3)]
    );
    let mut scanner = Scanner::new();
    scanner.scan_marked("if?", &vec![false, true, true]);
    assert_eq!(found(&scanner), vec![tok(TokenType::ERR, "if?", 1, 1)]);
    let mut scanner = Scanner::new();
    scanner.scan_marked("if?", &vec![false, true, false]);
    assert_eq!(
        found(&scanner),
        vec![tok(TokenType::IF, "if", 1, 1), tok(TokenType::ERR, "?", 1, 3)]
    );
}

#[test]
fn scan_line_is_scan_marked_with_the_marks_of_the_line() {
    let line = "wh\u{ee}le(x_1<<=2)/y // z";
    let marks: Vec<bool> = line.chars().map(|c| c.is_alphanumeric() || c == '_').collect();
    let mut by_line = Scanner::new();
    by_line.scan_line(line);
    let mut by_marks = Scanner::new();
    by_marks.scan_marked(line, &marks);
    assert_eq!(found(&by_line), found(&by_marks));
    assert_eq!(by_line.column(), by_marks.column());
    assert_eq!(found(&by_line).len(), 9);
}
