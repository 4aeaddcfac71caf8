//! Token kinds, the classifier that names the kind of a lexeme, and the
//! token record itself.

use vstd::prelude::*;
use crate::text::{
    all_digits, all_word, chars_of, lowercase_of, only_digits, only_word_chars, spells,
    unicode_lowercase,
};

verus! {

/// The kind of a token.
#[allow(non_camel_case_types)]
#[derive(Debug, Clone, Copy, PartialEq, Eq, Structural)]
pub enum TokenType {
    // keywords
    INT,
    MAIN,
    VOID,
    BREAK,
    DO,
    ELSE,
    IF,
    WHILE,
    RETURN,
    READ,
    WRITE,
    // punctuation and operators
    LBRACE,
    RBRACE,
    LSQUARE,
    RQUARE,
    LPAR,
    RPAR,
    SEMI,
    PLUS,
    MINUS,
    MUL_OP,
    DIV_OP,
    AND_OP,
    OR_OP,
    NOT_OP,
    ASSIGN,
    LT,
    GT,
    SHL_OP,
    SHR_OP,
    EQ,
    NOTEQ,
    LTEQ,
    GTEQ,
    COMMA,
    // integer literals and identifiers
    INT_NUM,
    ID,
    // preprocessor directives
    PP_DEFINE,
    PP_ELIF,
    PP_ELSE,
    PP_ENDIF,
    PP_IF,
    PP_INCLUDE,
    PP_UNDEF,
    PP_MESSAGE,
    PP_IFDEF,
    PP_IFNDEF,
    // text that is none of the above
    ERR,
}

/// The keyword that `s` spells, letter for letter in lower case.
pub open spec fn keyword_kind(s: Seq<char>) -> Option<TokenType> {
    if s == "int"@ {
        Some(TokenType::INT)
    } else if s == "main"@ {
        Some(TokenType::MAIN)
    } else if s == "void"@ {
        Some(TokenType::VOID)
    } else if s == "break"@ {
        Some(TokenType::BREAK)
    } else if s == "do"@ {
        Some(TokenType::DO)
    } else if s == "else"@ {
        Some(TokenType::ELSE)
    } else if s == "if"@ {
        Some(TokenType::IF)
    } else if s == "while"@ {
        Some(TokenType::WHILE)
    } else if s == "return"@ {
        Some(TokenType::RETURN)
    } else if s == "read"@ {
        Some(TokenType::READ)
    } else if s == "write"@ {
        Some(TokenType::WRITE)
    } else {
        None
    }
}

/// The preprocessor directive that `s` spells, leading `#` included, in
/// lower case.
pub open spec fn directive_kind(s: Seq<char>) -> Option<TokenType> {
    if s == "#define"@ {
        Some(TokenType::PP_DEFINE)
    } else if s == "#elif"@ {
        Some(TokenType::PP_ELIF)
    } else if s == "#else"@ {
        Some(TokenType::PP_ELSE)
    } else if s == "#endif"@ {
        Some(TokenType::PP_ENDIF)
    } else if s == "#ifdef"@ {
        Some(TokenType::PP_IFDEF)
    } else if s == "#ifndef"@ {
        Some(TokenType::PP_IFNDEF)
    } else if s == "#include"@ {
        Some(TokenType::PP_INCLUDE)
    } else if s == "#undef"@ {
        Some(TokenType::PP_UNDEF)
    } else if s == "#message"@ {
        Some(TokenType::PP_MESSAGE)
    } else if s == "#if"@ {
        Some(TokenType::PP_IF)
    } else {
        None
    }
}

/// The reserved word (keyword or directive) that the lower-case text `s`
/// spells.
pub open spec fn reserved_kind(s: Seq<char>) -> Option<TokenType> {
    match keyword_kind(s) {
        Some(k) => Some(k),
        None => directive_kind(s),
    }
}

/// The punctuation mark or operator that `s` spells exactly.
pub open spec fn symbol_kind(s: Seq<char>) -> Option<TokenType> {
    if s == "{"@ {
        Some(TokenType::LBRACE)
    } else if s == "}"@ {
        Some(TokenType::RBRACE)
    } else if s == "["@ {
        Some(TokenType::LSQUARE)
    } else if s == "]"@ {
        Some(TokenType::RQUARE)
    } else if s == "("@ {
        Some(TokenType::LPAR)
    } else if s == ")"@ {
        Some(TokenType::RPAR)
    } else if s == ";"@ {
        Some(TokenType::SEMI)
    } else if s == "+"@ {
        Some(TokenType::PLUS)
    } else if s == "-"@ {
        Some(TokenType::MINUS)
    } else if s == "*"@ {
        Some(TokenType::MUL_OP)
    } else if s == "/"@ {
        Some(TokenType::DIV_OP)
    } else if s == "&&"@ {
        Some(TokenType::AND_OP)
    } else if s == "||"@ {
        Some(TokenType::OR_OP)
    } else if s == "!"@ {
        Some(TokenType::NOT_OP)
    } else if s == "="@ {
        Some(TokenType::ASSIGN)
    } else if s == "<"@ {
        Some(TokenType::LT)
    } else if s == ">"@ {
        Some(TokenType::GT)
    } else if s == "<<"@ {
        Some(TokenType::SHL_OP)
    } else if s == ">>"@ {
        Some(TokenType::SHR_OP)
    } else if s == "=="@ {
        Some(TokenType::EQ)
    } else if s == "!="@ {
        Some(TokenType::NOTEQ)
    } else if s == "<="@ {
        Some(TokenType::LTEQ)
    } else if s == ">="@ {
        Some(TokenType::GTEQ)
    } else if s == ","@ {
        Some(TokenType::COMMA)
    } else {
        None
    }
}

/// The kind of a lexeme that is neither a reserved word nor a symbol, by its
/// shape alone: an integer literal if it is all digits, else an identifier if
/// it is all identifier characters, which `word` says, else an error.
pub open spec fn shape_given(s: Seq<char>, word: bool) -> TokenType {
    if all_digits(s) {
        TokenType::INT_NUM
    } else if word {
        TokenType::ID
    } else {
        TokenType::ERR
    }
}

/// The kind of the lexeme `s`, given its lower-case form `lowered` and
/// whether it is all identifier characters: a reserved word if `lowered`
/// spells one, else a symbol if `s` spells one exactly, else what the shape
/// of `s` says.
pub open spec fn kind_given(s: Seq<char>, lowered: Seq<char>, word: bool) -> TokenType {
    match reserved_kind(lowered) {
        Some(k) => k,
        None => match symbol_kind(s) {
            Some(k) => k,
            None => shape_given(s, word),
        },
    }
}

/// The kind of the lexeme `s`. Reserved words match whatever their case, and
/// letters and numbers of every script count as identifier characters.
pub open spec fn classify(s: Seq<char>) -> TokenType {
    kind_given(s, unicode_lowercase(s), all_word(s))
}

/// The name of a kind, as it is printed: the variant's own name.
pub open spec fn kind_name(kind: TokenType) -> Seq<char> {
    match kind {
        TokenType::INT => "INT"@,
        TokenType::MAIN => "MAIN"@,
        TokenType::VOID => "VOID"@,
        TokenType::BREAK => "BREAK"@,
        TokenType::DO => "DO"@,
        TokenType::ELSE => "ELSE"@,
        TokenType::IF => "IF"@,
        TokenType::WHILE => "WHILE"@,
        TokenType::RETURN => "RETURN"@,
        TokenType::READ => "READ"@,
        TokenType::WRITE => "WRITE"@,
        TokenType::LBRACE => "LBRACE"@,
        TokenType::RBRACE => "RBRACE"@,
        TokenType::LSQUARE => "LSQUARE"@,
        TokenType::RQUARE => "RQUARE"@,
        TokenType::LPAR => "LPAR"@,
        TokenType::RPAR => "RPAR"@,
        TokenType::SEMI => "SEMI"@,
        TokenType::PLUS => "PLUS"@,
        TokenType::MINUS => "MINUS"@,
        TokenType::MUL_OP => "MUL_OP"@,
        TokenType::DIV_OP => "DIV_OP"@,
        TokenType::AND_OP => "AND_OP"@,
        TokenType::OR_OP => "OR_OP"@,
        TokenType::NOT_OP => "NOT_OP"@,
        TokenType::ASSIGN => "ASSIGN"@,
        TokenType::LT => "LT"@,
        TokenType::GT => "GT"@,
        TokenType::SHL_OP => "SHL_OP"@,
        TokenType::SHR_OP => "SHR_OP"@,
        TokenType::EQ => "EQ"@,
        TokenType::NOTEQ => "NOTEQ"@,
        TokenType::LTEQ => "LTEQ"@,
        TokenType::GTEQ => "GTEQ"@,
        TokenType::COMMA => "COMMA"@,
        TokenType::INT_NUM => "INT_NUM"@,
        TokenType::ID => "ID"@,
        TokenType::PP_DEFINE => "PP_DEFINE"@,
        TokenType::PP_ELIF => "PP_ELIF"@,
        TokenType::PP_ELSE => "PP_ELSE"@,
        TokenType::PP_ENDIF => "PP_ENDIF"@,
        TokenType::PP_IF => "PP_IF"@,
        TokenType::PP_INCLUDE => "PP_INCLUDE"@,
        TokenType::PP_UNDEF => "PP_UNDEF"@,
        TokenType::PP_MESSAGE => "PP_MESSAGE"@,
        TokenType::PP_IFDEF => "PP_IFDEF"@,
        TokenType::PP_IFNDEF => "PP_IFNDEF"@,
        TokenType::ERR => "ERR"@,
    }
}

fn keyword_of(t: &Vec<char>) -> (r: Option<TokenType>)
    ensures
        r == keyword_kind(t@),
{
    if spells(t, "int") {
        Some(TokenType::INT)
    } else if spells(t, "main") {
        Some(TokenType::MAIN)
    } else if spells(t, "void") {
        Some(TokenType::VOID)
    } else if spells(t, "break") {
        Some(TokenType::BREAK)
    } else if spells(t, "do") {
        Some(TokenType::DO)
    } else if spells(t, "else") {
        Some(TokenType::ELSE)
    } else if spells(t, "if") {
        Some(TokenType::IF)
    } else if spells(t, "while") {
        Some(TokenType::WHILE)
    } else if spells(t, "return") {
        Some(TokenType::RETURN)
    } else if spells(t, "read") {
        Some(TokenType::READ)
    } else if spells(t, "write") {
        Some(TokenType::WRITE)
    } else {
        None
    }
}

fn directive_of(t: &Vec<char>) -> (r: Option<TokenType>)
    ensures
        r == directive_kind(t@),
{
    if spells(t, "#define") {
        Some(TokenType::PP_DEFINE)
    } else if spells(t, "#elif") {
        Some(TokenType::PP_ELIF)
    } else if spells(t, "#else") {
        Some(TokenType::PP_ELSE)
    } else if spells(t, "#endif") {
        Some(TokenType::PP_ENDIF)
    } else if spells(t, "#ifdef") {
        Some(TokenType::PP_IFDEF)
    } else if spells(t, "#ifndef") {
        Some(TokenType::PP_IFNDEF)
    } else if spells(t, "#include") {
        Some(TokenType::PP_INCLUDE)
    } else if spells(t, "#undef") {
        Some(TokenType::PP_UNDEF)
    } else if spells(t, "#message") {
        Some(TokenType::PP_MESSAGE)
    } else if spells(t, "#if") {
        Some(TokenType::PP_IF)
    } else {
        None
    }
}

fn symbol_of(t: &Vec<char>) -> (r: Option<TokenType>)
    ensures
        r == symbol_kind(t@),
{
    if spells(t, "{") {
        Some(TokenType::LBRACE)
    } else if spells(t, "}") {
        Some(TokenType::RBRACE)
    } else if spells(t, "[") {
        Some(TokenType::LSQUARE)
    } else if spells(t, "]") {
        Some(TokenType::RQUARE)
    } else if spells(t, "(") {
        Some(TokenType::LPAR)
    } else if spells(t, ")") {
        Some(TokenType::RPAR)
    } else if spells(t, ";") {
        Some(TokenType::SEMI)
    } else if spells(t, "+") {
        Some(TokenType::PLUS)
    } else if spells(t, "-") {
        Some(TokenType::MINUS)
    } else if spells(t, "*") {
        Some(TokenType::MUL_OP)
    } else if spells(t, "/") {
        Some(TokenType::DIV_OP)
    } else if spells(t, "&&") {
        Some(TokenType::AND_OP)
    } else if spells(t, "||") {
        Some(TokenType::OR_OP)
    } else if spells(t, "!") {
        Some(TokenType::NOT_OP)
    } else if spells(t, "=") {
        Some(TokenType::ASSIGN)
    } else if spells(t, "<") {
        Some(TokenType::LT)
    } else if spells(t, ">") {
        Some(TokenType::GT)
    } else if spells(t, "<<") {
        Some(TokenType::SHL_OP)
    } else if spells(t, ">>") {
        Some(TokenType::SHR_OP)
    } else if spells(t, "==") {
        Some(TokenType::EQ)
    } else if spells(t, "!=") {
        Some(TokenType::NOTEQ)
    } else if spells(t, "<=") {
        Some(TokenType::LTEQ)
    } else if spells(t, ">=") {
        Some(TokenType::GTEQ)
    } else if spells(t, ",") {
        Some(TokenType::COMMA)
    } else {
        None
    }
}

impl TokenType {
    /// Looks `lowered` up among the reserved words: the keywords and the
    /// preprocessor directives, which are spelled in lower case.
    pub fn reserved(lowered: &str) -> (r: Option<TokenType>)
        ensures
            r == reserved_kind(lowered@),
    {
        let text = chars_of(lowered);
        match keyword_of(&text) {
            Some(k) => Some(k),
            None => directive_of(&text),
        }
    }

    /// Looks `lexeme` up among the punctuation marks and operators.
    pub fn symbol(lexeme: &str) -> (r: Option<TokenType>)
        ensures
            r == symbol_kind(lexeme@),
    {
        let text = chars_of(lexeme);
        symbol_of(&text)
    }

    /// Judges `lexeme` by its shape: an integer literal if it is all digits,
    /// else an identifier if `word` says that it is all identifier
    /// characters, else an error.
    pub fn shape(lexeme: &str, word: bool) -> (kind: TokenType)
        ensures
            kind == shape_given(lexeme@, word),
    {
        let text = chars_of(lexeme);
        if only_digits(&text) {
            TokenType::INT_NUM
        } else if word {
            TokenType::ID
        } else {
            TokenType::ERR
        }
    }

    /// Classifies a lexeme of which the rest is already at hand: its
    /// lower-case form, and whether all its characters are letters, numbers
    /// or underscores.
    ///
    /// `lowered` is matched against the reserved words, `lexeme` itself
    /// against the symbols and, failing both, judged by its shape.
    pub fn from_parts(lexeme: &str, lowered: &str, word: bool) -> (kind: TokenType)
        ensures
            kind == kind_given(lexeme@, lowered@, word),
    {
        match TokenType::reserved(lowered) {
            Some(k) => k,
            None => match TokenType::symbol(lexeme) {
                Some(k) => k,
                None => TokenType::shape(lexeme, word),
            },
        }
    }

    /// Classifies a lexeme: a reserved word in any mix of upper and lower
    /// case, else a symbol spelled exactly, else an integer literal if it is
    /// all digits, else an identifier if it is all letters, numbers and
    /// underscores, else an error.
    pub fn from_string(lexeme: String) -> (kind: TokenType)
        ensures
            kind == classify(lexeme@),
    {
        let lowered = lowercase_of(lexeme.as_str());
        let text = chars_of(lexeme.as_str());
        let word = only_word_chars(&text);
        TokenType::from_parts(lexeme.as_str(), lowered.as_str(), word)
    }

    /// The name of this kind, as it is printed.
    pub fn name(self) -> (r: &'static str)
        ensures
            r@ == kind_name(self),
    {
        match self {
            TokenType::INT => "INT",
            TokenType::MAIN => "MAIN",
            TokenType::VOID => "VOID",
            TokenType::BREAK => "BREAK",
            TokenType::DO => "DO",
            TokenType::ELSE => "ELSE",
            TokenType::IF => "IF",
            TokenType::WHILE => "WHILE",
            TokenType::RETURN => "RETURN",
            TokenType::READ => "READ",
            TokenType::WRITE => "WRITE",
            TokenType::LBRACE => "LBRACE",
            TokenType::RBRACE => "RBRACE",
            TokenType::LSQUARE => "LSQUARE",
            TokenType::RQUARE => "RQUARE",
            TokenType::LPAR => "LPAR",
            TokenType::RPAR => "RPAR",
            TokenType::SEMI => "SEMI",
            TokenType::PLUS => "PLUS",
            TokenType::MINUS => "MINUS",
            TokenType::MUL_OP => "MUL_OP",
            TokenType::DIV_OP => "DIV_OP",
            TokenType::AND_OP => "AND_OP",
            TokenType::OR_OP => "OR_OP",
            TokenType::NOT_OP => "NOT_OP",
            TokenType::ASSIGN => "ASSIGN",
            TokenType::LT => "LT",
            TokenType::GT => "GT",
            TokenType::SHL_OP => "SHL_OP",
            TokenType::SHR_OP => "SHR_OP",
            TokenType::EQ => "EQ",
            TokenType::NOTEQ => "NOTEQ",
            TokenType::LTEQ => "LTEQ",
            TokenType::GTEQ => "GTEQ",
            TokenType::COMMA => "COMMA",
            TokenType::INT_NUM => "INT_NUM",
            TokenType::ID => "ID",
            TokenType::PP_DEFINE => "PP_DEFINE",
            TokenType::PP_ELIF => "PP_ELIF",
            TokenType::PP_ELSE => "PP_ELSE",
            TokenType::PP_ENDIF => "PP_ENDIF",
            TokenType::PP_IF => "PP_IF",
            TokenType::PP_INCLUDE => "PP_INCLUDE",
            TokenType::PP_UNDEF => "PP_UNDEF",
            TokenType::PP_MESSAGE => "PP_MESSAGE",
            TokenType::PP_IFDEF => "PP_IFDEF",
            TokenType::PP_IFNDEF => "PP_IFNDEF",
            TokenType::ERR => "ERR",
        }
    }
}

/// A token as contracts see it: its kind, the characters of its lexeme, and
/// the 1-based line and column at which the lexeme starts.
pub struct TokenView {
    pub kind: TokenType,
    pub lexeme: Seq<char>,
    pub line: nat,
    pub column: nat,
}

/// A classified lexeme with its position in the source.
#[derive(Debug, Clone)]
pub struct Token {
    /// What the lexeme is.
    pub kind: TokenType,
    /// The source text that was matched, unchanged.
    pub lexeme: String,
    /// The 1-based line on which the lexeme stands.
    pub line: usize,
    /// The 1-based column of the lexeme's first character.
    pub column: usize,
}

impl View for Token {
    type V = TokenView;

    open spec fn view(&self) -> TokenView {
        TokenView {
            kind: self.kind,
            lexeme: self.lexeme@,
            line: self.line as nat,
            column: self.column as nat,
        }
    }
}

/// The views of a list of tokens, in the same order.
pub open spec fn token_views(tokens: Seq<Token>) -> Seq<TokenView> {
    Seq::new(tokens.len(), |i: int| tokens[i]@)
}

impl Token {
    /// Makes a token out of its four parts.
    pub fn new(token_type: TokenType, lexeme: String, line: usize, column: usize) -> (token: Token)
        ensures
            token.kind == token_type,
            token.lexeme == lexeme,
            token.line == line,
            token.column == column,
    {
        Token { kind: token_type, lexeme, line, column }
    }

    /// The name of the token's kind, for printing.
    pub fn to_string(&self) -> (r: String)
        ensures
            r@ == kind_name(self.kind),
    {
        self.kind.name().to_owned()
    }
}

} // verus!
