//! Tokens of the source language, and the scanner that produces them.

use crate::text::{debug_quoted, decimal_text, join, joined, push_decimal, quote};
use vstd::prelude::*;
use vstd::std_specs::iter::IteratorSpec;
use vstd::string::*;

verus! {

/// The kinds of token: literals, keywords, built-in names and punctuation.
#[derive(Debug, Hash)]
pub enum TokenType {
    //literals:
    Identifier(String),
    Number(u16),
    //keywords:
    True,
    False,
    If,
    Else,
    And,
    Or,
    Var,
    While,
    Not,
    Fn,
    //in-built global CHIP-8 variables
    DT,
    ST,
    I,
    //in-built functions
    Rand,
    Draw,
    Key,
    //single-char tokens:
    LeftParen,
    RightParen,
    LeftBrace,
    RightBrace,
    Plus,
    Minus,
    ForwardSlash,
    Semicolon,
    Equals,
    Comma,
    //two-char tokens:
    EqualsEquals,
    NotEquals,
    EndOfFile,
    ErrorToken,
}

/// What a `TokenType` is to a contract: the same kinds, an identifier held by
/// its characters.
pub ghost enum TokenKind {
    Identifier(Seq<char>),
    Number(u16),
    True,
    False,
    If,
    Else,
    And,
    Or,
    Var,
    While,
    Not,
    Fn,
    DT,
    ST,
    I,
    Rand,
    Draw,
    Key,
    LeftParen,
    RightParen,
    LeftBrace,
    RightBrace,
    Plus,
    Minus,
    ForwardSlash,
    Semicolon,
    Equals,
    Comma,
    EqualsEquals,
    NotEquals,
    EndOfFile,
    ErrorToken,
}

impl TokenKind {
    /// A number for each kind, its place in the list of kinds.
    pub open spec fn ordinal(self) -> u8 {
        match self {
            TokenKind::Identifier(_) => 0,
            TokenKind::Number(_) => 1,
            TokenKind::True => 2,
            TokenKind::False => 3,
            TokenKind::If => 4,
            TokenKind::Else => 5,
            TokenKind::And => 6,
            TokenKind::Or => 7,
            TokenKind::Var => 8,
            TokenKind::While => 9,
            TokenKind::Not => 10,
            TokenKind::Fn => 11,
            TokenKind::DT => 12,
            TokenKind::ST => 13,
            TokenKind::I => 14,
            TokenKind::Rand => 15,
            TokenKind::Draw => 16,
            TokenKind::Key => 17,
            TokenKind::LeftParen => 18,
            TokenKind::RightParen => 19,
            TokenKind::LeftBrace => 20,
            TokenKind::RightBrace => 21,
            TokenKind::Plus => 22,
            TokenKind::Minus => 23,
            TokenKind::ForwardSlash => 24,
            TokenKind::Semicolon => 25,
            TokenKind::Equals => 26,
            TokenKind::Comma => 27,
            TokenKind::EqualsEquals => 28,
            TokenKind::NotEquals => 29,
            TokenKind::EndOfFile => 30,
            TokenKind::ErrorToken => 31,
        }
    }

    /// The name of the kind, as the token list prints it.
    pub open spec fn name(self) -> Seq<char> {
        match self {
            TokenKind::Identifier(_) => "Identifier"@,
            TokenKind::Number(_) => "Number"@,
            TokenKind::True => "True"@,
            TokenKind::False => "False"@,
            TokenKind::If => "If"@,
            TokenKind::Else => "Else"@,
            TokenKind::And => "And"@,
            TokenKind::Or => "Or"@,
            TokenKind::Var => "Var"@,
            TokenKind::While => "While"@,
            TokenKind::Not => "Not"@,
            TokenKind::Fn => "Fn"@,
            TokenKind::DT => "DT"@,
            TokenKind::ST => "ST"@,
            TokenKind::I => "I"@,
            TokenKind::Rand => "Rand"@,
            TokenKind::Draw => "Draw"@,
            TokenKind::Key => "Key"@,
            TokenKind::LeftParen => "LeftParen"@,
            TokenKind::RightParen => "RightParen"@,
            TokenKind::LeftBrace => "LeftBrace"@,
            TokenKind::RightBrace => "RightBrace"@,
            TokenKind::Plus => "Plus"@,
            TokenKind::Minus => "Minus"@,
            TokenKind::ForwardSlash => "ForwardSlash"@,
            TokenKind::Semicolon => "Semicolon"@,
            TokenKind::Equals => "Equals"@,
            TokenKind::Comma => "Comma"@,
            TokenKind::EqualsEquals => "EqualsEquals"@,
            TokenKind::NotEquals => "NotEquals"@,
            TokenKind::EndOfFile => "EndOfFile"@,
            TokenKind::ErrorToken => "ErrorToken"@,
        }
    }

    /// The text of the token in a printed token list: the kind's name, and for
    /// a literal its content in round brackets, an identifier in double quotes.
    pub open spec fn text(self) -> Seq<char> {
        match self {
            TokenKind::Identifier(s) => self.name() + "("@ + debug_quoted(s) + ")"@,
            TokenKind::Number(n) => self.name() + "("@ + decimal_text(n as nat) + ")"@,
            _ => self.name(),
        }
    }
}

impl View for TokenType {
    type V = TokenKind;

    open spec fn view(&self) -> TokenKind {
        match *self {
            TokenType::Identifier(name) => TokenKind::Identifier(name@),
            TokenType::Number(n) => TokenKind::Number(n),
            TokenType::True => TokenKind::True,
            TokenType::False => TokenKind::False,
            TokenType::If => TokenKind::If,
            TokenType::Else => TokenKind::Else,
            TokenType::And => TokenKind::And,
            TokenType::Or => TokenKind::Or,
            TokenType::Var => TokenKind::Var,
            TokenType::While => TokenKind::While,
            TokenType::Not => TokenKind::Not,
            TokenType::Fn => TokenKind::Fn,
            TokenType::DT => TokenKind::DT,
            TokenType::ST => TokenKind::ST,
            TokenType::I => TokenKind::I,
            TokenType::Rand => TokenKind::Rand,
            TokenType::Draw => TokenKind::Draw,
            TokenType::Key => TokenKind::Key,
            TokenType::LeftParen => TokenKind::LeftParen,
            TokenType::RightParen => TokenKind::RightParen,
            TokenType::LeftBrace => TokenKind::LeftBrace,
            TokenType::RightBrace => TokenKind::RightBrace,
            TokenType::Plus => TokenKind::Plus,
            TokenType::Minus => TokenKind::Minus,
            TokenType::ForwardSlash => TokenKind::ForwardSlash,
            TokenType::Semicolon => TokenKind::Semicolon,
            TokenType::Equals => TokenKind::Equals,
            TokenType::Comma => TokenKind::Comma,
            TokenType::EqualsEquals => TokenKind::EqualsEquals,
            TokenType::NotEquals => TokenKind::NotEquals,
            TokenType::EndOfFile => TokenKind::EndOfFile,
            TokenType::ErrorToken => TokenKind::ErrorToken,
        }
    }
}

impl Clone for TokenType {
    fn clone(&self) -> (r: Self)
        ensures
            r == *self,
    {
        match self {
            TokenType::Identifier(name) => TokenType::Identifier(name.clone()),
            TokenType::Number(n) => TokenType::Number(*n),
            TokenType::True => TokenType::True,
            TokenType::False => TokenType::False,
            TokenType::If => TokenType::If,
            TokenType::Else => TokenType::Else,
            TokenType::And => TokenType::And,
            TokenType::Or => TokenType::Or,
            TokenType::Var => TokenType::Var,
            TokenType::While => TokenType::While,
            TokenType::Not => TokenType::Not,
            TokenType::Fn => TokenType::Fn,
            TokenType::DT => TokenType::DT,
            TokenType::ST => TokenType::ST,
            TokenType::I => TokenType::I,
            TokenType::Rand => TokenType::Rand,
            TokenType::Draw => TokenType::Draw,
            TokenType::Key => TokenType::Key,
            TokenType::LeftParen => TokenType::LeftParen,
            TokenType::RightParen => TokenType::RightParen,
            TokenType::LeftBrace => TokenType::LeftBrace,
            TokenType::RightBrace => TokenType::RightBrace,
            TokenType::Plus => TokenType::Plus,
            TokenType::Minus => TokenType::Minus,
            TokenType::ForwardSlash => TokenType::ForwardSlash,
            TokenType::Semicolon => TokenType::Semicolon,
            TokenType::Equals => TokenType::Equals,
            TokenType::Comma => TokenType::Comma,
            TokenType::EqualsEquals => TokenType::EqualsEquals,
            TokenType::NotEquals => TokenType::NotEquals,
            TokenType::EndOfFile => TokenType::EndOfFile,
            TokenType::ErrorToken => TokenType::ErrorToken,
        }
    }
}

impl TokenType {
    /// The kind's place in the list of kinds.
    fn ordinal(&self) -> (r: u8)
        ensures
            r == self@.ordinal(),
    {
        match self {
            TokenType::Identifier(_) => 0,
            TokenType::Number(_) => 1,
            TokenType::True => 2,
            TokenType::False => 3,
            TokenType::If => 4,
            TokenType::Else => 5,
            TokenType::And => 6,
            TokenType::Or => 7,
            TokenType::Var => 8,
            TokenType::While => 9,
            TokenType::Not => 10,
            TokenType::Fn => 11,
            TokenType::DT => 12,
            TokenType::ST => 13,
            TokenType::I => 14,
            TokenType::Rand => 15,
            TokenType::Draw => 16,
            TokenType::Key => 17,
            TokenType::LeftParen => 18,
            TokenType::RightParen => 19,
            TokenType::LeftBrace => 20,
            TokenType::RightBrace => 21,
            TokenType::Plus => 22,
            TokenType::Minus => 23,
            TokenType::ForwardSlash => 24,
            TokenType::Semicolon => 25,
            TokenType::Equals => 26,
            TokenType::Comma => 27,
            TokenType::EqualsEquals => 28,
            TokenType::NotEquals => 29,
            TokenType::EndOfFile => 30,
            TokenType::ErrorToken => 31,
        }
    }

    /// The kind's name, as the token list prints it.
    fn name(&self) -> (r: &'static str)
        ensures
            r@ == self@.name(),
    {
        match self {
            TokenType::Identifier(_) => "Identifier",
            TokenType::Number(_) => "Number",
            TokenType::True => "True",
            TokenType::False => "False",
            TokenType::If => "If",
            TokenType::Else => "Else",
            TokenType::And => "And",
            TokenType::Or => "Or",
            TokenType::Var => "Var",
            TokenType::While => "While",
            TokenType::Not => "Not",
            TokenType::Fn => "Fn",
            TokenType::DT => "DT",
            TokenType::ST => "ST",
            TokenType::I => "I",
            TokenType::Rand => "Rand",
            TokenType::Draw => "Draw",
            TokenType::Key => "Key",
            TokenType::LeftParen => "LeftParen",
            TokenType::RightParen => "RightParen",
            TokenType::LeftBrace => "LeftBrace",
            TokenType::RightBrace => "RightBrace",
            TokenType::Plus => "Plus",
            TokenType::Minus => "Minus",
            TokenType::ForwardSlash => "ForwardSlash",
            TokenType::Semicolon => "Semicolon",
            TokenType::Equals => "Equals",
            TokenType::Comma => "Comma",
            TokenType::EqualsEquals => "EqualsEquals",
            TokenType::NotEquals => "NotEquals",
            TokenType::EndOfFile => "EndOfFile",
            TokenType::ErrorToken => "ErrorToken",
        }
    }

    /// The token as a printed token list shows it.
    pub fn to_string(&self) -> (r: String)
        ensures
            r@ == self@.text(),
    {
        let mut out = String::from_str(self.name());
        match self {
            TokenType::Identifier(name) => {
                out.append("(");
                let quoted = quote(name);
                out.append(quoted.as_str());
                out.append(")");
            },
            TokenType::Number(n) => {
                out.append("(");
                push_decimal(&mut out, *n);
                out.append(")");
            },
            _ => {},
        }
        out
    }
}

impl PartialEq for TokenType {
    fn eq(&self, other: &Self) -> (r: bool) {
        match self {
            TokenType::Identifier(a) => match other {
                TokenType::Identifier(b) => *a == *b,
                _ => false,
            },
            TokenType::Number(a) => match other {
                TokenType::Number(b) => *a == *b,
                _ => false,
            },
            _ => self.ordinal() == other.ordinal(),
        }
    }
}

impl Eq for TokenType {

}

impl vstd::std_specs::cmp::PartialEqSpecImpl for TokenType {
    open spec fn obeys_eq_spec() -> bool {
        true
    }

    open spec fn eq_spec(&self, other: &Self) -> bool {
        self@ == other@
    }
}

/// A token: its kind, and the line of the source that it stands on.
#[derive(Debug)]
pub struct Token {
    pub token_type: TokenType,
    pub line: u32,
}

impl View for Token {
    type V = (TokenKind, nat);

    open spec fn view(&self) -> (TokenKind, nat) {
        (self.token_type@, self.line as nat)
    }
}

impl Clone for Token {
    fn clone(&self) -> (r: Self)
        ensures
            r == *self,
    {
        Token { token_type: self.token_type.clone(), line: self.line }
    }
}

impl Token {
    /// A token of that kind on that line.
    pub fn new(token_type: TokenType, line: u32) -> (r: Token)
        ensures
            r.token_type == token_type,
            r.line == line,
    {
        Token { token_type, line }
    }

    /// A copy of the token's kind.
    pub fn token_type(&self) -> (r: TokenType)
        ensures
            r == self.token_type,
    {
        self.token_type.clone()
    }

    /// The line that the token stands on, counted from zero.
    pub fn line(&self) -> (r: u32)
        ensures
            r == self.line,
    {
        self.line
    }
}

/// Whether `char::is_alphabetic` holds of `c`: the Unicode property `Alphabetic`.
pub uninterp spec fn alphabetic(c: char) -> bool;

/// Whether `char::is_alphanumeric` holds of `c`: `Alphabetic`, or one of the
/// Unicode number categories.
pub uninterp spec fn alphanumeric(c: char) -> bool;

/// Whether `char::is_whitespace` holds of `c`: the Unicode property
/// `White_Space`.
pub uninterp spec fn whitespace(c: char) -> bool;

/// `char::is_alphabetic` decides the Unicode property `Alphabetic`.
pub assume_specification[ char::is_alphabetic ](c: char) -> (b: bool)
    ensures
        b == alphabetic(c),
;

/// `char::is_alphanumeric` decides whether a character is alphabetic or numeric.
pub assume_specification[ char::is_alphanumeric ](c: char) -> (b: bool)
    ensures
        b == alphanumeric(c),
;

/// `char::is_whitespace` decides the Unicode property `White_Space`.
pub assume_specification[ char::is_whitespace ](c: char) -> (b: bool)
    ensures
        b == whitespace(c),
;

/// One of the ten decimal digits.
pub open spec fn decimal_digit(c: char) -> bool {
    '0' <= c <= '9'
}

/// How many decimal digits stand in a row in `src` from `from` on.
pub open spec fn digit_run(src: Seq<char>, from: int) -> nat
    decreases src.len() - from,
{
    if 0 <= from < src.len() && decimal_digit(src[from]) {
        1 + digit_run(src, from + 1)
    } else {
        0
    }
}

/// How many alphanumeric characters stand in a row in `src` from `from` on.
pub open spec fn word_run(src: Seq<char>, from: int) -> nat
    decreases src.len() - from,
{
    if 0 <= from < src.len() && alphanumeric(src[from]) {
        1 + word_run(src, from + 1)
    } else {
        0
    }
}

/// The number that a row of decimal digits writes.
pub open spec fn decimal_value(digits: Seq<char>) -> nat
    decreases digits.len(),
{
    if digits.len() == 0 {
        0
    } else {
        decimal_value(digits.drop_last()) * 10 + (digits.last() as nat - '0' as nat) as nat
    }
}

/// A row of digits is a number where its value fits in 16 bits, and an error
/// token where it does not.
pub open spec fn number_kind(digits: Seq<char>) -> TokenKind {
    if decimal_value(digits) <= 0xFFFF {
        TokenKind::Number(decimal_value(digits) as u16)
    } else {
        TokenKind::ErrorToken
    }
}

/// The reserved words, and what each stands for.
pub open spec fn keyword(word: Seq<char>) -> Option<TokenKind> {
    if word == "true"@ {
        Some(TokenKind::True)
    } else if word == "false"@ {
        Some(TokenKind::False)
    } else if word == "if"@ {
        Some(TokenKind::If)
    } else if word == "else"@ {
        Some(TokenKind::Else)
    } else if word == "and"@ {
        Some(TokenKind::And)
    } else if word == "or"@ {
        Some(TokenKind::Or)
    } else if word == "var"@ {
        Some(TokenKind::Var)
    } else if word == "while"@ {
        Some(TokenKind::While)
    } else if word == "not"@ {
        Some(TokenKind::Not)
    } else if word == "fn"@ {
        Some(TokenKind::Fn)
    } else if word == "DT"@ {
        Some(TokenKind::DT)
    } else if word == "ST"@ {
        Some(TokenKind::ST)
    } else if word == "I"@ {
        Some(TokenKind::I)
    } else if word == "RAND"@ {
        Some(TokenKind::Rand)
    } else if word == "DRAW"@ {
        Some(TokenKind::Draw)
    } else if word == "KEY"@ {
        Some(TokenKind::Key)
    } else {
        None
    }
}

/// A word is the keyword that it spells, or else an identifier.
pub open spec fn word_kind(word: Seq<char>) -> TokenKind {
    match keyword(word) {
        Some(kind) => kind,
        None => TokenKind::Identifier(word),
    }
}

/// Whether the character after `pos` is `=`.
pub open spec fn equals_follows(src: Seq<char>, pos: int) -> bool {
    pos + 1 < src.len() && src[pos + 1] == '='
}

/// A run of digits or of alphanumeric characters ends inside the source.
pub proof fn lemma_runs_end_in_source(src: Seq<char>, from: int)
    requires
        0 <= from <= src.len(),
    ensures
        from + digit_run(src, from) <= src.len(),
        from + word_run(src, from) <= src.len(),
    decreases src.len() - from,
{
    if from < src.len() {
        lemma_runs_end_in_source(src, from + 1);
    }
}

/// How many characters the lexeme that starts at `pos` has after its first:
/// one for `==` and `!=`, the rest of the run for a number or a word, and
/// none otherwise.
pub open spec fn lexeme_tail(src: Seq<char>, pos: int) -> nat {
    let c = src[pos];
    if c == '=' || c == '!' {
        if equals_follows(src, pos) {
            1
        } else {
            0
        }
    } else if punctuation(c) is Some || c == '\n' {
        0
    } else if decimal_digit(c) {
        digit_run(src, pos + 1)
    } else if alphabetic(c) {
        word_run(src, pos + 1)
    } else {
        0
    }
}

/// The length of the lexeme that starts at `pos`.
pub open spec fn lexeme_len(src: Seq<char>, pos: int) -> nat {
    1 + lexeme_tail(src, pos)
}

/// The token for a punctuation mark of one character that no other
/// character can extend.
pub open spec fn punctuation(c: char) -> Option<TokenKind> {
    if c == '+' {
        Some(TokenKind::Plus)
    } else if c == '-' {
        Some(TokenKind::Minus)
    } else if c == '/' {
        Some(TokenKind::ForwardSlash)
    } else if c == '{' {
        Some(TokenKind::LeftBrace)
    } else if c == '}' {
        Some(TokenKind::RightBrace)
    } else if c == '(' {
        Some(TokenKind::LeftParen)
    } else if c == ')' {
        Some(TokenKind::RightParen)
    } else if c == ';' {
        Some(TokenKind::Semicolon)
    } else if c == ',' {
        Some(TokenKind::Comma)
    } else {
        None
    }
}

/// The token that the lexeme at `pos` gives, if it gives one: a line break
/// and other white space give none, and a character that starts no lexeme
/// gives an error token.
pub open spec fn lexeme_kind(src: Seq<char>, pos: int) -> Option<TokenKind> {
    let c = src[pos];
    let text = src.subrange(pos, pos + lexeme_len(src, pos));
    if c == '=' {
        Some(
            if equals_follows(src, pos) {
                TokenKind::EqualsEquals
            } else {
                TokenKind::Equals
            },
        )
    } else if c == '!' {
        Some(
            if equals_follows(src, pos) {
                TokenKind::NotEquals
            } else {
                TokenKind::Not
            },
        )
    } else if punctuation(c) is Some {
        punctuation(c)
    } else if c == '\n' {
        None
    } else if decimal_digit(c) {
        Some(number_kind(text))
    } else if alphabetic(c) {
        Some(word_kind(text))
    } else if whitespace(c) {
        None
    } else {
        Some(TokenKind::ErrorToken)
    }
}

/// The tokens of `src` from `pos` on, the first of them on line `line`: each
/// lexeme's token with the line it starts on, and the end-of-file marker on
/// the last line.
pub open spec fn scan(src: Seq<char>, pos: int, line: nat) -> Seq<(TokenKind, nat)>
    decreases src.len() - pos,
{
    if pos < 0 || pos >= src.len() {
        seq![(TokenKind::EndOfFile, line)]
    } else {
        let next_line = if src[pos] == '\n' {
            line + 1
        } else {
            line
        };
        proof {
            lemma_runs_end_in_source(src, pos + 1);
        }
        let rest = scan(src, pos + lexeme_len(src, pos), next_line);
        match lexeme_kind(src, pos) {
            Some(kind) => seq![(kind, line)] + rest,
            None => rest,
        }
    }
}

/// The scanner: the characters of the source, its place in them, the line it
/// is on, and the tokens made so far.
pub struct Lexer {
    src: Vec<char>,
    start: usize,
    current: usize,
    line: u32,
    tokens: Vec<Token>,
}

fn is_decimal_digit(c: char) -> (b: bool)
    ensures
        b == decimal_digit(c),
{
    c >= '0' && c <= '9'
}

fn spells(word: &String, keyword: &str) -> (b: bool)
    ensures
        b == (word@ == keyword@),
{
    *word == String::from_str(keyword)
}

/// The token for a word: the keyword that it spells, or an identifier.
fn word_token(word: String) -> (r: TokenType)
    ensures
        r@ == word_kind(word@),
{
    if spells(&word, "true") {
        TokenType::True
    } else if spells(&word, "false") {
        TokenType::False
    } else if spells(&word, "if") {
        TokenType::If
    } else if spells(&word, "else") {
        TokenType::Else
    } else if spells(&word, "and") {
        TokenType::And
    } else if spells(&word, "or") {
        TokenType::Or
    } else if spells(&word, "var") {
        TokenType::Var
    } else if spells(&word, "while") {
        TokenType::While
    } else if spells(&word, "not") {
        TokenType::Not
    } else if spells(&word, "fn") {
        TokenType::Fn
    } else if spells(&word, "DT") {
        TokenType::DT
    } else if spells(&word, "ST") {
        TokenType::ST
    } else if spells(&word, "I") {
        TokenType::I
    } else if spells(&word, "RAND") {
        TokenType::Rand
    } else if spells(&word, "DRAW") {
        TokenType::Draw
    } else if spells(&word, "KEY") {
        TokenType::Key
    } else {
        TokenType::Identifier(word)
    }
}

/// The token for a row of digits.
fn number_token(digits: &Vec<char>, from: usize, to: usize) -> (r: TokenType)
    requires
        from <= to <= digits.len(),
        forall|i: int| from <= i < to ==> decimal_digit(#[trigger] digits[i]),
    ensures
        r@ == number_kind(digits@.subrange(from as int, to as int)),
{
    let ghost all = digits@.subrange(from as int, to as int);
    let mut value: u32 = 0;
    let mut fits = true;
    let mut i: usize = from;
    while i < to
        invariant
            from <= i <= to <= digits.len(),
            all == digits@.subrange(from as int, to as int),
            forall|k: int| from <= k < to ==> decimal_digit(#[trigger] digits[k]),
            fits ==> value == decimal_value(all.take(i - from)),
            !fits ==> decimal_value(all.take(i - from)) > 0xFFFF,
            value <= 0xFFFF,
        decreases to - i,
    {
        let ghost before = all.take(i - from);
        let ghost after = all.take(i + 1 - from);
        proof {
            assert(after.drop_last() =~= before);
            assert(after.last() == digits[i as int]);
        }
        if fits {
            let digit: u32 = (digits[i] as u32) - ('0' as u32);
            let next: u32 = value * 10 + digit;
            if next > 0xFFFF {
                fits = false;
            } else {
                value = next;
            }
        }
        i += 1;
    }
    assert(all.take(to - from) =~= all);
    if fits {
        TokenType::Number(value as u16)
    } else {
        TokenType::ErrorToken
    }
}

impl Lexer {
    /// The characters of the source.
    pub closed spec fn source(&self) -> Seq<char> {
        self.src@
    }

    /// How many characters have been scanned.
    pub closed spec fn position(&self) -> nat {
        self.current as nat
    }

    /// The line that the scanner is on, counted from zero.
    pub closed spec fn line_number(&self) -> nat {
        self.line as nat
    }

    /// The tokens made so far.
    pub closed spec fn token_seq(&self) -> Seq<Token> {
        self.tokens@
    }

    /// The tokens made so far, each as its kind and its line.
    pub open spec fn lexemes(&self) -> Seq<(TokenKind, nat)> {
        self.token_seq().map_values(|t: Token| t@)
    }

    /// The scanner stands inside its source, and has counted no more line
    /// breaks than it has passed characters; the source is short enough for
    /// a line number of 32 bits.
    pub closed spec fn wf(&self) -> bool {
        &&& self.current <= self.src.len()
        &&& self.src.len() <= u32::MAX
        &&& self.line <= self.current
    }

    /// A scanner at the start of `src`, with no token made.
    pub fn new(src: &str) -> (r: Lexer)
        requires
            src@.len() <= u32::MAX,
        ensures
            r.wf(),
            r.source() == src@,
            r.position() == 0,
            r.line_number() == 0,
            r.lexemes() == Seq::<(TokenKind, nat)>::empty(),
    {
        broadcast use vstd::string::group_string_axioms;

        let mut chars: Vec<char> = Vec::new();
        let mut it = src.chars();
        loop
            invariant
                chars@ + it.remaining() =~= src@,
                it.obeys_prophetic_iter_laws(),
            ensures
                chars@ =~= src@,
            decreases src@.len() - chars@.len(),
        {
            match it.next() {
                Some(c) => {
                    chars.push(c);
                },
                None => {
                    break ;
                },
            }
        }
        let r = Lexer { src: chars, start: 0, current: 0, line: 0, tokens: Vec::new() };
        assert(r.lexemes() =~= Seq::<(TokenKind, nat)>::empty());
        r
    }

    fn match_char(&mut self, expected: char) -> (r: bool)
        requires
            old(self).wf(),
            expected != '\n',
        ensures
            r == (old(self).position() < old(self).source().len() && old(self).source()[old(
                self,
            ).position() as int] == expected),
            final(self).src == old(self).src,
            final(self).tokens == old(self).tokens,
            final(self).line == old(self).line,
            final(self).start == old(self).start,
            final(self).current == old(self).current + if r {
                1int
            } else {
                0int
            },
            final(self).wf(),
    {
        if self.is_at_end() {
            return false;
        }
        if self.peek() != expected {
            return false;
        }
        self.advance();
        true
    }

    fn peek(&self) -> (r: char)
        ensures
            r == if self.current < self.src.len() {
                self.src[self.current as int]
            } else {
                '\0'
            },
    {
        if self.is_at_end() {
            return '\0';
        }
        self.src[self.current]
    }

    fn advance(&mut self) -> (r: char)
        requires
            old(self).current < old(self).src.len(),
        ensures
            r == old(self).src[old(self).current as int],
            final(self).current == old(self).current + 1,
            final(self).src == old(self).src,
            final(self).tokens == old(self).tokens,
            final(self).line == old(self).line,
            final(self).start == old(self).start,
    {
        let ret = self.peek();
        self.current += 1;
        ret
    }

    /// Whether the whole source has been scanned.
    pub fn is_at_end(&self) -> (r: bool)
        ensures
            r == (self.position() >= self.source().len()),
    {
        self.current >= self.src.len()
    }

    /// The line that the scanner is on, counted from zero.
    pub fn line(&self) -> (r: u32)
        ensures
            r == self.line_number(),
    {
        self.line
    }

    fn push_token(&mut self, token_type: TokenType)
        ensures
            final(self).lexemes() == old(self).lexemes().push((token_type@, old(self).line as nat)),
            final(self).src == old(self).src,
            final(self).current == old(self).current,
            final(self).line == old(self).line,
            final(self).start == old(self).start,
    {
        self.tokens.push(Token::new(token_type, self.line));
        assert(self.lexemes() =~= old(self).lexemes().push((token_type@, old(self).line as nat)));
    }

    /// The characters from `start` to `current`, as a string.
    fn lexeme_text(&self) -> (r: String)
        requires
            self.start <= self.current <= self.src.len(),
        ensures
            r@ == self.src@.subrange(self.start as int, self.current as int),
    {
        let mut text = String::new();
        let mut i: usize = self.start;
        while i < self.current
            invariant
                self.start <= i <= self.current <= self.src.len(),
                text@ == self.src@.subrange(self.start as int, i as int),
            decreases self.current - i,
        {
            text.push(self.src[i]);
            assert(self.src@.subrange(self.start as int, i as int).push(self.src[i as int])
                =~= self.src@.subrange(self.start as int, i + 1));
            i += 1;
        }
        text
    }

    /// Scans the rest of the source: adds the tokens of `scan` to those
    /// made before, the end-of-file marker last.
    #[verifier::rlimit(50)]
    pub fn lex(&mut self)
        requires
            old(self).wf(),
        ensures
            final(self).wf(),
            final(self).source() == old(self).source(),
            final(self).position() == old(self).source().len(),
            final(self).lexemes() == old(self).lexemes() + scan(
                old(self).source(),
                old(self).position() as int,
                old(self).line_number(),
            ),
            final(self).lexemes().last() == (TokenKind::EndOfFile, final(self).line_number()),
    {
        let ghost src = self.src@;
        let ghost goal = old(self).lexemes() + scan(src, old(self).current as int, old(self).line as nat);
        while !self.is_at_end()
            invariant
                self.wf(),
                self.src@ == src,
                self.lexemes() + scan(src, self.current as int, self.line as nat) =~= goal,
            decreases self.src.len() - self.current,
        {
            self.start = self.current;
            let ghost pos = self.current as int;
            let ghost before = self.lexemes();
            let ghost line = self.line as nat;

            let character = self.advance();
            if character == '=' {
                if self.match_char('=') {
                    self.push_token(TokenType::EqualsEquals);
                } else {
                    self.push_token(TokenType::Equals);
                }
            } else if character == '!' {
                if self.match_char('=') {
                    self.push_token(TokenType::NotEquals);
                } else {
                    self.push_token(TokenType::Not);
                }
            } else if character == '+' {
                self.push_token(TokenType::Plus);
            } else if character == '-' {
                self.push_token(TokenType::Minus);
            } else if character == '/' {
                self.push_token(TokenType::ForwardSlash);
            } else if character == '{' {
                self.push_token(TokenType::LeftBrace);
            } else if character == '}' {
                self.push_token(TokenType::RightBrace);
            } else if character == '(' {
                self.push_token(TokenType::LeftParen);
            } else if character == ')' {
                self.push_token(TokenType::RightParen);
            } else if character == ';' {
                self.push_token(TokenType::Semicolon);
            } else if character == ',' {
                self.push_token(TokenType::Comma);
            } else if character == '\n' {
                self.line += 1;
            } else if is_decimal_digit(character) {
                while !self.is_at_end() && is_decimal_digit(self.peek())
                    invariant
                        self.src@ == src,
                        self.start == pos,
                        pos < self.current <= self.src.len(),
                        self.line == line,
                        self.lexemes() == before,
                        forall|k: int| pos <= k < self.current ==> decimal_digit(#[trigger] src[k]),
                        digit_run(src, pos + 1) == self.current - pos - 1 + digit_run(
                            src,
                            self.current as int,
                        ),
                    decreases self.src.len() - self.current,
                {
                    self.advance();
                }
                let token = number_token(&self.src, self.start, self.current);
                self.push_token(token);
            } else if character.is_alphabetic() {
                while !self.is_at_end() && self.peek().is_alphanumeric()
                    invariant
                        self.src@ == src,
                        self.start == pos,
                        pos < self.current <= self.src.len(),
                        self.line == line,
                        self.lexemes() == before,
                        word_run(src, pos + 1) == self.current - pos - 1 + word_run(
                            src,
                            self.current as int,
                        ),
                    decreases self.src.len() - self.current,
                {
                    self.advance();
                }
                let ident = self.lexeme_text();
                self.push_token(word_token(ident));
            } else if character.is_whitespace() {
            } else {
                self.push_token(TokenType::ErrorToken);
            }
            proof {
                assert(self.current == pos + lexeme_len(src, pos));
                let rest = scan(src, self.current as int, self.line as nat);
                match lexeme_kind(src, pos) {
                    Some(kind) => {
                        assert(self.lexemes() == before.push((kind, line)));
                        assert(before.push((kind, line)) + rest =~= before + (seq![(kind, line)]
                            + rest));
                    },
                    None => {
                        assert(self.lexemes() == before);
                    },
                }
            }
        }
        self.push_token(TokenType::EndOfFile);
        assert(old(self).lexemes() + seq![(TokenKind::EndOfFile, self.line as nat)] =~= old(
            self,
        ).lexemes().push((TokenKind::EndOfFile, self.line as nat)));
    }

    /// The tokens made so far as one line of text, a space between each two.
    pub fn stringify_tokens(&self) -> (r: String)
        ensures
            r@ == joined(self.lexemes().map_values(|t: (TokenKind, nat)| t.0.text()), " "@),
    {
        let mut parts: Vec<String> = Vec::new();
        let mut i: usize = 0;
        while i < self.tokens.len()
            invariant
                i <= self.tokens.len(),
                parts@.len() == i,
                forall|k: int| 0 <= k < i ==> (#[trigger] parts@[k])@ == self.tokens@[k].token_type@.text(),
            decreases self.tokens.len() - i,
        {
            parts.push(self.tokens[i].token_type.to_string());
            i += 1;
        }
        assert(parts@.map_values(|p: String| p@) =~= self.lexemes().map_values(
            |t: (TokenKind, nat)| t.0.text(),
        ));
        join(&parts, " ")
    }

    /// The tokens made so far.
    pub fn tokens(&self) -> (r: &Vec<Token>)
        ensures
            r@ == self.token_seq(),
            r@.map_values(|t: Token| t@) == self.lexemes(),
    {
        &self.tokens
    }
}

} // verus!
