//! The lexer: source characters to tokens and lexical diagnostics.
//!
//! What the lexer produces is defined by [`lex_from`], a function of the source
//! and a starting position; [`Lexer::tokenize`] is proved to compute it.
use vstd::prelude::*;
use crate::errors::{CompilerError, CompilerErrorView};
use crate::text::{push_chars, str_equal};
use crate::tokens::{Token, TokenKind, TokenKindView, TokenView};

verus! {

pub open spec fn digit(c: char) -> bool {
    '0' <= c <= '9'
}

pub open spec fn letter(c: char) -> bool {
    ('a' <= c <= 'z') || ('A' <= c <= 'Z')
}

pub open spec fn letter_or_underscore(c: char) -> bool {
    c == '_' || letter(c)
}

/// The characters that may continue an identifier.
pub open spec fn ident_char(c: char) -> bool {
    letter_or_underscore(c) || digit(c)
}

/// The characters between tokens.
pub open spec fn blank(c: char) -> bool {
    c == ' ' || c == '\t' || c == '\r' || c == '\n'
}

/// The 1-based line of position `i`: one more than the newlines before it.
pub open spec fn line_at(src: Seq<char>, i: int) -> nat
    decreases i,
{
    if i <= 0 {
        1
    } else if src[i - 1] == '\n' {
        line_at(src, i - 1) + 1
    } else {
        line_at(src, i - 1)
    }
}

/// The 1-based column of position `i`: one more than the characters since the last newline.
pub open spec fn column_at(src: Seq<char>, i: int) -> nat
    decreases i,
{
    if i <= 0 {
        1
    } else if src[i - 1] == '\n' {
        1
    } else {
        column_at(src, i - 1) + 1
    }
}

/// The length of the longest run of blanks that starts at `i`.
pub open spec fn blank_run(src: Seq<char>, i: int) -> nat
    decreases src.len() - i,
{
    if 0 <= i < src.len() && blank(src[i]) {
        1 + blank_run(src, i + 1)
    } else {
        0
    }
}

/// The length of the longest run of identifier characters that starts at `i`.
pub open spec fn ident_run(src: Seq<char>, i: int) -> nat
    decreases src.len() - i,
{
    if 0 <= i < src.len() && ident_char(src[i]) {
        1 + ident_run(src, i + 1)
    } else {
        0
    }
}

/// The length of the longest run of digits that starts at `i`.
pub open spec fn digit_run(src: Seq<char>, i: int) -> nat
    decreases src.len() - i,
{
    if 0 <= i < src.len() && digit(src[i]) {
        1 + digit_run(src, i + 1)
    } else {
        0
    }
}

/// The number that a digit writes.
pub open spec fn digit_value(c: char) -> nat {
    (c as int - '0' as int) as nat
}

/// The number that a sequence of digits writes in base ten.
pub open spec fn digits_value(digits: Seq<char>) -> nat
    decreases digits.len(),
{
    if digits.len() == 0 {
        0
    } else {
        digits_value(digits.drop_last()) * 10 + digit_value(digits.last())
    }
}

/// A maximal identifier is a keyword exactly when it spells one.
pub open spec fn word_kind(word: Seq<char>) -> TokenKindView {
    if word == "int"@ {
        TokenKindView::Int
    } else if word == "void"@ {
        TokenKindView::Void
    } else if word == "return"@ {
        TokenKindView::Return
    } else if word == "struct"@ {
        TokenKindView::Struct
    } else {
        TokenKindView::Identifier(word)
    }
}

pub open spec fn invalid_identifier() -> Seq<char> {
    "invalid identifier"@
}

pub open spec fn integer_too_large() -> Seq<char> {
    "Error parsing integer literal: number too large to fit in target type"@
}

pub open spec fn unexpected_character(c: char) -> Seq<char> {
    "unexpected character '"@.push(c) + "'"@
}

/// What stands at a position that holds a character other than a blank.
pub enum Lexeme {
    /// A token that ends before position `end`.
    Token { kind: TokenKindView, end: int },
    /// A diagnostic about the character at `at`; scanning goes on at `resume`.
    Error { message: Seq<char>, at: int, resume: int },
}

pub open spec fn scan_word(src: Seq<char>, i: int) -> Lexeme {
    let end = i + ident_run(src, i);
    Lexeme::Token { kind: word_kind(src.subrange(i, end)), end }
}

/// A numeral: an integer literal, or a floating literal where a point and a
/// digit follow the digits. A letter or underscore right after it spoils it.
pub open spec fn scan_number(src: Seq<char>, i: int) -> Lexeme {
    let d = i + digit_run(src, i);
    if d < src.len() && letter_or_underscore(src[d]) {
        Lexeme::Error { message: invalid_identifier(), at: d, resume: d }
    } else if d + 1 < src.len() && src[d] == '.' && digit(src[d + 1]) {
        let f = d + 1 + digit_run(src, d + 1);
        if f < src.len() && letter_or_underscore(src[f]) {
            Lexeme::Error { message: invalid_identifier(), at: f, resume: f }
        } else {
            Lexeme::Token { kind: TokenKindView::ConstDouble(src.subrange(i, f)), end: f }
        }
    } else {
        let value = digits_value(src.subrange(i, d));
        if value <= i32::MAX {
            Lexeme::Token { kind: TokenKindView::ConstInt(value as i32), end: d }
        } else {
            Lexeme::Error { message: integer_too_large(), at: i, resume: d }
        }
    }
}

pub open spec fn scan_symbol(src: Seq<char>, i: int) -> Lexeme {
    let c = src[i];
    if c == '(' {
        Lexeme::Token { kind: TokenKindView::LeftParen, end: i + 1 }
    } else if c == ')' {
        Lexeme::Token { kind: TokenKindView::RightParen, end: i + 1 }
    } else if c == '{' {
        Lexeme::Token { kind: TokenKindView::LeftBrace, end: i + 1 }
    } else if c == '}' {
        Lexeme::Token { kind: TokenKindView::RightBrace, end: i + 1 }
    } else if c == ';' {
        Lexeme::Token { kind: TokenKindView::Semicolon, end: i + 1 }
    } else if c == ',' {
        Lexeme::Token { kind: TokenKindView::Comma, end: i + 1 }
    } else if c == '~' {
        Lexeme::Token { kind: TokenKindView::Tilde, end: i + 1 }
    } else if c == '-' {
        if i + 1 < src.len() && src[i + 1] == '-' {
            Lexeme::Token { kind: TokenKindView::MinusMinus, end: i + 2 }
        } else {
            Lexeme::Token { kind: TokenKindView::Minus, end: i + 1 }
        }
    } else {
        Lexeme::Error { message: unexpected_character(c), at: i, resume: i + 1 }
    }
}

/// The lexeme at position `i`, for `0 <= i < src.len()` and `src[i]` not a blank.
pub open spec fn scan(src: Seq<char>, i: int) -> Lexeme {
    if letter_or_underscore(src[i]) {
        scan_word(src, i)
    } else if digit(src[i]) {
        scan_number(src, i)
    } else {
        scan_symbol(src, i)
    }
}

/// One step of the lexer from position `i`.
pub enum Step {
    /// A token, and the position after it.
    Token(TokenView, int),
    /// A diagnostic, and the position at which scanning goes on.
    Error(CompilerErrorView, int),
    /// Only blanks were left: the end-of-input token.
    End(TokenView),
}

pub open spec fn step(src: Seq<char>, i: int) -> Step {
    let j = i + blank_run(src, i);
    if j >= src.len() {
        Step::End(TokenView { kind: TokenKindView::EOF, start: j as usize, end: j as usize })
    } else {
        match scan(src, j) {
            Lexeme::Token { kind, end } => Step::Token(
                TokenView { kind, start: j as usize, end: end as usize },
                end,
            ),
            Lexeme::Error { message, at, resume } => Step::Error(
                CompilerErrorView::LexError {
                    message,
                    line: line_at(src, at) as usize,
                    column: column_at(src, at) as usize,
                },
                resume,
            ),
        }
    }
}

/// The tokens and the diagnostics of a stretch of source.
pub struct Lexed {
    pub tokens: Seq<TokenView>,
    pub errors: Seq<CompilerErrorView>,
}

/// Everything the lexer produces from position `i` to the end of the source:
/// the tokens in order, closed by one end-of-input token, and the diagnostics in order.
pub open spec fn lex_from(src: Seq<char>, i: int) -> Lexed
    decreases src.len() - i,
    when 0 <= i <= src.len()
    via lex_from_decreases
{
    match step(src, i) {
        Step::End(t) => Lexed { tokens: seq![t], errors: Seq::empty() },
        Step::Token(t, next) => {
            let rest = lex_from(src, next);
            Lexed { tokens: seq![t] + rest.tokens, errors: rest.errors }
        },
        Step::Error(e, next) => {
            let rest = lex_from(src, next);
            Lexed { tokens: rest.tokens, errors: seq![e] + rest.errors }
        },
    }
}

#[via_fn]
proof fn lex_from_decreases(src: Seq<char>, i: int) {
    lemma_step_advances(src, i);
}

/// The whole result of lexing `src`.
pub open spec fn lex_all(src: Seq<char>) -> Lexed {
    lex_from(src, 0)
}

pub proof fn lemma_blank_run_bound(src: Seq<char>, i: int)
    requires
        0 <= i <= src.len(),
    ensures
        i + blank_run(src, i) <= src.len(),
        i + blank_run(src, i) < src.len() ==> !blank(src[i + blank_run(src, i)]),
    decreases src.len() - i,
{
    if i < src.len() && blank(src[i]) {
        lemma_blank_run_bound(src, i + 1);
    }
}

pub proof fn lemma_ident_run_bound(src: Seq<char>, i: int)
    requires
        0 <= i <= src.len(),
    ensures
        i + ident_run(src, i) <= src.len(),
    decreases src.len() - i,
{
    if i < src.len() && ident_char(src[i]) {
        lemma_ident_run_bound(src, i + 1);
    }
}

pub proof fn lemma_digit_run_bound(src: Seq<char>, i: int)
    requires
        0 <= i <= src.len(),
    ensures
        i + digit_run(src, i) <= src.len(),
    decreases src.len() - i,
{
    if i < src.len() && digit(src[i]) {
        lemma_digit_run_bound(src, i + 1);
    }
}

/// An identifier is as long as it can be: it holds identifier characters
/// only, and none follows it.
pub proof fn lemma_ident_run_is_maximal(src: Seq<char>, i: int)
    requires
        0 <= i <= src.len(),
    ensures
        forall|k: int| i <= k < i + ident_run(src, i) ==> ident_char(#[trigger] src[k]),
        i + ident_run(src, i) < src.len() ==> !ident_char(src[i + ident_run(src, i)]),
    decreases src.len() - i,
{
    if i < src.len() && ident_char(src[i]) {
        lemma_ident_run_is_maximal(src, i + 1);
    }
}

/// A run of digits is as long as it can be: it holds digits only, and none
/// follows it.
pub proof fn lemma_digit_run_is_maximal(src: Seq<char>, i: int)
    requires
        0 <= i <= src.len(),
    ensures
        forall|k: int| i <= k < i + digit_run(src, i) ==> digit(#[trigger] src[k]),
        i + digit_run(src, i) < src.len() ==> !digit(src[i + digit_run(src, i)]),
    decreases src.len() - i,
{
    if i < src.len() && digit(src[i]) {
        lemma_digit_run_is_maximal(src, i + 1);
    }
}

/// A lexeme ends after the position it starts at, and within the source.
pub proof fn lemma_scan_advances(src: Seq<char>, j: int)
    requires
        0 <= j < src.len(),
    ensures
        match scan(src, j) {
            Lexeme::Token { kind, end } => j < end <= src.len(),
            Lexeme::Error { message, at, resume } => j < resume <= src.len() && j <= at < src.len(),
        },
{
    lemma_ident_run_bound(src, j + 1);
    lemma_digit_run_bound(src, j + 1);
    if digit(src[j]) {
        let d = j + digit_run(src, j);
        if d + 1 < src.len() {
            lemma_digit_run_bound(src, d + 1);
        }
    }
}

/// Every step but the last moves forward and stays within the source.
pub proof fn lemma_step_advances(src: Seq<char>, i: int)
    requires
        0 <= i <= src.len(),
    ensures
        match step(src, i) {
            Step::End(t) => true,
            Step::Token(t, next) => i < next <= src.len(),
            Step::Error(e, next) => i < next <= src.len(),
        },
{
    lemma_blank_run_bound(src, i);
    let j = i + blank_run(src, i);
    if j < src.len() {
        lemma_scan_advances(src, j);
    }
}

pub proof fn lemma_position_bounds(src: Seq<char>, i: int)
    requires
        0 <= i,
    ensures
        1 <= line_at(src, i) <= i + 1,
        1 <= column_at(src, i) <= i + 1,
    decreases i,
{
    if i > 0 {
        lemma_position_bounds(src, i - 1);
    }
}

/// The value of a numeral is at least the value of each of its prefixes.
pub proof fn lemma_digits_value_prefix(digits: Seq<char>, k: int)
    requires
        0 <= k <= digits.len(),
    ensures
        digits_value(digits.take(k)) <= digits_value(digits),
    decreases digits.len(),
{
    if k == digits.len() {
        assert(digits.take(k) == digits);
    } else {
        lemma_digits_value_prefix(digits.drop_last(), k);
        assert(digits.drop_last().take(k) == digits.take(k));
    }
}

pub fn is_digit(ch: char) -> (b: bool)
    ensures
        b == digit(ch),
{
    ch >= '0' && ch <= '9'
}

pub fn is_letter(ch: char) -> (b: bool)
    ensures
        b == letter(ch),
{
    (ch >= 'a' && ch <= 'z') || (ch >= 'A' && ch <= 'Z')
}

pub fn is_letter_or_underscore(ch: char) -> (b: bool)
    ensures
        b == letter_or_underscore(ch),
{
    ch == '_' || is_letter(ch)
}

pub fn valid_ident_char(ch: char) -> (b: bool)
    ensures
        b == ident_char(ch),
{
    is_letter_or_underscore(ch) || is_digit(ch)
}

fn is_blank(ch: char) -> (b: bool)
    ensures
        b == blank(ch),
{
    ch == ' ' || ch == '\t' || ch == '\r' || ch == '\n'
}

fn value_of_digit(ch: char) -> (v: u32)
    requires
        digit(ch),
    ensures
        v == digit_value(ch),
        v <= 9,
{
    if ch == '0' {
        0
    } else if ch == '1' {
        1
    } else if ch == '2' {
        2
    } else if ch == '3' {
        3
    } else if ch == '4' {
        4
    } else if ch == '5' {
        5
    } else if ch == '6' {
        6
    } else if ch == '7' {
        7
    } else if ch == '8' {
        8
    } else {
        9
    }
}

/// The value of the digits `chars[from..to]`, or `None` where it does not fit an `i32`.
pub fn integer_literal(chars: &[char], from: usize, to: usize) -> (value: Option<i32>)
    requires
        from <= to <= chars@.len(),
        forall|k: int| from <= k < to ==> digit(#[trigger] chars@[k]),
    ensures
        match value {
            Some(v) => v == digits_value(chars@.subrange(from as int, to as int)),
            None => digits_value(chars@.subrange(from as int, to as int)) > i32::MAX,
        },
{
    let ghost digits = chars@.subrange(from as int, to as int);
    let mut acc: u32 = 0;
    let mut i: usize = from;
    while i < to
        invariant
            from <= i <= to <= chars@.len(),
            digits == chars@.subrange(from as int, to as int),
            forall|k: int| from <= k < to ==> digit(#[trigger] chars@[k]),
            acc == digits_value(digits.take(i - from)),
            acc <= i32::MAX,
        decreases to - i,
    {
        let d = value_of_digit(chars[i]);
        proof {
            let longer = digits.take(i - from + 1);
            assert(longer.drop_last() == digits.take(i - from));
            lemma_digits_value_prefix(digits, i - from + 1);
        }
        if acc > 214748364 || (acc == 214748364 && d > 7) {
            return None;
        }
        acc = acc * 10 + d;
        i = i + 1;
    }
    assert(digits.take(to - from) == digits);
    Some(acc as i32)
}

/// A lexer over a borrowed source. It keeps count of the newlines before its
/// position and of where the line of its position starts, and collects the
/// diagnostics of all the calls made on it.
pub struct Lexer<'src> {
    source: &'src [char],
    newlines: usize,
    line_offset: usize,
    offset: usize,
    errors: Vec<CompilerError>,
}

impl<'src> Lexer<'src> {
    /// The source that the lexer reads.
    pub closed spec fn source(&self) -> Seq<char> {
        self.source@
    }

    /// The position of the next character to read.
    pub closed spec fn position(&self) -> int {
        self.offset as int
    }

    /// The diagnostics collected so far.
    pub closed spec fn diagnostics(&self) -> Seq<CompilerErrorView> {
        self.errors.deep_view()
    }

    /// The position lies within the source, and the counts give its line and column.
    pub closed spec fn wf(&self) -> bool {
        &&& self.line_offset <= self.offset <= self.source@.len() <= usize::MAX
        &&& self.newlines + 1 == line_at(self.source@, self.offset as int)
        &&& self.offset - self.line_offset + 1 == column_at(self.source@, self.offset as int)
    }

    /// A lexer at the start of `source`.
    pub fn new(source: &'src [char]) -> (lexer: Self)
        ensures
            lexer.wf(),
            lexer.source() == source@,
            lexer.position() == 0,
            lexer.diagnostics() == Seq::<CompilerErrorView>::empty(),
    {
        // Reading the length tells the verifier that it fits a `usize`.
        let _length: usize = source.len();
        Self { source, newlines: 0, line_offset: 0, offset: 0, errors: Vec::new() }
    }

    /// The diagnostics collected so far, in the order in which they were found.
    pub fn errors(&self) -> (errors: Vec<CompilerError>)
        ensures
            errors.deep_view() == self.diagnostics(),
    {
        let mut out: Vec<CompilerError> = Vec::new();
        let mut i: usize = 0;
        while i < self.errors.len()
            invariant
                i <= self.errors.len(),
                out.len() == i,
                forall|k: int| 0 <= k < i ==> out[k] == self.errors[k],
            decreases self.errors.len() - i,
        {
            out.push(self.errors[i].duplicate());
            i = i + 1;
        }
        out
    }

    /// All the tokens from the lexer's position to the end of the source, closed
    /// by one end-of-input token. The diagnostics found on the way are added to
    /// those already collected; scanning never stops early.
    pub fn tokenize(&mut self) -> (tokens: Vec<Token>)
        requires
            old(self).wf(),
        ensures
            final(self).wf(),
            final(self).source() == old(self).source(),
            final(self).position() == old(self).source().len(),
            tokens.deep_view() == lex_from(old(self).source(), old(self).position()).tokens,
            final(self).diagnostics() == old(self).diagnostics() + lex_from(
                old(self).source(),
                old(self).position(),
            ).errors,
    {
        let mut out: Vec<Token> = Vec::new();
        let mut done = false;
        let ghost src = self.source@;
        let ghost start = self.offset as int;
        let ghost before = self.errors.deep_view();
        while !done
            invariant
                self.wf(),
                self.source@ == src,
                0 <= start <= src.len(),
                done ==> self.offset == src.len(),
                done ==> out.deep_view() == lex_from(src, start).tokens,
                done ==> self.errors.deep_view() == before + lex_from(src, start).errors,
                !done ==> out.deep_view() + lex_from(src, self.offset as int).tokens == lex_from(
                    src,
                    start,
                ).tokens,
                !done ==> self.errors.deep_view() + lex_from(src, self.offset as int).errors
                    == before + lex_from(src, start).errors,
            decreases src.len() - self.offset + (if done { 0int } else { 1int }),
        {
            proof {
                lemma_step_advances(src, self.offset as int);
                lemma_scan_never_eof(src, self.offset as int);
            }
            match self.next_token() {
                Ok(token) => {
                    done = match &token.kind {
                        TokenKind::EOF => true,
                        _ => false,
                    };
                    out.push(token);
                },
                Err(e) => {
                    self.errors.push(e);
                },
            }
        }
        out
    }

    /// The next token or diagnostic, after the blanks before it.
    fn next_token(&mut self) -> (r: Result<Token, CompilerError>)
        requires
            old(self).wf(),
        ensures
            final(self).wf(),
            final(self).source@ == old(self).source@,
            final(self).errors == old(self).errors,
            match step(old(self).source@, old(self).offset as int) {
                Step::End(t) => r matches Ok(token) && token@ == t && final(self).offset == old(
                    self,
                ).source@.len(),
                Step::Token(t, next) => r matches Ok(token) && token@ == t && final(self).offset
                    == next,
                Step::Error(e, next) => r matches Err(error) && error@ == e && final(self).offset
                    == next,
            },
    {
        proof {
            lemma_blank_run_bound(self.source@, self.offset as int);
        }
        self.skip_whitespace();
        let start = self.offset;
        if self.is_at_end() {
            return Ok(self.make_token(TokenKind::EOF, start, false));
        }
        proof {
            lemma_scan_advances(self.source@, start as int);
        }
        let ch = self.peek();
        if is_letter_or_underscore(ch) {
            return Ok(self.handle_ident(start));
        }
        if is_digit(ch) {
            return self.handle_number(start);
        }
        if ch == '(' {
            Ok(self.make_token(TokenKind::LeftParen, start, true))
        } else if ch == ')' {
            Ok(self.make_token(TokenKind::RightParen, start, true))
        } else if ch == '{' {
            Ok(self.make_token(TokenKind::LeftBrace, start, true))
        } else if ch == '}' {
            Ok(self.make_token(TokenKind::RightBrace, start, true))
        } else if ch == ';' {
            Ok(self.make_token(TokenKind::Semicolon, start, true))
        } else if ch == ',' {
            Ok(self.make_token(TokenKind::Comma, start, true))
        } else if ch == '~' {
            Ok(self.make_token(TokenKind::Tilde, start, true))
        } else if ch == '-' {
            if self.peek_next() == '-' {
                self.advance();
                Ok(self.make_token(TokenKind::MinusMinus, start, true))
            } else {
                Ok(self.make_token(TokenKind::Minus, start, true))
            }
        } else {
            let mut message = String::new();
            message.append("unexpected character '");
            message.push(ch);
            message.append("'");
            Err(self.make_error(message, true))
        }
    }

    /// A token of the given kind from `start` to the position, which is first
    /// moved one character forward if `advance` says so.
    fn make_token(&mut self, kind: TokenKind, start: usize, advance: bool) -> (token: Token)
        requires
            old(self).wf(),
            advance ==> old(self).offset < old(self).source@.len(),
        ensures
            final(self).wf(),
            final(self).source@ == old(self).source@,
            final(self).errors == old(self).errors,
            final(self).offset == old(self).offset + (if advance { 1int } else { 0int }),
            token == (Token { kind, start, end: final(self).offset }),
    {
        if advance {
            self.advance();
        }
        Token::new(kind, start, self.offset)
    }

    /// A diagnostic about the character at the position, which is then moved
    /// one character forward if `advance` says so.
    fn make_error(&mut self, message: String, advance: bool) -> (error: CompilerError)
        requires
            old(self).wf(),
            old(self).offset < old(self).source@.len(),
        ensures
            final(self).wf(),
            final(self).source@ == old(self).source@,
            final(self).errors == old(self).errors,
            final(self).offset == old(self).offset + (if advance { 1int } else { 0int }),
            error == (CompilerError::LexError {
                message,
                line: line_at(old(self).source@, old(self).offset as int) as usize,
                column: column_at(old(self).source@, old(self).offset as int) as usize,
            }),
    {
        let err = CompilerError::LexError { message, line: self.line(), column: self.column() };
        if advance {
            self.advance();
        }
        err
    }

    /// Moves one character forward, counting lines and columns.
    fn advance(&mut self)
        requires
            old(self).wf(),
            old(self).offset < old(self).source@.len(),
        ensures
            final(self).wf(),
            final(self).source@ == old(self).source@,
            final(self).errors == old(self).errors,
            final(self).offset == old(self).offset + 1,
    {
        proof {
            lemma_position_bounds(self.source@, self.offset as int);
        }
        if self.source[self.offset] == '\n' {
            self.offset = self.offset + 1;
            self.line_offset = self.offset;
            self.newlines = self.newlines + 1;
        } else {
            self.offset = self.offset + 1;
        }
    }

    fn is_at_end(&self) -> (b: bool)
        ensures
            b == (self.offset >= self.source@.len()),
    {
        self.offset >= self.source.len()
    }

    /// Moves past the blanks at the position.
    fn skip_whitespace(&mut self)
        requires
            old(self).wf(),
        ensures
            final(self).wf(),
            final(self).source@ == old(self).source@,
            final(self).errors == old(self).errors,
            final(self).offset == old(self).offset + blank_run(
                old(self).source@,
                old(self).offset as int,
            ),
    {
        while self.offset < self.source.len() && is_blank(self.source[self.offset])
            invariant
                self.wf(),
                self.source@ == old(self).source@,
                self.errors == old(self).errors,
                old(self).offset <= self.offset,
                self.offset + blank_run(self.source@, self.offset as int) == old(self).offset
                    + blank_run(old(self).source@, old(self).offset as int),
            decreases self.source@.len() - self.offset,
        {
            self.advance();
        }
    }

    /// The character at the position; a NUL at the end of the source.
    fn peek(&self) -> (ch: char)
        ensures
            self.offset < self.source@.len() ==> ch == self.source@[self.offset as int],
            self.offset >= self.source@.len() ==> ch == '\0',
    {
        if self.is_at_end() {
            return '\0';
        }
        self.source[self.offset]
    }

    /// The character after the one at the position; a NUL where there is none.
    fn peek_next(&self) -> (ch: char)
        requires
            self.offset <= self.source@.len(),
        ensures
            self.offset + 1 < self.source@.len() ==> ch == self.source@[self.offset + 1],
            self.offset + 1 >= self.source@.len() ==> ch == '\0',
    {
        if self.source.len() - self.offset <= 1 {
            return '\0';
        }
        self.source[self.offset + 1]
    }

    /// The 1-based line of the position, which is before the end of the source.
    fn line(&self) -> (line: usize)
        requires
            self.wf(),
            self.offset < self.source@.len(),
        ensures
            line == line_at(self.source@, self.offset as int),
    {
        proof {
            lemma_position_bounds(self.source@, self.offset as int);
        }
        self.newlines + 1
    }

    /// The 1-based column of the position, which is before the end of the source.
    fn column(&self) -> (column: usize)
        requires
            self.wf(),
            self.offset < self.source@.len(),
        ensures
            column == column_at(self.source@, self.offset as int),
    {
        proof {
            lemma_position_bounds(self.source@, self.offset as int);
        }
        self.offset - self.line_offset + 1
    }

    /// Reads the longest identifier at `start` and tells keywords from names.
    fn handle_ident(&mut self, start: usize) -> (token: Token)
        requires
            old(self).wf(),
            start == old(self).offset,
            start < old(self).source@.len(),
        ensures
            final(self).wf(),
            final(self).source@ == old(self).source@,
            final(self).errors == old(self).errors,
            scan_word(old(self).source@, start as int) == (Lexeme::Token {
                kind: token@.kind,
                end: final(self).offset as int,
            }),
            token@.start == start,
            token@.end == final(self).offset,
    {
        while self.offset < self.source.len() && valid_ident_char(self.source[self.offset])
            invariant
                self.wf(),
                self.source@ == old(self).source@,
                self.errors == old(self).errors,
                start <= self.offset,
                self.offset + ident_run(self.source@, self.offset as int) == start + ident_run(
                    self.source@,
                    start as int,
                ),
            decreases self.source@.len() - self.offset,
        {
            self.advance();
        }
        let mut name = String::new();
        push_chars(&mut name, self.source, start, self.offset);
        let kind = if str_equal(name.as_str(), "int") {
            TokenKind::Int
        } else if str_equal(name.as_str(), "void") {
            TokenKind::Void
        } else if str_equal(name.as_str(), "return") {
            TokenKind::Return
        } else if str_equal(name.as_str(), "struct") {
            TokenKind::Struct
        } else {
            TokenKind::Identifier(name)
        };
        Token::new(kind, start, self.offset)
    }

    /// Moves past the digits at the position.
    fn skip_digits(&mut self)
        requires
            old(self).wf(),
        ensures
            final(self).wf(),
            final(self).source@ == old(self).source@,
            final(self).errors == old(self).errors,
            final(self).offset == old(self).offset + digit_run(
                old(self).source@,
                old(self).offset as int,
            ),
            forall|k: int|
                old(self).offset <= k < final(self).offset ==> digit(
                    #[trigger] old(self).source@[k],
                ),
    {
        while self.offset < self.source.len() && is_digit(self.source[self.offset])
            invariant
                self.wf(),
                self.source@ == old(self).source@,
                self.errors == old(self).errors,
                old(self).offset <= self.offset,
                self.offset + digit_run(self.source@, self.offset as int) == old(self).offset
                    + digit_run(old(self).source@, old(self).offset as int),
                forall|k: int|
                    old(self).offset <= k < self.offset ==> digit(#[trigger] self.source@[k]),
            decreases self.source@.len() - self.offset,
        {
            self.advance();
        }
    }

    /// Reads the numeral at `start`.
    fn handle_number(&mut self, start: usize) -> (r: Result<Token, CompilerError>)
        requires
            old(self).wf(),
            start == old(self).offset,
            start < old(self).source@.len(),
            digit(old(self).source@[start as int]),
        ensures
            final(self).wf(),
            final(self).source@ == old(self).source@,
            final(self).errors == old(self).errors,
            match scan_number(old(self).source@, start as int) {
                Lexeme::Token { kind, end } => r matches Ok(token) && token@ == (TokenView {
                    kind,
                    start,
                    end: end as usize,
                }) && final(self).offset == end,
                Lexeme::Error { message, at, resume } => r matches Err(error) && error@ == (
                CompilerErrorView::LexError {
                    message,
                    line: line_at(old(self).source@, at) as usize,
                    column: column_at(old(self).source@, at) as usize,
                }) && final(self).offset == resume,
            },
    {
        let start_line = self.line();
        let start_column = self.column();
        proof {
            lemma_digit_run_bound(self.source@, start as int);
        }
        self.skip_digits();
        let digits_end = self.offset;
        if is_letter_or_underscore(self.peek()) {
            return Err(self.make_error(String::from_str("invalid identifier"), false));
        }
        if self.peek() == '.' && is_digit(self.peek_next()) {
            proof {
                lemma_digit_run_bound(self.source@, digits_end + 1);
            }
            self.advance();
            self.skip_digits();
            if is_letter_or_underscore(self.peek()) {
                return Err(self.make_error(String::from_str("invalid identifier"), false));
            }
            let mut lexeme = String::new();
            push_chars(&mut lexeme, self.source, start, self.offset);
            return Ok(self.make_token(TokenKind::ConstDouble(lexeme), start, false));
        }
        match integer_literal(self.source, start, digits_end) {
            Some(value) => Ok(self.make_token(TokenKind::ConstInt(value), start, false)),
            None => Err(
                CompilerError::LexError {
                    message: String::from_str(
                        "Error parsing integer literal: number too large to fit in target type",
                    ),
                    line: start_line,
                    column: start_column,
                },
            ),
        }
    }
}

/// No lexeme is the end-of-input token: that one stands only at the end.
pub proof fn lemma_scan_never_eof(src: Seq<char>, i: int)
    requires
        0 <= i <= src.len(),
    ensures
        match step(src, i) {
            Step::End(t) => t.kind == TokenKindView::EOF,
            Step::Token(t, next) => t.kind != TokenKindView::EOF,
            Step::Error(e, next) => true,
        },
{
}

/// The tokens of a stretch of source are closed by exactly one end-of-input
/// token, which stands at the end of the source.
pub proof fn lemma_closed_by_one_end_of_input(src: Seq<char>, i: int)
    requires
        0 <= i <= src.len(),
    ensures
        lex_from(src, i).tokens.len() >= 1,
        lex_from(src, i).tokens.last() == (TokenView {
            kind: TokenKindView::EOF,
            start: src.len() as usize,
            end: src.len() as usize,
        }),
        forall|k: int|
            0 <= k < lex_from(src, i).tokens.len() - 1 ==> (#[trigger] lex_from(
                src,
                i,
            ).tokens[k]).kind != TokenKindView::EOF,
    decreases src.len() - i,
{
    lemma_step_advances(src, i);
    lemma_scan_never_eof(src, i);
    lemma_blank_run_bound(src, i);
    match step(src, i) {
        Step::End(t) => {
            if i + blank_run(src, i) < src.len() {
                lemma_scan_advances(src, i + blank_run(src, i));
            }
        },
        Step::Token(t, next) => {
            lemma_closed_by_one_end_of_input(src, next);
        },
        Step::Error(e, next) => {
            lemma_closed_by_one_end_of_input(src, next);
        },
    }
}

/// The tokens of a stretch of source stand in the order of the source, none
/// reaching into the next, and every token but the last is at least one
/// character long.
pub proof fn lemma_tokens_in_order(src: Seq<char>, i: int)
    requires
        0 <= i <= src.len() <= usize::MAX,
    ensures
        forall|k: int|
            0 <= k < lex_from(src, i).tokens.len() ==> i <= (#[trigger] lex_from(
                src,
                i,
            ).tokens[k]).start <= lex_from(src, i).tokens[k].end <= src.len(),
        forall|k: int|
            0 <= k < lex_from(src, i).tokens.len() - 1 ==> (#[trigger] lex_from(
                src,
                i,
            ).tokens[k]).start < lex_from(src, i).tokens[k].end <= lex_from(src, i).tokens[k
                + 1].start,
    decreases src.len() - i,
{
    lemma_step_advances(src, i);
    lemma_blank_run_bound(src, i);
    let j = i + blank_run(src, i);
    if j < src.len() {
        lemma_scan_advances(src, j);
    }
    match step(src, i) {
        Step::End(t) => {},
        Step::Token(t, next) => {
            lemma_tokens_in_order(src, next);
            lemma_closed_by_one_end_of_input(src, next);
        },
        Step::Error(e, next) => {
            lemma_tokens_in_order(src, next);
        },
    }
}

/// Whether a token that carries text carries the text of the source between
/// its offsets: the name of an identifier, the digits of a floating literal.
pub open spec fn spells(src: Seq<char>, token: TokenView) -> bool {
    match token.kind {
        TokenKindView::Identifier(name) => name == src.subrange(
            token.start as int,
            token.end as int,
        ),
        TokenKindView::ConstDouble(lexeme) => lexeme == src.subrange(
            token.start as int,
            token.end as int,
        ),
        _ => true,
    }
}

/// The name of an identifier token is the text of the source between the
/// offsets of the token, and so is the text of a floating literal.
pub proof fn lemma_tokens_spell_the_source(src: Seq<char>, i: int)
    requires
        0 <= i <= src.len() <= usize::MAX,
    ensures
        forall|k: int|
            0 <= k < lex_from(src, i).tokens.len() ==> spells(
                src,
                #[trigger] lex_from(src, i).tokens[k],
            ),
    decreases src.len() - i,
{
    lemma_step_advances(src, i);
    lemma_blank_run_bound(src, i);
    let j = i + blank_run(src, i);
    if j < src.len() {
        lemma_scan_advances(src, j);
    }
    let all = lex_from(src, i).tokens;
    match step(src, i) {
        Step::End(t) => {
            assert forall|k: int| 0 <= k < all.len() implies spells(src, #[trigger] all[k]) by {
                assert(all[k] == t);
            }
        },
        Step::Token(t, next) => {
            lemma_tokens_spell_the_source(src, next);
            let rest = lex_from(src, next).tokens;
            assert(all == seq![t] + rest);
            assert forall|k: int| 0 <= k < all.len() implies spells(src, #[trigger] all[k]) by {
                if k > 0 {
                    assert(all[k] == rest[k - 1]);
                } else {
                    assert(all[k] == t);
                    assert(spells(src, t));
                }
            }
        },
        Step::Error(e, next) => {
            lemma_tokens_spell_the_source(src, next);
            assert(all == lex_from(src, next).tokens);
        },
    }
}

/// Lexes a whole source: its tokens, closed by one end-of-input token, and its diagnostics.
pub fn lex(source: &[char]) -> (r: (Vec<Token>, Vec<CompilerError>))
    ensures
        r.0.deep_view() == lex_all(source@).tokens,
        r.1.deep_view() == lex_all(source@).errors,
{
    let mut lexer = Lexer::new(source);
    let tokens = lexer.tokenize();
    let errors = lexer.errors();
    assert(Seq::<CompilerErrorView>::empty() + lex_all(source@).errors =~= lex_all(
        source@,
    ).errors);
    (tokens, errors)
}

} // verus!
