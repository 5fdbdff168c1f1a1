use vstd::prelude::*;

use crate::text::{append_str, chars_of, push_char, string_from_chars, word_is};
use crate::tokens::{spec_text_len, spec_token, SpecToken, Token, TokenKind, TokenType};

verus! {

// ---------------------------------------------------------------------------
// Character classes
// ---------------------------------------------------------------------------

/// Unicode `White_Space`, the property that `char::is_whitespace` tests.
pub open spec fn is_ws(c: char) -> bool {
    let u = c as u32;
    ||| 0x09 <= u <= 0x0d
    ||| u == 0x20
    ||| u == 0x85
    ||| u == 0xa0
    ||| u == 0x1680
    ||| 0x2000 <= u <= 0x200a
    ||| u == 0x2028
    ||| u == 0x2029
    ||| u == 0x202f
    ||| u == 0x205f
    ||| u == 0x3000
}

pub open spec fn is_digit(c: char) -> bool {
    '0' <= c <= '9'
}

pub open spec fn is_ascii_alpha(c: char) -> bool {
    ('a' <= c <= 'z') || ('A' <= c <= 'Z')
}

/// Chars that may start an identifier.
pub open spec fn is_ident_start(c: char) -> bool {
    is_ascii_alpha(c) || c == '_' || c == '$'
}

/// Chars that may continue an identifier.
pub open spec fn is_ident_char(c: char) -> bool {
    is_ident_start(c) || is_digit(c)
}

fn whitespace(c: char) -> (r: bool)
    ensures
        r == is_ws(c),
{
    let u = c as u32;
    (0x09 <= u && u <= 0x0d) || u == 0x20 || u == 0x85 || u == 0xa0 || u == 0x1680 || (0x2000 <= u
        && u <= 0x200a) || u == 0x2028 || u == 0x2029 || u == 0x202f || u == 0x205f || u == 0x3000
}

fn digit(c: char) -> (r: bool)
    ensures
        r == is_digit(c),
{
    '0' <= c && c <= '9'
}

fn char_is_identifier_starter(c: char) -> (r: bool)
    ensures
        r == is_ident_start(c),
{
    ('a' <= c && c <= 'z') || ('A' <= c && c <= 'Z') || c == '_' || c == '$'
}

fn char_is_identifier(c: char) -> (r: bool)
    ensures
        r == is_ident_char(c),
{
    char_is_identifier_starter(c) || digit(c)
}

// ---------------------------------------------------------------------------
// The model of the lexer
// ---------------------------------------------------------------------------

/// Where the lexer stands: the index of the next char, and the line and
/// column (both 1-based) of that char.
pub struct LexState {
    pub pos: nat,
    pub line: nat,
    pub col: nat,
}

/// The state after consuming one char (nothing is consumed at the end).
pub open spec fn adv(input: Seq<char>, st: LexState) -> LexState {
    if st.pos < input.len() {
        if input[st.pos as int] == '\n' {
            LexState { pos: st.pos + 1, line: st.line + 1, col: 1 }
        } else {
            LexState { pos: st.pos + 1, line: st.line, col: st.col + 1 }
        }
    } else {
        st
    }
}

/// The state after consuming `n` chars.
pub open spec fn adv_n(input: Seq<char>, st: LexState, n: nat) -> LexState
    decreases n,
{
    if n == 0 {
        st
    } else {
        adv(input, adv_n(input, st, (n - 1) as nat))
    }
}

/// The state after consuming chars up to index `end`.
pub open spec fn adv_to(input: Seq<char>, st: LexState, end: int) -> LexState {
    adv_n(input, st, (end - st.pos) as nat)
}

/// First index at or after `i` that does not hold whitespace.
pub open spec fn skip_ws(input: Seq<char>, i: int) -> int
    decreases input.len() - i,
{
    if i < 0 || i >= input.len() || !is_ws(input[i]) {
        i
    } else {
        skip_ws(input, i + 1)
    }
}

/// End of the run of identifier chars that starts at `i`.
pub open spec fn ident_end(input: Seq<char>, i: int) -> int
    decreases input.len() - i,
{
    if i < 0 || i >= input.len() || !is_ident_char(input[i]) {
        i
    } else {
        ident_end(input, i + 1)
    }
}

/// End of a line comment whose text starts at `i`: the next newline, or the end.
pub open spec fn comment_end(input: Seq<char>, i: int) -> int
    decreases input.len() - i,
{
    if i < 0 || i >= input.len() || input[i] == '\n' {
        i
    } else {
        comment_end(input, i + 1)
    }
}

/// Where the number lexer stops reading: after digits and at most one dot.
pub open spec fn num_end(input: Seq<char>, i: int, has_dot: bool) -> int
    decreases input.len() - i,
{
    if i < 0 || i >= input.len() {
        i
    } else if is_digit(input[i]) {
        num_end(input, i + 1, has_dot)
    } else if input[i] == '.' && !has_dot {
        num_end(input, i + 1, true)
    } else {
        i
    }
}

/// The body of a string literal that starts at `i` (after the opening quote):
/// the index just past the closing quote and the text, with each backslash
/// escape replaced by the char it escapes; `None` when no closing quote comes.
pub open spec fn str_scan(input: Seq<char>, i: int, escaped: bool, acc: Seq<char>) -> Option<
    (int, Seq<char>),
>
    decreases input.len() - i,
{
    if i < 0 || i >= input.len() {
        None
    } else if input[i] == '\\' && !escaped {
        str_scan(input, i + 1, true, acc)
    } else if input[i] == '"' && !escaped {
        Some((i + 1, acc))
    } else {
        str_scan(input, i + 1, false, acc.push(input[i]))
    }
}

/// The errors that the lexer reports, with the line and column at which it stopped.
pub enum SpecLexError {
    UnexpectedCharacter(char, nat, nat),
    UnterminatedString(nat, nat),
    InvalidNumber(Seq<char>, nat, nat),
}

/// The token of kind `k` that the lexer produces when it stands at `st`.
pub open spec fn tok(k: TokenKind, st: LexState) -> SpecToken {
    spec_token(k, st.pos as usize, st.line as usize, st.col as usize)
}

/// The kind of the word `w`: a keyword, or an identifier.
pub open spec fn keyword_or_ident(w: Seq<char>) -> TokenKind {
    if w == seq!['s', 't', 'r', 'u', 'c', 't'] {
        TokenKind::Struct
    } else if w == seq!['f', 'u', 'n', 'c', 't', 'i', 'o', 'n'] {
        TokenKind::Function
    } else if w == seq!['f', 'o', 'r'] {
        TokenKind::For
    } else if w == seq!['w', 'h', 'i', 'l', 'e'] {
        TokenKind::While
    } else if w == seq!['n', 'u', 'l', 'l'] {
        TokenKind::Null
    } else if w == seq!['t', 'r', 'u', 'e'] {
        TokenKind::True
    } else if w == seq!['f', 'a', 'l', 's', 'e'] {
        TokenKind::False
    } else if w == seq!['v', 'a', 'r'] {
        TokenKind::Var
    } else if w == seq!['e', 'x', 't', 'e', 'n', 'd'] {
        TokenKind::Extend
    } else if w == seq!['r', 'e', 't', 'u', 'r', 'n'] {
        TokenKind::Return
    } else if w == seq!['i', 'n', 't', 'e', 'r', 'f', 'a', 'c', 'e'] {
        TokenKind::Interface
    } else if w == seq!['i', 's'] {
        TokenKind::Is
    } else if w == seq!['t', 'y', 'p', 'e'] {
        TokenKind::Type
    } else if w == seq!['a', 's'] {
        TokenKind::As
    } else if w == seq!['i', 'n'] {
        TokenKind::In
    } else if w == seq!['s', 'e', 'l', 'f'] {
        TokenKind::SelfRef
    } else if w == seq!['m', 'a', 't', 'c', 'h'] {
        TokenKind::Match
    } else if w == seq!['c', 'l', 'a', 's', 's'] {
        TokenKind::Class
    } else if w == seq!['i', 'f'] {
        TokenKind::If
    } else if w == seq!['e', 'l', 's', 'e'] {
        TokenKind::Else
    } else if w == seq!['c', 'o', 'n', 't', 'i', 'n', 'u', 'e'] {
        TokenKind::Continue
    } else if w == seq!['b', 'r', 'e', 'a', 'k'] {
        TokenKind::Break
    } else if w == seq!['e', 'x', 't', 'e', 'r', 'n'] {
        TokenKind::Extern
    } else if w == seq!['i', 'm', 'p', 'o', 'r', 't'] {
        TokenKind::Import
    } else if w == seq!['f', 'r', 'o', 'm'] {
        TokenKind::From
    } else {
        TokenKind::Identifier(w)
    }
}

/// The outcome of one lexing step and the state after it.
pub type LexStep = (Result<SpecToken, SpecLexError>, LexState);

/// A one- or two-char operator: `k2` when the next char is `second`, else `k1`.
pub open spec fn two_char(input: Seq<char>, s1: LexState, second: char, k2: TokenKind, k1: TokenKind) -> LexStep {
    if s1.pos < input.len() && input[s1.pos as int] == second {
        let s2 = adv(input, s1);
        (Ok(tok(k2, s2)), s2)
    } else {
        (Ok(tok(k1, s1)), s1)
    }
}

/// Lexing a char literal, from just after its opening quote.
pub open spec fn spec_scan_char(input: Seq<char>, s1: LexState) -> LexStep {
    if s1.pos >= input.len() {
        (Err(SpecLexError::UnexpectedCharacter('\0', s1.line, s1.col)), s1)
    } else {
        let c = input[s1.pos as int];
        let s2 = adv(input, s1);
        if c == '\'' {
            (Err(SpecLexError::UnexpectedCharacter('\'', s2.line, s2.col)), s2)
        } else if s2.pos < input.len() && input[s2.pos as int] == '\'' {
            let s3 = adv(input, s2);
            (Ok(tok(TokenKind::CharLit(c), s3)), s3)
        } else {
            (Err(SpecLexError::UnexpectedCharacter(c, s2.line, s2.col)), s2)
        }
    }
}

/// Lexing a string literal, from just after its opening quote.
pub open spec fn spec_scan_string(input: Seq<char>, s1: LexState) -> LexStep {
    match str_scan(input, s1.pos as int, false, Seq::empty()) {
        Some((e, v)) => {
            let s2 = adv_to(input, s1, e);
            (Ok(tok(TokenKind::StringLit(v), s2)), s2)
        },
        None => {
            let s2 = adv_to(input, s1, input.len() as int);
            (Err(SpecLexError::UnterminatedString(s2.line, s2.col)), s2)
        },
    }
}

/// Lexing a number literal that starts at the state's position.
pub open spec fn spec_scan_number(input: Seq<char>, s0: LexState) -> LexStep {
    let e = num_end(input, s0.pos as int, false);
    let text = input.subrange(s0.pos as int, e);
    let s1 = adv_to(input, s0, e);
    if e < input.len() && input[e] == '.' {
        (Err(SpecLexError::InvalidNumber(text, s1.line, s1.col)), s1)
    } else if text.len() > 0 && text.last() == '.' {
        (Err(SpecLexError::InvalidNumber(text, s1.line, s1.col)), s1)
    } else if text.contains('.') {
        (Ok(tok(TokenKind::Float(text), s1)), s1)
    } else {
        (Ok(tok(TokenKind::Int(text), s1)), s1)
    }
}

/// Lexing an operator, a delimiter, a char or string literal or a comment,
/// whose first char `c` has just been consumed (the lexer stands at `s1`).
pub open spec fn spec_scan_symbol(input: Seq<char>, c: char, s1: LexState) -> LexStep {
    if c == '\'' {
        spec_scan_char(input, s1)
    } else if c == '"' {
        spec_scan_string(input, s1)
    } else if c == '/' {
        if s1.pos < input.len() && input[s1.pos as int] == '/' {
            let s2 = adv(input, s1);
            let e = comment_end(input, s2.pos as int);
            let s3 = adv_to(input, s2, e);
            (Ok(tok(TokenKind::Comment(input.subrange(s2.pos as int, e)), s3)), s3)
        } else {
            (Ok(tok(TokenKind::Slash, s1)), s1)
        }
    } else if c == '(' {
        (Ok(tok(TokenKind::LeftParen, s1)), s1)
    } else if c == ')' {
        (Ok(tok(TokenKind::RightParen, s1)), s1)
    } else if c == '{' {
        (Ok(tok(TokenKind::LeftBrace, s1)), s1)
    } else if c == '}' {
        (Ok(tok(TokenKind::RightBrace, s1)), s1)
    } else if c == '[' {
        (Ok(tok(TokenKind::LeftBracket, s1)), s1)
    } else if c == ']' {
        (Ok(tok(TokenKind::RightBracket, s1)), s1)
    } else if c == '<' {
        two_char(input, s1, '=', TokenKind::LtEq, TokenKind::LT)
    } else if c == '>' {
        two_char(input, s1, '=', TokenKind::GtEq, TokenKind::GT)
    } else if c == '=' {
        if s1.pos < input.len() && input[s1.pos as int] == '>' {
            let s2 = adv(input, s1);
            (Ok(tok(TokenKind::FatArrow, s2)), s2)
        } else {
            two_char(input, s1, '=', TokenKind::EqEq, TokenKind::Eq)
        }
    } else if c == '!' {
        two_char(input, s1, '=', TokenKind::BangEq, TokenKind::Bang)
    } else if c == '+' {
        (Ok(tok(TokenKind::Plus, s1)), s1)
    } else if c == '-' {
        (Ok(tok(TokenKind::Minus, s1)), s1)
    } else if c == '*' {
        (Ok(tok(TokenKind::Star, s1)), s1)
    } else if c == '%' {
        (Ok(tok(TokenKind::Percent, s1)), s1)
    } else if c == '&' {
        if s1.pos < input.len() && input[s1.pos as int] == '&' {
            let s2 = adv(input, s1);
            (Ok(tok(TokenKind::And, s2)), s2)
        } else {
            (Err(SpecLexError::UnexpectedCharacter('&', s1.line, s1.col)), s1)
        }
    } else if c == '|' {
        two_char(input, s1, '|', TokenKind::Or, TokenKind::Pipe)
    } else if c == '.' {
        (Ok(tok(TokenKind::Dot, s1)), s1)
    } else if c == ',' {
        (Ok(tok(TokenKind::Comma, s1)), s1)
    } else if c == ':' {
        (Ok(tok(TokenKind::Colon, s1)), s1)
    } else if c == ';' {
        (Ok(tok(TokenKind::Semicolon, s1)), s1)
    } else {
        (Err(SpecLexError::UnexpectedCharacter(c, s1.line, s1.col)), s1)
    }
}

/// One step of the lexer from state `st`: whitespace is skipped, then one
/// token is read. At the end of the input the step yields an `EOF` token and
/// stays where it is.
pub open spec fn spec_next_token(input: Seq<char>, st: LexState) -> LexStep {
    let s0 = adv_to(input, st, skip_ws(input, st.pos as int));
    if s0.pos >= input.len() {
        (Ok(tok(TokenKind::EOF, s0)), s0)
    } else {
        let c = input[s0.pos as int];
        if is_ident_start(c) {
            let e = ident_end(input, s0.pos as int);
            let s1 = adv_to(input, s0, e);
            (Ok(tok(keyword_or_ident(input.subrange(s0.pos as int, e)), s1)), s1)
        } else if is_digit(c) {
            spec_scan_number(input, s0)
        } else {
            spec_scan_symbol(input, c, adv(input, s0))
        }
    }
}

/// The tokens of the input from state `st` on, comments left out, up to the
/// end of the input; or the first error.
pub open spec fn spec_scan_all(input: Seq<char>, st: LexState) -> Result<Seq<SpecToken>, SpecLexError>
    decreases input.len() - st.pos,
{
    let (r, st2) = spec_next_token(input, st);
    match r {
        Err(e) => Err(e),
        Ok(t) => {
            if t.kind is EOF {
                Ok(Seq::empty())
            } else if st2.pos <= st.pos || st2.pos > input.len() {
                Ok(Seq::empty())
            } else {
                match spec_scan_all(input, st2) {
                    Err(e) => Err(e),
                    Ok(rest) => {
                        if t.kind is Comment {
                            Ok(rest)
                        } else {
                            Ok(seq![t] + rest)
                        }
                    },
                }
            }
        },
    }
}

/// The whole input lexed from its start.
pub open spec fn spec_lex(input: Seq<char>) -> Result<Seq<SpecToken>, SpecLexError> {
    spec_scan_all(input, LexState { pos: 0, line: 1, col: 1 })
}

// ---------------------------------------------------------------------------
// Facts about the model
// ---------------------------------------------------------------------------

/// Consuming `n` chars moves by `n`, within the input.
pub proof fn lemma_adv_n_pos(input: Seq<char>, st: LexState, n: nat)
    requires
        st.pos + n <= input.len(),
    ensures
        adv_n(input, st, n).pos == st.pos + n,
        adv_n(input, st, n).line <= st.line + n,
        adv_n(input, st, n).col <= st.col + n,
        adv_n(input, st, n).line >= st.line,
        adv_n(input, st, n).col >= 1 || (n == 0 && st.col == 0),
    decreases n,
{
    if n > 0 {
        lemma_adv_n_pos(input, st, (n - 1) as nat);
    }
}

/// Whitespace skipping never moves backwards and stays within the input.
proof fn lemma_skip_ws(input: Seq<char>, i: int)
    requires
        0 <= i <= input.len(),
    ensures
        i <= skip_ws(input, i) <= input.len(),
    decreases input.len() - i,
{
    if i < input.len() && is_ws(input[i]) {
        lemma_skip_ws(input, i + 1);
    }
}

proof fn lemma_ident_end(input: Seq<char>, i: int)
    requires
        0 <= i <= input.len(),
    ensures
        i <= ident_end(input, i) <= input.len(),
    decreases input.len() - i,
{
    if i < input.len() && is_ident_char(input[i]) {
        lemma_ident_end(input, i + 1);
    }
}

proof fn lemma_comment_end(input: Seq<char>, i: int)
    requires
        0 <= i <= input.len(),
    ensures
        i <= comment_end(input, i) <= input.len(),
    decreases input.len() - i,
{
    if i < input.len() && input[i] != '\n' {
        lemma_comment_end(input, i + 1);
    }
}

proof fn lemma_num_end(input: Seq<char>, i: int, has_dot: bool)
    requires
        0 <= i <= input.len(),
    ensures
        i <= num_end(input, i, has_dot) <= input.len(),
    decreases input.len() - i,
{
    if i < input.len() {
        if is_digit(input[i]) {
            lemma_num_end(input, i + 1, has_dot);
        } else if input[i] == '.' && !has_dot {
            lemma_num_end(input, i + 1, true);
        }
    }
}

proof fn lemma_str_scan(input: Seq<char>, i: int, escaped: bool, acc: Seq<char>)
    requires
        0 <= i <= input.len(),
    ensures
        str_scan(input, i, escaped, acc) matches Some((e, _)) ==> i < e <= input.len(),
    decreases input.len() - i,
{
    if i < input.len() {
        if input[i] == '\\' && !escaped {
            lemma_str_scan(input, i + 1, true, acc);
        } else if input[i] == '"' && !escaped {
        } else {
            lemma_str_scan(input, i + 1, false, acc.push(input[i]));
        }
    }
}

/// Bounds that every reachable lexer state satisfies.
pub open spec fn state_ok(input: Seq<char>, st: LexState) -> bool {
    &&& input.len() < usize::MAX
    &&& st.pos <= input.len()
    &&& 1 <= st.line <= st.pos + 1
    &&& 1 <= st.col <= st.pos + 1
}

proof fn lemma_adv_ok(input: Seq<char>, st: LexState)
    requires
        state_ok(input, st),
    ensures
        state_ok(input, adv(input, st)),
{
}

proof fn lemma_adv_to_ok(input: Seq<char>, st: LexState, e: int)
    requires
        state_ok(input, st),
        st.pos <= e <= input.len(),
    ensures
        state_ok(input, adv_to(input, st, e)),
        adv_to(input, st, e).pos == e,
    decreases e - st.pos,
{
    lemma_adv_n_ok(input, st, (e - st.pos) as nat);
}

proof fn lemma_adv_n_ok(input: Seq<char>, st: LexState, n: nat)
    requires
        state_ok(input, st),
        st.pos + n <= input.len(),
    ensures
        state_ok(input, adv_n(input, st, n)),
        adv_n(input, st, n).pos == st.pos + n,
    decreases n,
{
    if n > 0 {
        lemma_adv_n_ok(input, st, (n - 1) as nat);
        lemma_adv_ok(input, adv_n(input, st, (n - 1) as nat));
    }
}

/// A lexing step keeps the state bounds, and every step that yields a token
/// other than `EOF` consumes at least one char.
pub proof fn lemma_next_token_progress(input: Seq<char>, st: LexState)
    requires
        state_ok(input, st),
    ensures
        state_ok(input, spec_next_token(input, st).1),
        spec_next_token(input, st).1.pos >= st.pos,
        spec_next_token(input, st).0 matches Ok(t) && !(t.kind is EOF) ==> spec_next_token(
            input,
            st,
        ).1.pos > st.pos,
{
    let w = skip_ws(input, st.pos as int);
    lemma_skip_ws(input, st.pos as int);
    lemma_adv_to_ok(input, st, w);
    let s0 = adv_to(input, st, w);
    if s0.pos < input.len() {
        let c = input[s0.pos as int];
        if is_ident_start(c) {
            lemma_ident_end(input, s0.pos as int + 1);
            lemma_adv_to_ok(input, s0, ident_end(input, s0.pos as int));
            assert(ident_end(input, s0.pos as int) > s0.pos);
        } else if is_digit(c) {
            lemma_num_end(input, s0.pos as int + 1, false);
            lemma_adv_to_ok(input, s0, num_end(input, s0.pos as int, false));
            assert(num_end(input, s0.pos as int, false) > s0.pos);
        } else {
            let s1 = adv(input, s0);
            lemma_adv_ok(input, s0);
            lemma_adv_ok(input, s1);
            lemma_adv_ok(input, adv(input, s1));
            if c == '"' {
                lemma_str_scan(input, s1.pos as int, false, Seq::empty());
                match str_scan(input, s1.pos as int, false, Seq::empty()) {
                    Some((e, v)) => {
                        lemma_adv_to_ok(input, s1, e);
                    },
                    None => {
                        lemma_adv_to_ok(input, s1, input.len() as int);
                    },
                }
            } else if c == '/' && s1.pos < input.len() && input[s1.pos as int] == '/' {
                let s2 = adv(input, s1);
                lemma_comment_end(input, s2.pos as int);
                lemma_adv_to_ok(input, s2, comment_end(input, s2.pos as int));
            }
        }
    }
}

/// What a full scan returns holds no `EOF` token and no comment: the end of
/// the input ends the list, and comments are dropped.
pub proof fn law_scan_all_drops_eof_and_comments(input: Seq<char>, st: LexState)
    ensures
        spec_scan_all(input, st) matches Ok(ts) ==> forall|i: int|
            0 <= i < ts.len() ==> !(#[trigger] ts[i].kind is EOF) && !(ts[i].kind is Comment),
    decreases input.len() - st.pos,
{
    let (r, st2) = spec_next_token(input, st);
    if let Ok(t) = r {
        if !(t.kind is EOF) && st2.pos > st.pos && st2.pos <= input.len() {
            law_scan_all_drops_eof_and_comments(input, st2);
            if let Ok(rest) = spec_scan_all(input, st2) {
                if !(t.kind is Comment) {
                    let ts = seq![t] + rest;
                    assert forall|i: int| 0 <= i < ts.len() implies !(#[trigger] ts[i].kind is EOF)
                        && !(ts[i].kind is Comment) by {
                        if i > 0 {
                            assert(ts[i] == rest[i - 1]);
                        }
                    }
                }
            }
        }
    }
}

/// A token of a lexing step stands at the place where the step ends.
proof fn lemma_step_token_position(input: Seq<char>, st: LexState)
    requires
        state_ok(input, st),
    ensures
        spec_next_token(input, st).0 matches Ok(t) ==> t.position == spec_next_token(input, st).1.pos,
{
    lemma_next_token_progress(input, st);
}

/// Tokens come in source order: each stands after the place the scan
/// starts from, within the input, and after every token before it.
pub proof fn law_tokens_in_source_order(input: Seq<char>, st: LexState)
    requires
        state_ok(input, st),
    ensures
        spec_scan_all(input, st) matches Ok(ts) ==> {
            &&& forall|i: int| 0 <= i < ts.len() ==> st.pos < #[trigger] ts[i].position <= input.len()
            &&& forall|i: int, j: int| 0 <= i < j < ts.len() ==> #[trigger] ts[i].position < #[trigger] ts[j].position
        },
    decreases input.len() - st.pos,
{
    let (r, st2) = spec_next_token(input, st);
    lemma_next_token_progress(input, st);
    lemma_step_token_position(input, st);
    if let Ok(t) = r {
        if !(t.kind is EOF) && st2.pos > st.pos && st2.pos <= input.len() {
            law_tokens_in_source_order(input, st2);
            if let Ok(rest) = spec_scan_all(input, st2) {
                if !(t.kind is Comment) {
                    let ts = seq![t] + rest;
                    assert forall|i: int| 0 <= i < ts.len() implies st.pos < #[trigger] ts[i].position
                        <= input.len() by {
                        if i > 0 {
                            assert(ts[i] == rest[i - 1]);
                        }
                    }
                    assert forall|i: int, j: int| 0 <= i < j < ts.len() implies #[trigger] ts[i].position
                        < #[trigger] ts[j].position by {
                        assert(ts[j] == rest[j - 1]);
                        if i > 0 {
                            assert(ts[i] == rest[i - 1]);
                        }
                    }
                }
            }
        }
    }
}

/// The number of line breaks among the first `p` chars of the input.
pub open spec fn breaks_before(input: Seq<char>, p: int) -> nat
    decreases p,
{
    if p <= 0 || p > input.len() {
        0
    } else {
        breaks_before(input, p - 1) + if input[p - 1] == '\n' {
            1nat
        } else {
            0nat
        }
    }
}

/// Where the line that holds index `p` starts: just after the last line
/// break among the first `p` chars, or 0.
pub open spec fn line_start_before(input: Seq<char>, p: int) -> int
    decreases p,
{
    if p <= 0 || p > input.len() {
        0
    } else if input[p - 1] == '\n' {
        p
    } else {
        line_start_before(input, p - 1)
    }
}

/// The line and column of a state are those of its position in the text:
/// one more than the line breaks before it, and one more than its distance
/// from the start of its line.
pub open spec fn coords_match(input: Seq<char>, st: LexState) -> bool {
    &&& st.line == 1 + breaks_before(input, st.pos as int)
    &&& st.col == st.pos - line_start_before(input, st.pos as int) + 1
}

proof fn lemma_adv_coords(input: Seq<char>, st: LexState)
    requires
        st.pos <= input.len(),
        coords_match(input, st),
    ensures
        coords_match(input, adv(input, st)),
{
}

proof fn lemma_adv_n_coords(input: Seq<char>, st: LexState, n: nat)
    requires
        st.pos + n <= input.len(),
        coords_match(input, st),
    ensures
        coords_match(input, adv_n(input, st, n)),
        adv_n(input, st, n).pos == st.pos + n,
    decreases n,
{
    lemma_adv_n_pos(input, st, n);
    if n > 0 {
        lemma_adv_n_coords(input, st, (n - 1) as nat);
        lemma_adv_n_pos(input, st, (n - 1) as nat);
        lemma_adv_coords(input, adv_n(input, st, (n - 1) as nat));
    }
}

proof fn lemma_adv_to_coords(input: Seq<char>, st: LexState, e: int)
    requires
        st.pos <= e <= input.len(),
        coords_match(input, st),
    ensures
        coords_match(input, adv_to(input, st, e)),
        adv_to(input, st, e).pos == e,
{
    lemma_adv_n_coords(input, st, (e - st.pos) as nat);
}

/// A lexing step keeps line and column in step with the position, and its
/// token carries the line and column of the place where the step ends.
proof fn lemma_next_token_coords(input: Seq<char>, st: LexState)
    requires
        state_ok(input, st),
        coords_match(input, st),
    ensures
        coords_match(input, spec_next_token(input, st).1),
        spec_next_token(input, st).0 matches Ok(t) ==> t.line == spec_next_token(input, st).1.line
            && t.column == spec_next_token(input, st).1.col,
{
    lemma_next_token_progress(input, st);
    let w = skip_ws(input, st.pos as int);
    lemma_skip_ws(input, st.pos as int);
    lemma_adv_to_ok(input, st, w);
    lemma_adv_to_coords(input, st, w);
    let s0 = adv_to(input, st, w);
    if s0.pos < input.len() {
        let c = input[s0.pos as int];
        if is_ident_start(c) {
            lemma_ident_end(input, s0.pos as int + 1);
            lemma_adv_to_ok(input, s0, ident_end(input, s0.pos as int));
            lemma_adv_to_coords(input, s0, ident_end(input, s0.pos as int));
        } else if is_digit(c) {
            lemma_num_end(input, s0.pos as int + 1, false);
            lemma_adv_to_ok(input, s0, num_end(input, s0.pos as int, false));
            lemma_adv_to_coords(input, s0, num_end(input, s0.pos as int, false));
        } else {
            let s1 = adv(input, s0);
            lemma_adv_ok(input, s0);
            lemma_adv_coords(input, s0);
            lemma_adv_ok(input, s1);
            lemma_adv_coords(input, s1);
            let s2 = adv(input, s1);
            lemma_adv_ok(input, s2);
            lemma_adv_coords(input, s2);
            if c == '"' {
                lemma_str_scan(input, s1.pos as int, false, Seq::empty());
                match str_scan(input, s1.pos as int, false, Seq::empty()) {
                    Some((e, v)) => {
                        lemma_adv_to_ok(input, s1, e);
                        lemma_adv_to_coords(input, s1, e);
                    },
                    None => {
                        lemma_adv_to_ok(input, s1, input.len() as int);
                        lemma_adv_to_coords(input, s1, input.len() as int);
                    },
                }
            } else if c == '/' && s1.pos < input.len() && input[s1.pos as int] == '/' {
                lemma_comment_end(input, s2.pos as int);
                lemma_adv_to_ok(input, s2, comment_end(input, s2.pos as int));
                lemma_adv_to_coords(input, s2, comment_end(input, s2.pos as int));
            }
        }
    }
}

/// Every token of a scan from a state whose line and column are in step
/// with its position carries the line and column of its own position.
proof fn lemma_scan_coordinates(input: Seq<char>, st: LexState)
    requires
        state_ok(input, st),
        coords_match(input, st),
    ensures
        spec_scan_all(input, st) matches Ok(ts) ==> forall|i: int|
            0 <= i < ts.len() ==> (#[trigger] ts[i]).line == 1 + breaks_before(input, ts[i].position as int)
                && ts[i].column == ts[i].position - line_start_before(input, ts[i].position as int) + 1,
    decreases input.len() - st.pos,
{
    let (r, st2) = spec_next_token(input, st);
    lemma_next_token_progress(input, st);
    lemma_step_token_position(input, st);
    lemma_next_token_coords(input, st);
    if let Ok(t) = r {
        if !(t.kind is EOF) && st2.pos > st.pos && st2.pos <= input.len() {
            lemma_scan_coordinates(input, st2);
            if let Ok(rest) = spec_scan_all(input, st2) {
                if !(t.kind is Comment) {
                    let ts = seq![t] + rest;
                    assert forall|i: int| 0 <= i < ts.len() implies (#[trigger] ts[i]).line == 1 + breaks_before(
                        input,
                        ts[i].position as int,
                    ) && ts[i].column == ts[i].position - line_start_before(input, ts[i].position as int) + 1 by {
                        if i > 0 {
                            assert(ts[i] == rest[i - 1]);
                        }
                    }
                }
            }
        }
    }
}

/// Every token of a lexed text carries the line and column of its position
/// in that text: one more than the line breaks before it, and one more than
/// its distance from the start of its line.
pub proof fn law_token_coordinates(input: Seq<char>)
    requires
        input.len() < usize::MAX,
    ensures
        spec_lex(input) matches Ok(ts) ==> forall|i: int|
            0 <= i < ts.len() ==> (#[trigger] ts[i]).line == 1 + breaks_before(input, ts[i].position as int)
                && ts[i].column == ts[i].position - line_start_before(input, ts[i].position as int) + 1,
{
    lemma_scan_coordinates(input, LexState { pos: 0, line: 1, col: 1 });
}

/// A word read by the lexer takes as many source bytes as it has chars: a
/// keyword's width is its spelling, and an identifier's width its length.
pub proof fn law_word_text_len(w: Seq<char>)
    requires
        forall|i: int| 0 <= i < w.len() ==> is_ident_char(#[trigger] w[i]),
    ensures
        spec_text_len(keyword_or_ident(w)) == w.len(),
{
    assert(vstd::utf8::is_ascii_chars(w));
    vstd::utf8::is_ascii_chars_encode_utf8(w);
}

/// A number literal read by the lexer takes as many source bytes as it has
/// chars.
pub proof fn law_number_text_len(w: Seq<char>)
    requires
        forall|i: int| 0 <= i < w.len() ==> is_digit(#[trigger] w[i]) || w[i] == '.',
    ensures
        spec_text_len(TokenKind::Int(w)) == w.len(),
        spec_text_len(TokenKind::Float(w)) == w.len(),
{
    assert(vstd::utf8::is_ascii_chars(w));
    vstd::utf8::is_ascii_chars_encode_utf8(w);
}

/// An operator or delimiter that the lexer reads spans exactly its width:
/// from the char where it starts, the lexer moves on by `text_len` of its
/// kind (one char, or two for `==`, `!=`, `<=`, `>=`, `=>`, `&&` and `||`).
pub proof fn law_symbol_text_len(input: Seq<char>, s0: LexState)
    requires
        s0.pos < input.len(),
        input[s0.pos as int] != '\'',
        input[s0.pos as int] != '"',
    ensures
        ({
            let (r, s) = spec_scan_symbol(input, input[s0.pos as int], adv(input, s0));
            r is Ok && !(r->Ok_0.kind is Comment) ==> s.pos == s0.pos + spec_text_len(r->Ok_0.kind)
        }),
{
    let s1 = adv(input, s0);
    assert(s1.pos == s0.pos + 1);
    if s1.pos < input.len() {
        assert(adv(input, s1).pos == s0.pos + 2);
    }
}

/// Scanning the whole input is stepping the lexer repeatedly: the first
/// error ends it with that error, the end-of-input token ends the list
/// (and is left out), a comment is left out, and any other token comes
/// first, followed by what scanning from the state after it gives.
pub proof fn law_scan_all_is_repeated_next_token(input: Seq<char>, st: LexState)
    requires
        state_ok(input, st),
    ensures
        spec_scan_all(input, st) == (match spec_next_token(input, st).0 {
            Err(e) => Err(e),
            Ok(t) => if t.kind is EOF {
                Ok(Seq::empty())
            } else {
                match spec_scan_all(input, spec_next_token(input, st).1) {
                    Err(e) => Err(e),
                    Ok(rest) => if t.kind is Comment {
                        Ok(rest)
                    } else {
                        Ok(seq![t] + rest)
                    },
                }
            },
        }),
{
    lemma_next_token_progress(input, st);
}

// ---------------------------------------------------------------------------
// The lexer
// ---------------------------------------------------------------------------

/// Turns source text into tokens, one at a time.
pub struct Lexer {
    input: Vec<char>,
    position: usize,
    column: usize,
    line: usize,
}

#[derive(Debug, Clone, PartialEq, Eq)]
pub enum LexerError {
    UnexpectedCharacter(char, usize, usize),
    UnterminatedString(usize, usize),
    InvalidNumber(String, usize, usize),
}

impl View for LexerError {
    type V = SpecLexError;

    open spec fn view(&self) -> SpecLexError {
        match self {
            LexerError::UnexpectedCharacter(c, l, k) => SpecLexError::UnexpectedCharacter(
                *c,
                *l as nat,
                *k as nat,
            ),
            LexerError::UnterminatedString(l, k) => SpecLexError::UnterminatedString(
                *l as nat,
                *k as nat,
            ),
            LexerError::InvalidNumber(n, l, k) => SpecLexError::InvalidNumber(
                n@,
                *l as nat,
                *k as nat,
            ),
        }
    }
}

/// The message that describes a lexer error.
pub open spec fn spec_lex_error_message(e: SpecLexError) -> Seq<char> {
    match e {
        SpecLexError::UnexpectedCharacter(c, _, _) => "unexpected character '"@ + seq![c] + "'"@,
        SpecLexError::UnterminatedString(_, _) => "unterminated string literal"@,
        SpecLexError::InvalidNumber(n, _, _) => "invalid number literal '"@ + n + "'"@,
    }
}

impl LexerError {
    /// The (line, column) at which the lexer stopped.
    pub fn span(&self) -> (r: (usize, usize))
        ensures
            r == (match self {
                LexerError::UnexpectedCharacter(_, line, col) => (*line, *col),
                LexerError::UnterminatedString(line, col) => (*line, *col),
                LexerError::InvalidNumber(_, line, col) => (*line, *col),
            }),
    {
        match self {
            LexerError::UnexpectedCharacter(_, line, col) => (*line, *col),
            LexerError::UnterminatedString(line, col) => (*line, *col),
            LexerError::InvalidNumber(_, line, col) => (*line, *col),
        }
    }

    /// The message that describes the error.
    pub fn message(&self) -> (r: String)
        ensures
            r@ == spec_lex_error_message(self@),
    {
        let mut out = String::new();
        match self {
            LexerError::UnexpectedCharacter(c, _, _) => {
                append_str(&mut out, "unexpected character '");
                push_char(&mut out, *c);
                append_str(&mut out, "'");
            },
            LexerError::UnterminatedString(_, _) => {
                append_str(&mut out, "unterminated string literal");
            },
            LexerError::InvalidNumber(n, _, _) => {
                append_str(&mut out, "invalid number literal '");
                append_str(&mut out, n.as_str());
                append_str(&mut out, "'");
            },
        }
        out
    }
}

impl Lexer {
    /// The input, as chars.
    pub closed spec fn spec_input(&self) -> Seq<char> {
        self.input@
    }

    /// Where the lexer stands.
    pub closed spec fn spec_state(&self) -> LexState {
        LexState { pos: self.position as nat, line: self.line as nat, col: self.column as nat }
    }

    /// The lexer's fields agree with the model.
    pub open spec fn wf(&self) -> bool {
        state_ok(self.spec_input(), self.spec_state())
    }

    pub fn new(input: &str) -> (r: Self)
        requires
            input@.len() < usize::MAX,
        ensures
            r.wf(),
            r.spec_input() == input@,
            r.spec_state() == (LexState { pos: 0, line: 1, col: 1 }),
    {
        Self { input: chars_of(input), position: 0, column: 1, line: 1 }
    }

    fn peek(&self) -> (r: Option<char>)
        ensures
            r == (if self.position < self.input@.len() {
                Some(self.input@[self.position as int])
            } else {
                None::<char>
            }),
    {
        if self.position < self.input.len() {
            Some(self.input[self.position])
        } else {
            None
        }
    }

    fn advance(&mut self) -> (r: Option<char>)
        requires
            old(self).wf(),
        ensures
            final(self).wf(),
            final(self).input == old(self).input,
            final(self).spec_state() == adv(old(self).input@, old(self).spec_state()),
            r == (if old(self).position < old(self).input@.len() {
                Some(old(self).input@[old(self).position as int])
            } else {
                None::<char>
            }),
    {
        proof {
            lemma_adv_ok(self.input@, self.spec_state());
        }
        if let Some(ch) = self.peek() {
            self.position = self.position + 1;
            if ch == '\n' {
                self.line = self.line + 1;
                self.column = 1;
            } else {
                self.column = self.column + 1;
            }
            Some(ch)
        } else {
            None
        }
    }

    fn token(&self, token_type: TokenType) -> (r: Token)
        ensures
            r@ == tok(token_type@, self.spec_state()),
    {
        Token { token_type, position: self.position, line: self.line, column: self.column }
    }

    fn err_unexpected(&self, c: char) -> (r: Option<Result<Token, LexerError>>)
        ensures
            r matches Some(Err(e)) && e@ == SpecLexError::UnexpectedCharacter(
                c,
                self.spec_state().line,
                self.spec_state().col,
            ),
    {
        Some(Err(LexerError::UnexpectedCharacter(c, self.line, self.column)))
    }
}


/// The token kind of a scanned word: a keyword, or an identifier.
fn keyword_type(w: &Vec<char>) -> (r: TokenType)
    ensures
        r@ == keyword_or_ident(w@),
{
    if word_is(w, &['s', 't', 'r', 'u', 'c', 't']) {
        TokenType::Struct
    } else if word_is(w, &['f', 'u', 'n', 'c', 't', 'i', 'o', 'n']) {
        TokenType::Function
    } else if word_is(w, &['f', 'o', 'r']) {
        TokenType::For
    } else if word_is(w, &['w', 'h', 'i', 'l', 'e']) {
        TokenType::While
    } else if word_is(w, &['n', 'u', 'l', 'l']) {
        TokenType::Null
    } else if word_is(w, &['t', 'r', 'u', 'e']) {
        TokenType::True
    } else if word_is(w, &['f', 'a', 'l', 's', 'e']) {
        TokenType::False
    } else if word_is(w, &['v', 'a', 'r']) {
        TokenType::Var
    } else if word_is(w, &['e', 'x', 't', 'e', 'n', 'd']) {
        TokenType::Extend
    } else if word_is(w, &['r', 'e', 't', 'u', 'r', 'n']) {
        TokenType::Return
    } else if word_is(w, &['i', 'n', 't', 'e', 'r', 'f', 'a', 'c', 'e']) {
        TokenType::Interface
    } else if word_is(w, &['i', 's']) {
        TokenType::Is
    } else if word_is(w, &['t', 'y', 'p', 'e']) {
        TokenType::Type
    } else if word_is(w, &['a', 's']) {
        TokenType::As
    } else if word_is(w, &['i', 'n']) {
        TokenType::In
    } else if word_is(w, &['s', 'e', 'l', 'f']) {
        TokenType::SelfRef
    } else if word_is(w, &['m', 'a', 't', 'c', 'h']) {
        TokenType::Match
    } else if word_is(w, &['c', 'l', 'a', 's', 's']) {
        TokenType::Class
    } else if word_is(w, &['i', 'f']) {
        TokenType::If
    } else if word_is(w, &['e', 'l', 's', 'e']) {
        TokenType::Else
    } else if word_is(w, &['c', 'o', 'n', 't', 'i', 'n', 'u', 'e']) {
        TokenType::Continue
    } else if word_is(w, &['b', 'r', 'e', 'a', 'k']) {
        TokenType::Break
    } else if word_is(w, &['e', 'x', 't', 'e', 'r', 'n']) {
        TokenType::Extern
    } else if word_is(w, &['i', 'm', 'p', 'o', 'r', 't']) {
        TokenType::Import
    } else if word_is(w, &['f', 'r', 'o', 'm']) {
        TokenType::From
    } else {
        TokenType::Identifier(string_from_chars(w.as_slice()))
    }
}

/// Consuming up to `e + 1` is consuming up to `e`, then one more char.
proof fn lemma_adv_to_step(input: Seq<char>, st: LexState, e: int)
    requires
        st.pos <= e,
    ensures
        adv_to(input, st, e + 1) == adv(input, adv_to(input, st, e)),
{
    assert((e + 1 - st.pos) as nat == ((e - st.pos) as nat + 1) as nat);
}

/// Whether an exec lexing outcome agrees with a modelled one.
pub open spec fn step_agrees(r: Result<Token, LexerError>, m: Result<SpecToken, SpecLexError>) -> bool {
    match r {
        Ok(t) => m == Ok::<SpecToken, SpecLexError>(t@),
        Err(e) => m == Err::<SpecToken, SpecLexError>(e@),
    }
}

impl Lexer {
    /// Reads the next token, skipping whitespace first. At the end of the
    /// input this yields an `EOF` token, again on every call; it never yields
    /// `None`.
    pub fn next_token(&mut self) -> (r: Option<Result<Token, LexerError>>)
        requires
            old(self).wf(),
        ensures
            final(self).wf(),
            final(self).spec_input() == old(self).spec_input(),
            r matches Some(res) && step_agrees(
                res,
                spec_next_token(old(self).spec_input(), old(self).spec_state()).0,
            ),
            final(self).spec_state() == spec_next_token(
                old(self).spec_input(),
                old(self).spec_state(),
            ).1,
    {
        let ghost input = self.input@;
        let ghost st = self.spec_state();
        proof {
            lemma_skip_ws(input, st.pos as int);
        }
        loop
            invariant
                self.wf(),
                self.input@ == input,
                st.pos <= self.position <= input.len(),
                skip_ws(input, self.position as int) == skip_ws(input, st.pos as int),
                self.spec_state() == adv_to(input, st, self.position as int),
            ensures
                self.wf(),
                self.input@ == input,
                st.pos <= self.position <= input.len(),
                skip_ws(input, st.pos as int) == self.position,
                self.spec_state() == adv_to(input, st, self.position as int),
            decreases input.len() - self.position,
        {
            match self.peek() {
                Some(chr) => {
                    if whitespace(chr) {
                        proof {
                            lemma_adv_to_step(input, st, self.position as int);
                        }
                        self.advance();
                    } else {
                        break;
                    }
                },
                None => {
                    break;
                },
            }
        }
        let ghost s0 = self.spec_state();
        assert(s0 == adv_to(input, st, skip_ws(input, st.pos as int)));
        match self.peek() {
            Some(c) => {
                if char_is_identifier_starter(c) {
                    Some(Ok(self.scan_literal()))
                } else if digit(c) {
                    Some(self.scan_number())
                } else {
                    self.advance();
                    Some(self.scan_symbol(c))
                }
            },
            None => Some(Ok(self.token(TokenType::EOF))),
        }
    }

    /// Reads an operator, delimiter, literal or comment whose first char `c`
    /// has just been consumed.
    fn scan_symbol(&mut self, c: char) -> (r: Result<Token, LexerError>)
        requires
            old(self).wf(),
        ensures
            final(self).wf(),
            final(self).spec_input() == old(self).spec_input(),
            step_agrees(r, spec_scan_symbol(old(self).spec_input(), c, old(self).spec_state()).0),
            final(self).spec_state() == spec_scan_symbol(
                old(self).spec_input(),
                c,
                old(self).spec_state(),
            ).1,
    {
        if c == '\'' {
            self.scan_char()
        } else if c == '"' {
            self.scan_string()
        } else if c == '/' {
            if self.peek() == Some('/') {
                self.advance();
                Ok(self.scan_comment())
            } else {
                Ok(self.token(TokenType::Slash))
            }
        } else if c == '(' {
            Ok(self.token(TokenType::LeftParen))
        } else if c == ')' {
            Ok(self.token(TokenType::RightParen))
        } else if c == '{' {
            Ok(self.token(TokenType::LeftBrace))
        } else if c == '}' {
            Ok(self.token(TokenType::RightBrace))
        } else if c == '[' {
            Ok(self.token(TokenType::LeftBracket))
        } else if c == ']' {
            Ok(self.token(TokenType::RightBracket))
        } else if c == '<' {
            if self.peek() == Some('=') {
                self.advance();
                Ok(self.token(TokenType::LtEq))
            } else {
                Ok(self.token(TokenType::LT))
            }
        } else if c == '>' {
            if self.peek() == Some('=') {
                self.advance();
                Ok(self.token(TokenType::GtEq))
            } else {
                Ok(self.token(TokenType::GT))
            }
        } else if c == '=' {
            if self.peek() == Some('=') {
                self.advance();
                Ok(self.token(TokenType::EqEq))
            } else if self.peek() == Some('>') {
                self.advance();
                Ok(self.token(TokenType::FatArrow))
            } else {
                Ok(self.token(TokenType::Eq))
            }
        } else if c == '!' {
            if self.peek() == Some('=') {
                self.advance();
                Ok(self.token(TokenType::BangEq))
            } else {
                Ok(self.token(TokenType::Bang))
            }
        } else if c == '+' {
            Ok(self.token(TokenType::Plus))
        } else if c == '-' {
            Ok(self.token(TokenType::Minus))
        } else if c == '*' {
            Ok(self.token(TokenType::Star))
        } else if c == '%' {
            Ok(self.token(TokenType::Percent))
        } else if c == '&' {
            if self.peek() == Some('&') {
                self.advance();
                Ok(self.token(TokenType::And))
            } else {
                Err(LexerError::UnexpectedCharacter('&', self.line, self.column))
            }
        } else if c == '|' {
            if self.peek() == Some('|') {
                self.advance();
                Ok(self.token(TokenType::Or))
            } else {
                Ok(self.token(TokenType::Pipe))
            }
        } else if c == '.' {
            Ok(self.token(TokenType::Dot))
        } else if c == ',' {
            Ok(self.token(TokenType::Comma))
        } else if c == ':' {
            Ok(self.token(TokenType::Colon))
        } else if c == ';' {
            Ok(self.token(TokenType::Semicolon))
        } else {
            Err(LexerError::UnexpectedCharacter(c, self.line, self.column))
        }
    }

    /// Reads the whole input: every token up to the end, comments left out;
    /// or the first error.
    pub fn scan_all(&mut self) -> (r: Result<Vec<Token>, LexerError>)
        requires
            old(self).wf(),
        ensures
            final(self).wf(),
            final(self).spec_input() == old(self).spec_input(),
            match r {
                Ok(ts) => spec_scan_all(old(self).spec_input(), old(self).spec_state()) == Ok::<
                    Seq<SpecToken>,
                    SpecLexError,
                >(ts@.map_values(|t: Token| t@)),
                Err(e) => spec_scan_all(old(self).spec_input(), old(self).spec_state()) == Err::<
                    Seq<SpecToken>,
                    SpecLexError,
                >(e@),
            },
    {
        let ghost input = self.input@;
        let ghost st0 = self.spec_state();
        let mut tokens: Vec<Token> = Vec::new();
        loop
            invariant
                self.wf(),
                self.input@ == input,
                input == old(self).spec_input(),
                st0 == old(self).spec_state(),
                self.spec_state().pos >= st0.pos,
                match spec_scan_all(input, self.spec_state()) {
                    Ok(rest) => spec_scan_all(input, st0) == Ok::<Seq<SpecToken>, SpecLexError>(
                        tokens@.map_values(|t: Token| t@) + rest,
                    ),
                    Err(e) => spec_scan_all(input, st0) == Err::<Seq<SpecToken>, SpecLexError>(e),
                },
            decreases input.len() - self.spec_state().pos,
        {
            let ghost before = self.spec_state();
            proof {
                lemma_next_token_progress(input, before);
            }
            let next = self.next_token();
            match next {
                Some(Ok(token)) => {
                    if matches!(token.token_type, TokenType::EOF) {
                        assert(tokens@.map_values(|t: Token| t@) + Seq::<SpecToken>::empty()
                            =~= tokens@.map_values(|t: Token| t@));
                        return Ok(tokens);
                    }
                    if matches!(token.token_type, TokenType::Comment(_)) {
                        continue;
                    }
                    let ghost old_tokens = tokens@;
                    let ghost tv = token@;
                    tokens.push(token);
                    proof {
                        assert(tokens@.map_values(|t: Token| t@) =~= old_tokens.map_values(
                            |t: Token| t@,
                        ).push(tv));
                        match spec_scan_all(input, self.spec_state()) {
                            Ok(rest) => {
                                assert(old_tokens.map_values(|t: Token| t@) + (seq![tv] + rest)
                                    =~= old_tokens.map_values(|t: Token| t@).push(tv) + rest);
                            },
                            Err(_) => {},
                        }
                    }
                },
                Some(Err(err)) => {
                    return Err(err);
                },
                None => {
                    return Ok(tokens);
                },
            }
        }
    }

    /// Reads an identifier or keyword that starts at the current char.
    fn scan_literal(&mut self) -> (r: Token)
        requires
            old(self).wf(),
        ensures
            final(self).wf(),
            final(self).spec_input() == old(self).spec_input(),
            ({
                let input = old(self).spec_input();
                let s0 = old(self).spec_state();
                let e = ident_end(input, s0.pos as int);
                &&& final(self).spec_state() == adv_to(input, s0, e)
                &&& r@ == tok(keyword_or_ident(input.subrange(s0.pos as int, e)), adv_to(input, s0, e))
            }),
    {
        let ghost input = self.input@;
        let ghost s0 = self.spec_state();
        let mut literal: Vec<char> = Vec::new();
        loop
            invariant
                self.wf(),
                self.input@ == input,
                s0.pos <= self.position <= input.len(),
                ident_end(input, self.position as int) == ident_end(input, s0.pos as int),
                self.spec_state() == adv_to(input, s0, self.position as int),
                literal@ == input.subrange(s0.pos as int, self.position as int),
            ensures
                self.wf(),
                self.input@ == input,
                s0.pos <= self.position <= input.len(),
                self.position == ident_end(input, s0.pos as int),
                self.spec_state() == adv_to(input, s0, self.position as int),
                literal@ == input.subrange(s0.pos as int, self.position as int),
            decreases input.len() - self.position,
        {
            match self.peek() {
                Some(c) => {
                    if char_is_identifier(c) {
                        proof {
                            lemma_adv_to_step(input, s0, self.position as int);
                        }
                        literal.push(c);
                        self.advance();
                        assert(literal@ =~= input.subrange(s0.pos as int, self.position as int));
                    } else {
                        break;
                    }
                },
                None => {
                    break;
                },
            }
        }
        let tt = keyword_type(&literal);
        self.token(tt)
    }

    /// Reads a number literal that starts at the current char.
    fn scan_number(&mut self) -> (r: Result<Token, LexerError>)
        requires
            old(self).wf(),
        ensures
            final(self).wf(),
            final(self).spec_input() == old(self).spec_input(),
            step_agrees(r, spec_scan_number(old(self).spec_input(), old(self).spec_state()).0),
            final(self).spec_state() == spec_scan_number(
                old(self).spec_input(),
                old(self).spec_state(),
            ).1,
    {
        let ghost input = self.input@;
        let ghost s0 = self.spec_state();
        let mut number: Vec<char> = Vec::new();
        let mut has_dot = false;
        let mut last_char_was_dot = false;
        loop
            invariant
                self.wf(),
                self.input@ == input,
                s0.pos <= self.position <= input.len(),
                num_end(input, self.position as int, has_dot) == num_end(
                    input,
                    s0.pos as int,
                    false,
                ),
                self.spec_state() == adv_to(input, s0, self.position as int),
                number@ == input.subrange(s0.pos as int, self.position as int),
                has_dot == number@.contains('.'),
                last_char_was_dot == (number@.len() > 0 && number@.last() == '.'),
                input == old(self).spec_input(),
                s0 == old(self).spec_state(),
            ensures
                self.wf(),
                self.input@ == input,
                s0.pos <= self.position <= input.len(),
                self.position == num_end(input, s0.pos as int, false),
                !(self.position < input.len() && input[self.position as int] == '.'),
                self.spec_state() == adv_to(input, s0, self.position as int),
                number@ == input.subrange(s0.pos as int, self.position as int),
                has_dot == number@.contains('.'),
                last_char_was_dot == (number@.len() > 0 && number@.last() == '.'),
                input == old(self).spec_input(),
                s0 == old(self).spec_state(),
            decreases input.len() - self.position,
        {
            match self.peek() {
                Some(c) => {
                    if digit(c) {
                        proof {
                            lemma_adv_to_step(input, s0, self.position as int);
                        }
                        let ghost old_number = number@;
                        self.advance();
                        number.push(c);
                        last_char_was_dot = false;
                        proof {
                            assert(number@ =~= input.subrange(
                                s0.pos as int,
                                self.position as int,
                            ));
                            lemma_contains_push(old_number, c, '.');
                        }
                    } else if c == '.' {
                        if !has_dot {
                            proof {
                                lemma_adv_to_step(input, s0, self.position as int);
                            }
                            let ghost old_number = number@;
                            has_dot = true;
                            self.advance();
                            number.push(c);
                            last_char_was_dot = true;
                            proof {
                                assert(number@ =~= input.subrange(
                                    s0.pos as int,
                                    self.position as int,
                                ));
                                lemma_contains_push(old_number, c, '.');
                            }
                        } else {
                            return Err(
                                LexerError::InvalidNumber(
                                    string_from_chars(number.as_slice()),
                                    self.line,
                                    self.column,
                                ),
                            );
                        }
                    } else {
                        break;
                    }
                },
                None => {
                    break;
                },
            }
        }
        if last_char_was_dot {
            return Err(
                LexerError::InvalidNumber(
                    string_from_chars(number.as_slice()),
                    self.line,
                    self.column,
                ),
            );
        }
        if has_dot {
            Ok(self.token(TokenType::Float(string_from_chars(number.as_slice()))))
        } else {
            Ok(self.token(TokenType::Int(string_from_chars(number.as_slice()))))
        }
    }

    /// Reads the rest of a string literal, after its opening quote.
    fn scan_string(&mut self) -> (r: Result<Token, LexerError>)
        requires
            old(self).wf(),
        ensures
            final(self).wf(),
            final(self).spec_input() == old(self).spec_input(),
            step_agrees(r, spec_scan_string(old(self).spec_input(), old(self).spec_state()).0),
            final(self).spec_state() == spec_scan_string(
                old(self).spec_input(),
                old(self).spec_state(),
            ).1,
    {
        let ghost input = self.input@;
        let ghost s1 = self.spec_state();
        let mut value: Vec<char> = Vec::new();
        let mut escaped = false;
        loop
            invariant
                self.wf(),
                self.input@ == input,
                s1.pos <= self.position <= input.len(),
                str_scan(input, self.position as int, escaped, value@) == str_scan(
                    input,
                    s1.pos as int,
                    false,
                    Seq::empty(),
                ),
                self.spec_state() == adv_to(input, s1, self.position as int),
                input == old(self).spec_input(),
                s1 == old(self).spec_state(),
            ensures
                self.wf(),
                self.input@ == input,
                self.position == input.len(),
                str_scan(input, s1.pos as int, false, Seq::empty()) is None,
                self.spec_state() == adv_to(input, s1, self.position as int),
            decreases input.len() - self.position,
        {
            proof {
                lemma_adv_to_step(input, s1, self.position as int);
            }
            match self.advance() {
                Some(c) => {
                    if c == '\\' && !escaped {
                        escaped = true;
                    } else if c == '"' && !escaped {
                        return Ok(self.token(TokenType::StringLit(string_from_chars(value.as_slice()))));
                    } else {
                        escaped = false;
                        value.push(c);
                    }
                },
                None => {
                    break;
                },
            }
        }
        Err(LexerError::UnterminatedString(self.line, self.column))
    }

    /// Reads the text of a line comment, after its `//`.
    fn scan_comment(&mut self) -> (r: Token)
        requires
            old(self).wf(),
        ensures
            final(self).wf(),
            final(self).spec_input() == old(self).spec_input(),
            ({
                let input = old(self).spec_input();
                let s2 = old(self).spec_state();
                let e = comment_end(input, s2.pos as int);
                &&& final(self).spec_state() == adv_to(input, s2, e)
                &&& r@ == tok(TokenKind::Comment(input.subrange(s2.pos as int, e)), adv_to(input, s2, e))
            }),
    {
        let ghost input = self.input@;
        let ghost s2 = self.spec_state();
        let mut comment: Vec<char> = Vec::new();
        loop
            invariant
                self.wf(),
                self.input@ == input,
                s2.pos <= self.position <= input.len(),
                comment_end(input, self.position as int) == comment_end(input, s2.pos as int),
                self.spec_state() == adv_to(input, s2, self.position as int),
                comment@ == input.subrange(s2.pos as int, self.position as int),
            ensures
                self.wf(),
                self.input@ == input,
                s2.pos <= self.position <= input.len(),
                self.position == comment_end(input, s2.pos as int),
                self.spec_state() == adv_to(input, s2, self.position as int),
                comment@ == input.subrange(s2.pos as int, self.position as int),
            decreases input.len() - self.position,
        {
            match self.peek() {
                Some(c) => {
                    if c == '\n' {
                        break;
                    } else {
                        proof {
                            lemma_adv_to_step(input, s2, self.position as int);
                        }
                        comment.push(c);
                        self.advance();
                        assert(comment@ =~= input.subrange(s2.pos as int, self.position as int));
                    }
                },
                None => {
                    break;
                },
            }
        }
        self.token(TokenType::Comment(string_from_chars(comment.as_slice())))
    }

    /// Reads the rest of a char literal, after its opening quote.
    fn scan_char(&mut self) -> (r: Result<Token, LexerError>)
        requires
            old(self).wf(),
        ensures
            final(self).wf(),
            final(self).spec_input() == old(self).spec_input(),
            step_agrees(r, spec_scan_char(old(self).spec_input(), old(self).spec_state()).0),
            final(self).spec_state() == spec_scan_char(
                old(self).spec_input(),
                old(self).spec_state(),
            ).1,
    {
        if let Some(c) = self.advance() {
            if c == '\'' {
                return Err(LexerError::UnexpectedCharacter('\'', self.line, self.column));
            }
            if self.peek() == Some('\'') {
                self.advance();
                return Ok(self.token(TokenType::CharLit(c)));
            } else {
                return Err(LexerError::UnexpectedCharacter(c, self.line, self.column));
            }
        }
        Err(LexerError::UnexpectedCharacter('\0', self.line, self.column))
    }
}

/// Pushing a char onto a sequence: the result holds `x` iff the sequence did
/// or the pushed char is `x`.
proof fn lemma_contains_push(s: Seq<char>, c: char, x: char)
    ensures
        s.push(c).contains(x) == (s.contains(x) || c == x),
{
    if s.contains(x) {
        let i = choose|i: int| 0 <= i < s.len() && s[i] == x;
        assert(s.push(c)[i] == x);
    }
    if c == x {
        assert(s.push(c)[s.len() as int] == x);
    }
    if s.push(c).contains(x) {
        let i = choose|i: int| 0 <= i < s.push(c).len() && s.push(c)[i] == x;
        if i < s.len() {
            assert(s[i] == x);
        }
    }
}

/// The code points with Unicode's `White_Space` property (PropList.txt
/// of the Unicode Character Database), one by one: tab, line feed, line
/// tabulation, form feed, carriage return, space, next line, no-break
/// space, ogham space mark, en quad through hair space, line separator,
/// paragraph separator, narrow no-break space, medium mathematical space,
/// ideographic space.
pub open spec fn unicode_white_space(c: char) -> bool {
    let u = c as u32;
    ||| u == 0x0009
    ||| u == 0x000A
    ||| u == 0x000B
    ||| u == 0x000C
    ||| u == 0x000D
    ||| u == 0x0020
    ||| u == 0x0085
    ||| u == 0x00A0
    ||| u == 0x1680
    ||| u == 0x2000
    ||| u == 0x2001
    ||| u == 0x2002
    ||| u == 0x2003
    ||| u == 0x2004
    ||| u == 0x2005
    ||| u == 0x2006
    ||| u == 0x2007
    ||| u == 0x2008
    ||| u == 0x2009
    ||| u == 0x200A
    ||| u == 0x2028
    ||| u == 0x2029
    ||| u == 0x202F
    ||| u == 0x205F
    ||| u == 0x3000
}

/// The lexer skips exactly the chars with Unicode's `White_Space`
/// property, the ones `char::is_whitespace` holds for: among them the
/// carriage return of a CRLF line ending.
pub proof fn law_lexer_skips_unicode_white_space(c: char)
    ensures
        is_ws(c) == unicode_white_space(c),
{
}

proof fn lemma_skip_all_white(input: Seq<char>, i: int)
    requires
        0 <= i <= input.len(),
        forall|k: int| i <= k < input.len() ==> unicode_white_space(#[trigger] input[k]),
    ensures
        skip_ws(input, i) == input.len(),
    decreases input.len() - i,
{
    if i < input.len() {
        law_lexer_skips_unicode_white_space(input[i]);
        lemma_skip_all_white(input, i + 1);
    }
}

/// Input that holds nothing but `White_Space` from the scan's start on
/// (spaces, tabs, CR, LF, ...) scans to no token at all, without error.
pub proof fn law_white_space_scans_to_nothing(input: Seq<char>, st: LexState)
    requires
        state_ok(input, st),
        forall|k: int| st.pos <= k < input.len() ==> unicode_white_space(#[trigger] input[k]),
    ensures
        spec_scan_all(input, st) == Ok::<Seq<SpecToken>, SpecLexError>(Seq::empty()),
{
    lemma_skip_all_white(input, st.pos as int);
    lemma_adv_to_ok(input, st, input.len() as int);
}

} // verus!
