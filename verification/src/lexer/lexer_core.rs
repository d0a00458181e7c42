//! The scanner: turns source text into an ordered token sequence, skipping
//! whitespace and line comments and accumulating lexical diagnostics without
//! ever aborting.
//!
//! The whole behaviour of scanning is captured by the spec function
//! [`scan_model`]: it consumes the source left to right, one lexeme per step
//! as given by [`scan_step`], and always terminates the token sequence with a
//! single end-of-stream marker.  [`Lexer::scan_tokens`] is proved to return
//! exactly that sequence and to record exactly those diagnostics.

use vstd::prelude::*;

use crate::lexer::token::{Token, TokenModel};

verus! {

/// A lexical diagnostic.  Scanning records diagnostics instead of failing:
/// each one is paired with a best-effort fallback token (or with no token at
/// all for an unrecognized character), so the token stream stays well formed.
#[derive(Debug, Clone, Copy, PartialEq, Eq, Structural)]
pub enum Diagnostic {
    /// A character no lexeme can begin with; the character is carried along.
    UnexpectedCharacter(char),
    /// The input ended before the closing quote of a string literal.
    UnterminatedString,
    /// A decimal point with no digit after it; the fallback token is the
    /// number zero.
    InvalidNumber,
}

/// Decimal digits.
pub open spec fn is_digit(c: char) -> bool {
    '0' <= c && c <= '9'
}

/// Characters an identifier can begin with: ASCII letters and underscore.
pub open spec fn is_alpha(c: char) -> bool {
    ('a' <= c && c <= 'z') || ('A' <= c && c <= 'Z') || c == '_'
}

/// Characters an identifier can continue with.
pub open spec fn is_alnum(c: char) -> bool {
    is_alpha(c) || is_digit(c)
}

/// Whitespace skipped between lexemes.
pub open spec fn is_whitespace(c: char) -> bool {
    c == ' ' || c == '\r' || c == '\t' || c == '\n'
}

/// The end of a line comment that continues at `i`: the index of the first
/// newline at or after `i`, or the end of the input.  The newline itself is
/// not part of the comment; it is skipped later as whitespace.
pub open spec fn line_end(s: Seq<char>, i: int) -> int
    decreases s.len() - i,
{
    if i < 0 || i >= s.len() || s[i] == '\n' {
        i
    } else {
        line_end(s, i + 1)
    }
}

/// The end of a string literal body that starts at `i`: the index of the
/// first double quote at or after `i`, or the end of the input.
pub open spec fn string_end(s: Seq<char>, i: int) -> int
    decreases s.len() - i,
{
    if i < 0 || i >= s.len() || s[i] == '"' {
        i
    } else {
        string_end(s, i + 1)
    }
}

/// The end of the maximal digit run that starts at `i`.
pub open spec fn digits_end(s: Seq<char>, i: int) -> int
    decreases s.len() - i,
{
    if i < 0 || i >= s.len() || !is_digit(s[i]) {
        i
    } else {
        digits_end(s, i + 1)
    }
}

/// The end of the maximal identifier run that starts at `i`.
pub open spec fn ident_end(s: Seq<char>, i: int) -> int
    decreases s.len() - i,
{
    if i < 0 || i >= s.len() || !is_alnum(s[i]) {
        i
    } else {
        ident_end(s, i + 1)
    }
}

/// `line_end` stays within `[i, s.len()]`.
pub proof fn lemma_line_end(s: Seq<char>, i: int)
    requires
        0 <= i <= s.len(),
    ensures
        i <= line_end(s, i) <= s.len(),
    decreases s.len() - i,
{
    if i < s.len() && s[i] != '\n' {
        lemma_line_end(s, i + 1);
    }
}

/// `string_end` stays within `[i, s.len()]`.
pub proof fn lemma_string_end(s: Seq<char>, i: int)
    requires
        0 <= i <= s.len(),
    ensures
        i <= string_end(s, i) <= s.len(),
    decreases s.len() - i,
{
    if i < s.len() && s[i] != '"' {
        lemma_string_end(s, i + 1);
    }
}

/// `digits_end` stays within `[i, s.len()]`.
pub proof fn lemma_digits_end(s: Seq<char>, i: int)
    requires
        0 <= i <= s.len(),
    ensures
        i <= digits_end(s, i) <= s.len(),
    decreases s.len() - i,
{
    if i < s.len() && is_digit(s[i]) {
        lemma_digits_end(s, i + 1);
    }
}

/// `ident_end` stays within `[i, s.len()]`.
pub proof fn lemma_ident_end(s: Seq<char>, i: int)
    requires
        0 <= i <= s.len(),
    ensures
        i <= ident_end(s, i) <= s.len(),
    decreases s.len() - i,
{
    if i < s.len() && is_alnum(s[i]) {
        lemma_ident_end(s, i + 1);
    }
}

/// The keyword token for an identifier spelling, if the spelling is one of
/// the sixteen fixed keywords (exact, case-sensitive match); the identifier
/// token carrying the spelling otherwise.
pub open spec fn keyword_or_identifier(text: Seq<char>) -> TokenModel {
    if text == "and"@ {
        TokenModel::And
    } else if text == "class"@ {
        TokenModel::Class
    } else if text == "else"@ {
        TokenModel::Else
    } else if text == "false"@ {
        TokenModel::False
    } else if text == "fun"@ {
        TokenModel::Fun
    } else if text == "for"@ {
        TokenModel::For
    } else if text == "if"@ {
        TokenModel::If
    } else if text == "nil"@ {
        TokenModel::Nil
    } else if text == "or"@ {
        TokenModel::Or
    } else if text == "print"@ {
        TokenModel::Print
    } else if text == "return"@ {
        TokenModel::Return
    } else if text == "super"@ {
        TokenModel::Super
    } else if text == "this"@ {
        TokenModel::This
    } else if text == "true"@ {
        TokenModel::True
    } else if text == "var"@ {
        TokenModel::Var
    } else if text == "while"@ {
        TokenModel::While
    } else {
        TokenModel::Identifier(text)
    }
}

/// One scanning step, dispatched on the character at the cursor: the token
/// it emits (if any), the diagnostics it records, and the cursor position at
/// which scanning resumes.
pub ghost struct ScanStep {
    pub token: Option<TokenModel>,
    pub diags: Seq<Diagnostic>,
    pub next: int,
}

/// The single step of scanning that starts at position `i`, which must lie
/// strictly inside the source.  Mirrors the per-character dispatch: single
/// characters map to their tokens, `//` skips to the end of the line,
/// whitespace is skipped, `"` collects a string literal, a digit collects a
/// number literal, a letter or underscore collects an identifier or keyword,
/// and anything else records a diagnostic and emits nothing.
pub open spec fn scan_step(s: Seq<char>, i: int) -> ScanStep {
    let c = s[i];
    if c == '(' {
        ScanStep { token: Some(TokenModel::LeftParen), diags: seq![], next: i + 1 }
    } else if c == ')' {
        ScanStep { token: Some(TokenModel::RightParen), diags: seq![], next: i + 1 }
    } else if c == '{' {
        ScanStep { token: Some(TokenModel::LeftBrace), diags: seq![], next: i + 1 }
    } else if c == '}' {
        ScanStep { token: Some(TokenModel::RightBrace), diags: seq![], next: i + 1 }
    } else if c == ',' {
        ScanStep { token: Some(TokenModel::Comma), diags: seq![], next: i + 1 }
    } else if c == '.' {
        ScanStep { token: Some(TokenModel::Dot), diags: seq![], next: i + 1 }
    } else if c == '-' {
        ScanStep { token: Some(TokenModel::Minus), diags: seq![], next: i + 1 }
    } else if c == '+' {
        ScanStep { token: Some(TokenModel::Plus), diags: seq![], next: i + 1 }
    } else if c == ';' {
        ScanStep { token: Some(TokenModel::Semicolon), diags: seq![], next: i + 1 }
    } else if c == '*' {
        ScanStep { token: Some(TokenModel::Star), diags: seq![], next: i + 1 }
    } else if c == '/' {
        if i + 1 < s.len() && s[i + 1] == '/' {
            // A line comment: consume through the end of the line, emit nothing.
            ScanStep { token: None, diags: seq![], next: line_end(s, i + 2) }
        } else {
            ScanStep { token: Some(TokenModel::Slash), diags: seq![], next: i + 1 }
        }
    } else if is_whitespace(c) {
        ScanStep { token: None, diags: seq![], next: i + 1 }
    } else if c == '"' {
        let close = string_end(s, i + 1);
        if close < s.len() {
            // The body runs up to the closing quote, which is consumed too.
            ScanStep {
                token: Some(TokenModel::StringLiteral(s.subrange(i + 1, close))),
                diags: seq![],
                next: close + 1,
            }
        } else {
            // Unterminated: keep the partial content and go on scanning (at
            // the end of the input).
            ScanStep {
                token: Some(TokenModel::StringLiteral(s.subrange(i + 1, s.len() as int))),
                diags: seq![Diagnostic::UnterminatedString],
                next: s.len() as int,
            }
        }
    } else if is_digit(c) {
        let whole = digits_end(s, i);
        if whole < s.len() && s[whole] == '.' && whole + 1 < s.len() && is_digit(s[whole + 1]) {
            // A fractional part: consume the point and the following digits.
            let frac = digits_end(s, whole + 1);
            ScanStep {
                token: Some(TokenModel::Number(s.subrange(i, frac))),
                diags: seq![],
                next: frac,
            }
        } else if whole < s.len() && s[whole] == '.' {
            // A lone decimal point: diagnostic plus the zero fallback token;
            // the point itself is left for the next step.
            ScanStep {
                token: Some(TokenModel::Number(seq!['0'])),
                diags: seq![Diagnostic::InvalidNumber],
                next: whole,
            }
        } else {
            ScanStep {
                token: Some(TokenModel::Number(s.subrange(i, whole))),
                diags: seq![],
                next: whole,
            }
        }
    } else if is_alpha(c) {
        let end = ident_end(s, i);
        ScanStep { token: Some(keyword_or_identifier(s.subrange(i, end))), diags: seq![], next: end }
    } else {
        ScanStep { token: None, diags: seq![Diagnostic::UnexpectedCharacter(c)], next: i + 1 }
    }
}

/// Every scanning step makes progress and stays within the source.
pub proof fn lemma_scan_step_bounds(s: Seq<char>, i: int)
    requires
        0 <= i < s.len(),
    ensures
        i < scan_step(s, i).next <= s.len(),
{
    let c = s[i];
    if c == '/' && i + 1 < s.len() && s[i + 1] == '/' {
        lemma_line_end(s, i + 2);
    } else if c == '"' {
        lemma_string_end(s, i + 1);
    } else if is_digit(c) {
        let whole = digits_end(s, i);
        assert(digits_end(s, i) == digits_end(s, i + 1));
        lemma_digits_end(s, i + 1);
        if whole < s.len() && s[whole] == '.' && whole + 1 < s.len() && is_digit(s[whole + 1]) {
            assert(digits_end(s, whole + 1) == digits_end(s, whole + 2));
            lemma_digits_end(s, whole + 2);
        }
    } else if is_alpha(c) {
        assert(ident_end(s, i) == ident_end(s, i + 1));
        lemma_ident_end(s, i + 1);
    }
}

/// The tokens and the diagnostics of scanning the whole source from position
/// `i` on: the steps of [`scan_step`], one after the other, and a final
/// end-of-stream token.
pub open spec fn scan_model(s: Seq<char>, i: int) -> (Seq<TokenModel>, Seq<Diagnostic>)
    decreases s.len() - i,
    via scan_model_decreases
{
    if i < 0 || i >= s.len() {
        (seq![TokenModel::EOF], seq![])
    } else {
        let step = scan_step(s, i);
        let rest = scan_model(s, step.next);
        let toks = match step.token {
            Some(t) => seq![t] + rest.0,
            None => rest.0,
        };
        (toks, step.diags + rest.1)
    }
}

#[via_fn]
proof fn scan_model_decreases(s: Seq<char>, i: int) {
    if 0 <= i < s.len() {
        lemma_scan_step_bounds(s, i);
    }
}

/// The token sequence of a scan is never empty, ends with the end-of-stream
/// marker, and contains that marker exactly once.
pub proof fn lemma_scan_model_ends_eof(s: Seq<char>, i: int)
    ensures
        scan_model(s, i).0.len() >= 1,
        scan_model(s, i).0.last() == TokenModel::EOF,
        forall|k: int|
            0 <= k < scan_model(s, i).0.len() - 1 ==> scan_model(s, i).0[k] != TokenModel::EOF,
    decreases s.len() - i,
{
    if 0 <= i < s.len() {
        lemma_scan_step_bounds(s, i);
        lemma_scan_model_ends_eof(s, scan_step(s, i).next);
    }
}

/// Scanning has no hidden state: the tokens and the diagnostics are a
/// function of the source text alone, so scanning the same text twice yields
/// identical results.
pub proof fn lemma_scan_deterministic(s: Seq<char>, t: Seq<char>)
    requires
        s == t,
    ensures
        scan_model(s, 0) == scan_model(t, 0),
{
}

/// Whether two character vectors spell the same text.
#[verifier::loop_isolation(false)]
fn text_eq(v: &Vec<char>, s: &str) -> (r: bool)
    ensures
        r == (v@ == s@),
{
    let n = s.unicode_len();
    if v.len() != n {
        return false;
    }
    let mut k: usize = 0;
    while k < n
        invariant
            k <= n,
            v@.len() == n,
            s@.len() == n,
            forall|j: int| 0 <= j < k ==> v@[j] == s@[j],
        decreases n - k,
    {
        if v[k] != s.get_char(k) {
            return false;
        }
        k += 1;
    }
    proof {
        assert(v@ =~= s@);
    }
    true
}

/// The token for a completed identifier run: one of the sixteen keywords, or
/// an identifier carrying the text.
fn keyword_token(text: Vec<char>) -> (t: Token)
    ensures
        t.deep_view() == keyword_or_identifier(text@),
{
    if text_eq(&text, "and") {
        Token::And
    } else if text_eq(&text, "class") {
        Token::Class
    } else if text_eq(&text, "else") {
        Token::Else
    } else if text_eq(&text, "false") {
        Token::False
    } else if text_eq(&text, "fun") {
        Token::Fun
    } else if text_eq(&text, "for") {
        Token::For
    } else if text_eq(&text, "if") {
        Token::If
    } else if text_eq(&text, "nil") {
        Token::Nil
    } else if text_eq(&text, "or") {
        Token::Or
    } else if text_eq(&text, "print") {
        Token::Print
    } else if text_eq(&text, "return") {
        Token::Return
    } else if text_eq(&text, "super") {
        Token::Super
    } else if text_eq(&text, "this") {
        Token::This
    } else if text_eq(&text, "true") {
        Token::True
    } else if text_eq(&text, "var") {
        Token::Var
    } else if text_eq(&text, "while") {
        Token::While
    } else {
        Token::Identifier(text)
    }
}

/// The scanner.  It owns the source text, a cursor, and the diagnostics
/// collected so far; scanning never fails, it only records diagnostics.
pub struct Lexer {
    source: Vec<char>,
    start: usize,
    current: usize,
    errors: Vec<Diagnostic>,
}

impl Lexer {
    /// The source text being scanned.
    pub closed spec fn source_model(&self) -> Seq<char> {
        self.source@
    }

    /// The cursor: the position of the next character to examine.
    pub closed spec fn cursor(&self) -> int {
        self.current as int
    }

    /// The position at which the lexeme under construction began.
    pub closed spec fn lexeme_start(&self) -> int {
        self.start as int
    }

    /// The diagnostics recorded so far, oldest first.
    pub closed spec fn diagnostics(&self) -> Seq<Diagnostic> {
        self.errors@
    }

    /// The cursor never leaves the source text.
    pub open spec fn wf(&self) -> bool {
        0 <= self.cursor() <= self.source_model().len()
    }

    /// Create a new lexer over the given source text, with the cursor at the
    /// start and no diagnostics.
    pub fn new(source: Vec<char>) -> (lexer: Lexer)
        ensures
            lexer.source_model() == source@,
            lexer.cursor() == 0,
            lexer.lexeme_start() == 0,
            lexer.diagnostics() == Seq::<Diagnostic>::empty(),
            lexer.wf(),
    {
        Lexer { source, start: 0, current: 0, errors: Vec::new() }
    }

    /// Whether the cursor has reached the end of the source text.
    pub fn is_at_end(&self) -> (r: bool)
        ensures
            r == (self.cursor() >= self.source_model().len()),
    {
        self.current >= self.source.len()
    }

    /// The character at the cursor, without advancing; the null character
    /// once the end of the input is reached.
    pub fn peek(&self) -> (c: char)
        requires
            self.wf(),
        ensures
            c == if self.cursor() < self.source_model().len() {
                self.source_model()[self.cursor()]
            } else {
                '\0'
            },
    {
        if self.current < self.source.len() {
            self.source[self.current]
        } else {
            '\0'
        }
    }

    /// The character after the one at the cursor, without advancing; the
    /// null character if that would lie past the end of the input.
    pub fn peek_next(&self) -> (c: char)
        requires
            self.wf(),
        ensures
            c == if self.cursor() + 1 < self.source_model().len() {
                self.source_model()[self.cursor() + 1]
            } else {
                '\0'
            },
    {
        if self.current < self.source.len() && self.source.len() - self.current >= 2 {
            self.source[self.current + 1]
        } else {
            '\0'
        }
    }

    /// Consume and return the character at the cursor.
    pub fn advance(&mut self) -> (c: char)
        requires
            old(self).wf(),
            old(self).cursor() < old(self).source_model().len(),
        ensures
            c == old(self).source_model()[old(self).cursor()],
            final(self).cursor() == old(self).cursor() + 1,
            final(self).source_model() == old(self).source_model(),
            final(self).lexeme_start() == old(self).lexeme_start(),
            final(self).diagnostics() == old(self).diagnostics(),
            final(self).wf(),
    {
        let n = self.source.len();
        let c = self.source[self.current];
        self.current += 1;
        proof {
            assert(self.current <= n);
        }
        c
    }

    /// Scan a string literal; the cursor stands just past the opening quote.
    /// On a missing closing quote a diagnostic is recorded and the partial
    /// content is still returned — scanning does not abort.
    #[verifier::loop_isolation(false)]
    fn string(&mut self) -> (t: Token)
        requires
            old(self).wf(),
        ensures
            final(self).wf(),
            final(self).source_model() == old(self).source_model(),
            final(self).lexeme_start() == old(self).lexeme_start(),
            ({
                let s = old(self).source_model();
                let i = old(self).cursor();
                let close = string_end(s, i);
                if close < s.len() {
                    &&& t.deep_view() == TokenModel::StringLiteral(s.subrange(i, close))
                    &&& final(self).cursor() == close + 1
                    &&& final(self).diagnostics() == old(self).diagnostics()
                } else {
                    &&& t.deep_view() == TokenModel::StringLiteral(
                        s.subrange(i, s.len() as int),
                    )
                    &&& final(self).cursor() == s.len()
                    &&& final(self).diagnostics() == old(self).diagnostics() + seq![
                        Diagnostic::UnterminatedString,
                    ]
                }
            }),
    {
        let ghost s = self.source@;
        let ghost i0 = self.current as int;
        let ghost e0 = self.errors@;
        let ghost st0 = self.start;
        let mut value: Vec<char> = Vec::new();
        proof {
            assert(value@ =~= s.subrange(i0, i0));
        }
        while !self.is_at_end() && self.peek() != '"'
            invariant
                self.wf(),
                self.source_model() == s,
                self.errors@ == e0,
                self.start == st0,
                i0 <= self.cursor() <= s.len(),
                string_end(s, i0) == string_end(s, self.cursor()),
                value@ == s.subrange(i0, self.cursor()),
            decreases s.len() - self.cursor(),
        {
            proof {
                assert(string_end(s, self.cursor()) == string_end(s, self.cursor() + 1));
            }
            let c = self.advance();
            value.push(c);
            proof {
                assert(value@ =~= s.subrange(i0, self.cursor()));
            }
        }
        if self.is_at_end() {
            self.errors.push(Diagnostic::UnterminatedString);
            proof {
                assert(self.errors@ =~= e0 + seq![Diagnostic::UnterminatedString]);
            }
            Token::StringLiteral(value)
        } else {
            let _ = self.advance();
            Token::StringLiteral(value)
        }
    }

    /// Scan a number literal; the cursor stands just past its first digit,
    /// which `lexeme_start` marks.  A maximal digit run is consumed, then a
    /// fractional part if a decimal point is followed by a digit; a lone
    /// decimal point degrades to a diagnostic and a zero token.
    #[verifier::loop_isolation(false)]
    fn number(&mut self) -> (t: Token)
        requires
            old(self).wf(),
            old(self).lexeme_start() == old(self).cursor() - 1,
            0 <= old(self).lexeme_start() < old(self).source_model().len(),
            is_digit(old(self).source_model()[old(self).lexeme_start()]),
        ensures
            final(self).wf(),
            final(self).source_model() == old(self).source_model(),
            final(self).lexeme_start() == old(self).lexeme_start(),
            ({
                let s = old(self).source_model();
                let i = old(self).lexeme_start();
                let whole = digits_end(s, i);
                if whole < s.len() && s[whole] == '.' && whole + 1 < s.len() && is_digit(
                    s[whole + 1],
                ) {
                    let frac = digits_end(s, whole + 1);
                    &&& t.deep_view() == TokenModel::Number(s.subrange(i, frac))
                    &&& final(self).cursor() == frac
                    &&& final(self).diagnostics() == old(self).diagnostics()
                } else if whole < s.len() && s[whole] == '.' {
                    &&& t.deep_view() == TokenModel::Number(seq!['0'])
                    &&& final(self).cursor() == whole
                    &&& final(self).diagnostics() == old(self).diagnostics() + seq![
                        Diagnostic::InvalidNumber,
                    ]
                } else {
                    &&& t.deep_view() == TokenModel::Number(s.subrange(i, whole))
                    &&& final(self).cursor() == whole
                    &&& final(self).diagnostics() == old(self).diagnostics()
                }
            }),
    {
        let ghost s = self.source@;
        let ghost i0 = self.start as int;
        let ghost e0 = self.errors@;
        let ghost st0 = self.start;
        let mut value: Vec<char> = Vec::new();
        value.push(self.source[self.start]);
        proof {
            assert(value@ =~= s.subrange(i0, i0 + 1));
            assert(digits_end(s, i0) == digits_end(s, i0 + 1));
        }
        while !self.is_at_end() && is_digit_char(self.peek())
            invariant
                self.wf(),
                self.source_model() == s,
                self.errors@ == e0,
                self.start == st0,
                i0 + 1 <= self.cursor() <= s.len(),
                digits_end(s, i0) == digits_end(s, self.cursor()),
                value@ == s.subrange(i0, self.cursor()),
            decreases s.len() - self.cursor(),
        {
            proof {
                assert(digits_end(s, self.cursor()) == digits_end(s, self.cursor() + 1));
            }
            let c = self.advance();
            value.push(c);
            proof {
                assert(value@ =~= s.subrange(i0, self.cursor()));
            }
        }
        let ghost whole = digits_end(s, i0);
        proof {
            assert(digits_end(s, self.cursor()) == self.cursor());
        }
        if self.peek() == '.' {
            if is_digit_char(self.peek_next()) {
                let c = self.advance();
                value.push(c);
                proof {
                    assert(value@ =~= s.subrange(i0, self.cursor()));
                }
                while !self.is_at_end() && is_digit_char(self.peek())
                    invariant
                        self.wf(),
                        self.source_model() == s,
                        self.errors@ == e0,
                        self.start == st0,
                        whole + 1 <= self.cursor() <= s.len(),
                        digits_end(s, whole + 1) == digits_end(s, self.cursor()),
                        value@ == s.subrange(i0, self.cursor()),
                    decreases s.len() - self.cursor(),
                {
                    proof {
                        assert(digits_end(s, self.cursor()) == digits_end(s, self.cursor() + 1));
                    }
                    let c = self.advance();
                    value.push(c);
                    proof {
                        assert(value@ =~= s.subrange(i0, self.cursor()));
                    }
                }
                proof {
                    assert(digits_end(s, self.cursor()) == self.cursor());
                }
                Token::Number(value)
            } else {
                self.errors.push(Diagnostic::InvalidNumber);
                let mut zero: Vec<char> = Vec::new();
                zero.push('0');
                proof {
                    assert(zero@ =~= seq!['0']);
                    assert(self.errors@ =~= e0 + seq![Diagnostic::InvalidNumber]);
                }
                Token::Number(zero)
            }
        } else {
            Token::Number(value)
        }
    }

    /// Scan an identifier or keyword; the cursor stands just past its first
    /// character, which `lexeme_start` marks.
    #[verifier::loop_isolation(false)]
    fn identifier(&mut self) -> (t: Token)
        requires
            old(self).wf(),
            old(self).lexeme_start() == old(self).cursor() - 1,
            0 <= old(self).lexeme_start() < old(self).source_model().len(),
            is_alpha(old(self).source_model()[old(self).lexeme_start()]),
        ensures
            final(self).wf(),
            final(self).source_model() == old(self).source_model(),
            final(self).lexeme_start() == old(self).lexeme_start(),
            final(self).diagnostics() == old(self).diagnostics(),
            ({
                let s = old(self).source_model();
                let i = old(self).lexeme_start();
                let end = ident_end(s, i);
                &&& t.deep_view() == keyword_or_identifier(s.subrange(i, end))
                &&& final(self).cursor() == end
            }),
    {
        let ghost s = self.source@;
        let ghost i0 = self.start as int;
        let ghost e0 = self.errors@;
        let ghost st0 = self.start;
        let mut value: Vec<char> = Vec::new();
        value.push(self.source[self.start]);
        proof {
            assert(value@ =~= s.subrange(i0, i0 + 1));
            assert(ident_end(s, i0) == ident_end(s, i0 + 1));
        }
        while !self.is_at_end() && is_alnum_char(self.peek())
            invariant
                self.wf(),
                self.source_model() == s,
                self.errors@ == e0,
                self.start == st0,
                i0 + 1 <= self.cursor() <= s.len(),
                ident_end(s, i0) == ident_end(s, self.cursor()),
                value@ == s.subrange(i0, self.cursor()),
            decreases s.len() - self.cursor(),
        {
            proof {
                assert(ident_end(s, self.cursor()) == ident_end(s, self.cursor() + 1));
            }
            let c = self.advance();
            value.push(c);
            proof {
                assert(value@ =~= s.subrange(i0, self.cursor()));
            }
        }
        proof {
            assert(ident_end(s, self.cursor()) == self.cursor());
        }
        keyword_token(value)
    }

    /// Scan one lexeme at the cursor: the emitted token, if the lexeme emits
    /// one.  Exactly the step [`scan_step`] describes.
    #[verifier::loop_isolation(false)]
    fn scan_token(&mut self) -> (t: Option<Token>)
        requires
            old(self).wf(),
            old(self).cursor() < old(self).source_model().len(),
            old(self).lexeme_start() == old(self).cursor(),
        ensures
            final(self).wf(),
            final(self).source_model() == old(self).source_model(),
            ({
                let st = scan_step(old(self).source_model(), old(self).cursor());
                &&& final(self).cursor() == st.next
                &&& final(self).diagnostics() == old(self).diagnostics() + st.diags
                &&& match (t, st.token) {
                    (Some(tok), Some(m)) => tok.deep_view() == m,
                    (None, None) => true,
                    _ => false,
                }
            }),
    {
        let ghost s = self.source@;
        let ghost i0 = self.current as int;
        let ghost e0 = self.errors@;
        proof {
            assert(e0 + Seq::<Diagnostic>::empty() =~= e0);
        }
        let c = self.advance();
        if c == '(' {
            Some(Token::LeftParen)
        } else if c == ')' {
            Some(Token::RightParen)
        } else if c == '{' {
            Some(Token::LeftBrace)
        } else if c == '}' {
            Some(Token::RightBrace)
        } else if c == ',' {
            Some(Token::Comma)
        } else if c == '.' {
            Some(Token::Dot)
        } else if c == '-' {
            Some(Token::Minus)
        } else if c == '+' {
            Some(Token::Plus)
        } else if c == ';' {
            Some(Token::Semicolon)
        } else if c == '*' {
            Some(Token::Star)
        } else if c == '/' {
            if self.peek() == '/' {
                // A line comment: skip to the end of the line.
                proof {
                    assert(line_end(s, i0 + 1) == line_end(s, i0 + 2));
                }
                while self.peek() != '\n' && !self.is_at_end()
                    invariant
                        self.wf(),
                        self.source_model() == s,
                        self.errors@ == e0,
                        i0 + 1 <= self.cursor() <= s.len(),
                        line_end(s, i0 + 1) == line_end(s, self.cursor()),
                    decreases s.len() - self.cursor(),
                {
                    proof {
                        assert(line_end(s, self.cursor()) == line_end(s, self.cursor() + 1));
                    }
                    let _ = self.advance();
                }
                proof {
                    assert(line_end(s, self.cursor()) == self.cursor());
                }
                None
            } else {
                Some(Token::Slash)
            }
        } else if c == ' ' || c == '\r' || c == '\t' || c == '\n' {
            None
        } else if c == '"' {
            Some(self.string())
        } else if is_digit_char(c) {
            Some(self.number())
        } else if is_alpha_char(c) {
            Some(self.identifier())
        } else {
            self.errors.push(Diagnostic::UnexpectedCharacter(c));
            proof {
                assert(self.errors@ =~= e0 + seq![Diagnostic::UnexpectedCharacter(c)]);
            }
            None
        }
    }

    /// Scan the whole source: the full token sequence of [`scan_model`],
    /// which always ends with exactly one end-of-stream token, while the
    /// diagnostics of the scan are appended to the lexer's record.
    #[verifier::loop_isolation(false)]
    pub fn scan_tokens(&mut self) -> (tokens: Vec<Token>)
        requires
            old(self).wf(),
        ensures
            final(self).wf(),
            final(self).source_model() == old(self).source_model(),
            tokens.deep_view() == scan_model(old(self).source_model(), old(self).cursor()).0,
            final(self).diagnostics() == old(self).diagnostics() + scan_model(
                old(self).source_model(),
                old(self).cursor(),
            ).1,
            tokens.deep_view().len() >= 1,
            tokens.deep_view().last() == TokenModel::EOF,
            forall|k: int|
                0 <= k < tokens.deep_view().len() - 1 ==> tokens.deep_view()[k]
                    != TokenModel::EOF,
    {
        let ghost s = self.source@;
        let ghost i0 = self.current as int;
        let ghost e0 = self.errors@;
        let mut tokens: Vec<Token> = Vec::new();
        proof {
            assert(tokens.deep_view() + scan_model(s, i0).0 =~= scan_model(s, i0).0);
        }
        while !self.is_at_end()
            invariant
                self.wf(),
                self.source_model() == s,
                tokens.deep_view() + scan_model(s, self.cursor()).0 == scan_model(s, i0).0,
                self.errors@ + scan_model(s, self.cursor()).1 == e0 + scan_model(s, i0).1,
            decreases s.len() - self.cursor(),
        {
            self.start = self.current;
            let ghost i = self.cursor();
            let ghost toks_before = tokens.deep_view();
            let ghost errs_before = self.errors@;
            let t = self.scan_token();
            let ghost st = scan_step(s, i);
            proof {
                lemma_scan_step_bounds(s, i);
            }
            match t {
                Some(tok) => {
                    tokens.push(tok);
                    proof {
                        assert(tokens.deep_view() =~= toks_before + seq![st.token->0]);
                        assert((toks_before + seq![st.token->0]) + scan_model(s, st.next).0
                            =~= toks_before + (seq![st.token->0] + scan_model(s, st.next).0));
                    }
                },
                None => {},
            }
            proof {
                assert((errs_before + st.diags) + scan_model(s, st.next).1 =~= errs_before + (
                st.diags + scan_model(s, st.next).1));
            }
        }
        proof {
            assert(scan_model(s, self.cursor()).0 =~= seq![TokenModel::EOF]);
            assert(scan_model(s, self.cursor()).1 =~= Seq::<Diagnostic>::empty());
            assert(self.errors@ + Seq::<Diagnostic>::empty() =~= self.errors@);
        }
        tokens.push(Token::EOF);
        proof {
            assert(tokens.deep_view() =~= scan_model(s, i0).0);
            lemma_scan_model_ends_eof(s, i0);
        }
        tokens
    }

    /// The diagnostics recorded so far, oldest first.
    pub fn errors(&self) -> (r: &Vec<Diagnostic>)
        ensures
            r@ == self.diagnostics(),
    {
        &self.errors
    }
}

/// Decimal digits, executably.
fn is_digit_char(c: char) -> (r: bool)
    ensures
        r == is_digit(c),
{
    c >= '0' && c <= '9'
}

/// Identifier head characters, executably.
fn is_alpha_char(c: char) -> (r: bool)
    ensures
        r == is_alpha(c),
{
    (c >= 'a' && c <= 'z') || (c >= 'A' && c <= 'Z') || c == '_'
}

/// Identifier continuation characters, executably.
fn is_alnum_char(c: char) -> (r: bool)
    ensures
        r == is_alnum(c),
{
    is_alpha_char(c) || is_digit_char(c)
}

} // verus!
