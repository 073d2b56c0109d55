//! The lexer: scans source text into an ordered token sequence.
//!
//! `spec_tokenize` is the mathematical definition of the scan; `Tokenizer`
//! produces exactly that sequence, or reports the lexical error that the
//! definition yields.

use vstd::prelude::*;

use crate::chars::alnum_char;
use crate::chars::alpha_char;
use crate::chars::digit_char;
use crate::chars::is_alnum;
use crate::chars::is_alpha;
use crate::chars::is_digit;
use crate::chars::is_whitespace;
use crate::chars::chars_to_string;
use crate::chars::string_to_chars;
use crate::chars::whitespace_char;

verus! {

#[derive(Debug, PartialEq, Eq, Structural, Clone, Copy)]
pub enum TokenType {
    TokenTypeEntryPoint,
    TokenTypeExit,
    TokenTypeIntegerLiteral,
    TokenTypeSemicolon,
    TokenTypeEquals,
    TokenTypeIdentifier,
    TokenTypeTypeI32S,
    TokenTypeTypeF32S,
    TokenTypeTypeBool,
    TokenTypeFloatLiteral,
    TokenTypeBooleanLiteral,
    TokenTypeFor,
    TokenTypeForIn,
    TokenTypeForTo,
    TokenTypeLeftCurlyBrace,
    TokenTypeRightCurlyBrace,
    TokenTypePlus,
    TokenTypeMinus,
    TokenTypeMultiply,
    TokenTypeDivide,
    TokenTypeLessThan,
    TokenTypeLessThanOrEqual,
    TokenTypeGreaterThan,
    TokenTypeGreaterThanOrEqual,
    TokenTypeEqualsEquals,
    TokenTypeNotEquals,
    TokenTypeLeftParen,
    TokenTypeRightParen,
}

/// A token: its kind, plus the source text for literals and identifiers.
#[derive(Debug, PartialEq)]
pub struct Token {
    pub token_type: TokenType,
    pub value: Option<String>,
}

/// Mathematical image of a [`Token`]: the payload is a character sequence.
pub struct TokenV {
    pub token_type: TokenType,
    pub value: Option<Seq<char>>,
}

impl View for Token {
    type V = TokenV;

    open spec fn view(&self) -> TokenV {
        TokenV {
            token_type: self.token_type,
            value: match self.value {
                Some(s) => Some(s@),
                None => None,
            },
        }
    }
}

/// A lexical error. Lexical errors are fatal: the whole scan is abandoned.
#[derive(Debug, PartialEq, Eq, Structural, Clone, Copy)]
pub enum LexError {
    /// A character that begins no token.
    UnexpectedCharacter(char),
    /// `!` not followed by `=`.
    LoneExclamation,
}

/// `len - i`, clamped at zero: the length of input still unread.
pub open spec fn remaining(len: int, i: int) -> nat {
    if len - i >= 0 {
        (len - i) as nat
    } else {
        0
    }
}

/// First position at or after `i` whose character is not alphanumeric.
pub open spec fn alnum_end(s: Seq<char>, i: int) -> int
    decreases remaining(s.len() as int, i),
{
    if 0 <= i && i < s.len() && is_alnum(s[i]) {
        alnum_end(s, i + 1)
    } else {
        i
    }
}

/// First position at or after `i` whose character is not a digit.
pub open spec fn digit_end(s: Seq<char>, i: int) -> int
    decreases remaining(s.len() as int, i),
{
    if 0 <= i && i < s.len() && is_digit(s[i]) {
        digit_end(s, i + 1)
    } else {
        i
    }
}

pub proof fn lemma_alnum_end_bounds(s: Seq<char>, i: int)
    requires
        0 <= i <= s.len(),
    ensures
        i <= alnum_end(s, i) <= s.len(),
    decreases s.len() - i,
{
    if i < s.len() && is_alnum(s[i]) {
        lemma_alnum_end_bounds(s, i + 1);
    }
}

pub proof fn lemma_digit_end_bounds(s: Seq<char>, i: int)
    requires
        0 <= i <= s.len(),
    ensures
        i <= digit_end(s, i) <= s.len(),
    decreases s.len() - i,
{
    if i < s.len() && is_digit(s[i]) {
        lemma_digit_end_bounds(s, i + 1);
    }
}

/// A token without payload.
pub open spec fn tv(t: TokenType) -> TokenV {
    TokenV { token_type: t, value: None }
}

/// A token carrying the given source text.
pub open spec fn tval(t: TokenType, w: Seq<char>) -> TokenV {
    TokenV { token_type: t, value: Some(w) }
}

/// Classification of a scanned alphanumeric word: one of the fixed keywords,
/// a boolean literal, or an identifier carrying its text.
pub open spec fn classify_word(w: Seq<char>) -> TokenV {
    if w == seq!['e', 'x', 'i', 't'] {
        tv(TokenType::TokenTypeExit)
    } else if w == seq!['i', '3', '2'] {
        tv(TokenType::TokenTypeTypeI32S)
    } else if w == seq!['f', '3', '2'] {
        tv(TokenType::TokenTypeTypeF32S)
    } else if w == seq!['b', 'o', 'o', 'l'] {
        tv(TokenType::TokenTypeTypeBool)
    } else if w == seq!['t', 'r', 'u', 'e'] {
        tval(TokenType::TokenTypeBooleanLiteral, w)
    } else if w == seq!['f', 'a', 'l', 's', 'e'] {
        tval(TokenType::TokenTypeBooleanLiteral, w)
    } else if w == seq!['f', 'o', 'r'] {
        tv(TokenType::TokenTypeFor)
    } else if w == seq!['i', 'n'] {
        tv(TokenType::TokenTypeForIn)
    } else if w == seq!['t', 'o'] {
        tv(TokenType::TokenTypeForTo)
    } else {
        tval(TokenType::TokenTypeIdentifier, w)
    }
}

/// Prepends a token to a scan result, keeping an error as it is.
pub open spec fn scan_cons(t: TokenV, rest: Result<Seq<TokenV>, LexError>) -> Result<
    Seq<TokenV>,
    LexError,
> {
    match rest {
        Ok(ts) => Ok(seq![t] + ts),
        Err(e) => Err(e),
    }
}

/// The scan of `s` from position `i` on: longest-match, left-to-right, with
/// one-character lookahead for the two-character operators. A digit run
/// followed by `.` and more digits is one float literal; a `.` with no digit
/// after it is left for the next step, where it is a fatal error. Whitespace
/// yields no token. An unrecognized character, or `!` without `=`, is fatal.
pub open spec fn spec_scan(s: Seq<char>, i: int) -> Result<Seq<TokenV>, LexError>
    decreases remaining(s.len() as int, i), 0int,
{
    if !(0 <= i && i < s.len()) {
        Ok(Seq::empty())
    } else {
        let c = s[i];
        if is_alpha(c) {
            let j = alnum_end(s, i + 1);
            proof {
                lemma_alnum_end_bounds(s, i + 1);
            }
            scan_cons(classify_word(s.subrange(i, j)), spec_scan(s, j))
        } else if is_digit(c) {
            let j = digit_end(s, i + 1);
            proof {
                lemma_digit_end_bounds(s, i + 1);
            }
            if j + 1 < s.len() && s[j] == '.' && is_digit(s[j + 1]) {
                let k = digit_end(s, j + 1);
                proof {
                    lemma_digit_end_bounds(s, j + 1);
                }
                scan_cons(tval(TokenType::TokenTypeFloatLiteral, s.subrange(i, k)), spec_scan(s, k))
            } else {
                scan_cons(
                    tval(TokenType::TokenTypeIntegerLiteral, s.subrange(i, j)),
                    spec_scan(s, j),
                )
            }
        } else if c == ';' {
            scan_cons(tv(TokenType::TokenTypeSemicolon), spec_scan(s, i + 1))
        } else if c == '=' {
            if i + 1 < s.len() && s[i + 1] == '=' {
                scan_cons(tv(TokenType::TokenTypeEqualsEquals), spec_scan(s, i + 2))
            } else {
                scan_cons(tv(TokenType::TokenTypeEquals), spec_scan(s, i + 1))
            }
        } else if c == '!' {
            if i + 1 < s.len() && s[i + 1] == '=' {
                scan_cons(tv(TokenType::TokenTypeNotEquals), spec_scan(s, i + 2))
            } else {
                Err(LexError::LoneExclamation)
            }
        } else if c == '<' {
            if i + 1 < s.len() && s[i + 1] == '=' {
                scan_cons(tv(TokenType::TokenTypeLessThanOrEqual), spec_scan(s, i + 2))
            } else {
                scan_cons(tv(TokenType::TokenTypeLessThan), spec_scan(s, i + 1))
            }
        } else if c == '>' {
            if i + 1 < s.len() && s[i + 1] == '=' {
                scan_cons(tv(TokenType::TokenTypeGreaterThanOrEqual), spec_scan(s, i + 2))
            } else {
                scan_cons(tv(TokenType::TokenTypeGreaterThan), spec_scan(s, i + 1))
            }
        } else if c == '+' {
            scan_cons(tv(TokenType::TokenTypePlus), spec_scan(s, i + 1))
        } else if c == '-' {
            scan_cons(tv(TokenType::TokenTypeMinus), spec_scan(s, i + 1))
        } else if c == '*' {
            scan_cons(tv(TokenType::TokenTypeMultiply), spec_scan(s, i + 1))
        } else if c == '/' {
            scan_cons(tv(TokenType::TokenTypeDivide), spec_scan(s, i + 1))
        } else if c == '(' {
            scan_cons(tv(TokenType::TokenTypeLeftParen), spec_scan(s, i + 1))
        } else if c == ')' {
            scan_cons(tv(TokenType::TokenTypeRightParen), spec_scan(s, i + 1))
        } else if c == '{' {
            scan_cons(tv(TokenType::TokenTypeLeftCurlyBrace), spec_scan(s, i + 1))
        } else if c == '}' {
            scan_cons(tv(TokenType::TokenTypeRightCurlyBrace), spec_scan(s, i + 1))
        } else if is_whitespace(c) {
            spec_scan(s, i + 1)
        } else {
            Err(LexError::UnexpectedCharacter(c))
        }
    }
}

/// The whole token sequence of `s` scanned from position `i`: a synthetic
/// entry marker, then the scanned tokens; or the scan's fatal error.
pub open spec fn spec_tokenize(s: Seq<char>, i: int) -> Result<Seq<TokenV>, LexError> {
    scan_cons(tv(TokenType::TokenTypeEntryPoint), spec_scan(s, i))
}

/// The views of a token sequence.
pub open spec fn toks_view(ts: Seq<Token>) -> Seq<TokenV> {
    Seq::new(ts.len(), |i: int| ts[i]@)
}

/// Appends `done` in front of a scan result, keeping an error as it is.
pub open spec fn scan_concat(done: Seq<TokenV>, rest: Result<Seq<TokenV>, LexError>) -> Result<
    Seq<TokenV>,
    LexError,
> {
    match rest {
        Ok(ts) => Ok(done + ts),
        Err(e) => Err(e),
    }
}

proof fn lemma_view_push(ts: Seq<Token>, t: Token)
    ensures
        toks_view(ts.push(t)) == toks_view(ts).push(t@),
{
    assert(toks_view(ts.push(t)) =~= toks_view(ts).push(t@));
}

proof fn lemma_scan_concat_step(done: Seq<TokenV>, t: TokenV, rest: Result<Seq<TokenV>, LexError>)
    ensures
        scan_concat(done.push(t), rest) == scan_concat(done, scan_cons(t, rest)),
{
    match rest {
        Ok(ts) => {
            assert(done.push(t) + ts =~= done + (seq![t] + ts));
        },
        Err(_) => {},
    }
}

/// Mathematical image of a [`Tokenizer`]: the input characters and the scan
/// position.
pub struct TokenizerV {
    pub chars: Seq<char>,
    pub index: int,
}

/// Scans source text, one character at a time, into tokens.
pub struct Tokenizer {
    chars: Vec<char>,
    index: usize,
}

impl View for Tokenizer {
    type V = TokenizerV;

    closed spec fn view(&self) -> TokenizerV {
        TokenizerV { chars: self.chars@, index: self.index as int }
    }
}

impl Tokenizer {
    /// A tokenizer at the start of the given source text.
    pub fn new(input_string: String) -> (r: Self)
        ensures
            r@.chars == input_string@,
            r@.index == 0,
    {
        Self { chars: string_to_chars(input_string.as_str()), index: 0 }
    }

    /// The character at the scan position, if any is left.
    pub fn current(&mut self) -> (r: Option<char>)
        ensures
            *final(self) == *old(self),
            r == if old(self)@.index < old(self)@.chars.len() {
                Some(old(self)@.chars[old(self)@.index])
            } else {
                None::<char>
            },
    {
        if self.index < self.chars.len() {
            Some(self.chars[self.index])
        } else {
            None
        }
    }

    /// Whether the whole input has been scanned.
    pub fn is_at_end(&self) -> (r: bool)
        ensures
            r == (self@.index >= self@.chars.len()),
    {
        self.index >= self.chars.len()
    }

    /// Reads the character at the scan position and advances past it.
    pub fn consume(&mut self) -> (c: char)
        requires
            old(self)@.index < old(self)@.chars.len(),
        ensures
            final(self)@.chars == old(self)@.chars,
            final(self)@.index == old(self)@.index + 1,
            c == old(self)@.chars[old(self)@.index],
    {
        let c: char = self.chars[self.index];
        proof {
            assert(self.chars.len() == self.chars@.len());
        }
        self.index += 1;
        c
    }

    /// Scans the rest of the input into the token sequence that
    /// [`spec_tokenize`] defines, or stops at the first lexical error.
    #[verifier::loop_isolation(false)]
    pub fn tokenize(&mut self) -> (r: Result<Vec<Token>, LexError>)
        ensures
            final(self)@.chars == old(self)@.chars,
            match r {
                Ok(toks) => Ok::<_, LexError>(toks_view(toks@)) == spec_tokenize(
                    old(self)@.chars,
                    old(self)@.index,
                ) && final(self)@.index >= final(self)@.chars.len(),
                Err(e) => spec_tokenize(old(self)@.chars, old(self)@.index) == Err::<
                    Seq<TokenV>,
                    _,
                >(e),
            },
    {
        let ghost s: Seq<char> = self.chars@;
        let ghost i0: int = self.index as int;
        let mut tokens: Vec<Token> = Vec::new();

        tokens.push(Token { token_type: TokenType::TokenTypeEntryPoint, value: None });
        proof {
            assert(toks_view(tokens@) =~= seq![tv(TokenType::TokenTypeEntryPoint)]);
            match spec_scan(s, i0) {
                Ok(ts) => {
                    assert(seq![tv(TokenType::TokenTypeEntryPoint)] + ts =~= seq![
                        tv(TokenType::TokenTypeEntryPoint),
                    ] + ts);
                },
                Err(_) => {},
            }
        }

        while !self.is_at_end()
            invariant
                self@.chars == s,
                scan_concat(toks_view(tokens@), spec_scan(s, self@.index)) == spec_tokenize(s, i0),
            decreases s.len() - self@.index,
        {
            if let Some(e) = self.scan_step(&mut tokens) {
                return Err(e);
            }
        }
        proof {
            match spec_scan(s, self@.index) {
                Ok(ts) => {
                    assert(toks_view(tokens@) + ts =~= toks_view(tokens@));
                },
                Err(_) => {},
            }
        }
        Ok(tokens)
    }

    /// Scans one step: a whole token, or one stretch of whitespace, or the
    /// fatal error at this position.
    fn scan_step(&mut self, tokens: &mut Vec<Token>) -> (r: Option<LexError>)
        requires
            old(self)@.index < old(self)@.chars.len(),
        ensures
            final(self)@.chars == old(self)@.chars,
            final(self)@.index <= final(self)@.chars.len(),
            match r {
                None => old(self)@.index < final(self)@.index && scan_concat(
                    toks_view(final(tokens)@),
                    spec_scan(old(self)@.chars, final(self)@.index),
                ) == scan_concat(
                    toks_view(old(tokens)@),
                    spec_scan(old(self)@.chars, old(self)@.index),
                ),
                Some(e) => spec_scan(old(self)@.chars, old(self)@.index) == Err::<
                    Seq<TokenV>,
                    _,
                >(e),
            },
    {
        let ghost s: Seq<char> = self.chars@;
        let ghost i: int = self.index as int;
        let c: char = self.chars[self.index];

        if alpha_char(c) {
            self.scan_word(tokens);
            None
        } else if digit_char(c) {
            self.scan_number(tokens);
            None
        } else if whitespace_char(c) {
            self.consume();
            None
        } else {
            self.scan_operator(tokens)
        }
    }

    /// Scans an alphanumeric word beginning at the current (alphabetic)
    /// character and appends its classification.
    #[verifier::loop_isolation(false)]
    fn scan_word(&mut self, tokens: &mut Vec<Token>)
        requires
            old(self)@.index < old(self)@.chars.len(),
            is_alpha(old(self)@.chars[old(self)@.index]),
        ensures
            final(self)@.chars == old(self)@.chars,
            old(self)@.index < final(self)@.index,
            final(self)@.index <= final(self)@.chars.len(),
            scan_concat(
                toks_view(final(tokens)@),
                spec_scan(old(self)@.chars, final(self)@.index),
            ) == scan_concat(
                toks_view(old(tokens)@),
                spec_scan(old(self)@.chars, old(self)@.index),
            ),
    {
        let ghost s: Seq<char> = self.chars@;
        let ghost i: int = self.index as int;

        let mut buffer: Vec<char> = Vec::new();
        buffer.push(self.consume());
        proof {
            lemma_alnum_end_bounds(s, i + 1);
            assert(buffer@ =~= s.subrange(i, i + 1));
        }
        while self.index < self.chars.len() && alnum_char(self.chars[self.index])
            invariant
                self@.chars == s,
                i + 1 <= self@.index <= s.len(),
                buffer@ == s.subrange(i, self@.index),
                alnum_end(s, self@.index) == alnum_end(s, i + 1),
            decreases s.len() - self@.index,
        {
            let ghost before: int = self@.index;
            buffer.push(self.consume());
            proof {
                assert(buffer@ =~= s.subrange(i, before + 1));
            }
        }
        proof {
            assert(alnum_end(s, self@.index) == self@.index);
        }
        let token = self.classify_word(&buffer);
        proof {
            lemma_scan_concat_step(toks_view(tokens@), token@, spec_scan(s, self@.index));
            lemma_view_push(tokens@, token);
        }
        tokens.push(token);
    }

    /// Scans an integer or float literal beginning at the current (digit)
    /// character and appends the literal token carrying its text.
    #[verifier::loop_isolation(false)]
    fn scan_number(&mut self, tokens: &mut Vec<Token>)
        requires
            old(self)@.index < old(self)@.chars.len(),
            is_digit(old(self)@.chars[old(self)@.index]),
            !is_alpha(old(self)@.chars[old(self)@.index]),
        ensures
            final(self)@.chars == old(self)@.chars,
            old(self)@.index < final(self)@.index,
            final(self)@.index <= final(self)@.chars.len(),
            scan_concat(
                toks_view(final(tokens)@),
                spec_scan(old(self)@.chars, final(self)@.index),
            ) == scan_concat(
                toks_view(old(tokens)@),
                spec_scan(old(self)@.chars, old(self)@.index),
            ),
    {
        let ghost s: Seq<char> = self.chars@;
        let ghost i: int = self.index as int;

        let mut buffer: Vec<char> = Vec::new();
        buffer.push(self.consume());
        proof {
            lemma_digit_end_bounds(s, i + 1);
            assert(buffer@ =~= s.subrange(i, i + 1));
        }
        while self.index < self.chars.len() && digit_char(self.chars[self.index])
            invariant
                self@.chars == s,
                i + 1 <= self@.index <= s.len(),
                buffer@ == s.subrange(i, self@.index),
                digit_end(s, self@.index) == digit_end(s, i + 1),
            decreases s.len() - self@.index,
        {
            let ghost before: int = self@.index;
            buffer.push(self.consume());
            proof {
                assert(buffer@ =~= s.subrange(i, before + 1));
            }
        }
        proof {
            assert(digit_end(s, self@.index) == self@.index);
        }
        let ghost j: int = self@.index;
        if self.index < self.chars.len() && self.chars[self.index] == '.' && self.index + 1
            < self.chars.len() && digit_char(self.chars[self.index + 1]) {
            buffer.push(self.consume());
            proof {
                lemma_digit_end_bounds(s, j + 1);
                assert(buffer@ =~= s.subrange(i, j + 1));
            }
            while self.index < self.chars.len() && digit_char(self.chars[self.index])
                invariant
                    self@.chars == s,
                    j + 1 <= self@.index <= s.len(),
                    buffer@ == s.subrange(i, self@.index),
                    digit_end(s, self@.index) == digit_end(s, j + 1),
                decreases s.len() - self@.index,
            {
                let ghost before: int = self@.index;
                buffer.push(self.consume());
                proof {
                    assert(buffer@ =~= s.subrange(i, before + 1));
                }
            }
            proof {
                assert(digit_end(s, self@.index) == self@.index);
            }
            let token = Token {
                token_type: TokenType::TokenTypeFloatLiteral,
                value: Some(chars_to_string(&buffer)),
            };
            proof {
                lemma_scan_concat_step(toks_view(tokens@), token@, spec_scan(s, self@.index));
                lemma_view_push(tokens@, token);
            }
            tokens.push(token);
        } else {
            let token = Token {
                token_type: TokenType::TokenTypeIntegerLiteral,
                value: Some(chars_to_string(&buffer)),
            };
            proof {
                lemma_scan_concat_step(toks_view(tokens@), token@, spec_scan(s, self@.index));
                lemma_view_push(tokens@, token);
            }
            tokens.push(token);
        }
    }

    /// Scans the operator or punctuation mark at the current character, with
    /// one-character lookahead for the two-character forms, or reports the
    /// fatal error there.
    fn scan_operator(&mut self, tokens: &mut Vec<Token>) -> (r: Option<LexError>)
        requires
            old(self)@.index < old(self)@.chars.len(),
            !is_alpha(old(self)@.chars[old(self)@.index]),
            !is_digit(old(self)@.chars[old(self)@.index]),
            !is_whitespace(old(self)@.chars[old(self)@.index]),
        ensures
            final(self)@.chars == old(self)@.chars,
            final(self)@.index <= final(self)@.chars.len(),
            match r {
                None => old(self)@.index < final(self)@.index && scan_concat(
                    toks_view(final(tokens)@),
                    spec_scan(old(self)@.chars, final(self)@.index),
                ) == scan_concat(
                    toks_view(old(tokens)@),
                    spec_scan(old(self)@.chars, old(self)@.index),
                ),
                Some(e) => spec_scan(old(self)@.chars, old(self)@.index) == Err::<
                    Seq<TokenV>,
                    _,
                >(e),
            },
    {
        let c: char = self.chars[self.index];
        if c == ';' {
            self.consume();
            push_plain(tokens, TokenType::TokenTypeSemicolon);
            None
        } else if c == '=' {
            self.consume();
            if self.current() == Some('=') {
                self.consume();
                push_plain(tokens, TokenType::TokenTypeEqualsEquals);
            } else {
                push_plain(tokens, TokenType::TokenTypeEquals);
            }
            None
        } else if c == '!' {
            self.consume();
            if self.current() == Some('=') {
                self.consume();
                push_plain(tokens, TokenType::TokenTypeNotEquals);
                None
            } else {
                Some(LexError::LoneExclamation)
            }
        } else if c == '<' {
            self.consume();
            if self.current() == Some('=') {
                self.consume();
                push_plain(tokens, TokenType::TokenTypeLessThanOrEqual);
            } else {
                push_plain(tokens, TokenType::TokenTypeLessThan);
            }
            None
        } else if c == '>' {
            self.consume();
            if self.current() == Some('=') {
                self.consume();
                push_plain(tokens, TokenType::TokenTypeGreaterThanOrEqual);
            } else {
                push_plain(tokens, TokenType::TokenTypeGreaterThan);
            }
            None
        } else if c == '+' {
            self.consume();
            push_plain(tokens, TokenType::TokenTypePlus);
            None
        } else if c == '-' {
            self.consume();
            push_plain(tokens, TokenType::TokenTypeMinus);
            None
        } else if c == '*' {
            self.consume();
            push_plain(tokens, TokenType::TokenTypeMultiply);
            None
        } else if c == '/' {
            self.consume();
            push_plain(tokens, TokenType::TokenTypeDivide);
            None
        } else if c == '(' {
            self.consume();
            push_plain(tokens, TokenType::TokenTypeLeftParen);
            None
        } else if c == ')' {
            self.consume();
            push_plain(tokens, TokenType::TokenTypeRightParen);
            None
        } else if c == '{' {
            self.consume();
            push_plain(tokens, TokenType::TokenTypeLeftCurlyBrace);
            None
        } else if c == '}' {
            self.consume();
            push_plain(tokens, TokenType::TokenTypeRightCurlyBrace);
            None
        } else {
            Some(LexError::UnexpectedCharacter(c))
        }
    }

    /// The token for a scanned word: a keyword, a boolean literal or an
    /// identifier, as [`classify_word`] defines.
    fn classify_word(&self, buffer: &Vec<char>) -> (t: Token)
        ensures
            t@ == classify_word(buffer@),
    {
        let b = buffer;
        if b.len() == 4 && b[0] == 'e' && b[1] == 'x' && b[2] == 'i' && b[3] == 't' {
            proof {
                assert(b@ =~= seq!['e', 'x', 'i', 't']);
            }
            Token { token_type: TokenType::TokenTypeExit, value: None }
        } else if b.len() == 3 && b[0] == 'i' && b[1] == '3' && b[2] == '2' {
            proof {
                assert(b@ =~= seq!['i', '3', '2']);
            }
            Token { token_type: TokenType::TokenTypeTypeI32S, value: None }
        } else if b.len() == 3 && b[0] == 'f' && b[1] == '3' && b[2] == '2' {
            proof {
                assert(b@ =~= seq!['f', '3', '2']);
            }
            Token { token_type: TokenType::TokenTypeTypeF32S, value: None }
        } else if b.len() == 4 && b[0] == 'b' && b[1] == 'o' && b[2] == 'o' && b[3] == 'l' {
            proof {
                assert(b@ =~= seq!['b', 'o', 'o', 'l']);
            }
            Token { token_type: TokenType::TokenTypeTypeBool, value: None }
        } else if b.len() == 4 && b[0] == 't' && b[1] == 'r' && b[2] == 'u' && b[3] == 'e' {
            proof {
                assert(b@ =~= seq!['t', 'r', 'u', 'e']);
            }
            Token { token_type: TokenType::TokenTypeBooleanLiteral, value: Some(chars_to_string(b)) }
        } else if b.len() == 5 && b[0] == 'f' && b[1] == 'a' && b[2] == 'l' && b[3] == 's' && b[4]
            == 'e' {
            proof {
                assert(b@ =~= seq!['f', 'a', 'l', 's', 'e']);
            }
            Token { token_type: TokenType::TokenTypeBooleanLiteral, value: Some(chars_to_string(b)) }
        } else if b.len() == 3 && b[0] == 'f' && b[1] == 'o' && b[2] == 'r' {
            proof {
                assert(b@ =~= seq!['f', 'o', 'r']);
            }
            Token { token_type: TokenType::TokenTypeFor, value: None }
        } else if b.len() == 2 && b[0] == 'i' && b[1] == 'n' {
            proof {
                assert(b@ =~= seq!['i', 'n']);
            }
            Token { token_type: TokenType::TokenTypeForIn, value: None }
        } else if b.len() == 2 && b[0] == 't' && b[1] == 'o' {
            proof {
                assert(b@ =~= seq!['t', 'o']);
            }
            Token { token_type: TokenType::TokenTypeForTo, value: None }
        } else {
            Token { token_type: TokenType::TokenTypeIdentifier, value: Some(chars_to_string(b)) }
        }
    }
}

/// Appends a payload-free token for the operator or punctuation mark that
/// was just consumed.
fn push_plain(tokens: &mut Vec<Token>, t: TokenType)
    ensures
        forall|rest: Result<Seq<TokenV>, LexError>| #[trigger] scan_concat(
            toks_view(final(tokens)@),
            rest,
        ) == scan_concat(toks_view(old(tokens)@), scan_cons(tv(t), rest)),
{
    let token = Token { token_type: t, value: None };
    proof {
        lemma_view_push(tokens@, token);
        assert forall|rest: Result<Seq<TokenV>, LexError>| #[trigger] scan_concat(
            toks_view(tokens@.push(token)),
            rest,
        ) == scan_concat(toks_view(tokens@), scan_cons(tv(t), rest)) by {
            lemma_scan_concat_step(toks_view(tokens@), tv(t), rest);
        }
    }
    tokens.push(token);
}

} // verus!
