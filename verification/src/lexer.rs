//! The scanner.

use vstd::prelude::*;
use vstd::string::StringSliceAdditionalSpecFns;
use crate::chars::{
    ascii_digit, ident_continue, ident_start, is_ascii_digit, is_ident_continue, is_ident_start,
    is_radix_digit, is_whitespace, radix_digit, whitespace, digit_value_of,
};
use crate::error::{LexError, LexErrorKind};
use crate::lexspec::{
    Scan,
    at, digits_end, escape, ident_end, line_end, number, operator, radix_number, scan,
    scanned_token, span_of, string_body, trivia_end, word_kind, lemma_digits_end, lemma_ident_end,
    lemma_line_end, lemma_trivia_end, error_at, fraction, exponent_end, decimal_number, token_at, lemma_skip_step, lemma_escape_invalid, lemma_escape_bad_hex,
    integer_token, strip_underscores, lemma_escape_end, lemma_string_end, lemma_scan_progress,
};
use crate::numbers::{digits_to_i64, strip_separators};
use crate::span::Span;
use crate::text::{
    byte_len, byte_offset, chars_of, lemma_byte_len_encoding, lemma_byte_offset_mono, push_char,
    string_from_chars, utf8_width,
};
use crate::token::{KindView, Token, TokenKind, keyword_from_chars};

verus! {

/// A hand-written scanner over a source text.
///
/// The lexer never panics and never stops early: recoverable problems are
/// recorded (see [`Lexer::errors`]) and scanning continues, so that a single run
/// reports every lexical error in a file.
pub struct Lexer {
    /// The source, one entry per character.
    chars: Vec<char>,
    /// Index in `chars` of the next character to be consumed.
    idx: usize,
    /// Byte offset of the next character to be consumed.
    pos: usize,
    /// Set once `Eof` has been produced.
    finished: bool,
    errors: Vec<LexError>,
}

impl Lexer {
    /// The internal consistency every lexer keeps.
    pub closed spec fn wf(&self) -> bool {
        &&& self.idx <= self.chars.len()
        &&& self.pos == byte_offset(self.chars@, self.idx as int)
        &&& byte_len(self.chars@) <= u32::MAX
        &&& self.finished ==> self.idx == self.chars.len()
    }

    /// The characters being scanned.
    pub closed spec fn source(&self) -> Seq<char> {
        self.chars@
    }

    /// Index of the next character to be consumed.
    pub closed spec fn position(&self) -> int {
        self.idx as int
    }

    /// Whether `Eof` has been handed out.
    pub closed spec fn is_finished(&self) -> bool {
        self.finished
    }

    /// The errors reported so far, in order.
    pub closed spec fn reported(&self) -> Seq<LexError> {
        self.errors@
    }

    /// Decreases with every token handed out.
    pub closed spec fn remaining(&self) -> int {
        (self.chars.len() - self.idx) + if self.finished { 0int } else { 1int }
    }

    /// A consistent lexer stands inside its source, at its end once finished.
    pub proof fn lemma_position(&self)
        requires
            self.wf(),
        ensures
            0 <= self.position() <= self.source().len(),
            self.is_finished() ==> self.position() == self.source().len(),
            self.remaining() >= 0,
    {
    }

    spec fn same_text(&self, other: &Lexer) -> bool {
        &&& self.chars@ == other.chars@
        &&& self.finished == other.finished
    }

    pub fn new(src: &str) -> (r: Lexer)
        requires
            src.spec_bytes().len() <= u32::MAX,
        ensures
            r.wf(),
            r.source() == src@,
            r.position() == 0,
            !r.is_finished(),
            r.reported() == Seq::<LexError>::empty(),
    {
        let chars = chars_of(src);
        proof {
            lemma_byte_len_encoding(src@);
        }
        Lexer { chars, idx: 0, pos: 0, finished: false, errors: Vec::new() }
    }

    pub fn errors(&self) -> (r: &[LexError])
        ensures
            r@ == self.reported(),
    {
        self.errors.as_slice()
    }

    pub fn into_errors(self) -> (r: Vec<LexError>)
        ensures
            r@ == self.reported(),
    {
        self.errors
    }

    // ---------------------------------------------------------------- cursor

    fn peek(&self) -> (r: Option<char>)
        requires
            self.wf(),
        ensures
            r == (if self.idx < self.chars.len() { Some(self.chars@[self.idx as int]) } else { None::<char> }),
    {
        if self.idx < self.chars.len() {
            Some(self.chars[self.idx])
        } else {
            None
        }
    }

    fn peek_at(&self, offset: usize) -> (r: Option<char>)
        requires
            self.wf(),
        ensures
            r == (if self.idx + offset < self.chars.len() {
                Some(self.chars@[self.idx + offset])
            } else {
                None::<char>
            }),
    {
        if offset < self.chars.len() - self.idx {
            Some(self.chars[self.idx + offset])
        } else {
            None
        }
    }

    fn bump(&mut self) -> (r: Option<char>)
        requires
            old(self).wf(),
            !old(self).finished,
        ensures
            final(self).wf(),
            old(self).idx <= final(self).idx,
            final(self).same_text(old(self)),
            final(self).errors == old(self).errors,
            old(self).idx < old(self).chars.len() ==> r == Some(old(self).chars@[old(self).idx as int])
                && final(self).idx == old(self).idx + 1,
            old(self).idx >= old(self).chars.len() ==> r is None && final(self).idx == old(self).idx,
    {
        if self.idx < self.chars.len() {
            let c = self.chars[self.idx];
            proof {
                lemma_byte_offset_mono(self.chars@, self.idx + 1, self.chars@.len() as int);
            }
            self.pos = self.pos + utf8_width(c);
            self.idx = self.idx + 1;
            Some(c)
        } else {
            None
        }
    }

    /// Consumes the next character if it equals `expected`.
    fn eat(&mut self, expected: char) -> (r: bool)
        requires
            old(self).wf(),
            !old(self).finished,
        ensures
            final(self).wf(),
            old(self).idx <= final(self).idx,
            final(self).same_text(old(self)),
            final(self).errors == old(self).errors,
            r == at(old(self).chars@, old(self).idx as int, expected),
            final(self).idx == old(self).idx + if r { 1int } else { 0int },
    {
        let hit = match self.peek() {
            Some(c) => c == expected,
            None => false,
        };
        if hit {
            self.bump();
        }
        hit
    }

    fn at_end(&self) -> (r: bool)
        requires
            self.wf(),
        ensures
            r == (self.idx >= self.chars.len()),
    {
        self.idx >= self.chars.len()
    }

    fn error(&mut self, kind: LexErrorKind, span: Span)
        ensures
            final(self).errors@ == old(self).errors@.push(LexError { kind, span }),
            final(self).chars == old(self).chars,
            final(self).idx == old(self).idx,
            final(self).pos == old(self).pos,
            final(self).finished == old(self).finished,
    {
        self.errors.push(LexError::new(kind, span));
    }

    /// The span from the character at `start` (byte offset `start_pos`) to the cursor.
    fn span_from(&self, start: usize, start_pos: usize) -> (r: Span)
        requires
            self.wf(),
            start <= self.idx,
            start_pos == byte_offset(self.chars@, start as int),
        ensures
            r == span_of(self.chars@, start as int, self.idx as int),
    {
        proof {
            lemma_byte_offset_mono(self.chars@, start as int, self.idx as int);
            lemma_byte_offset_mono(self.chars@, self.idx as int, self.chars@.len() as int);
        }
        Span::from_usize(start_pos, self.pos)
    }

    // ------------------------------------------------------------ whitespace

    #[verifier::spinoff_prover]
    /// Skips whitespace and `//` line comments until real content is reached.
    fn skip_trivia(&mut self)
        requires
            old(self).wf(),
            !old(self).finished,
        ensures
            final(self).wf(),
            old(self).idx <= final(self).idx,
            final(self).same_text(old(self)),
            final(self).errors == old(self).errors,
            final(self).idx == trivia_end(old(self).chars@, old(self).idx as int),
    {
        let ghost s = self.chars@;
        let ghost target = trivia_end(s, self.idx as int);
        proof {
            lemma_trivia_end(s, self.idx as int);
        }
        loop
            invariant
                self.wf(),
                !self.finished,
                s == old(self).chars@,
                target == trivia_end(s, old(self).idx as int),
                old(self).idx <= self.idx <= target,
                self.chars@ == s,
                self.finished == old(self).finished,
                self.errors == old(self).errors,
                trivia_end(s, self.idx as int) == target,
            decreases s.len() - self.idx,
        {
            let next = self.peek();
            let space = match next {
                Some(c) => is_whitespace(c),
                None => false,
            };
            if space {
                self.bump();
                proof {
                    lemma_trivia_end(s, self.idx as int);
                }
            } else {
                let comment = match (next, self.peek_at(1)) {
                    (Some(a), Some(b)) => a == '/' && b == '/',
                    _ => false,
                };
                if !comment {
                    return;
                }
                let ghost from = self.idx as int;
                proof {
                    lemma_line_end(s, from + 2);
                    assert(line_end(s, from + 1) == line_end(s, from + 2));
                    assert(line_end(s, from) == line_end(s, from + 1));
                    assert(trivia_end(s, from) == trivia_end(s, line_end(s, from + 2)));
                }
                loop
                    invariant
                        self.wf(),
                        !self.finished,
                        self.chars@ == s,
                        self.finished == old(self).finished,
                        self.errors == old(self).errors,
                        from <= self.idx <= line_end(s, from + 2),
                        line_end(s, self.idx as int) == line_end(s, from + 2),
                        line_end(s, from + 2) <= s.len(),
                        trivia_end(s, from) == trivia_end(s, line_end(s, from + 2)),
                    ensures
                        self.wf(),
                        !self.finished,
                        self.chars@ == s,
                        self.finished == old(self).finished,
                        self.errors == old(self).errors,
                        self.idx == line_end(s, from + 2),
                        trivia_end(s, from) == trivia_end(s, line_end(s, from + 2)),
                    decreases s.len() - self.idx,
                {
                    let more = match self.peek() {
                        Some(c) => c != '\n',
                        None => false,
                    };
                    if !more {
                        break;
                    }
                    self.bump();
                    proof {
                        lemma_line_end(s, self.idx as int);
                    }
                }
                proof {
                    lemma_trivia_end(s, self.idx as int);
                }
            }
        }
    }

    // ---------------------------------------------------------------- tokens

    #[verifier::spinoff_prover]
    /// Produces the next token. Returns `None` only after `Eof` has already
    /// been handed out.
    pub fn next_token(&mut self) -> (r: Option<Token>)
        requires
            old(self).wf(),
        ensures
            final(self).wf(),
            final(self).source() == old(self).source(),
            old(self).is_finished() ==> r is None && final(self).position() == old(self).position()
                && final(self).is_finished() && final(self).reported() == old(self).reported(),
            !old(self).is_finished() ==> {
                let sc = scan(old(self).source(), old(self).position());
                &&& r matches Some(t) && t@ == scanned_token(old(self).source(), sc)
                &&& final(self).position() == sc.end
                &&& final(self).is_finished() == (sc.kind == KindView::Fixed(TokenKind::Eof))
                &&& final(self).reported() == old(self).reported() + sc.errors
            },
            !old(self).is_finished() ==> final(self).remaining() < old(self).remaining(),
    {
        if self.finished {
            return None;
        }
        let ghost s = self.chars@;
        let ghost target = scan(s, self.idx as int);
        proof {
            lemma_scan_progress(s, self.idx as int);
        }
        // Loops (rather than recurses) so that a long run of invalid characters
        // cannot exhaust the stack.
        loop
            invariant
                self.wf(),
                !self.finished,
                self.chars@ == s,
                s == old(self).chars@,
                !old(self).finished,
                target == scan(s, old(self).idx as int),
                target.kind != KindView::Fixed(TokenKind::Eof) ==> old(self).idx < target.end,
                old(self).idx <= s.len(),
                scan(s, self.idx as int).kind == target.kind,
                scan(s, self.idx as int).start == target.start,
                scan(s, self.idx as int).end == target.end,
                self.errors@ + scan(s, self.idx as int).errors == old(self).errors@ + target.errors,
            decreases s.len() - self.idx,
        {
            let ghost i = self.idx as int;
            proof {
                lemma_trivia_end(s, i);
            }
            self.skip_trivia();
            if self.at_end() {
                self.finished = true;
                let end = self.pos;
                assert(self.errors@ + seq![] =~= self.errors@);
                return Some(Token::new(TokenKind::Eof, Span::from_usize(end, end)));
            }
            let start = self.idx;
            let start_pos = self.pos;
            let c = self.chars[self.idx];
            self.bump();
            let ghost before = self.errors@;
            match self.token_here(start, start_pos, c) {
                Some(kind) => {
                    let span = self.span_from(start, start_pos);
                    return Some(Token::new(kind, span));
                },
                None => {
                    let span = self.span_from(start, start_pos);
                    self.error(LexErrorKind::UnknownChar(c), span);
                    proof {
                        assert(start == trivia_end(s, i));
                        assert(self.idx == start + 1);
                        lemma_skip_step(s, i, before, LexError { kind: LexErrorKind::UnknownChar(c), span });
                    }
                    // Skip the offending character and keep scanning.
                },
            }
        }
    }

    /// The next token, as an iterator hands it out; the same as `next_token`.
    pub fn next(&mut self) -> (r: Option<Token>)
        requires
            old(self).wf(),
        ensures
            final(self).wf(),
            final(self).source() == old(self).source(),
            old(self).is_finished() ==> r is None && final(self).position() == old(self).position()
                && final(self).is_finished() && final(self).reported() == old(self).reported(),
            !old(self).is_finished() ==> {
                let sc = scan(old(self).source(), old(self).position());
                &&& r matches Some(t) && t@ == scanned_token(old(self).source(), sc)
                &&& final(self).position() == sc.end
                &&& final(self).is_finished() == (sc.kind == KindView::Fixed(TokenKind::Eof))
                &&& final(self).reported() == old(self).reported() + sc.errors
            },
            !old(self).is_finished() ==> final(self).remaining() < old(self).remaining(),
    {
        self.next_token()
    }

    /// Scans the token whose first character `c`, at index `start` (byte offset
    /// `start_pos`), has just been consumed; `None`, with nothing more consumed,
    /// when no token starts with `c`.
    fn token_here(&mut self, start: usize, start_pos: usize, c: char) -> (r: Option<TokenKind>)
        requires
            old(self).wf(),
            !old(self).finished,
            old(self).idx == start + 1,
            old(self).chars@[start as int] == c,
            start_pos == byte_offset(old(self).chars@, start as int),
        ensures
            final(self).wf(),
            final(self).same_text(old(self)),
            start < final(self).idx,
            match token_at(old(self).chars@, start as int) {
                Some(t) => r matches Some(k) && k@ == t.0 && final(self).idx == t.1
                    && final(self).errors@ == old(self).errors@ + t.2,
                None => r is None && final(self).idx == old(self).idx
                    && final(self).errors == old(self).errors,
            },
    {
        let ghost s = self.chars@;
        if is_ident_start(c) {
            let kind = self.ident_or_keyword(start);
            assert(old(self).errors@ + seq![] =~= old(self).errors@);
            Some(kind)
        } else if is_ascii_digit(c) {
            Some(self.number(start, start_pos, c))
        } else if c == '"' {
            Some(self.string(start, start_pos))
        } else {
            let r = self.operator(c);
            assert(old(self).errors@ + seq![] =~= old(self).errors@);
            r
        }
    }

    #[verifier::spinoff_prover]
    fn ident_or_keyword(&mut self, start: usize) -> (r: TokenKind)
        requires
            old(self).wf(),
            !old(self).finished,
            old(self).idx == start + 1,
        ensures
            final(self).wf(),
            old(self).idx <= final(self).idx,
            final(self).same_text(old(self)),
            final(self).errors == old(self).errors,
            final(self).idx == ident_end(old(self).chars@, start + 1),
            r@ == word_kind(old(self).chars@.subrange(start as int, final(self).idx as int)),
    {
        let ghost s = self.chars@;
        proof {
            lemma_ident_end(s, start + 1);
        }
        loop
            invariant
                self.wf(),
                !self.finished,
                self.chars@ == s,
                self.finished == old(self).finished,
                self.errors == old(self).errors,
                start + 1 <= self.idx <= ident_end(s, start + 1),
                ident_end(s, self.idx as int) == ident_end(s, start + 1),
            ensures
                self.wf(),
                !self.finished,
                self.chars@ == s,
                self.finished == old(self).finished,
                self.errors == old(self).errors,
                self.idx == ident_end(s, start + 1),
            decreases s.len() - self.idx,
        {
            let more = match self.peek() {
                Some(c) => is_ident_continue(c),
                None => false,
            };
            if !more {
                break;
            }
            self.bump();
            proof {
                lemma_ident_end(s, self.idx as int);
            }
        }
        let mut word: Vec<char> = Vec::new();
        let mut k = start;
        while k < self.idx
            invariant
                start <= k <= self.idx <= self.chars.len(),
                word@ == self.chars@.subrange(start as int, k as int),
            decreases self.idx - k,
        {
            word.push(self.chars[k]);
            assert(self.chars@.subrange(start as int, k + 1) =~= self.chars@.subrange(start as int, k as int).push(self.chars@[k as int]));
            k = k + 1;
        }
        match keyword_from_chars(word.as_slice()) {
            Some(kind) => kind,
            None => TokenKind::Ident(string_from_chars(&self.chars, start, self.idx)),
        }
    }

    // --------------------------------------------------------------- numbers

    /// Consumes digits valid in `radix`, allowing `_` separators.
    fn eat_digits(&mut self, radix: u32)
        requires
            old(self).wf(),
            !old(self).finished,
        ensures
            final(self).wf(),
            old(self).idx <= final(self).idx,
            final(self).same_text(old(self)),
            final(self).errors == old(self).errors,
            final(self).idx == digits_end(old(self).chars@, old(self).idx as int, radix as nat),
    {
        let ghost s = self.chars@;
        let ghost from = self.idx as int;
        proof {
            lemma_digits_end(s, from, radix as nat);
        }
        loop
            invariant
                self.wf(),
                !self.finished,
                self.chars@ == s,
                self.finished == old(self).finished,
                self.errors == old(self).errors,
                from <= self.idx <= digits_end(s, from, radix as nat),
                digits_end(s, self.idx as int, radix as nat) == digits_end(s, from, radix as nat),
            ensures
                self.wf(),
                !self.finished,
                self.chars@ == s,
                self.finished == old(self).finished,
                self.errors == old(self).errors,
                self.idx == digits_end(s, from, radix as nat),
            decreases s.len() - self.idx,
        {
            let more = match self.peek() {
                Some(c) => c == '_' || is_radix_digit(c, radix),
                None => false,
            };
            if !more {
                break;
            }
            self.bump();
            proof {
                lemma_digits_end(s, self.idx as int, radix as nat);
            }
        }
    }

    #[verifier::spinoff_prover]
    /// Matches operators and punctuation, longest form first; `c` has just
    /// been consumed.
    fn operator(&mut self, c: char) -> (r: Option<TokenKind>)
        requires
            old(self).wf(),
            !old(self).finished,
            1 <= old(self).idx,
            old(self).chars@[old(self).idx - 1] == c,
        ensures
            final(self).wf(),
            final(self).same_text(old(self)),
            final(self).errors == old(self).errors,
            match operator(old(self).chars@, old(self).idx - 1) {
                Some((k, e)) => r == Some(k) && final(self).idx == e,
                None => r is None && final(self).idx == old(self).idx,
            },
    {
        if c == '+' {
            if self.eat('=') {
                Some(TokenKind::PlusEq)
            } else {
                Some(TokenKind::Plus)
            }
        } else if c == '-' {
            if self.eat('=') {
                Some(TokenKind::MinusEq)
            } else if self.eat('>') {
                Some(TokenKind::Arrow)
            } else {
                Some(TokenKind::Minus)
            }
        } else if c == '*' {
            if self.eat('=') {
                Some(TokenKind::StarEq)
            } else {
                Some(TokenKind::Star)
            }
        } else if c == '/' {
            if self.eat('=') {
                Some(TokenKind::SlashEq)
            } else {
                Some(TokenKind::Slash)
            }
        } else if c == '%' {
            Some(TokenKind::Percent)
        } else if c == '&' {
            if self.eat('&') {
                Some(TokenKind::AmpAmp)
            } else {
                Some(TokenKind::Amp)
            }
        } else if c == '|' {
            if self.eat('|') {
                Some(TokenKind::PipePipe)
            } else {
                Some(TokenKind::Pipe)
            }
        } else if c == '^' {
            Some(TokenKind::Caret)
        } else if c == '!' {
            if self.eat('=') {
                Some(TokenKind::BangEq)
            } else {
                Some(TokenKind::Bang)
            }
        } else if c == '=' {
            if self.eat('=') {
                Some(TokenKind::EqEq)
            } else if self.eat('>') {
                Some(TokenKind::FatArrow)
            } else {
                Some(TokenKind::Eq)
            }
        } else if c == '<' {
            if self.eat('=') {
                Some(TokenKind::LtEq)
            } else if self.eat('<') {
                Some(TokenKind::Shl)
            } else {
                Some(TokenKind::Lt)
            }
        } else if c == '>' {
            if self.eat('=') {
                Some(TokenKind::GtEq)
            } else if self.eat('>') {
                Some(TokenKind::Shr)
            } else {
                Some(TokenKind::Gt)
            }
        } else if c == '.' {
            if self.eat('.') {
                if self.eat('=') {
                    Some(TokenKind::DotDotEq)
                } else {
                    Some(TokenKind::DotDot)
                }
            } else {
                Some(TokenKind::Dot)
            }
        } else if c == ':' {
            if self.eat(':') {
                Some(TokenKind::ColonColon)
            } else {
                Some(TokenKind::Colon)
            }
        } else if c == ';' {
            Some(TokenKind::Semi)
        } else if c == ',' {
            Some(TokenKind::Comma)
        } else if c == '(' {
            Some(TokenKind::LParen)
        } else if c == ')' {
            Some(TokenKind::RParen)
        } else if c == '{' {
            Some(TokenKind::LBrace)
        } else if c == '}' {
            Some(TokenKind::RBrace)
        } else if c == '[' {
            Some(TokenKind::LBracket)
        } else if c == ']' {
            Some(TokenKind::RBracket)
        } else {
            None
        }
    }

    #[verifier::spinoff_prover]
    /// Scans the digits of an already-consumed `0x` / `0b` / `0o` prefix of the
    /// literal starting at index `start` (byte offset `start_pos`).
    fn radix_number(&mut self, start: usize, start_pos: usize, radix: u32) -> (r: TokenKind)
        requires
            old(self).wf(),
            !old(self).finished,
            old(self).idx == start + 2,
            start_pos == byte_offset(old(self).chars@, start as int),
            radix == 2 || radix == 8 || radix == 16,
        ensures
            final(self).wf(),
            old(self).idx <= final(self).idx,
            final(self).same_text(old(self)),
            ({
                let n = radix_number(old(self).chars@, start as int, radix as nat);
                &&& r@ == n.0
                &&& final(self).idx == n.1
                &&& final(self).errors@ == old(self).errors@ + n.2
            }),
    {
        let digits_start = self.idx;
        self.eat_digits(radix);
        let digits = strip_separators(&self.chars, digits_start, self.idx);
        let span = self.span_from(start, start_pos);
        if digits.len() == 0 {
            self.error(LexErrorKind::MalformedNumber, span);
            return TokenKind::Int(0);
        }
        match digits_to_i64(&digits, radix) {
            Some(v) => {
                assert(old(self).errors@ + seq![] =~= old(self).errors@);
                TokenKind::Int(v)
            },
            None => {
                self.error(LexErrorKind::IntegerOverflow, span);
                TokenKind::Int(0)
            },
        }
    }

    #[verifier::spinoff_prover]
    /// Scans a number literal whose first digit `first`, at index `start` (byte
    /// offset `start_pos`), has been consumed.
    fn number(&mut self, start: usize, start_pos: usize, first: char) -> (r: TokenKind)
        requires
            old(self).wf(),
            !old(self).finished,
            old(self).idx == start + 1,
            old(self).chars@[start as int] == first,
            ascii_digit(first),
            start_pos == byte_offset(old(self).chars@, start as int),
        ensures
            final(self).wf(),
            old(self).idx <= final(self).idx,
            final(self).same_text(old(self)),
            ({
                let n = number(old(self).chars@, start as int);
                &&& r@ == n.0
                &&& final(self).idx == n.1
                &&& final(self).errors@ == old(self).errors@ + n.2
            }),
    {
        if first == '0' {
            let next = self.peek();
            let radix: u32 = match next {
                Some(c) => if c == 'x' || c == 'X' {
                    16
                } else if c == 'b' || c == 'B' {
                    2
                } else if c == 'o' || c == 'O' {
                    8
                } else {
                    0
                },
                None => 0,
            };
            if radix != 0 {
                self.bump();
                return self.radix_number(start, start_pos, radix);
            }
        }
        self.decimal_number(start, start_pos)
    }

    #[verifier::spinoff_prover]
    /// Scans a decimal literal (integer or float) whose first digit, at index
    /// `start` (byte offset `start_pos`), has been consumed.
    fn decimal_number(&mut self, start: usize, start_pos: usize) -> (r: TokenKind)
        requires
            old(self).wf(),
            !old(self).finished,
            old(self).idx == start + 1,
            start_pos == byte_offset(old(self).chars@, start as int),
        ensures
            final(self).wf(),
            old(self).idx <= final(self).idx,
            final(self).same_text(old(self)),
            ({
                let n = decimal_number(old(self).chars@, start as int);
                &&& r@ == n.0
                &&& final(self).idx == n.1
                &&& final(self).errors@ == old(self).errors@ + n.2
            }),
    {
        let ghost s = self.chars@;
        self.eat_digits(10);
        let ghost f = fraction(s, start as int, self.idx as int);
        let (frac_float, text_end) = self.fraction(start, start_pos);
        let exp_float = self.exponent();
        let is_float = frac_float || exp_float;
        proof {
            lemma_digits_end(s, start + 1, 10);
        }
        let value_end = match text_end {
            Some(t) => t,
            None => self.idx,
        };
        let text = strip_separators(&self.chars, start, value_end);
        let span = self.span_from(start, start_pos);
        proof {
            let n = decimal_number(s, start as int);
            assert(f == fraction(s, start as int, digits_end(s, start + 1, 10)));
            assert(self.idx == n.1);
            assert(is_float == (f.is_float || exponent_end(s, f.end) is Some));
            assert(text@ == strip_underscores(s.subrange(start as int, value_end as int)));
        }
        assert(text@.subrange(0, text@.len() as int) =~= text@);
        if is_float {
            TokenKind::Float(string_from_chars(&text, 0, text.len()))
        } else {
            match digits_to_i64(&text, 10) {
                Some(v) => {
                    assert(self.errors@ + seq![] =~= self.errors@);
                    TokenKind::Int(v)
                },
                None => {
                    self.error(LexErrorKind::IntegerOverflow, span);
                    TokenKind::Int(0)
                },
            }
        }
    }

    #[verifier::spinoff_prover]
    /// After the integer digits of a decimal literal starting at `start`: scans
    /// a fraction if one follows. Returns whether it did, and where the numeric
    /// text ends when a stray `.` had to be swallowed.
    fn fraction(&mut self, start: usize, start_pos: usize) -> (r: (bool, Option<usize>))
        requires
            old(self).wf(),
            !old(self).finished,
            start < old(self).idx,
            start_pos == byte_offset(old(self).chars@, start as int),
        ensures
            final(self).wf(),
            old(self).idx <= final(self).idx,
            final(self).same_text(old(self)),
            ({
                let f = fraction(old(self).chars@, start as int, old(self).idx as int);
                &&& r.0 == f.is_float
                &&& final(self).idx == f.end
                &&& final(self).errors@ == old(self).errors@ + f.errors
                &&& (r.1 matches Some(t) ==> f.text_end == Some(t as int))
                &&& (r.1 is None ==> f.text_end is None)
                &&& (r.1 matches Some(t) ==> start <= t <= final(self).idx)
            }),
    {
        let ghost s = self.chars@;
        let dot = match self.peek() {
            Some(c) => c == '.',
            None => false,
        };
        if !dot {
            assert(old(self).errors@ + seq![] =~= old(self).errors@);
            return (false, None);
        }
        let next = self.peek_at(1);
        let digit = match next {
            Some(c) => is_ascii_digit(c),
            None => false,
        };
        let second_dot = match next {
            Some(c) => c == '.',
            None => false,
        };
        if digit {
            self.bump();
            self.eat_digits(10);
            assert(old(self).errors@ + seq![] =~= old(self).errors@);
            (true, None)
        } else if second_dot {
            // `0..10`: the dots belong to a range.
            assert(old(self).errors@ + seq![] =~= old(self).errors@);
            (false, None)
        } else {
            // `1.foo`, `1.)`: there is no method-call-on-literal syntax yet.
            // Swallow the dot so the parser is not also confused by it, but
            // keep it out of the value.
            let text_end = self.idx;
            self.bump();
            let span = self.span_from(start, start_pos);
            self.error(LexErrorKind::MalformedNumber, span);
            (false, Some(text_end))
        }
    }

    #[verifier::spinoff_prover]
    /// Scans an exponent (`e`, optional sign, digits) if one follows; leaves the
    /// cursor where it was when the marker is not followed by digits.
    fn exponent(&mut self) -> (r: bool)
        requires
            old(self).wf(),
            !old(self).finished,
        ensures
            final(self).wf(),
            old(self).idx <= final(self).idx,
            final(self).same_text(old(self)),
            final(self).errors == old(self).errors,
            match exponent_end(old(self).chars@, old(self).idx as int) {
                Some(e) => r && final(self).idx == e,
                None => !r && final(self).idx == old(self).idx,
            },
    {
        let marker = match self.peek() {
            Some(c) => c == 'e' || c == 'E',
            None => false,
        };
        if !marker {
            return false;
        }
        let exp_idx = self.idx;
        let exp_pos = self.pos;
        self.bump();
        let sign = match self.peek() {
            Some(c) => c == '+' || c == '-',
            None => false,
        };
        if sign {
            self.bump();
        }
        let digit = match self.peek() {
            Some(c) => is_ascii_digit(c),
            None => false,
        };
        if digit {
            self.eat_digits(10);
            true
        } else {
            // Not an exponent after all (e.g. `1e` or `2 else`): rewind.
            self.idx = exp_idx;
            self.pos = exp_pos;
            false
        }
    }

    // --------------------------------------------------------------- strings

    #[verifier::spinoff_prover]
    /// Scans a string literal whose opening `"`, at index `start` (byte offset
    /// `start_pos`), has been consumed.
    fn string(&mut self, start: usize, start_pos: usize) -> (r: TokenKind)
        requires
            old(self).wf(),
            !old(self).finished,
            old(self).idx == start + 1,
            start_pos == byte_offset(old(self).chars@, start as int),
        ensures
            final(self).wf(),
            old(self).idx <= final(self).idx,
            final(self).same_text(old(self)),
            ({
                let b = string_body(old(self).chars@, start as int, start + 1, seq![], seq![]);
                &&& r@ == KindView::Str(b.0)
                &&& final(self).idx == b.1
                &&& final(self).errors@ == old(self).errors@ + b.2
            }),
    {
        let ghost s = self.chars@;
        let ghost target = string_body(s, start as int, start + 1, seq![], seq![]);
        let ghost mut found: Seq<LexError> = Seq::empty();
        let mut value = String::new();
        loop
            invariant
                self.wf(),
                !self.finished,
                self.chars@ == s,
                s == old(self).chars@,
                target == string_body(s, start as int, start + 1, seq![], seq![]),
                self.finished == old(self).finished,
                old(self).idx <= self.idx,
                start < self.idx,
                start_pos == byte_offset(s, start as int),
                self.errors@ == old(self).errors@ + found,
                string_body(s, start as int, self.idx as int, value@, found) == target,
            decreases s.len() - self.idx,
        {
            let next = self.peek();
            match next {
                Some(c) => {
                    if c == '"' {
                        self.bump();
                        return TokenKind::Str(value);
                    } else if c == '\\' {
                        let esc_start = self.idx;
                        let esc_pos = self.pos;
                        self.bump();
                        let ghost e = escape(s, esc_start as int);
                        proof {
                            lemma_escape_end(s, esc_start as int);
                        }
                        self.escape(esc_start, esc_pos, &mut value);
                        proof {
                            assert(self.errors@ =~= old(self).errors@ + (found + e.errors));
                            found = found + e.errors;
                        }
                    } else if c != '\n' {
                        self.bump();
                        push_char(&mut value, c);
                    } else {
                        let span = self.span_from(start, start_pos);
                        self.error(LexErrorKind::UnterminatedString, span);
                        return TokenKind::Str(value);
                    }
                },
                None => {
                    let span = self.span_from(start, start_pos);
                    self.error(LexErrorKind::UnterminatedString, span);
                    return TokenKind::Str(value);
                },
            }
        }
    }

    #[verifier::spinoff_prover]
    /// Handles the character(s) after the `\` at index `esc_start` (byte offset
    /// `esc_pos`) inside a string literal, appending what they stand for to `out`.
    fn escape(&mut self, esc_start: usize, esc_pos: usize, out: &mut String)
        requires
            old(self).wf(),
            !old(self).finished,
            old(self).idx == esc_start + 1,
            esc_pos == byte_offset(old(self).chars@, esc_start as int),
        ensures
            final(self).wf(),
            old(self).idx <= final(self).idx,
            final(self).same_text(old(self)),
            ({
                let e = escape(old(self).chars@, esc_start as int);
                &&& final(self).idx == e.end
                &&& final(out)@ == old(out)@ + e.out
                &&& final(self).errors@ == old(self).errors@ + e.errors
            }),
    {
        let ghost e = escape(self.chars@, esc_start as int);
        let c = match self.bump() {
            Some(c) => c,
            None => {
                assert(old(out)@ + seq![] =~= old(out)@);
                assert(old(self).errors@ + seq![] =~= old(self).errors@);
                return;
            },
        };
        if c == 'x' {
            let hi = self.peek();
            let lo = self.peek_at(1);
            let both = match (hi, lo) {
                (Some(h), Some(l)) => is_radix_digit(h, 16) && is_radix_digit(l, 16),
                _ => false,
            };
            if both {
                let h = self.chars[self.idx];
                let l = self.chars[self.idx + 1];
                self.bump();
                self.bump();
                let code = (digit_value_of(h) * 16 + digit_value_of(l)) as u8;
                push_char(out, code as char);
                assert(old(self).errors@ + seq![] =~= old(self).errors@);
            } else {
                let span = self.span_from(esc_start, esc_pos);
                self.error(LexErrorKind::InvalidHexEscape, span);
                assert(old(out)@ + seq![] =~= old(out)@);
                proof {
                    let x = LexError { kind: LexErrorKind::InvalidHexEscape, span };
                    lemma_escape_bad_hex(old(self).chars@, esc_start as int, old(self).errors@, x);
                }
            }
            return;
        }
        let decoded = if c == 'n' {
            '\n'
        } else if c == 'r' {
            '\r'
        } else if c == 't' {
            '\t'
        } else if c == '0' {
            '\0'
        } else {
            c
        };
        push_char(out, decoded);
        assert(c == self.chars@[esc_start + 1]);
        assert(self.idx == esc_start + 2);
        if c == 'n' || c == 'r' || c == 't' || c == '0' || c == '\\' || c == '"' {
            assert(e.errors == Seq::<LexError>::empty());
            assert(e.out == seq![decoded]);
            assert(self.errors@ == old(self).errors@);
            assert(old(self).errors@ + e.errors =~= old(self).errors@);
        } else {
            let span = self.span_from(esc_start, esc_pos);
            let ghost before = self.errors@;
            self.error(LexErrorKind::InvalidEscape(c), span);
            proof {
                let x = LexError { kind: LexErrorKind::InvalidEscape(c), span };
                assert(before == old(self).errors@);
                assert(x == error_at(LexErrorKind::InvalidEscape(c), old(self).chars@, esc_start as int, esc_start + 2));
                lemma_escape_invalid(old(self).chars@, esc_start as int, c, old(self).errors@, x);
            }
        }
    }

} // impl Lexer



} // verus!
