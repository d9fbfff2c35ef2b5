use vstd::prelude::*;

pub use crate::token::{Token, TokenType};
use vstd::string::StringSliceAdditionalSpecFns;

verus! {

/// Space, tab, newline and carriage return: skipped between tokens.
pub open spec fn is_whitespace_byte(b: u8) -> bool {
    b == (' ' as u8) || b == ('\t' as u8) || b == ('\n' as u8) || b == ('\r' as u8)
}

/// A byte that may start an identifier: an ASCII letter or `_`.
pub open spec fn is_letter_byte(b: u8) -> bool {
    ||| ('a' as u8) <= b && b <= ('z' as u8)
    ||| ('A' as u8) <= b && b <= ('Z' as u8)
    ||| b == ('_' as u8)
}

/// An ASCII decimal digit.
pub open spec fn is_decimal_byte(b: u8) -> bool {
    ('0' as u8) <= b && b <= ('9' as u8)
}

/// A byte that may start or continue a numeric literal: a digit or `.`.
/// A literal is kept as raw text, so a run with several dots (`1.2.3`) is one
/// literal; what it means is left to whoever reads the tokens.
pub open spec fn is_number_byte(b: u8) -> bool {
    is_decimal_byte(b) || b == ('.' as u8)
}

/// A byte that may continue an identifier: a letter, `_` or a digit.
pub open spec fn is_ident_byte(b: u8) -> bool {
    is_letter_byte(b) || is_decimal_byte(b)
}

/// The bytes skipped between tokens, as a class for [`run_end`].
pub open spec fn whitespace_class() -> spec_fn(u8) -> bool {
    |b: u8| is_whitespace_byte(b)
}

/// The bytes of an identifier after its first, as a class for [`run_end`].
pub open spec fn ident_class() -> spec_fn(u8) -> bool {
    |b: u8| is_ident_byte(b)
}

/// The bytes of a numeric literal, as a class for [`run_end`].
pub open spec fn number_class() -> spec_fn(u8) -> bool {
    |b: u8| is_number_byte(b)
}

/// The end of the longest run of bytes of `class` that starts at `i`.
pub open spec fn run_end(s: Seq<u8>, i: nat, class: spec_fn(u8) -> bool) -> nat
    decreases s.len() - i,
{
    if i < s.len() && class(s[i as int]) {
        run_end(s, i + 1, class)
    } else {
        i
    }
}

/// Bytes read as the characters with the same code.
pub open spec fn chars_of(bytes: Seq<u8>) -> Seq<char> {
    bytes.map_values(|b: u8| b as char)
}

/// The token of a one-byte punctuation mark, other than `=` and `!`.
pub open spec fn punctuation(b: u8) -> Option<Token> {
    if b == (';' as u8) {
        Some(Token::Semicolon)
    } else if b == ('(' as u8) {
        Some(Token::LParen)
    } else if b == (')' as u8) {
        Some(Token::RParen)
    } else if b == ('{' as u8) {
        Some(Token::LBrace)
    } else if b == ('}' as u8) {
        Some(Token::RBrace)
    } else if b == (',' as u8) {
        Some(Token::Comma)
    } else if b == ('+' as u8) {
        Some(Token::Plus)
    } else if b == ('-' as u8) {
        Some(Token::Minus)
    } else if b == ('*' as u8) {
        Some(Token::Asterisk)
    } else if b == ('/' as u8) {
        Some(Token::Slash)
    } else if b == ('<' as u8) {
        Some(Token::Lt)
    } else if b == ('>' as u8) {
        Some(Token::Gt)
    } else {
        None
    }
}

/// The keyword spelled by `w`, if it is a reserved word.
pub open spec fn keyword(w: Seq<char>) -> Option<Token> {
    if w == seq!['l', 'e', 't'] {
        Some(Token::Let)
    } else if w == seq!['f', 'n'] {
        Some(Token::Function)
    } else if w == seq!['t', 'r', 'u', 'e'] {
        Some(Token::True)
    } else if w == seq!['f', 'a', 'l', 's', 'e'] {
        Some(Token::False)
    } else if w == seq!['i', 'f'] {
        Some(Token::If)
    } else if w == seq!['e', 'l', 's', 'e'] {
        Some(Token::Else)
    } else if w == seq!['r', 'e', 't', 'u', 'r', 'n'] {
        Some(Token::Return)
    } else {
        None
    }
}

/// A fully scanned word: its keyword, or else an identifier carrying it.
pub open spec fn word_token(w: Seq<char>) -> Token {
    match keyword(w) {
        Some(k) => k,
        None => Token::Ident(w),
    }
}

/// The byte after `p`, if there is one.
pub open spec fn lookahead(s: Seq<u8>, p: nat) -> Option<u8> {
    if p + 1 < s.len() {
        Some(s[p + 1 as int])
    } else {
        None
    }
}

/// The token that starts at `p`, a position inside `s` that holds no
/// whitespace, and the position just past it.
pub open spec fn scan_at(s: Seq<u8>, p: nat) -> (Token, nat)
    recommends
        p < s.len(),
{
    let c = s[p as int];
    if c == ('=' as u8) {
        if lookahead(s, p) == Some('=' as u8) {
            (Token::Eq, p + 2)
        } else {
            (Token::Assign, p + 1)
        }
    } else if c == ('!' as u8) {
        if lookahead(s, p) == Some('=' as u8) {
            (Token::NotEq, p + 2)
        } else {
            (Token::Bang, p + 1)
        }
    } else if punctuation(c) is Some {
        (punctuation(c).unwrap(), p + 1)
    } else if is_letter_byte(c) {
        let q = run_end(s, p, ident_class());
        (word_token(chars_of(s.subrange(p as int, q as int))), q)
    } else if is_number_byte(c) {
        let q = run_end(s, p, number_class());
        (Token::Int(chars_of(s.subrange(p as int, q as int))), q)
    } else {
        (Token::Illegal, p + 1)
    }
}

/// The next token of `s` from position `pos`, and the position after it:
/// whitespace is skipped, then one token is read; past the end, the end marker
/// is returned and the position stays where it is.
pub open spec fn scan(s: Seq<u8>, pos: nat) -> (Token, nat) {
    let p = run_end(s, pos, whitespace_class());
    if p < s.len() {
        scan_at(s, p)
    } else {
        (Token::Eof, p)
    }
}

/// The byte under the cursor at `i`; `None` past the end of the input.
pub open spec fn byte_at(s: Seq<u8>, i: nat) -> Option<u8> {
    if i < s.len() {
        Some(s[i as int])
    } else {
        None
    }
}

/// A byte that no token starts with and that is not whitespace.
pub open spec fn is_unrecognized_byte(b: u8) -> bool {
    &&& !is_whitespace_byte(b)
    &&& !is_letter_byte(b)
    &&& !is_number_byte(b)
    &&& punctuation(b) is None
    &&& b != ('=' as u8)
    &&& b != ('!' as u8)
}

/// The tokens of `s` from position `pos` up to and including the end marker.
pub open spec fn token_stream(s: Seq<u8>, pos: nat) -> Seq<Token>
    decreases s.len() - pos,
    when pos <= s.len()
    via token_stream_decreases
{
    let (t, q) = scan(s, pos);
    if t is Eof {
        seq![t]
    } else {
        seq![t] + token_stream(s, q)
    }
}

#[via_fn]
proof fn token_stream_decreases(s: Seq<u8>, pos: nat) {
    lemma_scan_progress(s, pos);
}

/// A run starts no later than it ends, stays within the input, holds bytes of
/// its class only, and stops at the end or at a byte outside the class.
pub proof fn lemma_run_end(s: Seq<u8>, i: nat, class: spec_fn(u8) -> bool)
    requires
        i <= s.len(),
    ensures
        i <= run_end(s, i, class) <= s.len(),
        forall|k: int| i <= k < run_end(s, i, class) ==> class(#[trigger] s[k]),
        run_end(s, i, class) == s.len() || !class(s[run_end(s, i, class) as int]),
    decreases s.len() - i,
{
    if i < s.len() && class(s[i as int]) {
        lemma_run_end(s, i + 1, class);
    }
}

/// Before the end, each token moves the position forward; the position never
/// passes the end of the input.
pub proof fn lemma_scan_progress(s: Seq<u8>, pos: nat)
    requires
        pos <= s.len(),
    ensures
        scan(s, pos).1 <= s.len(),
        !(scan(s, pos).0 is Eof) ==> pos < scan(s, pos).1,
{
    let p = run_end(s, pos, whitespace_class());
    lemma_run_end(s, pos, whitespace_class());
    if p < s.len() {
        let c = s[p as int];
        if is_letter_byte(c) {
            lemma_run_end(s, p, ident_class());
        } else if is_number_byte(c) {
            lemma_run_end(s, p, number_class());
        }
    }
}

/// A byte outside every recognized class gives the illegal marker, and the
/// position moves past that one byte.
pub proof fn lemma_unrecognized_is_illegal(s: Seq<u8>, pos: nat)
    requires
        pos < s.len(),
        is_unrecognized_byte(s[pos as int]),
    ensures
        scan(s, pos) == (Token::Illegal, pos + 1),
{
}

/// Once the end marker has been returned, every later call returns it again
/// and leaves the position where it is.
pub proof fn lemma_end_is_stable(s: Seq<u8>, pos: nat)
    requires
        scan(s, pos).0 is Eof,
    ensures
        scan(s, scan(s, pos).1) == (Token::Eof, scan(s, pos).1),
{
}

/// An identifier or keyword takes the longest run of letters, `_` and digits
/// that starts at its first letter, and is classified only as a whole.
pub proof fn lemma_word_is_maximal(s: Seq<u8>, p: nat)
    requires
        p < s.len(),
        is_letter_byte(s[p as int]),
    ensures
        ({
            let q = scan(s, p).1;
            &&& p < q <= s.len()
            &&& forall|k: int| p <= k < q ==> is_ident_byte(#[trigger] s[k])
            &&& (q == s.len() || !is_ident_byte(s[q as int]))
            &&& scan(s, p).0 == word_token(chars_of(s.subrange(p as int, q as int)))
        }),
{
    lemma_run_end(s, p, ident_class());
}

/// `==` and `!=` are read as one token each; `=` and `!` not followed by `=`
/// are read alone.
pub proof fn lemma_lookahead(s: Seq<u8>, p: nat)
    requires
        p < s.len(),
        s[p as int] == ('=' as u8) || s[p as int] == ('!' as u8),
    ensures
        ({
            let c = s[p as int];
            let pair = lookahead(s, p) == Some('=' as u8);
            &&& (c == ('=' as u8) && pair ==> scan(s, p) == (Token::Eq, p + 2))
            &&& (c == ('=' as u8) && !pair ==> scan(s, p) == (Token::Assign, p + 1))
            &&& (c == ('!' as u8) && pair ==> scan(s, p) == (Token::NotEq, p + 2))
            &&& (c == ('!' as u8) && !pair ==> scan(s, p) == (Token::Bang, p + 1))
        }),
{
}

/// Whitespace before a token changes nothing: scanning from the start of a
/// run of whitespace gives the same token and end as scanning from its end.
pub proof fn lemma_whitespace_skipped(s: Seq<u8>, pos: nat, k: nat)
    requires
        pos <= k <= s.len(),
        forall|i: int| pos <= i < k ==> is_whitespace_byte(#[trigger] s[i]),
    ensures
        scan(s, pos) == scan(s, k),
    decreases k - pos,
{
    if pos < k {
        lemma_whitespace_skipped(s, pos + 1, k);
    }
}

/// Input made of whitespace alone gives no token but the end marker.
pub proof fn lemma_whitespace_alone_is_end(s: Seq<u8>)
    requires
        forall|i: int| 0 <= i < s.len() ==> is_whitespace_byte(#[trigger] s[i]),
    ensures
        token_stream(s, 0) == seq![Token::Eof],
{
    lemma_whitespace_skipped(s, 0, s.len());
    assert(scan(s, 0) == (Token::Eof, s.len()));
}

/// The token stream is never empty, ends with the end marker, and holds no
/// other end marker.
pub proof fn lemma_stream_ends_once(s: Seq<u8>, pos: nat)
    requires
        pos <= s.len(),
    ensures
        token_stream(s, pos).len() > 0,
        token_stream(s, pos).last() is Eof,
        forall|i: int|
            0 <= i < token_stream(s, pos).len() - 1 ==> !(#[trigger] token_stream(s, pos)[i] is Eof),
    decreases s.len() - pos,
{
    lemma_scan_progress(s, pos);
    let (t, q) = scan(s, pos);
    if !(t is Eof) {
        lemma_stream_ends_once(s, q);
        let rest = token_stream(s, q);
        let out = token_stream(s, pos);
        assert(out == seq![t] + rest);
        assert forall|i: int| 0 <= i < out.len() - 1 implies !(#[trigger] out[i] is Eof) by {
            if i > 0 {
                assert(out[i] == rest[i - 1]);
            }
        }
    }
}

/// Relies on `String::push`: the character is appended at the end.
#[verifier::external_body]
fn push_char(s: &mut String, c: char)
    ensures
        final(s)@ == old(s)@.push(c),
{
    s.push(c)
}

/// Whether `word` is spelled as `spelling`.
fn is_spelled(word: &String, spelling: &str) -> (r: bool)
    ensures
        r == (word@ == spelling@),
{
    let owned = spelling.to_owned();
    word.eq(&owned)
}

/// The keyword that `word` spells, or an identifier carrying `word`.
fn lookup_word(word: String) -> (t: TokenType)
    ensures
        t@ == word_token(word@),
{
    proof {
        reveal_strlit("let");
        reveal_strlit("fn");
        reveal_strlit("true");
        reveal_strlit("false");
        reveal_strlit("if");
        reveal_strlit("else");
        reveal_strlit("return");
        assert("let"@ =~= seq!['l', 'e', 't']);
        assert("fn"@ =~= seq!['f', 'n']);
        assert("true"@ =~= seq!['t', 'r', 'u', 'e']);
        assert("false"@ =~= seq!['f', 'a', 'l', 's', 'e']);
        assert("if"@ =~= seq!['i', 'f']);
        assert("else"@ =~= seq!['e', 'l', 's', 'e']);
        assert("return"@ =~= seq!['r', 'e', 't', 'u', 'r', 'n']);
    }
    if is_spelled(&word, "let") {
        return TokenType::LET;
    }
    if is_spelled(&word, "fn") {
        return TokenType::FUNCTION;
    }
    if is_spelled(&word, "true") {
        return TokenType::TRUE;
    }
    if is_spelled(&word, "false") {
        return TokenType::FALSE;
    }
    if is_spelled(&word, "if") {
        return TokenType::IF;
    }
    if is_spelled(&word, "else") {
        return TokenType::ELSE;
    }
    if is_spelled(&word, "return") {
        return TokenType::RETURN;
    }
    TokenType::IDENT(word)
}

/// A cursor over the bytes of a source text that hands out one token at a time.
#[derive(Debug)]
pub struct Lexer {
    input: Vec<u8>,
    position: usize,
    ch: Option<u8>,
}

impl Lexer {
    /// The bytes being scanned.
    pub closed spec fn source(&self) -> Seq<u8> {
        self.input@
    }

    /// The position of the next byte to be read.
    pub closed spec fn cursor(&self) -> nat {
        self.position as nat
    }

    /// The cursor lies within the input or just past it, and `ch` holds the
    /// byte under it, `None` past the end.
    pub closed spec fn wf(&self) -> bool {
        &&& self.position <= self.input.len()
        &&& self.ch == byte_at(self.input@, self.position as nat)
    }

    /// A lexer over the bytes of `input`, with the cursor on the first byte.
    pub fn from(input: &str) -> (lexer: Lexer)
        ensures
            lexer.wf(),
            lexer.source() == input.spec_bytes(),
            lexer.cursor() == 0,
    {
        let v = vstd::slice::slice_to_vec(input.as_bytes());
        let ch = if v.len() > 0 {
            Some(v[0])
        } else {
            None
        };
        Lexer { input: v, position: 0, ch }
    }

    /// Moves the cursor one byte forward.
    fn read_char(&mut self)
        requires
            old(self).wf(),
            old(self).position < old(self).input.len(),
        ensures
            final(self).wf(),
            final(self).input == old(self).input,
            final(self).position == old(self).position + 1,
    {
        self.position = self.position + 1;
        if self.position < self.input.len() {
            self.ch = Some(self.input[self.position]);
        } else {
            self.ch = None;
        }
    }

    /// The byte after the cursor, without moving it.
    fn peak_char(&self) -> (r: Option<u8>)
        requires
            self.wf(),
        ensures
            r == lookahead(self.input@, self.position as nat),
    {
        if self.input.len() > 0 && self.position < self.input.len() - 1 {
            Some(self.input[self.position + 1])
        } else {
            None
        }
    }

    /// Whether the byte under the cursor may start an identifier.
    fn is_letter(&self) -> (r: bool)
        ensures
            r == (self.ch matches Some(c) && is_letter_byte(c)),
    {
        match self.ch {
            Some(c) => {
                (('a' as u8) <= c && c <= ('z' as u8)) || (('A' as u8) <= c && c <= ('Z' as u8))
                    || c == ('_' as u8)
            },
            None => false,
        }
    }

    /// Whether the byte under the cursor belongs to a numeric literal.
    fn is_digit(&self) -> (r: bool)
        ensures
            r == (self.ch matches Some(c) && is_number_byte(c)),
    {
        match self.ch {
            Some(c) => (('0' as u8) <= c && c <= ('9' as u8)) || c == ('.' as u8),
            None => false,
        }
    }

    /// Whether the byte under the cursor may continue an identifier.
    fn is_ident_char(&self) -> (r: bool)
        ensures
            r == (self.ch matches Some(c) && is_ident_byte(c)),
    {
        match self.ch {
            Some(c) => (('0' as u8) <= c && c <= ('9' as u8)) || self.is_letter(),
            None => false,
        }
    }

    /// Whether the byte under the cursor is whitespace.
    fn is_whitespace(&self) -> (r: bool)
        ensures
            r == (self.ch matches Some(c) && is_whitespace_byte(c)),
    {
        match self.ch {
            Some(c) => {
                c == (' ' as u8) || c == ('\t' as u8) || c == ('\n' as u8) || c == ('\r' as u8)
            },
            None => false,
        }
    }

    /// Moves the cursor past a run of whitespace.
    fn skip_whitespace(&mut self)
        requires
            old(self).wf(),
        ensures
            old(self).position <= final(self).position,
            final(self).wf(),
            final(self).input == old(self).input,
            final(self).position == run_end(
                old(self).input@,
                old(self).position as nat,
                whitespace_class(),
            ),
    {
        let ghost start = self.position as nat;
        while self.is_whitespace()
            invariant
                self.wf(),
                self.input == old(self).input,
                start <= self.position,
                run_end(self.input@, start, whitespace_class()) == run_end(
                    self.input@,
                    self.position as nat,
                    whitespace_class(),
                ),
            decreases self.input.len() - self.position,
        {
            self.read_char();
        }
    }

    /// The text of the bytes between `start` and the cursor.
    fn text_from(&self, start: usize) -> (r: String)
        requires
            self.wf(),
            start <= self.position,
        ensures
            r@ == chars_of(self.input@.subrange(start as int, self.position as int)),
    {
        let mut s = String::new();
        let mut i: usize = start;
        while i < self.position
            invariant
                self.wf(),
                start <= i <= self.position,
                s@ == chars_of(self.input@.subrange(start as int, i as int)),
            decreases self.position - i,
        {
            push_char(&mut s, self.input[i] as char);
            i = i + 1;
        }
        s
    }

    /// Reads a numeric literal: the longest run of digits and dots.
    fn read_digit(&mut self) -> (r: String)
        requires
            old(self).wf(),
        ensures
            old(self).position <= final(self).position,
            final(self).wf(),
            final(self).input == old(self).input,
            final(self).position == run_end(
                old(self).input@,
                old(self).position as nat,
                number_class(),
            ),
            r@ == chars_of(
                old(self).input@.subrange(old(self).position as int, final(self).position as int),
            ),
    {
        let position = self.position;
        while self.is_digit()
            invariant
                self.wf(),
                self.input == old(self).input,
                position <= self.position,
                run_end(self.input@, position as nat, number_class()) == run_end(
                    self.input@,
                    self.position as nat,
                    number_class(),
                ),
            decreases self.input.len() - self.position,
        {
            self.read_char();
        }
        self.text_from(position)
    }

    /// Reads a word: the longest run of letters, `_` and digits.
    fn read_indentifier(&mut self) -> (r: String)
        requires
            old(self).wf(),
        ensures
            old(self).position <= final(self).position,
            final(self).wf(),
            final(self).input == old(self).input,
            final(self).position == run_end(
                old(self).input@,
                old(self).position as nat,
                ident_class(),
            ),
            r@ == chars_of(
                old(self).input@.subrange(old(self).position as int, final(self).position as int),
            ),
    {
        let position = self.position;
        while self.is_ident_char()
            invariant
                self.wf(),
                self.input == old(self).input,
                position <= self.position,
                run_end(self.input@, position as nat, ident_class()) == run_end(
                    self.input@,
                    self.position as nat,
                    ident_class(),
                ),
            decreases self.input.len() - self.position,
        {
            self.read_char();
        }
        self.text_from(position)
    }

    /// Skips whitespace, then reads one token and moves the cursor past it.
    /// At the end of the input the end marker is returned and the cursor stays.
    pub fn next_token(&mut self) -> (token: TokenType)
        requires
            old(self).wf(),
        ensures
            final(self).wf(),
            final(self).source() == old(self).source(),
            (token@, final(self).cursor()) == scan(old(self).source(), old(self).cursor()),
            old(self).cursor() <= final(self).cursor() <= final(self).source().len(),
    {
        self.skip_whitespace();
        let ch = match self.ch {
            Some(c) => c,
            None => {
                return TokenType::EOF;
            },
        };
        let token;
        if ch == ('=' as u8) {
            match self.peak_char() {
                Some(next) if next == ('=' as u8) => {
                    self.read_char();
                    token = TokenType::EQ;
                },
                _ => token = TokenType::ASSIGN,
            }
        } else if ch == ('!' as u8) {
            match self.peak_char() {
                Some(next) if next == ('=' as u8) => {
                    self.read_char();
                    token = TokenType::NOTEQ;
                },
                _ => token = TokenType::BANG,
            }
        } else if ch == (';' as u8) {
            token = TokenType::SEMICOLON;
        } else if ch == ('(' as u8) {
            token = TokenType::LPAREN;
        } else if ch == (')' as u8) {
            token = TokenType::RPAREN;
        } else if ch == ('{' as u8) {
            token = TokenType::LBRACE;
        } else if ch == ('}' as u8) {
            token = TokenType::RBRACE;
        } else if ch == (',' as u8) {
            token = TokenType::COMMA;
        } else if ch == ('+' as u8) {
            token = TokenType::PLUS;
        } else if ch == ('-' as u8) {
            token = TokenType::MINUS;
        } else if ch == ('*' as u8) {
            token = TokenType::ASTERISK;
        } else if ch == ('/' as u8) {
            token = TokenType::SLASH;
        } else if ch == ('<' as u8) {
            token = TokenType::LT;
        } else if ch == ('>' as u8) {
            token = TokenType::GT;
        } else if self.is_letter() {
            let word = self.read_indentifier();
            return lookup_word(word);
        } else if self.is_digit() {
            let digits = self.read_digit();
            return TokenType::INT(digits);
        } else {
            token = TokenType::ILLEGAL;
        }
        self.read_char();
        token
    }
}

} // verus!
