use vstd::prelude::*;

use crate::lexer::{token_stream, Lexer, lemma_scan_progress};
use crate::token::{Token, TokenType};
use vstd::string::StringSliceAdditionalSpecFns;

verus! {

/// What the read loop does after one line has been handed in.
#[derive(Debug, Clone, Copy, PartialEq, Eq, Structural)]
pub enum Action {
    /// The line was too short to hold input: prompt again.
    Skip,
    /// The line was the exit word: leave the loop.
    Exit,
    /// The line was lexed: show the tokens, then prompt again.
    Print,
}

/// Lines whose raw length, line break included, is at most this many bytes
/// hold no input.
pub const MIN_LINE_BYTES: usize = 2;

/// The state of an interactive session: the word that ends it and the tokens
/// of the last line read.
#[derive(Debug)]
pub struct Repl {
    tokens: Vec<TokenType>,
    exit_word: String,
}

impl Repl {
    /// The tokens of the last line, as models.
    pub closed spec fn shown(&self) -> Seq<Token> {
        self.tokens@.map_values(|t: TokenType| t@)
    }

    /// The word that ends the session.
    pub closed spec fn exit_word(&self) -> Seq<char> {
        self.exit_word@
    }

    pub fn new(exit_word: &str) -> (r: Repl)
        ensures
            r.exit_word() == exit_word@,
            r.shown() == Seq::<Token>::empty(),
    {
        let r = Repl { tokens: Vec::new(), exit_word: exit_word.to_owned() };
        assert(r.shown() =~= Seq::<Token>::empty());
        r
    }

    /// The tokens of the last line.
    pub fn tokens(&self) -> (r: &Vec<TokenType>)
        ensures
            r@.map_values(|t: TokenType| t@) == self.shown(),
    {
        &self.tokens
    }

    /// Lexes `input` to the end and appends its tokens, the end marker last.
    pub fn interpret(&mut self, input: &str)
        ensures
            final(self).exit_word() == old(self).exit_word(),
            final(self).shown() == old(self).shown() + token_stream(input.spec_bytes(), 0),
    {
        let ghost s = input.spec_bytes();
        let mut lexer = Lexer::from(input);
        loop
            invariant_except_break
                self.shown() + token_stream(s, lexer.cursor()) == old(self).shown()
                    + token_stream(s, 0),
            invariant
                lexer.wf(),
                lexer.source() == s,
                lexer.cursor() <= s.len(),
                self.exit_word() == old(self).exit_word(),
            ensures
                self.shown() == old(self).shown() + token_stream(s, 0),
            decreases s.len() - lexer.cursor(),
        {
            let ghost before = self.shown();
            let ghost c = lexer.cursor();
            proof {
                lemma_scan_progress(s, c);
            }
            let token = lexer.next_token();
            let ghost t = token@;
            let done = matches!(token, TokenType::EOF);
            self.tokens.push(token);
            assert(self.shown() =~= before.push(t));
            if done {
                assert(before + token_stream(s, c) =~= self.shown());
                break;
            }
            assert(before + token_stream(s, c) =~= self.shown() + token_stream(s, lexer.cursor()));
        }
    }

    /// Handles one line read by the loop: `bytes_read` is its raw length as
    /// read, `line` the line with surrounding whitespace removed. Short lines
    /// are skipped, the exit word ends the session, any other line is lexed
    /// and its tokens replace those of the previous line.
    pub fn respond(&mut self, bytes_read: usize, line: &str) -> (a: Action)
        ensures
            final(self).exit_word() == old(self).exit_word(),
            bytes_read <= MIN_LINE_BYTES ==> a == Action::Skip && final(self).shown()
                == Seq::<Token>::empty(),
            bytes_read > MIN_LINE_BYTES && line@ == old(self).exit_word() ==> a == Action::Exit
                && final(self).shown() == Seq::<Token>::empty(),
            bytes_read > MIN_LINE_BYTES && line@ != old(self).exit_word() ==> a == Action::Print
                && final(self).shown() == token_stream(line.spec_bytes(), 0),
    {
        self.tokens = Vec::new();
        assert(self.shown() =~= Seq::<Token>::empty());
        if bytes_read <= MIN_LINE_BYTES {
            return Action::Skip;
        }
        let owned = line.to_owned();
        if owned.eq(&self.exit_word) {
            return Action::Exit;
        }
        self.interpret(line);
        assert(self.shown() =~= token_stream(line.spec_bytes(), 0));
        Action::Print
    }
}

} // verus!
