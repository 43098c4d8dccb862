//! The lexical scanner: turns source text into positioned tokens, pulled
//! one at a time. A character the scanner cannot read becomes a `Poison`
//! token; the end of the input becomes `Eof`, over and over.

use vstd::prelude::*;

use crate::strings::push_char;
use crate::token::{look_up_ident, spec_look_up_ident, Token, TokenType, TokenV};

verus! {

/// The scanner state: the input characters, the index of the next unread
/// character, the character in hand, and the position of that character.
pub struct Lexer {
    pub chars: Vec<char>,
    pub pos: usize,
    pub ch: char,
    pub row: i64,
    pub column: i64,
}

/// The mathematical value of the scanner state.
pub struct LexerV {
    pub chars: Seq<char>,
    pub pos: int,
    pub ch: char,
    pub row: i64,
    pub column: i64,
}

impl View for Lexer {
    type V = LexerV;

    open spec fn view(&self) -> LexerV {
        LexerV {
            chars: self.chars@,
            pos: self.pos as int,
            ch: self.ch,
            row: self.row,
            column: self.column,
        }
    }
}

/// A scanner state the code can run on: the reading head sits at most one
/// past the end, the position counters cannot overflow, and past the end
/// the character in hand is the end marker.
pub open spec fn lexer_wf(st: LexerV) -> bool {
    &&& st.chars.len() + 2 <= i64::MAX
    &&& st.chars.len() + 2 <= usize::MAX
    &&& 0 <= st.pos <= st.chars.len() + 1
    &&& 0 <= st.column <= st.pos
    &&& 1 <= st.row <= st.pos + 1
    &&& (st.pos > st.chars.len() ==> st.ch == '\u{0}')
}

pub open spec fn is_ws(c: char) -> bool {
    c == ' ' || c == '\t' || c == '\r' || c == '\n'
}

pub open spec fn is_letter_c(c: char) -> bool {
    ('a' <= c && c <= 'z') || ('A' <= c && c <= 'Z') || c == '_'
}

pub open spec fn is_digit_c(c: char) -> bool {
    '0' <= c && c <= '9'
}

/// A character that may continue an identifier: letters, underscores and,
/// after the first character, digits.
pub open spec fn is_ident_c(c: char) -> bool {
    is_letter_c(c) || is_digit_c(c)
}

/// Reading one character: it becomes the character in hand, the column
/// advances, and a newline moves the position to the start of the next
/// row. Past the end the state no longer changes and the character in hand
/// stays the end marker.
pub open spec fn s_read_char(st: LexerV) -> LexerV {
    if st.pos < st.chars.len() {
        let c = st.chars[st.pos];
        LexerV {
            chars: st.chars,
            pos: st.pos + 1,
            ch: c,
            row: if c == '\n' {
                (st.row + 1) as i64
            } else {
                st.row
            },
            column: if c == '\n' {
                0
            } else {
                (st.column + 1) as i64
            },
        }
    } else if st.pos == st.chars.len() {
        LexerV {
            chars: st.chars,
            pos: st.pos + 1,
            ch: '\u{0}',
            row: st.row,
            column: (st.column + 1) as i64,
        }
    } else {
        LexerV { chars: st.chars, pos: st.pos, ch: '\u{0}', row: st.row, column: st.column }
    }
}

/// The next unread character, or the end marker.
pub open spec fn s_peek(st: LexerV) -> char {
    if st.pos < st.chars.len() {
        st.chars[st.pos]
    } else {
        '\u{0}'
    }
}

pub open spec fn s_skip_ws(st: LexerV) -> LexerV
    decreases st.chars.len() + 1 - st.pos,
{
    if is_ws(st.ch) && st.pos <= st.chars.len() {
        s_skip_ws(s_read_char(st))
    } else {
        st
    }
}

/// Reading a word: the identifier characters in hand, gathered onto `acc`
/// until something else appears.
pub open spec fn s_read_word(st: LexerV, acc: Seq<char>) -> (Seq<char>, LexerV)
    decreases st.chars.len() + 1 - st.pos,
{
    if is_ident_c(st.ch) && st.pos <= st.chars.len() {
        s_read_word(s_read_char(st), acc.push(st.ch))
    } else {
        (acc, st)
    }
}

/// Reading a number: the digits in hand, gathered onto `acc`.
pub open spec fn s_read_digits(st: LexerV, acc: Seq<char>) -> (Seq<char>, LexerV)
    decreases st.chars.len() + 1 - st.pos,
{
    if is_digit_c(st.ch) && st.pos <= st.chars.len() {
        s_read_digits(s_read_char(st), acc.push(st.ch))
    } else {
        (acc, st)
    }
}

pub open spec fn tv(token_type: TokenType, literal: Seq<char>, row: i64, column: i64) -> TokenV {
    TokenV { token_type, literal, row, column }
}

/// The next token of the input, and the scanner state after it.
#[verifier::opaque]
pub open spec fn s_next_token(st0: LexerV) -> (TokenV, LexerV) {
    let st = s_skip_ws(st0);
    let row = st.row;
    let col = st.column;
    if st.ch == '=' {
        if s_peek(st) == '=' {
            (tv(TokenType::Eq, "=="@, row, col), s_read_char(s_read_char(st)))
        } else {
            (tv(TokenType::Assign, "="@, row, col), s_read_char(st))
        }
    } else if st.ch == '+' {
        (tv(TokenType::Plus, "+"@, row, col), s_read_char(st))
    } else if st.ch == '-' {
        (tv(TokenType::Minus, "-"@, row, col), s_read_char(st))
    } else if st.ch == '*' {
        (tv(TokenType::Asterisk, "*"@, row, col), s_read_char(st))
    } else if st.ch == '/' {
        (tv(TokenType::Slash, "/"@, row, col), s_read_char(st))
    } else if st.ch == '!' {
        if s_peek(st) == '=' {
            (tv(TokenType::Neq, "!="@, row, col), s_read_char(s_read_char(st)))
        } else {
            (tv(TokenType::Bang, "!"@, row, col), s_read_char(st))
        }
    } else if st.ch == '<' {
        (tv(TokenType::Lt, "<"@, row, col), s_read_char(st))
    } else if st.ch == '>' {
        (tv(TokenType::Gt, ">"@, row, col), s_read_char(st))
    } else if st.ch == ',' {
        (tv(TokenType::Comma, ","@, row, col), s_read_char(st))
    } else if st.ch == ';' {
        (tv(TokenType::Semicolon, ";"@, row, col), s_read_char(st))
    } else if st.ch == '(' {
        (tv(TokenType::Lparen, "("@, row, col), s_read_char(st))
    } else if st.ch == ')' {
        (tv(TokenType::Rparen, ")"@, row, col), s_read_char(st))
    } else if st.ch == '{' {
        (tv(TokenType::Lbrace, "{"@, row, col), s_read_char(st))
    } else if st.ch == '}' {
        (tv(TokenType::Rbrace, "}"@, row, col), s_read_char(st))
    } else if st.ch == '\u{0}' {
        (tv(TokenType::Eof, "\u{0}"@, row, col), s_read_char(st))
    } else if is_letter_c(st.ch) {
        let (w, st1) = s_read_word(st, Seq::empty());
        (tv(spec_look_up_ident(w), w, row, col), st1)
    } else if is_digit_c(st.ch) {
        let (w, st1) = s_read_digits(st, Seq::empty());
        (tv(TokenType::Int, w, row, col), st1)
    } else {
        (tv(TokenType::Poison, seq![st.ch], row, col), s_read_char(st))
    }
}

/// The whole token stream of the input, ending just before the `Eof`
/// token.
#[verifier::opaque]
pub open spec fn s_tokenize(st: LexerV) -> Seq<TokenV>
    decreases st.chars.len() + 2 - st.pos,
{
    let (t, st1) = s_next_token(st);
    if t.token_type == TokenType::Eof {
        Seq::empty()
    } else if st.pos < st1.pos && st1.pos <= st.chars.len() + 1 && st1.chars == st.chars {
        seq![t] + s_tokenize(st1)
    } else {
        seq![t]
    }
}

/// The views of a token list.
pub open spec fn tokens_view(ts: Seq<Token>) -> Seq<TokenV> {
    ts.map_values(|t: Token| t@)
}

/// The scanner state fresh on an input.
pub open spec fn s_lexer_new(chars: Seq<char>) -> LexerV {
    LexerV { chars, pos: 0, ch: ' ', row: 1, column: 0 }
}

impl Lexer {
    /// A scanner at the start of the input.
    pub fn new(input: &str) -> (r: Lexer)
        requires
            input@.len() + 2 <= i64::MAX,
            input@.len() + 2 <= usize::MAX,
        ensures
            r@ == s_lexer_new(input@),
            lexer_wf(r@),
    {
        let mut chars: Vec<char> = Vec::new();
        let n = input.unicode_len();
        let mut i: usize = 0;
        while i < n
            invariant
                n == input@.len(),
                i <= n,
                chars@ == input@.subrange(0, i as int),
            decreases n - i,
        {
            let c = input.get_char(i);
            chars.push(c);
            proof {
                assert(chars@ =~= input@.subrange(0, i + 1));
            }
            i += 1;
        }
        proof {
            assert(chars@ =~= input@);
        }
        Lexer { chars, pos: 0, ch: ' ', row: 1, column: 0 }
    }

    /// Starts over on a new input.
    pub fn reset(&mut self, input: &str)
        requires
            input@.len() + 2 <= i64::MAX,
            input@.len() + 2 <= usize::MAX,
        ensures
            final(self)@ == s_lexer_new(input@),
            lexer_wf(final(self)@),
    {
        let fresh = Lexer::new(input);
        *self = fresh;
    }

    fn read_char(&mut self)
        requires
            lexer_wf(old(self)@),
        ensures
            final(self)@ == s_read_char(old(self)@),
            lexer_wf(final(self)@),
    {
        if self.pos < self.chars.len() {
            self.ch = self.chars[self.pos];
            self.pos = self.pos + 1;
            if self.ch == '\n' {
                self.row = self.row + 1;
                self.column = 0;
            } else {
                self.column = self.column + 1;
            }
        } else if self.pos == self.chars.len() {
            self.ch = '\u{0}';
            self.pos = self.pos + 1;
            self.column = self.column + 1;
        } else {
            self.ch = '\u{0}';
        }
    }

    fn peek_char(&self) -> (c: char)
        ensures
            c == s_peek(self@),
    {
        if self.pos < self.chars.len() {
            self.chars[self.pos]
        } else {
            '\u{0}'
        }
    }

    fn skip_whitespaces(&mut self)
        requires
            lexer_wf(old(self)@),
        ensures
            final(self)@ == s_skip_ws(old(self)@),
            lexer_wf(final(self)@),
            final(self)@.chars == old(self)@.chars,
            old(self)@.pos <= final(self)@.pos,
    {
        let ghost st0 = self@;
        while self.ch == ' ' || self.ch == '\t' || self.ch == '\r' || self.ch == '\n'
            invariant
                lexer_wf(self@),
                s_skip_ws(st0) == s_skip_ws(self@),
                self@.chars == st0.chars,
                st0.pos <= self@.pos,
            decreases self@.chars.len() + 1 - self@.pos,
        {
            self.read_char();
        }
    }

    fn read_ident(&mut self) -> (w: String)
        requires
            lexer_wf(old(self)@),
        ensures
            (w@, final(self)@) == s_read_word(old(self)@, Seq::<char>::empty()),
            lexer_wf(final(self)@),
            final(self)@.chars == old(self)@.chars,
            old(self)@.pos <= final(self)@.pos,
            is_ident_c(old(self)@.ch) && old(self)@.pos <= old(self)@.chars.len() ==> old(
                self,
            )@.pos < final(self)@.pos,
    {
        let ghost st0 = self@;
        let mut w = String::new();
        while ('a' <= self.ch && self.ch <= 'z') || ('A' <= self.ch && self.ch <= 'Z') || self.ch
            == '_' || ('0' <= self.ch && self.ch <= '9')
            invariant
                lexer_wf(self@),
                s_read_word(st0, Seq::<char>::empty()) == s_read_word(self@, w@),
                self@.chars == st0.chars,
                st0.pos <= self@.pos,
                self@ == st0 && w@.len() == 0 || st0.pos < self@.pos,
            decreases self@.chars.len() + 1 - self@.pos,
        {
            let ghost wpre = w@;
            let c = self.ch;
            push_char(&mut w, c);
            self.read_char();
            proof {
                assert(w@ =~= wpre.push(c));
            }
        }
        w
    }

    fn read_number(&mut self) -> (w: String)
        requires
            lexer_wf(old(self)@),
        ensures
            (w@, final(self)@) == s_read_digits(old(self)@, Seq::<char>::empty()),
            lexer_wf(final(self)@),
            final(self)@.chars == old(self)@.chars,
            old(self)@.pos <= final(self)@.pos,
            is_digit_c(old(self)@.ch) && old(self)@.pos <= old(self)@.chars.len() ==> old(
                self,
            )@.pos < final(self)@.pos,
    {
        let ghost st0 = self@;
        let mut w = String::new();
        while '0' <= self.ch && self.ch <= '9'
            invariant
                lexer_wf(self@),
                s_read_digits(st0, Seq::<char>::empty()) == s_read_digits(self@, w@),
                self@.chars == st0.chars,
                st0.pos <= self@.pos,
                self@ == st0 && w@.len() == 0 || st0.pos < self@.pos,
            decreases self@.chars.len() + 1 - self@.pos,
        {
            let ghost wpre = w@;
            let c = self.ch;
            push_char(&mut w, c);
            self.read_char();
            proof {
                assert(w@ =~= wpre.push(c));
            }
        }
        w
    }

    /// Pulls the next token off the input.
    pub fn next_token(&mut self) -> (t: Token)
        requires
            lexer_wf(old(self)@),
        ensures
            t@ == s_next_token(old(self)@).0,
            final(self)@ == s_next_token(old(self)@).1,
            lexer_wf(final(self)@),
            final(self)@.chars == old(self)@.chars,
            t@.token_type != TokenType::Eof ==> old(self)@.pos < final(self)@.pos,
    {
        proof {
            reveal(s_next_token);
        }
        self.skip_whitespaces();
        let row = self.row;
        let column = self.column;
        let t = match self.ch {
            '=' => {
                if self.peek_char() == '=' {
                    self.read_char();
                    Token::new(TokenType::Eq, "==", row, column)
                } else {
                    Token::new(TokenType::Assign, "=", row, column)
                }
            },
            '+' => Token::new(TokenType::Plus, "+", row, column),
            '-' => Token::new(TokenType::Minus, "-", row, column),
            '*' => Token::new(TokenType::Asterisk, "*", row, column),
            '/' => Token::new(TokenType::Slash, "/", row, column),
            '!' => {
                if self.peek_char() == '=' {
                    self.read_char();
                    Token::new(TokenType::Neq, "!=", row, column)
                } else {
                    Token::new(TokenType::Bang, "!", row, column)
                }
            },
            '<' => Token::new(TokenType::Lt, "<", row, column),
            '>' => Token::new(TokenType::Gt, ">", row, column),
            ',' => Token::new(TokenType::Comma, ",", row, column),
            ';' => Token::new(TokenType::Semicolon, ";", row, column),
            '(' => Token::new(TokenType::Lparen, "(", row, column),
            ')' => Token::new(TokenType::Rparen, ")", row, column),
            '{' => Token::new(TokenType::Lbrace, "{", row, column),
            '}' => Token::new(TokenType::Rbrace, "}", row, column),
            '\u{0}' => Token::new(TokenType::Eof, "\u{0}", row, column),
            c => {
                if ('a' <= c && c <= 'z') || ('A' <= c && c <= 'Z') || c == '_' {
                    let w = self.read_ident();
                    let token_type = look_up_ident(w.as_str());
                    return Token { token_type, literal: w, row, column };
                } else if '0' <= c && c <= '9' {
                    let w = self.read_number();
                    return Token { token_type: TokenType::Int, literal: w, row, column };
                } else {
                    let mut lit = String::new();
                    push_char(&mut lit, c);
                    proof {
                        assert(lit@ =~= seq![c]);
                    }
                    let tk = Token { token_type: TokenType::Poison, literal: lit, row, column };
                    self.read_char();
                    return tk;
                }
            },
        };
        self.read_char();
        t
    }

    /// Scans the whole input into its token list, without the final `Eof`
    /// token.
    pub fn tokenize(input: &str) -> (r: Vec<Token>)
        requires
            input@.len() + 2 <= i64::MAX,
            input@.len() + 2 <= usize::MAX,
        ensures
            tokens_view(r@) == s_tokenize(s_lexer_new(input@)),
    {
        proof {
            reveal(s_tokenize);
        }
        let mut lx = Lexer::new(input);
        let mut out: Vec<Token> = Vec::new();
        tokenize_into(&mut lx, &mut out);
        proof {
            assert(tokens_view(out@) =~= Seq::<TokenV>::empty() + s_tokenize(s_lexer_new(input@)));
        }
        out
    }
}

fn tokenize_into(lx: &mut Lexer, out: &mut Vec<Token>)
    requires
        lexer_wf(old(lx)@),
        old(out)@.len() == 0,
    ensures
        tokens_view(final(out)@) == tokens_view(old(out)@) + s_tokenize(old(lx)@),
    decreases old(lx)@.chars.len() + 2 - old(lx)@.pos,
{
    proof {
        reveal(s_tokenize);
    }
    let t = lx.next_token();
    if t.token_type == TokenType::Eof {
        proof {
            assert(tokens_view(out@) =~= tokens_view(old(out)@) + s_tokenize(old(lx)@));
        }
    } else {
        let ghost tval = t@;
        tokenize_into(lx, out);
        let ghost rest = out@;
        out.insert(0, t);
        proof {
            assert(tokens_view(out@) =~= seq![tval] + tokens_view(rest));
            assert(tokens_view(out@) =~= tokens_view(old(out)@) + s_tokenize(old(lx)@));
        }
    }
}

} // verus!
