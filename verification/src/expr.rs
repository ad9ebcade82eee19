//! The lexer of the length expressions that place layout elements
//! (`5% + 10px`, `$gutter * 2`, ...).
use vstd::prelude::*;

use crate::text::{chars_of, string_from_chars};

verus! {

/// A token of a length expression.  Numbers, units and variable names keep
/// their text.
pub enum Token {
    Number(String),
    Unit(String),
    Var(String),
    Plus,
    Minus,
    Star,
    Slash,
    LParen,
    RParen,
}

pub enum TokenV {
    Number(Seq<char>),
    Unit(Seq<char>),
    Var(Seq<char>),
    Plus,
    Minus,
    Star,
    Slash,
    LParen,
    RParen,
}

impl View for Token {
    type V = TokenV;

    open spec fn view(&self) -> TokenV {
        match self {
            Token::Number(s) => TokenV::Number(s@),
            Token::Unit(s) => TokenV::Unit(s@),
            Token::Var(s) => TokenV::Var(s@),
            Token::Plus => TokenV::Plus,
            Token::Minus => TokenV::Minus,
            Token::Star => TokenV::Star,
            Token::Slash => TokenV::Slash,
            Token::LParen => TokenV::LParen,
            Token::RParen => TokenV::RParen,
        }
    }
}

/// ASCII whitespace: space, tab, line feed, form feed, carriage return.
pub open spec fn is_space(c: char) -> bool {
    c == ' ' || c == '\t' || c == '\n' || c == '\x0C' || c == '\r'
}

pub open spec fn is_digit(c: char) -> bool {
    '0' <= c && c <= '9'
}

pub open spec fn is_alpha(c: char) -> bool {
    ('a' <= c && c <= 'z') || ('A' <= c && c <= 'Z')
}

/// A character of a variable name: ASCII letter, digit or underscore.
pub open spec fn is_ident(c: char) -> bool {
    is_alpha(c) || is_digit(c) || c == '_'
}

/// A character of a numeral: digit or point.
pub open spec fn is_numeral(c: char) -> bool {
    is_digit(c) || c == '.'
}

/// The first position at or after `pos` that does not hold whitespace.
pub open spec fn skip_space(s: Seq<char>, pos: int) -> int
    decreases s.len() - pos,
{
    if 0 <= pos < s.len() && is_space(s[pos]) {
        skip_space(s, pos + 1)
    } else {
        pos
    }
}

/// The end of the run of characters of the class from `pos` on
/// (0: name characters, 1: numeral characters, 2: letters).
pub open spec fn scan(s: Seq<char>, pos: int, class: nat) -> int
    decreases s.len() - pos,
{
    if 0 <= pos < s.len() && (if class == 0 {
        is_ident(s[pos])
    } else if class == 1 {
        is_numeral(s[pos])
    } else {
        is_alpha(s[pos])
    }) {
        scan(s, pos + 1, class)
    } else {
        pos
    }
}

pub proof fn lemma_skip_space(s: Seq<char>, pos: int)
    requires
        0 <= pos,
    ensures
        pos <= skip_space(s, pos),
        pos <= s.len() ==> skip_space(s, pos) <= s.len(),
    decreases s.len() - pos,
{
    if 0 <= pos < s.len() && is_space(s[pos]) {
        lemma_skip_space(s, pos + 1);
    }
}

pub proof fn lemma_scan(s: Seq<char>, pos: int, class: nat)
    requires
        0 <= pos,
    ensures
        pos <= scan(s, pos, class),
        pos <= s.len() ==> scan(s, pos, class) <= s.len(),
    decreases s.len() - pos,
{
    if 0 <= pos < s.len() && (if class == 0 {
        is_ident(s[pos])
    } else if class == 1 {
        is_numeral(s[pos])
    } else {
        is_alpha(s[pos])
    }) {
        lemma_scan(s, pos + 1, class);
    }
}

/// The next token of `s` from `pos` on and the position after it:
/// whitespace is skipped; `+ - * / ( )` are operators; `$` starts a
/// variable name; `%` is a unit; a digit or point starts a numeral; `p` or
/// `e` starts a unit of letters; any other character is skipped.
pub open spec fn lex_step(s: Seq<char>, pos: int) -> (Option<TokenV>, int)
    decreases s.len() - pos,
{
    let p = skip_space(s, pos);
    if p < 0 || p >= s.len() {
        (None, p)
    } else {
        let c = s[p];
        if c == '+' {
            (Some(TokenV::Plus), p + 1)
        } else if c == '-' {
            (Some(TokenV::Minus), p + 1)
        } else if c == '*' {
            (Some(TokenV::Star), p + 1)
        } else if c == '/' {
            (Some(TokenV::Slash), p + 1)
        } else if c == '(' {
            (Some(TokenV::LParen), p + 1)
        } else if c == ')' {
            (Some(TokenV::RParen), p + 1)
        } else if c == '$' {
            let e = scan(s, p + 1, 0);
            (Some(TokenV::Var(s.subrange(p + 1, e))), e)
        } else if c == '%' {
            (Some(TokenV::Unit(seq!['%'])), p + 1)
        } else if is_numeral(c) {
            let e = scan(s, p, 1);
            (Some(TokenV::Number(s.subrange(p, e))), e)
        } else if c == 'p' || c == 'e' {
            let e = scan(s, p, 2);
            (Some(TokenV::Unit(s.subrange(p, e))), e)
        } else {
            proof {
                if pos >= 0 {
                    lemma_skip_space(s, pos);
                }
            }
            lex_step(s, p + 1)
        }
    }
}

pub proof fn lemma_lex_step(s: Seq<char>, pos: int)
    requires
        0 <= pos <= s.len(),
    ensures
        lex_step(s, pos).0 is Some ==> pos < lex_step(s, pos).1 <= s.len(),
        lex_step(s, pos).0 is None ==> lex_step(s, pos).1 == s.len(),
    decreases s.len() - pos,
{
    lemma_skip_space(s, pos);
    let p = skip_space(s, pos);
    if p < s.len() {
        lemma_scan(s, p + 1, 0);
        lemma_scan(s, p, 1);
        lemma_scan(s, p, 2);
        let c = s[p];
        if !(c == '+' || c == '-' || c == '*' || c == '/' || c == '(' || c == ')' || c == '$' || c
            == '%' || is_numeral(c) || c == 'p' || c == 'e') {
            lemma_lex_step(s, p + 1);
        }
        if is_numeral(c) {
            lemma_scan(s, p + 1, 1);
            assert(scan(s, p, 1) > p);
        }
        if c == 'p' || c == 'e' {
            lemma_scan(s, p + 1, 2);
            assert(scan(s, p, 2) > p);
        }
    }
}

/// All tokens of `s` from `pos` on.
pub open spec fn tokens_from(s: Seq<char>, pos: int) -> Seq<TokenV>
    decreases s.len() - pos,
{
    if pos < 0 || pos > s.len() {
        Seq::empty()
    } else {
        let (t, next) = lex_step(s, pos);
        match t {
            None => Seq::empty(),
            Some(tok) => {
                proof {
                    lemma_lex_step(s, pos);
                }
                seq![tok] + tokens_from(s, next)
            },
        }
    }
}

fn in_class(c: char, class: u8) -> (r: bool)
    ensures
        r == (if class == 0 {
            is_ident(c)
        } else if class == 1 {
            is_numeral(c)
        } else {
            is_alpha(c)
        }),
{
    let alpha = (c >= 'a' && c <= 'z') || (c >= 'A' && c <= 'Z');
    let digit = c >= '0' && c <= '9';
    if class == 0 {
        alpha || digit || c == '_'
    } else if class == 1 {
        digit || c == '.'
    } else {
        alpha
    }
}

/// A lexer over the characters of an expression.
pub struct Lexer {
    input: Vec<char>,
    pos: usize,
}

impl Lexer {
    /// The characters being read.
    pub closed spec fn text(&self) -> Seq<char> {
        self.input@
    }

    /// The position of the next character to read.
    pub closed spec fn position(&self) -> int {
        self.pos as int
    }

    pub closed spec fn wf(&self) -> bool {
        self.pos <= self.input@.len()
    }

    /// A lexer at the start of `input`.
    pub fn new(input: &str) -> (r: Lexer)
        ensures
            r.wf(),
            r.text() == input@,
            r.position() == 0,
    {
        Lexer { input: chars_of(input), pos: 0 }
    }

    fn scan_exec(&self, start: usize, class: u8) -> (r: usize)
        requires
            self.wf(),
            start <= self.input@.len(),
            class <= 2,
        ensures
            r == scan(self.input@, start as int, class as nat),
            start <= r <= self.input@.len(),
    {
        let n = self.input.len();
        let mut i = start;
        while i < n && in_class(self.input[i], class)
            invariant
                n == self.input@.len(),
                start <= i <= n,
                class <= 2,
                scan(self.input@, start as int, class as nat) == scan(self.input@, i as int, class as nat),
            decreases n - i,
        {
            i = i + 1;
        }
        i
    }

    /// Reads the next token, or gives `None` at the end of the input.
    pub fn next_token(&mut self) -> (r: Option<Token>)
        requires
            old(self).wf(),
        ensures
            final(self).wf(),
            final(self).text() == old(self).text(),
            (match r {
                Some(t) => Some(t@),
                None => None,
            }, final(self).position()) == lex_step(old(self).text(), old(self).position()),
        decreases old(self).text().len() - old(self).position(),
    {
        let n = self.input.len();
        let ghost start = self.pos as int;
        while self.pos < n && (self.input[self.pos] == ' ' || self.input[self.pos] == '\t'
            || self.input[self.pos] == '\n' || self.input[self.pos] == '\x0C' || self.input[self.pos]
            == '\r')
            invariant
                n == self.input@.len(),
                self.input@ == old(self).input@,
                start == old(self).pos,
                start <= self.pos <= n,
                skip_space(self.input@, start) == skip_space(self.input@, self.pos as int),
            decreases n - self.pos,
        {
            self.pos = self.pos + 1;
        }
        if self.pos >= n {
            return None;
        }
        let p = self.pos;
        let c = self.input[p];
        if c == '+' {
            self.pos = p + 1;
            Some(Token::Plus)
        } else if c == '-' {
            self.pos = p + 1;
            Some(Token::Minus)
        } else if c == '*' {
            self.pos = p + 1;
            Some(Token::Star)
        } else if c == '/' {
            self.pos = p + 1;
            Some(Token::Slash)
        } else if c == '(' {
            self.pos = p + 1;
            Some(Token::LParen)
        } else if c == ')' {
            self.pos = p + 1;
            Some(Token::RParen)
        } else if c == '$' {
            let e = self.scan_exec(p + 1, 0);
            let name = string_from_chars(&self.input.as_slice()[p + 1..e]);
            self.pos = e;
            Some(Token::Var(name))
        } else if c == '%' {
            self.pos = p + 1;
            let mut u = String::new();
            crate::text::push_char(&mut u, '%');
            assert(u@ =~= seq!['%']);
            Some(Token::Unit(u))
        } else if c == '.' || (c >= '0' && c <= '9') {
            let e = self.scan_exec(p, 1);
            let text = string_from_chars(&self.input.as_slice()[p..e]);
            self.pos = e;
            Some(Token::Number(text))
        } else if c == 'p' || c == 'e' {
            let e = self.scan_exec(p, 2);
            let text = string_from_chars(&self.input.as_slice()[p..e]);
            self.pos = e;
            Some(Token::Unit(text))
        } else {
            self.pos = p + 1;
            self.next_token()
        }
    }
}

/// All tokens of an expression, and whether any of them is a unit.
pub fn lex_expression(expr: &str) -> (r: (Vec<Token>, bool))
    ensures
        r.0@.map_values(|t: Token| t@) == tokens_from(expr@, 0),
        r.1 == exists|k: int| 0 <= k < r.0@.len() && r.0@[k] is Unit,
{
    let mut lexer = Lexer::new(expr);
    let mut tokens: Vec<Token> = Vec::new();
    let mut has_units = false;
    loop
        invariant
            lexer.wf(),
            lexer.text() == expr@,
            0 <= lexer.position() <= expr@.len(),
            tokens@.map_values(|t: Token| t@) + tokens_from(expr@, lexer.position()) == tokens_from(expr@, 0),
            has_units == exists|k: int| 0 <= k < tokens@.len() && tokens@[k] is Unit,
        decreases expr@.len() - lexer.position(),
    {
        let ghost before = tokens@.map_values(|t: Token| t@);
        let ghost p0 = lexer.position();
        proof {
            lemma_lex_step(expr@, p0);
        }
        match lexer.next_token() {
            None => {
                assert(tokens_from(expr@, p0) =~= Seq::<TokenV>::empty());
                assert(before =~= tokens_from(expr@, 0));
                return (tokens, has_units);
            },
            Some(t) => {
                let is_unit = match t {
                    Token::Unit(_) => true,
                    _ => false,
                };
                let ghost tv = t@;
                let ghost old_tokens = tokens@;
                tokens.push(t);
                assert forall|k: int| 0 <= k < old_tokens.len() implies tokens@[k] == old_tokens[k] by {}
                assert(tokens@[tokens@.len() - 1] == t);
                assert(tokens@.map_values(|t: Token| t@) =~= before.push(tv));
                assert(tokens_from(expr@, p0) == seq![tv] + tokens_from(expr@, lexer.position()));
                assert(before.push(tv) + tokens_from(expr@, lexer.position()) =~= before + tokens_from(
                    expr@,
                    p0,
                ));
                if is_unit {
                    has_units = true;
                    assert(tokens@[tokens@.len() - 1] is Unit);
                } else {
                    assert(!(tokens@[tokens@.len() - 1] is Unit));
                    proof {
                        if exists|k: int| 0 <= k < tokens@.len() && tokens@[k] is Unit {
                            let k = choose|k: int| 0 <= k < tokens@.len() && tokens@[k] is Unit;
                            assert(old_tokens[k] is Unit);
                        }
                    }
                }
            },
        }
    }
}

} // verus!
