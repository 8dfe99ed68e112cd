//! Lexical analysis of declaration text.
//!
//! The declaration grammar uses a small token set: identifiers, decimal
//! numbers, and the punctuation `:`, `,`, `*`, `(`, `)`. Whitespace
//! separates tokens and is otherwise ignored; any other character is a
//! lexical error reported at its position.

use vstd::prelude::*;
use vstd::string::StrSliceExecFns;

verus! {

/// One lexical token of the declaration grammar.
#[derive(Debug)]
pub enum Token {
    Ident(String),
    Number(String),
    Colon,
    Comma,
    Star,
    LParen,
    RParen,
}

/// The mathematical value of a token: identifier and number text as
/// character sequences.
pub enum TokenV {
    Ident(Seq<char>),
    Number(Seq<char>),
    Colon,
    Comma,
    Star,
    LParen,
    RParen,
}

impl View for Token {
    type V = TokenV;

    open spec fn view(&self) -> TokenV {
        match self {
            Token::Ident(s) => TokenV::Ident(s@),
            Token::Number(s) => TokenV::Number(s@),
            Token::Colon => TokenV::Colon,
            Token::Comma => TokenV::Comma,
            Token::Star => TokenV::Star,
            Token::LParen => TokenV::LParen,
            Token::RParen => TokenV::RParen,
        }
    }
}

/// The values of a whole token stream.
pub open spec fn token_views(ts: Seq<Token>) -> Seq<TokenV> {
    ts.map_values(|t: Token| t@)
}

pub proof fn lemma_token_views_push(ts: Seq<Token>, t: Token)
    ensures
        token_views(ts.push(t)) == token_views(ts).push(t@),
{
    assert(token_views(ts.push(t)) =~= token_views(ts).push(t@));
}

pub open spec fn is_space(c: char) -> bool {
    c == ' ' || c == '\t' || c == '\n' || c == '\r'
}

pub open spec fn is_digit(c: char) -> bool {
    48 <= c as u32 && c as u32 <= 57
}

pub open spec fn is_ident_start(c: char) -> bool {
    (65 <= c as u32 && c as u32 <= 90) || (97 <= c as u32 && c as u32 <= 122) || c as u32 == 95
}

pub open spec fn is_ident_cont(c: char) -> bool {
    is_ident_start(c) || is_digit(c)
}

/// End of the run of identifier characters starting at `i`.
pub open spec fn ident_end(s: Seq<char>, i: int) -> int
    decreases s.len() - i when 0 <= i <= s.len()
{
    if i < s.len() && is_ident_cont(s[i]) {
        ident_end(s, i + 1)
    } else {
        i
    }
}

/// End of the run of decimal digits starting at `i`.
pub open spec fn digits_end(s: Seq<char>, i: int) -> int
    decreases s.len() - i when 0 <= i <= s.len()
{
    if i < s.len() && is_digit(s[i]) {
        digits_end(s, i + 1)
    } else {
        i
    }
}

pub proof fn lemma_ident_end_bounds(s: Seq<char>, i: int)
    requires
        0 <= i <= s.len(),
    ensures
        i <= ident_end(s, i) <= s.len(),
    decreases s.len() - i,
{
    if i < s.len() && is_ident_cont(s[i]) {
        lemma_ident_end_bounds(s, i + 1);
    }
}

pub proof fn lemma_digits_end_bounds(s: Seq<char>, i: int)
    requires
        0 <= i <= s.len(),
    ensures
        i <= digits_end(s, i) <= s.len(),
    decreases s.len() - i,
{
    if i < s.len() && is_digit(s[i]) {
        lemma_digits_end_bounds(s, i + 1);
    }
}

/// Prepends a token to the result of lexing the rest of the input.
pub open spec fn lex_cons(t: TokenV, rest: Result<Seq<TokenV>, int>) -> Result<Seq<TokenV>, int> {
    match rest {
        Ok(ts) => Ok(seq![t] + ts),
        Err(p) => Err(p),
    }
}

/// The token stream of `s` from position `i` on, or the position of the
/// first character that belongs to no token.
pub open spec fn spec_lex(s: Seq<char>, i: int) -> Result<Seq<TokenV>, int>
    decreases s.len() - i when 0 <= i <= s.len() via spec_lex_decreases
{
    if i >= s.len() {
        Ok(Seq::empty())
    } else {
        let c = s[i];
        if is_space(c) {
            spec_lex(s, i + 1)
        } else if c == ':' {
            lex_cons(TokenV::Colon, spec_lex(s, i + 1))
        } else if c == ',' {
            lex_cons(TokenV::Comma, spec_lex(s, i + 1))
        } else if c == '*' {
            lex_cons(TokenV::Star, spec_lex(s, i + 1))
        } else if c == '(' {
            lex_cons(TokenV::LParen, spec_lex(s, i + 1))
        } else if c == ')' {
            lex_cons(TokenV::RParen, spec_lex(s, i + 1))
        } else if is_ident_start(c) {
            let j = ident_end(s, i + 1);
            lex_cons(TokenV::Ident(s.subrange(i, j)), spec_lex(s, j))
        } else if is_digit(c) {
            let j = digits_end(s, i + 1);
            lex_cons(TokenV::Number(s.subrange(i, j)), spec_lex(s, j))
        } else {
            Err(i)
        }
    }
}

#[via_fn]
proof fn spec_lex_decreases(s: Seq<char>, i: int) {
    if 0 <= i < s.len() {
        lemma_ident_end_bounds(s, i + 1);
        lemma_digits_end_bounds(s, i + 1);
    }
}

fn space_char(c: char) -> (r: bool)
    ensures
        r == is_space(c),
{
    c == ' ' || c == '\t' || c == '\n' || c == '\r'
}

fn digit_char(c: char) -> (r: bool)
    ensures
        r == is_digit(c),
{
    let n = c as u32;
    48 <= n && n <= 57
}

fn ident_start_char(c: char) -> (r: bool)
    ensures
        r == is_ident_start(c),
{
    let n = c as u32;
    (65 <= n && n <= 90) || (97 <= n && n <= 122) || n == 95
}

fn ident_cont_char(c: char) -> (r: bool)
    ensures
        r == is_ident_cont(c),
{
    ident_start_char(c) || digit_char(c)
}

fn ident_run_end(s: &str, n: usize, i: usize) -> (j: usize)
    requires
        n == s@.len(),
        i <= n,
    ensures
        j == ident_end(s@, i as int),
        i <= j <= n,
    decreases n - i,
{
    if i < n {
        let c = s.get_char(i);
        if ident_cont_char(c) {
            ident_run_end(s, n, i + 1)
        } else {
            i
        }
    } else {
        i
    }
}

fn digits_run_end(s: &str, n: usize, i: usize) -> (j: usize)
    requires
        n == s@.len(),
        i <= n,
    ensures
        j == digits_end(s@, i as int),
        i <= j <= n,
    decreases n - i,
{
    if i < n {
        let c = s.get_char(i);
        if digit_char(c) {
            digits_run_end(s, n, i + 1)
        } else {
            i
        }
    } else {
        i
    }
}

fn lex_from(s: &str, n: usize, i: usize, toks: &mut Vec<Token>) -> (r: Result<(), usize>)
    requires
        n == s@.len(),
        i <= n,
    ensures
        match spec_lex(s@, i as int) {
            Ok(ts) => r is Ok && token_views(final(toks)@) == token_views(old(toks)@) + ts,
            Err(p) => r matches Err(q) && q as int == p,
        },
    decreases n - i, 0int,
{
    if i >= n {
        assert(token_views(toks@) =~= token_views(toks@) + Seq::<TokenV>::empty());
        return Ok(());
    }
    let c = s.get_char(i);
    if space_char(c) {
        lex_from(s, n, i + 1, toks)
    } else if c == ':' {
        push_and_lex(s, n, i + 1, toks, Token::Colon)
    } else if c == ',' {
        push_and_lex(s, n, i + 1, toks, Token::Comma)
    } else if c == '*' {
        push_and_lex(s, n, i + 1, toks, Token::Star)
    } else if c == '(' {
        push_and_lex(s, n, i + 1, toks, Token::LParen)
    } else if c == ')' {
        push_and_lex(s, n, i + 1, toks, Token::RParen)
    } else if ident_start_char(c) {
        let j = ident_run_end(s, n, i + 1);
        let text = s.substring_char(i, j).to_owned();
        push_and_lex(s, n, j, toks, Token::Ident(text))
    } else if digit_char(c) {
        let j = digits_run_end(s, n, i + 1);
        let text = s.substring_char(i, j).to_owned();
        push_and_lex(s, n, j, toks, Token::Number(text))
    } else {
        Err(i)
    }
}

/// Records one finished token, then lexes the rest of the input from `i`.
fn push_and_lex(s: &str, n: usize, i: usize, toks: &mut Vec<Token>, t: Token) -> (r: Result<
    (),
    usize,
>)
    requires
        n == s@.len(),
        i <= n,
    ensures
        match lex_cons(t@, spec_lex(s@, i as int)) {
            Ok(ts) => r is Ok && token_views(final(toks)@) == token_views(old(toks)@) + ts,
            Err(p) => r matches Err(q) && q as int == p,
        },
    decreases n - i, 1int,
{
    let ghost old_toks = toks@;
    toks.push(t);
    proof {
        lemma_token_views_push(old_toks, t);
    }
    let r = lex_from(s, n, i, toks);
    proof {
        match spec_lex(s@, i as int) {
            Ok(ts) => {
                assert(token_views(toks@) == token_views(old_toks).push(t@) + ts);
                assert(token_views(old_toks).push(t@) + ts =~= token_views(old_toks) + (seq![t@]
                    + ts));
            },
            Err(_) => {},
        }
    }
    r
}

/// Decides equality of two pieces of text by their characters.
pub fn str_eq(a: &str, b: &str) -> (r: bool)
    ensures
        r == (a@ == b@),
{
    let na = a.unicode_len();
    let nb = b.unicode_len();
    if na != nb {
        return false;
    }
    let mut i: usize = 0;
    while i < na
        invariant
            na == a@.len() == b@.len(),
            0 <= i <= na,
            forall|k: int| 0 <= k < i ==> a@[k] == b@[k],
        decreases na - i,
    {
        if a.get_char(i) != b.get_char(i) {
            return false;
        }
        i += 1;
    }
    proof {
        assert(a@ =~= b@);
    }
    true
}

/// Splits declaration text into its tokens, or reports the position of the
/// first character that belongs to no token.
pub fn lex(s: &str) -> (r: Result<Vec<Token>, usize>)
    ensures
        match r {
            Ok(ts) => spec_lex(s@, 0) == Ok::<Seq<TokenV>, int>(token_views(ts@)),
            Err(p) => spec_lex(s@, 0) == Err::<Seq<TokenV>, int>(p as int),
        },
{
    let n = s.unicode_len();
    let mut toks: Vec<Token> = Vec::new();
    match lex_from(s, n, 0, &mut toks) {
        Ok(()) => {
            proof {
                match spec_lex(s@, 0) {
                    Ok(ts) => {
                        assert(token_views(Seq::<Token>::empty()) + ts =~= ts);
                    },
                    Err(_) => {},
                }
            }
            Ok(toks)
        },
        Err(p) => Err(p),
    }
}

} // verus!
