//! The tokenizer of the change language: whitespace-separated identifiers,
//! lifetimes, literals and punctuation, each token carrying its text and
//! its byte offset in the input for positioned error reports.

use vstd::prelude::*;

use crate::model::ChangeError;

verus! {

/// The kind of one token.
#[derive(Clone, Copy, PartialEq, Eq, Structural, Debug)]
pub enum TokKind {
    /// An identifier, a keyword or an underscore.
    Ident,
    /// A lifetime: a quote followed by an identifier.
    Lifetime,
    /// A number or a string literal.
    Lit,
    /// A single punctuation byte, or a two-byte one: the arrow or the path
    /// separator.
    Punct,
}

/// One token: its kind, its text and its byte offset in the input.
pub struct Token {
    pub kind: TokKind,
    pub text: Vec<u8>,
    pub pos: usize,
}

/// Mathematical view of [`Token`].
#[verifier::ext_equal]
pub struct TokenV {
    pub kind: TokKind,
    pub text: Seq<u8>,
    pub pos: int,
}

impl View for Token {
    type V = TokenV;

    open spec fn view(&self) -> TokenV {
        TokenV { kind: self.kind, text: self.text@, pos: self.pos as int }
    }
}

/// The view of a token sequence.
pub open spec fn view_tokens(s: Seq<Token>) -> Seq<TokenV> {
    s.map_values(|t: Token| t@)
}

/// Whitespace: space, tab, line feed, carriage return.
pub open spec fn is_ws(b: u8) -> bool {
    b == 32 || b == 9 || b == 10 || b == 13
}

/// A byte that can begin an identifier: a letter, an underscore, or any
/// byte of a multi-byte character.
pub open spec fn is_ident_start(b: u8) -> bool {
    (97 <= b && b <= 122) || (65 <= b && b <= 90) || b == 95 || b >= 128
}

/// A decimal digit.
pub open spec fn is_digit(b: u8) -> bool {
    48 <= b && b <= 57
}

/// A byte that can continue an identifier or a number.
pub open spec fn is_ident_cont(b: u8) -> bool {
    is_ident_start(b) || is_digit(b)
}

/// The first index at or after `i` holding no whitespace.
pub open spec fn skip_ws(s: Seq<u8>, i: int) -> int
    decreases s.len() - i,
{
    if 0 <= i < s.len() && is_ws(s[i]) {
        skip_ws(s, i + 1)
    } else {
        i
    }
}

/// The first index at or after `i` that does not continue an identifier.
pub open spec fn ident_end(s: Seq<u8>, i: int) -> int
    decreases s.len() - i,
{
    if 0 <= i < s.len() && is_ident_cont(s[i]) {
        ident_end(s, i + 1)
    } else {
        i
    }
}

/// The index just past the closing quote of a string literal whose body
/// starts at `i`, honouring backslash escapes; nothing if the literal
/// never closes.
pub open spec fn str_end(s: Seq<u8>, i: int) -> Option<int>
    decreases s.len() - i,
{
    if i < 0 || i >= s.len() {
        None
    } else if s[i] == 34 {
        Some(i + 1)
    } else if s[i] == 92 {
        if i + 1 < s.len() {
            str_end(s, i + 2)
        } else {
            None
        }
    } else {
        str_end(s, i + 1)
    }
}

/// The token beginning at index `i`, which must hold no whitespace, and
/// the index just past it — or the position of a malformed token.
pub open spec fn token_at(s: Seq<u8>, i: int) -> Result<(TokenV, int), int> {
    let b = s[i];
    if is_ident_start(b) {
        let e = ident_end(s, i + 1);
        Ok((TokenV { kind: TokKind::Ident, text: s.subrange(i, e), pos: i }, e))
    } else if is_digit(b) {
        let e = ident_end(s, i + 1);
        Ok((TokenV { kind: TokKind::Lit, text: s.subrange(i, e), pos: i }, e))
    } else if b == 39 {
        if i + 1 < s.len() && is_ident_start(s[i + 1]) {
            let e = ident_end(s, i + 2);
            Ok((TokenV { kind: TokKind::Lifetime, text: s.subrange(i, e), pos: i }, e))
        } else {
            Err(i)
        }
    } else if b == 34 {
        match str_end(s, i + 1) {
            Some(e) => Ok((TokenV { kind: TokKind::Lit, text: s.subrange(i, e), pos: i }, e)),
            None => Err(i),
        }
    } else if b == 45 && i + 1 < s.len() && s[i + 1] == 62 {
        Ok((TokenV { kind: TokKind::Punct, text: s.subrange(i, i + 2), pos: i }, i + 2))
    } else if b == 58 && i + 1 < s.len() && s[i + 1] == 58 {
        Ok((TokenV { kind: TokKind::Punct, text: s.subrange(i, i + 2), pos: i }, i + 2))
    } else {
        Ok((TokenV { kind: TokKind::Punct, text: s.subrange(i, i + 1), pos: i }, i + 1))
    }
}

/// The tokens of the input from index `i` on, or the position of the
/// first malformed token.
pub open spec fn lex_from(s: Seq<u8>, i: int) -> Result<Seq<TokenV>, int>
    decreases s.len() - i,
{
    if i < 0 {
        Err(0)
    } else {
        let j = skip_ws(s, i);
        if j >= s.len() || j < i {
            Ok(Seq::empty())
        } else {
            match token_at(s, j) {
                Err(p) => Err(p),
                Ok((t, e)) => {
                    if e <= i || e > s.len() {
                        Err(j)
                    } else {
                        match lex_from(s, e) {
                            Ok(rest) => Ok(seq![t] + rest),
                            Err(p) => Err(p),
                        }
                    }
                },
            }
        }
    }
}

/// The whole input's tokens, or the position of the first malformed
/// token.
pub open spec fn lex_spec(s: Seq<u8>) -> Result<Seq<TokenV>, int> {
    lex_from(s, 0)
}

/// Prefixes already-read tokens onto the rest of a lexing run.
pub open spec fn prepend_tokens(pre: Seq<TokenV>, r: Result<Seq<TokenV>, int>) -> Result<
    Seq<TokenV>,
    int,
> {
    match r {
        Ok(rest) => Ok(pre + rest),
        Err(p) => Err(p),
    }
}

/// Whether a byte is whitespace.
fn ws_byte(b: u8) -> (r: bool)
    ensures
        r == is_ws(b),
{
    b == 32 || b == 9 || b == 10 || b == 13
}

/// Whether a byte can begin an identifier.
fn ident_start_byte(b: u8) -> (r: bool)
    ensures
        r == is_ident_start(b),
{
    (97 <= b && b <= 122) || (65 <= b && b <= 90) || b == 95 || b >= 128
}

/// Whether a byte can continue an identifier or a number.
fn ident_cont_byte(b: u8) -> (r: bool)
    ensures
        r == is_ident_cont(b),
{
    ident_start_byte(b) || (48 <= b && b <= 57)
}

/// The first non-whitespace index at or after `i`.
fn skip_ws_exec(s: &Vec<u8>, i: usize) -> (r: usize)
    requires
        i <= s.len(),
    ensures
        r == skip_ws(s@, i as int),
        i <= r <= s.len(),
    decreases s.len() - i,
{
    let mut k = i;
    while k < s.len() && ws_byte(s[k])
        invariant
            i <= k <= s.len(),
            skip_ws(s@, i as int) == skip_ws(s@, k as int),
        decreases s.len() - k,
    {
        k = k + 1;
    }
    k
}

/// The first index at or after `i` that does not continue an identifier.
fn ident_end_exec(s: &Vec<u8>, i: usize) -> (r: usize)
    requires
        i <= s.len(),
    ensures
        r == ident_end(s@, i as int),
        i <= r <= s.len(),
    decreases s.len() - i,
{
    let mut k = i;
    while k < s.len() && ident_cont_byte(s[k])
        invariant
            i <= k <= s.len(),
            ident_end(s@, i as int) == ident_end(s@, k as int),
        decreases s.len() - k,
    {
        k = k + 1;
    }
    k
}

/// The index just past a string literal's closing quote, if it closes.
fn str_end_exec(s: &Vec<u8>, i: usize) -> (r: Option<usize>)
    requires
        i <= s.len(),
    ensures
        match r {
            Some(e) => str_end(s@, i as int) == Some(e as int) && i < e <= s.len(),
            None => str_end(s@, i as int) is None,
        },
    decreases s.len() - i,
{
    let mut k = i;
    while k < s.len()
        invariant
            i <= k <= s.len(),
            str_end(s@, i as int) == str_end(s@, k as int),
        decreases s.len() - k,
    {
        if s[k] == 34 {
            return Some(k + 1);
        } else if s[k] == 92 {
            if k + 1 < s.len() {
                k = k + 2;
            } else {
                return None;
            }
        } else {
            k = k + 1;
        }
    }
    None
}

/// Copies the bytes of `s` between `i` and `e` into a fresh byte string.
pub fn copy_range(s: &Vec<u8>, i: usize, e: usize) -> (r: Vec<u8>)
    requires
        i <= e <= s.len(),
    ensures
        r@ == s@.subrange(i as int, e as int),
{
    let mut r: Vec<u8> = Vec::new();
    let mut k = i;
    while k < e
        invariant
            i <= k <= e <= s.len(),
            r@ == s@.subrange(i as int, k as int),
        decreases e - k,
    {
        r.push(s[k]);
        proof {
            assert(s@.subrange(i as int, k as int + 1) =~= s@.subrange(i as int, k as int).push(
                s@[k as int],
            ));
        }
        k = k + 1;
    }
    r
}

/// The token at non-whitespace index `i`, and the index just past it.
fn token_at_exec(s: &Vec<u8>, i: usize) -> (r: Result<(Token, usize), usize>)
    requires
        i < s.len(),
    ensures
        match r {
            Ok((t, e)) => token_at(s@, i as int) == Ok::<(TokenV, int), int>((t@, e as int)) && i
                < e <= s.len(),
            Err(p) => token_at(s@, i as int) == Err::<(TokenV, int), int>(p as int),
        },
{
    let b = s[i];
    if ident_start_byte(b) {
        let e = ident_end_exec(s, i + 1);
        Ok((Token { kind: TokKind::Ident, text: copy_range(s, i, e), pos: i }, e))
    } else if 48 <= b && b <= 57 {
        let e = ident_end_exec(s, i + 1);
        Ok((Token { kind: TokKind::Lit, text: copy_range(s, i, e), pos: i }, e))
    } else if b == 39 {
        if i + 1 < s.len() && ident_start_byte(s[i + 1]) {
            let e = ident_end_exec(s, i + 2);
            Ok((Token { kind: TokKind::Lifetime, text: copy_range(s, i, e), pos: i }, e))
        } else {
            Err(i)
        }
    } else if b == 34 {
        match str_end_exec(s, i + 1) {
            Some(e) => Ok((Token { kind: TokKind::Lit, text: copy_range(s, i, e), pos: i }, e)),
            None => Err(i),
        }
    } else if b == 45 && i + 1 < s.len() && s[i + 1] == 62 {
        Ok((Token { kind: TokKind::Punct, text: copy_range(s, i, i + 2), pos: i }, i + 2))
    } else if b == 58 && i + 1 < s.len() && s[i + 1] == 58 {
        Ok((Token { kind: TokKind::Punct, text: copy_range(s, i, i + 2), pos: i }, i + 2))
    } else {
        Ok((Token { kind: TokKind::Punct, text: copy_range(s, i, i + 1), pos: i }, i + 1))
    }
}

/// Tokenizes the whole input, or reports the position of the first
/// malformed token as a syntax error.
pub fn lex(s: &Vec<u8>) -> (r: Result<Vec<Token>, ChangeError>)
    ensures
        match r {
            Ok(toks) => lex_spec(s@) == Ok::<Seq<TokenV>, int>(view_tokens(toks@)),
            Err(e) => lex_spec(s@) is Err && e == (ChangeError::Syntax {
                pos: lex_spec(s@)->Err_0 as usize,
            }),
        },
{
    let mut toks: Vec<Token> = Vec::new();
    let mut i: usize = 0;
    while i < s.len()
        invariant
            i <= s.len(),
            lex_spec(s@) == prepend_tokens(view_tokens(toks@), lex_from(s@, i as int)),
        decreases s.len() - i,
    {
        let ghost toks0 = view_tokens(toks@);
        let j = skip_ws_exec(s, i);
        if j >= s.len() {
            proof {
                assert(lex_from(s@, i as int) == Ok::<Seq<TokenV>, int>(Seq::empty()));
                assert(lex_from(s@, j as int) == Ok::<Seq<TokenV>, int>(Seq::empty()));
            }
            i = j;
        } else {
        match token_at_exec(s, j) {
            Err(p) => {
                proof {
                    assert(lex_from(s@, i as int) == Err::<Seq<TokenV>, int>(p as int));
                }
                return Err(ChangeError::Syntax { pos: p });
            },
            Ok((t, e)) => {
                let ghost tv = t@;
                toks.push(t);
                proof {
                    assert(view_tokens(toks@) =~= toks0.push(tv));
                    if lex_from(s@, e as int) is Ok {
                        let rest = lex_from(s@, e as int)->Ok_0;
                        assert(toks0 + (seq![tv] + rest) =~= toks0.push(tv) + rest);
                    }
                }
                i = e;
            },
        }
        }
    }
    proof {
        assert(lex_from(s@, i as int) == Ok::<Seq<TokenV>, int>(Seq::empty()));
        assert(view_tokens(toks@) + Seq::<TokenV>::empty() =~= view_tokens(toks@));
    }
    Ok(toks)
}

} // verus!
