//! The T-SQL tokenizer: words (identifiers and keywords), numbers, string
//! literals (`'...'` and `N'...'`, with `''` standing for a quote), and the
//! punctuation `( ) , ; . * =`. White space separates tokens.

use vstd::prelude::*;

use crate::text::{is_white_space, is_white_space_char};

verus! {

/// A token. Words keep their spelling; string literals hold their decoded
/// contents.
#[derive(Clone, Debug)]
pub enum Token {
    Word(Vec<char>),
    Number(Vec<char>),
    Str(Vec<char>),
    NStr(Vec<char>),
    LParen,
    RParen,
    Comma,
    Semicolon,
    Dot,
    Star,
    Eq,
}

/// The model of a [`Token`].
pub enum TokenModel {
    Word(Seq<char>),
    Number(Seq<char>),
    Str(Seq<char>),
    NStr(Seq<char>),
    LParen,
    RParen,
    Comma,
    Semicolon,
    Dot,
    Star,
    Eq,
}

impl View for Token {
    type V = TokenModel;

    open spec fn view(&self) -> TokenModel {
        match self {
            Token::Word(w) => TokenModel::Word(w@),
            Token::Number(d) => TokenModel::Number(d@),
            Token::Str(s) => TokenModel::Str(s@),
            Token::NStr(s) => TokenModel::NStr(s@),
            Token::LParen => TokenModel::LParen,
            Token::RParen => TokenModel::RParen,
            Token::Comma => TokenModel::Comma,
            Token::Semicolon => TokenModel::Semicolon,
            Token::Dot => TokenModel::Dot,
            Token::Star => TokenModel::Star,
            Token::Eq => TokenModel::Eq,
        }
    }
}

/// The model of a token list.
pub open spec fn tokens_view(toks: Seq<Token>) -> Seq<TokenModel> {
    toks.map_values(|t: Token| t@)
}

pub open spec fn is_ascii_letter(c: char) -> bool {
    ('a' as u32 <= c as u32 <= 'z' as u32) || ('A' as u32 <= c as u32 <= 'Z' as u32)
}

pub open spec fn is_digit(c: char) -> bool {
    '0' as u32 <= c as u32 <= '9' as u32
}

/// Characters that begin a word: letters, `_`, `@` (variables, parameters)
/// and `#` (temporary objects).
pub open spec fn is_word_start(c: char) -> bool {
    is_ascii_letter(c) || c == '_' || c == '@' || c == '#'
}

/// Characters that continue a word.
pub open spec fn is_word_char(c: char) -> bool {
    is_word_start(c) || is_digit(c) || c == '$'
}

/// The end of the run of word characters that starts at `i`.
pub open spec fn word_end(s: Seq<char>, i: int) -> int
    decreases s.len() - i,
{
    if 0 <= i < s.len() && is_word_char(s[i]) {
        word_end(s, i + 1)
    } else {
        i
    }
}

/// The end of the run of digits that starts at `i`.
pub open spec fn digits_end(s: Seq<char>, i: int) -> int
    decreases s.len() - i,
{
    if 0 <= i < s.len() && is_digit(s[i]) {
        digits_end(s, i + 1)
    } else {
        i
    }
}

/// The rest of a quoted literal whose body starts at `i`: its decoded
/// contents and the position after the closing quote, or `None` when the
/// quote is never closed.
pub open spec fn quoted(s: Seq<char>, i: int) -> Option<(Seq<char>, int)>
    decreases s.len() - i,
{
    if i < 0 || i >= s.len() {
        None
    } else if s[i] == '\'' {
        if i + 1 < s.len() && s[i + 1] == '\'' {
            match quoted(s, i + 2) {
                None => None,
                Some((c, e)) => Some((seq!['\''] + c, e)),
            }
        } else {
            Some((seq![], i + 1))
        }
    } else {
        match quoted(s, i + 1) {
            None => None,
            Some((c, e)) => Some((seq![s[i]] + c, e)),
        }
    }
}

/// The punctuation token for `c`, if it is one.
pub open spec fn symbol(c: char) -> Option<TokenModel> {
    if c == '(' {
        Some(TokenModel::LParen)
    } else if c == ')' {
        Some(TokenModel::RParen)
    } else if c == ',' {
        Some(TokenModel::Comma)
    } else if c == ';' {
        Some(TokenModel::Semicolon)
    } else if c == '.' {
        Some(TokenModel::Dot)
    } else if c == '*' {
        Some(TokenModel::Star)
    } else if c == '=' {
        Some(TokenModel::Eq)
    } else {
        None
    }
}

/// The token that starts at `i` (not white space) and where it ends.
pub open spec fn scan(s: Seq<char>, i: int) -> Option<(TokenModel, int)> {
    let n = s.len();
    let c = s[i];
    if (c == 'N' || c == 'n') && i + 1 < n && s[i + 1] == '\'' {
        match quoted(s, i + 2) {
            None => None,
            Some((t, e)) => Some((TokenModel::NStr(t), e)),
        }
    } else if is_word_start(c) {
        let e = word_end(s, i + 1);
        Some((TokenModel::Word(s.subrange(i, e)), e))
    } else if is_digit(c) {
        let e = digits_end(s, i + 1);
        Some((TokenModel::Number(s.subrange(i, e)), e))
    } else if c == '\'' {
        match quoted(s, i + 1) {
            None => None,
            Some((t, e)) => Some((TokenModel::Str(t), e)),
        }
    } else {
        match symbol(c) {
            None => None,
            Some(t) => Some((t, i + 1)),
        }
    }
}

/// The tokens of `s` from position `i` on, or `None` when some character
/// starts no token or a literal is never closed.
pub open spec fn lex_from(s: Seq<char>, i: int) -> Option<Seq<TokenModel>>
    decreases s.len() - i,
{
    if i < 0 || i >= s.len() {
        Some(seq![])
    } else if is_white_space(s[i]) {
        lex_from(s, i + 1)
    } else {
        match scan(s, i) {
            None => None,
            Some((t, e)) => if i < e <= s.len() {
                match lex_from(s, e) {
                    None => None,
                    Some(rest) => Some(seq![t] + rest),
                }
            } else {
                None
            },
        }
    }
}

/// The tokens of a text.
pub open spec fn lex(s: Seq<char>) -> Option<Seq<TokenModel>> {
    lex_from(s, 0)
}

pub open spec fn prepend_tokens(
    done: Seq<TokenModel>,
    rest: Option<Seq<TokenModel>>,
) -> Option<Seq<TokenModel>> {
    match rest {
        None => None,
        Some(r) => Some(done + r),
    }
}

pub open spec fn prepend_quoted(acc: Seq<char>, rest: Option<(Seq<char>, int)>) -> Option<
    (Seq<char>, int),
> {
    match rest {
        None => None,
        Some((c, e)) => Some((acc + c, e)),
    }
}

fn is_word_start_char(c: char) -> (b: bool)
    ensures
        b == is_word_start(c),
{
    let u = c as u32;
    (97 <= u && u <= 122) || (65 <= u && u <= 90) || c == '_' || c == '@' || c == '#'
}

fn is_digit_char(c: char) -> (b: bool)
    ensures
        b == is_digit(c),
{
    let u = c as u32;
    48 <= u && u <= 57
}

fn is_word_char_exec(c: char) -> (b: bool)
    ensures
        b == is_word_char(c),
{
    is_word_start_char(c) || is_digit_char(c) || c == '$'
}

fn scan_word_end(s: &Vec<char>, i: usize) -> (e: usize)
    requires
        i <= s@.len(),
    ensures
        e == word_end(s@, i as int),
        i <= e <= s@.len(),
{
    let mut j = i;
    while j < s.len() && is_word_char_exec(s[j])
        invariant
            i <= j <= s@.len(),
            word_end(s@, i as int) == word_end(s@, j as int),
        decreases s@.len() - j,
    {
        j = j + 1;
    }
    j
}

fn scan_digits_end(s: &Vec<char>, i: usize) -> (e: usize)
    requires
        i <= s@.len(),
    ensures
        e == digits_end(s@, i as int),
        i <= e <= s@.len(),
{
    let mut j = i;
    while j < s.len() && is_digit_char(s[j])
        invariant
            i <= j <= s@.len(),
            digits_end(s@, i as int) == digits_end(s@, j as int),
        decreases s@.len() - j,
    {
        j = j + 1;
    }
    j
}

fn scan_quoted(s: &Vec<char>, i: usize) -> (r: Option<(Vec<char>, usize)>)
    requires
        i <= s@.len(),
    ensures
        match r {
            None => quoted(s@, i as int) is None,
            Some((c, e)) => quoted(s@, i as int) == Some((c@, e as int)) && i < e <= s@.len(),
        },
{
    let mut acc: Vec<char> = Vec::new();
    let mut j = i;
    loop
        invariant
            i <= j <= s@.len(),
            quoted(s@, i as int) == prepend_quoted(acc@, quoted(s@, j as int)),
        decreases s@.len() - j,
    {
        if j >= s.len() {
            return None;
        }
        if s[j] == '\'' {
            if j + 1 < s.len() && s[j + 1] == '\'' {
                let ghost before = acc@;
                acc.push('\'');
                assert(prepend_quoted(before, quoted(s@, j as int)) == prepend_quoted(
                    acc@,
                    quoted(s@, j + 2),
                )) by {
                    match quoted(s@, j + 2) {
                        None => {},
                        Some((c, e)) => {
                            assert(before + (seq!['\''] + c) =~= acc@ + c);
                        },
                    }
                }
                j = j + 2;
            } else {
                assert(acc@ + Seq::<char>::empty() =~= acc@);
                return Some((acc, j + 1));
            }
        } else {
            let ghost before = acc@;
            let c = s[j];
            acc.push(c);
            assert(prepend_quoted(before, quoted(s@, j as int)) == prepend_quoted(
                acc@,
                quoted(s@, j + 1),
            )) by {
                match quoted(s@, j + 1) {
                    None => {},
                    Some((q, e)) => {
                        assert(before + (seq![c] + q) =~= acc@ + q);
                    },
                }
            }
            j = j + 1;
        }
    }
}

fn scan_symbol(c: char) -> (t: Option<Token>)
    ensures
        match t {
            None => symbol(c) is None,
            Some(tok) => symbol(c) == Some(tok@),
        },
{
    if c == '(' {
        Some(Token::LParen)
    } else if c == ')' {
        Some(Token::RParen)
    } else if c == ',' {
        Some(Token::Comma)
    } else if c == ';' {
        Some(Token::Semicolon)
    } else if c == '.' {
        Some(Token::Dot)
    } else if c == '*' {
        Some(Token::Star)
    } else if c == '=' {
        Some(Token::Eq)
    } else {
        None
    }
}

fn slice_chars(s: &Vec<char>, from: usize, to: usize) -> (v: Vec<char>)
    requires
        from <= to <= s@.len(),
    ensures
        v@ == s@.subrange(from as int, to as int),
{
    let mut v: Vec<char> = Vec::new();
    let mut k = from;
    while k < to
        invariant
            from <= k <= to <= s@.len(),
            v@ == s@.subrange(from as int, k as int),
        decreases to - k,
    {
        v.push(s[k]);
        k = k + 1;
        assert(v@ =~= s@.subrange(from as int, k as int));
    }
    v
}

fn scan_token(s: &Vec<char>, i: usize) -> (r: Option<(Token, usize)>)
    requires
        i < s@.len(),
    ensures
        match r {
            None => scan(s@, i as int) is None,
            Some((t, e)) => scan(s@, i as int) == Some((t@, e as int)) && i < e <= s@.len(),
        },
{
    let n = s.len();
    let c = s[i];
    if (c == 'N' || c == 'n') && i + 1 < n && s[i + 1] == '\'' {
        match scan_quoted(s, i + 2) {
            None => None,
            Some((t, e)) => Some((Token::NStr(t), e)),
        }
    } else if is_word_start_char(c) {
        let e = scan_word_end(s, i + 1);
        Some((Token::Word(slice_chars(s, i, e)), e))
    } else if is_digit_char(c) {
        let e = scan_digits_end(s, i + 1);
        Some((Token::Number(slice_chars(s, i, e)), e))
    } else if c == '\'' {
        match scan_quoted(s, i + 1) {
            None => None,
            Some((t, e)) => Some((Token::Str(t), e)),
        }
    } else {
        match scan_symbol(c) {
            None => None,
            Some(t) => Some((t, i + 1)),
        }
    }
}

/// Splits a text into tokens; `None` when some character starts no token
/// or a string literal is never closed.
pub fn tokenize(s: &Vec<char>) -> (r: Option<Vec<Token>>)
    ensures
        match r {
            None => lex(s@) is None,
            Some(toks) => lex(s@) == Some(tokens_view(toks@)),
        },
{
    let mut toks: Vec<Token> = Vec::new();
    let mut i: usize = 0;
    while i < s.len()
        invariant
            i <= s@.len(),
            lex(s@) == prepend_tokens(tokens_view(toks@), lex_from(s@, i as int)),
        decreases s@.len() - i,
    {
        if is_white_space_char(s[i]) {
            i = i + 1;
        } else {
            match scan_token(s, i) {
                None => {
                    return None;
                },
                Some((t, e)) => {
                    let ghost before = toks@;
                    toks.push(t);
                    assert(prepend_tokens(tokens_view(before), lex_from(s@, i as int))
                        == prepend_tokens(tokens_view(toks@), lex_from(s@, e as int))) by {
                        match lex_from(s@, e as int) {
                            None => {},
                            Some(rest) => {
                                assert(tokens_view(before) + (seq![t@] + rest) =~= tokens_view(
                                    toks@,
                                ) + rest);
                            },
                        }
                    }
                    i = e;
                }
            }
        }
    }
    assert(tokens_view(toks@) + Seq::<TokenModel>::empty() =~= tokens_view(toks@));
    Some(toks)
}

/// A string literal token holds fewer than `n` characters; other tokens
/// always qualify.
pub open spec fn token_fits(t: TokenModel, n: nat) -> bool {
    match t {
        TokenModel::Str(c) => c.len() < n,
        TokenModel::NStr(c) => c.len() < n,
        _ => true,
    }
}

proof fn lemma_quoted_len(s: Seq<char>, i: int)
    requires
        quoted(s, i) is Some,
    ensures
        0 <= i,
        quoted(s, i) matches Some((c, e)) && c.len() + i + 1 <= e <= s.len(),
    decreases s.len() - i,
{
    if s[i] == '\'' {
        if i + 1 < s.len() && s[i + 1] == '\'' {
            lemma_quoted_len(s, i + 2);
        }
    } else {
        lemma_quoted_len(s, i + 1);
    }
}

proof fn lemma_lex_from_fits(s: Seq<char>, i: int)
    requires
        lex_from(s, i) is Some,
    ensures
        forall|k: int|
            0 <= k < lex_from(s, i)->0.len() ==> token_fits(
                #[trigger] lex_from(s, i)->0[k],
                s.len(),
            ),
    decreases s.len() - i,
{
    if i < 0 || i >= s.len() {
    } else if is_white_space(s[i]) {
        lemma_lex_from_fits(s, i + 1);
    } else {
        let (t, e) = scan(s, i)->0;
        let c = s[i];
        if (c == 'N' || c == 'n') && i + 1 < s.len() && s[i + 1] == '\'' {
            lemma_quoted_len(s, i + 2);
        } else if is_word_start(c) || is_digit(c) {
        } else if c == '\'' {
            lemma_quoted_len(s, i + 1);
        }
        assert(token_fits(t, s.len()));
        lemma_lex_from_fits(s, e);
        let rest = lex_from(s, e)->0;
        assert(lex_from(s, i)->0 == seq![t] + rest);
        assert forall|k: int| 0 <= k < lex_from(s, i)->0.len() implies token_fits(
            #[trigger] lex_from(s, i)->0[k],
            s.len(),
        ) by {
            if k > 0 {
                assert(lex_from(s, i)->0[k] == rest[k - 1]);
            }
        }
    }
}

/// Every string literal of a text holds fewer characters than the text.
pub proof fn law_literals_shorter_than_text(s: Seq<char>)
    requires
        lex(s) is Some,
    ensures
        forall|k: int| 0 <= k < lex(s)->0.len() ==> token_fits(#[trigger] lex(s)->0[k], s.len()),
{
    lemma_lex_from_fits(s, 0);
}

} // verus!
