//! Lexical analysis: turns source text into the ordered token sequence that
//! the parser consumes.  `spec_tokenize` is the mathematical description of
//! the scan; `tokenize` is the executable scanner, proved to agree with it.
use vstd::prelude::*;

verus! {

/// A type of the little language: machine integers, or pointers to
/// another type, nested arbitrarily.
#[derive(Debug, PartialEq, Eq)]
pub enum TypeDec {
    Int,
    Pointer(Box<TypeDec>),
}

impl DeepView for TypeDec {
    type V = TypeDec;

    open spec fn deep_view(&self) -> TypeDec {
        *self
    }
}

impl Clone for TypeDec {
    fn clone(&self) -> (r: Self)
        ensures
            r == *self,
        decreases *self,
    {
        match self {
            TypeDec::Int => TypeDec::Int,
            TypeDec::Pointer(p) => TypeDec::Pointer(Box::new((**p).clone())),
        }
    }
}

/// A lexical atom of the source language.
#[derive(Debug, PartialEq, Eq)]
pub enum Token {
    Plus,
    Minus,
    Asterisk,
    Slash,
    Eq,
    NotEq,
    Assign,
    Gr,
    Ls,
    GrEq,
    LsEq,
    LParen,
    RParen,
    LBrace,
    RBrace,
    Semicolon,
    Comma,
    Address,
    Return,
    If,
    Else,
    While,
    For,
    Int(i32),
    Var(String),
    Type(TypeDec),
}

/// The mathematical image of a `Token`: the variable name becomes a
/// sequence of characters, the literal an unbounded integer.
pub enum TokenV {
    Plus,
    Minus,
    Asterisk,
    Slash,
    Eq,
    NotEq,
    Assign,
    Gr,
    Ls,
    GrEq,
    LsEq,
    LParen,
    RParen,
    LBrace,
    RBrace,
    Semicolon,
    Comma,
    Address,
    Return,
    If,
    Else,
    While,
    For,
    Int(int),
    Var(Seq<char>),
    Type(TypeDec),
}

impl DeepView for Token {
    type V = TokenV;

    open spec fn deep_view(&self) -> TokenV {
        match self {
            Token::Plus => TokenV::Plus,
            Token::Minus => TokenV::Minus,
            Token::Asterisk => TokenV::Asterisk,
            Token::Slash => TokenV::Slash,
            Token::Eq => TokenV::Eq,
            Token::NotEq => TokenV::NotEq,
            Token::Assign => TokenV::Assign,
            Token::Gr => TokenV::Gr,
            Token::Ls => TokenV::Ls,
            Token::GrEq => TokenV::GrEq,
            Token::LsEq => TokenV::LsEq,
            Token::LParen => TokenV::LParen,
            Token::RParen => TokenV::RParen,
            Token::LBrace => TokenV::LBrace,
            Token::RBrace => TokenV::RBrace,
            Token::Semicolon => TokenV::Semicolon,
            Token::Comma => TokenV::Comma,
            Token::Address => TokenV::Address,
            Token::Return => TokenV::Return,
            Token::If => TokenV::If,
            Token::Else => TokenV::Else,
            Token::While => TokenV::While,
            Token::For => TokenV::For,
            Token::Int(i) => TokenV::Int(*i as int),
            Token::Var(s) => TokenV::Var(s@),
            Token::Type(t) => TokenV::Type(*t),
        }
    }
}

/// How the scan of a piece of source text can fail.
#[derive(Debug, PartialEq, Eq)]
pub enum LexError {
    /// A character that starts no token.
    BadChar(char),
    /// An integer literal beyond the greatest representable value.
    NumTooLarge,
}

pub open spec fn is_space_char(c: char) -> bool {
    c == ' ' || c == '\n'
}

pub open spec fn is_digit_char(c: char) -> bool {
    '0' as u32 <= c as u32 && c as u32 <= '9' as u32
}

pub open spec fn is_alpha_char(c: char) -> bool {
    ('a' as u32 <= c as u32 && c as u32 <= 'z' as u32) || ('A' as u32 <= c as u32 && c as u32
        <= 'Z' as u32)
}

pub open spec fn digit_val(c: char) -> int {
    c as u32 - '0' as u32
}

/// First position at or after `i` that does not hold a digit.
pub open spec fn digit_run_end(cs: Seq<char>, i: int) -> int
    decreases cs.len() - i,
{
    if 0 <= i < cs.len() && is_digit_char(cs[i]) {
        digit_run_end(cs, i + 1)
    } else {
        i
    }
}

/// First position at or after `i` that does not hold a letter.
pub open spec fn alpha_run_end(cs: Seq<char>, i: int) -> int
    decreases cs.len() - i,
{
    if 0 <= i < cs.len() && is_alpha_char(cs[i]) {
        alpha_run_end(cs, i + 1)
    } else {
        i
    }
}

/// Value of the digit run `cs[lo..hi)`, most significant digit first.
pub open spec fn num_val(cs: Seq<char>, lo: int, hi: int) -> int
    decreases hi - lo,
{
    if lo >= hi {
        0
    } else {
        10 * num_val(cs, lo, hi - 1) + digit_val(cs[hi - 1])
    }
}

/// A scan position never moves backwards nor past the end of the text.
/// The scanner always advances by at least one character and stops at the
/// end; these bounds make that visible to the termination checker and
/// never change a value that the scan produces.
pub open spec fn adv(i: int, j: int, n: int) -> int {
    let k = if j < i + 1 {
        i + 1
    } else {
        j
    };
    if k > n {
        n
    } else {
        k
    }
}

/// The token an identifier denotes: a keyword of the language, the one
/// type name, or a variable.
pub open spec fn keyword_token(name: Seq<char>) -> TokenV {
    if name == "return"@ {
        TokenV::Return
    } else if name == "if"@ {
        TokenV::If
    } else if name == "else"@ {
        TokenV::Else
    } else if name == "while"@ {
        TokenV::While
    } else if name == "for"@ {
        TokenV::For
    } else if name == "int"@ {
        TokenV::Type(TypeDec::Int)
    } else {
        TokenV::Var(name)
    }
}

/// The token of a single punctuation character.
pub open spec fn symbol_token(c: char) -> Result<TokenV, LexError> {
    if c == '+' {
        Ok(TokenV::Plus)
    } else if c == '-' {
        Ok(TokenV::Minus)
    } else if c == '*' {
        Ok(TokenV::Asterisk)
    } else if c == '/' {
        Ok(TokenV::Slash)
    } else if c == '(' {
        Ok(TokenV::LParen)
    } else if c == ')' {
        Ok(TokenV::RParen)
    } else if c == '{' {
        Ok(TokenV::LBrace)
    } else if c == '}' {
        Ok(TokenV::RBrace)
    } else if c == ';' {
        Ok(TokenV::Semicolon)
    } else if c == ',' {
        Ok(TokenV::Comma)
    } else if c == '&' {
        Ok(TokenV::Address)
    } else if c == '<' {
        Ok(TokenV::Ls)
    } else if c == '>' {
        Ok(TokenV::Gr)
    } else if c == '=' {
        Ok(TokenV::Assign)
    } else {
        Err(LexError::BadChar(c))
    }
}

/// Do the two characters form one two-character operator?
pub open spec fn is_two_symbol_chars(c1: char, c2: char) -> bool {
    (c1 == '=' && c2 == '=') || (c1 == '!' && c2 == '=') || (c1 == '<' && c2 == '=') || (c1 == '>'
        && c2 == '=')
}

/// The token of a two-character operator.
pub open spec fn two_symbol_token(c1: char, c2: char) -> TokenV {
    if c1 == '=' {
        TokenV::Eq
    } else if c1 == '!' {
        TokenV::NotEq
    } else if c1 == '<' {
        TokenV::LsEq
    } else {
        TokenV::GrEq
    }
}

/// The token sequence of the source text `cs` from position `i` on:
/// spaces separate tokens, a digit starts an integer literal, a letter an
/// identifier or keyword, and two-character operators take precedence
/// over their one-character prefixes.
pub open spec fn spec_tokenize(cs: Seq<char>, i: int) -> Result<Seq<TokenV>, LexError>
    decreases cs.len() - i,
{
    if i < 0 || i >= cs.len() {
        Ok(Seq::empty())
    } else {
        let c = cs[i];
        if is_space_char(c) {
            spec_tokenize(cs, i + 1)
        } else if is_digit_char(c) {
            let j = adv(i, digit_run_end(cs, i), cs.len() as int);
            let v = num_val(cs, i, j);
            if v > i32::MAX as int {
                Err(LexError::NumTooLarge)
            } else {
                match spec_tokenize(cs, j) {
                    Ok(ts) => Ok(seq![TokenV::Int(v)] + ts),
                    Err(e) => Err(e),
                }
            }
        } else if is_alpha_char(c) {
            let j = adv(i, alpha_run_end(cs, i), cs.len() as int);
            match spec_tokenize(cs, j) {
                Ok(ts) => Ok(seq![keyword_token(cs.subrange(i, j))] + ts),
                Err(e) => Err(e),
            }
        } else if i + 1 < cs.len() && is_two_symbol_chars(c, cs[i + 1]) {
            match spec_tokenize(cs, i + 2) {
                Ok(ts) => Ok(seq![two_symbol_token(c, cs[i + 1])] + ts),
                Err(e) => Err(e),
            }
        } else {
            match symbol_token(c) {
                Ok(t) => match spec_tokenize(cs, i + 1) {
                    Ok(ts) => Ok(seq![t] + ts),
                    Err(e) => Err(e),
                },
                Err(e) => Err(e),
            }
        }
    }
}

fn is_space(c: char) -> (r: bool)
    ensures
        r == is_space_char(c),
{
    c == ' ' || c == '\n'
}

fn is_digit(c: char) -> (r: bool)
    ensures
        r == is_digit_char(c),
{
    ('0' as u32) <= (c as u32) && (c as u32) <= ('9' as u32)
}

fn is_alpha(c: char) -> (r: bool)
    ensures
        r == is_alpha_char(c),
{
    (('a' as u32) <= (c as u32) && (c as u32) <= ('z' as u32)) || (('A' as u32) <= (c as u32) && (c
        as u32) <= ('Z' as u32))
}

/// The characters of the source text, in order.
pub fn split_str(s: &str) -> (r: Vec<char>)
    ensures
        r@ == s@,
{
    let n = s.unicode_len();
    let mut v: Vec<char> = Vec::new();
    let mut i: usize = 0;
    while i < n
        invariant
            n == s@.len(),
            i <= n,
            v@ =~= s@.subrange(0, i as int),
        decreases n - i,
    {
        let c = s.get_char(i);
        v.push(c);
        i = i + 1;
    }
    proof {
        assert(v@ =~= s@);
    }
    v
}

proof fn lemma_digit_run_end_bounds(cs: Seq<char>, i: int)
    requires
        0 <= i <= cs.len(),
    ensures
        i <= digit_run_end(cs, i) <= cs.len(),
    decreases cs.len() - i,
{
    if i < cs.len() && is_digit_char(cs[i]) {
        lemma_digit_run_end_bounds(cs, i + 1);
    }
}

proof fn lemma_alpha_run_end_bounds(cs: Seq<char>, i: int)
    requires
        0 <= i <= cs.len(),
    ensures
        i <= alpha_run_end(cs, i) <= cs.len(),
    decreases cs.len() - i,
{
    if i < cs.len() && is_alpha_char(cs[i]) {
        lemma_alpha_run_end_bounds(cs, i + 1);
    }
}

/// The value of a digit run only grows as the run extends to the right.
proof fn lemma_num_val_grows(cs: Seq<char>, lo: int, mid: int, hi: int)
    requires
        lo <= mid <= hi,
        forall|k: int| mid <= k < hi ==> 0 <= #[trigger] digit_val(cs[k]),
        0 <= num_val(cs, lo, mid),
    ensures
        num_val(cs, lo, mid) <= num_val(cs, lo, hi),
        0 <= num_val(cs, lo, hi),
    decreases hi - mid,
{
    if mid < hi {
        lemma_num_val_grows(cs, lo, mid, hi - 1);
    }
}

/// Scan one integer literal starting at `i`: the token holds the value of
/// the maximal digit run, or the scan fails when the value does not fit.
pub fn get_num(cs: &Vec<char>, i: usize) -> (r: Result<(Token, usize), LexError>)
    requires
        i < cs@.len(),
        is_digit_char(cs@[i as int]),
    ensures
        ({
            let j = digit_run_end(cs@, i as int);
            let v = num_val(cs@, i as int, j);
            &&& i < j <= cs@.len()
            &&& match r {
                Ok((t, k)) => v <= i32::MAX as int && k == j && t.deep_view() == TokenV::Int(v),
                Err(e) => v > i32::MAX as int && e == LexError::NumTooLarge,
            }
        }),
{
    proof {
        lemma_digit_run_end_bounds(cs@, i as int);
    }
    let ghost j = digit_run_end(cs@, i as int);
    let mut k: usize = i;
    let mut acc: i64 = 0;
    let over: i64 = (i32::MAX as i64) + 1;
    while k < cs.len() && is_digit(cs[k])
        invariant
            i <= k <= cs@.len(),
            j == digit_run_end(cs@, i as int),
            digit_run_end(cs@, k as int) == j,
            forall|m: int| i <= m < k ==> is_digit_char(cs@[m]),
            over == i32::MAX as i64 + 1,
            0 <= acc <= over,
            acc <= i32::MAX as i64 ==> acc == num_val(cs@, i as int, k as int),
            acc == over ==> num_val(cs@, i as int, k as int) > i32::MAX as int,
        decreases cs@.len() - k,
    {
        proof {
            assert(digit_run_end(cs@, k as int) == digit_run_end(cs@, k as int + 1));
        }
        let c = cs[k];
        let d: i64 = (c as u32) as i64 - ('0' as u32) as i64;
        proof {
            assert(num_val(cs@, i as int, k as int + 1) == 10 * num_val(cs@, i as int, k as int)
                + digit_val(cs@[k as int]));
            assert(forall|m: int| i <= m < k + 1 ==> 0 <= #[trigger] digit_val(cs@[m]));
        }
        if acc > i32::MAX as i64 / 10 {
            proof {
                if acc == over {
                    lemma_num_val_grows(cs@, i as int, k as int, k as int + 1);
                }
            }
            acc = over;
        } else {
            acc = acc * 10 + d;
            if acc > i32::MAX as i64 {
                acc = over;
            }
        }
        k = k + 1;
    }
    proof {
        assert(digit_run_end(cs@, k as int) == k as int);
        assert(j == k as int);
    }
    if acc > i32::MAX as i64 {
        Err(LexError::NumTooLarge)
    } else {
        Ok((Token::Int(acc as i32), k))
    }
}

/// Scan one identifier starting at `i` and map it to its token: a keyword
/// of the language, the type name `int`, or a variable name.
pub fn get_var(s: &str, cs: &Vec<char>, i: usize) -> (r: (Token, usize))
    requires
        cs@ == s@,
        i < cs@.len(),
        is_alpha_char(cs@[i as int]),
    ensures
        ({
            let j = alpha_run_end(cs@, i as int);
            &&& i < j <= cs@.len()
            &&& r.1 == j
            &&& r.0.deep_view() == keyword_token(cs@.subrange(i as int, j))
        }),
{
    proof {
        lemma_alpha_run_end_bounds(cs@, i as int);
    }
    let ghost j = alpha_run_end(cs@, i as int);
    let mut k: usize = i;
    while k < cs.len() && is_alpha(cs[k])
        invariant
            i <= k <= cs@.len(),
            j == alpha_run_end(cs@, i as int),
            alpha_run_end(cs@, k as int) == j,
        decreases cs@.len() - k,
    {
        proof {
            assert(alpha_run_end(cs@, k as int) == alpha_run_end(cs@, k as int + 1));
        }
        k = k + 1;
    }
    proof {
        assert(alpha_run_end(cs@, k as int) == k as int);
        assert(j == k as int);
    }
    let nm = s.substring_char(i, k);
    let name: String = nm.to_owned();
    let tok: Token = if name == String::from_str("return") {
        Token::Return
    } else if name == String::from_str("if") {
        Token::If
    } else if name == String::from_str("else") {
        Token::Else
    } else if name == String::from_str("while") {
        Token::While
    } else if name == String::from_str("for") {
        Token::For
    } else if name == String::from_str("int") {
        Token::Type(TypeDec::Int)
    } else {
        Token::Var(name)
    };
    (tok, k)
}

/// Do the two characters form one two-character operator?
pub fn two_char_is_two_symbol(first: char, second: char) -> (r: bool)
    ensures
        r == is_two_symbol_chars(first, second),
{
    (first == '=' && second == '=') || (first == '!' && second == '=') || (first == '<' && second
        == '=') || (first == '>' && second == '=')
}

/// The token of a two-character operator.
pub fn two_char_to_token_mapper(first: char, second: char) -> (t: Token)
    requires
        is_two_symbol_chars(first, second),
    ensures
        t.deep_view() == two_symbol_token(first, second),
{
    if first == '=' {
        Token::Eq
    } else if first == '!' {
        Token::NotEq
    } else if first == '<' {
        Token::LsEq
    } else {
        Token::GrEq
    }
}

/// The token of a single punctuation character, or the scan failure that
/// an unexpected character causes.
pub fn symbol_to_token_mapper(c: char) -> (r: Result<Token, LexError>)
    ensures
        match symbol_token(c) {
            Ok(tv) => r is Ok && r->Ok_0.deep_view() == tv,
            Err(e) => r == Err::<Token, LexError>(e),
        },
{
    match c {
        '+' => Ok(Token::Plus),
        '-' => Ok(Token::Minus),
        '*' => Ok(Token::Asterisk),
        '/' => Ok(Token::Slash),
        '(' => Ok(Token::LParen),
        ')' => Ok(Token::RParen),
        '{' => Ok(Token::LBrace),
        '}' => Ok(Token::RBrace),
        ';' => Ok(Token::Semicolon),
        ',' => Ok(Token::Comma),
        '&' => Ok(Token::Address),
        '<' => Ok(Token::Ls),
        '>' => Ok(Token::Gr),
        '=' => Ok(Token::Assign),
        _ => Err(LexError::BadChar(c)),
    }
}

/// Scan the whole text from position `i`, appending the tokens found to
/// `acm`; agrees with `spec_tokenize` exactly.
pub fn tokenize_main(s: &str, cs: &Vec<char>, i: usize, acm: &mut Vec<Token>) -> (r: Result<
    (),
    LexError,
>)
    requires
        cs@ == s@,
        i <= cs@.len(),
    ensures
        match spec_tokenize(cs@, i as int) {
            Ok(ts) => r is Ok && final(acm).deep_view() == old(acm).deep_view() + ts,
            Err(e) => r == Err::<(), LexError>(e),
        },
    decreases cs@.len() - i,
{
    if i >= cs.len() {
        proof {
            assert(final(acm).deep_view() =~= old(acm).deep_view() + Seq::<TokenV>::empty());
        }
        return Ok(());
    }
    let c = cs[i];
    if is_space(c) {
        tokenize_main(s, cs, i + 1, acm)
    } else if is_digit(c) {
        match get_num(cs, i) {
            Ok((t, j)) => {
                let ghost before = acm.deep_view();
                let ghost tv = t.deep_view();
                acm.push(t);
                proof {
                    assert(acm.deep_view() =~= before.push(tv));
                }
                let r = tokenize_main(s, cs, j, acm);
                proof {
                    if spec_tokenize(cs@, i as int) is Ok {
                        assert(acm.deep_view() =~= before + (seq![tv] + spec_tokenize(
                            cs@,
                            j as int,
                        )->Ok_0));
                    }
                }
                r
            },
            Err(e) => Err(e),
        }
    } else if is_alpha(c) {
        let (t, j) = get_var(s, cs, i);
        let ghost before = acm.deep_view();
        let ghost tv = t.deep_view();
        acm.push(t);
        proof {
            assert(acm.deep_view() =~= before.push(tv));
        }
        let r = tokenize_main(s, cs, j, acm);
        proof {
            if spec_tokenize(cs@, i as int) is Ok {
                assert(acm.deep_view() =~= before + (seq![tv] + spec_tokenize(cs@, j as int)->Ok_0));
            }
        }
        r
    } else if i + 1 < cs.len() && two_char_is_two_symbol(c, cs[i + 1]) {
        let t = two_char_to_token_mapper(c, cs[i + 1]);
        let ghost before = acm.deep_view();
        let ghost tv = t.deep_view();
        acm.push(t);
        proof {
            assert(acm.deep_view() =~= before.push(tv));
        }
        let r = tokenize_main(s, cs, i + 2, acm);
        proof {
            if spec_tokenize(cs@, i as int) is Ok {
                assert(acm.deep_view() =~= before + (seq![tv] + spec_tokenize(
                    cs@,
                    i as int + 2,
                )->Ok_0));
            }
        }
        r
    } else {
        match symbol_to_token_mapper(c) {
            Ok(t) => {
                let ghost before = acm.deep_view();
                let ghost tv = t.deep_view();
                acm.push(t);
                proof {
                    assert(acm.deep_view() =~= before.push(tv));
                }
                let r = tokenize_main(s, cs, i + 1, acm);
                proof {
                    if spec_tokenize(cs@, i as int) is Ok {
                        assert(acm.deep_view() =~= before + (seq![tv] + spec_tokenize(
                            cs@,
                            i as int + 1,
                        )->Ok_0));
                    }
                }
                r
            },
            Err(e) => Err(e),
        }
    }
}

/// Turn source text into its token sequence, or report the first
/// character or literal on which the scan fails.
pub fn tokenize(s: &str) -> (r: Result<Vec<Token>, LexError>)
    ensures
        match spec_tokenize(s@, 0) {
            Ok(ts) => r is Ok && r->Ok_0.deep_view() == ts,
            Err(e) => r == Err::<Vec<Token>, LexError>(e),
        },
{
    let cs = split_str(s);
    let mut acm: Vec<Token> = Vec::new();
    match tokenize_main(s, &cs, 0, &mut acm) {
        Ok(()) => {
            proof {
                if spec_tokenize(cs@, 0) is Ok {
                    assert(acm.deep_view() =~= spec_tokenize(cs@, 0)->Ok_0);
                }
            }
            Ok(acm)
        },
        Err(e) => Err(e),
    }
}

} // verus!
