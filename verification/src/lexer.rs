//! The tokens of the source language and the tokenizer that produces
//! them from program text.

use vstd::prelude::*;

verus! {

/// A lexical token. `Error` marks a piece of text that no lexical rule
/// accepts; whitespace produces no token at all.
#[derive(Debug, PartialEq)]
pub enum Token {
    Function,
    Let,
    Return,
    If,
    Identifier(String),
    Number(i64),
    LeftParen,
    RightParen,
    LeftBrace,
    RightBrace,
    Semicolon,
    Equals,
    TypeInt,
    TypeFloat,
    TypeBool,
    TypeString,
    Plus,
    Minus,
    Multiply,
    Divide,
    Colon,
    True,
    False,
    StringLiteral,
    Comma,
    Error,
}

/// The mathematical model of a token: identifier text is a character
/// sequence and a number literal is an unbounded integer.
pub enum Lexeme {
    Function,
    Let,
    Return,
    If,
    Identifier(Seq<char>),
    Number(int),
    LeftParen,
    RightParen,
    LeftBrace,
    RightBrace,
    Semicolon,
    Equals,
    TypeInt,
    TypeFloat,
    TypeBool,
    TypeString,
    Plus,
    Minus,
    Multiply,
    Divide,
    Colon,
    True,
    False,
    StringLiteral,
    Comma,
    Error,
}

impl View for Token {
    type V = Lexeme;

    open spec fn view(&self) -> Lexeme {
        match self {
            Token::Function => Lexeme::Function,
            Token::Let => Lexeme::Let,
            Token::Return => Lexeme::Return,
            Token::If => Lexeme::If,
            Token::Identifier(name) => Lexeme::Identifier(name@),
            Token::Number(n) => Lexeme::Number(*n as int),
            Token::LeftParen => Lexeme::LeftParen,
            Token::RightParen => Lexeme::RightParen,
            Token::LeftBrace => Lexeme::LeftBrace,
            Token::RightBrace => Lexeme::RightBrace,
            Token::Semicolon => Lexeme::Semicolon,
            Token::Equals => Lexeme::Equals,
            Token::TypeInt => Lexeme::TypeInt,
            Token::TypeFloat => Lexeme::TypeFloat,
            Token::TypeBool => Lexeme::TypeBool,
            Token::TypeString => Lexeme::TypeString,
            Token::Plus => Lexeme::Plus,
            Token::Minus => Lexeme::Minus,
            Token::Multiply => Lexeme::Multiply,
            Token::Divide => Lexeme::Divide,
            Token::Colon => Lexeme::Colon,
            Token::True => Lexeme::True,
            Token::False => Lexeme::False,
            Token::StringLiteral => Lexeme::StringLiteral,
            Token::Comma => Lexeme::Comma,
            Token::Error => Lexeme::Error,
        }
    }
}

impl DeepView for Token {
    type V = Lexeme;

    open spec fn deep_view(&self) -> Lexeme {
        self.view()
    }
}

/// Whitespace between tokens: space, tab, newline, form feed.
pub open spec fn is_space(c: char) -> bool {
    c == ' ' || c == '\t' || c == '\n' || c == '\u{c}'
}

/// A letter, as an identifier may start with one.
pub open spec fn is_letter(c: char) -> bool {
    (65 <= c as int && c as int <= 90) || (97 <= c as int && c as int <= 122)
}

/// A decimal digit.
pub open spec fn is_digit(c: char) -> bool {
    48 <= c as int && c as int <= 57
}

/// A character that may continue an identifier: a letter, a digit or
/// an underscore.
pub open spec fn is_ident_char(c: char) -> bool {
    is_letter(c) || is_digit(c) || c == '_'
}

/// The position right after the identifier characters running from
/// position `i`.
pub open spec fn word_end(s: Seq<char>, i: int) -> int
    decreases s.len() - i,
{
    if i < s.len() && is_ident_char(s[i]) {
        word_end(s, i + 1)
    } else {
        i
    }
}

pub proof fn lemma_word_end_bounds(s: Seq<char>, i: int)
    requires
        i <= s.len(),
    ensures
        i <= word_end(s, i) <= s.len(),
    decreases s.len() - i,
{
    if i < s.len() && is_ident_char(s[i]) {
        lemma_word_end_bounds(s, i + 1);
    }
}

/// The position right after the digits running from position `i`.
pub open spec fn digits_end(s: Seq<char>, i: int) -> int
    decreases s.len() - i,
{
    if i < s.len() && is_digit(s[i]) {
        digits_end(s, i + 1)
    } else {
        i
    }
}

pub proof fn lemma_digits_end_bounds(s: Seq<char>, i: int)
    requires
        i <= s.len(),
    ensures
        i <= digits_end(s, i) <= s.len(),
    decreases s.len() - i,
{
    if i < s.len() && is_digit(s[i]) {
        lemma_digits_end_bounds(s, i + 1);
    }
}

/// The value of a run of decimal digits.
pub open spec fn digits_value(ds: Seq<char>) -> int
    decreases ds.len(),
{
    if ds.len() == 0 {
        0
    } else {
        digits_value(ds.drop_last()) * 10 + (ds.last() as int - 48)
    }
}

pub proof fn lemma_digits_value_nonneg(ds: Seq<char>)
    requires
        forall|i: int| 0 <= i < ds.len() ==> is_digit(#[trigger] ds[i]),
    ensures
        digits_value(ds) >= 0,
    decreases ds.len(),
{
    if ds.len() > 0 {
        lemma_digits_value_nonneg(ds.drop_last());
    }
}

/// The position of the first `"` at or after position `i`, if any.
pub open spec fn find_quote(s: Seq<char>, i: int) -> Option<int>
    decreases s.len() - i,
{
    if i >= s.len() {
        None
    } else if s[i] == '"' {
        Some(i)
    } else {
        find_quote(s, i + 1)
    }
}

pub proof fn lemma_find_quote_bounds(s: Seq<char>, i: int)
    ensures
        find_quote(s, i) matches Some(j) ==> i <= j < s.len(),
    decreases s.len() - i,
{
    if i < s.len() && s[i] != '"' {
        lemma_find_quote_bounds(s, i + 1);
    }
}

/// The keyword a word denotes, if it is one.
pub open spec fn keyword_lexeme(w: Seq<char>) -> Option<Lexeme> {
    if w == seq!['f', 'n'] {
        Some(Lexeme::Function)
    } else if w == seq!['l', 'e', 't'] {
        Some(Lexeme::Let)
    } else if w == seq!['r', 'e', 't', 'u', 'r', 'n'] {
        Some(Lexeme::Return)
    } else if w == seq!['i', 'f'] {
        Some(Lexeme::If)
    } else if w == seq!['i', '3', '2'] {
        Some(Lexeme::TypeInt)
    } else if w == seq!['f', '6', '4'] {
        Some(Lexeme::TypeFloat)
    } else if w == seq!['b', 'o', 'o', 'l'] {
        Some(Lexeme::TypeBool)
    } else if w == seq!['s', 't', 'r', 'i', 'n', 'g'] {
        Some(Lexeme::TypeString)
    } else if w == seq!['t', 'r', 'u', 'e'] {
        Some(Lexeme::True)
    } else if w == seq!['f', 'a', 'l', 's', 'e'] {
        Some(Lexeme::False)
    } else {
        None
    }
}

/// The lexeme a single punctuation character denotes, if any.
pub open spec fn punct_lexeme(c: char) -> Option<Lexeme> {
    match c {
        '(' => Some(Lexeme::LeftParen),
        ')' => Some(Lexeme::RightParen),
        '{' => Some(Lexeme::LeftBrace),
        '}' => Some(Lexeme::RightBrace),
        ';' => Some(Lexeme::Semicolon),
        '=' => Some(Lexeme::Equals),
        '+' => Some(Lexeme::Plus),
        '-' => Some(Lexeme::Minus),
        '*' => Some(Lexeme::Multiply),
        '/' => Some(Lexeme::Divide),
        ':' => Some(Lexeme::Colon),
        ',' => Some(Lexeme::Comma),
        _ => None,
    }
}

/// The next token starting at position `pos` (not whitespace), and the
/// position right after it. Longest match wins; a word is a keyword
/// when the whole word is one; a digit run too large for a 64-bit
/// signed value, an unterminated string opening, and any unrecognized
/// character produce `Error`.
pub open spec fn next_lexeme(s: Seq<char>, pos: int) -> (Lexeme, int) {
    let c = s[pos];
    if is_letter(c) {
        let end = word_end(s, pos + 1);
        let w = s.subrange(pos, end);
        (
            match keyword_lexeme(w) {
                Some(k) => k,
                None => Lexeme::Identifier(w),
            },
            end,
        )
    } else if is_digit(c) {
        let end = digits_end(s, pos + 1);
        let v = digits_value(s.subrange(pos, end));
        ((if v <= i64::MAX as int { Lexeme::Number(v) } else { Lexeme::Error }), end)
    } else if c == '"' {
        match find_quote(s, pos + 1) {
            Some(j) => (Lexeme::StringLiteral, j + 1),
            None => (Lexeme::Error, pos + 1),
        }
    } else {
        match punct_lexeme(c) {
            Some(l) => (l, pos + 1),
            None => (Lexeme::Error, pos + 1),
        }
    }
}

/// The token models of the text from position `pos` on: whitespace is
/// skipped, and each next token is taken in turn.
pub open spec fn spec_tokenize_from(s: Seq<char>, pos: int) -> Seq<Lexeme>
    decreases s.len() - pos,
{
    if pos < 0 || pos >= s.len() {
        Seq::empty()
    } else if is_space(s[pos]) {
        spec_tokenize_from(s, pos + 1)
    } else {
        let (l, end) = next_lexeme(s, pos);
        proof {
            lemma_word_end_bounds(s, pos + 1);
            lemma_digits_end_bounds(s, pos + 1);
            lemma_find_quote_bounds(s, pos + 1);
        }
        seq![l] + spec_tokenize_from(s, end)
    }
}

/// The token models of a whole text.
pub open spec fn spec_tokenize(s: Seq<char>) -> Seq<Lexeme> {
    spec_tokenize_from(s, 0)
}

impl Token {
    /// Returns a token equal to this one.
    pub fn duplicate(&self) -> (r: Token)
        ensures
            r@ == self@,
    {
        match self {
            Token::Function => Token::Function,
            Token::Let => Token::Let,
            Token::Return => Token::Return,
            Token::If => Token::If,
            Token::Identifier(name) => Token::Identifier(name.clone()),
            Token::Number(n) => Token::Number(*n),
            Token::LeftParen => Token::LeftParen,
            Token::RightParen => Token::RightParen,
            Token::LeftBrace => Token::LeftBrace,
            Token::RightBrace => Token::RightBrace,
            Token::Semicolon => Token::Semicolon,
            Token::Equals => Token::Equals,
            Token::TypeInt => Token::TypeInt,
            Token::TypeFloat => Token::TypeFloat,
            Token::TypeBool => Token::TypeBool,
            Token::TypeString => Token::TypeString,
            Token::Plus => Token::Plus,
            Token::Minus => Token::Minus,
            Token::Multiply => Token::Multiply,
            Token::Divide => Token::Divide,
            Token::Colon => Token::Colon,
            Token::True => Token::True,
            Token::False => Token::False,
            Token::StringLiteral => Token::StringLiteral,
            Token::Comma => Token::Comma,
            Token::Error => Token::Error,
        }
    }
}

fn is_space_char(c: char) -> (r: bool)
    ensures
        r == is_space(c),
{
    c == ' ' || c == '\t' || c == '\n' || c == '\u{c}'
}

fn is_letter_char(c: char) -> (r: bool)
    ensures
        r == is_letter(c),
{
    let u = c as u32;
    (65 <= u && u <= 90) || (97 <= u && u <= 122)
}

fn is_digit_char(c: char) -> (r: bool)
    ensures
        r == is_digit(c),
{
    let u = c as u32;
    48 <= u && u <= 57
}

fn is_word_char(c: char) -> (r: bool)
    ensures
        r == is_ident_char(c),
{
    is_letter_char(c) || is_digit_char(c) || c == '_'
}

/// The identifier token for the word at `[start, end)` of `source`.
fn ident_token(source: &str, start: usize, end: usize) -> (r: Token)
    requires
        start <= end <= source@.len(),
    ensures
        r@ == Lexeme::Identifier(source@.subrange(start as int, end as int)),
{
    let slice = source.substring_char(start, end);
    Token::Identifier(slice.to_owned())
}

/// The token for the word at `[start, end)` of `source`: the keyword
/// it spells, or an identifier.
fn keyword_or_ident(source: &str, start: usize, end: usize) -> (r: Token)
    requires
        start < end <= source@.len(),
    ensures
        r@ == ({
            let w = source@.subrange(start as int, end as int);
            match keyword_lexeme(w) {
                Some(k) => k,
                None => Lexeme::Identifier(w),
            }
        }),
{
    let len = end - start;
    let ghost w = source@.subrange(start as int, end as int);
    proof {
        assert(w.len() == len);
    }
    if len == 2 {
        let c0 = source.get_char(start);
        let c1 = source.get_char(start + 1);
        if c0 == 'f' && c1 == 'n' {
            proof {
                assert(w =~= seq!['f', 'n']);
            }
            Token::Function
        } else if c0 == 'i' && c1 == 'f' {
            proof {
                assert(w =~= seq!['i', 'f']);
            }
            Token::If
        } else {
            ident_token(source, start, end)
        }
    } else if len == 3 {
        let c0 = source.get_char(start);
        let c1 = source.get_char(start + 1);
        let c2 = source.get_char(start + 2);
        if c0 == 'l' && c1 == 'e' && c2 == 't' {
            proof {
                assert(w =~= seq!['l', 'e', 't']);
            }
            Token::Let
        } else if c0 == 'i' && c1 == '3' && c2 == '2' {
            proof {
                assert(w =~= seq!['i', '3', '2']);
            }
            Token::TypeInt
        } else if c0 == 'f' && c1 == '6' && c2 == '4' {
            proof {
                assert(w =~= seq!['f', '6', '4']);
            }
            Token::TypeFloat
        } else {
            ident_token(source, start, end)
        }
    } else if len == 4 {
        let c0 = source.get_char(start);
        let c1 = source.get_char(start + 1);
        let c2 = source.get_char(start + 2);
        let c3 = source.get_char(start + 3);
        if c0 == 'b' && c1 == 'o' && c2 == 'o' && c3 == 'l' {
            proof {
                assert(w =~= seq!['b', 'o', 'o', 'l']);
            }
            Token::TypeBool
        } else if c0 == 't' && c1 == 'r' && c2 == 'u' && c3 == 'e' {
            proof {
                assert(w =~= seq!['t', 'r', 'u', 'e']);
            }
            Token::True
        } else {
            ident_token(source, start, end)
        }
    } else if len == 5 {
        let c0 = source.get_char(start);
        let c1 = source.get_char(start + 1);
        let c2 = source.get_char(start + 2);
        let c3 = source.get_char(start + 3);
        let c4 = source.get_char(start + 4);
        if c0 == 'f' && c1 == 'a' && c2 == 'l' && c3 == 's' && c4 == 'e' {
            proof {
                assert(w =~= seq!['f', 'a', 'l', 's', 'e']);
            }
            Token::False
        } else {
            ident_token(source, start, end)
        }
    } else if len == 6 {
        let c0 = source.get_char(start);
        let c1 = source.get_char(start + 1);
        let c2 = source.get_char(start + 2);
        let c3 = source.get_char(start + 3);
        let c4 = source.get_char(start + 4);
        let c5 = source.get_char(start + 5);
        if c0 == 'r' && c1 == 'e' && c2 == 't' && c3 == 'u' && c4 == 'r' && c5 == 'n' {
            proof {
                assert(w =~= seq!['r', 'e', 't', 'u', 'r', 'n']);
            }
            Token::Return
        } else if c0 == 's' && c1 == 't' && c2 == 'r' && c3 == 'i' && c4 == 'n' && c5 == 'g' {
            proof {
                assert(w =~= seq!['s', 't', 'r', 'i', 'n', 'g']);
            }
            Token::TypeString
        } else {
            ident_token(source, start, end)
        }
    } else {
        ident_token(source, start, end)
    }
}

/// The token for a single punctuation character, or `Error` for any
/// character no lexical rule accepts.
fn punct_token(c: char) -> (r: Token)
    ensures
        r@ == (match punct_lexeme(c) {
            Some(l) => l,
            None => Lexeme::Error,
        }),
{
    match c {
        '(' => Token::LeftParen,
        ')' => Token::RightParen,
        '{' => Token::LeftBrace,
        '}' => Token::RightBrace,
        ';' => Token::Semicolon,
        '=' => Token::Equals,
        '+' => Token::Plus,
        '-' => Token::Minus,
        '*' => Token::Multiply,
        '/' => Token::Divide,
        ':' => Token::Colon,
        ',' => Token::Comma,
        _ => Token::Error,
    }
}

/// Turns program text into its tokens: whitespace separates and is
/// discarded, the longest match wins, and text that no lexical rule
/// accepts becomes an `Error` token.
pub fn tokenize(source: &str) -> (tokens: Vec<Token>)
    ensures
        tokens.deep_view() == spec_tokenize(source@),
{
    let ghost s = source@;
    let n = source.unicode_len();
    let mut toks: Vec<Token> = Vec::new();
    let mut pos: usize = 0;
    proof {
        assert(toks.deep_view() =~= Seq::<Lexeme>::empty());
    }
    while pos < n
        invariant
            s == source@,
            n == s.len(),
            pos <= n,
            spec_tokenize(s) == toks.deep_view() + spec_tokenize_from(s, pos as int),
        decreases n - pos,
    {
        let ghost old_pos = pos as int;
        let ghost old_dv = toks.deep_view();
        let c = source.get_char(pos);
        if is_space_char(c) {
            pos = pos + 1;
        } else {
            let tok: Token;
            let newpos: usize;
            if is_letter_char(c) {
                let mut end = pos + 1;
                while end < n && is_word_char(source.get_char(end))
                    invariant
                        s == source@,
                        n == s.len(),
                        pos + 1 <= end <= n,
                        word_end(s, old_pos + 1) == word_end(s, end as int),
                        old_pos == pos as int,
                    decreases n - end,
                {
                    end = end + 1;
                }
                proof {
                    assert(word_end(s, old_pos + 1) == end as int);
                }
                tok = keyword_or_ident(source, pos, end);
                newpos = end;
            } else if is_digit_char(c) {
                let d0 = (c as u32 - 48) as i64;
                let mut val: i64 = d0;
                let mut overflow: bool = false;
                let mut end = pos + 1;
                proof {
                    let first = s.subrange(old_pos, old_pos + 1);
                    assert(first.drop_last() =~= Seq::<char>::empty());
                    assert(first.last() == s[old_pos]);
                    assert(digits_value(Seq::<char>::empty()) == 0);
                    assert(digits_value(first) == (s[old_pos] as int) - 48);
                }
                while end < n && is_digit_char(source.get_char(end))
                    invariant
                        s == source@,
                        n == s.len(),
                        pos + 1 <= end <= n,
                        old_pos == pos as int,
                        is_digit(s[old_pos]),
                        digits_end(s, old_pos + 1) == digits_end(s, end as int),
                        forall|k: int| old_pos <= k < end ==> is_digit(#[trigger] s[k]),
                        !overflow ==> 0 <= val && val as int == digits_value(
                            s.subrange(old_pos, end as int),
                        ),
                        overflow ==> digits_value(s.subrange(old_pos, end as int)) > i64::MAX
                            as int,
                    decreases n - end,
                {
                    let c2 = source.get_char(end);
                    let d = (c2 as u32 - 48) as i64;
                    let ghost before = s.subrange(old_pos, end as int);
                    let ghost after = s.subrange(old_pos, end as int + 1);
                    proof {
                        assert(after.drop_last() =~= before);
                        assert(after.last() == s[end as int]);
                        lemma_digits_value_nonneg(before);
                    }
                    if overflow {
                    } else if val > (i64::MAX - d) / 10 {
                        overflow = true;
                        proof {
                            assert(digits_value(after) > i64::MAX as int) by {
                                let q = (i64::MAX - d) as int / 10;
                                assert(((i64::MAX - d) as int) < 10 * (q + 1));
                                assert((val as int) * 10 >= 10 * (q + 1));
                            }
                        }
                    } else {
                        proof {
                            let q = (i64::MAX - d) as int / 10;
                            assert(10 * q <= (i64::MAX - d) as int);
                            assert((val as int) * 10 <= 10 * q);
                        }
                        val = val * 10 + d;
                    }
                    end = end + 1;
                }
                proof {
                    assert(digits_end(s, old_pos + 1) == end as int);
                }
                if overflow {
                    tok = Token::Error;
                } else {
                    tok = Token::Number(val);
                }
                newpos = end;
            } else if c == '"' {
                let mut j = pos + 1;
                while j < n && source.get_char(j) != '"'
                    invariant
                        s == source@,
                        n == s.len(),
                        pos + 1 <= j <= n,
                        old_pos == pos as int,
                        find_quote(s, old_pos + 1) == find_quote(s, j as int),
                    decreases n - j,
                {
                    j = j + 1;
                }
                if j < n {
                    proof {
                        assert(find_quote(s, old_pos + 1) == Some(j as int));
                    }
                    tok = Token::StringLiteral;
                    newpos = j + 1;
                } else {
                    proof {
                        assert(find_quote(s, old_pos + 1) is None);
                    }
                    tok = Token::Error;
                    newpos = pos + 1;
                }
            } else {
                tok = punct_token(c);
                newpos = pos + 1;
            }
            let ghost l = next_lexeme(s, old_pos).0;
            let ghost e2 = next_lexeme(s, old_pos).1;
            proof {
                assert(tok@ == l);
                assert(newpos as int == e2);
            }
            toks.push(tok);
            pos = newpos;
            proof {
                assert(toks.deep_view() =~= old_dv.push(l));
                assert(old_dv + (seq![l] + spec_tokenize_from(s, e2)) =~= old_dv.push(l)
                    + spec_tokenize_from(s, e2));
            }
        }
    }
    proof {
        assert(toks.deep_view() + spec_tokenize_from(s, pos as int) =~= toks.deep_view());
    }
    toks
}

} // verus!
