//! The lexer: source text to a flat sequence of tokens, scanned left to right.
use vstd::prelude::*;
use crate::text::{alphanumeric, is_digit, is_ascii_letter, is_alphanumeric, chars_of, push_char};

verus! {

/// One lexical unit. A numeric literal holds its value in canonical decimal
/// text (no leading zeros in the integer part, no trailing zeros in the
/// fraction, no dot when the fraction is zero).
pub enum Token {
    Number(String),
    StringLiteral(String),
    Word(String),
    LeftBrace,
    RightBrace,
    Colon,
    Semicolon,
    LeftParen,
    RightParen,
    LeftBracket,
    RightBracket,
    Comma,
    Ampersand,
}

/// The mathematical value of a token: its text as a character sequence.
pub enum TokenV {
    Number(Seq<char>),
    StringLiteral(Seq<char>),
    Word(Seq<char>),
    LeftBrace,
    RightBrace,
    Colon,
    Semicolon,
    LeftParen,
    RightParen,
    LeftBracket,
    RightBracket,
    Comma,
    Ampersand,
}

impl View for Token {
    type V = TokenV;

    open spec fn view(&self) -> TokenV {
        match self {
            Token::Number(s) => TokenV::Number(s@),
            Token::StringLiteral(s) => TokenV::StringLiteral(s@),
            Token::Word(s) => TokenV::Word(s@),
            Token::LeftBrace => TokenV::LeftBrace,
            Token::RightBrace => TokenV::RightBrace,
            Token::Colon => TokenV::Colon,
            Token::Semicolon => TokenV::Semicolon,
            Token::LeftParen => TokenV::LeftParen,
            Token::RightParen => TokenV::RightParen,
            Token::LeftBracket => TokenV::LeftBracket,
            Token::RightBracket => TokenV::RightBracket,
            Token::Comma => TokenV::Comma,
            Token::Ampersand => TokenV::Ampersand,
        }
    }
}

impl PartialEq for Token {
    fn eq(&self, o: &Token) -> (r: bool) {
        match (self, o) {
            (Token::Number(a), Token::Number(b)) => a.eq(b),
            (Token::StringLiteral(a), Token::StringLiteral(b)) => a.eq(b),
            (Token::Word(a), Token::Word(b)) => a.eq(b),
            (Token::LeftBrace, Token::LeftBrace) => true,
            (Token::RightBrace, Token::RightBrace) => true,
            (Token::Colon, Token::Colon) => true,
            (Token::Semicolon, Token::Semicolon) => true,
            (Token::LeftParen, Token::LeftParen) => true,
            (Token::RightParen, Token::RightParen) => true,
            (Token::LeftBracket, Token::LeftBracket) => true,
            (Token::RightBracket, Token::RightBracket) => true,
            (Token::Comma, Token::Comma) => true,
            (Token::Ampersand, Token::Ampersand) => true,
            _ => false,
        }
    }
}

impl vstd::std_specs::cmp::PartialEqSpecImpl for Token {
    open spec fn obeys_eq_spec() -> bool {
        true
    }

    open spec fn eq_spec(&self, o: &Token) -> bool {
        self@ == o@
    }
}

pub open spec fn is_word_char(c: char) -> bool {
    alphanumeric(c) || c == '_' || c == '-'
}

/// End of the bare word whose characters continue from `i`.
pub open spec fn word_end(s: Seq<char>, i: int) -> int
    decreases s.len() - i,
{
    if 0 <= i < s.len() && is_word_char(s[i]) {
        word_end(s, i + 1)
    } else {
        i
    }
}

/// End of the numeric literal continuing from `i`: digits, and one dot unless
/// `dot` says one was already taken.
pub open spec fn number_end(s: Seq<char>, i: int, dot: bool) -> int
    decreases s.len() - i,
{
    if 0 <= i < s.len() && (is_digit(s[i]) || (s[i] == '.' && !dot)) {
        number_end(s, i + 1, dot || s[i] == '.')
    } else {
        i
    }
}

/// Body of a string literal continuing from `i` and closed by `q`, with the
/// position after the closing quote (or the end of the text). A backslash
/// makes the character after it literal.
pub open spec fn scan_string(s: Seq<char>, i: int, q: char) -> (Seq<char>, int)
    decreases s.len() - i,
{
    if i < 0 || i >= s.len() {
        (Seq::empty(), s.len() as int)
    } else if s[i] == '\\' {
        if i + 1 < s.len() {
            let r = scan_string(s, i + 2, q);
            (seq![s[i + 1]] + r.0, r.1)
        } else {
            (Seq::empty(), s.len() as int)
        }
    } else if s[i] == q {
        (Seq::empty(), i + 1)
    } else {
        let r = scan_string(s, i + 1, q);
        (seq![s[i]] + r.0, r.1)
    }
}

pub open spec fn trim_leading_zeros(d: Seq<char>) -> Seq<char>
    decreases d.len(),
{
    if d.len() > 0 && d[0] == '0' {
        trim_leading_zeros(d.drop_first())
    } else {
        d
    }
}

pub open spec fn trim_trailing_zeros(d: Seq<char>) -> Seq<char>
    decreases d.len(),
{
    if d.len() > 0 && d.last() == '0' {
        trim_trailing_zeros(d.drop_last())
    } else {
        d
    }
}

/// Canonical decimal text of `int_part.frac_part`.
pub open spec fn canonical_decimal(int_part: Seq<char>, frac_part: Seq<char>) -> Seq<char> {
    let i = trim_leading_zeros(int_part);
    let f = trim_trailing_zeros(frac_part);
    let ip = if i.len() == 0 { seq!['0'] } else { i };
    if f.len() == 0 { ip } else { ip + seq!['.'] + f }
}

/// Canonical decimal text of a literal made of digits and at most one dot.
pub open spec fn number_text(lexeme: Seq<char>) -> Seq<char> {
    if exists|k: int| 0 <= k < lexeme.len() && lexeme[k] == '.' {
        let k = choose|k: int| 0 <= k < lexeme.len() && lexeme[k] == '.';
        canonical_decimal(lexeme.subrange(0, k), lexeme.subrange(k + 1, lexeme.len() as int))
    } else {
        canonical_decimal(lexeme, Seq::empty())
    }
}

pub open spec fn punctuation(c: char) -> Option<TokenV> {
    if c == '(' {
        Some(TokenV::LeftParen)
    } else if c == ')' {
        Some(TokenV::RightParen)
    } else if c == ';' {
        Some(TokenV::Semicolon)
    } else if c == ':' {
        Some(TokenV::Colon)
    } else if c == '{' {
        Some(TokenV::LeftBrace)
    } else if c == '}' {
        Some(TokenV::RightBrace)
    } else if c == ',' {
        Some(TokenV::Comma)
    } else {
        None
    }
}

/// The token starting at `i` with the position after it, or `None` when the
/// character at `i` is skipped (whitespace or an unrecognised character).
pub open spec fn token_at(s: Seq<char>, i: int) -> Option<(TokenV, int)>
    recommends
        0 <= i < s.len(),
{
    let c = s[i];
    if c == '"' || c == '\'' {
        let r = scan_string(s, i + 1, c);
        Some((TokenV::StringLiteral(r.0), r.1))
    } else if is_digit(c) {
        let e = number_end(s, i + 1, false);
        Some((TokenV::Number(number_text(s.subrange(i, e))), e))
    } else if is_ascii_letter(c) {
        let e = word_end(s, i + 1);
        Some((TokenV::Word(s.subrange(i, e)), e))
    } else if punctuation(c) is Some {
        Some((punctuation(c)->0, i + 1))
    } else {
        None
    }
}

/// The tokens of `s` from position `i` on.
pub open spec fn lex_from(s: Seq<char>, i: int) -> Seq<TokenV>
    decreases s.len() - i,
{
    if i < 0 || i >= s.len() {
        Seq::empty()
    } else {
        match token_at(s, i) {
            None => lex_from(s, i + 1),
            Some((t, e)) => if i < e <= s.len() { seq![t] + lex_from(s, e) } else { Seq::empty() },
        }
    }
}

/// The token sequence of a whole source text.
pub open spec fn lex(s: Seq<char>) -> Seq<TokenV> {
    lex_from(s, 0)
}

pub open spec fn tokens_view(t: Seq<Token>) -> Seq<TokenV> {
    t.map_values(|x: Token| x@)
}

/// Appends the characters `s[from..to]` to `out`.
fn push_range(out: &mut String, s: &Vec<char>, from: usize, to: usize)
    requires
        from <= to <= s@.len(),
    ensures
        final(out)@ == old(out)@ + s@.subrange(from as int, to as int),
{
    let mut k = from;
    while k < to
        invariant
            from <= k <= to <= s@.len(),
            out@ == old(out)@ + s@.subrange(from as int, k as int),
        decreases to - k,
    {
        push_char(out, s[k]);
        assert(s@.subrange(from as int, k + 1) =~= s@.subrange(from as int, k as int).push(s@[k as int]));
        k = k + 1;
    }
}

/// Scans a numeric literal whose first digit is at `start`; returns its
/// canonical decimal text and the position after it.
fn parse_number(s: &Vec<char>, start: usize) -> (r: (String, usize))
    requires
        start < s@.len(),
        is_digit(s@[start as int]),
    ensures
        r.1 == number_end(s@, start + 1, false),
        r.0@ == number_text(s@.subrange(start as int, r.1 as int)),
{
    let ghost sv = s@;
    let n = s.len();
    assert(start < n);
    let mut j = start + 1;
    let mut dot = false;
    let mut dot_at: usize = start;
    while j < s.len() && (('0' <= s[j] && s[j] <= '9') || (s[j] == '.' && !dot))
        invariant
            start < j <= sv.len(),
            sv == s@,
            number_end(sv, start + 1, false) == number_end(sv, j as int, dot),
            is_digit(sv[start as int]),
            dot ==> start < dot_at < j && sv[dot_at as int] == '.',
            forall|k: int| start <= k < j && sv[k] == '.' ==> dot && k == dot_at,
        decreases sv.len() - j,
    {
        if s[j] == '.' {
            dot = true;
            dot_at = j;
        }
        j = j + 1;
    }
    let end = j;
    let ghost lexeme = sv.subrange(start as int, end as int);
    let int_end = if dot { dot_at } else { end };
    let frac_start = if dot { dot_at + 1 } else { end };
    proof {
        if dot {
            let k = dot_at - start;
            assert(lexeme[k] == '.');
            let c = choose|k: int| 0 <= k < lexeme.len() && lexeme[k] == '.';
            assert(sv[start + c] == '.');
            assert(c == k);
            assert(lexeme.subrange(0, k) =~= sv.subrange(start as int, int_end as int));
            assert(lexeme.subrange(k + 1, lexeme.len() as int) =~= sv.subrange(frac_start as int, end as int));
        } else {
            assert forall|k: int| 0 <= k < lexeme.len() implies lexeme[k] != '.' by {
                assert(sv[start + k] == lexeme[k]);
            }
            assert(sv.subrange(frac_start as int, end as int) =~= Seq::<char>::empty());
        }
        assert(number_text(lexeme) == canonical_decimal(
            sv.subrange(start as int, int_end as int), sv.subrange(frac_start as int, end as int)));
    }
    let mut a = start;
    while a < int_end && s[a] == '0'
        invariant
            start <= a <= int_end <= end <= sv.len(),
            sv == s@,
            trim_leading_zeros(sv.subrange(start as int, int_end as int))
                == trim_leading_zeros(sv.subrange(a as int, int_end as int)),
        decreases int_end - a,
    {
        assert(sv.subrange(a as int, int_end as int).drop_first() =~= sv.subrange(a + 1, int_end as int));
        a = a + 1;
    }
    let mut b = end;
    while b > frac_start && s[b - 1] == '0'
        invariant
            frac_start <= b <= end <= sv.len(),
            sv == s@,
            trim_trailing_zeros(sv.subrange(frac_start as int, end as int))
                == trim_trailing_zeros(sv.subrange(frac_start as int, b as int)),
        decreases b - frac_start,
    {
        assert(sv.subrange(frac_start as int, b as int).drop_last() =~= sv.subrange(frac_start as int, b - 1));
        b = b - 1;
    }
    let mut out = String::new();
    if a == int_end {
        push_char(&mut out, '0');
        assert(out@ =~= seq!['0']);
    } else {
        push_range(&mut out, s, a, int_end);
        assert(out@ =~= sv.subrange(a as int, int_end as int));
    }
    if b > frac_start {
        push_char(&mut out, '.');
        push_range(&mut out, s, frac_start, b);
    }
    proof {
        let ip = trim_leading_zeros(sv.subrange(start as int, int_end as int));
        let f = trim_trailing_zeros(sv.subrange(frac_start as int, end as int));
        assert(ip == sv.subrange(a as int, int_end as int));
        assert(f == sv.subrange(frac_start as int, b as int));
    }
    (out, end)
}

/// Scans the body of a string literal from `start`, closed by `quote`;
/// returns the body and the position after the closing quote (or the end).
fn parse_string(s: &Vec<char>, start: usize, quote: char) -> (r: (String, usize))
    requires
        start <= s@.len(),
    ensures
        (r.0@, r.1 as int) == scan_string(s@, start as int, quote),
{
    let ghost sv = s@;
    let mut content = String::new();
    let mut j = start;
    while j < s.len()
        invariant
            start <= j <= sv.len(),
            sv == s@,
            scan_string(sv, start as int, quote)
                == (content@ + scan_string(sv, j as int, quote).0, scan_string(sv, j as int, quote).1),
        decreases sv.len() - j,
    {
        let c = s[j];
        if c == '\\' {
            if j + 1 < s.len() {
                let ghost before = content@;
                push_char(&mut content, s[j + 1]);
                let ghost rest = scan_string(sv, j + 2, quote);
                assert(before + (seq![sv[j + 1]] + rest.0) =~= content@ + rest.0);
                j = j + 2;
            } else {
                assert(content@ + Seq::<char>::empty() =~= content@);
                return (content, s.len());
            }
        } else if c == quote {
            assert(content@ + Seq::<char>::empty() =~= content@);
            return (content, j + 1);
        } else {
            let ghost before = content@;
            push_char(&mut content, c);
            let ghost rest = scan_string(sv, j + 1, quote);
            assert(before + (seq![c] + rest.0) =~= content@ + rest.0);
            j = j + 1;
        }
    }
    assert(content@ + Seq::<char>::empty() =~= content@);
    (content, j)
}

/// Scans a bare word whose first letter is at `start`; returns it and the
/// position after it.
fn parse_word(s: &Vec<char>, start: usize) -> (r: (String, usize))
    requires
        start < s@.len(),
    ensures
        r.1 == word_end(s@, start + 1),
        r.0@ == s@.subrange(start as int, r.1 as int),
{
    let ghost sv = s@;
    let mut word = String::new();
    push_char(&mut word, s[start]);
    let n = s.len();
    assert(start < n);
    let mut j = start + 1;
    assert(word@ =~= sv.subrange(start as int, j as int));
    while j < s.len() && (is_alphanumeric(s[j]) || s[j] == '_' || s[j] == '-')
        invariant
            start < j <= sv.len(),
            sv == s@,
            word@ == sv.subrange(start as int, j as int),
            word_end(sv, start + 1) == word_end(sv, j as int),
        decreases sv.len() - j,
    {
        push_char(&mut word, s[j]);
        assert(sv.subrange(start as int, j + 1) =~= sv.subrange(start as int, j as int).push(sv[j as int]));
        j = j + 1;
    }
    (word, j)
}

/// Splits source text into tokens. Whitespace and unrecognised characters
/// are skipped; an unterminated string literal runs to the end of the text.
pub fn tokenize(source: String) -> (r: Vec<Token>)
    ensures
        tokens_view(r@) == lex(source@),
{
    let s = chars_of(source.as_str());
    let ghost sv = s@;
    let mut tokens: Vec<Token> = Vec::new();
    let mut i: usize = 0;
    while i < s.len()
        invariant
            i <= sv.len(),
            sv == s@,
            sv == source@,
            lex(sv) == tokens_view(tokens@) + lex_from(sv, i as int),
        decreases sv.len() - i,
    {
        let c = s[i];
        let ghost before = tokens_view(tokens@);
        let mut next = i + 1;
        let mut tok: Option<Token> = None;
        if c == '"' || c == '\'' {
            let (body, e) = parse_string(&s, i + 1, c);
            tok = Some(Token::StringLiteral(body));
            next = e;
        } else if '0' <= c && c <= '9' {
            let (text, e) = parse_number(&s, i);
            tok = Some(Token::Number(text));
            next = e;
        } else if ('a' <= c && c <= 'z') || ('A' <= c && c <= 'Z') {
            let (w, e) = parse_word(&s, i);
            tok = Some(Token::Word(w));
            next = e;
        } else if c == '(' {
            tok = Some(Token::LeftParen);
        } else if c == ')' {
            tok = Some(Token::RightParen);
        } else if c == ';' {
            tok = Some(Token::Semicolon);
        } else if c == ':' {
            tok = Some(Token::Colon);
        } else if c == '{' {
            tok = Some(Token::LeftBrace);
        } else if c == '}' {
            tok = Some(Token::RightBrace);
        } else if c == ',' {
            tok = Some(Token::Comma);
        }
        proof {
            lemma_scan_string_bounds(sv, i + 1, c);
            lemma_number_end_bounds(sv, i + 1, false);
            lemma_word_end_bounds(sv, i + 1);
        }
        match tok {
            Some(t) => {
                assert(token_at(sv, i as int) == Some((t@, next as int)));
                tokens.push(t);
                assert(tokens_view(tokens@) =~= before.push(t@));
                assert(before + lex_from(sv, i as int) =~= tokens_view(tokens@) + lex_from(sv, next as int));
            },
            None => {
                assert(token_at(sv, i as int) is None);
            },
        }
        i = next;
    }
    assert(tokens_view(tokens@) + Seq::<TokenV>::empty() =~= tokens_view(tokens@));
    tokens
}

proof fn lemma_scan_string_bounds(s: Seq<char>, i: int, q: char)
    requires
        0 <= i,
    ensures
        i <= scan_string(s, i, q).1 <= s.len() || (i > s.len() && scan_string(s, i, q).1 == s.len()),
    decreases s.len() - i,
{
    if i < s.len() {
        if s[i] == '\\' {
            if i + 1 < s.len() {
                lemma_scan_string_bounds(s, i + 2, q);
            }
        } else if s[i] != q {
            lemma_scan_string_bounds(s, i + 1, q);
        }
    }
}

proof fn lemma_number_end_bounds(s: Seq<char>, i: int, dot: bool)
    requires
        0 <= i,
    ensures
        i <= number_end(s, i, dot),
        i <= s.len() ==> number_end(s, i, dot) <= s.len(),
    decreases s.len() - i,
{
    if 0 <= i < s.len() && (is_digit(s[i]) || (s[i] == '.' && !dot)) {
        lemma_number_end_bounds(s, i + 1, dot || s[i] == '.');
    }
}

proof fn lemma_word_end_bounds(s: Seq<char>, i: int)
    requires
        0 <= i,
    ensures
        i <= word_end(s, i),
        i <= s.len() ==> word_end(s, i) <= s.len(),
    decreases s.len() - i,
{
    if 0 <= i < s.len() && is_word_char(s[i]) {
        lemma_word_end_bounds(s, i + 1);
    }
}

} // verus!
