use crate::node::{Datum, Node};
use crate::text::{chars_of, integer_of, is_digit, parse_integer, string_of};
use vstd::prelude::*;

verus! {

/// A lexical unit: a literal or symbol already turned into its node, or a parenthesis.
pub enum Token {
    Atom(Node),
    LeftParen,
    RightParen,
}

/// The model of a token.
pub enum Lexeme {
    Atom(Datum),
    LeftParen,
    RightParen,
}

impl View for Token {
    type V = Lexeme;

    open spec fn view(&self) -> Lexeme {
        match self {
            Token::Atom(n) => Lexeme::Atom(n@),
            Token::LeftParen => Lexeme::LeftParen,
            Token::RightParen => Lexeme::RightParen,
        }
    }
}

/// Why a text could not be read.
#[derive(Clone, Copy, Debug, PartialEq, Eq, Structural)]
pub enum ParseError {
    /// A text literal whose closing delimiter never came.
    UnterminatedText,
    /// A character that cannot start a token, and its index among the characters.
    UnexpectedCharacter(char, usize),
    /// A `(` that is never closed.
    UnmatchedLeftParen,
    /// A `)` with no `(` before it.
    UnmatchedRightParen,
}

/// Whether Unicode gives `c` the White_Space property.
pub open spec fn is_space(c: char) -> bool {
    c == '\t' || c == '\n' || c == '\u{B}' || c == '\u{C}' || c == '\r' || c == ' '
        || c == '\u{85}' || c == '\u{A0}' || c == '\u{1680}' || ('\u{2000}' <= c && c
        <= '\u{200A}') || c == '\u{2028}' || c == '\u{2029}' || c == '\u{202F}' || c
        == '\u{205F}' || c == '\u{3000}'
}

/// Whether `c` is whitespace.
pub fn space(c: char) -> (r: bool)
    ensures
        r == is_space(c),
{
    c == '\t' || c == '\n' || c == '\u{B}' || c == '\u{C}' || c == '\r' || c == ' '
        || c == '\u{85}' || c == '\u{A0}' || c == '\u{1680}' || ('\u{2000}' <= c && c
        <= '\u{200A}') || c == '\u{2028}' || c == '\u{2029}' || c == '\u{202F}' || c
        == '\u{205F}' || c == '\u{3000}'
}

/// Whether Unicode counts `c` as alphabetic or numeric.
pub uninterp spec fn alphanumeric(c: char) -> bool;

/// Relies on `char::is_alphanumeric`: Unicode's Alphabetic or Numeric property.
#[verifier::external_body]
pub fn is_alphanumeric(c: char) -> (r: bool)
    ensures
        r == alphanumeric(c),
{
    c.is_alphanumeric()
}

/// The punctuation that may appear in a symbol.
pub open spec fn is_symbol_punct(c: char) -> bool {
    c == '!' || c == '$' || c == '%' || c == '&' || c == '*' || c == '+' || c == '-' || c == '.'
        || c == '/' || c == ':' || c == '<' || c == '=' || c == '>' || c == '?' || c == '\\'
        || c == '^' || c == '_' || c == '{' || c == '}' || c == '|' || c == '~'
}

/// Whether `c` is an ASCII letter or digit.
pub open spec fn is_ascii_alphanumeric(c: char) -> bool {
    ('a' <= c && c <= 'z') || ('A' <= c && c <= 'Z') || ('0' <= c && c <= '9')
}

/// Whether `c` may appear in a symbol, number or boolean: a letter or digit
/// (for ASCII, exactly the ASCII letters and digits), or one of the symbol
/// punctuation marks.
pub open spec fn is_symbol_char(c: char) -> bool {
    is_ascii_alphanumeric(c) || is_symbol_punct(c) || ((c as u32) >= 128 && alphanumeric(c))
}

pub fn symbol_char(c: char) -> (r: bool)
    ensures
        r == is_symbol_char(c),
{
    if (c as u32) >= 128 {
        return is_alphanumeric(c);
    }
    ('a' <= c && c <= 'z') || ('A' <= c && c <= 'Z') || ('0' <= c && c <= '9') || c == '!' || c == '$' || c == '%' || c == '&' || c == '*' || c == '+'
        || c == '-' || c == '.' || c == '/' || c == ':' || c == '<' || c == '=' || c == '>'
        || c == '?' || c == '\\' || c == '^' || c == '_' || c == '{' || c == '}' || c == '|'
        || c == '~'
}

/// The index of the first character at or after `i` satisfying a
/// stop condition: a newline (`Newline`), the delimiter `d` (`Delimiter`),
/// or a character outside the symbol set (`Symbol`); the length if none.
pub open spec fn line_end(cs: Seq<char>, i: int) -> int
    decreases cs.len() - i,
{
    if i < 0 || i >= cs.len() || cs[i] == '\n' {
        if i < 0 { 0 } else if i > cs.len() { cs.len() as int } else { i }
    } else {
        line_end(cs, i + 1)
    }
}

/// The index of the first `d` at or after `i`, or the length if there is none.
pub open spec fn delimiter_at(cs: Seq<char>, i: int, d: char) -> int
    decreases cs.len() - i,
{
    if i < 0 || i >= cs.len() || cs[i] == d {
        if i < 0 { 0 } else if i > cs.len() { cs.len() as int } else { i }
    } else {
        delimiter_at(cs, i + 1, d)
    }
}

/// The end of the run of symbol characters that starts at `i`.
pub open spec fn run_end(cs: Seq<char>, i: int) -> int
    decreases cs.len() - i,
{
    if i < 0 || i >= cs.len() || !is_symbol_char(cs[i]) {
        if i < 0 { 0 } else if i > cs.len() { cs.len() as int } else { i }
    } else {
        run_end(cs, i + 1)
    }
}

/// The end of the run of decimal digits that starts at `i`.
pub open spec fn digits_end(s: Seq<char>, i: int) -> int
    decreases s.len() - i,
{
    if 0 <= i < s.len() && is_digit(s[i]) {
        digits_end(s, i + 1)
    } else {
        i
    }
}

/// 1 when a sign stands at `i`, else 0.
pub open spec fn sign_len(s: Seq<char>, i: int) -> int {
    if 0 <= i < s.len() && (s[i] == '+' || s[i] == '-') {
        1
    } else {
        0
    }
}

/// Whether `s[i..]` spells the word `lower` in any mix of cases, `upper`
/// being its upper-case spelling.
pub open spec fn is_word_at(s: Seq<char>, i: int, lower: Seq<char>, upper: Seq<char>) -> bool {
    &&& 0 <= i <= s.len()
    &&& s.len() - i == lower.len()
    &&& upper.len() == lower.len()
    &&& forall|k: int| 0 <= k < lower.len() ==> s[i + k] == #[trigger] lower[k] || s[i + k] == upper[k]
}

/// Whether `s[i..]` is a decimal floating-point number: digits with an
/// optional fraction (at least one digit in all), then an optional exponent.
pub open spec fn is_decimal_at(s: Seq<char>, i: int) -> bool {
    let a = digits_end(s, i);
    let has_point = a < s.len() && s[a] == '.';
    let b = if has_point { digits_end(s, a + 1) } else { a };
    let mantissa = if has_point { a > i || b > a + 1 } else { a > i };
    &&& mantissa
    &&& (b == s.len() || (b < s.len() && (s[b] == 'e' || s[b] == 'E') && {
        let e0 = b + 1 + sign_len(s, b + 1);
        let e1 = digits_end(s, e0);
        e1 > e0 && e1 == s.len()
    }))
}

/// Whether `s` is the text of a floating-point number as Rust's `f64` reads
/// it: an optional sign, then `inf`, `infinity` or `nan` in any case, or a
/// decimal number.
pub open spec fn is_float_literal(s: Seq<char>) -> bool {
    let i = sign_len(s, 0);
    is_word_at(s, i, "inf"@, "INF"@) || is_word_at(s, i, "infinity"@, "INFINITY"@) || is_word_at(
        s,
        i,
        "nan"@,
        "NAN"@,
    ) || is_decimal_at(s, i)
}

/// The token a run of symbol characters stands for: an integer, a float, a
/// boolean, else a symbol, tried in that order.
pub open spec fn classify(word: Seq<char>) -> Datum {
    match integer_of(word) {
        Some(n) => Datum::Number(n),
        None => if is_float_literal(word) {
            Datum::Float(word)
        } else if word == "true"@ {
            Datum::Bool(true)
        } else if word == "false"@ {
            Datum::Bool(false)
        } else {
            Datum::Symbol(word)
        },
    }
}

/// The text of a literal with each `\n` two-character sequence made a newline.
pub open spec fn unescape(s: Seq<char>) -> Seq<char>
    decreases s.len(),
{
    if s.len() == 0 {
        s
    } else if s.len() >= 2 && s[0] == '\\' && s[1] == 'n' {
        seq!['\n'] + unescape(s.subrange(2, s.len() as int))
    } else {
        seq![s[0]] + unescape(s.drop_first())
    }
}

/// The tokens of `cs` from index `i` on.
pub open spec fn lex_from(cs: Seq<char>, i: int) -> Result<Seq<Lexeme>, ParseError>
    decreases cs.len() - i,
{
    if i < 0 || i >= cs.len() {
        Ok(Seq::empty())
    } else {
        let c = cs[i];
        if c == ';' {
            let j = line_end(cs, i);
            if j <= i || j > cs.len() { Ok(Seq::empty()) } else { lex_from(cs, j) }
        } else if c == '(' {
            prepend(Lexeme::LeftParen, lex_from(cs, i + 1))
        } else if c == ')' {
            prepend(Lexeme::RightParen, lex_from(cs, i + 1))
        } else if is_space(c) {
            lex_from(cs, i + 1)
        } else if c == '`' || c == '"' {
            let j = delimiter_at(cs, i + 1, c);
            if j >= cs.len() {
                Err(ParseError::UnterminatedText)
            } else if j < i + 1 {
                Ok(Seq::empty())
            } else {
                prepend(
                    Lexeme::Atom(Datum::Text(unescape(cs.subrange(i + 1, j)))),
                    lex_from(cs, j + 1),
                )
            }
        } else if is_symbol_char(c) {
            let j = run_end(cs, i);
            if j <= i || j > cs.len() {
                Ok(Seq::empty())
            } else {
                prepend(Lexeme::Atom(classify(cs.subrange(i, j))), lex_from(cs, j))
            }
        } else {
            Err(ParseError::UnexpectedCharacter(c, i as usize))
        }
    }
}

/// `t` in front of a token sequence, or the error unchanged.
pub open spec fn prepend(t: Lexeme, r: Result<Seq<Lexeme>, ParseError>) -> Result<Seq<Lexeme>, ParseError> {
    match r {
        Ok(ts) => Ok(seq![t] + ts),
        Err(e) => Err(e),
    }
}

/// Where tokens start: after a leading `#!` line, if there is one.
pub open spec fn body_start(cs: Seq<char>) -> int {
    if cs.len() >= 2 && cs[0] == '#' && cs[1] == '!' {
        line_end(cs, 0)
    } else {
        0
    }
}

/// The tokens of a source text.
pub open spec fn lex(cs: Seq<char>) -> Result<Seq<Lexeme>, ParseError> {
    lex_from(cs, body_start(cs))
}

/// The models of a sequence of tokens.
pub open spec fn lexemes(ts: Seq<Token>) -> Seq<Lexeme> {
    ts.map_values(|t: Token| t@)
}

/// The tokens found so far, followed by the tokens of the rest.
pub open spec fn after(done: Seq<Lexeme>, r: Result<Seq<Lexeme>, ParseError>) -> Result<Seq<Lexeme>, ParseError> {
    match r {
        Ok(ts) => Ok(done + ts),
        Err(e) => Err(e),
    }
}

fn scan_line_end(cs: &Vec<char>, i: usize) -> (j: usize)
    requires
        i <= cs.len(),
    ensures
        j == line_end(cs@, i as int),
        i <= j <= cs.len(),
{
    let mut j = i;
    while j < cs.len() && cs[j] != '\n'
        invariant
            i <= j <= cs.len(),
            line_end(cs@, i as int) == line_end(cs@, j as int),
        decreases cs.len() - j,
    {
        j += 1;
    }
    j
}

fn scan_delimiter(cs: &Vec<char>, i: usize, d: char) -> (j: usize)
    requires
        i <= cs.len(),
    ensures
        j == delimiter_at(cs@, i as int, d),
        i <= j <= cs.len(),
{
    let mut j = i;
    while j < cs.len() && cs[j] != d
        invariant
            i <= j <= cs.len(),
            delimiter_at(cs@, i as int, d) == delimiter_at(cs@, j as int, d),
        decreases cs.len() - j,
    {
        j += 1;
    }
    j
}

fn scan_run(cs: &Vec<char>, i: usize) -> (j: usize)
    requires
        i <= cs.len(),
    ensures
        j == run_end(cs@, i as int),
        i <= j <= cs.len(),
{
    let mut j = i;
    while j < cs.len() && symbol_char(cs[j])
        invariant
            i <= j <= cs.len(),
            run_end(cs@, i as int) == run_end(cs@, j as int),
        decreases cs.len() - j,
    {
        j += 1;
    }
    j
}

fn scan_digits(s: &Vec<char>, i: usize) -> (j: usize)
    requires
        i <= s.len(),
    ensures
        j == digits_end(s@, i as int),
        i <= j <= s.len(),
{
    let mut j = i;
    while j < s.len() && '0' <= s[j] && s[j] <= '9'
        invariant
            i <= j <= s.len(),
            digits_end(s@, i as int) == digits_end(s@, j as int),
        decreases s.len() - j,
    {
        j += 1;
    }
    j
}

fn word_at(s: &Vec<char>, i: usize, lower: &str, upper: &str) -> (r: bool)
    requires
        i <= s.len(),
    ensures
        r == is_word_at(s@, i as int, lower@, upper@),
{
    let lo = chars_of(lower);
    let up = chars_of(upper);
    if s.len() - i != lo.len() || up.len() != lo.len() {
        return false;
    }
    let mut k: usize = 0;
    while k < lo.len()
        invariant
            k <= lo.len(),
            i <= s.len(),
            lo@ == lower@,
            up@ == upper@,
            s.len() - i == lo.len(),
            up.len() == lo.len(),
            forall|m: int| 0 <= m < k ==> s@[i + m] == #[trigger] lo@[m] || s@[i + m] == up@[m],
        decreases lo.len() - k,
    {
        if s[i + k] != lo[k] && s[i + k] != up[k] {
            assert(lower@[k as int] == lo@[k as int]);
            return false;
        }
        k += 1;
    }
    true
}

fn sign_width(s: &Vec<char>, i: usize) -> (r: usize)
    ensures
        r as int == sign_len(s@, i as int),
{
    if i < s.len() && (s[i] == '+' || s[i] == '-') {
        1
    } else {
        0
    }
}

/// Whether a word is a floating-point literal.
pub fn float_literal(s: &Vec<char>) -> (r: bool)
    ensures
        r == is_float_literal(s@),
{
    let i = sign_width(s, 0);
    if word_at(s, i, "inf", "INF") || word_at(s, i, "infinity", "INFINITY") || word_at(s, i, "nan", "NAN") {
        return true;
    }
    let a = scan_digits(s, i);
    let has_point = a < s.len() && s[a] == '.';
    let b = if has_point { scan_digits(s, a + 1) } else { a };
    let mantissa = if has_point { a > i || b > a + 1 } else { a > i };
    if !mantissa {
        return false;
    }
    if b == s.len() {
        return true;
    }
    if s[b] == 'e' || s[b] == 'E' {
        let e0 = b + 1 + sign_width(s, b + 1);
        if e0 > s.len() {
            return false;
        }
        let e1 = scan_digits(s, e0);
        e1 > e0 && e1 == s.len()
    } else {
        false
    }
}

/// The node a run of symbol characters stands for.
pub fn classify_word(w: &Vec<char>) -> (r: Node)
    ensures
        r@ == classify(w@),
{
    match parse_integer(w) {
        Some(n) => Node::Number(n),
        None => {
            let text = string_of(w.as_slice());
            if float_literal(w) {
                Node::Float(text)
            } else if crate::environment::same_text(text.as_str(), "true") {
                Node::Bool(true)
            } else if crate::environment::same_text(text.as_str(), "false") {
                Node::Bool(false)
            } else {
                Node::Symbol(text)
            }
        },
    }
}

/// The characters `cs[from..to]` with each `\n` sequence made a newline.
fn unescape_range(cs: &Vec<char>, from: usize, to: usize) -> (r: Vec<char>)
    requires
        from <= to <= cs.len(),
    ensures
        r@ == unescape(cs@.subrange(from as int, to as int)),
{
    let mut out: Vec<char> = Vec::new();
    let mut k = from;
    while k < to
        invariant
            from <= k <= to,
            to <= cs.len(),
            unescape(cs@.subrange(from as int, to as int)) == out@ + unescape(cs@.subrange(k as int, to as int)),
        decreases to - k,
    {
        let ghost t = cs@.subrange(k as int, to as int);
        let ghost prev = out@;
        if k + 1 < to && cs[k] == '\\' && cs[k + 1] == 'n' {
            out.push('\n');
            proof {
                assert(t.subrange(2, t.len() as int) =~= cs@.subrange(k + 2, to as int));
                assert(prev + unescape(t) =~= out@ + unescape(cs@.subrange(k + 2, to as int)));
            }
            k += 2;
        } else {
            out.push(cs[k]);
            proof {
                assert(t.drop_first() =~= cs@.subrange(k + 1, to as int));
                assert(prev + unescape(t) =~= out@ + unescape(cs@.subrange(k + 1, to as int)));
            }
            k += 1;
        }
    }
    proof {
        assert(out@ + unescape(cs@.subrange(k as int, to as int)) =~= out@);
    }
    out
}

fn push_token(tokens: &mut Vec<Token>, t: Token)
    ensures
        lexemes(final(tokens)@) == lexemes(old(tokens)@).push(t@),
{
    tokens.push(t);
    assert(lexemes(final(tokens)@) =~= lexemes(old(tokens)@).push(t@));
}

/// Splits a source text into tokens. Line comments start at `;`; text
/// literals sit between backquotes or double quotes; a leading `#!` line is
/// skipped.
pub fn tokenize(source: &str) -> (r: Result<Vec<Token>, ParseError>)
    ensures
        match lex(source@) {
            Ok(ts) => r is Ok && lexemes(r->Ok_0@) == ts,
            Err(e) => r == Err::<Vec<Token>, ParseError>(e),
        },
{
    let cs = chars_of(source);
    let mut tokens: Vec<Token> = Vec::new();
    let mut i: usize = if cs.len() >= 2 && cs[0] == '#' && cs[1] == '!' {
        scan_line_end(&cs, 0)
    } else {
        0
    };
    proof {
        assert(lexemes(tokens@) =~= Seq::<Lexeme>::empty());
        assert(after(Seq::empty(), lex_from(cs@, i as int)) =~= lex_from(cs@, i as int)) by {
            if let Ok(ts) = lex_from(cs@, i as int) {
                assert(Seq::<Lexeme>::empty() + ts =~= ts);
            }
        }
    }
    while i < cs.len()
        invariant
            i <= cs.len(),
            cs@ == source@,
            lex(cs@) == after(lexemes(tokens@), lex_from(cs@, i as int)),
        decreases cs.len() - i,
    {
        let ghost done = lexemes(tokens@);
        let c = cs[i];
        if c == ';' {
            i = scan_line_end(&cs, i + 1);
        } else if c == '(' {
            push_token(&mut tokens, Token::LeftParen);
            proof {
                if let Ok(ts) = lex_from(cs@, i + 1) {
                    assert(done + (seq![Lexeme::LeftParen] + ts) =~= done.push(Lexeme::LeftParen) + ts);
                }
            }
            i += 1;
        } else if c == ')' {
            push_token(&mut tokens, Token::RightParen);
            proof {
                if let Ok(ts) = lex_from(cs@, i + 1) {
                    assert(done + (seq![Lexeme::RightParen] + ts) =~= done.push(Lexeme::RightParen) + ts);
                }
            }
            i += 1;
        } else if space(c) {
            i += 1;
        } else if c == '`' || c == '"' {
            let j = scan_delimiter(&cs, i + 1, c);
            if j >= cs.len() {
                return Err(ParseError::UnterminatedText);
            }
            let body = unescape_range(&cs, i + 1, j);
            let t = Token::Atom(Node::Text(string_of(body.as_slice())));
            let ghost l = t@;
            push_token(&mut tokens, t);
            proof {
                if let Ok(ts) = lex_from(cs@, j + 1) {
                    assert(done + (seq![l] + ts) =~= done.push(l) + ts);
                }
            }
            i = j + 1;
        } else if symbol_char(c) {
            let j = scan_run(&cs, i + 1);
            let mut word: Vec<char> = Vec::new();
            let mut k = i;
            while k < j
                invariant
                    i <= k <= j,
                    j <= cs.len(),
                    word@ =~= cs@.subrange(i as int, k as int),
                decreases j - k,
            {
                word.push(cs[k]);
                k += 1;
            }
            let t = Token::Atom(classify_word(&word));
            let ghost l = t@;
            push_token(&mut tokens, t);
            proof {
                if let Ok(ts) = lex_from(cs@, j as int) {
                    assert(done + (seq![l] + ts) =~= done.push(l) + ts);
                }
            }
            i = j;
        } else {
            return Err(ParseError::UnexpectedCharacter(c, i));
        }
    }
    proof {
        assert(lexemes(tokens@) + Seq::<Lexeme>::empty() =~= lexemes(tokens@));
    }
    Ok(tokens)
}

} // verus!
