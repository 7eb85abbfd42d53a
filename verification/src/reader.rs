use vstd::prelude::*;

use crate::text::{chars_of, text_of};
use crate::types::{lemma_views, views, MalAtom, MalVal, Value};

pub mod laws;

verus! {

/// Why a text could not be read.
#[derive(Debug, PartialEq)]
pub enum ParseError {
    /// A list, vector or map was opened and never closed: more input may complete it.
    UnterminatedInput,
    /// The text ended inside a string literal.
    UnterminatedString,
    /// A line ended inside a string literal.
    NewlineInString,
    /// A backslash in a string literal stands before this character, which it cannot
    /// escape.
    UnknownEscapeSequence(char),
    /// A token stands where no form can start, or an integer does not fit in 64 bits.
    /// Holds the name of the token, or the digits of the integer.
    UnexpectedToken(String),
}

/// The model of a [`ParseError`].
pub enum ParseErrorView {
    UnterminatedInput,
    UnterminatedString,
    NewlineInString,
    UnknownEscapeSequence(char),
    UnexpectedToken(Seq<char>),
}

impl View for ParseError {
    type V = ParseErrorView;

    open spec fn view(&self) -> ParseErrorView {
        match self {
            ParseError::UnterminatedInput => ParseErrorView::UnterminatedInput,
            ParseError::UnterminatedString => ParseErrorView::UnterminatedString,
            ParseError::NewlineInString => ParseErrorView::NewlineInString,
            ParseError::UnknownEscapeSequence(c) => ParseErrorView::UnknownEscapeSequence(*c),
            ParseError::UnexpectedToken(s) => ParseErrorView::UnexpectedToken(s@),
        }
    }
}

pub type Result<T> = std::result::Result<T, ParseError>;

/// What the reading of a text gives, in the model.
pub type Parsed<T> = std::result::Result<T, ParseErrorView>;

/// A piece of text that the parser takes as one.
#[derive(Debug, PartialEq)]
pub enum Token {
    LeftParen,
    RightParen,
    LeftBracket,
    RightBracket,
    LeftCurly,
    RightCurly,
    SingleQuote,
    Tick,
    Int(i64),
    Str(String),
    Lit(String),
}

/// The model of a [`Token`].
pub enum TokenView {
    LeftParen,
    RightParen,
    LeftBracket,
    RightBracket,
    LeftCurly,
    RightCurly,
    SingleQuote,
    Tick,
    Int(i64),
    Str(Seq<char>),
    Lit(Seq<char>),
}

impl View for Token {
    type V = TokenView;

    open spec fn view(&self) -> TokenView {
        match self {
            Token::LeftParen => TokenView::LeftParen,
            Token::RightParen => TokenView::RightParen,
            Token::LeftBracket => TokenView::LeftBracket,
            Token::RightBracket => TokenView::RightBracket,
            Token::LeftCurly => TokenView::LeftCurly,
            Token::RightCurly => TokenView::RightCurly,
            Token::SingleQuote => TokenView::SingleQuote,
            Token::Tick => TokenView::Tick,
            Token::Int(i) => TokenView::Int(*i),
            Token::Str(s) => TokenView::Str(s@),
            Token::Lit(s) => TokenView::Lit(s@),
        }
    }
}

/// The models of a run of tokens.
pub open spec fn token_views(tokens: Seq<Token>) -> Seq<TokenView> {
    Seq::new(tokens.len(), |i: int| tokens[i]@)
}

/// The characters that separate tokens and mean nothing else: the code points with the
/// Unicode property White_Space.
pub open spec fn spec_is_whitespace(c: char) -> bool {
    let u = c as u32;
    ||| 0x09 <= u <= 0x0d
    ||| u == 0x20
    ||| u == 0x85
    ||| u == 0xa0
    ||| u == 0x1680
    ||| 0x2000 <= u <= 0x200a
    ||| u == 0x2028
    ||| u == 0x2029
    ||| u == 0x202f
    ||| u == 0x205f
    ||| u == 0x3000
}

/// A decimal digit.
pub open spec fn spec_is_digit(c: char) -> bool {
    '0' <= c <= '9'
}

/// The characters that a bare literal stops in front of.
pub open spec fn spec_ends_literal(c: char) -> bool {
    ||| is_whitespace(c)
    ||| c == ','
    ||| c == '('
    ||| c == ')'
    ||| c == '['
    ||| c == ']'
    ||| c == '{'
    ||| c == '}'
    ||| c == '"'
    ||| c == '\''
    ||| c == ';'
    ||| c == '`'
    ||| c == '~'
}

/// Where the bare literal that runs through `pos` stops: the first place from `pos` on
/// that holds a character which ends a literal, or the end of the text.
pub open spec fn literal_end(s: Seq<char>, pos: int) -> int
    decreases s.len() - pos,
{
    if pos < 0 || pos >= s.len() || ends_literal(s[pos]) {
        pos
    } else {
        literal_end(s, pos + 1)
    }
}

/// Where the run of digits from `pos` on stops.
pub open spec fn digits_end(s: Seq<char>, pos: int) -> int
    decreases s.len() - pos,
{
    if pos < 0 || pos >= s.len() || !is_digit(s[pos]) {
        pos
    } else {
        digits_end(s, pos + 1)
    }
}

/// The number that the digits of `s` from `from` up to `to` spell in decimal.
pub open spec fn number(s: Seq<char>, from: int, to: int) -> nat
    decreases to - from,
{
    if to <= from {
        0
    } else {
        (number(s, from, to - 1) * 10 + (s[to - 1] as int - 48)) as nat
    }
}

/// Where the text goes on after a comment that runs through `pos`: behind the end of
/// the line, or at the end of the text.
pub open spec fn comment_end(s: Seq<char>, pos: int) -> int
    decreases s.len() - pos,
{
    if pos < 0 || pos >= s.len() {
        pos
    } else if s[pos] == '\n' {
        pos + 1
    } else {
        comment_end(s, pos + 1)
    }
}

/// The rest of a string literal from `pos` on, after `text`: what the literal stands
/// for and where the text goes on behind its closing quote.
pub open spec fn string_spec(s: Seq<char>, pos: int, text: Seq<char>) -> Parsed<(Seq<char>, int)>
    decreases s.len() - pos,
{
    if pos < 0 || pos >= s.len() {
        Err(ParseErrorView::UnterminatedString)
    } else if s[pos] == '\n' {
        Err(ParseErrorView::NewlineInString)
    } else if s[pos] == '"' {
        Ok((text, pos + 1))
    } else if s[pos] == '\\' {
        if pos + 1 >= s.len() {
            Err(ParseErrorView::UnterminatedString)
        } else if s[pos + 1] == '"' {
            string_spec(s, pos + 2, text.push('"'))
        } else if s[pos + 1] == 'n' {
            string_spec(s, pos + 2, text.push('\n'))
        } else if s[pos + 1] == '\\' {
            string_spec(s, pos + 2, text.push('\\'))
        } else {
            Err(ParseErrorView::UnknownEscapeSequence(s[pos + 1]))
        }
    } else {
        string_spec(s, pos + 1, text.push(s[pos]))
    }
}

/// A bare literal stops within the text, not before the place it is asked from.
pub proof fn lemma_literal_end(s: Seq<char>, pos: int)
    requires
        0 <= pos <= s.len(),
    ensures
        pos <= literal_end(s, pos) <= s.len(),
        forall|i: int| pos <= i < literal_end(s, pos) ==> !ends_literal(#[trigger] s[i]),
        literal_end(s, pos) < s.len() ==> ends_literal(s[literal_end(s, pos)]),
    decreases s.len() - pos,
{
    if pos < s.len() && !ends_literal(s[pos]) {
        lemma_literal_end(s, pos + 1);
    }
}

/// A run of digits stops within the text, not before the place it is asked from.
pub proof fn lemma_digits_end(s: Seq<char>, pos: int)
    requires
        0 <= pos <= s.len(),
    ensures
        pos <= digits_end(s, pos) <= s.len(),
        forall|i: int| pos <= i < digits_end(s, pos) ==> is_digit(#[trigger] s[i]),
        digits_end(s, pos) < s.len() ==> !is_digit(s[digits_end(s, pos)]),
    decreases s.len() - pos,
{
    if pos < s.len() && is_digit(s[pos]) {
        lemma_digits_end(s, pos + 1);
    }
}

/// A comment stops within the text, not before the place it is asked from.
pub proof fn lemma_comment_end(s: Seq<char>, pos: int)
    requires
        0 <= pos <= s.len(),
    ensures
        pos <= comment_end(s, pos) <= s.len(),
    decreases s.len() - pos,
{
    if pos < s.len() && s[pos] != '\n' {
        lemma_comment_end(s, pos + 1);
    }
}

/// A string literal that closes does so within the text, behind the place it is asked
/// from.
pub proof fn lemma_string_end(s: Seq<char>, pos: int, text: Seq<char>)
    requires
        0 <= pos <= s.len(),
    ensures
        string_spec(s, pos, text) matches Ok((_, next)) ==> pos < next <= s.len(),
    decreases s.len() - pos,
{
    if pos < s.len() && s[pos] != '\n' && s[pos] != '"' {
        if s[pos] == '\\' {
            if pos + 1 < s.len() && (s[pos + 1] == '"' || s[pos + 1] == 'n' || s[pos + 1]
                == '\\') {
                lemma_string_end(
                    s,
                    pos + 2,
                    text.push(
                        if s[pos + 1] == 'n' {
                            '\n'
                        } else {
                            s[pos + 1]
                        },
                    ),
                );
            }
        } else {
            lemma_string_end(s, pos + 1, text.push(s[pos]));
        }
    }
}

/// The tokens of `s` from `pos` on, after the tokens `done` of the text before `pos`.
///
/// A digit, or `-` right before one, starts an integer, which runs as far as the digits
/// do and must fit in 64 bits. Anything that starts no other token starts a bare
/// literal.
pub open spec fn tokens_spec(s: Seq<char>, pos: int, done: Seq<TokenView>) -> Parsed<
    Seq<TokenView>,
>
    decreases s.len() - pos,
{
    if pos < 0 || pos >= s.len() {
        Ok(done)
    } else {
        let c = s[pos];
        if c == '(' {
            tokens_spec(s, pos + 1, done.push(TokenView::LeftParen))
        } else if c == ')' {
            tokens_spec(s, pos + 1, done.push(TokenView::RightParen))
        } else if c == '[' {
            tokens_spec(s, pos + 1, done.push(TokenView::LeftBracket))
        } else if c == ']' {
            tokens_spec(s, pos + 1, done.push(TokenView::RightBracket))
        } else if c == '{' {
            tokens_spec(s, pos + 1, done.push(TokenView::LeftCurly))
        } else if c == '}' {
            tokens_spec(s, pos + 1, done.push(TokenView::RightCurly))
        } else if c == '\'' {
            tokens_spec(s, pos + 1, done.push(TokenView::SingleQuote))
        } else if c == '`' {
            tokens_spec(s, pos + 1, done.push(TokenView::Tick))
        } else if c == '"' {
            match string_spec(s, pos + 1, Seq::empty()) {
                Ok((text, next)) => {
                    proof {
                        lemma_string_end(s, pos + 1, Seq::empty());
                    }
                    tokens_spec(s, next, done.push(TokenView::Str(text)))
                },
                Err(e) => Err(e),
            }
        } else if c == ';' {
            proof {
                lemma_comment_end(s, pos + 1);
            }
            tokens_spec(s, comment_end(s, pos + 1), done)
        } else if c == '-' && pos + 1 < s.len() && is_digit(s[pos + 1]) {
            let end = digits_end(s, pos + 1);
            let n = number(s, pos + 1, end);
            proof {
                lemma_digits_end(s, pos + 1);
            }
            if n > 0x8000_0000_0000_0000 {
                Err(ParseErrorView::UnexpectedToken(s.subrange(pos, end)))
            } else {
                tokens_spec(s, end, done.push(TokenView::Int((-n) as i64)))
            }
        } else if is_digit(c) {
            let end = digits_end(s, pos);
            let n = number(s, pos, end);
            proof {
                lemma_digits_end(s, pos);
            }
            if n > 0x7fff_ffff_ffff_ffff {
                Err(ParseErrorView::UnexpectedToken(s.subrange(pos, end)))
            } else {
                tokens_spec(s, end, done.push(TokenView::Int(n as i64)))
            }
        } else if is_whitespace(c) || c == ',' {
            tokens_spec(s, pos + 1, done)
        } else {
            let end = literal_end(s, pos + 1);
            proof {
                lemma_literal_end(s, pos + 1);
            }
            tokens_spec(s, end, done.push(TokenView::Lit(s.subrange(pos, end))))
        }
    }
}

/// The name by which a failure speaks of a token.
pub open spec fn token_name(t: TokenView) -> Seq<char> {
    match t {
        TokenView::LeftParen => "LeftParen"@,
        TokenView::RightParen => "RightParen"@,
        TokenView::LeftBracket => "LeftBracket"@,
        TokenView::RightBracket => "RightBracket"@,
        TokenView::LeftCurly => "LeftCurly"@,
        TokenView::RightCurly => "RightCurly"@,
        TokenView::SingleQuote => "SingleQuote"@,
        TokenView::Tick => "Tick"@,
        TokenView::Int(_) => "Int"@,
        TokenView::Str(_) => "Str"@,
        TokenView::Lit(_) => "Lit"@,
    }
}

/// The atom that a token stands for. The words `nil`, `true` and `false` are themselves;
/// every other bare literal is a symbol. A bracket or a quote mark is no atom.
pub open spec fn atom_spec(t: TokenView) -> Parsed<Value> {
    match t {
        TokenView::Int(i) => Ok(Value::Int(i)),
        TokenView::Str(s) => Ok(Value::Str(s)),
        TokenView::Lit(l) => if l == "nil"@ {
            Ok(Value::Nil)
        } else if l == "true"@ {
            Ok(Value::True)
        } else if l == "false"@ {
            Ok(Value::False)
        } else {
            Ok(Value::Sym(l))
        },
        _ => Err(ParseErrorView::UnexpectedToken(token_name(t))),
    }
}

/// The form that starts at token `pos`, and the place of the token behind it.
pub open spec fn form_spec(tokens: Seq<TokenView>, pos: nat) -> Parsed<(Value, nat)>
    decreases tokens.len() - pos, 0nat,
{
    if pos >= tokens.len() {
        Err(ParseErrorView::UnterminatedInput)
    } else {
        match tokens[pos as int] {
            TokenView::LeftParen => match seq_spec(
                tokens,
                pos + 1,
                TokenView::RightParen,
                Seq::empty(),
            ) {
                Ok((items, next)) => Ok((Value::List(items), next)),
                Err(e) => Err(e),
            },
            TokenView::LeftBracket => match seq_spec(
                tokens,
                pos + 1,
                TokenView::RightBracket,
                Seq::empty(),
            ) {
                Ok((items, next)) => Ok((Value::Vector(items), next)),
                Err(e) => Err(e),
            },
            TokenView::LeftCurly => match seq_spec(
                tokens,
                pos + 1,
                TokenView::RightCurly,
                Seq::empty(),
            ) {
                Ok((items, next)) => Ok((Value::AssocArray(items), next)),
                Err(e) => Err(e),
            },
            t => match atom_spec(t) {
                Ok(v) => Ok((v, pos + 1)),
                Err(e) => Err(e),
            },
        }
    }
}

/// The forms from token `pos` up to the token `until` that closes the sequence, after
/// the forms `done`, and the place of the token behind `until`.
pub open spec fn seq_spec(
    tokens: Seq<TokenView>,
    pos: nat,
    until: TokenView,
    done: Seq<Value>,
) -> Parsed<(Seq<Value>, nat)>
    decreases tokens.len() - pos, 1nat,
{
    if pos >= tokens.len() {
        Err(ParseErrorView::UnterminatedInput)
    } else if tokens[pos as int] == until {
        Ok((done, pos + 1))
    } else {
        match form_spec(tokens, pos) {
            Ok((v, next)) => if pos < next <= tokens.len() {
                seq_spec(tokens, next, until, done.push(v))
            } else {
                Err(ParseErrorView::UnterminatedInput)
            },
            Err(e) => Err(e),
        }
    }
}

/// The forms from token `pos` to the end, after the forms `done`.
pub open spec fn forms_spec(tokens: Seq<TokenView>, pos: nat, done: Seq<Value>) -> Parsed<
    Seq<Value>,
>
    decreases tokens.len() - pos,
{
    if pos >= tokens.len() {
        Ok(done)
    } else {
        match form_spec(tokens, pos) {
            Ok((v, next)) => if pos < next <= tokens.len() {
                forms_spec(tokens, next, done.push(v))
            } else {
                Err(ParseErrorView::UnterminatedInput)
            },
            Err(e) => Err(e),
        }
    }
}

/// The forms that a text holds: its tokens first, then the forms that they spell.
pub open spec fn read_str_spec(input: Seq<char>) -> Parsed<Seq<Value>> {
    match tokens_spec(input, 0, Seq::empty()) {
        Ok(tokens) => forms_spec(tokens, 0, Seq::empty()),
        Err(e) => Err(e),
    }
}

/// Whether `c` is whitespace.
#[verifier::when_used_as_spec(spec_is_whitespace)]
pub fn is_whitespace(c: char) -> (b: bool)
    ensures
        b == spec_is_whitespace(c),
{
    let u = c as u32;
    (0x09 <= u && u <= 0x0d) || u == 0x20 || u == 0x85 || u == 0xa0 || u == 0x1680 || (0x2000 <= u
        && u <= 0x200a) || u == 0x2028 || u == 0x2029 || u == 0x202f || u == 0x205f || u == 0x3000
}

/// Whether `c` is a decimal digit.
#[verifier::when_used_as_spec(spec_is_digit)]
pub fn is_digit(c: char) -> (b: bool)
    ensures
        b == spec_is_digit(c),
{
    '0' <= c && c <= '9'
}

/// Whether a bare literal stops in front of `c`.
#[verifier::when_used_as_spec(spec_ends_literal)]
pub fn ends_literal(c: char) -> (b: bool)
    ensures
        b == spec_ends_literal(c),
{
    is_whitespace(c) || c == ',' || c == '(' || c == ')' || c == '[' || c == ']' || c == '{' || c
        == '}' || c == '"' || c == '\'' || c == ';' || c == '`' || c == '~'
}

/// Turns a text into its tokens.
pub fn tokenize(input: &str) -> (r: Result<Vec<Token>>)
    ensures
        match r {
            Ok(tokens) => tokens_spec(input@, 0, Seq::empty()) == Ok::<
                Seq<TokenView>,
                ParseErrorView,
            >(token_views(tokens@)),
            Err(e) => tokens_spec(input@, 0, Seq::empty()) == Err::<Seq<TokenView>, ParseErrorView>(
                e@,
            ),
        },
{
    let chars = chars_of(input);
    let mut result: Vec<Token> = Vec::new();
    let mut pos: usize = 0;
    assert(token_views(result@) =~= Seq::<TokenView>::empty());
    while pos < chars.len()
        invariant
            pos <= chars.len(),
            chars@ == input@,
            tokens_spec(chars@, pos as int, token_views(result@)) == tokens_spec(
                input@,
                0,
                Seq::empty(),
            ),
        decreases chars.len() - pos,
    {
        let c = chars[pos];
        let ghost done = token_views(result@);
        if c == '(' {
            result.push(Token::LeftParen);
            pos += 1;
        } else if c == ')' {
            result.push(Token::RightParen);
            pos += 1;
        } else if c == '[' {
            result.push(Token::LeftBracket);
            pos += 1;
        } else if c == ']' {
            result.push(Token::RightBracket);
            pos += 1;
        } else if c == '{' {
            result.push(Token::LeftCurly);
            pos += 1;
        } else if c == '}' {
            result.push(Token::RightCurly);
            pos += 1;
        } else if c == '\'' {
            result.push(Token::SingleQuote);
            pos += 1;
        } else if c == '`' {
            result.push(Token::Tick);
            pos += 1;
        } else if c == '"' {
            match read_string(&chars, pos + 1) {
                Ok((s, next)) => {
                    result.push(Token::Str(s));
                    pos = next;
                },
                Err(e) => {
                    return Err(e);
                },
            }
        } else if c == ';' {
            pos = read_comment(&chars, pos + 1);
        } else if c == '-' && pos + 1 < chars.len() && is_digit(chars[pos + 1]) {
            let (num, end) = read_number(&chars, pos + 1, 0x8000_0000_0000_0000);
            match num {
                Some(n) => {
                    let value: i64 = if n == 0x8000_0000_0000_0000 {
                        i64::MIN
                    } else {
                        -(n as i64)
                    };
                    result.push(Token::Int(value));
                    pos = end;
                },
                None => {
                    return Err(ParseError::UnexpectedToken(text_of(&chars, pos, end)));
                },
            }
        } else if is_digit(c) {
            let (num, end) = read_number(&chars, pos, 0x7fff_ffff_ffff_ffff);
            match num {
                Some(n) => {
                    result.push(Token::Int(n as i64));
                    pos = end;
                },
                None => {
                    return Err(ParseError::UnexpectedToken(text_of(&chars, pos, end)));
                },
            }
        } else if is_whitespace(c) || c == ',' {
            pos += 1;
        } else {
            let (lit, end) = read_literal(&chars, pos);
            result.push(Token::Lit(lit));
            pos = end;
        }
        proof {
            if result@.len() > done.len() {
                assert(token_views(result@) =~= done.push(result@.last()@));
            }
        }
    }
    Ok(result)
}

/// Reads the digits from `pos` on. The number they spell is handed out where it is at
/// most `limit`.
fn read_number(chars: &Vec<char>, pos: usize, limit: u64) -> (r: (Option<u64>, usize))
    requires
        pos <= chars.len(),
        limit <= 0x8000_0000_0000_0000,
    ensures
        r.1 == digits_end(chars@, pos as int),
        pos <= r.1 <= chars.len(),
        pos < chars.len() && is_digit(chars@[pos as int]) ==> pos < r.1,
        match r.0 {
            Some(n) => n == number(chars@, pos as int, r.1 as int) && n <= limit,
            None => number(chars@, pos as int, r.1 as int) > limit,
        },
{
    let mut v: u64 = 0;
    let mut fits = true;
    let mut cur: usize = pos;
    while cur < chars.len() && is_digit(chars[cur])
        invariant
            pos <= cur <= chars.len(),
            limit <= 0x8000_0000_0000_0000,
            digits_end(chars@, cur as int) == digits_end(chars@, pos as int),
            fits ==> v == number(chars@, pos as int, cur as int) && v <= limit,
            !fits ==> number(chars@, pos as int, cur as int) > limit,
        decreases chars.len() - cur,
    {
        let d: u64 = (chars[cur] as u32 - 48) as u64;
        if fits {
            let w: u128 = (v as u128) * 10 + (d as u128);
            if w > limit as u128 {
                fits = false;
            } else {
                v = w as u64;
            }
        }
        cur += 1;
    }
    if fits {
        (Some(v), cur)
    } else {
        (None, cur)
    }
}

/// Skips the rest of a comment: up to and with the end of the line.
fn read_comment(chars: &Vec<char>, pos: usize) -> (next: usize)
    requires
        pos <= chars.len(),
    ensures
        next == comment_end(chars@, pos as int),
        pos <= next <= chars.len(),
{
    let mut cur: usize = pos;
    while cur < chars.len()
        invariant
            pos <= cur <= chars.len(),
            comment_end(chars@, cur as int) == comment_end(chars@, pos as int),
        decreases chars.len() - cur,
    {
        let c = chars[cur];
        cur += 1;
        if c == '\n' {
            return cur;
        }
    }
    cur
}

/// Reads a string literal from behind its opening quote.
fn read_string(chars: &Vec<char>, pos: usize) -> (r: Result<(String, usize)>)
    requires
        pos <= chars.len(),
    ensures
        match r {
            Ok((text, next)) => string_spec(chars@, pos as int, Seq::empty()) == Ok::<
                (Seq<char>, int),
                ParseErrorView,
            >((text@, next as int)) && pos < next <= chars.len(),
            Err(e) => string_spec(chars@, pos as int, Seq::empty()) == Err::<
                (Seq<char>, int),
                ParseErrorView,
            >(e@),
        },
{
    let mut s = String::new();
    let mut cur: usize = pos;
    while cur < chars.len()
        invariant
            pos <= cur <= chars.len(),
            string_spec(chars@, cur as int, s@) == string_spec(chars@, pos as int, Seq::empty()),
        decreases chars.len() - cur,
    {
        let c = chars[cur];
        if c == '\n' {
            return Err(ParseError::NewlineInString);
        } else if c == '"' {
            return Ok((s, cur + 1));
        } else if c == '\\' {
            if cur + 1 < chars.len() {
                let nc = chars[cur + 1];
                if nc == '"' {
                    s.push('"');
                } else if nc == 'n' {
                    s.push('\n');
                } else if nc == '\\' {
                    s.push('\\');
                } else {
                    return Err(ParseError::UnknownEscapeSequence(nc));
                }
                cur += 2;
            } else {
                return Err(ParseError::UnterminatedString);
            }
        } else {
            s.push(c);
            cur += 1;
        }
    }
    Err(ParseError::UnterminatedString)
}

/// Reads the bare literal that starts at `pos`.
fn read_literal(chars: &Vec<char>, pos: usize) -> (r: (String, usize))
    requires
        pos < chars.len(),
    ensures
        r.1 == literal_end(chars@, pos + 1),
        pos < r.1 <= chars.len(),
        r.0@ == chars@.subrange(pos as int, r.1 as int),
{
    let mut s = String::new();
    s.push(chars[pos]);
    let mut cur: usize = pos + 1;
    assert(s@ =~= chars@.subrange(pos as int, cur as int));
    while cur < chars.len() && !ends_literal(chars[cur])
        invariant
            pos < cur <= chars.len(),
            literal_end(chars@, cur as int) == literal_end(chars@, pos + 1),
            s@ == chars@.subrange(pos as int, cur as int),
        decreases chars.len() - cur,
    {
        s.push(chars[cur]);
        assert(s@ =~= chars@.subrange(pos as int, cur + 1));
        cur += 1;
    }
    (s, cur)
}

impl Token {
    /// The name by which a failure speaks of the token.
    pub fn name(&self) -> (name: String)
        ensures
            name@ == token_name(self@),
    {
        match self {
            Token::LeftParen => "LeftParen".to_owned(),
            Token::RightParen => "RightParen".to_owned(),
            Token::LeftBracket => "LeftBracket".to_owned(),
            Token::RightBracket => "RightBracket".to_owned(),
            Token::LeftCurly => "LeftCurly".to_owned(),
            Token::RightCurly => "RightCurly".to_owned(),
            Token::SingleQuote => "SingleQuote".to_owned(),
            Token::Tick => "Tick".to_owned(),
            Token::Int(_) => "Int".to_owned(),
            Token::Str(_) => "Str".to_owned(),
            Token::Lit(_) => "Lit".to_owned(),
        }
    }

    /// Whether two tokens are the same.
    pub fn equals(&self, other: &Token) -> (same: bool)
        ensures
            same == (self@ == other@),
    {
        match (self, other) {
            (Token::LeftParen, Token::LeftParen) => true,
            (Token::RightParen, Token::RightParen) => true,
            (Token::LeftBracket, Token::LeftBracket) => true,
            (Token::RightBracket, Token::RightBracket) => true,
            (Token::LeftCurly, Token::LeftCurly) => true,
            (Token::RightCurly, Token::RightCurly) => true,
            (Token::SingleQuote, Token::SingleQuote) => true,
            (Token::Tick, Token::Tick) => true,
            (Token::Int(a), Token::Int(b)) => *a == *b,
            (Token::Str(a), Token::Str(b)) => *a == *b,
            (Token::Lit(a), Token::Lit(b)) => *a == *b,
            _ => false,
        }
    }
}

/// The atom that a token stands for.
fn read_atom(tok: &Token) -> (r: Result<MalVal>)
    ensures
        match r {
            Ok(v) => atom_spec(tok@) == Ok::<Value, ParseErrorView>(v@),
            Err(e) => atom_spec(tok@) == Err::<Value, ParseErrorView>(e@),
        },
{
    match tok {
        Token::Int(i) => Ok(MalVal::Atom(MalAtom::Int(*i))),
        Token::Str(s) => Ok(MalVal::Atom(MalAtom::Str(s.clone()))),
        Token::Lit(l) => {
            let atom = if *l == "nil".to_owned() {
                MalAtom::Nil
            } else if *l == "true".to_owned() {
                MalAtom::True
            } else if *l == "false".to_owned() {
                MalAtom::False
            } else {
                MalAtom::Sym(l.clone())
            };
            Ok(MalVal::Atom(atom))
        },
        _ => Err(ParseError::UnexpectedToken(tok.name())),
    }
}

/// Reads the form that starts at token `pos`.
fn read_form(tokens: &Vec<Token>, pos: usize) -> (r: Result<(MalVal, usize)>)
    ensures
        match r {
            Ok((v, next)) => form_spec(token_views(tokens@), pos as nat) == Ok::<
                (Value, nat),
                ParseErrorView,
            >((v@, next as nat)) && pos < next <= tokens.len(),
            Err(e) => form_spec(token_views(tokens@), pos as nat) == Err::<
                (Value, nat),
                ParseErrorView,
            >(e@),
        },
    decreases tokens.len() - pos, 0nat,
{
    if pos >= tokens.len() {
        return Err(ParseError::UnterminatedInput);
    }
    match &tokens[pos] {
        Token::LeftParen => {
            match read_seq(tokens, pos + 1, Token::RightParen) {
                Ok((seq, next)) => Ok((MalVal::List(seq), next)),
                Err(e) => Err(e),
            }
        },
        Token::LeftBracket => {
            match read_seq(tokens, pos + 1, Token::RightBracket) {
                Ok((seq, next)) => Ok((MalVal::Vector(seq), next)),
                Err(e) => Err(e),
            }
        },
        Token::LeftCurly => {
            match read_seq(tokens, pos + 1, Token::RightCurly) {
                Ok((seq, next)) => Ok((MalVal::AssocArray(seq), next)),
                Err(e) => Err(e),
            }
        },
        tok => {
            match read_atom(tok) {
                Ok(v) => Ok((v, pos + 1)),
                Err(e) => Err(e),
            }
        },
    }
}

/// Reads the forms from token `pos` up to the token `until`.
fn read_seq(tokens: &Vec<Token>, pos: usize, until: Token) -> (r: Result<(Vec<MalVal>, usize)>)
    requires
        pos <= tokens.len(),
    ensures
        match r {
            Ok((items, next)) => seq_spec(token_views(tokens@), pos as nat, until@, Seq::empty())
                == Ok::<(Seq<Value>, nat), ParseErrorView>((views(items@), next as nat)) && pos
                < next <= tokens.len(),
            Err(e) => seq_spec(token_views(tokens@), pos as nat, until@, Seq::empty()) == Err::<
                (Seq<Value>, nat),
                ParseErrorView,
            >(e@),
        },
    decreases tokens.len() - pos, 1nat,
{
    let mut res: Vec<MalVal> = Vec::new();
    let mut cur: usize = pos;
    proof {
        assert(views(res@) =~= Seq::<Value>::empty());
    }
    while cur < tokens.len()
        invariant
            pos <= cur <= tokens.len(),
            seq_spec(token_views(tokens@), cur as nat, until@, views(res@)) == seq_spec(
                token_views(tokens@),
                pos as nat,
                until@,
                Seq::empty(),
            ),
        decreases tokens.len() - cur,
    {
        if tokens[cur].equals(&until) {
            return Ok((res, cur + 1));
        }
        let ghost done = views(res@);
        match read_form(tokens, cur) {
            Ok((f, next)) => {
                res.push(f);
                proof {
                    lemma_views(res@);
                    assert(views(res@) =~= done.push(f@));
                }
                cur = next;
            },
            Err(e) => {
                return Err(e);
            },
        }
    }
    Err(ParseError::UnterminatedInput)
}

/// Reads every form of a text.
pub fn read_str(input: &str) -> (r: Result<Vec<MalVal>>)
    ensures
        match r {
            Ok(forms) => read_str_spec(input@) == Ok::<Seq<Value>, ParseErrorView>(views(forms@)),
            Err(e) => read_str_spec(input@) == Err::<Seq<Value>, ParseErrorView>(e@),
        },
{
    let tokens = match tokenize(input) {
        Ok(tokens) => tokens,
        Err(e) => {
            return Err(e);
        },
    };
    let mut ret: Vec<MalVal> = Vec::new();
    let mut pos: usize = 0;
    proof {
        assert(views(ret@) =~= Seq::<Value>::empty());
    }
    while pos < tokens.len()
        invariant
            pos <= tokens.len(),
            forms_spec(token_views(tokens@), pos as nat, views(ret@)) == read_str_spec(input@),
        decreases tokens.len() - pos,
    {
        let ghost done = views(ret@);
        match read_form(&tokens, pos) {
            Ok((f, next)) => {
                ret.push(f);
                proof {
                    lemma_views(ret@);
                    assert(views(ret@) =~= done.push(f@));
                }
                pos = next;
            },
            Err(e) => {
                return Err(e);
            },
        }
    }
    Ok(ret)
}

} // verus!
