use vstd::prelude::*;

use crate::printer::{digit, digits, print, print_int};
use crate::reader::{
    atom_spec, digits_end, form_spec, forms_spec, literal_end, number, read_str_spec, seq_spec,
    string_spec, tokens_spec, ParseErrorView, TokenView,
};
use crate::types::Value;

verus! {

/// A form takes tokens: where a form is read at `pos`, the next one starts behind `pos`
/// and no further than the end of the tokens.
pub proof fn law_form_takes_tokens(tokens: Seq<TokenView>, pos: nat)
    ensures
        form_spec(tokens, pos) matches Ok((_, next)) ==> pos < next <= tokens.len(),
    decreases tokens.len() - pos, 0nat,
{
    if pos < tokens.len() {
        match tokens[pos as int] {
            TokenView::LeftParen => {
                lemma_seq_takes_tokens(tokens, pos + 1, TokenView::RightParen, Seq::empty());
            },
            TokenView::LeftBracket => {
                lemma_seq_takes_tokens(tokens, pos + 1, TokenView::RightBracket, Seq::empty());
            },
            TokenView::LeftCurly => {
                lemma_seq_takes_tokens(tokens, pos + 1, TokenView::RightCurly, Seq::empty());
            },
            _ => {},
        }
    }
}

/// As [`law_form_takes_tokens`], for a sequence up to its closing token.
pub proof fn lemma_seq_takes_tokens(
    tokens: Seq<TokenView>,
    pos: nat,
    until: TokenView,
    done: Seq<Value>,
)
    ensures
        seq_spec(tokens, pos, until, done) matches Ok((_, next)) ==> pos < next <= tokens.len(),
    decreases tokens.len() - pos, 1nat,
{
    if pos < tokens.len() && tokens[pos as int] != until {
        law_form_takes_tokens(tokens, pos);
        match form_spec(tokens, pos) {
            Ok((v, next)) => {
                if pos < next <= tokens.len() {
                    lemma_seq_takes_tokens(tokens, next, until, done.push(v));
                }
            },
            Err(e) => {},
        }
    }
}

/// A text that a string literal can hold as it stands: no quote, no backslash, no end
/// of line.
pub open spec fn plain(text: Seq<char>) -> bool {
    forall|i: int|
        0 <= i < text.len() ==> #[trigger] text[i] != '"' && text[i] != '\\' && text[i] != '\n'
}

/// The atoms that are written as they are read: `nil`, `true`, `false`, the integers and
/// the strings that need no escape.
pub open spec fn atomic_literal(v: Value) -> bool {
    match v {
        Value::Nil => true,
        Value::True => true,
        Value::False => true,
        Value::Int(_) => true,
        Value::Str(text) => plain(text),
        _ => false,
    }
}

/// The decimal digits of a number are digits, and there is at least one.
pub proof fn lemma_digits_are_digits(n: nat)
    ensures
        digits(n).len() >= 1,
        forall|i: int| 0 <= i < digits(n).len() ==> '0' <= #[trigger] digits(n)[i] <= '9',
    decreases n,
{
    if n >= 10 {
        lemma_digits_are_digits(n / 10);
    }
}

/// The number that a run of digits spells depends on those digits alone.
pub proof fn lemma_number_same(a: Seq<char>, from_a: int, b: Seq<char>, from_b: int, len: nat)
    requires
        0 <= from_a,
        from_a + len <= a.len(),
        0 <= from_b,
        from_b + len <= b.len(),
        a.subrange(from_a, from_a + len) == b.subrange(from_b, from_b + len),
    ensures
        number(a, from_a, from_a + len) == number(b, from_b, from_b + len),
    decreases len,
{
    if len > 0 {
        let x = a.subrange(from_a, from_a + len);
        let y = b.subrange(from_b, from_b + len);
        assert(a.subrange(from_a, from_a + len - 1) =~= x.take(len - 1));
        assert(b.subrange(from_b, from_b + len - 1) =~= y.take(len - 1));
        lemma_number_same(a, from_a, b, from_b, (len - 1) as nat);
        assert(a[from_a + len - 1] == x[len - 1]);
        assert(b[from_b + len - 1] == y[len - 1]);
    }
}

/// The decimal digits of a number spell that number.
pub proof fn lemma_number_of_digits(n: nat)
    ensures
        number(digits(n), 0, digits(n).len() as int) == n,
    decreases n,
{
    if n >= 10 {
        let front = digits(n / 10);
        lemma_number_of_digits(n / 10);
        assert(digits(n).subrange(0, front.len() as int) =~= front.subrange(
            0,
            front.len() as int,
        ));
        lemma_number_same(digits(n), 0, front, 0, front.len());
        assert(digits(n)[front.len() as int] == digit((n % 10) as int));
    } else {
        assert(number(digits(n), 0, 0) == 0);
    }
}

/// A run of digits that reaches the end of the text stops there.
pub proof fn lemma_digits_run(s: Seq<char>, pos: int)
    requires
        0 <= pos <= s.len(),
        forall|i: int| pos <= i < s.len() ==> '0' <= #[trigger] s[i] <= '9',
    ensures
        digits_end(s, pos) == s.len(),
    decreases s.len() - pos,
{
    if pos < s.len() {
        lemma_digits_run(s, pos + 1);
    }
}

/// The rest of a string literal without escapes is read as it stands.
pub proof fn lemma_string_plain(text: Seq<char>, k: int)
    requires
        plain(text),
        0 <= k <= text.len(),
    ensures
        string_spec(seq!['"'] + text + seq!['"'], 1 + k, text.take(k)) == Ok::<
            (Seq<char>, int),
            ParseErrorView,
        >((text, text.len() as int + 2)),
    decreases text.len() - k,
{
    let s = seq!['"'] + text + seq!['"'];
    if k < text.len() {
        assert(s[1 + k] == text[k]);
        assert(text.take(k).push(text[k]) =~= text.take(k + 1));
        lemma_string_plain(text, k + 1);
    } else {
        assert(s[1 + k] == '"');
        assert(text.take(k) =~= text);
    }
}

/// A text that is one token spells the one form that the token spells.
pub proof fn lemma_one_atom(t: TokenView, v: Value)
    requires
        atom_spec(t) == Ok::<Value, ParseErrorView>(v),
        !(t is LeftParen || t is LeftBracket || t is LeftCurly),
    ensures
        forms_spec(seq![t], 0, Seq::empty()) == Ok::<Seq<Value>, ParseErrorView>(seq![v]),
{
    let tokens = seq![t];
    assert(form_spec(tokens, 0) == Ok::<(Value, nat), ParseErrorView>((v, 1)));
    assert(Seq::<Value>::empty().push(v) =~= seq![v]);
    assert(forms_spec(tokens, 1, seq![v]) == Ok::<Seq<Value>, ParseErrorView>(seq![v]));
}

/// An integer is read back from its text.
pub proof fn lemma_round_trip_int(i: i64)
    ensures
        read_str_spec(print_int(i as int)) == Ok::<Seq<Value>, ParseErrorView>(
            seq![Value::Int(i)],
        ),
{
    let s = print_int(i as int);
    let none = Seq::<TokenView>::empty();
    if i < 0 {
        let m = (-i) as nat;
        let d = digits(m);
        lemma_digits_are_digits(m);
        lemma_number_of_digits(m);
        assert(s =~= seq!['-'] + d);
        assert(s[0] == '-');
        assert forall|k: int| 1 <= k < s.len() implies '0' <= #[trigger] s[k] <= '9' by {
            assert(s[k] == d[k - 1]);
        }
        lemma_digits_run(s, 1);
        assert(s.subrange(1, 1 + d.len() as int) =~= d.subrange(0, d.len() as int));
        lemma_number_same(s, 1, d, 0, d.len());
        assert(none.push(TokenView::Int(i)) =~= seq![TokenView::Int(i)]);
        assert(tokens_spec(s, s.len() as int, seq![TokenView::Int(i)]) == Ok::<
            Seq<TokenView>,
            ParseErrorView,
        >(seq![TokenView::Int(i)]));
        assert(tokens_spec(s, 0, none) == Ok::<Seq<TokenView>, ParseErrorView>(
            seq![TokenView::Int(i)],
        ));
    } else {
        let m = i as nat;
        lemma_digits_are_digits(m);
        lemma_number_of_digits(m);
        lemma_digits_run(s, 0);
        assert(none.push(TokenView::Int(i)) =~= seq![TokenView::Int(i)]);
        assert(tokens_spec(s, s.len() as int, seq![TokenView::Int(i)]) == Ok::<
            Seq<TokenView>,
            ParseErrorView,
        >(seq![TokenView::Int(i)]));
        assert(tokens_spec(s, 0, none) == Ok::<Seq<TokenView>, ParseErrorView>(
            seq![TokenView::Int(i)],
        ));
    }
    lemma_one_atom(TokenView::Int(i), Value::Int(i));
}

/// A string without escapes is read back from its text.
pub proof fn lemma_round_trip_str(text: Seq<char>)
    requires
        plain(text),
    ensures
        read_str_spec(seq!['"'] + text + seq!['"']) == Ok::<Seq<Value>, ParseErrorView>(
            seq![Value::Str(text)],
        ),
{
    let s = seq!['"'] + text + seq!['"'];
    let none = Seq::<TokenView>::empty();
    lemma_string_plain(text, 0);
    assert(text.take(0) =~= Seq::<char>::empty());
    assert(s[0] == '"');
    assert(none.push(TokenView::Str(text)) =~= seq![TokenView::Str(text)]);
    assert(tokens_spec(s, s.len() as int, seq![TokenView::Str(text)]) == Ok::<
        Seq<TokenView>,
        ParseErrorView,
    >(seq![TokenView::Str(text)]));
    assert(tokens_spec(s, 0, none) == Ok::<Seq<TokenView>, ParseErrorView>(
        seq![TokenView::Str(text)],
    ));
    lemma_one_atom(TokenView::Str(text), Value::Str(text));
}

/// A word of plain letters is one bare literal.
pub proof fn lemma_word(s: Seq<char>)
    requires
        s.len() >= 1,
        forall|i: int| 0 <= i < s.len() ==> 'a' <= #[trigger] s[i] <= 'z',
    ensures
        tokens_spec(s, 0, Seq::empty()) == Ok::<Seq<TokenView>, ParseErrorView>(
            seq![TokenView::Lit(s)],
        ),
{
    let none = Seq::<TokenView>::empty();
    lemma_letters_run(s, 1);
    assert(s.subrange(0, s.len() as int) =~= s);
    assert(none.push(TokenView::Lit(s)) =~= seq![TokenView::Lit(s)]);
    assert(tokens_spec(s, s.len() as int, seq![TokenView::Lit(s)]) == Ok::<
        Seq<TokenView>,
        ParseErrorView,
    >(seq![TokenView::Lit(s)]));
    assert('a' <= s[0] <= 'z');
}

/// A bare literal of plain letters runs to the end of the text.
pub proof fn lemma_letters_run(s: Seq<char>, pos: int)
    requires
        0 <= pos <= s.len(),
        forall|i: int| 0 <= i < s.len() ==> 'a' <= #[trigger] s[i] <= 'z',
    ensures
        literal_end(s, pos) == s.len(),
    decreases s.len() - pos,
{
    if pos < s.len() {
        assert('a' <= s[pos] <= 'z');
        lemma_letters_run(s, pos + 1);
    }
}

/// Round trip: the text of an atom that is written as it is read (`nil`, `true`,
/// `false`, an integer, a string that needs no escape) reads back as that atom and
/// nothing else.
pub proof fn law_atom_round_trip(v: Value)
    requires
        atomic_literal(v),
    ensures
        read_str_spec(print(v)) == Ok::<Seq<Value>, ParseErrorView>(seq![v]),
{
    reveal_strlit("nil");
    reveal_strlit("true");
    reveal_strlit("false");
    match v {
        Value::Nil => {
            lemma_word("nil"@);
            lemma_one_atom(TokenView::Lit("nil"@), v);
        },
        Value::True => {
            lemma_word("true"@);
            assert("true"@.len() != "nil"@.len());
            lemma_one_atom(TokenView::Lit("true"@), v);
        },
        Value::False => {
            lemma_word("false"@);
            assert("false"@.len() != "nil"@.len() && "false"@.len() != "true"@.len());
            lemma_one_atom(TokenView::Lit("false"@), v);
        },
        Value::Int(i) => {
            lemma_round_trip_int(i);
        },
        Value::Str(text) => {
            lemma_round_trip_str(text);
        },
        _ => {},
    }
}

} // verus!
