use vstd::prelude::*;
use vstd::string::StringExecFns;

use crate::types::{lemma_views, views, MalAtom, MalVal, Value};

verus! {

/// The character of a decimal digit.
pub open spec fn digit(d: int) -> char {
    (d + 48) as char
}

/// The decimal digits of a natural number, most significant first, without leading zeros.
pub open spec fn digits(n: nat) -> Seq<char>
    decreases n,
{
    if n < 10 {
        seq![digit(n as int)]
    } else {
        digits(n / 10).push(digit((n % 10) as int))
    }
}

/// An integer in decimal, with `-` in front of a negative one.
pub open spec fn print_int(i: int) -> Seq<char> {
    if i < 0 {
        seq!['-'] + digits((-i) as nat)
    } else {
        digits(i as nat)
    }
}

/// The text of a value.
pub open spec fn print(v: Value) -> Seq<char>
    decreases v,
{
    match v {
        Value::Nil => "nil"@,
        Value::True => "true"@,
        Value::False => "false"@,
        Value::Sym(s) => s,
        Value::Str(s) => seq!['"'] + s + seq!['"'],
        Value::Int(i) => print_int(i as int),
        Value::List(items) => seq!['('] + print_seq(items) + seq![')'],
        Value::Vector(items) => seq!['['] + print_seq(items) + seq![']'],
        Value::AssocArray(items) => seq!['{'] + print_seq(items) + seq!['}'],
        Value::Fn { .. } => "#<function>"@,
    }
}

/// The texts of a run of values with one space between neighbours.
pub open spec fn print_seq(items: Seq<Value>) -> Seq<char>
    decreases items,
{
    if items.len() == 0 {
        Seq::empty()
    } else if items.len() == 1 {
        print(items[0])
    } else {
        print_seq(items.drop_last()) + seq![' '] + print(items.last())
    }
}

/// The character of the digit `d`.
fn digit_char(d: u64) -> (c: char)
    requires
        d < 10,
    ensures
        c == digit(d as int),
{
    (48u8 + d as u8) as char
}

/// Appends `n` in decimal to `f`.
fn fmt_nat(f: &mut String, n: u64)
    ensures
        final(f)@ == old(f)@ + digits(n as nat),
    decreases n,
{
    if n >= 10 {
        fmt_nat(f, n / 10);
    }
    f.push(digit_char(n % 10));
    assert(f@ =~= old(f)@ + digits(n as nat));
}

/// Appends `i` in decimal to `f`.
fn fmt_int(f: &mut String, i: i64)
    ensures
        final(f)@ == old(f)@ + print_int(i as int),
{
    if i < 0 {
        f.push('-');
        fmt_nat(f, ((-(i + 1)) as u64) + 1);
    } else {
        fmt_nat(f, i as u64);
    }
    assert(f@ =~= old(f)@ + print_int(i as int));
}

impl MalAtom {
    /// Appends the text of the atom to `f`.
    pub fn fmt(&self, f: &mut String)
        ensures
            final(f)@ == old(f)@ + print(self@),
    {
        match self {
            MalAtom::Nil => f.append("nil"),
            MalAtom::True => f.append("true"),
            MalAtom::False => f.append("false"),
            MalAtom::Sym(s) => f.append(s.as_str()),
            MalAtom::Str(s) => {
                f.push('"');
                f.append(s.as_str());
                f.push('"');
                assert(f@ =~= old(f)@ + print(self@));
            },
            MalAtom::Int(i) => fmt_int(f, *i),
        }
    }

    /// The text of the atom.
    pub fn to_string(&self) -> (s: String)
        ensures
            s@ == print(self@),
    {
        let mut s = String::new();
        self.fmt(&mut s);
        assert(s@ =~= print(self@));
        s
    }
}

/// Appends the texts of the items to `f`, one space between neighbours.
pub fn fmt_seq(f: &mut String, seq: &Vec<MalVal>)
    ensures
        final(f)@ == old(f)@ + print_seq(views(seq@)),
    decreases seq,
{
    let mut i: usize = 0;
    proof {
        lemma_views(seq@);
        assert(views(seq@).take(0) =~= Seq::<Value>::empty());
        assert(f@ =~= old(f)@ + print_seq(views(seq@).take(0)));
    }
    while i < seq.len()
        invariant
            i <= seq.len(),
            views(seq@).len() == seq.len(),
            forall|j: int| 0 <= j < seq.len() ==> #[trigger] views(seq@)[j] == seq@[j]@,
            f@ == old(f)@ + print_seq(views(seq@).take(i as int)),
        decreases seq.len() - i,
    {
        if i > 0 {
            f.push(' ');
        }
        seq[i].fmt(f);
        proof {
            let all = views(seq@);
            assert(all.take(i + 1).drop_last() =~= all.take(i as int));
            assert(all.take(i + 1).last() == seq@[i as int]@);
            assert(f@ =~= old(f)@ + print_seq(all.take(i + 1)));
        }
        i += 1;
    }
    assert(views(seq@).take(i as int) =~= views(seq@));
}

impl MalVal {
    /// Appends the text of the value to `f`.
    pub fn fmt(&self, f: &mut String)
        ensures
            final(f)@ == old(f)@ + print(self@),
        decreases self,
    {
        match self {
            MalVal::Atom(a) => {
                a.fmt(f);
            },
            MalVal::List(seq) => {
                f.push('(');
                fmt_seq(f, seq);
                f.push(')');
                assert(f@ =~= old(f)@ + print(self@));
            },
            MalVal::Vector(seq) => {
                f.push('[');
                fmt_seq(f, seq);
                f.push(']');
                assert(f@ =~= old(f)@ + print(self@));
            },
            MalVal::AssocArray(seq) => {
                f.push('{');
                fmt_seq(f, seq);
                f.push('}');
                assert(f@ =~= old(f)@ + print(self@));
            },
            MalVal::Fn(_) => {
                f.append("#<function>");
            },
        }
    }

    /// The text of the value.
    pub fn to_string(&self) -> (s: String)
        ensures
            s@ == print(self@),
    {
        let mut s = String::new();
        self.fmt(&mut s);
        assert(s@ =~= print(self@));
        s
    }
}

} // verus!
