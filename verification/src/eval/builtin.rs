use vstd::arithmetic::div_mod::lemma_mul_mod_noop_left;
use vstd::hash_map::StringHashMap;
use vstd::prelude::*;

use crate::types::{
    lemma_views, outcome, views, EvalError, EvalErrorView, EvalResult, MalAtom, MalVal, NativeFn,
    Value,
};

verus! {

/// The 64-bit two's complement integer that agrees with `x` modulo 2^64.
pub open spec fn wrap(x: int) -> i64 {
    let m = x % 0x1_0000_0000_0000_0000;
    if m >= 0x8000_0000_0000_0000 {
        (m - 0x1_0000_0000_0000_0000) as i64
    } else {
        m as i64
    }
}

/// The integer that an integer value holds.
pub open spec fn int_of(v: Value) -> int {
    match v {
        Value::Int(i) => i as int,
        _ => 0,
    }
}

/// Every argument is an integer.
pub open spec fn all_ints(args: Seq<Value>) -> bool {
    forall|i: int| 0 <= i < args.len() ==> args[i] is Int
}

/// The integers that the arguments hold, in order.
pub open spec fn numbers(args: Seq<Value>) -> Seq<int> {
    Seq::new(args.len(), |i: int| int_of(args[i]))
}

/// The sum of a run of integers; 0 for none.
pub open spec fn sum(xs: Seq<int>) -> int
    decreases xs.len(),
{
    if xs.len() == 0 {
        0
    } else {
        sum(xs.drop_last()) + xs.last()
    }
}

/// The product of a run of integers; 1 for none.
pub open spec fn product(xs: Seq<int>) -> int
    decreases xs.len(),
{
    if xs.len() == 0 {
        1
    } else {
        product(xs.drop_last()) * xs.last()
    }
}

/// `+`: the sum of the arguments, in 64-bit wrapping arithmetic.
pub open spec fn add_spec(args: Seq<Value>) -> Result<Value, EvalErrorView> {
    if !all_ints(args) {
        Err(EvalErrorView::NotANumber)
    } else {
        Ok(Value::Int(wrap(sum(numbers(args)))))
    }
}

/// `-`: the negation of one argument, or the first minus the sum of the others, in 64-bit
/// wrapping arithmetic.
pub open spec fn sub_spec(args: Seq<Value>) -> Result<Value, EvalErrorView> {
    if !all_ints(args) {
        Err(EvalErrorView::NotANumber)
    } else if args.len() == 0 {
        Err(EvalErrorView::InvalidArgs)
    } else if args.len() == 1 {
        Ok(Value::Int(wrap(-int_of(args[0]))))
    } else {
        Ok(Value::Int(wrap(int_of(args[0]) - sum(numbers(args).skip(1)))))
    }
}

/// `*`: the product of the arguments, in 64-bit wrapping arithmetic.
pub open spec fn mul_spec(args: Seq<Value>) -> Result<Value, EvalErrorView> {
    if !all_ints(args) {
        Err(EvalErrorView::NotANumber)
    } else {
        Ok(Value::Int(wrap(product(numbers(args)))))
    }
}

/// `=`: whether two values are the same.
pub open spec fn eq_spec(args: Seq<Value>) -> Result<Value, EvalErrorView> {
    if args.len() != 2 {
        Err(EvalErrorView::InvalidArgs)
    } else {
        Ok(Value::from_bool(args[0] == args[1]))
    }
}

/// The two integers that a comparison is handed.
pub open spec fn int_pair(args: Seq<Value>) -> Result<(i64, i64), EvalErrorView> {
    if args.len() != 2 {
        Err(EvalErrorView::InvalidArgs)
    } else {
        match (args[0], args[1]) {
            (Value::Int(a), Value::Int(b)) => Ok((a, b)),
            _ => Err(EvalErrorView::NotANumber),
        }
    }
}

/// `>`
pub open spec fn gt_spec(args: Seq<Value>) -> Result<Value, EvalErrorView> {
    match int_pair(args) {
        Ok((a, b)) => Ok(Value::from_bool(a > b)),
        Err(e) => Err(e),
    }
}

/// `>=`
pub open spec fn gte_spec(args: Seq<Value>) -> Result<Value, EvalErrorView> {
    match int_pair(args) {
        Ok((a, b)) => Ok(Value::from_bool(a >= b)),
        Err(e) => Err(e),
    }
}

/// `<`
pub open spec fn lt_spec(args: Seq<Value>) -> Result<Value, EvalErrorView> {
    match int_pair(args) {
        Ok((a, b)) => Ok(Value::from_bool(a < b)),
        Err(e) => Err(e),
    }
}

/// `<=`
pub open spec fn lte_spec(args: Seq<Value>) -> Result<Value, EvalErrorView> {
    match int_pair(args) {
        Ok((a, b)) => Ok(Value::from_bool(a <= b)),
        Err(e) => Err(e),
    }
}

/// `list`: the arguments as a list.
pub open spec fn list_spec(args: Seq<Value>) -> Result<Value, EvalErrorView> {
    Ok(Value::List(args))
}

/// `list?`: whether the argument is a list.
pub open spec fn is_list_spec(args: Seq<Value>) -> Result<Value, EvalErrorView> {
    if args.len() != 1 {
        Err(EvalErrorView::InvalidArgs)
    } else {
        Ok(Value::from_bool(args[0] is List))
    }
}

/// `empty?`: whether the list argument has no items.
pub open spec fn is_empty_spec(args: Seq<Value>) -> Result<Value, EvalErrorView> {
    if args.len() != 1 {
        Err(EvalErrorView::InvalidArgs)
    } else {
        match args[0] {
            Value::List(items) => Ok(Value::from_bool(items.len() == 0)),
            _ => Err(EvalErrorView::NotAList),
        }
    }
}

/// `count`: the number of items of the list argument.
pub open spec fn count_spec(args: Seq<Value>) -> Result<Value, EvalErrorView> {
    if args.len() != 1 {
        Err(EvalErrorView::InvalidArgs)
    } else {
        match args[0] {
            Value::List(items) => Ok(Value::Int(wrap(items.len() as int))),
            _ => Err(EvalErrorView::NotAList),
        }
    }
}

impl NativeFn {
    /// What the native function returns for already evaluated arguments.
    pub open spec fn call_spec(self, args: Seq<Value>) -> Result<Value, EvalErrorView> {
        match self {
            NativeFn::Add => add_spec(args),
            NativeFn::Sub => sub_spec(args),
            NativeFn::Mul => mul_spec(args),
            NativeFn::Eq => eq_spec(args),
            NativeFn::Gt => gt_spec(args),
            NativeFn::Gte => gte_spec(args),
            NativeFn::Lt => lt_spec(args),
            NativeFn::Lte => lte_spec(args),
            NativeFn::List => list_spec(args),
            NativeFn::IsList => is_list_spec(args),
            NativeFn::IsEmpty => is_empty_spec(args),
            NativeFn::Count => count_spec(args),
        }
    }
}

/// The registry of the native names.
pub open spec fn default_registry() -> Map<Seq<char>, NativeFn> {
    Map::<Seq<char>, NativeFn>::empty().insert("+"@, NativeFn::Add).insert(
        "-"@,
        NativeFn::Sub,
    ).insert("*"@, NativeFn::Mul).insert("="@, NativeFn::Eq).insert(">"@, NativeFn::Gt).insert(
        ">="@,
        NativeFn::Gte,
    ).insert("<"@, NativeFn::Lt).insert("<="@, NativeFn::Lte).insert(
        "list"@,
        NativeFn::List,
    ).insert("list?"@, NativeFn::IsList).insert("empty?"@, NativeFn::IsEmpty).insert(
        "count"@,
        NativeFn::Count,
    )
}

/// The native functions under their names.
pub fn defaults() -> (h: StringHashMap<NativeFn>)
    ensures
        h@ == default_registry(),
{
    let mut h: StringHashMap<NativeFn> = StringHashMap::new();
    h.insert("+".to_owned(), NativeFn::Add);
    h.insert("-".to_owned(), NativeFn::Sub);
    h.insert("*".to_owned(), NativeFn::Mul);
    h.insert("=".to_owned(), NativeFn::Eq);
    h.insert(">".to_owned(), NativeFn::Gt);
    h.insert(">=".to_owned(), NativeFn::Gte);
    h.insert("<".to_owned(), NativeFn::Lt);
    h.insert("<=".to_owned(), NativeFn::Lte);
    h.insert("list".to_owned(), NativeFn::List);
    h.insert("list?".to_owned(), NativeFn::IsList);
    h.insert("empty?".to_owned(), NativeFn::IsEmpty);
    h.insert("count".to_owned(), NativeFn::Count);
    h
}

/// Wrapping addition is addition followed by `wrap`.
pub proof fn lemma_wrapping_add(x: i64, y: i64)
    ensures
        vstd::wrapping::i64_specs::wrapping_add(x, y) == wrap(x + y),
{
}

/// Wrapping subtraction is subtraction followed by `wrap`.
pub proof fn lemma_wrapping_sub(x: i64, y: i64)
    ensures
        vstd::wrapping::i64_specs::wrapping_sub(x, y) == wrap(x - y),
{
}

/// Wrapping multiplication is multiplication followed by `wrap`.
pub proof fn lemma_wrapping_mul(x: i64, y: i64)
    ensures
        vstd::wrapping::i64_specs::wrapping_mul(x, y) == wrap(x * y),
{
}

/// A value that fits is its own wrapping.
pub proof fn lemma_wrap_fits(x: int)
    requires
        i64::MIN <= x <= i64::MAX,
    ensures
        wrap(x) == x,
{
}

/// Wrapping an intermediate sum does not change the wrapped result.
pub proof fn lemma_wrap_add(a: int, b: int)
    ensures
        wrap(wrap(a) + b) == wrap(a + b),
{
}

/// Wrapping an intermediate product does not change the wrapped result.
pub proof fn lemma_wrap_mul(a: int, b: int)
    ensures
        wrap(wrap(a) * b) == wrap(a * b),
{
    let m = 0x1_0000_0000_0000_0000int;
    lemma_mul_mod_noop_left(a, b, m);
    lemma_mul_mod_noop_left(wrap(a) as int, b, m);
    assert((wrap(a) as int) % m == a % m);
}


/// `+`
fn add(args: Vec<MalVal>) -> (r: EvalResult<MalVal>)
    ensures
        outcome(r) == add_spec(views(args@)),
{
    let mut acc: i64 = 0;
    let mut i: usize = 0;
    while i < args.len()
        invariant
            i <= args.len(),
            forall|j: int| 0 <= j < i ==> views(args@)[j] is Int,
            acc == wrap(sum(numbers(views(args@)).take(i as int))),
        decreases args.len() - i,
    {
        match &args[i] {
            MalVal::Atom(MalAtom::Int(num)) => {
                proof {
                    let xs = numbers(views(args@));
                    assert(xs.take(i + 1).drop_last() =~= xs.take(i as int));
                    lemma_wrapping_add(acc, *num);
                    lemma_wrap_add(sum(xs.take(i as int)), *num as int);
                }
                acc = acc.wrapping_add(*num);
            },
            _ => {
                assert(!(views(args@)[i as int] is Int));
                return Err(EvalError::NotANumber);
            },
        }
        i += 1;
    }
    assert(numbers(views(args@)).take(i as int) =~= numbers(views(args@)));
    Ok(MalVal::Atom(MalAtom::Int(acc)))
}

/// `-`
fn sub(args: Vec<MalVal>) -> (r: EvalResult<MalVal>)
    ensures
        outcome(r) == sub_spec(views(args@)),
{
    let mut acc: i64 = 0;
    let mut i: usize = 0;
    while i < args.len()
        invariant
            i <= args.len(),
            forall|j: int| 0 <= j < i ==> views(args@)[j] is Int,
            i == 0 ==> acc == 0,
            i > 0 ==> acc == wrap(
                int_of(views(args@)[0]) - sum(numbers(views(args@)).subrange(1, i as int)),
            ),
        decreases args.len() - i,
    {
        match &args[i] {
            MalVal::Atom(MalAtom::Int(num)) => {
                if i == 0 {
                    proof {
                        lemma_wrap_fits(*num as int);
                    }
                    acc = *num;
                } else {
                    proof {
                        let xs = numbers(views(args@));
                        assert(xs.subrange(1, i + 1).drop_last() =~= xs.subrange(1, i as int));
                        lemma_wrapping_sub(acc, *num);
                        lemma_wrap_add(
                            int_of(views(args@)[0]) - sum(xs.subrange(1, i as int)),
                            -(*num as int),
                        );
                    }
                    acc = acc.wrapping_sub(*num);
                }
            },
            _ => {
                assert(!(views(args@)[i as int] is Int));
                return Err(EvalError::NotANumber);
            },
        }
        i += 1;
    }
    if args.len() == 0 {
        Err(EvalError::InvalidArgs)
    } else if args.len() == 1 {
        proof {
            lemma_wrapping_sub(0, acc);
            assert(numbers(views(args@)).subrange(1, 1) =~= Seq::<int>::empty());
            lemma_wrap_fits(int_of(views(args@)[0]));
        }
        let zero: i64 = 0;
        Ok(MalVal::Atom(MalAtom::Int(zero.wrapping_sub(acc))))
    } else {
        assert(numbers(views(args@)).subrange(1, i as int) =~= numbers(views(args@)).skip(1));
        Ok(MalVal::Atom(MalAtom::Int(acc)))
    }
}

/// `*`
fn mul(args: Vec<MalVal>) -> (r: EvalResult<MalVal>)
    ensures
        outcome(r) == mul_spec(views(args@)),
{
    let mut acc: i64 = 1;
    let mut i: usize = 0;
    while i < args.len()
        invariant
            i <= args.len(),
            forall|j: int| 0 <= j < i ==> views(args@)[j] is Int,
            acc == wrap(product(numbers(views(args@)).take(i as int))),
        decreases args.len() - i,
    {
        match &args[i] {
            MalVal::Atom(MalAtom::Int(num)) => {
                proof {
                    let xs = numbers(views(args@));
                    assert(xs.take(i + 1).drop_last() =~= xs.take(i as int));
                    lemma_wrapping_mul(acc, *num);
                    lemma_wrap_mul(product(xs.take(i as int)), *num as int);
                }
                acc = acc.wrapping_mul(*num);
            },
            _ => {
                assert(!(views(args@)[i as int] is Int));
                return Err(EvalError::NotANumber);
            },
        }
        i += 1;
    }
    assert(numbers(views(args@)).take(i as int) =~= numbers(views(args@)));
    Ok(MalVal::Atom(MalAtom::Int(acc)))
}

/// `=`
fn eq(args: Vec<MalVal>) -> (r: EvalResult<MalVal>)
    ensures
        outcome(r) == eq_spec(views(args@)),
{
    if args.len() != 2 {
        Err(EvalError::InvalidArgs)
    } else {
        Ok(MalVal::Atom(MalAtom::from(args[0].equals(&args[1]))))
    }
}

/// The two integers of a comparison.
fn two_ints(args: Vec<MalVal>) -> (r: EvalResult<(i64, i64)>)
    ensures
        match r {
            Ok(pair) => int_pair(views(args@)) == Ok::<(i64, i64), EvalErrorView>(pair),
            Err(e) => int_pair(views(args@)) == Err::<(i64, i64), EvalErrorView>(e@),
        },
{
    if args.len() != 2 {
        Err(EvalError::InvalidArgs)
    } else {
        let mut args = args;
        let second = args.remove(1);
        let first = args.remove(0);
        match into_int(first) {
            Ok(arg0) => match into_int(second) {
                Ok(arg1) => Ok((arg0, arg1)),
                Err(e) => Err(e),
            },
            Err(e) => Err(e),
        }
    }
}

/// `>`
fn gt(args: Vec<MalVal>) -> (r: EvalResult<MalVal>)
    ensures
        outcome(r) == gt_spec(views(args@)),
{
    match two_ints(args) {
        Ok((arg0, arg1)) => Ok(MalVal::Atom(MalAtom::from(arg0 > arg1))),
        Err(e) => Err(e),
    }
}

/// `>=`
fn gte(args: Vec<MalVal>) -> (r: EvalResult<MalVal>)
    ensures
        outcome(r) == gte_spec(views(args@)),
{
    match two_ints(args) {
        Ok((arg0, arg1)) => Ok(MalVal::Atom(MalAtom::from(arg0 >= arg1))),
        Err(e) => Err(e),
    }
}

/// `<`
fn lt(args: Vec<MalVal>) -> (r: EvalResult<MalVal>)
    ensures
        outcome(r) == lt_spec(views(args@)),
{
    match two_ints(args) {
        Ok((arg0, arg1)) => Ok(MalVal::Atom(MalAtom::from(arg0 < arg1))),
        Err(e) => Err(e),
    }
}

/// `<=`
fn lte(args: Vec<MalVal>) -> (r: EvalResult<MalVal>)
    ensures
        outcome(r) == lte_spec(views(args@)),
{
    match two_ints(args) {
        Ok((arg0, arg1)) => Ok(MalVal::Atom(MalAtom::from(arg0 <= arg1))),
        Err(e) => Err(e),
    }
}

/// `list`
fn list(args: Vec<MalVal>) -> (r: EvalResult<MalVal>)
    ensures
        outcome(r) == list_spec(views(args@)),
{
    Ok(MalVal::List(args))
}

/// `count`
fn count(args: Vec<MalVal>) -> (r: EvalResult<MalVal>)
    ensures
        outcome(r) == count_spec(views(args@)),
{
    if args.len() != 1 {
        Err(EvalError::InvalidArgs)
    } else {
        match &args[0] {
            MalVal::List(list) => {
                proof {
                    lemma_views(list@);
                }
                let n: u64 = list.len() as u64;
                let len: i64 = if n <= 0x7fff_ffff_ffff_ffff {
                    n as i64
                } else {
                    ((n - 0x8000_0000_0000_0000) as i64) + i64::MIN
                };
                Ok(MalVal::Atom(MalAtom::Int(len)))
            },
            _ => Err(EvalError::NotAList),
        }
    }
}

/// `empty?`
fn is_empty(args: Vec<MalVal>) -> (r: EvalResult<MalVal>)
    ensures
        outcome(r) == is_empty_spec(views(args@)),
{
    if args.len() != 1 {
        Err(EvalError::InvalidArgs)
    } else {
        match &args[0] {
            MalVal::List(list) => {
                proof {
                    lemma_views(list@);
                }
                if list.is_empty() {
                    Ok(MalVal::Atom(MalAtom::True))
                } else {
                    Ok(MalVal::Atom(MalAtom::False))
                }
            },
            _ => Err(EvalError::NotAList),
        }
    }
}

/// `list?`
fn is_list(args: Vec<MalVal>) -> (r: EvalResult<MalVal>)
    ensures
        outcome(r) == is_list_spec(views(args@)),
{
    if args.len() != 1 {
        Err(EvalError::InvalidArgs)
    } else {
        match &args[0] {
            MalVal::List(_) => Ok(MalVal::Atom(MalAtom::True)),
            _ => Ok(MalVal::Atom(MalAtom::False)),
        }
    }
}

/// The integer that `v` holds; `NotANumber` for any other value.
pub fn into_int(v: MalVal) -> (r: EvalResult<i64>)
    ensures
        match r {
            Ok(i) => v@ == Value::Int(i),
            Err(e) => !(v@ is Int) && e@ == EvalErrorView::NotANumber,
        },
{
    match v {
        MalVal::Atom(MalAtom::Int(i)) => Ok(i),
        _ => Err(EvalError::NotANumber),
    }
}

impl NativeFn {
    /// Runs the native function on already evaluated arguments.
    pub fn call(self, args: Vec<MalVal>) -> (r: EvalResult<MalVal>)
        ensures
            outcome(r) == self.call_spec(views(args@)),
    {
        match self {
            NativeFn::Add => self::add(args),
            NativeFn::Sub => self::sub(args),
            NativeFn::Mul => self::mul(args),
            NativeFn::Eq => eq(args),
            NativeFn::Gt => gt(args),
            NativeFn::Gte => gte(args),
            NativeFn::Lt => lt(args),
            NativeFn::Lte => lte(args),
            NativeFn::List => list(args),
            NativeFn::IsList => is_list(args),
            NativeFn::IsEmpty => is_empty(args),
            NativeFn::Count => count(args),
        }
    }
}

/// Integers as values.
pub open spec fn int_values(xs: Seq<i64>) -> Seq<Value> {
    Seq::new(xs.len(), |i: int| Value::Int(xs[i]))
}

/// Integers as mathematical integers.
pub open spec fn as_ints(xs: Seq<i64>) -> Seq<int> {
    Seq::new(xs.len(), |i: int| xs[i] as int)
}

/// Whether an integer fits in 64 bits.
pub open spec fn fits(x: int) -> bool {
    i64::MIN <= x <= i64::MAX
}

/// Sum: `+` on integers gives their sum, 0 for none, wherever the sum fits in 64 bits.
pub proof fn law_add_is_sum(xs: Seq<i64>)
    requires
        fits(sum(as_ints(xs))),
    ensures
        add_spec(int_values(xs)) == Ok::<Value, EvalErrorView>(
            Value::Int(sum(as_ints(xs)) as i64),
        ),
        xs.len() == 0 ==> add_spec(int_values(xs)) == Ok::<Value, EvalErrorView>(Value::Int(0)),
{
    assert(numbers(int_values(xs)) =~= as_ints(xs));
}

/// Product: `*` on integers gives their product, 1 for none, wherever the product fits
/// in 64 bits.
pub proof fn law_mul_is_product(xs: Seq<i64>)
    requires
        fits(product(as_ints(xs))),
    ensures
        mul_spec(int_values(xs)) == Ok::<Value, EvalErrorView>(
            Value::Int(product(as_ints(xs)) as i64),
        ),
        xs.len() == 0 ==> mul_spec(int_values(xs)) == Ok::<Value, EvalErrorView>(Value::Int(1)),
{
    assert(numbers(int_values(xs)) =~= as_ints(xs));
}

/// Negation: `-` on one integer gives its negative, wherever that fits in 64 bits.
pub proof fn law_sub_negates(x: i64)
    requires
        fits(-x),
    ensures
        sub_spec(int_values(seq![x])) == Ok::<Value, EvalErrorView>(Value::Int((-x) as i64)),
{
}

/// Difference: `-` on two or more integers gives the first minus the sum of the others,
/// wherever that fits in 64 bits.
pub proof fn law_sub_is_difference(x: i64, ys: Seq<i64>)
    requires
        ys.len() > 0,
        fits(x - sum(as_ints(ys))),
    ensures
        sub_spec(int_values(seq![x] + ys)) == Ok::<Value, EvalErrorView>(
            Value::Int((x - sum(as_ints(ys))) as i64),
        ),
{
    assert(numbers(int_values(seq![x] + ys)).skip(1) =~= as_ints(ys));
}

} // verus!
