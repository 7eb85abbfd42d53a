use mal::eval::builtin::{defaults, into_int};
use mal::eval::eval;
use mal::reader::read_str;
use mal::types::env::{Environment, EnvironmentBuilder, Frames};
use mal::types::{EvalError, MalAtom, MalVal, NativeFn};

fn session() -> (Frames, Environment) {
    let mut frames = Frames::new();
    let env = EnvironmentBuilder::new()
        .with_builtins(defaults())
        .build(&mut frames);
    (frames, env)
}

fn value(text: &str) -> Result<MalVal, EvalError> {
    let (mut frames, env) = session();
    let mut forms = read_str(text).unwrap();
    assert_eq!(forms.len(), 1);
    eval(forms.remove(0), &env, &mut frames)
}

fn num(i: i64) -> MalVal {
    MalVal::Atom(MalAtom::Int(i))
}

fn truth(b: bool) -> MalVal {
    MalVal::Atom(MalAtom::from(b))
}

#[test]
fn sum_of_integers() {
    assert_eq!(value("(+)").unwrap(), num(0));
    assert_eq!(value("(+ 5)").unwrap(), num(5));
    assert_eq!(value("(+ 1 2 3 4 -20)").unwrap(), num(-10));
    assert_eq!(
        value("(+ 9223372036854775806 1)").unwrap(),
        num(i64::MAX)
    );
}

#[test]
fn product_of_integers() {
    assert_eq!(value("(*)").unwrap(), num(1));
    assert_eq!(value("(* 7)").unwrap(), num(7));
    assert_eq!(value("(* 2 3 -4)").unwrap(), num(-24));
    assert_eq!(value("(* 5 0 9)").unwrap(), num(0));
}

#[test]
fn negation_and_difference() {
    assert_eq!(value("(- 5)").unwrap(), num(-5));
    assert_eq!(value("(- -5)").unwrap(), num(5));
    assert_eq!(value("(- 0)").unwrap(), num(0));
    assert_eq!(value("(- 10 1)").unwrap(), num(9));
    assert_eq!(value("(- 10 1 2 3)").unwrap(), num(4));
    assert_eq!(value("(- 1 10)").unwrap(), num(-9));
}

#[test]
fn subtraction_needs_an_argument() {
    assert_eq!(value("(-)").unwrap_err(), EvalError::InvalidArgs);
    assert_eq!(NativeFn::Sub.call(vec![]).unwrap_err(), EvalError::InvalidArgs);
}

#[test]
fn arithmetic_wraps_around() {
    assert_eq!(
        value("(+ 9223372036854775807 1)").unwrap(),
        num(i64::MIN)
    );
    assert_eq!(
        value("(- -9223372036854775808 1)").unwrap(),
        num(i64::MAX)
    );
    assert_eq!(
        value("(- -9223372036854775808)").unwrap(),
        num(i64::MIN)
    );
    assert_eq!(
        value("(* 4611686018427387904 2)").unwrap(),
        num(i64::MIN)
    );
    assert_eq!(
        value("(* 4611686018427387904 4)").unwrap(),
        num(0)
    );
    // a sum that leaves the range and comes back is exact
    assert_eq!(
        value("(+ 9223372036854775807 1 -1)").unwrap(),
        num(i64::MAX)
    );
}

#[test]
fn arithmetic_on_other_values() {
    for text in [
        "(+ 1 nil)",
        "(+ \"1\" 2)",
        "(- true)",
        "(- 1 (list))",
        "(* 1 2 false)",
    ] {
        assert_eq!(value(text).unwrap_err(), EvalError::NotANumber);
    }
}

#[test]
fn equality_is_structural() {
    assert_eq!(value("(= 1 1)").unwrap(), truth(true));
    assert_eq!(value("(= 1 2)").unwrap(), truth(false));
    assert_eq!(value("(= 1 \"1\")").unwrap(), truth(false));
    assert_eq!(value("(= nil nil)").unwrap(), truth(true));
    assert_eq!(value("(= nil false)").unwrap(), truth(false));
    assert_eq!(value("(= \"a\" \"a\")").unwrap(), truth(true));
    assert_eq!(value("(= \"a\" \"b\")").unwrap(), truth(false));
    assert_eq!(value("(= (list 1 2) (list 1 2))").unwrap(), truth(true));
    assert_eq!(value("(= (list 1 2) (list 1 3))").unwrap(), truth(false));
    assert_eq!(value("(= (list 1 2) (list 1 2 3))").unwrap(), truth(false));
    assert_eq!(value("(= (list) (list))").unwrap(), truth(true));
    assert_eq!(
        value("(= (list 1 (list 2)) (list 1 (list 2)))").unwrap(),
        truth(true)
    );
    assert_eq!(value("(= + +)").unwrap(), truth(true));
    assert_eq!(value("(= + -)").unwrap(), truth(false));
    assert_eq!(
        value("(= (fn* (a) a) (fn* (a) a))").unwrap(),
        truth(true)
    );
    assert_eq!(
        value("(= (fn* (a) a) (fn* (b) a))").unwrap(),
        truth(false)
    );
    assert_eq!(
        value("(= (fn* (a) a) (fn* (a) 1))").unwrap(),
        truth(false)
    );
    assert_eq!(
        value("(= (fn* (a) a) (let* () (fn* (a) a)))").unwrap(),
        truth(false)
    );
}

#[test]
fn equality_takes_two() {
    assert_eq!(value("(=)").unwrap_err(), EvalError::InvalidArgs);
    assert_eq!(value("(= 1)").unwrap_err(), EvalError::InvalidArgs);
    assert_eq!(value("(= 1 1 1)").unwrap_err(), EvalError::InvalidArgs);
}

#[test]
fn comparisons() {
    assert_eq!(value("(< -1 0)").unwrap(), truth(true));
    assert_eq!(value("(<= 3 3)").unwrap(), truth(true));
    assert_eq!(value("(> 3 3)").unwrap(), truth(false));
    assert_eq!(value("(>= 2 3)").unwrap(), truth(false));
    assert_eq!(value("(> 1 2 3)").unwrap_err(), EvalError::InvalidArgs);
    assert_eq!(value("(> 1 nil)").unwrap_err(), EvalError::NotANumber);
    assert_eq!(value("(> nil 1)").unwrap_err(), EvalError::NotANumber);
}

#[test]
fn list_wraps_its_arguments() {
    assert_eq!(value("(list)").unwrap(), MalVal::List(vec![]));
    assert_eq!(
        value("(list 1 \"a\" nil (list))").unwrap(),
        MalVal::List(vec![
            num(1),
            MalVal::Atom(MalAtom::Str("a".to_string())),
            MalVal::Atom(MalAtom::Nil),
            MalVal::List(vec![]),
        ])
    );
}

#[test]
fn list_predicates() {
    assert_eq!(value("(list? (list))").unwrap(), truth(true));
    assert_eq!(value("(list? (list 1))").unwrap(), truth(true));
    assert_eq!(value("(list? 1)").unwrap(), truth(false));
    assert_eq!(value("(list? nil)").unwrap(), truth(false));
    assert_eq!(value("(list?)").unwrap_err(), EvalError::InvalidArgs);
    assert_eq!(value("(list? 1 2)").unwrap_err(), EvalError::InvalidArgs);

    assert_eq!(value("(empty? (list))").unwrap(), truth(true));
    assert_eq!(value("(empty? (list 1))").unwrap(), truth(false));
    assert_eq!(value("(empty? 1)").unwrap_err(), EvalError::NotAList);
    assert_eq!(value("(empty?)").unwrap_err(), EvalError::InvalidArgs);
    assert_eq!(
        value("(empty? (list) (list))").unwrap_err(),
        EvalError::InvalidArgs
    );
}

#[test]
fn count_of_a_list() {
    assert_eq!(value("(count (list))").unwrap(), num(0));
    assert_eq!(value("(count (list 1 2 3))").unwrap(), num(3));
    assert_eq!(value("(count (list (list 1 2)))").unwrap(), num(1));
    assert_eq!(value("(count 3)").unwrap_err(), EvalError::NotAList);
    assert_eq!(value("(count nil)").unwrap_err(), EvalError::NotAList);
    assert_eq!(value("(count)").unwrap_err(), EvalError::InvalidArgs);
    assert_eq!(
        value("(count (list) (list))").unwrap_err(),
        EvalError::InvalidArgs
    );
}

#[test]
fn default_names() {
    let fns = defaults();
    assert_eq!(fns.len(), 12);
    let expected = [
        ("+", NativeFn::Add),
        ("-", NativeFn::Sub),
        ("*", NativeFn::Mul),
        ("=", NativeFn::Eq),
        (">", NativeFn::Gt),
        (">=", NativeFn::Gte),
        ("<", NativeFn::Lt),
        ("<=", NativeFn::Lte),
        ("list", NativeFn::List),
        ("list?", NativeFn::IsList),
        ("empty?", NativeFn::IsEmpty),
        ("count", NativeFn::Count),
    ];
    for (name, f) in expected {
        assert_eq!(fns.get(name), Some(&f));
    }
}

#[test]
fn into_int_takes_integers_only() {
    assert_eq!(into_int(num(-3)), Ok(-3));
    assert_eq!(
        into_int(MalVal::Atom(MalAtom::Str("3".to_string()))),
        Err(EvalError::NotANumber)
    );
    assert_eq!(
        into_int(MalVal::List(vec![num(3)])),
        Err(EvalError::NotANumber)
    );
}

#[test]
fn atoms_from_plain_values() {
    assert_eq!(MalAtom::from(true), MalAtom::True);
    assert_eq!(MalAtom::from(false), MalAtom::False);
    assert_eq!(MalAtom::from(12i64), MalAtom::Int(12));
    assert_eq!(MalVal::from(MalAtom::Nil), MalVal::Atom(MalAtom::Nil));
}
