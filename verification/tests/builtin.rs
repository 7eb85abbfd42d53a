use mal::eval::builtin::defaults;
use mal::types::{EvalError, MalAtom, MalVal};

#[test]
fn test_int_comparisons() {
    let fns = defaults();
    for op in &["=", "<", "<=", ">", ">="] {
        {
            let v = vec![];
            let res = fns.get(op).unwrap().call(v).unwrap_err();
            assert_eq!(res, EvalError::InvalidArgs);
        }
        {
            let v = vec![MalVal::Atom(MalAtom::Int(0))];
            let res = fns.get(op).unwrap().call(v).unwrap_err();
            assert_eq!(res, EvalError::InvalidArgs);
        }
        {
            let v = vec![MalVal::Atom(MalAtom::Int(0))];
            let res = fns.get(op).unwrap().call(v).unwrap_err();
            assert_eq!(res, EvalError::InvalidArgs);
        }
        if op == &"=" {
            continue;
        }
        {
            let v = vec![
                MalVal::Atom(MalAtom::Sym("a".to_owned())),
                MalVal::Atom(MalAtom::Sym("b".to_owned())),
            ];
            let res = fns.get(op).unwrap().call(v).unwrap_err();
            assert_eq!(res, EvalError::NotANumber);
        }
    }
}

#[test]
fn test_lt() {
    let f = *defaults().get("<").unwrap();

    {
        let v = vec![MalVal::Atom(MalAtom::Int(1)), MalVal::Atom(MalAtom::Int(2))];
        let res = f.call(v).unwrap();
        assert_eq!(res, MalVal::Atom(MalAtom::True));
    }
    {
        let v = vec![MalVal::Atom(MalAtom::Int(2)), MalVal::Atom(MalAtom::Int(2))];
        let res = f.call(v).unwrap();
        assert_eq!(res, MalVal::Atom(MalAtom::False));
    }
    {
        let v = vec![MalVal::Atom(MalAtom::Int(2)), MalVal::Atom(MalAtom::Int(1))];
        let res = f.call(v).unwrap();
        assert_eq!(res, MalVal::Atom(MalAtom::False));
    }
}

#[test]
fn test_lte() {
    let f = *defaults().get("<=").unwrap();

    {
        let v = vec![MalVal::Atom(MalAtom::Int(1)), MalVal::Atom(MalAtom::Int(2))];
        let res = f.call(v).unwrap();
        assert_eq!(res, MalVal::Atom(MalAtom::True));
    }
    {
        let v = vec![MalVal::Atom(MalAtom::Int(2)), MalVal::Atom(MalAtom::Int(2))];
        let res = f.call(v).unwrap();
        assert_eq!(res, MalVal::Atom(MalAtom::True));
    }
    {
        let v = vec![MalVal::Atom(MalAtom::Int(2)), MalVal::Atom(MalAtom::Int(1))];
        let res = f.call(v).unwrap();
        assert_eq!(res, MalVal::Atom(MalAtom::False));
    }
}

#[test]
fn test_gt() {
    let f = *defaults().get(">").unwrap();

    {
        let v = vec![MalVal::Atom(MalAtom::Int(1)), MalVal::Atom(MalAtom::Int(2))];
        let res = f.call(v).unwrap();
        assert_eq!(res, MalVal::Atom(MalAtom::False));
    }
    {
        let v = vec![MalVal::Atom(MalAtom::Int(2)), MalVal::Atom(MalAtom::Int(2))];
        let res = f.call(v).unwrap();
        assert_eq!(res, MalVal::Atom(MalAtom::False));
    }
    {
        let v = vec![MalVal::Atom(MalAtom::Int(2)), MalVal::Atom(MalAtom::Int(1))];
        let res = f.call(v).unwrap();
        assert_eq!(res, MalVal::Atom(MalAtom::True));
    }
}

#[test]
fn test_gte() {
    let f = *defaults().get(">=").unwrap();

    {
        let v = vec![MalVal::Atom(MalAtom::Int(1)), MalVal::Atom(MalAtom::Int(2))];
        let res = f.call(v).unwrap();
        assert_eq!(res, MalVal::Atom(MalAtom::False));
    }
    {
        let v = vec![MalVal::Atom(MalAtom::Int(2)), MalVal::Atom(MalAtom::Int(2))];
        let res = f.call(v).unwrap();
        assert_eq!(res, MalVal::Atom(MalAtom::True));
    }
    {
        let v = vec![MalVal::Atom(MalAtom::Int(2)), MalVal::Atom(MalAtom::Int(1))];
        let res = f.call(v).unwrap();
        assert_eq!(res, MalVal::Atom(MalAtom::True));
    }
}
