use mal::eval::builtin::defaults;
use mal::eval::eval;
use mal::types::env::{Environment, EnvironmentBuilder, Frames};
use mal::types::{EvalError, MalAtom, MalVal};

fn default_env() -> (Frames, Environment) {
    let mut frames = Frames::new();
    let env = EnvironmentBuilder::new()
        .with_builtins(defaults())
        .build(&mut frames);
    (frames, env)
}

#[test]
fn test_eval() {
    {
        let (mut frames, env) = default_env();
        let ast = MalVal::Atom(MalAtom::Sym("undefined_sym".into()));
        let evaluated = eval(ast, &env, &mut frames).unwrap_err();

        assert_eq!(evaluated, EvalError::SymbolNotFound("undefined_sym".into()));
    }
    {
        for op in &["+", "-", "*"] {
            let (mut frames, env) = default_env();
            let ast = MalVal::Atom(MalAtom::Sym((*op).to_owned()));
            let expected = ast.clone();
            let evaluated = eval(ast, &env, &mut frames).unwrap();

            assert_eq!(evaluated, expected);
        }
    }
    {
        for atom in vec![
            MalVal::Atom(MalAtom::Nil),
            MalVal::Atom(MalAtom::True),
            MalVal::Atom(MalAtom::False),
            MalVal::Atom(MalAtom::Str("asdf".into())),
            MalVal::Atom(MalAtom::Int(1)),
        ]
        .into_iter()
        {
            let (mut frames, env) = default_env();
            let ast = MalVal::List(vec![atom, MalVal::Atom(MalAtom::Int(2))]);
            let evaluated = eval(ast, &env, &mut frames).unwrap_err();
            assert!(matches!(evaluated, EvalError::BadFunctionDesignator(_)))
        }
    }
    {
        for op in &["+", "-", "*"] {
            for atom in vec![
                MalVal::Atom(MalAtom::Nil),
                MalVal::Atom(MalAtom::True),
                MalVal::Atom(MalAtom::False),
                MalVal::Atom(MalAtom::Str("asdf".into())),
            ]
            .into_iter()
            {
                let (mut frames, env) = default_env();
                let ast = MalVal::List(vec![
                    MalVal::Atom(MalAtom::Sym((*op).to_owned())),
                    atom,
                    MalVal::Atom(MalAtom::Int(2)),
                ]);
                let evaluated = eval(ast, &env, &mut frames).unwrap_err();
                assert!(matches!(evaluated, EvalError::NotANumber))
            }
        }
    }
    {
        for tc in &[("+", 2i64), ("-", -2i64), ("*", 2i64)] {
            let (mut frames, env) = default_env();
            let (op, expected) = *tc;
            let ast = MalVal::List(vec![
                MalVal::Atom(MalAtom::Sym(op.to_owned())),
                MalVal::Atom(MalAtom::Int(2)),
            ]);
            let evaluated = eval(ast, &env, &mut frames).unwrap();

            assert_eq!(evaluated, MalVal::Atom(MalAtom::Int(expected)));
        }
    }
    {
        for tc in &[("+", 9i64), ("-", -5i64), ("*", 24i64)] {
            let (mut frames, env) = default_env();
            let (op, expected) = *tc;
            let ast = MalVal::List(vec![
                MalVal::Atom(MalAtom::Sym(op.to_owned())),
                MalVal::Atom(MalAtom::Int(2)),
                MalVal::Atom(MalAtom::Int(3)),
                MalVal::Atom(MalAtom::Int(4)),
            ]);
            let evaluated = eval(ast, &env, &mut frames).unwrap();

            assert_eq!(evaluated, MalVal::Atom(MalAtom::Int(expected)));
        }
    }
}

#[test]
fn test_def() {
    {
        let (mut frames, env) = default_env();
        let ast = MalVal::List(vec![MalVal::Atom(MalAtom::Sym("def!".to_string()))]);
        let evaluated = eval(ast, &env, &mut frames).unwrap_err();

        assert_eq!(evaluated, EvalError::InvalidArgs);
    }
    {
        let (mut frames, env) = default_env();
        let ast = MalVal::List(vec![
            MalVal::Atom(MalAtom::Sym("def!".to_string())),
            MalVal::Atom(MalAtom::Sym("a".to_string())),
        ]);
        let evaluated = eval(ast, &env, &mut frames).unwrap_err();

        assert_eq!(evaluated, EvalError::InvalidArgs);
    }
    {
        let (mut frames, env) = default_env();
        let ast = MalVal::List(vec![
            MalVal::Atom(MalAtom::Sym("def!".to_string())),
            MalVal::Atom(MalAtom::Sym("a".to_string())),
            MalVal::Atom(MalAtom::Sym("b".to_string())),
            MalVal::Atom(MalAtom::Sym("c".to_string())),
        ]);
        let evaluated = eval(ast, &env, &mut frames).unwrap_err();

        assert_eq!(evaluated, EvalError::InvalidArgs);
    }
    {
        let (mut frames, env) = default_env();
        let ast = MalVal::List(vec![
            MalVal::Atom(MalAtom::Sym("def!".to_string())),
            MalVal::Atom(MalAtom::Sym("a".to_string())),
            MalVal::Atom(MalAtom::Sym("b".to_string())),
        ]);
        let evaluated = eval(ast, &env, &mut frames).unwrap_err();

        assert!(matches!(evaluated, EvalError::SymbolNotFound(_)));
    }
    {
        let (mut frames, env) = default_env();
        let ast = MalVal::List(vec![
            MalVal::Atom(MalAtom::Sym("def!".to_string())),
            MalVal::Atom(MalAtom::Int(1)),
            MalVal::Atom(MalAtom::Int(2)),
        ]);
        let evaluated = eval(ast, &env, &mut frames).unwrap_err();

        assert_eq!(evaluated, EvalError::NotASymbol);
    }
    {
        let (mut frames, env) = default_env();
        let ast = MalVal::List(vec![
            MalVal::Atom(MalAtom::Sym("def!".to_string())),
            MalVal::Atom(MalAtom::Sym("a".to_string())),
            MalVal::Atom(MalAtom::Int(2)),
        ]);
        eval(ast, &env, &mut frames).unwrap();

        let ast = MalVal::List(vec![
            MalVal::Atom(MalAtom::Sym("+".to_string())),
            MalVal::Atom(MalAtom::Sym("a".to_string())),
            MalVal::Atom(MalAtom::Int(10)),
        ]);
        let evaluated = eval(ast, &env, &mut frames).unwrap();

        assert_eq!(evaluated, MalVal::Atom(MalAtom::Int(12)));
    }
    {
        let (mut frames, env) = default_env();
        let ast = MalVal::List(vec![
            MalVal::Atom(MalAtom::Sym("def!".to_string())),
            MalVal::Atom(MalAtom::Sym("a".to_string())),
            MalVal::List(vec![
                MalVal::Atom(MalAtom::Sym("+".to_string())),
                MalVal::Atom(MalAtom::Int(2)),
                MalVal::Atom(MalAtom::Int(3)),
            ]),
        ]);
        let evaluated = eval(ast, &env, &mut frames).unwrap();

        assert_eq!(evaluated, MalVal::Atom(MalAtom::Int(5)));
    }
}

#[test]
fn test_let() {
    {
        let (mut frames, env) = default_env();
        let ast = MalVal::List(vec![MalVal::Atom(MalAtom::Sym("let*".to_string()))]);
        let evaluated = eval(ast, &env, &mut frames).unwrap_err();

        assert_eq!(evaluated, EvalError::InvalidArgs);
    }
    {
        let (mut frames, env) = default_env();
        let ast = MalVal::List(vec![
            MalVal::Atom(MalAtom::Sym("let*".to_string())),
            MalVal::Atom(MalAtom::Int(1)),
            MalVal::Atom(MalAtom::Int(1)),
        ]);
        let evaluated = eval(ast, &env, &mut frames).unwrap_err();

        assert_eq!(evaluated, EvalError::NotAList);
    }
    {
        let (mut frames, env) = default_env();
        let ast = MalVal::List(vec![
            MalVal::Atom(MalAtom::Sym("let*".to_string())),
            MalVal::List(vec![MalVal::Atom(MalAtom::Int(1))]),
            MalVal::Atom(MalAtom::Int(1)),
        ]);
        let evaluated = eval(ast, &env, &mut frames).unwrap_err();

        assert_eq!(evaluated, EvalError::InvalidArgs);
    }
    {
        let (mut frames, env) = default_env();
        let ast = MalVal::List(vec![
            MalVal::Atom(MalAtom::Sym("let*".to_string())),
            MalVal::List(vec![
                MalVal::Atom(MalAtom::Int(1)),
                MalVal::Atom(MalAtom::Int(1)),
            ]),
            MalVal::Atom(MalAtom::Int(1)),
        ]);
        let evaluated = eval(ast, &env, &mut frames).unwrap_err();

        assert_eq!(evaluated, EvalError::NotASymbol);
    }
    {
        let (mut frames, env) = default_env();
        let ast = MalVal::List(vec![
            MalVal::Atom(MalAtom::Sym("let*".to_string())),
            MalVal::List(vec![
                MalVal::Atom(MalAtom::Sym("a".to_string())),
                MalVal::Atom(MalAtom::Int(7)),
            ]),
            MalVal::Atom(MalAtom::Sym("a".to_string())),
        ]);
        let evaluated = eval(ast, &env, &mut frames).unwrap();

        assert_eq!(evaluated, MalVal::Atom(MalAtom::Int(7)));
    }
    {
        let (mut frames, env) = default_env();
        let ast = MalVal::List(vec![
            MalVal::Atom(MalAtom::Sym("let*".to_string())),
            MalVal::List(vec![
                MalVal::Atom(MalAtom::Sym("a".to_string())),
                MalVal::Atom(MalAtom::Int(7)),
                MalVal::Atom(MalAtom::Sym("b".to_string())),
                MalVal::Atom(MalAtom::Int(13)),
            ]),
            MalVal::List(vec![
                MalVal::Atom(MalAtom::Sym("+".to_string())),
                MalVal::Atom(MalAtom::Sym("a".to_string())),
                MalVal::Atom(MalAtom::Sym("b".to_string())),
            ]),
        ]);
        let evaluated = eval(ast, &env, &mut frames).unwrap();

        assert_eq!(evaluated, MalVal::Atom(MalAtom::Int(20)));
    }
    {
        let (mut frames, env) = default_env();
        let ast = MalVal::List(vec![
            MalVal::Atom(MalAtom::Sym("let*".to_string())),
            MalVal::List(vec![
                MalVal::Atom(MalAtom::Sym("a".to_string())),
                MalVal::Atom(MalAtom::Int(7)),
                MalVal::Atom(MalAtom::Sym("b".to_string())),
                MalVal::List(vec![
                    MalVal::Atom(MalAtom::Sym("+".to_string())),
                    MalVal::Atom(MalAtom::Sym("a".to_string())),
                    MalVal::Atom(MalAtom::Int(1)),
                ]),
            ]),
            MalVal::List(vec![
                MalVal::Atom(MalAtom::Sym("+".to_string())),
                MalVal::Atom(MalAtom::Sym("a".to_string())),
                MalVal::Atom(MalAtom::Sym("b".to_string())),
            ]),
        ]);
        let evaluated = eval(ast, &env, &mut frames).unwrap();

        assert_eq!(evaluated, MalVal::Atom(MalAtom::Int(15)));
    }
}

#[test]
fn test_fn() {
    {
        let (mut frames, env) = default_env();
        let ast = MalVal::List(vec![MalVal::Atom(MalAtom::Sym("fn*".to_string()))]);
        let evaluated = eval(ast, &env, &mut frames).unwrap_err();

        assert_eq!(evaluated, EvalError::InvalidArgs);
    }
    {
        let (mut frames, env) = default_env();
        let ast = MalVal::List(vec![
            MalVal::Atom(MalAtom::Sym("fn*".to_string())),
            MalVal::Atom(MalAtom::False),
            MalVal::Atom(MalAtom::False),
        ]);
        let evaluated = eval(ast, &env, &mut frames).unwrap_err();

        assert_eq!(evaluated, EvalError::NotASymbol);
    }
    {
        let (mut frames, env) = default_env();
        let ast = MalVal::List(vec![
            MalVal::Atom(MalAtom::Sym("fn*".to_string())),
            MalVal::List(vec![MalVal::Atom(MalAtom::False)]),
            MalVal::Atom(MalAtom::False),
        ]);
        let evaluated = eval(ast, &env, &mut frames).unwrap_err();

        assert_eq!(evaluated, EvalError::NotASymbol);
    }
    {
        let (mut frames, env) = default_env();
        let ast = MalVal::List(vec![
            MalVal::Atom(MalAtom::Sym("fn*".to_string())),
            MalVal::List(vec![MalVal::Atom(MalAtom::Sym("a".to_string()))]),
            MalVal::Atom(MalAtom::False),
        ]);
        let evaluated = eval(ast, &env, &mut frames).unwrap();

        assert!(matches!(evaluated, MalVal::Fn(_)));
    }
    {
        let (mut frames, env) = default_env();
        let ast = MalVal::List(vec![MalVal::List(vec![
            MalVal::Atom(MalAtom::Sym("fn*".to_string())),
            MalVal::List(vec![MalVal::Atom(MalAtom::Sym("a".to_string()))]),
            MalVal::Atom(MalAtom::False),
        ])]);
        let evaluated = eval(ast, &env, &mut frames).unwrap_err();
        assert_eq!(evaluated, EvalError::InvalidArgs);
    }
    {
        let (mut frames, env) = default_env();
        let ast = MalVal::List(vec![MalVal::List(vec![
            MalVal::Atom(MalAtom::Sym("fn*".to_string())),
            MalVal::List(vec![]),
            MalVal::Atom(MalAtom::False),
        ])]);
        let evaluated = eval(ast, &env, &mut frames).unwrap();
        assert_eq!(evaluated, MalVal::Atom(MalAtom::False));
    }
    {
        let (mut frames, env) = default_env();
        let ast = MalVal::List(vec![
            MalVal::List(vec![
                MalVal::Atom(MalAtom::Sym("fn*".to_string())),
                MalVal::List(vec![MalVal::Atom(MalAtom::Sym("a".to_string()))]),
                MalVal::Atom(MalAtom::False),
            ]),
            MalVal::Atom(MalAtom::True),
        ]);
        let evaluated = eval(ast, &env, &mut frames).unwrap();
        assert_eq!(evaluated, MalVal::Atom(MalAtom::False));
    }
    {
        let (mut frames, env) = default_env();
        let ast = MalVal::List(vec![
            MalVal::List(vec![
                MalVal::Atom(MalAtom::Sym("fn*".to_string())),
                MalVal::List(vec![
                    MalVal::Atom(MalAtom::Sym("a".to_string())),
                    MalVal::Atom(MalAtom::Sym("b".to_string())),
                ]),
                MalVal::List(vec![
                    MalVal::Atom(MalAtom::Sym("+".to_string())),
                    MalVal::Atom(MalAtom::Sym("a".to_string())),
                    MalVal::Atom(MalAtom::Sym("b".to_string())),
                ]),
            ]),
            MalVal::Atom(MalAtom::Int(3)),
            MalVal::Atom(MalAtom::Int(4)),
        ]);
        let evaluated = eval(ast, &env, &mut frames).unwrap();
        assert_eq!(evaluated, MalVal::Atom(MalAtom::Int(7)));
    }
}

#[test]
fn test_do() {
    {
        let (mut frames, env) = default_env();
        let ast = MalVal::List(vec![MalVal::Atom(MalAtom::Sym("do".to_string()))]);
        let evaluated = eval(ast, &env, &mut frames).unwrap();
        assert_eq!(evaluated, MalVal::Atom(MalAtom::Nil));
    }
    {
        let (mut frames, env) = default_env();
        let ast = MalVal::List(vec![
            MalVal::Atom(MalAtom::Sym("do".to_string())),
            MalVal::List(vec![
                MalVal::Atom(MalAtom::Sym("def!".to_string())),
                MalVal::Atom(MalAtom::Sym("a".to_string())),
                MalVal::List(vec![
                    MalVal::Atom(MalAtom::Sym("+".to_string())),
                    MalVal::Atom(MalAtom::Int(2)),
                    MalVal::Atom(MalAtom::Int(3)),
                ]),
            ]),
            MalVal::List(vec![
                MalVal::Atom(MalAtom::Sym("+".to_string())),
                MalVal::Atom(MalAtom::Sym("a".to_string())),
                MalVal::Atom(MalAtom::Int(4)),
            ]),
        ]);
        let evaluated = eval(ast, &env, &mut frames).unwrap();
        assert_eq!(evaluated, MalVal::Atom(MalAtom::Int(9)));
    }
}
