use mal::reader::{read_str, tokenize, Token};
use mal::types::{MalAtom, MalVal};

#[test]
fn test_tokenize() {
    {
        let s = " , \n  \t ";
        let v = tokenize(&s.to_string()).unwrap();
        assert_eq!(v, vec![]);
    }

    {
        let s = "  ( ,,, ) [ ]}  \n  \t {";
        let v = tokenize(&s.to_string()).unwrap();
        assert_eq!(
            v,
            vec![
                Token::LeftParen,
                Token::RightParen,
                Token::LeftBracket,
                Token::RightBracket,
                Token::RightCurly,
                Token::LeftCurly
            ]
        );
    }

    {
        let s = "  (+ asdf)";
        let v = tokenize(&s.to_string()).unwrap();
        assert_eq!(
            v,
            vec![
                Token::LeftParen,
                Token::Lit("+".into()),
                Token::Lit("asdf".into()),
                Token::RightParen,
            ]
        );
    }

    {
        let s = "  (+ 0 12 345 6789 -1 -12 -123)";
        let v = tokenize(&s.to_string()).unwrap();
        assert_eq!(
            v,
            vec![
                Token::LeftParen,
                Token::Lit("+".into()),
                Token::Int(0),
                Token::Int(12),
                Token::Int(345),
                Token::Int(6789),
                Token::Int(-1),
                Token::Int(-12),
                Token::Int(-123),
                Token::RightParen,
            ]
        );
    }

    {
        let s = "  (+ \"asd\\\"f\")";
        let v = tokenize(&s.to_string()).unwrap();
        assert_eq!(
            v,
            vec![
                Token::LeftParen,
                Token::Lit("+".into()),
                Token::Str("asd\"f".into()),
                Token::RightParen,
            ]
        );
    }

    {
        let s = "\"a\\nb\"";
        let v = tokenize(&s.to_string()).unwrap();
        assert_eq!(v, vec![Token::Str("a\nb".into()),]);
    }
    {
        let s = "\"a\\\\b\"";
        let v = tokenize(&s.to_string()).unwrap();
        assert_eq!(v, vec![Token::Str("a\\b".into()),]);
    }

    {
        let s = " ; ()[]}\t{\n()";
        let v = tokenize(&s.to_string()).unwrap();
        assert_eq!(
            v,
            vec![
                // Token::Comment(" ()[]}\t{".into()),
                Token::LeftParen,
                Token::RightParen,
            ]
        );
    }
}

#[test]
fn test_read_str() {
    {
        let s = r#"
        "#;
        let v = read_str(&s).unwrap();
        assert_eq!(v, vec![],);
    }
    {
        let s = r#"
        (println "hello")
        "#;
        let v = read_str(&s).unwrap();
        assert_eq!(
            *v.first().unwrap(),
            MalVal::List(vec![
                MalVal::Atom(MalAtom::Sym("println".into())),
                MalVal::Atom(MalAtom::Str("hello".into()))
            ])
        );
    }

    {
        let s = r#"
        (println "hello")
        (print-line "world")
        "#;
        let v = read_str(&s).unwrap();
        assert_eq!(
            v,
            vec![
                MalVal::List(vec![
                    MalVal::Atom(MalAtom::Sym("println".into())),
                    MalVal::Atom(MalAtom::Str("hello".into()))
                ]),
                MalVal::List(vec![
                    MalVal::Atom(MalAtom::Sym("print-line".into())),
                    MalVal::Atom(MalAtom::Str("world".into()))
                ]),
            ]
        );
    }

    {
        let s = r#"
        (fun1! 2 "hello" 
            (fun2? 3 "world"))
        "#;
        let v = read_str(&s).unwrap();
        assert_eq!(
            v,
            vec![MalVal::List(vec![
                MalVal::Atom(MalAtom::Sym("fun1!".into())),
                MalVal::Atom(MalAtom::Int(2)),
                MalVal::Atom(MalAtom::Str("hello".into())),
                MalVal::List(vec![
                    MalVal::Atom(MalAtom::Sym("fun2?".into())),
                    MalVal::Atom(MalAtom::Int(3)),
                    MalVal::Atom(MalAtom::Str("world".into())),
                ])
            ]),]
        );
    }

    {
        let s = r#"
        (nil true false)
        "#;
        let v = read_str(&s).unwrap();
        assert_eq!(
            *v.first().unwrap(),
            MalVal::List(vec![
                MalVal::Atom(MalAtom::Nil),
                MalVal::Atom(MalAtom::True),
                MalVal::Atom(MalAtom::False),
            ])
        );
    }
}
