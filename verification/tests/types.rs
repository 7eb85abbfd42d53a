use mal::types::{MalAtom, MalVal};

#[test]
fn test_display_malval() {
    {
        let v = MalVal::List(vec![]);

        assert_eq!(v.to_string(), "()")
    }
    {
        let v = MalVal::List(vec![
            MalVal::Atom(MalAtom::Nil),
            MalVal::Atom(MalAtom::True),
            MalVal::Atom(MalAtom::False),
            MalVal::List(vec![]),
            MalVal::Atom(MalAtom::Sym("hello".into())),
            MalVal::Atom(MalAtom::Str("world".into())),
            MalVal::Atom(MalAtom::Int(123)),
        ]);

        assert_eq!(v.to_string(), "(nil true false () hello \"world\" 123)")
    }

    {
        let v = MalVal::Vector(vec![]);

        assert_eq!(v.to_string(), "[]")
    }
    {
        let v = MalVal::Vector(vec![
            MalVal::Atom(MalAtom::Nil),
            MalVal::Atom(MalAtom::True),
            MalVal::Atom(MalAtom::False),
            MalVal::List(vec![]),
            MalVal::Atom(MalAtom::Sym("hello".into())),
            MalVal::Atom(MalAtom::Str("world".into())),
            MalVal::Atom(MalAtom::Int(123)),
        ]);

        assert_eq!(v.to_string(), "[nil true false () hello \"world\" 123]")
    }

    {
        let v = MalVal::AssocArray(vec![]);

        assert_eq!(v.to_string(), "{}")
    }
}
