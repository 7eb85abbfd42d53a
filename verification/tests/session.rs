use mal::eval::builtin::defaults;
use mal::reader::ParseError;
use mal::session::{read, rep, validate, Failure, InputStatus};
use mal::types::env::{Environment, EnvironmentBuilder, Frames};
use mal::types::{EvalError, MalAtom, MalVal};

fn start() -> (Frames, Environment) {
    let mut frames = Frames::new();
    let env = EnvironmentBuilder::new()
        .with_builtins(defaults())
        .build(&mut frames);
    (frames, env)
}

#[test]
fn read_takes_the_first_form() {
    assert_eq!(read("1 2 3").unwrap(), MalVal::Atom(MalAtom::Int(1)));
    assert_eq!(
        read("(a) (b)").unwrap(),
        MalVal::List(vec![MalVal::Atom(MalAtom::Sym("a".to_string()))])
    );
}

#[test]
fn read_of_nothing_is_nil() {
    assert_eq!(read("").unwrap(), MalVal::Atom(MalAtom::Nil));
    assert_eq!(read("  ; only a comment").unwrap(), MalVal::Atom(MalAtom::Nil));
}

#[test]
fn read_fails_on_any_form() {
    assert_eq!(read("1 (2").unwrap_err(), ParseError::UnterminatedInput);
    assert_eq!(read("1 \"2").unwrap_err(), ParseError::UnterminatedString);
}

#[test]
fn validate_tells_open_from_broken() {
    assert_eq!(validate(""), InputStatus::Valid);
    assert_eq!(validate("(+ 1 2)"), InputStatus::Valid);
    assert_eq!(validate("(+ 1"), InputStatus::Incomplete);
    assert_eq!(validate("(+ 1 [2 3]"), InputStatus::Incomplete);
    assert_eq!(
        validate("(+ 1 \"2"),
        InputStatus::Invalid(ParseError::UnterminatedString)
    );
    assert_eq!(
        validate("\"a\nb\""),
        InputStatus::Invalid(ParseError::NewlineInString)
    );
    assert_eq!(
        validate("\"\\q\""),
        InputStatus::Invalid(ParseError::UnknownEscapeSequence('q'))
    );
    assert_eq!(
        validate("(+ 1 2))"),
        InputStatus::Invalid(ParseError::UnexpectedToken("RightParen".to_string()))
    );
}

#[test]
fn rep_prints_the_value() {
    let (mut frames, env) = start();
    assert_eq!(rep("(+ 1 2)", &env, &mut frames), Ok("3".to_string()));
    assert_eq!(rep("(list 1 \"a\" nil)", &env, &mut frames), Ok("(1 \"a\" nil)".to_string()));
    assert_eq!(rep("", &env, &mut frames), Ok("nil".to_string()));
    assert_eq!(rep("(fn* (a) a)", &env, &mut frames), Ok("#<function>".to_string()));
    assert_eq!(rep("+", &env, &mut frames), Ok("+".to_string()));
}

#[test]
fn rep_keeps_the_environment() {
    let (mut frames, env) = start();
    assert_eq!(rep("(def! a 5)", &env, &mut frames), Ok("5".to_string()));
    assert_eq!(
        rep("(def! twice (fn* (x) (* 2 x)))", &env, &mut frames),
        Ok("#<function>".to_string())
    );
    assert_eq!(rep("(twice a)", &env, &mut frames), Ok("10".to_string()));
}

#[test]
fn rep_evaluates_the_first_form_only() {
    let (mut frames, env) = start();
    assert_eq!(rep("(def! a 1) (def! b 2)", &env, &mut frames), Ok("1".to_string()));
    assert_eq!(
        rep("b", &env, &mut frames),
        Err(Failure::Eval(EvalError::SymbolNotFound("b".to_string())))
    );
}

#[test]
fn rep_reports_failures() {
    let (mut frames, env) = start();
    assert_eq!(
        rep("(+ 1", &env, &mut frames),
        Err(Failure::Read(ParseError::UnterminatedInput))
    );
    assert_eq!(
        rep("(+ 1 nil)", &env, &mut frames),
        Err(Failure::Eval(EvalError::NotANumber))
    );
    assert_eq!(frames.len(), 1);
}
