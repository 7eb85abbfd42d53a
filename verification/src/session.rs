use vstd::prelude::*;

use crate::eval::{eval, eval_spec};
use crate::printer::print;
use crate::reader::{read_str, read_str_spec, ParseError, ParseErrorView};
use crate::types::env::{Environment, FrameView, Frames};
use crate::types::{lemma_views, EvalError, EvalErrorView, MalAtom, MalVal, Value};

verus! {

/// The form that one round of a session evaluates: the first that the text holds, and
/// `nil` where it holds none.
pub open spec fn read_spec(input: Seq<char>) -> Result<Value, ParseErrorView> {
    match read_str_spec(input) {
        Ok(forms) => if forms.len() > 0 {
            Ok(forms[0])
        } else {
            Ok(Value::Nil)
        },
        Err(e) => Err(e),
    }
}

/// Reads the first form of a text; `nil` where the text holds none.
pub fn read(input: &str) -> (r: Result<MalVal, ParseError>)
    ensures
        match r {
            Ok(v) => read_spec(input@) == Ok::<Value, ParseErrorView>(v@),
            Err(e) => read_spec(input@) == Err::<Value, ParseErrorView>(e@),
        },
{
    match read_str(input) {
        Ok(forms) => {
            let mut v = forms;
            proof {
                lemma_views(v@);
            }
            if !v.is_empty() {
                Ok(v.swap_remove(0))
            } else {
                Ok(MalVal::Atom(MalAtom::Nil))
            }
        },
        Err(e) => Err(e),
    }
}

/// What a line editor is told about the text typed so far.
#[derive(Debug, PartialEq)]
pub enum InputStatus {
    /// The text can be read.
    Valid,
    /// A sequence is still open: more lines may close it.
    Incomplete,
    /// The text cannot be read, whatever follows.
    Invalid(ParseError),
}

/// The model of an [`InputStatus`].
pub enum InputStatusView {
    Valid,
    Incomplete,
    Invalid(ParseErrorView),
}

impl View for InputStatus {
    type V = InputStatusView;

    open spec fn view(&self) -> InputStatusView {
        match self {
            InputStatus::Valid => InputStatusView::Valid,
            InputStatus::Incomplete => InputStatusView::Incomplete,
            InputStatus::Invalid(e) => InputStatusView::Invalid(e@),
        }
    }
}

/// The status of a text: only a sequence that was never closed asks for more input.
pub open spec fn validate_spec(input: Seq<char>) -> InputStatusView {
    match read_spec(input) {
        Ok(_) => InputStatusView::Valid,
        Err(ParseErrorView::UnterminatedInput) => InputStatusView::Incomplete,
        Err(e) => InputStatusView::Invalid(e),
    }
}

/// Tells whether the text typed so far can be read, may become readable, or never will.
pub fn validate(input: &str) -> (status: InputStatus)
    ensures
        status@ == validate_spec(input@),
{
    match read(input) {
        Ok(_) => InputStatus::Valid,
        Err(ParseError::UnterminatedInput) => InputStatus::Incomplete,
        Err(e) => InputStatus::Invalid(e),
    }
}

/// Why a round of a session printed no value.
#[derive(Debug, PartialEq)]
pub enum Failure {
    Read(ParseError),
    Eval(EvalError),
}

/// The model of a [`Failure`].
pub enum FailureView {
    Read(ParseErrorView),
    Eval(EvalErrorView),
}

impl View for Failure {
    type V = FailureView;

    open spec fn view(&self) -> FailureView {
        match self {
            Failure::Read(e) => FailureView::Read(e@),
            Failure::Eval(e) => FailureView::Eval(e@),
        }
    }
}

/// One round of a session: the text of the value of the first form of `input`, and the
/// arena afterwards. A text that cannot be read leaves the arena alone.
pub open spec fn rep_spec(input: Seq<char>, env: nat, s: Seq<FrameView>) -> (
    Result<Seq<char>, FailureView>,
    Seq<FrameView>,
) {
    match read_spec(input) {
        Ok(ast) => match eval_spec(usize::MAX as nat, ast, env, s) {
            (Ok(v), s1) => (Ok(print(v)), s1),
            (Err(e), s1) => (Err(FailureView::Eval(e)), s1),
        },
        Err(e) => (Err(FailureView::Read(e)), s),
    }
}

/// Reads the first form of `input`, evaluates it in `env` and hands out the text of its
/// value.
pub fn rep(input: &str, env: &Environment, frames: &mut Frames) -> (r: Result<String, Failure>)
    ensures
        (
            match r {
                Ok(text) => Ok::<Seq<char>, FailureView>(text@),
                Err(e) => Err::<Seq<char>, FailureView>(e@),
            },
            final(frames)@,
        ) == rep_spec(input@, env@, old(frames)@),
{
    match read(input) {
        Ok(ast) => match eval(ast, env, frames) {
            Ok(v) => Ok(v.to_string()),
            Err(e) => Err(Failure::Eval(e)),
        },
        Err(e) => Err(Failure::Read(e)),
    }
}

} // verus!
