use vstd::prelude::*;
use vstd::std_specs::cmp::PartialEqSpecImpl;

use self::env::Environment;

pub mod env;

verus! {

/// What an expression is, as a mathematical value: the model that every contract speaks of.
pub enum Value {
    Nil,
    True,
    False,
    Sym(Seq<char>),
    Str(Seq<char>),
    Int(i64),
    List(Seq<Value>),
    Vector(Seq<Value>),
    AssocArray(Seq<Value>),
    /// A closure: the frame it captured, its parameter names, its unevaluated body.
    Fn { env: nat, binds: Seq<Seq<char>>, body: Box<Value> },
}

/// An expression, and what an expression evaluates to.
#[derive(Debug)]
pub enum MalVal {
    Atom(MalAtom),
    List(Vec<MalVal>),
    Vector(Vec<MalVal>),
    AssocArray(Vec<MalVal>),
    Fn(Box<MalFn>),
}

/// A value without parts.
#[derive(Debug)]
pub enum MalAtom {
    Nil,
    True,
    False,
    Sym(String),
    Str(String),
    Int(i64),
}

/// A closure: the frame in which it was made, its unevaluated body and the names of its
/// parameters. The frame is held by its handle, so what is bound there later is seen
/// when the closure runs.
#[derive(Debug)]
pub struct MalFn {
    pub env: Environment,
    pub body: MalVal,
    pub binds: Vec<String>,
}

/// The built-in operations that a frame's registry can bind a name to.
#[derive(Debug, Clone, Copy, PartialEq, Eq)]
pub enum NativeFn {
    Add,
    Sub,
    Mul,
    Eq,
    Gt,
    Gte,
    Lt,
    Lte,
    List,
    IsList,
    IsEmpty,
    Count,
}

pub type EvalResult<T> = Result<T, EvalError>;

/// Why an evaluation gave no value.
#[derive(Debug, PartialEq)]
pub enum EvalError {
    /// The name is bound in no frame on the way out and stands in no registry.
    SymbolNotFound(String),
    NotANumber,
    NotASymbol,
    NotAList,
    /// The head of a call evaluated to a name that stands in no registry.
    FunctionUndefined(String),
    /// The head of a call evaluated to the value whose text this is: neither a name nor
    /// a closure.
    BadFunctionDesignator(String),
    /// A special form or a function was handed the wrong number of items.
    InvalidArgs,
    /// A vector, a map or a closure was handed to the evaluator as an expression.
    UnsupportedExpression,
    /// Closure calls nested deeper than the evaluator's budget.
    RecursionLimit,
}

/// The model of an [`EvalError`].
pub enum EvalErrorView {
    SymbolNotFound(Seq<char>),
    NotANumber,
    NotASymbol,
    NotAList,
    FunctionUndefined(Seq<char>),
    BadFunctionDesignator(Seq<char>),
    InvalidArgs,
    UnsupportedExpression,
    RecursionLimit,
}

impl View for EvalError {
    type V = EvalErrorView;

    open spec fn view(&self) -> EvalErrorView {
        match self {
            EvalError::SymbolNotFound(s) => EvalErrorView::SymbolNotFound(s@),
            EvalError::NotANumber => EvalErrorView::NotANumber,
            EvalError::NotASymbol => EvalErrorView::NotASymbol,
            EvalError::NotAList => EvalErrorView::NotAList,
            EvalError::FunctionUndefined(s) => EvalErrorView::FunctionUndefined(s@),
            EvalError::BadFunctionDesignator(s) => EvalErrorView::BadFunctionDesignator(s@),
            EvalError::InvalidArgs => EvalErrorView::InvalidArgs,
            EvalError::UnsupportedExpression => EvalErrorView::UnsupportedExpression,
            EvalError::RecursionLimit => EvalErrorView::RecursionLimit,
        }
    }
}

/// The model of an evaluation's outcome.
pub open spec fn outcome(r: EvalResult<MalVal>) -> Result<Value, EvalErrorView> {
    match r {
        Ok(v) => Ok(v@),
        Err(e) => Err(e@),
    }
}

impl View for MalAtom {
    type V = Value;

    open spec fn view(&self) -> Value {
        match self {
            MalAtom::Nil => Value::Nil,
            MalAtom::True => Value::True,
            MalAtom::False => Value::False,
            MalAtom::Sym(s) => Value::Sym(s@),
            MalAtom::Str(s) => Value::Str(s@),
            MalAtom::Int(i) => Value::Int(*i),
        }
    }
}

/// The models of a run of values, item by item.
pub open spec fn views(items: Seq<MalVal>) -> Seq<Value>
    decreases items,
{
    Seq::new(
        items.len(),
        |i: int|
            if 0 <= i < items.len() {
                value_of(items[i])
            } else {
                Value::Nil
            },
    )
}

/// The model of a value.
pub open spec fn value_of(v: MalVal) -> Value
    decreases v,
{
    match v {
        MalVal::Atom(a) => a@,
        MalVal::List(items) => Value::List(views(items@)),
        MalVal::Vector(items) => Value::Vector(views(items@)),
        MalVal::AssocArray(items) => Value::AssocArray(views(items@)),
        MalVal::Fn(f) => Value::Fn {
            env: f.env@,
            binds: names(f.binds@),
            body: Box::new(value_of(f.body)),
        },
    }
}

/// `views` keeps the length and models each item in its place.
pub proof fn lemma_views(items: Seq<MalVal>)
    ensures
        views(items).len() == items.len(),
        forall|i: int| 0 <= i < items.len() ==> #[trigger] views(items)[i] == items[i]@,
{
}

/// The models of a run of names.
pub open spec fn names(items: Seq<String>) -> Seq<Seq<char>> {
    Seq::new(items.len(), |i: int| items[i]@)
}

impl View for MalVal {
    type V = Value;

    open spec fn view(&self) -> Value {
        value_of(*self)
    }
}

impl View for MalFn {
    type V = Value;

    open spec fn view(&self) -> Value {
        Value::Fn { env: self.env@, binds: names(self.binds@), body: Box::new(self.body@) }
    }
}

impl Value {
    /// The truth value as an atom.
    pub open spec fn from_bool(b: bool) -> Value {
        if b {
            Value::True
        } else {
            Value::False
        }
    }
}

impl From<bool> for MalAtom {
    fn from(v: bool) -> (r: Self) {
        if v {
            MalAtom::True
        } else {
            MalAtom::False
        }
    }
}

impl vstd::std_specs::convert::FromSpecImpl<bool> for MalAtom {
    open spec fn obeys_from_spec() -> bool {
        true
    }

    open spec fn from_spec(v: bool) -> Self {
        if v {
            MalAtom::True
        } else {
            MalAtom::False
        }
    }
}

impl From<i64> for MalAtom {
    fn from(i: i64) -> (r: Self) {
        MalAtom::Int(i)
    }
}

impl vstd::std_specs::convert::FromSpecImpl<i64> for MalAtom {
    open spec fn obeys_from_spec() -> bool {
        true
    }

    open spec fn from_spec(i: i64) -> Self {
        MalAtom::Int(i)
    }
}

impl From<MalAtom> for MalVal {
    fn from(a: MalAtom) -> (r: Self) {
        MalVal::Atom(a)
    }
}

impl vstd::std_specs::convert::FromSpecImpl<MalAtom> for MalVal {
    open spec fn obeys_from_spec() -> bool {
        true
    }

    open spec fn from_spec(a: MalAtom) -> Self {
        MalVal::Atom(a)
    }
}

impl Clone for MalAtom {
    fn clone(&self) -> (r: Self)
        ensures
            r@ == self@,
    {
        match self {
            MalAtom::Nil => MalAtom::Nil,
            MalAtom::True => MalAtom::True,
            MalAtom::False => MalAtom::False,
            MalAtom::Sym(s) => MalAtom::Sym(s.clone()),
            MalAtom::Str(s) => MalAtom::Str(s.clone()),
            MalAtom::Int(i) => MalAtom::Int(*i),
        }
    }
}

/// A copy of a run of names.
pub fn clone_names(items: &Vec<String>) -> (r: Vec<String>)
    ensures
        names(r@) == names(items@),
{
    let mut out: Vec<String> = Vec::new();
    let mut i: usize = 0;
    while i < items.len()
        invariant
            i <= items.len(),
            out@.len() == i,
            forall|j: int| 0 <= j < i ==> out@[j]@ == items@[j]@,
        decreases items.len() - i,
    {
        out.push(items[i].clone());
        i += 1;
    }
    assert(names(out@) =~= names(items@));
    out
}

impl MalVal {
    /// A deep copy.
    pub fn duplicate(&self) -> (r: MalVal)
        ensures
            r@ == self@,
        decreases self,
    {
        match self {
            MalVal::Atom(a) => MalVal::Atom(a.clone()),
            MalVal::List(items) => MalVal::List(Self::duplicate_all(items)),
            MalVal::Vector(items) => MalVal::Vector(Self::duplicate_all(items)),
            MalVal::AssocArray(items) => MalVal::AssocArray(Self::duplicate_all(items)),
            MalVal::Fn(f) => {
                let body = f.body.duplicate();
                let binds = clone_names(&f.binds);
                MalVal::Fn(Box::new(MalFn { env: f.env, body, binds }))
            },
        }
    }

    /// A deep copy of each item.
    pub fn duplicate_all(items: &Vec<MalVal>) -> (r: Vec<MalVal>)
        ensures
            views(r@) == views(items@),
        decreases items,
    {
        let mut out: Vec<MalVal> = Vec::new();
        let mut i: usize = 0;
        while i < items.len()
            invariant
                i <= items.len(),
                out@.len() == i,
                forall|j: int| 0 <= j < i ==> out@[j]@ == items@[j]@,
            decreases items.len() - i,
        {
            out.push(items[i].duplicate());
            i += 1;
        }
        assert(views(out@) =~= views(items@));
        out
    }
}

/// Whether two runs of names are the same.
pub fn same_names(a: &Vec<String>, b: &Vec<String>) -> (same: bool)
    ensures
        same == (names(a@) == names(b@)),
{
    if a.len() != b.len() {
        assert(names(a@).len() != names(b@).len());
        return false;
    }
    let mut i: usize = 0;
    while i < a.len()
        invariant
            i <= a.len(),
            a.len() == b.len(),
            forall|j: int| 0 <= j < i ==> a@[j]@ == b@[j]@,
        decreases a.len() - i,
    {
        if a[i] != b[i] {
            assert(names(a@)[i as int] != names(b@)[i as int]);
            return false;
        }
        i += 1;
    }
    assert(names(a@) =~= names(b@));
    true
}

impl MalAtom {
    /// Whether two atoms are the same.
    pub fn equals(&self, other: &MalAtom) -> (same: bool)
        ensures
            same == (self@ == other@),
    {
        match (self, other) {
            (MalAtom::Nil, MalAtom::Nil) => true,
            (MalAtom::True, MalAtom::True) => true,
            (MalAtom::False, MalAtom::False) => true,
            (MalAtom::Sym(a), MalAtom::Sym(b)) => *a == *b,
            (MalAtom::Str(a), MalAtom::Str(b)) => *a == *b,
            (MalAtom::Int(a), MalAtom::Int(b)) => *a == *b,
            _ => false,
        }
    }
}

impl MalVal {
    /// Whether two values are the same in structure: the lists item by item, the closures
    /// by the frame they captured, their parameter names and their body.
    pub fn equals(&self, other: &MalVal) -> (same: bool)
        ensures
            same == (self@ == other@),
        decreases self,
    {
        match (self, other) {
            (MalVal::Atom(a), MalVal::Atom(b)) => a.equals(b),
            (MalVal::List(a), MalVal::List(b)) => Self::equals_all(a, b),
            (MalVal::Vector(a), MalVal::Vector(b)) => Self::equals_all(a, b),
            (MalVal::AssocArray(a), MalVal::AssocArray(b)) => Self::equals_all(a, b),
            (MalVal::Fn(f), MalVal::Fn(g)) => {
                f.env.index() == g.env.index() && same_names(&f.binds, &g.binds) && f.body.equals(
                    &g.body,
                )
            },
            _ => false,
        }
    }

    /// Whether two runs of values are the same, item by item.
    pub fn equals_all(a: &Vec<MalVal>, b: &Vec<MalVal>) -> (same: bool)
        ensures
            same == (views(a@) == views(b@)),
        decreases a,
    {
        if a.len() != b.len() {
            assert(views(a@).len() != views(b@).len());
            return false;
        }
        let mut i: usize = 0;
        while i < a.len()
            invariant
                i <= a.len(),
                a.len() == b.len(),
                forall|j: int| 0 <= j < i ==> a@[j]@ == b@[j]@,
            decreases a.len() - i,
        {
            if !a[i].equals(&b[i]) {
                assert(views(a@)[i as int] != views(b@)[i as int]);
                return false;
            }
            i += 1;
        }
        assert(views(a@) =~= views(b@));
        true
    }
}

impl PartialEq for MalAtom {
    fn eq(&self, other: &Self) -> (same: bool) {
        self.equals(other)
    }
}

impl PartialEqSpecImpl for MalAtom {
    open spec fn obeys_eq_spec() -> bool {
        true
    }

    open spec fn eq_spec(&self, other: &Self) -> bool {
        self@ == other@
    }
}

impl PartialEq for MalVal {
    fn eq(&self, other: &Self) -> (same: bool) {
        self.equals(other)
    }
}

impl PartialEqSpecImpl for MalVal {
    open spec fn obeys_eq_spec() -> bool {
        true
    }

    open spec fn eq_spec(&self, other: &Self) -> bool {
        self@ == other@
    }
}

impl PartialEq for MalFn {
    fn eq(&self, other: &Self) -> (same: bool) {
        self.env.index() == other.env.index() && same_names(&self.binds, &other.binds)
            && self.body.equals(&other.body)
    }
}

impl PartialEqSpecImpl for MalFn {
    open spec fn obeys_eq_spec() -> bool {
        true
    }

    open spec fn eq_spec(&self, other: &Self) -> bool {
        self@ == other@
    }
}

impl Clone for MalVal {
    fn clone(&self) -> (r: Self)
        ensures
            r@ == self@,
    {
        self.duplicate()
    }
}

impl Clone for MalFn {
    fn clone(&self) -> (r: Self)
        ensures
            r@ == self@,
    {
        MalFn { env: self.env, body: self.body.duplicate(), binds: clone_names(&self.binds) }
    }
}

} // verus!
