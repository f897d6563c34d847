//! The runtime data: values, predicates, type definitions, methods and
//! dispatch trees, each with its mathematical content.

use vstd::prelude::*;
use crate::error::Error;
use crate::instructions::{Instruction, InstructionView};
use crate::number::{Number, NumberView};
use crate::string::{copy_texts, same_texts};

verus! {

broadcast use vstd::std_specs::vec::axiom_vec_index_decreases;

/// The routines that the machine itself provides: the tests of the
/// standard types, the two returns, and the operators, unary (`U…`) and
/// binary (`B…`).
#[derive(Debug, Clone, Copy, PartialEq, Eq, Structural)]
pub enum Builtin {
    TypeAny,
    TypeNone,
    TypeSome,
    TypeBoolean,
    TypeNumber,
    TypeInteger,
    TypeString,
    TypeRange,
    /// `return` without a value.
    ReturnNone,
    /// `return` with a value.
    ReturnAny,
    /// `+x`: the distance of `x` from zero.
    UAdd,
    /// `x + y`
    BAdd,
    /// `-x`
    USub,
    /// `x - y`
    BSub,
    /// `x * y`
    BMul,
    /// `x / y`
    BDiv,
    /// `x ^ y`
    BExp,
    /// `x % y`
    BMdl,
    /// `x = y`
    BEql,
    /// `x != y`
    BNql,
    /// `x < y`
    BLtn,
    /// `x > y`
    BGtn,
    /// `x <= y`
    BLql,
    /// `x >= y`
    BGql,
    /// `x in y`, for strings.
    BSbsString,
    /// `x in y`, for a number and a range.
    BSbsRange,
    /// `not x`
    ULnt,
    /// `x and y`
    BLnd,
    /// `x or y`
    BLor,
    /// `x xor y`
    BLxr,
}

/// A range of rationals: from `start` to `end` in steps of `step`.
#[derive(Debug)]
pub struct Range {
    pub start: Number,
    pub end: Number,
    pub step: Number,
}

/// The mathematical content of a [`Range`].
pub ghost struct RangeView {
    pub start: NumberView,
    pub end: NumberView,
    pub step: NumberView,
}

/// A concrete datum.
#[derive(Debug)]
pub enum Value {
    Boolean(bool),
    Number(Number),
    String(String),
    Range(Range),
    List(Vec<Value>),
    Record(Vec<(Value, Value)>),
    Function(Box<FuncDef>),
    Type(Box<TypeDef>),
    Nothing,
    Failure(Error),
}

/// A named test on a value; a component of a type.
#[derive(Debug)]
pub enum Predicate {
    /// A built-in check that captures nothing.
    Base { routine: Builtin, name: String },
    /// A built-in test with captured arguments.
    Std {
        routine: Builtin,
        name: String,
        signature: Vec<TypeDef>,
        arity: usize,
        closure: Vec<(String, Value)>,
    },
    /// A test that the user defined.
    User {
        instructions: Vec<Instruction>,
        name: String,
        params: Vec<String>,
        last: TypeDef,
        signature: Vec<TypeDef>,
        arity: usize,
        closure: Vec<(String, Value)>,
    },
}

/// A structural type: an ordered list of predicates and a prototype value.
#[derive(Debug)]
pub struct TypeDef {
    pub types: Vec<Predicate>,
    pub prototype: Value,
}

/// What a method runs.
#[derive(Debug)]
pub enum Routine {
    Std(Builtin),
    User(Vec<Instruction>),
}

/// One arm of a multimethod.
#[derive(Debug)]
pub struct Method {
    pub routine: Routine,
    pub name: String,
    pub params: Vec<String>,
    pub last: TypeDef,
    pub signature: Vec<TypeDef>,
    pub arity: usize,
    pub closure: Vec<(String, Value)>,
}

/// A multimethod: a binary decision tree over the types of the arguments.
#[derive(Debug)]
pub enum FuncDef {
    /// If the signature has an argument at `index` whose type holds
    /// `property`, go down `truepath`, else `falsepath`.
    Node { truepath: Box<FuncDef>, falsepath: Box<FuncDef>, property: Predicate, index: usize },
    /// A method.
    Leaf(Method),
    /// Nothing: dispatch fails here.
    Undefined,
}

/// The three shapes of a predicate.
pub ghost enum Shape {
    Base,
    Std,
    User,
}

/// What identifies a predicate in the lattice: its shape and its name.
pub ghost struct PredicateView {
    pub shape: Shape,
    pub name: Seq<char>,
}

/// The mathematical content of a [`Value`].
pub ghost enum ValueView {
    Boolean(bool),
    Number(NumberView),
    String(Seq<char>),
    Range(RangeView),
    List(Seq<ValueView>),
    Record(Seq<(ValueView, ValueView)>),
    Function(Box<FuncView>),
    Type(Box<TypeView>),
    Nothing,
    Failure(Error),
}

/// The mathematical content of a [`TypeDef`].
pub ghost struct TypeView {
    pub types: Seq<PredicateView>,
    pub prototype: ValueView,
}

/// The mathematical content of a [`Routine`].
pub ghost enum RoutineView {
    Std(Builtin),
    User(Seq<InstructionView>),
}

/// The mathematical content of a [`Method`].
pub ghost struct MethodView {
    pub routine: RoutineView,
    pub name: Seq<char>,
    pub params: Seq<Seq<char>>,
    pub last: TypeView,
    pub signature: Seq<TypeView>,
    pub arity: nat,
    pub closure: Seq<(Seq<char>, ValueView)>,
}

/// The mathematical content of a [`FuncDef`].
pub ghost enum FuncView {
    Node { truepath: Box<FuncView>, falsepath: Box<FuncView>, property: PredicateView, index: nat },
    Leaf(MethodView),
    Undefined,
}

impl View for Range {
    type V = RangeView;

    open spec fn view(&self) -> RangeView {
        RangeView { start: self.start@, end: self.end@, step: self.step@ }
    }
}

impl View for Predicate {
    type V = PredicateView;

    open spec fn view(&self) -> PredicateView {
        match self {
            Predicate::Base { name, .. } => PredicateView { shape: Shape::Base, name: name@ },
            Predicate::Std { name, .. } => PredicateView { shape: Shape::Std, name: name@ },
            Predicate::User { name, .. } => PredicateView { shape: Shape::User, name: name@ },
        }
    }
}

impl DeepView for Predicate {
    type V = PredicateView;

    open spec fn deep_view(&self) -> PredicateView {
        self@
    }
}

/// The content of a value.
pub open spec fn value_view(value: Value) -> ValueView
    decreases value,
{
    match value {
        Value::Boolean(x) => ValueView::Boolean(x),
        Value::Number(x) => ValueView::Number(x@),
        Value::String(x) => ValueView::String(x@),
        Value::Range(x) => ValueView::Range(x@),
        Value::List(items) => ValueView::List(
            Seq::new(
                items.len() as nat,
                |i: int|
                    if 0 <= i < items.len() {
                        value_view(items[i])
                    } else {
                        ValueView::Nothing
                    },
            ),
        ),
        Value::Record(pairs) => ValueView::Record(
            Seq::new(
                pairs.len() as nat,
                |i: int|
                    if 0 <= i < pairs.len() {
                        (value_view(pairs[i].0), value_view(pairs[i].1))
                    } else {
                        (ValueView::Nothing, ValueView::Nothing)
                    },
            ),
        ),
        Value::Function(f) => ValueView::Function(Box::new(func_view(*f))),
        Value::Type(t) => ValueView::Type(Box::new(type_view(*t))),
        Value::Nothing => ValueView::Nothing,
        Value::Failure(kind) => ValueView::Failure(kind),
    }
}

/// The content of a type definition.
pub open spec fn type_view(typedef: TypeDef) -> TypeView
    decreases typedef,
{
    TypeView { types: typedef.types.deep_view(), prototype: value_view(typedef.prototype) }
}

/// The content of a list of type definitions.
pub open spec fn types_view(types: Vec<TypeDef>) -> Seq<TypeView>
    decreases types,
{
    Seq::new(
        types.len() as nat,
        |i: int|
            if 0 <= i < types.len() {
                type_view(types[i])
            } else {
                no_type()
            },
    )
}

/// The content of a namespace captured by a method.
pub open spec fn closure_view(closure: Vec<(String, Value)>) -> Seq<(Seq<char>, ValueView)>
    decreases closure,
{
    Seq::new(
        closure.len() as nat,
        |i: int|
            if 0 <= i < closure.len() {
                (closure[i].0@, value_view(closure[i].1))
            } else {
                (Seq::empty(), ValueView::Nothing)
            },
    )
}

/// The content of a method.
pub open spec fn method_view(method: Method) -> MethodView
    decreases method,
{
    MethodView {
        routine: match method.routine {
            Routine::Std(b) => RoutineView::Std(b),
            Routine::User(body) => RoutineView::User(body.deep_view()),
        },
        name: method.name@,
        params: method.params.deep_view(),
        last: type_view(method.last),
        signature: types_view(method.signature),
        arity: method.arity as nat,
        closure: closure_view(method.closure),
    }
}

/// The content of a dispatch tree.
pub open spec fn func_view(func: FuncDef) -> FuncView
    decreases func,
{
    match func {
        FuncDef::Node { truepath, falsepath, property, index } => FuncView::Node {
            truepath: Box::new(func_view(*truepath)),
            falsepath: Box::new(func_view(*falsepath)),
            property: property@,
            index: index as nat,
        },
        FuncDef::Leaf(method) => FuncView::Leaf(method_view(method)),
        FuncDef::Undefined => FuncView::Undefined,
    }
}

impl View for Value {
    type V = ValueView;

    open spec fn view(&self) -> ValueView {
        value_view(*self)
    }
}

impl View for TypeDef {
    type V = TypeView;

    open spec fn view(&self) -> TypeView {
        type_view(*self)
    }
}

impl View for Method {
    type V = MethodView;

    open spec fn view(&self) -> MethodView {
        method_view(*self)
    }
}

impl View for FuncDef {
    type V = FuncView;

    open spec fn view(&self) -> FuncView {
        func_view(*self)
    }
}

/// The default content for an index out of range.
pub open spec fn no_type() -> TypeView {
    TypeView { types: Seq::empty(), prototype: ValueView::Nothing }
}

/// A fresh copy of a list of instructions.
pub fn copy_instructions(body: &Vec<Instruction>) -> (out: Vec<Instruction>)
    ensures
        out.deep_view() == body.deep_view(),
{
    let mut out: Vec<Instruction> = Vec::new();
    let mut at: usize = 0;
    while at < body.len()
        invariant
            at <= body.len(),
            out.len() == at,
            forall|i: int| 0 <= i < at ==> out[i]@ == body[i]@,
        decreases body.len() - at,
    {
        out.push(body[at].clone());
        at += 1;
    }
    assert(out.deep_view() =~= body.deep_view());
    out
}

/// A fresh copy of a value.
#[verifier::loop_isolation(false)]
pub fn copy_value(value: &Value) -> (out: Value)
    ensures
        out@ == value@,
    decreases value,
{
    match value {
        Value::Boolean(x) => Value::Boolean(*x),
        Value::Number(x) => Value::Number(x.clone()),
        Value::String(x) => Value::String(x.clone()),
        Value::Range(x) => Value::Range(
            Range { start: x.start.clone(), end: x.end.clone(), step: x.step.clone() },
        ),
        Value::List(items) => {
            let mut out: Vec<Value> = Vec::new();
            let mut at: usize = 0;
            while at < items.len()
                invariant
                    at <= items.len(),
                    out.len() == at,
                    forall|i: int| 0 <= i < at ==> out[i]@ == items[i]@,
                decreases items.len() - at,
            {
                out.push(copy_value(&items[at]));
                at += 1;
            }
            assert(Value::List(out)@ =~= value@) by {
                assert(Value::List(out)@->List_0 =~= value@->List_0);
            }
            Value::List(out)
        },
        Value::Record(pairs) => {
            let mut out: Vec<(Value, Value)> = Vec::new();
            let mut at: usize = 0;
            while at < pairs.len()
                invariant
                    at <= pairs.len(),
                    out.len() == at,
                    forall|i: int|
                        0 <= i < at ==> out[i].0@ == pairs[i].0@ && out[i].1@ == pairs[i].1@,
                decreases pairs.len() - at,
            {
                let key = copy_value(&pairs[at].0);
                let item = copy_value(&pairs[at].1);
                out.push((key, item));
                at += 1;
            }
            assert(Value::Record(out)@ =~= value@) by {
                assert(Value::Record(out)@->Record_0 =~= value@->Record_0);
            }
            Value::Record(out)
        },
        Value::Function(f) => Value::Function(Box::new(copy_func(&**f))),
        Value::Type(t) => Value::Type(Box::new(copy_type(&**t))),
        Value::Nothing => Value::Nothing,
        Value::Failure(kind) => Value::Failure(*kind),
    }
}

/// A fresh copy of a captured namespace.
#[verifier::loop_isolation(false)]
pub fn copy_closure(closure: &Vec<(String, Value)>) -> (out: Vec<(String, Value)>)
    ensures
        closure_view(out) == closure_view(*closure),
    decreases closure,
{
    let mut out: Vec<(String, Value)> = Vec::new();
    let mut at: usize = 0;
    while at < closure.len()
        invariant
            at <= closure.len(),
            out.len() == at,
            forall|i: int| 0 <= i < at ==> out[i].0@ == closure[i].0@ && out[i].1@ == closure[i].1@,
        decreases closure.len() - at,
    {
        let item = copy_value(&closure[at].1);
        out.push((closure[at].0.clone(), item));
        at += 1;
    }
    assert(closure_view(out) =~= closure_view(*closure));
    out
}

/// A fresh copy of a predicate.
pub fn copy_predicate(predicate: &Predicate) -> (out: Predicate)
    ensures
        out@ == predicate@,
    decreases predicate,
{
    match predicate {
        Predicate::Base { routine, name } => Predicate::Base {
            routine: *routine,
            name: name.clone(),
        },
        Predicate::Std { routine, name, signature, arity, closure } => Predicate::Std {
            routine: *routine,
            name: name.clone(),
            signature: copy_types(signature),
            arity: *arity,
            closure: copy_closure(closure),
        },
        Predicate::User {
            instructions,
            name,
            params,
            last,
            signature,
            arity,
            closure,
        } => Predicate::User {
            instructions: copy_instructions(instructions),
            name: name.clone(),
            params: copy_texts(params),
            last: copy_type(last),
            signature: copy_types(signature),
            arity: *arity,
            closure: copy_closure(closure),
        },
    }
}

/// A fresh copy of a list of predicates.
#[verifier::loop_isolation(false)]
pub fn copy_predicates(predicates: &Vec<Predicate>) -> (out: Vec<Predicate>)
    ensures
        out.deep_view() == predicates.deep_view(),
    decreases predicates,
{
    let mut out: Vec<Predicate> = Vec::new();
    let mut at: usize = 0;
    while at < predicates.len()
        invariant
            at <= predicates.len(),
            out.len() == at,
            forall|i: int| 0 <= i < at ==> out[i]@ == predicates[i]@,
        decreases predicates.len() - at,
    {
        out.push(copy_predicate(&predicates[at]));
        at += 1;
    }
    assert(out.deep_view() =~= predicates.deep_view());
    out
}

/// A fresh copy of a type definition.
pub fn copy_type(typedef: &TypeDef) -> (out: TypeDef)
    ensures
        out@ == typedef@,
    decreases typedef,
{
    TypeDef { types: copy_predicates(&typedef.types), prototype: copy_value(&typedef.prototype) }
}

/// A fresh copy of a list of type definitions.
#[verifier::loop_isolation(false)]
pub fn copy_types(types: &Vec<TypeDef>) -> (out: Vec<TypeDef>)
    ensures
        types_view(out) == types_view(*types),
    decreases types,
{
    let mut out: Vec<TypeDef> = Vec::new();
    let mut at: usize = 0;
    while at < types.len()
        invariant
            at <= types.len(),
            out.len() == at,
            forall|i: int| 0 <= i < at ==> out[i]@ == types[i]@,
        decreases types.len() - at,
    {
        out.push(copy_type(&types[at]));
        at += 1;
    }
    assert(types_view(out) =~= types_view(*types));
    out
}

/// A fresh copy of a method.
pub fn copy_method(method: &Method) -> (out: Method)
    ensures
        out@ == method@,
    decreases method,
{
    Method {
        routine: match &method.routine {
            Routine::Std(b) => Routine::Std(*b),
            Routine::User(body) => Routine::User(copy_instructions(body)),
        },
        name: method.name.clone(),
        params: copy_texts(&method.params),
        last: copy_type(&method.last),
        signature: copy_types(&method.signature),
        arity: method.arity,
        closure: copy_closure(&method.closure),
    }
}

/// A fresh copy of a dispatch tree.
pub fn copy_func(func: &FuncDef) -> (out: FuncDef)
    ensures
        out@ == func@,
    decreases func,
{
    match func {
        FuncDef::Node { truepath, falsepath, property, index } => FuncDef::Node {
            truepath: Box::new(copy_func(&**truepath)),
            falsepath: Box::new(copy_func(&**falsepath)),
            property: copy_predicate(property),
            index: *index,
        },
        FuncDef::Leaf(method) => FuncDef::Leaf(copy_method(method)),
        FuncDef::Undefined => FuncDef::Undefined,
    }
}

impl Clone for Value {
    fn clone(&self) -> (out: Self)
        ensures
            out@ == self@,
    {
        copy_value(self)
    }
}

impl Clone for Predicate {
    fn clone(&self) -> (out: Self)
        ensures
            out@ == self@,
    {
        copy_predicate(self)
    }
}

impl Clone for TypeDef {
    fn clone(&self) -> (out: Self)
        ensures
            out@ == self@,
    {
        copy_type(self)
    }
}

impl Clone for Method {
    fn clone(&self) -> (out: Self)
        ensures
            out@ == self@,
    {
        copy_method(self)
    }
}

impl Clone for FuncDef {
    fn clone(&self) -> (out: Self)
        ensures
            out@ == self@,
    {
        copy_func(self)
    }
}

impl Clone for Range {
    fn clone(&self) -> (out: Self)
        ensures
            out@ == self@,
    {
        Range { start: self.start.clone(), end: self.end.clone(), step: self.step.clone() }
    }
}

/// Whether two lists of instructions are the same.
pub fn same_instructions(left: &Vec<Instruction>, right: &Vec<Instruction>) -> (same: bool)
    ensures
        same == (left.deep_view() == right.deep_view()),
{
    if left.len() != right.len() {
        assert(left.deep_view().len() != right.deep_view().len());
        return false;
    }
    let mut at: usize = 0;
    while at < left.len()
        invariant
            at <= left.len(),
            left.len() == right.len(),
            forall|i: int| 0 <= i < at ==> left[i]@ == right[i]@,
        decreases left.len() - at,
    {
        if !left[at].equals(&right[at]) {
            assert(left.deep_view()[at as int] != right.deep_view()[at as int]);
            return false;
        }
        at += 1;
    }
    assert(left.deep_view() =~= right.deep_view());
    true
}

/// Whether two predicates are the same: the same shape under the same name.
pub fn same_predicate(left: &Predicate, right: &Predicate) -> (same: bool)
    ensures
        same == (left@ == right@),
{
    match (left, right) {
        (Predicate::Base { name, .. }, Predicate::Base { name: name2, .. }) => *name == *name2,
        (Predicate::Std { name, .. }, Predicate::Std { name: name2, .. }) => *name == *name2,
        (Predicate::User { name, .. }, Predicate::User { name: name2, .. }) => *name == *name2,
        _ => false,
    }
}

/// Whether two lists of predicates are the same.
pub fn same_predicates(left: &Vec<Predicate>, right: &Vec<Predicate>) -> (same: bool)
    ensures
        same == (left.deep_view() == right.deep_view()),
{
    if left.len() != right.len() {
        assert(left.deep_view().len() != right.deep_view().len());
        return false;
    }
    let mut at: usize = 0;
    while at < left.len()
        invariant
            at <= left.len(),
            left.len() == right.len(),
            forall|i: int| 0 <= i < at ==> left[i]@ == right[i]@,
        decreases left.len() - at,
    {
        if !same_predicate(&left[at], &right[at]) {
            assert(left.deep_view()[at as int] != right.deep_view()[at as int]);
            return false;
        }
        at += 1;
    }
    assert(left.deep_view() =~= right.deep_view());
    true
}

/// Whether two ranges are the same.
pub fn same_range(left: &Range, right: &Range) -> (same: bool)
    ensures
        same == (left@ == right@),
{
    left.start.equals(&right.start) && left.end.equals(&right.end) && left.step.equals(
        &right.step,
    )
}

/// Whether two values are the same, structurally.
#[verifier::loop_isolation(false)]
pub fn same_value(left: &Value, right: &Value) -> (same: bool)
    ensures
        same == (left@ == right@),
    decreases left,
{
    match (left, right) {
        (Value::Boolean(x), Value::Boolean(y)) => *x == *y,
        (Value::Number(x), Value::Number(y)) => x.equals(y),
        (Value::String(x), Value::String(y)) => *x == *y,
        (Value::Range(x), Value::Range(y)) => same_range(x, y),
        (Value::List(xs), Value::List(ys)) => {
            if xs.len() != ys.len() {
                assert(left@->List_0.len() != right@->List_0.len());
                return false;
            }
            let mut at: usize = 0;
            while at < xs.len()
                invariant
                    at <= xs.len(),
                    xs.len() == ys.len(),
                    forall|i: int| 0 <= i < at ==> xs[i]@ == ys[i]@,
                decreases xs.len() - at,
            {
                if !same_value(&xs[at], &ys[at]) {
                    assert(left@->List_0[at as int] != right@->List_0[at as int]);
                    return false;
                }
                at += 1;
            }
            assert(left@->List_0 =~= right@->List_0);
            true
        },
        (Value::Record(xs), Value::Record(ys)) => {
            if xs.len() != ys.len() {
                assert(left@->Record_0.len() != right@->Record_0.len());
                return false;
            }
            let mut at: usize = 0;
            while at < xs.len()
                invariant
                    at <= xs.len(),
                    xs.len() == ys.len(),
                    forall|i: int|
                        0 <= i < at ==> xs[i].0@ == ys[i].0@ && xs[i].1@ == ys[i].1@,
                decreases xs.len() - at,
            {
                if !same_value(&xs[at].0, &ys[at].0) || !same_value(&xs[at].1, &ys[at].1) {
                    assert(left@->Record_0[at as int] != right@->Record_0[at as int]);
                    return false;
                }
                at += 1;
            }
            assert(left@->Record_0 =~= right@->Record_0);
            true
        },
        (Value::Function(f), Value::Function(g)) => same_func(&**f, &**g),
        (Value::Type(t), Value::Type(u)) => same_type(&**t, &**u),
        (Value::Nothing, Value::Nothing) => true,
        (Value::Failure(x), Value::Failure(y)) => *x == *y,
        _ => false,
    }
}

/// Whether two captured namespaces are the same.
#[verifier::loop_isolation(false)]
pub fn same_closure(left: &Vec<(String, Value)>, right: &Vec<(String, Value)>) -> (same: bool)
    ensures
        same == (closure_view(*left) == closure_view(*right)),
    decreases left,
{
    if left.len() != right.len() {
        assert(closure_view(*left).len() != closure_view(*right).len());
        return false;
    }
    let mut at: usize = 0;
    while at < left.len()
        invariant
            at <= left.len(),
            left.len() == right.len(),
            forall|i: int| 0 <= i < at ==> left[i].0@ == right[i].0@ && left[i].1@ == right[i].1@,
        decreases left.len() - at,
    {
        if left[at].0 != right[at].0 || !same_value(&left[at].1, &right[at].1) {
            assert(closure_view(*left)[at as int] != closure_view(*right)[at as int]);
            return false;
        }
        at += 1;
    }
    assert(closure_view(*left) =~= closure_view(*right));
    true
}

/// Whether two type definitions are the same: the same predicates in the
/// same order, and the same prototype.
pub fn same_type(left: &TypeDef, right: &TypeDef) -> (same: bool)
    ensures
        same == (left@ == right@),
    decreases left,
{
    same_predicates(&left.types, &right.types) && same_value(&left.prototype, &right.prototype)
}

/// Whether two lists of type definitions are the same.
#[verifier::loop_isolation(false)]
pub fn same_types(left: &Vec<TypeDef>, right: &Vec<TypeDef>) -> (same: bool)
    ensures
        same == (types_view(*left) == types_view(*right)),
    decreases left,
{
    if left.len() != right.len() {
        assert(types_view(*left).len() != types_view(*right).len());
        return false;
    }
    let mut at: usize = 0;
    while at < left.len()
        invariant
            at <= left.len(),
            left.len() == right.len(),
            forall|i: int| 0 <= i < at ==> left[i]@ == right[i]@,
        decreases left.len() - at,
    {
        if !same_type(&left[at], &right[at]) {
            assert(types_view(*left)[at as int] != types_view(*right)[at as int]);
            return false;
        }
        at += 1;
    }
    assert(types_view(*left) =~= types_view(*right));
    true
}

/// Whether two methods are the same.
pub fn same_method(left: &Method, right: &Method) -> (same: bool)
    ensures
        same == (left@ == right@),
    decreases left,
{
    let routines = match (&left.routine, &right.routine) {
        (Routine::Std(a), Routine::Std(b)) => *a == *b,
        (Routine::User(a), Routine::User(b)) => same_instructions(a, b),
        _ => false,
    };
    routines && left.name == right.name && same_texts(&left.params, &right.params) && same_type(
        &left.last,
        &right.last,
    ) && same_types(&left.signature, &right.signature) && left.arity == right.arity
        && same_closure(&left.closure, &right.closure)
}

/// Whether two dispatch trees are the same.
pub fn same_func(left: &FuncDef, right: &FuncDef) -> (same: bool)
    ensures
        same == (left@ == right@),
    decreases left,
{
    match (left, right) {
        (
            FuncDef::Node { truepath, falsepath, property, index },
            FuncDef::Node {
                truepath: truepath2,
                falsepath: falsepath2,
                property: property2,
                index: index2,
            },
        ) => same_func(&**truepath, &**truepath2) && same_func(&**falsepath, &**falsepath2)
            && same_predicate(property, property2) && *index == *index2,
        (FuncDef::Leaf(a), FuncDef::Leaf(b)) => same_method(a, b),
        (FuncDef::Undefined, FuncDef::Undefined) => true,
        _ => false,
    }
}

impl PartialEq for Value {
    fn eq(&self, other: &Self) -> (same: bool) {
        same_value(self, other)
    }
}

impl vstd::std_specs::cmp::PartialEqSpecImpl for Value {
    open spec fn obeys_eq_spec() -> bool {
        true
    }

    open spec fn eq_spec(&self, other: &Self) -> bool {
        self@ == other@
    }
}

impl PartialEq for TypeDef {
    fn eq(&self, other: &Self) -> (same: bool) {
        same_type(self, other)
    }
}

impl vstd::std_specs::cmp::PartialEqSpecImpl for TypeDef {
    open spec fn obeys_eq_spec() -> bool {
        true
    }

    open spec fn eq_spec(&self, other: &Self) -> bool {
        self@ == other@
    }
}

impl PartialEq for Predicate {
    fn eq(&self, other: &Self) -> (same: bool) {
        same_predicate(self, other)
    }
}

impl vstd::std_specs::cmp::PartialEqSpecImpl for Predicate {
    open spec fn obeys_eq_spec() -> bool {
        true
    }

    open spec fn eq_spec(&self, other: &Self) -> bool {
        self@ == other@
    }
}

impl PartialEq for FuncDef {
    fn eq(&self, other: &Self) -> (same: bool) {
        same_func(self, other)
    }
}

impl vstd::std_specs::cmp::PartialEqSpecImpl for FuncDef {
    open spec fn obeys_eq_spec() -> bool {
        true
    }

    open spec fn eq_spec(&self, other: &Self) -> bool {
        self@ == other@
    }
}

impl PartialEq for Method {
    fn eq(&self, other: &Self) -> (same: bool) {
        same_method(self, other)
    }
}

impl vstd::std_specs::cmp::PartialEqSpecImpl for Method {
    open spec fn obeys_eq_spec() -> bool {
        true
    }

    open spec fn eq_spec(&self, other: &Self) -> bool {
        self@ == other@
    }
}

impl DeepView for Value {
    type V = ValueView;

    open spec fn deep_view(&self) -> ValueView {
        self@
    }
}

impl DeepView for TypeDef {
    type V = TypeView;

    open spec fn deep_view(&self) -> TypeView {
        self@
    }
}

impl DeepView for Method {
    type V = MethodView;

    open spec fn deep_view(&self) -> MethodView {
        self@
    }
}

impl DeepView for FuncDef {
    type V = FuncView;

    open spec fn deep_view(&self) -> FuncView {
        self@
    }
}

impl DeepView for Range {
    type V = RangeView;

    open spec fn deep_view(&self) -> RangeView {
        self@
    }
}

impl PartialEq for Range {
    fn eq(&self, other: &Self) -> (same: bool) {
        same_range(self, other)
    }
}

impl vstd::std_specs::cmp::PartialEqSpecImpl for Range {
    open spec fn obeys_eq_spec() -> bool {
        true
    }

    open spec fn eq_spec(&self, other: &Self) -> bool {
        self@ == other@
    }
}

impl Value {
    /// Any value, as it is.
    pub fn new_any(x: Value) -> (out: Value)
        ensures
            out == x,
    {
        x
    }

    /// A boolean.
    pub fn new_boolean(x: bool) -> (out: Value)
        ensures
            out == Value::Boolean(x),
    {
        Value::Boolean(x)
    }

    /// A number.
    pub fn new_number(x: Number) -> (out: Value)
        ensures
            out == Value::Number(x),
    {
        Value::Number(x)
    }

    /// A string.
    pub fn new_string(x: String) -> (out: Value)
        ensures
            out == Value::String(x),
    {
        Value::String(x)
    }

    /// A range.
    pub fn new_range(x: Range) -> (out: Value)
        ensures
            out == Value::Range(x),
    {
        Value::Range(x)
    }

    /// A list.
    pub fn new_list(x: Vec<Value>) -> (out: Value)
        ensures
            out == Value::List(x),
    {
        Value::List(x)
    }

    /// A record: an ordered mapping from values to values.
    pub fn new_record(x: Vec<(Value, Value)>) -> (out: Value)
        ensures
            out == Value::Record(x),
    {
        Value::Record(x)
    }

    /// A function.
    pub fn new_function(x: FuncDef) -> (out: Value)
        ensures
            out == Value::Function(Box::new(x)),
    {
        Value::Function(Box::new(x))
    }

    /// A type.
    pub fn new_type(x: TypeDef) -> (out: Value)
        ensures
            out == Value::Type(Box::new(x)),
    {
        Value::Type(Box::new(x))
    }

    /// Nothing.
    pub fn new_none() -> (out: Value)
        ensures
            out == Value::Nothing,
    {
        Value::Nothing
    }
}

} // verus!
