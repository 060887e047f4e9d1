//! The values that a program computes.

use vstd::prelude::*;
use crate::frontend::ast::{clone_stmts, clone_strings, stmt_views, string_views, Stmt, StmtView};
use crate::runtime::environment::{clone_environment, Environment, EnvironmentView};
use crate::runtime::number::{equal, Number};

verus! {

/// A value.
#[derive(Debug)]
pub enum RuntimeVal {
    Null,
    Bool(bool),
    /// A whole number; only native functions make these.
    Integer(i64),
    Number(Number),
    String(String),
    /// The entries of an object, in the order in which they were written.
    Object(Vec<(String, RuntimeVal)>),
    Array(Vec<RuntimeVal>),
    NativeFunction(NativeFunction),
    Function(Function),
}

/// The handle of a function that the host provides. The library never
/// looks behind it: to call the function it hands `id` to the host.
#[derive(Clone, Copy, Debug, PartialEq, Eq, Structural)]
pub struct NativeFunction {
    pub id: u64,
}

/// A function of the program: its parameters, its body, and a copy of the
/// scopes in which it was declared, as they were then.
#[derive(Debug)]
pub struct Function {
    pub parameters: Vec<String>,
    pub declaration_env: Box<Environment>,
    pub body: Vec<Stmt>,
}

/// A value as the contracts see it.
pub enum ValueView {
    Null,
    Bool(bool),
    Integer(i64),
    /// A number, as its bits.
    Number(u64),
    Text(Seq<char>),
    Object(Seq<(Seq<char>, ValueView)>),
    Array(Seq<ValueView>),
    NativeFunction(u64),
    Function { parameters: Seq<Seq<char>>, declaration_env: Box<EnvironmentView>, body: Seq<StmtView> },
}

/// The views of a list of values.
pub open spec fn value_views(values: Vec<RuntimeVal>) -> Seq<ValueView>
    decreases values,
{
    Seq::new(
        values.len() as nat,
        |i: int|
            if 0 <= i < values.len() {
                values[i].view()
            } else {
                arbitrary()
            },
    )
}

/// The views of a list of named values.
pub open spec fn binding_views(bindings: Vec<(String, RuntimeVal)>) -> Seq<(Seq<char>, ValueView)>
    decreases bindings,
{
    Seq::new(
        bindings.len() as nat,
        |i: int|
            if 0 <= i < bindings.len() {
                (bindings[i].0@, bindings[i].1.view())
            } else {
                arbitrary()
            },
    )
}

impl RuntimeVal {
    pub open spec fn view(&self) -> ValueView
        decreases self,
    {
        match self {
            RuntimeVal::Null => ValueView::Null,
            RuntimeVal::Bool(b) => ValueView::Bool(*b),
            RuntimeVal::Integer(i) => ValueView::Integer(*i),
            RuntimeVal::Number(n) => ValueView::Number(n.bits),
            RuntimeVal::String(s) => ValueView::Text(s@),
            RuntimeVal::Object(entries) => ValueView::Object(binding_views(*entries)),
            RuntimeVal::Array(elements) => ValueView::Array(value_views(*elements)),
            RuntimeVal::NativeFunction(f) => ValueView::NativeFunction(f.id),
            RuntimeVal::Function(f) => ValueView::Function {
                parameters: string_views(f.parameters@),
                declaration_env: Box::new(f.declaration_env.view()),
                body: stmt_views(f.body),
            },
        }
    }
}

/// Whether a value counts as true where a loop asks: `tyhjä`, `epätosi`,
/// zero, the empty string and the empty array do not, all else does.
pub open spec fn truthy(value: ValueView) -> bool {
    match value {
        ValueView::Null => false,
        ValueView::Bool(b) => b,
        ValueView::Integer(i) => i != 0,
        ValueView::Number(bits) => !equal(bits, 0),
        ValueView::Text(s) => s.len() != 0,
        ValueView::Object(_) => true,
        ValueView::Array(a) => a.len() != 0,
        ValueView::NativeFunction(_) => true,
        ValueView::Function { .. } => true,
    }
}

impl RuntimeVal {
    pub fn is_truthy(&self) -> (result: bool)
        ensures
            result == truthy(self@),
    {
        match self {
            RuntimeVal::Null => false,
            RuntimeVal::Bool(b) => *b,
            RuntimeVal::Integer(i) => *i != 0,
            RuntimeVal::Number(n) => !n.equals(&Number { bits: 0 }),
            RuntimeVal::String(s) => !s.as_str().is_empty(),
            RuntimeVal::Object(_) => true,
            RuntimeVal::Array(a) => a.len() != 0,
            RuntimeVal::NativeFunction(_) => true,
            RuntimeVal::Function(_) => true,
        }
    }

    pub fn as_bool(&self) -> (result: Option<bool>)
        ensures
            result == match self@ {
                ValueView::Bool(b) => Some(b),
                _ => None,
            },
    {
        match self {
            RuntimeVal::Bool(b) => Some(*b),
            _ => None,
        }
    }
}

/// A copy of a list of values.
pub fn clone_values(values: &Vec<RuntimeVal>) -> (copy: Vec<RuntimeVal>)
    ensures
        value_views(copy) == value_views(*values),
    decreases values,
{
    let mut copy: Vec<RuntimeVal> = Vec::new();
    let mut i: usize = 0;
    while i < values.len()
        invariant
            i <= values.len(),
            copy.len() == i,
            forall|k: int| 0 <= k < i ==> (#[trigger] copy[k])@ == values[k]@,
        decreases values.len() - i,
    {
        copy.push(clone_value(&values[i]));
        i += 1;
    }
    assert(value_views(copy) =~= value_views(*values));
    copy
}

/// A copy of a list of named values.
pub fn clone_bindings(bindings: &Vec<(String, RuntimeVal)>) -> (copy: Vec<(String, RuntimeVal)>)
    ensures
        binding_views(copy) == binding_views(*bindings),
    decreases bindings,
{
    let mut copy: Vec<(String, RuntimeVal)> = Vec::new();
    let mut i: usize = 0;
    while i < bindings.len()
        invariant
            i <= bindings.len(),
            copy.len() == i,
            forall|k: int|
                0 <= k < i ==> (#[trigger] copy[k]).0@ == bindings[k].0@ && copy[k].1@
                    == bindings[k].1@,
        decreases bindings.len() - i,
    {
        let binding = &bindings[i];
        copy.push((binding.0.clone(), clone_value(&binding.1)));
        i += 1;
    }
    assert(binding_views(copy) =~= binding_views(*bindings));
    copy
}

/// A copy of a value.
pub fn clone_value(value: &RuntimeVal) -> (copy: RuntimeVal)
    ensures
        copy@ == value@,
    decreases value,
{
    match value {
        RuntimeVal::Null => RuntimeVal::Null,
        RuntimeVal::Bool(b) => RuntimeVal::Bool(*b),
        RuntimeVal::Integer(i) => RuntimeVal::Integer(*i),
        RuntimeVal::Number(n) => RuntimeVal::Number(*n),
        RuntimeVal::String(s) => RuntimeVal::String(s.clone()),
        RuntimeVal::Object(entries) => RuntimeVal::Object(clone_bindings(entries)),
        RuntimeVal::Array(elements) => RuntimeVal::Array(clone_values(elements)),
        RuntimeVal::NativeFunction(f) => RuntimeVal::NativeFunction(*f),
        RuntimeVal::Function(f) => RuntimeVal::Function(
            Function {
                parameters: clone_strings(&f.parameters),
                declaration_env: Box::new(clone_environment(&f.declaration_env)),
                body: clone_stmts(&f.body),
            },
        ),
    }
}

pub fn MK_BOOL(value: bool) -> (made: RuntimeVal)
    ensures
        made@ == ValueView::Bool(value),
{
    RuntimeVal::Bool(value)
}

pub fn MK_NULL() -> (made: RuntimeVal)
    ensures
        made@ == ValueView::Null,
{
    RuntimeVal::Null
}

pub fn MK_INTEGER(value: i64) -> (made: RuntimeVal)
    ensures
        made@ == ValueView::Integer(value),
{
    RuntimeVal::Integer(value)
}

pub fn MK_NUMBER(value: Number) -> (made: RuntimeVal)
    ensures
        made@ == ValueView::Number(value.bits),
{
    RuntimeVal::Number(value)
}

pub fn MK_OBJECT(properties: Vec<(String, RuntimeVal)>) -> (made: RuntimeVal)
    ensures
        made@ == ValueView::Object(binding_views(properties)),
{
    RuntimeVal::Object(properties)
}

pub fn MK_NATIVE_FN(id: u64) -> (made: RuntimeVal)
    ensures
        made@ == ValueView::NativeFunction(id),
{
    RuntimeVal::NativeFunction(NativeFunction { id })
}

pub fn MK_STRING(value: String) -> (made: RuntimeVal)
    ensures
        made@ == ValueView::Text(value@),
{
    RuntimeVal::String(value)
}

pub fn MK_ARRAY(elements: Vec<RuntimeVal>) -> (made: RuntimeVal)
    ensures
        made@ == ValueView::Array(value_views(elements)),
{
    RuntimeVal::Array(elements)
}


impl Clone for RuntimeVal {
    fn clone(&self) -> (copy: Self)
        ensures
            copy@ == self@,
    {
        clone_value(self)
    }
}

} // verus!
