//! Scopes: a chain of frames, each with its names, from the innermost out.

use vstd::prelude::*;
use crate::error::RuntimeError;
use crate::runtime::values::{
    binding_views, clone_bindings, clone_value, NativeFunction, RuntimeVal, ValueView,
};
use vstd::string::StringExecFns;
use crate::frontend::ast::clone_strings;
use crate::frontend::ast::string_views;

verus! {

/// A frame and, through `parent`, the frames around it.
#[derive(Debug)]
pub struct Environment {
    pub parent: Option<Box<Environment>>,
    /// The names declared in this frame with their values, oldest first.
    pub variables: Vec<(String, RuntimeVal)>,
    /// Those of the names that are constants.
    pub constants: Vec<String>,
}

/// A chain of frames as the contracts see it.
pub struct EnvironmentView {
    pub parent: Option<Box<EnvironmentView>>,
    pub variables: Seq<(Seq<char>, ValueView)>,
    pub constants: Seq<Seq<char>>,
}

impl Environment {
    pub open spec fn view(&self) -> EnvironmentView
        decreases self,
    {
        EnvironmentView {
            parent: match self.parent {
                Some(parent) => Some(Box::new(parent.view())),
                None => None,
            },
            variables: binding_views(self.variables),
            constants: string_views(self.constants@),
        }
    }
}

/// A copy of a chain of frames.
pub fn clone_environment(env: &Environment) -> (copy: Environment)
    ensures
        copy@ == env@,
    decreases env,
{
    let constants = clone_strings(&env.constants);
    Environment {
        parent: match &env.parent {
            Some(parent) => Some(Box::new(clone_environment(parent))),
            None => None,
        },
        variables: clone_bindings(&env.variables),
        constants,
    }
}


/// The index of the first of `variables`, from `from` on, that is named
/// `name`.
pub open spec fn binding_index(variables: Seq<(Seq<char>, ValueView)>, name: Seq<char>, from: int)
    -> Option<int>
    decreases variables.len() - from,
{
    if from < 0 || from >= variables.len() {
        None
    } else if variables[from].0 == name {
        Some(from)
    } else {
        binding_index(variables, name, from + 1)
    }
}

/// Whether the innermost frame of `env` declares `name`.
pub open spec fn declares(env: EnvironmentView, name: Seq<char>) -> bool {
    binding_index(env.variables, name, 0) is Some
}

/// The chain from the innermost frame on that declares `name`.
pub open spec fn resolved(env: EnvironmentView, name: Seq<char>) -> Result<
    EnvironmentView,
    RuntimeError,
>
    decreases env,
{
    if declares(env, name) {
        Ok(env)
    } else {
        match env.parent {
            Some(parent) => resolved(*parent, name),
            None => Err(RuntimeError::NotDeclared),
        }
    }
}

/// The value of `name`: that which the innermost frame that declares the
/// name gives it.
pub open spec fn looked_up(env: EnvironmentView, name: Seq<char>) -> Result<
    ValueView,
    RuntimeError,
>
    decreases env,
{
    match binding_index(env.variables, name, 0) {
        Some(i) => Ok(env.variables[i].1),
        None => match env.parent {
            Some(parent) => looked_up(*parent, name),
            None => Err(RuntimeError::NotDeclared),
        },
    }
}

/// `env` after `name` is given the value `value` in the innermost frame
/// that declares it. A name declared nowhere, or one that this frame holds
/// as a constant, is an error.
pub open spec fn assigned(env: EnvironmentView, name: Seq<char>, value: ValueView) -> Result<
    EnvironmentView,
    RuntimeError,
>
    decreases env,
{
    match binding_index(env.variables, name, 0) {
        Some(i) => if env.constants.contains(name) {
            Err(RuntimeError::AssignedConstant)
        } else {
            Ok(
                EnvironmentView {
                    parent: env.parent,
                    variables: env.variables.update(i, (env.variables[i].0, value)),
                    constants: env.constants,
                },
            )
        },
        None => match env.parent {
            Some(parent) => match assigned(*parent, name, value) {
                Ok(changed) => Ok(
                    EnvironmentView {
                        parent: Some(Box::new(changed)),
                        variables: env.variables,
                        constants: env.constants,
                    },
                ),
                Err(e) => Err(e),
            },
            None => Err(RuntimeError::NotDeclared),
        },
    }
}

/// `env` after `name` is declared in its innermost frame with the value
/// `value`. A name that this frame declares already is an error; one that
/// only an outer frame declares is shadowed.
pub open spec fn declared(env: EnvironmentView, name: Seq<char>, value: ValueView, constant: bool)
    -> Result<EnvironmentView, RuntimeError> {
    if declares(env, name) {
        Err(RuntimeError::AlreadyDeclared)
    } else {
        Ok(
            EnvironmentView {
                parent: env.parent,
                variables: env.variables.push((name, value)),
                constants: if constant {
                    env.constants.push(name)
                } else {
                    env.constants
                },
            },
        )
    }
}

/// A fresh frame inside `env`.
pub open spec fn entered(env: EnvironmentView) -> EnvironmentView {
    EnvironmentView { parent: Some(Box::new(env)), variables: Seq::empty(), constants: Seq::empty() }
}

/// The index of the first binding named `name`, from `from` on.
pub fn find_binding(variables: &Vec<(String, RuntimeVal)>, name: &str) -> (found: Option<usize>)
    ensures
        match found {
            Some(i) => binding_index(binding_views(*variables), name@, 0) == Some(i as int) && i
                < variables.len(),
            None => binding_index(binding_views(*variables), name@, 0) is None,
        },
{
    let ghost views = binding_views(*variables);
    let mut i: usize = 0;
    while i < variables.len()
        invariant
            i <= variables.len(),
            views == binding_views(*variables),
            binding_index(views, name@, 0) == binding_index(views, name@, i as int),
        decreases variables.len() - i,
    {
        assert(views[i as int].0 == variables[i as int].0@);
        if variables[i].0.as_str().eq(name) {
            return Some(i);
        }
        i += 1;
    }
    None
}

/// Whether `name` is among `names`.
pub fn contains_name(names: &Vec<String>, name: &str) -> (found: bool)
    ensures
        found == string_views(names@).contains(name@),
{
    let ghost views = string_views(names@);
    let mut i: usize = 0;
    while i < names.len()
        invariant
            i <= names.len(),
            views == string_views(names@),
            forall|k: int| 0 <= k < i ==> views[k] != name@,
        decreases names.len() - i,
    {
        assert(views[i as int] == names[i as int]@);
        if names[i].as_str().eq(name) {
            return true;
        }
        i += 1;
    }
    false
}

impl Environment {
    pub fn new(parent_env: Option<Box<Environment>>) -> (env: Self)
        ensures
            env@ == (EnvironmentView {
                parent: match parent_env {
                    Some(parent) => Some(Box::new(parent@)),
                    None => None,
                },
                variables: Seq::empty(),
                constants: Seq::empty(),
            }),
    {
        let env = Self { parent: parent_env, variables: Vec::new(), constants: Vec::new() };
        assert(binding_views(env.variables) =~= Seq::empty());
        assert(string_views(env.constants@) =~= Seq::empty());
        env
    }

    /// Declares `varname` in the innermost frame and returns the value.
    pub fn declare_var(&mut self, varname: String, value: RuntimeVal, constant: bool) -> (r: Result<
        RuntimeVal,
        RuntimeError,
    >)
        ensures
            match r {
                Ok(v) => declared(old(self)@, varname@, value@, constant) == Ok::<
                    EnvironmentView,
                    RuntimeError,
                >(final(self)@) && v@ == value@,
                Err(e) => declared(old(self)@, varname@, value@, constant) == Err::<
                    EnvironmentView,
                    RuntimeError,
                >(e) && final(self)@ == old(self)@,
            },
    {
        if find_binding(&self.variables, varname.as_str()).is_some() {
            return Err(RuntimeError::AlreadyDeclared);
        }
        let result = clone_value(&value);
        let ghost variables = binding_views(self.variables);
        let ghost constants = string_views(self.constants@);
        if constant {
            self.constants.push(varname.clone());
            assert(string_views(self.constants@) =~= constants.push(varname@));
        }
        self.variables.push((varname, value));
        assert(binding_views(self.variables) =~= variables.push((varname@, value@)));
        Ok(result)
    }

    /// Gives `varname` the value `value` in the innermost frame that
    /// declares it.
    pub fn assign_var(&mut self, varname: &String, value: &RuntimeVal) -> (r: Result<
        (),
        RuntimeError,
    >)
        ensures
            match r {
                Ok(_) => assigned(old(self)@, varname@, value@) == Ok::<
                    EnvironmentView,
                    RuntimeError,
                >(final(self)@),
                Err(e) => assigned(old(self)@, varname@, value@) == Err::<
                    EnvironmentView,
                    RuntimeError,
                >(e) && final(self)@ == old(self)@,
            },
        decreases *old(self),
    {
        match find_binding(&self.variables, varname.as_str()) {
            Some(i) => {
                if contains_name(&self.constants, varname.as_str()) {
                    return Err(RuntimeError::AssignedConstant);
                }
                let ghost variables = binding_views(self.variables);
                let name = self.variables[i].0.clone();
                self.variables.set(i, (name, clone_value(value)));
                assert(binding_views(self.variables) =~= variables.update(
                    i as int,
                    (variables[i as int].0, value@),
                ));
                Ok(())
            },
            None => match &mut self.parent {
                Some(parent) => parent.assign_var(varname, value),
                None => Err(RuntimeError::NotDeclared),
            },
        }
    }

    /// A copy of the value of `varname`.
    pub fn lookup_var(&self, varname: &str) -> (r: Result<RuntimeVal, RuntimeError>)
        ensures
            match r {
                Ok(v) => looked_up(self@, varname@) == Ok::<ValueView, RuntimeError>(v@),
                Err(e) => looked_up(self@, varname@) == Err::<ValueView, RuntimeError>(e),
            },
        decreases self,
    {
        match find_binding(&self.variables, varname) {
            Some(i) => {
                assert(binding_views(self.variables)[i as int].1 == self.variables[i as int].1@);
                Ok(clone_value(&self.variables[i].1))
            },
            None => match &self.parent {
                Some(parent) => parent.lookup_var(varname),
                None => Err(RuntimeError::NotDeclared),
            },
        }
    }

    /// The chain from the innermost frame on that declares `varname`.
    pub fn resolve(&self, varname: &str) -> (r: Result<&Self, RuntimeError>)
        ensures
            match r {
                Ok(env) => resolved(self@, varname@) == Ok::<EnvironmentView, RuntimeError>(env@),
                Err(e) => resolved(self@, varname@) == Err::<EnvironmentView, RuntimeError>(e),
            },
        decreases self,
    {
        if find_binding(&self.variables, varname).is_some() {
            Ok(self)
        } else {
            match &self.parent {
                Some(parent) => parent.resolve(varname),
                None => Err(RuntimeError::NotDeclared),
            }
        }
    }

    /// Opens a fresh frame inside the current one.
    pub fn push_scope(&mut self)
        ensures
            final(self)@ == entered(old(self)@),
    {
        let mut outer = Environment::new(None);
        core::mem::swap(self, &mut outer);
        self.parent = Some(Box::new(outer));
    }

    /// Leaves the innermost frame, if it is not the outermost, and says
    /// whether it did.
    pub fn pop_scope(&mut self) -> (left: bool)
        ensures
            left == (old(self)@.parent is Some),
            final(self)@ == match old(self)@.parent {
                Some(parent) => *parent,
                None => old(self)@,
            },
    {
        match self.parent.take() {
            Some(parent) => {
                *self = *parent;
                true
            },
            None => false,
        }
    }
}


/// The names of a frame, oldest first.
pub open spec fn names(variables: Seq<(Seq<char>, ValueView)>) -> Seq<Seq<char>> {
    Seq::new(variables.len(), |i: int| variables[i].0)
}

/// Whether two chains have the same frames with the same names and the same
/// constants; the values may differ.
pub open spec fn same_scopes(before: EnvironmentView, after: EnvironmentView) -> bool
    decreases before,
{
    &&& names(before.variables) == names(after.variables)
    &&& before.constants == after.constants
    &&& match before.parent {
        Some(outer) => after.parent is Some && same_scopes(*outer, *after.parent->Some_0),
        None => after.parent is None,
    }
}

/// Whether `after` is `before` with, at most, more names in the innermost
/// frame: the frames around it have the same names and constants, and the
/// innermost has kept what it had.
pub open spec fn grown_scope(before: EnvironmentView, after: EnvironmentView) -> bool {
    &&& names(before.variables).is_prefix_of(names(after.variables))
    &&& before.constants.is_prefix_of(after.constants)
    &&& match before.parent {
        Some(outer) => after.parent is Some && same_scopes(*outer, *after.parent->Some_0),
        None => after.parent is None,
    }
}

pub proof fn lemma_same_scopes_reflexive(env: EnvironmentView)
    ensures
        same_scopes(env, env),
    decreases env,
{
    if let Some(outer) = env.parent {
        lemma_same_scopes_reflexive(*outer);
    }
}

pub proof fn lemma_same_scopes_transitive(
    a: EnvironmentView,
    b: EnvironmentView,
    c: EnvironmentView,
)
    requires
        same_scopes(a, b),
        same_scopes(b, c),
    ensures
        same_scopes(a, c),
    decreases a,
{
    if let Some(outer) = a.parent {
        lemma_same_scopes_transitive(*outer, *b.parent->Some_0, *c.parent->Some_0);
    }
}

/// Chains with the same scopes are grown scopes of each other.
pub proof fn lemma_same_scopes_grown(a: EnvironmentView, b: EnvironmentView)
    requires
        same_scopes(a, b),
    ensures
        grown_scope(a, b),
{
}

pub proof fn lemma_grown_scope_reflexive(env: EnvironmentView)
    ensures
        grown_scope(env, env),
{
    if let Some(outer) = env.parent {
        lemma_same_scopes_reflexive(*outer);
    }
}

pub proof fn lemma_grown_scope_transitive(
    a: EnvironmentView,
    b: EnvironmentView,
    c: EnvironmentView,
)
    requires
        grown_scope(a, b),
        grown_scope(b, c),
    ensures
        grown_scope(a, c),
{
    if let Some(outer) = a.parent {
        lemma_same_scopes_transitive(*outer, *b.parent->Some_0, *c.parent->Some_0);
    }
}

/// Assigning changes a value and nothing else: every frame keeps its names
/// and its constants.
pub proof fn lemma_assigned_same_scopes(env: EnvironmentView, name: Seq<char>, value: ValueView)
    requires
        assigned(env, name, value) is Ok,
    ensures
        same_scopes(env, assigned(env, name, value)->Ok_0),
    decreases env,
{
    let after = assigned(env, name, value)->Ok_0;
    match binding_index(env.variables, name, 0) {
        Some(i) => {
            lemma_binding_index_bounds(env.variables, name, 0);
            assert(names(env.variables) =~= names(after.variables));
            if let Some(outer) = env.parent {
                lemma_same_scopes_reflexive(*outer);
            }
        },
        None => {
            let outer = env.parent->Some_0;
            lemma_assigned_same_scopes(*outer, name, value);
        },
    }
}

/// Where [`binding_index`] finds an index, the binding there has the name,
/// and no binding between `from` and it has.
pub proof fn lemma_binding_index_bounds(
    variables: Seq<(Seq<char>, ValueView)>,
    name: Seq<char>,
    from: int,
)
    requires
        0 <= from,
    ensures
        binding_index(variables, name, from) matches Some(i) ==> from <= i < variables.len()
            && variables[i].0 == name,
    decreases variables.len() - from,
{
    if from < variables.len() && variables[from].0 != name {
        lemma_binding_index_bounds(variables, name, from + 1);
    }
}

/// Declaring adds one name to the innermost frame and changes nothing else.
pub proof fn lemma_declared_grown_scope(
    env: EnvironmentView,
    name: Seq<char>,
    value: ValueView,
    constant: bool,
)
    requires
        declared(env, name, value, constant) is Ok,
    ensures
        grown_scope(env, declared(env, name, value, constant)->Ok_0),
{
    let after = declared(env, name, value, constant)->Ok_0;
    assert(names(after.variables) =~= names(env.variables).push(name));
    if let Some(outer) = env.parent {
        lemma_same_scopes_reflexive(*outer);
    }
}


/// A name that is not among the bindings is found at the place where it is
/// added, and every other name where it was.
pub proof fn lemma_binding_index_pushed(
    variables: Seq<(Seq<char>, ValueView)>,
    name: Seq<char>,
    value: ValueView,
    other: Seq<char>,
    from: int,
)
    requires
        0 <= from <= variables.len(),
    ensures
        binding_index(variables.push((name, value)), other, from) == match binding_index(
            variables,
            other,
            from,
        ) {
            Some(i) => Some(i),
            None => if other == name {
                Some(variables.len() as int)
            } else {
                None
            },
        },
    decreases variables.len() - from,
{
    let pushed = variables.push((name, value));
    reveal_with_fuel(binding_index, 2);
    if from < variables.len() {
        assert(pushed[from] == variables[from]);
        if variables[from].0 != other {
            lemma_binding_index_pushed(variables, name, value, other, from + 1);
        }
    } else {
        assert(pushed[from] == (name, value));
    }
}

/// A declared name has the value that it was declared with.
pub proof fn lemma_declared_is_visible(
    env: EnvironmentView,
    name: Seq<char>,
    value: ValueView,
    constant: bool,
)
    requires
        declared(env, name, value, constant) is Ok,
    ensures
        looked_up(declared(env, name, value, constant)->Ok_0, name) == Ok::<ValueView, RuntimeError>(
            value,
        ),
{
    lemma_binding_index_pushed(env.variables, name, value, name, 0);
}

/// A constant is protected: a name that is declared as a constant cannot be
/// assigned, neither in the frame of its declaration nor from a fresh frame
/// inside it, and it keeps its value.
pub proof fn lemma_constant_is_protected(
    env: EnvironmentView,
    name: Seq<char>,
    value: ValueView,
    other: ValueView,
)
    requires
        declared(env, name, value, true) is Ok,
    ensures
        assigned(declared(env, name, value, true)->Ok_0, name, other) == Err::<
            EnvironmentView,
            RuntimeError,
        >(RuntimeError::AssignedConstant),
        assigned(entered(declared(env, name, value, true)->Ok_0), name, other) == Err::<
            EnvironmentView,
            RuntimeError,
        >(RuntimeError::AssignedConstant),
{
    let after = declared(env, name, value, true)->Ok_0;
    lemma_binding_index_pushed(env.variables, name, value, name, 0);
    assert(after.constants[env.constants.len() as int] == name);
}

/// A name of an outer frame is visible from a fresh frame inside it.
pub proof fn lemma_inner_frame_sees_outer(env: EnvironmentView, name: Seq<char>)
    ensures
        looked_up(entered(env), name) == looked_up(env, name),
{
}

/// A name of an outer frame can be assigned from a fresh frame inside it:
/// the assignment changes the outer frame as it would from there, and leaves
/// the inner frame empty.
pub proof fn lemma_inner_frame_assigns_outer(
    env: EnvironmentView,
    name: Seq<char>,
    value: ValueView,
)
    ensures
        assigned(entered(env), name, value) == match assigned(env, name, value) {
            Ok(after) => Ok::<EnvironmentView, RuntimeError>(entered(after)),
            Err(e) => Err(e),
        },
{
}

/// An assigned name has the value that it was given.
pub proof fn lemma_assigned_is_visible(env: EnvironmentView, name: Seq<char>, value: ValueView)
    requires
        assigned(env, name, value) is Ok,
    ensures
        looked_up(assigned(env, name, value)->Ok_0, name) == Ok::<ValueView, RuntimeError>(value),
    decreases env,
{
    match binding_index(env.variables, name, 0) {
        Some(i) => {
            lemma_binding_index_bounds(env.variables, name, 0);
            lemma_binding_index_updated(env.variables, name, i, value, 0);
        },
        None => {
            lemma_assigned_is_visible(*env.parent->Some_0, name, value);
        },
    }
}

/// Giving a binding a new value moves no name.
pub proof fn lemma_binding_index_updated(
    variables: Seq<(Seq<char>, ValueView)>,
    name: Seq<char>,
    at: int,
    value: ValueView,
    from: int,
)
    requires
        0 <= from,
        0 <= at < variables.len(),
    ensures
        binding_index(variables.update(at, (variables[at].0, value)), name, from) == binding_index(
            variables,
            name,
            from,
        ),
    decreases variables.len() - from,
{
    let updated = variables.update(at, (variables[at].0, value));
    if from < variables.len() {
        assert(updated[from].0 == variables[from].0);
        if variables[from].0 != name {
            lemma_binding_index_updated(variables, name, at, value, from + 1);
        }
    }
}

/// Where a name is found depends on the names alone.
pub proof fn lemma_binding_index_by_names(
    before: Seq<(Seq<char>, ValueView)>,
    after: Seq<(Seq<char>, ValueView)>,
    name: Seq<char>,
    from: int,
)
    requires
        0 <= from,
        names(before) == names(after),
    ensures
        binding_index(before, name, from) == binding_index(after, name, from),
    decreases before.len() - from,
{
    assert(names(before).len() == before.len());
    assert(names(after).len() == after.len());
    if from < before.len() {
        assert(names(before)[from] == before[from].0);
        assert(names(after)[from] == after[from].0);
        if before[from].0 != name {
            lemma_binding_index_by_names(before, after, name, from + 1);
        }
    }
}

/// Scopes of the same shape show the same names: what is visible in the
/// one is visible in the other. So what a block declared is not visible
/// behind it, and what was visible before it still is.
pub proof fn lemma_same_scopes_same_names(
    before: EnvironmentView,
    after: EnvironmentView,
    name: Seq<char>,
)
    requires
        same_scopes(before, after),
    ensures
        looked_up(before, name) is Ok <==> looked_up(after, name) is Ok,
    decreases before,
{
    lemma_binding_index_by_names(before.variables, after.variables, name, 0);
    if binding_index(before.variables, name, 0) is None {
        if let Some(outer) = before.parent {
            lemma_same_scopes_same_names(*outer, *after.parent->Some_0, name);
        }
    }
}

/// The handle of `tulosta`, which prints its arguments.
pub const PRINT: u64 = 0;

/// The handle of `aika`, which the time in milliseconds.
pub const TIME: u64 = 1;

/// The handle of `sekunnit`, which milliseconds to seconds.
pub const SECONDS: u64 = 2;

/// The handle of `itseisarvo`, which the absolute value.
pub const ABSOLUTE: u64 = 3;

/// The handle of `pyöristä`, which rounds a number.
pub const ROUND: u64 = 4;

/// The handle of `neliöjuuri`, which the square root.
pub const SQUARE_ROOT: u64 = 5;

/// The handle of `syöte`, which reads a line.
pub const INPUT: u64 = 6;

/// The handle of `satunnainen`, which a random number.
pub const RANDOM: u64 = 7;

/// The handle of `maksimi`, which the largest of an array.
pub const MAXIMUM: u64 = 8;

/// The handle of `minimi`, which the smallest of an array.
pub const MINIMUM: u64 = 9;

/// The handle of `pituus`, which the length of an array.
pub const LENGTH: u64 = 10;

/// The handle of `järjestä`, which sorts an array.
pub const SORT: u64 = 11;

/// The handle of `käänteinen`, which reverses an array.
pub const REVERSE: u64 = 12;

/// The handle of `kluku`, which converts to an integer.
pub const TO_INTEGER: u64 = 13;

/// The handle of `lluku`, which converts to a number.
pub const TO_NUMBER: u64 = 14;

/// The handle of `mjono`, which converts to a string.
pub const TO_STRING: u64 = 15;

/// The names that every program starts with, oldest first: `tosi`,
/// `epätosi`, `tyhjä`, and the native functions, each with its handle.
pub open spec fn global_bindings() -> Seq<(Seq<char>, ValueView)> {
    seq![
        ("tosi"@, ValueView::Bool(true)),
        ("epätosi"@, ValueView::Bool(false)),
        ("tyhjä"@, ValueView::Null),
        ("tulosta"@, ValueView::NativeFunction(PRINT)),
        ("aika"@, ValueView::NativeFunction(TIME)),
        ("sekunnit"@, ValueView::NativeFunction(SECONDS)),
        ("itseisarvo"@, ValueView::NativeFunction(ABSOLUTE)),
        ("pyöristä"@, ValueView::NativeFunction(ROUND)),
        ("neliöjuuri"@, ValueView::NativeFunction(SQUARE_ROOT)),
        ("syöte"@, ValueView::NativeFunction(INPUT)),
        ("satunnainen"@, ValueView::NativeFunction(RANDOM)),
        ("maksimi"@, ValueView::NativeFunction(MAXIMUM)),
        ("minimi"@, ValueView::NativeFunction(MINIMUM)),
        ("pituus"@, ValueView::NativeFunction(LENGTH)),
        ("järjestä"@, ValueView::NativeFunction(SORT)),
        ("käänteinen"@, ValueView::NativeFunction(REVERSE)),
        ("kluku"@, ValueView::NativeFunction(TO_INTEGER)),
        ("lluku"@, ValueView::NativeFunction(TO_NUMBER)),
        ("mjono"@, ValueView::NativeFunction(TO_STRING)),
    ]
}

/// Adds a constant to a frame that is being built.
fn define(env: &mut Environment, name: &str, value: RuntimeVal)
    ensures
        final(env)@ == (EnvironmentView {
            parent: old(env)@.parent,
            variables: old(env)@.variables.push((name@, value@)),
            constants: old(env)@.constants.push(name@),
        }),
{
    let ghost variables = binding_views(env.variables);
    let ghost constants = string_views(env.constants@);
    env.variables.push((String::from_str(name), value));
    env.constants.push(String::from_str(name));
    assert(binding_views(env.variables) =~= variables.push((name@, value@)));
    assert(string_views(env.constants@) =~= constants.push(name@));
}

/// The outermost frame: the names of [`global_bindings`], all of them
/// constants.
pub fn create_global_env() -> (env: Environment)
    ensures
        env@ == (EnvironmentView {
            parent: None,
            variables: global_bindings(),
            constants: names(global_bindings()),
        }),
{
    let mut env = Environment::new(None);
    define(&mut env, "tosi", RuntimeVal::Bool(true));
    define(&mut env, "epätosi", RuntimeVal::Bool(false));
    define(&mut env, "tyhjä", RuntimeVal::Null);
    define(&mut env, "tulosta", RuntimeVal::NativeFunction(NativeFunction { id: PRINT }));
    define(&mut env, "aika", RuntimeVal::NativeFunction(NativeFunction { id: TIME }));
    define(&mut env, "sekunnit", RuntimeVal::NativeFunction(NativeFunction { id: SECONDS }));
    define(&mut env, "itseisarvo", RuntimeVal::NativeFunction(NativeFunction { id: ABSOLUTE }));
    define(&mut env, "pyöristä", RuntimeVal::NativeFunction(NativeFunction { id: ROUND }));
    define(&mut env, "neliöjuuri", RuntimeVal::NativeFunction(NativeFunction { id: SQUARE_ROOT }));
    define(&mut env, "syöte", RuntimeVal::NativeFunction(NativeFunction { id: INPUT }));
    define(&mut env, "satunnainen", RuntimeVal::NativeFunction(NativeFunction { id: RANDOM }));
    define(&mut env, "maksimi", RuntimeVal::NativeFunction(NativeFunction { id: MAXIMUM }));
    define(&mut env, "minimi", RuntimeVal::NativeFunction(NativeFunction { id: MINIMUM }));
    define(&mut env, "pituus", RuntimeVal::NativeFunction(NativeFunction { id: LENGTH }));
    define(&mut env, "järjestä", RuntimeVal::NativeFunction(NativeFunction { id: SORT }));
    define(&mut env, "käänteinen", RuntimeVal::NativeFunction(NativeFunction { id: REVERSE }));
    define(&mut env, "kluku", RuntimeVal::NativeFunction(NativeFunction { id: TO_INTEGER }));
    define(&mut env, "lluku", RuntimeVal::NativeFunction(NativeFunction { id: TO_NUMBER }));
    define(&mut env, "mjono", RuntimeVal::NativeFunction(NativeFunction { id: TO_STRING }));
    assert(env@.variables =~= global_bindings());
    assert(env@.constants =~= names(global_bindings()));
    env
}


impl Clone for Environment {
    fn clone(&self) -> (copy: Self)
        ensures
            copy@ == self@,
    {
        clone_environment(self)
    }
}

} // verus!
