//! What the evaluator asks of its surroundings.

use vstd::prelude::*;
use crate::error::RuntimeError;
use crate::frontend::ast::BinaryOperator;
use crate::runtime::eval::operators::outcome;
use crate::runtime::number::Number;
use crate::runtime::semantics::Exchange;
use crate::runtime::values::{binding_views, value_views, NativeFunction, RuntimeVal};

verus! {

/// The surroundings of a run: the arithmetic on numbers, and the native
/// functions. The evaluator decides when to ask and what to do with the
/// answer; it promises nothing about the answers themselves.
pub trait Host {
    /// The number that the text of a numeric literal stands for, or `None`
    /// where the text is that of no number.
    fn number(&mut self, literal: &str) -> Option<Number>;

    /// `lhs operator rhs`, where `operator` is one of `Add`, `Subtract`,
    /// `Multiply`, `Divide`, `Exponent` and `Modulus`.
    fn arithmetic(&mut self, operator: BinaryOperator, lhs: Number, rhs: Number) -> Number;

    /// Calls the native function `function` with the arguments `args`;
    /// `scope` holds a copy of the names and values of the caller's
    /// innermost frame.
    fn call(
        &mut self,
        function: NativeFunction,
        args: Vec<RuntimeVal>,
        scope: Vec<(String, RuntimeVal)>,
    ) -> Result<RuntimeVal, RuntimeError>;
}

/// A run's surroundings, what is left of its budget of steps, and the
/// record of what the host was asked and what it answered. Every call of a
/// function of the program and every turn of a loop takes one step; a run
/// that has none left stops with `OutOfFuel`.
pub struct Interpreter<H: Host> {
    pub host: H,
    pub fuel: u64,
    pub log: Ghost<Seq<Exchange>>,
}

/// The answer to a request for a number, as the log holds it.
pub open spec fn number_answer(answer: Option<Number>) -> Option<u64> {
    match answer {
        Some(number) => Some(number.bits),
        None => None,
    }
}

impl<H: Host> Interpreter<H> {
    pub fn new(host: H, fuel: u64) -> (interpreter: Self)
        ensures
            interpreter.host == host,
            interpreter.fuel == fuel,
            interpreter.log@ == Seq::<Exchange>::empty(),
    {
        Interpreter { host, fuel, log: Ghost(Seq::empty()) }
    }

    /// Takes one step from the budget.
    pub fn step(&mut self) -> (r: Result<(), RuntimeError>)
        ensures
            final(self).host == old(self).host,
            final(self).log@ == old(self).log@,
            match r {
                Ok(_) => old(self).fuel > 0 && final(self).fuel == old(self).fuel - 1,
                Err(e) => old(self).fuel == 0 && final(self).fuel == 0 && e
                    == RuntimeError::OutOfFuel,
            },
    {
        if self.fuel == 0 {
            Err(RuntimeError::OutOfFuel)
        } else {
            self.fuel -= 1;
            Ok(())
        }
    }

    /// Asks the host for the number of a literal, and records the exchange.
    pub fn ask_number(&mut self, literal: &str) -> (answer: Option<Number>)
        ensures
            final(self).fuel == old(self).fuel,
            final(self).log@ == old(self).log@.push(
                Exchange::Number { literal: literal@, answer: number_answer(answer) },
            ),
    {
        let answer = self.host.number(literal);
        self.log = Ghost(
            self.log@.push(Exchange::Number { literal: literal@, answer: number_answer(answer) }),
        );
        answer
    }

    /// Asks the host's arithmetic, and records the exchange.
    pub fn ask_arithmetic(&mut self, operator: BinaryOperator, lhs: Number, rhs: Number) -> (answer:
        Number)
        ensures
            final(self).fuel == old(self).fuel,
            final(self).log@ == old(self).log@.push(
                Exchange::Arithmetic { operator, lhs: lhs.bits, rhs: rhs.bits, answer: answer.bits },
            ),
    {
        let answer = self.host.arithmetic(operator, lhs, rhs);
        self.log = Ghost(
            self.log@.push(
                Exchange::Arithmetic { operator, lhs: lhs.bits, rhs: rhs.bits, answer: answer.bits },
            ),
        );
        answer
    }

    /// Calls a native function through the host, and records the exchange.
    pub fn ask_call(
        &mut self,
        function: NativeFunction,
        args: Vec<RuntimeVal>,
        scope: Vec<(String, RuntimeVal)>,
    ) -> (answer: Result<RuntimeVal, RuntimeError>)
        ensures
            final(self).fuel == old(self).fuel,
            final(self).log@ == old(self).log@.push(
                Exchange::Call {
                    function: function.id,
                    args: value_views(args),
                    scope: binding_views(scope),
                    answer: outcome(answer),
                },
            ),
    {
        let ghost asked = value_views(args);
        let ghost seen = binding_views(scope);
        let answer = self.host.call(function, args, scope);
        self.log = Ghost(
            self.log@.push(
                Exchange::Call {
                    function: function.id,
                    args: asked,
                    scope: seen,
                    answer: outcome(answer),
                },
            ),
        );
        answer
    }
}

} // verus!
