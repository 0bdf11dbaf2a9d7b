use crate::interpreter::{digits, push_digits};
use crate::{position_text, Identifier, Position};
use vstd::prelude::*;

verus! {

/// The error type of `Interpreter`.
#[derive(Debug)]
pub enum InterpreterError {
    /// An unknown variable name was found.
    UnknownVariable { name: Identifier, position: Position },
    /// The wrong type was given.
    TypeError { expected: &'static str, found: &'static str, position: Position },
    /// The number of arguments given does not match the expected number of arguments.
    ArgumentError { got: usize, takes: usize, position: Position },
    /// `ArgumentError`, but for built-in functions.
    BuiltinArgumentError { name: &'static str, got: usize, takes: &'static str },
    /// `TypeError`, but for built-in functions.
    BuiltinTypeError { name: &'static str, expected: &'static str, found: &'static str },
    /// Calls were nested deeper than the interpreter follows. The depth it allows is so large
    /// that the native stack runs out first.
    RecursionLimit { position: Position },
}

/// The mathematical value of an `InterpreterError`.
pub enum Fault {
    UnknownVariable(Seq<char>, Position),
    TypeError(Seq<char>, Seq<char>, Position),
    ArgumentError { got: nat, takes: nat, position: Position },
    BuiltinArgumentError(Seq<char>, nat, Seq<char>),
    BuiltinTypeError(Seq<char>, Seq<char>, Seq<char>),
    RecursionLimit(Position),
}

impl View for InterpreterError {
    type V = Fault;

    open spec fn view(&self) -> Fault {
        match self {
            InterpreterError::UnknownVariable { name, position } => Fault::UnknownVariable(
                name@,
                *position,
            ),
            InterpreterError::TypeError { expected, found, position } => Fault::TypeError(
                expected@,
                found@,
                *position,
            ),
            InterpreterError::ArgumentError { got, takes, position } => Fault::ArgumentError {
                got: *got as nat,
                takes: *takes as nat,
                position: *position,
            },
            InterpreterError::BuiltinArgumentError { name, got, takes } => Fault::BuiltinArgumentError(
                name@,
                *got as nat,
                takes@,
            ),
            InterpreterError::BuiltinTypeError { name, expected, found } => Fault::BuiltinTypeError(
                name@,
                expected@,
                found@,
            ),
            InterpreterError::RecursionLimit { position } => Fault::RecursionLimit(*position),
        }
    }
}

/// The message that describes an evaluation error.
pub open spec fn fault_message(f: Fault) -> Seq<char> {
    match f {
        Fault::UnknownVariable(name, p) => "unknown variable "@ + name + " at "@ + position_text(p),
        Fault::TypeError(expected, found, p) => "type error: expected "@ + expected + " at "@
            + position_text(p) + ", found "@ + found,
        Fault::ArgumentError { got, takes, position } => "function at "@ + position_text(position)
            + " takes "@ + digits(takes) + " arguments, but got "@ + digits(got),
        Fault::BuiltinArgumentError(name, got, takes) => "built-in function "@ + name + " takes "@
            + takes + " arguments, but got "@ + digits(got),
        Fault::BuiltinTypeError(name, expected, found) => "built-in function "@ + name
            + " expected argument of type "@ + expected + ", but got "@ + found,
        Fault::RecursionLimit(p) => "calls nested too deeply at "@ + position_text(p),
    }
}

impl InterpreterError {
    /// The message that describes the error.
    pub fn message(&self) -> (r: String)
        ensures
            r@ == fault_message(self@),
    {
        let mut out = String::new();
        match self {
            InterpreterError::UnknownVariable { name, position } => {
                out.append("unknown variable ");
                out.append(name.as_str());
                out.append(" at ");
                position.write_to(&mut out);
            },
            InterpreterError::TypeError { expected, found, position } => {
                out.append("type error: expected ");
                out.append(expected);
                out.append(" at ");
                position.write_to(&mut out);
                out.append(", found ");
                out.append(found);
            },
            InterpreterError::ArgumentError { got, takes, position } => {
                out.append("function at ");
                position.write_to(&mut out);
                out.append(" takes ");
                push_digits(&mut out, *takes as u64);
                out.append(" arguments, but got ");
                push_digits(&mut out, *got as u64);
            },
            InterpreterError::BuiltinArgumentError { name, got, takes } => {
                out.append("built-in function ");
                out.append(name);
                out.append(" takes ");
                out.append(takes);
                out.append(" arguments, but got ");
                push_digits(&mut out, *got as u64);
            },
            InterpreterError::BuiltinTypeError { name, expected, found } => {
                out.append("built-in function ");
                out.append(name);
                out.append(" expected argument of type ");
                out.append(expected);
                out.append(", but got ");
                out.append(found);
            },
            InterpreterError::RecursionLimit { position } => {
                out.append("calls nested too deeply at ");
                position.write_to(&mut out);
            },
        }
        assert(out@ =~= fault_message(self@));
        out
    }
}

} // verus!
