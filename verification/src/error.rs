//! The errors that evaluation, emission and parsing report.

use vstd::prelude::*;
use vstd::string::StringExecFns;

use crate::text::{concat2, concat3, decimal, decimal_text};
use crate::value::Value;

verus! {

/// The mathematical model of an error: names are character sequences,
/// counts are natural numbers.
pub enum Fault {
    /// Source text that does not parse; holds the text left unparsed.
    Parse(Seq<char>),
    /// A variable that no scope layer binds.
    UndefinedVariable(Seq<char>),
    /// A function that no scope layer binds.
    UndefinedFunction(Seq<char>),
    /// A call whose argument count differs from the parameter count.
    ArityMismatch { expected: nat, got: nat },
    /// An index beyond the end of the named variable.
    IndexOutOfRange(Seq<char>),
    /// An indexed assignment of the empty value to the named variable.
    EmptyAssignmentValue(Seq<char>),
    /// An indexed assignment with fewer indices than values.
    BroadcastLengthMismatch(Seq<char>),
    /// A function defined twice in one scope layer.
    DuplicateFunctionDefinition(Seq<char>),
    /// A value that is not the encoding of a text.
    TypeConversionFailure,
    /// Element-wise arithmetic on operands of different lengths.
    LengthMismatch { left: nat, right: nat },
    /// Element-wise division with a zero divisor.
    DivisionByZero,
    /// A call or a loop entered with the scope stack at its limit.
    DepthExceeded,
    /// An error that a library function describes in its own words.
    Library(Seq<char>),
}

/// An error, as the executable code carries it.
#[derive(Debug)]
pub enum HeError {
    Parse(String),
    UndefinedVariable(String),
    UndefinedFunction(String),
    ArityMismatch { expected: usize, got: usize },
    IndexOutOfRange(String),
    EmptyAssignmentValue(String),
    BroadcastLengthMismatch(String),
    DuplicateFunctionDefinition(String),
    TypeConversionFailure,
    LengthMismatch { left: usize, right: usize },
    DivisionByZero,
    DepthExceeded,
    Library(String),
}

impl View for HeError {
    type V = Fault;

    open spec fn view(&self) -> Fault {
        match self {
            HeError::Parse(s) => Fault::Parse(s@),
            HeError::UndefinedVariable(s) => Fault::UndefinedVariable(s@),
            HeError::UndefinedFunction(s) => Fault::UndefinedFunction(s@),
            HeError::ArityMismatch { expected, got } => Fault::ArityMismatch {
                expected: *expected as nat,
                got: *got as nat,
            },
            HeError::IndexOutOfRange(s) => Fault::IndexOutOfRange(s@),
            HeError::EmptyAssignmentValue(s) => Fault::EmptyAssignmentValue(s@),
            HeError::BroadcastLengthMismatch(s) => Fault::BroadcastLengthMismatch(s@),
            HeError::DuplicateFunctionDefinition(s) => Fault::DuplicateFunctionDefinition(s@),
            HeError::TypeConversionFailure => Fault::TypeConversionFailure,
            HeError::LengthMismatch { left, right } => Fault::LengthMismatch {
                left: *left as nat,
                right: *right as nat,
            },
            HeError::DivisionByZero => Fault::DivisionByZero,
            HeError::DepthExceeded => Fault::DepthExceeded,
            HeError::Library(s) => Fault::Library(s@),
        }
    }
}

/// The words in which an error is reported.
pub open spec fn message_of(f: Fault) -> Seq<char> {
    match f {
        Fault::Parse(rest) => "Cannot parse \""@ + rest + "\""@,
        Fault::UndefinedVariable(name) => "Variable "@ + name + " not found"@,
        Fault::UndefinedFunction(name) => "Function "@ + name + " not found"@,
        Fault::ArityMismatch { expected, got } => "Wrong number of arguments: expected "@
            + decimal(expected) + ", got "@ + decimal(got),
        Fault::IndexOutOfRange(name) => "Index out of range for variable "@ + name,
        Fault::EmptyAssignmentValue(name) => "Cannot assign empty value to variable "@
            + name,
        Fault::BroadcastLengthMismatch(name) => "Too few indices to assign to variable "@
            + name,
        Fault::DuplicateFunctionDefinition(name) => "Function "@ + name + " already defined"@,
        Fault::TypeConversionFailure => "Value is not valid text"@,
        Fault::LengthMismatch { left, right } => "Operands differ in length: "@ + decimal(left)
            + " and "@ + decimal(right),
        Fault::DivisionByZero => "Division by zero"@,
        Fault::DepthExceeded => "Too many nested scopes"@,
        Fault::Library(text) => text,
    }
}

impl HeError {
    /// The error in words.
    pub fn message(&self) -> (r: String)
        ensures
            r@ == message_of(self@),
    {
        match self {
            HeError::Parse(rest) => concat3("Cannot parse \"", rest.as_str(), "\""),
            HeError::UndefinedVariable(name) => concat3("Variable ", name.as_str(), " not found"),
            HeError::UndefinedFunction(name) => concat3("Function ", name.as_str(), " not found"),
            HeError::ArityMismatch { expected, got } => {
                let e = decimal_text(*expected as u64);
                let g = decimal_text(*got as u64);
                let mut r = concat3("Wrong number of arguments: expected ", e.as_str(), ", got ");
                r.append(g.as_str());
                r
            },
            HeError::IndexOutOfRange(name) => concat2("Index out of range for variable ", name.as_str()),
            HeError::EmptyAssignmentValue(name) => concat2("Cannot assign empty value to variable ", name.as_str()),
            HeError::BroadcastLengthMismatch(name) => concat2("Too few indices to assign to variable ", name.as_str()),
            HeError::DuplicateFunctionDefinition(name) => concat3(
                "Function ",
                name.as_str(),
                " already defined",
            ),
            HeError::TypeConversionFailure => String::from_str("Value is not valid text"),
            HeError::LengthMismatch { left, right } => {
                let l = decimal_text(*left as u64);
                let r = decimal_text(*right as u64);
                let mut text = concat3("Operands differ in length: ", l.as_str(), " and ");
                text.append(r.as_str());
                text
            },
            HeError::DivisionByZero => String::from_str("Division by zero"),
            HeError::DepthExceeded => String::from_str("Too many nested scopes"),
            HeError::Library(text) => text.clone(),
        }
    }
}

/// What every evaluating operation returns: a value or an error.
pub type HeResult = Result<Value, HeError>;

/// The model of a result: the value's elements, or the error's model.
pub open spec fn outcome_of(r: HeResult) -> Result<Seq<u32>, Fault> {
    match r {
        Ok(v) => Ok(v@),
        Err(e) => Err(e@),
    }
}

} // verus!
