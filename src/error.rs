//! The error type of the assembler and the engine.

use vstd::prelude::*;

verus! {

/// `std::num::ParseIntError`, carried by `Error::ParseIntError`.
#[verifier::external_type_specification]
#[verifier::external_body]
pub struct ExParseIntError(std::num::ParseIntError);

/// `std::io::Error`, carried by `Error::IoError`.
#[verifier::external_type_specification]
#[verifier::external_body]
pub struct ExIoError(std::io::Error);

/// The error type for VM operations.
#[derive(Debug)]
pub enum Error {
    /// An I/O error (a source file that cannot be read, for instance).
    IoError(std::io::Error),
    /// Unknown label is found in an operand.
    LabelNotFound(String),
    /// PC lies outside the program, or a program does not fit in the
    /// instruction memory.
    MemoryOutOfBound,
    /// An integer operand, or a line read by `rd`, is not a decimal `i32`.
    ParseIntError(std::num::ParseIntError),
    /// A line holds no opcode.
    OpcodeNotFound,
    /// An operand is not found.
    OperandNotFound,
    /// A push would move SP below the top of the stack (SP < 0).
    StackOverflow,
    /// An address relative to FP or SP, or a new SP or FP, lies outside the stack.
    StackOutOfBound,
    /// A pop or a read from an empty stack (SP >= `VM_STACK_SIZE`).
    StackUnderflow,
    /// An unknown opcode is found.
    UnknownOpcode(String),
    /// VM halted.
    VmHalted,
    /// Division or remainder by zero, or a result outside `i32`.
    ArithmeticError,
}

/// What an `Error` is, with the text it carries as characters.
pub enum Fault {
    Io,
    LabelNotFound(Seq<char>),
    MemoryOutOfBound,
    ParseInt,
    OpcodeNotFound,
    OperandNotFound,
    StackOverflow,
    StackOutOfBound,
    StackUnderflow,
    UnknownOpcode(Seq<char>),
    VmHalted,
    Arithmetic,
}

impl View for Error {
    type V = Fault;

    open spec fn view(&self) -> Fault {
        match self {
            Error::IoError(_) => Fault::Io,
            Error::LabelNotFound(s) => Fault::LabelNotFound(s@),
            Error::MemoryOutOfBound => Fault::MemoryOutOfBound,
            Error::ParseIntError(_) => Fault::ParseInt,
            Error::OpcodeNotFound => Fault::OpcodeNotFound,
            Error::OperandNotFound => Fault::OperandNotFound,
            Error::StackOverflow => Fault::StackOverflow,
            Error::StackOutOfBound => Fault::StackOutOfBound,
            Error::StackUnderflow => Fault::StackUnderflow,
            Error::UnknownOpcode(s) => Fault::UnknownOpcode(s@),
            Error::VmHalted => Fault::VmHalted,
            Error::ArithmeticError => Fault::Arithmetic,
        }
    }
}

/// A result with its error seen as a `Fault`.
pub open spec fn outcome<T>(r: Result<T, Error>) -> Result<T, Fault> {
    match r {
        Ok(v) => Ok(v),
        Err(e) => Err(e@),
    }
}

impl Error {
    /// A description of the error for people, e.g. `Unknown opcode 'hoge' is found`.
    pub fn message(&self) -> (r: String)
        ensures
            match self {
                Error::IoError(_) => true,
                Error::ParseIntError(_) => true,
                Error::LabelNotFound(name) => r@ == "Label '"@ + name@ + "' is not found"@,
                Error::UnknownOpcode(name) => r@ == "Unknown opcode '"@ + name@ + "' is found"@,
                Error::MemoryOutOfBound => r@ == "PC out of bounds"@,
                Error::OpcodeNotFound => r@ == "Opcode is not found"@,
                Error::OperandNotFound => r@ == "Operand is not found"@,
                Error::StackOverflow => r@ == "Stack overflow"@,
                Error::StackOutOfBound => r@ == "SP out of bounds"@,
                Error::StackUnderflow => r@ == "Stack underflow"@,
                Error::VmHalted => r@ == "VM is already halted"@,
                Error::ArithmeticError => r@ == "Arithmetic error"@,
            },
    {
        match self {
            Error::IoError(e) => e.to_string(),
            Error::ParseIntError(e) => e.to_string(),
            Error::LabelNotFound(name) => {
                let mut s = String::from_str("Label '");
                s.append(name.as_str());
                s.append("' is not found");
                s
            },
            Error::UnknownOpcode(name) => {
                let mut s = String::from_str("Unknown opcode '");
                s.append(name.as_str());
                s.append("' is found");
                s
            },
            Error::MemoryOutOfBound => String::from_str("PC out of bounds"),
            Error::OpcodeNotFound => String::from_str("Opcode is not found"),
            Error::OperandNotFound => String::from_str("Operand is not found"),
            Error::StackOverflow => String::from_str("Stack overflow"),
            Error::StackOutOfBound => String::from_str("SP out of bounds"),
            Error::StackUnderflow => String::from_str("Stack underflow"),
            Error::VmHalted => String::from_str("VM is already halted"),
            Error::ArithmeticError => String::from_str("Arithmetic error"),
        }
    }
}

impl From<std::io::Error> for Error {
    fn from(e: std::io::Error) -> (r: Error) {
        Error::IoError(e)
    }
}

impl vstd::std_specs::convert::FromSpecImpl<std::io::Error> for Error {
    open spec fn obeys_from_spec() -> bool {
        true
    }

    open spec fn from_spec(e: std::io::Error) -> Error {
        Error::IoError(e)
    }
}

impl From<std::num::ParseIntError> for Error {
    fn from(e: std::num::ParseIntError) -> (r: Error) {
        Error::ParseIntError(e)
    }
}

impl vstd::std_specs::convert::FromSpecImpl<std::num::ParseIntError> for Error {
    open spec fn obeys_from_spec() -> bool {
        true
    }

    open spec fn from_spec(e: std::num::ParseIntError) -> Error {
        Error::ParseIntError(e)
    }
}

} // verus!
