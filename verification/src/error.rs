//! The ways in which loading, linking or executing can fail.

use vstd::prelude::*;
use vstd::string::*;

verus! {

/// An error message carried as text.
#[derive(Debug)]
pub struct StringErr(pub String);

impl StringErr {
    /// The message.
    pub fn message(&self) -> (r: &str)
        ensures
            r@ == self.0@,
    {
        self.0.as_str()
    }
}

/// Why the machine stopped.
#[derive(Clone, Copy, PartialEq, Eq, Structural, Debug)]
pub enum VmError {
    /// Bad magic, an unknown constant tag, a pool index of the wrong kind,
    /// a malformed descriptor or truncated bytes.
    ClassFormat,
    /// No bytes were found for a class that is needed.
    ClassNotFound,
    /// A zero reference was used as a receiver, an object or an array.
    NullPointer,
    /// An array was asked for with a negative length.
    NegativeArraySize,
    /// An array index lies outside the array.
    ArrayIndexOutOfBounds,
    /// `checkcast` met an object of another class.
    ClassCast,
    /// A byte in a code stream that is no instruction.
    UnknownOpcode,
    /// No host function is registered under a native method's key.
    MissingNative,
    /// An integer division by zero.
    Arithmetic,
    /// More frames than the frame table holds, or a stack arena that
    /// cannot grow.
    StackOverflow,
    /// An operand stack would leave the range `0..=max_stack`.
    OperandStack,
    /// A local-variable index at or beyond `max_locals`.
    LocalIndex,
    /// The program counter left the method's code.
    CodeRange,
    /// A reference that names no object, or an object of the wrong shape.
    InvalidReference,
    /// A symbolic reference names a member that the class does not have.
    NoSuchMember,
    /// Classes nest deeper than the loader follows.
    LinkDepth,
}

impl VmError {
    /// The name under which the error is reported.
    pub fn name(&self) -> (r: &'static str)
        ensures
            r@ == spec_error_name(*self),
    {
        match self {
            VmError::ClassFormat => "java.lang.ClassFormatError",
            VmError::ClassNotFound => "java.lang.NoClassDefFoundError",
            VmError::NullPointer => "java.lang.NullPointerException",
            VmError::NegativeArraySize => "java.lang.NegativeArraySize",
            VmError::ArrayIndexOutOfBounds => "ArrayIndexOutOfBounds",
            VmError::ClassCast => "java.lang.ClassCastException",
            VmError::UnknownOpcode => "invalid op",
            VmError::MissingNative => "native method not found",
            VmError::Arithmetic => "java.lang.ArithmeticException",
            VmError::StackOverflow => "java.lang.StackOverflowError",
            VmError::OperandStack => "operand stack out of range",
            VmError::LocalIndex => "local variable out of range",
            VmError::CodeRange => "program counter out of range",
            VmError::InvalidReference => "invalid reference",
            VmError::NoSuchMember => "java.lang.NoSuchFieldError",
            VmError::LinkDepth => "java.lang.ClassCircularityError",
        }
    }

    /// The error as a message.
    pub fn to_err(&self) -> (r: StringErr)
        ensures
            r.0@ == spec_error_name(*self),
    {
        StringErr(self.name().to_owned())
    }
}

/// The name under which each error is reported.
pub open spec fn spec_error_name(e: VmError) -> Seq<char> {
    match e {
        VmError::ClassFormat => "java.lang.ClassFormatError"@,
        VmError::ClassNotFound => "java.lang.NoClassDefFoundError"@,
        VmError::NullPointer => "java.lang.NullPointerException"@,
        VmError::NegativeArraySize => "java.lang.NegativeArraySize"@,
        VmError::ArrayIndexOutOfBounds => "ArrayIndexOutOfBounds"@,
        VmError::ClassCast => "java.lang.ClassCastException"@,
        VmError::UnknownOpcode => "invalid op"@,
        VmError::MissingNative => "native method not found"@,
        VmError::Arithmetic => "java.lang.ArithmeticException"@,
        VmError::StackOverflow => "java.lang.StackOverflowError"@,
        VmError::OperandStack => "operand stack out of range"@,
        VmError::LocalIndex => "local variable out of range"@,
        VmError::CodeRange => "program counter out of range"@,
        VmError::InvalidReference => "invalid reference"@,
        VmError::NoSuchMember => "java.lang.NoSuchFieldError"@,
        VmError::LinkDepth => "java.lang.ClassCircularityError"@,
    }
}

} // verus!
