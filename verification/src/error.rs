//! Compilation errors: what went wrong and where in the source.

use vstd::prelude::*;

verus! {

/// The four families of errors a compilation can end in.
#[derive(Debug, Clone, Copy, PartialEq, Eq, Structural)]
pub enum ErrorKind {
    LexError,
    ParseError,
    TypeError,
    GenError,
}

/// The precise reason a compilation was abandoned.
#[derive(Debug, Clone, Copy, PartialEq, Eq, Structural)]
pub enum Fault {
    /// A character that starts no token.
    BadCharacter,
    /// A `!` that is not followed by `=`.
    UnterminatedOperator,
    /// A token that the grammar does not allow at this place.
    UnexpectedToken,
    /// The tokens ran out in the middle of a construct.
    UnexpectedEnd,
    /// A statement that does not end in `;`.
    MissingSemicolon,
    /// A `(` that is not closed by `)`.
    MissingParen,
    /// A `[` that is not closed by `]`.
    MissingBracket,
    /// A `break` that no `while` encloses.
    BreakOutsideLoop,
    /// A declaration of a name that is already declared.
    Redeclaration,
    /// A use of a name that was never declared.
    UnknownIdentifier,
    /// An assignment to a name declared `const`.
    AssignToConst,
    /// An array length that is not an integer literal fitting 64 bits.
    BadArrayLength,
    /// Operands whose types the operator does not accept.
    OperandMismatch,
    /// An initialiser or assigned value whose type differs from the variable's.
    DeclarationMismatch,
    /// An `if` or `while` guard that is not of type `Bool`.
    GuardNotBool,
    /// A list literal whose elements differ in type.
    MixedList,
    /// `&` applied to something other than a variable.
    AddressOfTemporary,
    /// `*` applied to something that is not a pointer.
    DerefNonPointer,
    /// A guard handed to the code generator that is not a comparison.
    GuardNotComparison,
    /// An operator the code generator has no instructions for.
    UnknownOperator,
    /// A boolean literal that is neither `true` nor `false`.
    BadBoolean,
    /// A variable the code generator cannot find in the symbol table.
    UnknownSymbol,
    /// A variable that has no stack slot yet.
    UnassignedOffset,
    /// An assignment statement that targets a `const` variable.
    ImmutableTarget,
    /// A pointer initialised from a value that lives in a register.
    PointerToRegister,
    /// `&` applied, at code generation, to a value that is not in memory.
    AddressOfNonMemory,
    /// A list literal nested inside a list literal.
    NestedList,
    /// A `break` reached the code generator without an enclosing loop.
    BreakWithoutLoop,
    /// A variable whose type has no size.
    UnsizedSymbol,
    /// A stack frame larger than 64 bits can count.
    FrameTooLarge,
    /// More labels than 64 bits can count.
    TooManyLabels,
}

impl Fault {
    /// The family a fault belongs to.
    pub open spec fn spec_kind(self) -> ErrorKind {
        match self {
            Fault::BadCharacter | Fault::UnterminatedOperator => ErrorKind::LexError,
            Fault::UnexpectedToken
            | Fault::UnexpectedEnd
            | Fault::MissingSemicolon
            | Fault::MissingParen
            | Fault::MissingBracket
            | Fault::BreakOutsideLoop
            | Fault::Redeclaration
            | Fault::UnknownIdentifier
            | Fault::AssignToConst
            | Fault::BadArrayLength => ErrorKind::ParseError,
            Fault::OperandMismatch
            | Fault::DeclarationMismatch
            | Fault::GuardNotBool
            | Fault::MixedList
            | Fault::AddressOfTemporary
            | Fault::DerefNonPointer => ErrorKind::TypeError,
            Fault::GuardNotComparison
            | Fault::UnknownOperator
            | Fault::BadBoolean
            | Fault::UnknownSymbol
            | Fault::UnassignedOffset
            | Fault::ImmutableTarget
            | Fault::PointerToRegister
            | Fault::AddressOfNonMemory
            | Fault::NestedList
            | Fault::BreakWithoutLoop
            | Fault::UnsizedSymbol
            | Fault::FrameTooLarge
            | Fault::TooManyLabels => ErrorKind::GenError,
        }
    }

    /// The family a fault belongs to.
    #[verifier::when_used_as_spec(spec_kind)]
    pub fn kind(self) -> (k: ErrorKind)
        ensures
            k == self.spec_kind(),
    {
        match self {
            Fault::BadCharacter | Fault::UnterminatedOperator => ErrorKind::LexError,
            Fault::UnexpectedToken
            | Fault::UnexpectedEnd
            | Fault::MissingSemicolon
            | Fault::MissingParen
            | Fault::MissingBracket
            | Fault::BreakOutsideLoop
            | Fault::Redeclaration
            | Fault::UnknownIdentifier
            | Fault::AssignToConst
            | Fault::BadArrayLength => ErrorKind::ParseError,
            Fault::OperandMismatch
            | Fault::DeclarationMismatch
            | Fault::GuardNotBool
            | Fault::MixedList
            | Fault::AddressOfTemporary
            | Fault::DerefNonPointer => ErrorKind::TypeError,
            Fault::GuardNotComparison
            | Fault::UnknownOperator
            | Fault::BadBoolean
            | Fault::UnknownSymbol
            | Fault::UnassignedOffset
            | Fault::ImmutableTarget
            | Fault::PointerToRegister
            | Fault::AddressOfNonMemory
            | Fault::NestedList
            | Fault::BreakWithoutLoop
            | Fault::UnsizedSymbol
            | Fault::FrameTooLarge
            | Fault::TooManyLabels => ErrorKind::GenError,
        }
    }
}

/// A fatal error: the fault, and the 1-based source position of the token or
/// character it was found at. A fault that has no place in the source (the
/// tokens ran out, or the code generator met an inconsistent tree) carries
/// line 0 and column 0.
#[derive(Debug, Clone, Copy, PartialEq, Eq, Structural)]
pub struct CompileError {
    pub fault: Fault,
    pub line: usize,
    pub column: usize,
}

impl CompileError {
    /// A fault with no place in the source.
    pub open spec fn nowhere(fault: Fault) -> CompileError {
        CompileError { fault, line: 0, column: 0 }
    }

    /// The family of this error.
    pub fn kind(&self) -> (k: ErrorKind)
        ensures
            k == self.fault.spec_kind(),
    {
        self.fault.kind()
    }
}

} // verus!
