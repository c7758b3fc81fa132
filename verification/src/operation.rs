//! The closed opcode table.
//!
//! An instruction names its operation by a two-part code: a six-bit
//! extension selecting an operation group, and a four-bit operation code
//! inside the group. A pair outside the table fails decode. Each operation
//! declares which operand slots it expects — the [`Expectation`] — and that
//! declaration alone decides which slots a decoded instruction populates.

use vstd::prelude::*;

verus! {

/// Which operand slots an operation declares it needs.
#[derive(Debug, Clone, Copy, PartialEq, Eq, Structural)]
pub enum Expectation {
    /// No operands at all.
    NoOperands,
    /// Only a destination.
    Destination,
    /// One input and no destination.
    SingleInput,
    /// Two inputs and no destination.
    DualInput,
    /// A destination and one input.
    DestinationAndInput,
    /// A destination and two inputs.
    All,
}

/// The arithmetic operation group.
#[derive(Debug, Clone, Copy, PartialEq, Eq, Structural)]
pub enum Arithmetic {
    Add,
    Subtract,
    Multiply,
    Divide,
    Compare,
}

/// The data-transfer operation group.
#[derive(Debug, Clone, Copy, PartialEq, Eq, Structural)]
pub enum Transfer {
    /// Copy the input to the destination.
    Move,
    /// Zero the destination.
    Clear,
}

/// The control-flow operation group.
#[derive(Debug, Clone, Copy, PartialEq, Eq, Structural)]
pub enum Control {
    /// Stop the execution unit.
    Halt,
    /// Continue at the input.
    Jump,
}

/// A resolved operation: one entry of the closed opcode table, tagged with
/// its group.
#[derive(Debug, Clone, Copy, PartialEq, Eq, Structural)]
pub enum Extension {
    Arithmetic(Arithmetic),
    Transfer(Transfer),
    Control(Control),
}

impl Extension {
    /// The operation selected by an extension and operation code pair, if
    /// the pair stands in the table.
    pub open spec fn spec_from_codes(extension: u8, operation: u8) -> Option<Extension> {
        if extension == 0 {
            if operation == 0 {
                Some(Extension::Arithmetic(Arithmetic::Add))
            } else if operation == 1 {
                Some(Extension::Arithmetic(Arithmetic::Subtract))
            } else if operation == 2 {
                Some(Extension::Arithmetic(Arithmetic::Multiply))
            } else if operation == 3 {
                Some(Extension::Arithmetic(Arithmetic::Divide))
            } else if operation == 4 {
                Some(Extension::Arithmetic(Arithmetic::Compare))
            } else {
                None
            }
        } else if extension == 1 {
            if operation == 0 {
                Some(Extension::Transfer(Transfer::Move))
            } else if operation == 1 {
                Some(Extension::Transfer(Transfer::Clear))
            } else {
                None
            }
        } else if extension == 2 {
            if operation == 0 {
                Some(Extension::Control(Control::Halt))
            } else if operation == 1 {
                Some(Extension::Control(Control::Jump))
            } else {
                None
            }
        } else {
            None
        }
    }

    /// Resolve an extension and operation code pair against the closed
    /// opcode table; an unmatched pair yields `None`.
    pub fn from_codes(extension: u8, operation: u8) -> (r: Option<Extension>)
        ensures
            r == Extension::spec_from_codes(extension, operation),
    {
        match (extension, operation) {
            (0, 0) => Some(Extension::Arithmetic(Arithmetic::Add)),
            (0, 1) => Some(Extension::Arithmetic(Arithmetic::Subtract)),
            (0, 2) => Some(Extension::Arithmetic(Arithmetic::Multiply)),
            (0, 3) => Some(Extension::Arithmetic(Arithmetic::Divide)),
            (0, 4) => Some(Extension::Arithmetic(Arithmetic::Compare)),
            (1, 0) => Some(Extension::Transfer(Transfer::Move)),
            (1, 1) => Some(Extension::Transfer(Transfer::Clear)),
            (2, 0) => Some(Extension::Control(Control::Halt)),
            (2, 1) => Some(Extension::Control(Control::Jump)),
            _ => None,
        }
    }

    /// The extension code of this operation's group.
    pub open spec fn spec_extension_code(self) -> u8 {
        match self {
            Extension::Arithmetic(_) => 0,
            Extension::Transfer(_) => 1,
            Extension::Control(_) => 2,
        }
    }

    /// The extension code of this operation's group.
    #[verifier::when_used_as_spec(spec_extension_code)]
    pub fn extension_code(self) -> (r: u8)
        ensures
            r == self.spec_extension_code(),
    {
        match self {
            Extension::Arithmetic(_) => 0,
            Extension::Transfer(_) => 1,
            Extension::Control(_) => 2,
        }
    }

    /// The operation code of this operation inside its group.
    pub open spec fn spec_operation_code(self) -> u8 {
        match self {
            Extension::Arithmetic(Arithmetic::Add) => 0,
            Extension::Arithmetic(Arithmetic::Subtract) => 1,
            Extension::Arithmetic(Arithmetic::Multiply) => 2,
            Extension::Arithmetic(Arithmetic::Divide) => 3,
            Extension::Arithmetic(Arithmetic::Compare) => 4,
            Extension::Transfer(Transfer::Move) => 0,
            Extension::Transfer(Transfer::Clear) => 1,
            Extension::Control(Control::Halt) => 0,
            Extension::Control(Control::Jump) => 1,
        }
    }

    /// The operation code of this operation inside its group.
    #[verifier::when_used_as_spec(spec_operation_code)]
    pub fn operation_code(self) -> (r: u8)
        ensures
            r == self.spec_operation_code(),
    {
        match self {
            Extension::Arithmetic(Arithmetic::Add) => 0,
            Extension::Arithmetic(Arithmetic::Subtract) => 1,
            Extension::Arithmetic(Arithmetic::Multiply) => 2,
            Extension::Arithmetic(Arithmetic::Divide) => 3,
            Extension::Arithmetic(Arithmetic::Compare) => 4,
            Extension::Transfer(Transfer::Move) => 0,
            Extension::Transfer(Transfer::Clear) => 1,
            Extension::Control(Control::Halt) => 0,
            Extension::Control(Control::Jump) => 1,
        }
    }

    /// The operand slots this operation declares it needs.
    pub open spec fn spec_expectation(self) -> Expectation {
        match self {
            Extension::Arithmetic(Arithmetic::Compare) => Expectation::DualInput,
            Extension::Arithmetic(_) => Expectation::All,
            Extension::Transfer(Transfer::Move) => Expectation::DestinationAndInput,
            Extension::Transfer(Transfer::Clear) => Expectation::Destination,
            Extension::Control(Control::Halt) => Expectation::NoOperands,
            Extension::Control(Control::Jump) => Expectation::SingleInput,
        }
    }

    /// The operand slots this operation declares it needs.
    #[verifier::when_used_as_spec(spec_expectation)]
    pub fn expectation(self) -> (r: Expectation)
        ensures
            r == self.spec_expectation(),
    {
        match self {
            Extension::Arithmetic(Arithmetic::Compare) => Expectation::DualInput,
            Extension::Arithmetic(_) => Expectation::All,
            Extension::Transfer(Transfer::Move) => Expectation::DestinationAndInput,
            Extension::Transfer(Transfer::Clear) => Expectation::Destination,
            Extension::Control(Control::Halt) => Expectation::NoOperands,
            Extension::Control(Control::Jump) => Expectation::SingleInput,
        }
    }

    /// Whether this operation expects any operands, and so whether an
    /// instruction of it carries a data byte.
    pub fn expects_operand(self) -> (r: bool)
        ensures
            r == (self.spec_expectation() != Expectation::NoOperands),
    {
        !matches!(self.expectation(), Expectation::NoOperands)
    }
}

/// A pair that resolves in the opcode table resolves to the operation whose
/// codes are exactly that pair.
pub proof fn lemma_from_codes_codes(extension: u8, operation: u8)
    ensures
        Extension::spec_from_codes(extension, operation) matches Some(resolved) ==> {
            &&& resolved.spec_extension_code() == extension
            &&& resolved.spec_operation_code() == operation
        },
{
}

/// Resolving an operation's own codes finds the operation again: the table
/// assigns each operation a distinct code pair.
pub proof fn lemma_codes_resolve(operation: Extension)
    ensures
        Extension::spec_from_codes(
            operation.spec_extension_code(),
            operation.spec_operation_code(),
        ) == Some(operation),
{
}

} // verus!
