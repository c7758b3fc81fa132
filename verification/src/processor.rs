//! The execution-context data an execution unit keeps.
//!
//! Executing a decoded instruction — the arithmetic, logic and control-flow
//! effects — is the job of an external collaborator: it is handed a decoded
//! [`Instruction`](crate::instruction::Instruction) value and a mutable
//! execution context, applies the effect, and reports whether to halt. This
//! module only holds the context data that collaborator works on.

use vstd::prelude::*;

use crate::memory::Memory;

verus! {

/// Ports list for input and output.
pub type Ports = [u8; 8];

/// Registers array.
pub type Registers = [u64; 8];

/// The execution context of an individual core.
#[derive(Debug, Clone, PartialEq, Eq)]
pub struct Context {
    pub registers: Registers,
    /// Whether virtual memory address translation is enabled.
    pub virtual_mode: bool,
    /// Points to the start of the current instruction that should be
    /// decoded.
    pub instruction_pointer: u64,
}

/// One execution unit: its own execution context. The recommended
/// deployment gives each core its own decode cache as well.
#[derive(Debug, Clone, PartialEq, Eq)]
pub struct Core {
    pub context: Context,
}

/// Context objects for the units outside a processor core: the shared
/// memory and the input/output ports.
#[derive(Debug, Clone)]
pub struct ExternalContext {
    pub memory: Memory,
    pub ports: Ports,
}

impl Context {
    /// A context with cleared registers, physical addressing, and the
    /// instruction pointer at zero.
    pub fn new() -> (r: Self)
        ensures
            r.registers@ == Seq::<u64>::new(8, |i: int| 0u64),
            !r.virtual_mode,
            r.instruction_pointer == 0,
    {
        let r = Context { registers: [0; 8], virtual_mode: false, instruction_pointer: 0 };
        proof {
            assert(r.registers@ =~= Seq::<u64>::new(8, |i: int| 0u64));
        }
        r
    }
}

impl Core {
    /// A core with a fresh execution context.
    pub fn new() -> (r: Self)
        ensures
            !r.context.virtual_mode,
            r.context.instruction_pointer == 0,
    {
        Core { context: Context::new() }
    }
}

} // verus!
