//! Classical and quantum instruction holders.
//!
//! The instruction set is fixed and known in advance, so the two kinds
//! are a closed tagged variant matched explicitly, rather than an
//! open-ended dynamic dispatch.

use vstd::prelude::*;

use crate::ir::Identifier;

verus! {

//-----------------------
// QUANTUM INSTRUCTIONS
//-----------------------

/// Quantum instruction handler.
pub struct QuantumInstr {
    pub id: Identifier,
}

impl QuantumInstr {
    /// A quantum instruction under the given identifier.
    pub fn new(id: Identifier) -> (r: QuantumInstr)
        ensures
            r.id == id,
    {
        QuantumInstr { id }
    }
}

//-------------------------
// CLASSICAL INSTRUCTIONS
//-------------------------

/// Classical instruction handler.
pub struct ClassicalInstr {
    pub id: Identifier,
}

impl ClassicalInstr {
    /// A classical instruction under the given identifier.
    pub fn new(id: Identifier) -> (r: ClassicalInstr)
        ensures
            r.id == id,
    {
        ClassicalInstr { id }
    }
}

//---------------------------
// CODE INSTRUCTIONS
//---------------------------

/// One code instruction: classical or quantum.
pub enum CodeInstr {
    Classical(ClassicalInstr),
    Quantum(QuantumInstr),
}

/// Classical and quantum instructions data holder.
pub struct Instructions {
    data: Vec<CodeInstr>,
}

impl Instructions {
    /// The held instructions, in push order.
    pub closed spec fn spec_data(&self) -> Seq<CodeInstr> {
        self.data@
    }

    /// An empty instruction holder.
    pub fn new() -> (r: Instructions)
        ensures
            r.spec_data().len() == 0,
    {
        Instructions { data: Vec::new() }
    }

    /// Append one instruction.
    pub fn push(&mut self, instr: CodeInstr)
        ensures
            final(self).spec_data() == old(self).spec_data().push(instr),
    {
        self.data.push(instr);
    }

    /// The instruction at `i`.
    pub fn get(&self, i: usize) -> (r: &CodeInstr)
        requires
            i < self.spec_data().len(),
        ensures
            *r == self.spec_data()[i as int],
    {
        &self.data[i]
    }

    /// How many instructions are held.
    pub fn len(&self) -> (r: usize)
        ensures
            r == self.spec_data().len(),
    {
        self.data.len()
    }
}

} // verus!
