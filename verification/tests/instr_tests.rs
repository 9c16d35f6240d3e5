//! The closed tagged variant over classical and quantum instructions.

use hhat_core::instr::{ClassicalInstr, CodeInstr, Instructions, QuantumInstr};
use hhat_core::ir::Identifier;

fn ident(name: &str) -> Identifier {
    Identifier { namespace: Vec::new(), name: name.to_string() }
}

/// The holder keeps both instruction kinds, in push order.
#[test]
fn instructions_hold_both_kinds() {
    let mut instrs = Instructions::new();
    assert_eq!(instrs.len(), 0);

    instrs.push(CodeInstr::Classical(ClassicalInstr::new(ident("add"))));
    instrs.push(CodeInstr::Quantum(QuantumInstr::new(ident("hadamard"))));
    assert_eq!(instrs.len(), 2);

    match instrs.get(0) {
        CodeInstr::Classical(c) => assert_eq!(c.id.name, "add"),
        CodeInstr::Quantum(_) => panic!("expected a classical instruction"),
    }
    match instrs.get(1) {
        CodeInstr::Quantum(q) => assert_eq!(q.id.name, "hadamard"),
        CodeInstr::Classical(_) => panic!("expected a quantum instruction"),
    }
}
