//! The process registry and the per-context memory composition: pid
//! generation, lifecycle transitions, the heap store and the bounded
//! stack.

use hhat_core::ir::Identifier;
use hhat_core::memory::{
    Heap, IdCounter, Memory, Pid, PidErrorNumber, PidStatus, ProcessError, Stack,
};

fn ident(ns: &[&str], name: &str) -> Identifier {
    Identifier {
        namespace: ns.iter().map(|s| s.to_string()).collect(),
        name: name.to_string(),
    }
}

/// A new process starts `Ready`; `Ready→Active→Done` succeeds step by
/// step; `Done→Active` fails with `IllegalTransition`.
#[test]
fn lifecycle_ready_active_done() {
    let mut registry = IdCounter::init();
    let pid = registry.gen_id();
    assert_eq!(registry.get_status(pid), Ok(PidStatus::Ready));

    assert_eq!(registry.set_status(pid, PidStatus::Active), Ok(()));
    assert_eq!(registry.get_status(pid), Ok(PidStatus::Active));
    assert_eq!(registry.set_status(pid, PidStatus::Done), Ok(()));
    assert_eq!(registry.get_status(pid), Ok(PidStatus::Done));

    assert_eq!(
        registry.set_status(pid, PidStatus::Active),
        Err(ProcessError::IllegalTransition)
    );
    assert_eq!(registry.get_status(pid), Ok(PidStatus::Done));
}

/// `Disabled` is reachable from `Ready`, `Active` and `Waiting`, but
/// never from `Done` or `Error`.
#[test]
fn lifecycle_disabled_reachability() {
    let mut registry = IdCounter::init();

    let from_ready = registry.gen_id();
    assert_eq!(registry.set_status(from_ready, PidStatus::Disabled), Ok(()));

    let from_active = registry.gen_id();
    registry.set_status(from_active, PidStatus::Active).unwrap();
    assert_eq!(registry.set_status(from_active, PidStatus::Disabled), Ok(()));

    let from_waiting = registry.gen_id();
    registry.set_status(from_waiting, PidStatus::Active).unwrap();
    registry.set_status(from_waiting, PidStatus::Waiting).unwrap();
    assert_eq!(registry.set_status(from_waiting, PidStatus::Disabled), Ok(()));

    let from_done = registry.gen_id();
    registry.set_status(from_done, PidStatus::Active).unwrap();
    registry.set_status(from_done, PidStatus::Done).unwrap();
    assert_eq!(
        registry.set_status(from_done, PidStatus::Disabled),
        Err(ProcessError::IllegalTransition)
    );

    let from_error = registry.gen_id();
    registry.set_status(from_error, PidStatus::Active).unwrap();
    registry
        .set_status(from_error, PidStatus::Error(PidErrorNumber::Timeout))
        .unwrap();
    assert_eq!(
        registry.set_status(from_error, PidStatus::Disabled),
        Err(ProcessError::IllegalTransition)
    );
}

/// `Waiting` only alternates with `Active`; terminal states accept
/// nothing further.
#[test]
fn lifecycle_waiting_and_terminals() {
    let mut registry = IdCounter::init();
    let pid = registry.gen_id();

    // Ready cannot jump to Waiting or Done
    assert_eq!(
        registry.set_status(pid, PidStatus::Waiting),
        Err(ProcessError::IllegalTransition)
    );
    assert_eq!(
        registry.set_status(pid, PidStatus::Done),
        Err(ProcessError::IllegalTransition)
    );

    registry.set_status(pid, PidStatus::Active).unwrap();
    registry.set_status(pid, PidStatus::Waiting).unwrap();
    // Waiting cannot end directly
    assert_eq!(
        registry.set_status(pid, PidStatus::Done),
        Err(ProcessError::IllegalTransition)
    );
    registry.set_status(pid, PidStatus::Active).unwrap();
    registry
        .set_status(pid, PidStatus::Error(PidErrorNumber::InvalidOperation))
        .unwrap();
    // Error is terminal
    assert_eq!(
        registry.set_status(pid, PidStatus::Active),
        Err(ProcessError::IllegalTransition)
    );
}

/// Unknown identities are reported as such.
#[test]
fn unknown_pid_reported() {
    let mut registry = IdCounter::init();
    assert_eq!(registry.get_status(7), Err(ProcessError::UnknownPid));
    assert_eq!(
        registry.set_status(7, PidStatus::Active),
        Err(ProcessError::UnknownPid)
    );
}

/// The registry records the most recently generated identity, and
/// fresh identities are distinct.
#[test]
fn last_id_and_freshness() {
    let mut registry = IdCounter::init();
    let first = registry.gen_id();
    assert_eq!(registry.get_last_id(), first);
    let second = registry.gen_id();
    assert_eq!(registry.get_last_id(), second);
    assert_ne!(first, second);
}

/// A `Pid` handle registers itself `Ready` with the registry.
#[test]
fn pid_registers_ready() {
    let mut registry = IdCounter::init();
    let pid = Pid::new(&mut registry);
    assert_eq!(registry.get_status(pid.id()), Ok(PidStatus::Ready));
    assert_eq!(registry.get_last_id(), pid.id());
}

/// Heap bindings: publish, look up, rebind, unbind.
#[test]
fn heap_bind_lookup_unbind() {
    let mut heap: Heap<u64> = Heap::new();
    let key = ident(&["main", "inner"], "x");

    assert!(heap.lookup(&key).is_none());

    let handle = heap.bind(ident(&["main", "inner"], "x"), 42);
    assert_eq!(*handle, 42);

    let found = heap.lookup(&key).unwrap();
    assert_eq!(*found, 42);

    // another qualified name is another binding
    let other = ident(&["main"], "x");
    assert!(heap.lookup(&other).is_none());
    heap.bind(ident(&["main"], "x"), 7);
    assert_eq!(*heap.lookup(&other).unwrap(), 7);
    assert_eq!(*heap.lookup(&key).unwrap(), 42);

    // rebinding replaces the mapping; the old value lives on in the
    // handles already out
    heap.bind(ident(&["main", "inner"], "x"), 99);
    assert_eq!(*heap.lookup(&key).unwrap(), 99);
    assert_eq!(*handle, 42);

    // unbind removes the mapping and returns its handle
    let removed = heap.unbind(&key).unwrap();
    assert_eq!(*removed, 99);
    assert!(heap.lookup(&key).is_none());
    assert!(heap.unbind(&key).is_none());
    // the other binding is untouched
    assert_eq!(*heap.lookup(&other).unwrap(), 7);
}

/// Identifier equality goes over the full qualified path.
#[test]
fn identifier_equality() {
    assert_eq!(ident(&["a", "b"], "x"), ident(&["a", "b"], "x"));
    assert_ne!(ident(&["a", "b"], "x"), ident(&["a", "b"], "y"));
    assert_ne!(ident(&["a", "b"], "x"), ident(&["a"], "x"));
    assert_ne!(ident(&["a", "b"], "x"), ident(&["a", "c"], "x"));
    assert_ne!(ident(&[], "x"), ident(&["x"], "x"));
}

/// The bounded value stack counts its pushes.
#[test]
fn value_stack_push() {
    let mut stack: Stack<u64, 4> = Stack::new();
    assert_eq!(stack.len(), 0);
    stack.push(1);
    stack.push(2);
    stack.push(3);
    assert_eq!(stack.len(), 3);
}

/// The composition root wires a fresh stack, heap and pid together.
#[test]
fn memory_composition() {
    let mut registry = IdCounter::init();
    let mut memory: Memory<u64, 8> = Memory::new(&mut registry);
    assert_eq!(
        registry.get_status(memory.pid.id()),
        Ok(PidStatus::Ready)
    );
    assert_eq!(memory.stack.len(), 0);
    memory.stack.push(5);
    assert_eq!(memory.stack.len(), 1);
    let key = ident(&["main"], "result");
    memory.heap.bind(ident(&["main"], "result"), 11);
    assert_eq!(*memory.heap.lookup(&key).unwrap(), 11);
    registry
        .set_status(memory.pid.id(), PidStatus::Active)
        .unwrap();
    assert_eq!(
        registry.get_status(memory.pid.id()),
        Ok(PidStatus::Active)
    );
}
