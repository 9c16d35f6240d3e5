//! Per-execution-context memory management: a bounded value stack, a
//! shared-ownership heap store keyed by qualified identifiers, and the
//! process-identity registry that tracks the lifecycle status of every
//! schedulable execution unit.

use std::collections::HashMap;
use std::rc::Rc;
use vstd::prelude::*;

use crate::ir::Identifier;

verus! {

broadcast use vstd::std_specs::hash::group_hash_axioms;

//-----------------------
// MEMORY MANAGER SCOPE
//-----------------------

/// Memory manager: holds stack, heap, index, quantum instructions and
/// the process identity for one closure — a program body, a function,
/// or a quantum routine.
pub struct Memory<V, const N: usize> {
    pub stack: Stack<V, N>,
    pub heap: Heap<V>,
    pub index: Index,
    pub q_instr: QInstr,
    pub pid: Pid,
}

impl<V, const N: usize> Memory<V, N> {
    /// A fresh execution memory: empty stack and heap, and a new
    /// process registered `Ready` with the given registry.
    pub fn new(id_counter: &mut IdCounter) -> (m: Memory<V, N>)
        requires
            old(id_counter).wf(),
        ensures
            final(id_counter).wf(),
            m.stack.wf(),
            m.stack.spec_data().len() == 0,
            m.heap.wf(),
            m.heap.spec_entries().len() == 0,
            final(id_counter).spec_map() == old(id_counter).spec_map().insert(
                m.pid.spec_id(),
                PidState { id: m.pid.spec_id(), status: PidStatus::Ready },
            ),
            final(id_counter).spec_last() == Some(m.pid.spec_id()),
    {
        Memory {
            stack: Stack::new(),
            heap: Heap::new(),
            index: Index::new(),
            q_instr: QInstr::new(),
            pid: Pid::new(id_counter),
        }
    }
}

//--------------
// STACK SCOPE
//--------------

/// Stack manager: a bounded stack of values with capacity `N`.
pub struct Stack<V, const N: usize> {
    data: Vec<V>,
    stack_pointer: usize,
}

impl<V, const N: usize> Stack<V, N> {
    /// The stacked values, bottom first.
    pub closed spec fn spec_data(&self) -> Seq<V> {
        self.data@
    }

    /// Well-formedness: the stack pointer counts the stacked values,
    /// which never exceed the capacity.
    pub closed spec fn wf(&self) -> bool {
        &&& self.stack_pointer == self.data@.len()
        &&& self.data@.len() <= N
    }

    /// An empty stack.
    pub fn new() -> (s: Stack<V, N>)
        ensures
            s.wf(),
            s.spec_data().len() == 0,
    {
        Stack { data: Vec::new(), stack_pointer: 0 }
    }

    /// How many values are stacked.
    pub fn len(&self) -> (r: usize)
        ensures
            r == self.spec_data().len(),
    {
        self.data.len()
    }

    /// Push a value; the capacity bound is the caller's obligation.
    pub fn push(&mut self, value: V)
        requires
            old(self).wf(),
            old(self).spec_data().len() < N,
        ensures
            final(self).wf(),
            final(self).spec_data() == old(self).spec_data().push(value),
    {
        self.stack_pointer = self.stack_pointer + 1;
        self.data.push(value);
    }
}

//-------------
// HEAP SCOPE
//-------------

/// Relies on `Rc::clone` (vstd gives it no specification): the clone
/// is a new handle to the same shared value.
#[verifier::external_body]
fn rc_clone<V>(handle: &Rc<V>) -> (r: Rc<V>)
    ensures
        r == *handle,
{
    Rc::clone(handle)
}

/// Heap manager: reference-counted values published under qualified
/// identifiers.  A bound value is immutable after publication; the
/// last handle to it controls its lifetime.
pub struct Heap<V> {
    data: Vec<(Identifier, Rc<V>)>,
}

impl<V> Heap<V> {
    /// The bindings, in insertion order.
    pub closed spec fn spec_entries(&self) -> Seq<(Identifier, Rc<V>)> {
        self.data@
    }

    /// Well-formedness: one binding per qualified identifier.
    pub closed spec fn wf(&self) -> bool {
        forall|i: int, j: int|
            0 <= i < j < self.data@.len() ==> (#[trigger] self.data@[i]).0@ != (
            #[trigger] self.data@[j]).0@
    }

    /// Whether some binding carries the key.
    pub open spec fn spec_contains(&self, key: (Seq<Seq<char>>, Seq<char>)) -> bool {
        exists|i: int| 0 <= i < self.spec_entries().len() && (#[trigger] self.spec_entries()[i]).0@
            == key
    }

    /// An empty heap.
    pub fn new() -> (h: Heap<V>)
        ensures
            h.wf(),
            h.spec_entries().len() == 0,
    {
        Heap { data: Vec::new() }
    }

    /// Publish `value` under `id` and hand back a shared handle.
    /// Rebinding an existing identifier replaces the mapping; the old
    /// value lives on for whoever still holds a handle to it.
    #[verifier::loop_isolation(false)]
    pub fn bind(&mut self, id: Identifier, value: V) -> (h: Rc<V>)
        requires
            old(self).wf(),
        ensures
            final(self).wf(),
            *h == value,
            forall|i: int|
                0 <= i < old(self).spec_entries().len() && (
                #[trigger] old(self).spec_entries()[i]).0@ != id@ ==> final(self).spec_entries()[i]
                    == old(self).spec_entries()[i],
            old(self).spec_contains(id@) ==> {
                &&& final(self).spec_entries().len() == old(self).spec_entries().len()
                &&& forall|i: int|
                    0 <= i < old(self).spec_entries().len() && (
                    #[trigger] old(self).spec_entries()[i]).0@ == id@
                        ==> (final(self).spec_entries()[i].0@ == id@
                        && final(self).spec_entries()[i].1 == h)
            },
            !old(self).spec_contains(id@) ==> {
                &&& final(self).spec_entries().len() == old(self).spec_entries().len() + 1
                &&& final(self).spec_entries().last().0@ == id@
                &&& final(self).spec_entries().last().1 == h
            },
            final(self).spec_contains(id@),
    {
        let handle = Rc::new(value);
        let stored = rc_clone(&handle);
        let mut i: usize = 0;
        let len = self.data.len();
        while i < len
            invariant
                i <= len,
                *self == *old(self),
                len == self.data@.len(),
                forall|j: int| 0 <= j < i ==> (#[trigger] self.data@[j]).0@ != id@,
            decreases len - i,
        {
            if self.data[i].0 == id {
                proof {
                    assert(self.data@[i as int].0@ == id@);
                    assert forall|k: int|
                        0 <= k < self.data@.len() && (self.data@[k]).0@ == id@ implies k == i by {
                        if k != i {
                            assert((self.data@[k]).0@ != (self.data@[i as int]).0@);
                        }
                    }
                }
                self.data[i] = (id, stored);
                proof {
                    assert(self.data@ == old(self).data@.update(i as int, (id, stored)));
                    assert forall|x: int, y: int|
                        0 <= x < y < self.data@.len() implies (#[trigger] self.data@[x]).0@ != (
                    #[trigger] self.data@[y]).0@ by {
                        assert((old(self).data@[x]).0@ != (old(self).data@[y]).0@);
                    }
                    assert((self.spec_entries()[i as int]).0@ == id@);
                    assert(self.spec_contains(id@));
                }
                return handle;
            }
            i = i + 1;
        }
        self.data.push((id, stored));
        proof {
            assert(self.data@ == old(self).data@.push((id, stored)));
            let newlen = self.data@.len() as int;
            assert forall|x: int, y: int|
                0 <= x < y < newlen implies (#[trigger] self.data@[x]).0@ != (
            #[trigger] self.data@[y]).0@ by {
                if y == newlen - 1 {
                    assert(self.data@[x] == old(self).data@[x]);
                    assert((old(self).data@[x]).0@ != id@);
                } else {
                    assert(self.data@[x] == old(self).data@[x]);
                    assert(self.data@[y] == old(self).data@[y]);
                    assert((old(self).data@[x]).0@ != (old(self).data@[y]).0@);
                }
            }
            assert((self.spec_entries()[newlen - 1]).0@ == id@);
            assert(self.spec_contains(id@));
            assert(!old(self).spec_contains(id@)) by {
                if old(self).spec_contains(id@) {
                    let k = choose|k: int|
                        0 <= k < old(self).spec_entries().len() && (
                        #[trigger] old(self).spec_entries()[k]).0@ == id@;
                    assert((old(self).data@[k]).0@ != id@);
                }
            }
        }
        handle
    }

    /// Look a binding up: the shared handle if the identifier is
    /// bound, `None` exactly when it is not.
    #[verifier::loop_isolation(false)]
    pub fn lookup(&self, id: &Identifier) -> (res: Option<Rc<V>>)
        requires
            self.wf(),
        ensures
            res is Some <==> self.spec_contains(id@),
            res matches Some(h) ==> exists|i: int|
                0 <= i < self.spec_entries().len() && (#[trigger] self.spec_entries()[i]).0@ == id@
                    && self.spec_entries()[i].1 == h,
    {
        let mut i: usize = 0;
        let len = self.data.len();
        while i < len
            invariant
                i <= len,
                len == self.data@.len(),
                forall|j: int| 0 <= j < i ==> (#[trigger] self.data@[j]).0@ != id@,
            decreases len - i,
        {
            if self.data[i].0 == *id {
                proof {
                    assert(self.data@[i as int].0@ == id@);
                    assert(self.spec_entries() == self.data@);
                    assert((self.spec_entries()[i as int]).0@ == id@);
                    assert(self.spec_contains(id@));
                }
                return Some(rc_clone(&self.data[i].1));
            }
            i = i + 1;
        }
        None
    }

    /// Remove a binding and hand back its handle; the value itself
    /// persists while other handles hold it.  `None` exactly when the
    /// identifier is not bound.
    #[verifier::loop_isolation(false)]
    pub fn unbind(&mut self, id: &Identifier) -> (res: Option<Rc<V>>)
        requires
            old(self).wf(),
        ensures
            final(self).wf(),
            res is Some <==> old(self).spec_contains(id@),
            old(self).spec_contains(id@) ==> exists|i: int|
                0 <= i < old(self).spec_entries().len() && (
                #[trigger] old(self).spec_entries()[i]).0@ == id@ && res == Some(
                    old(self).spec_entries()[i].1,
                ) && final(self).spec_entries() == old(self).spec_entries().remove(i),
            !old(self).spec_contains(id@) ==> res is None && *final(self) == *old(self),
            !final(self).spec_contains(id@),
    {
        let mut i: usize = 0;
        let len = self.data.len();
        while i < len
            invariant
                i <= len,
                *self == *old(self),
                len == self.data@.len(),
                forall|j: int| 0 <= j < i ==> (#[trigger] self.data@[j]).0@ != id@,
            decreases len - i,
        {
            if self.data[i].0 == *id {
                proof {
                    assert(self.data@[i as int].0@ == id@);
                    assert((self.spec_entries()[i as int]).0@ == id@);
                    assert(old(self).spec_contains(id@));
                }
                let (_, handle) = self.data.remove(i);
                proof {
                    old(self).data@.remove_ensures(i as int);
                    assert forall|x: int|
                        0 <= x < self.data@.len() implies (#[trigger] self.data@[x]).0@ != id@ by {
                        if x < i {
                            assert(self.data@[x] == old(self).data@[x]);
                            assert((old(self).data@[x]).0@ != (old(self).data@[i as int]).0@);
                        } else {
                            assert(self.data@[x] == old(self).data@[x + 1]);
                            assert((old(self).data@[x + 1]).0@ != (old(self).data@[i as int]).0@);
                        }
                    }
                    assert forall|x: int, y: int|
                        0 <= x < y < self.data@.len() implies (#[trigger] self.data@[x]).0@ != (
                    #[trigger] self.data@[y]).0@ by {
                        let x0: int = if x < i { x } else { x + 1 };
                        let y0: int = if y < i { y } else { y + 1 };
                        assert(self.data@[x] == old(self).data@[x0]);
                        assert(self.data@[y] == old(self).data@[y0]);
                        assert((old(self).data@[x0]).0@ != (old(self).data@[y0]).0@);
                    }
                    assert(!self.spec_contains(id@)) by {
                        if self.spec_contains(id@) {
                            let k = choose|k: int|
                                0 <= k < self.spec_entries().len() && (
                                #[trigger] self.spec_entries()[k]).0@ == id@;
                            assert((self.data@[k]).0@ != id@);
                        }
                    }
                    assert((old(self).spec_entries()[i as int]).0@ == id@);
                    assert(self.spec_entries() =~= old(self).spec_entries().remove(i as int));
                }
                return Some(handle);
            }
            i = i + 1;
        }
        None
    }
}

//--------------
// INDEX SCOPE
//--------------

/// Index manager for one execution context.
pub struct Index {

}

impl Index {
    /// A fresh index manager.
    pub fn new() -> (r: Index) {
        Index {  }
    }
}

//-----------------------------
// QUANTUM INSTRUCTIONS SCOPE
//-----------------------------

/// Quantum instructions manager for one execution context.
pub struct QInstr {

}

impl QInstr {
    /// A fresh quantum instruction manager.
    pub fn new() -> (r: QInstr) {
        QInstr {  }
    }
}

//----------------------
// PROCESSES IDS SCOPE
//----------------------

/// Relies on `uuid::Uuid::new_v4`: a freshly generated random
/// (version 4) UUID, taken as its 128-bit value.  The value is drawn
/// from the system's randomness, so nothing is promised about it.
#[verifier::external_body]
fn fresh_uuid_bits() -> u128 {
    uuid::Uuid::new_v4().as_u128()
}

/// Lifecycle status of one schedulable execution unit.
#[derive(Debug, Clone, Copy, PartialEq, Eq, Structural)]
pub enum PidStatus {
    /// Being executed.
    Active,
    /// Waiting in the queue for execution.
    Ready,
    /// Waiting for an external operation to reply.
    Waiting,
    /// Successfully executed; nothing else to do.
    Done,
    /// Stopped by the parent process.
    Disabled,
    /// Some error occurred.
    Error(PidErrorNumber),
}

/// Possible error causes recorded in [`PidStatus::Error`].
#[derive(Debug, Clone, Copy, PartialEq, Eq, Structural)]
pub enum PidErrorNumber {
    Timeout,
    InvalidData,
    InvalidOperation,
    AccessingDonePid,
    AccessingDisabledPid,
}

/// Errors of the registry's transition API.
#[derive(Debug, Clone, Copy, PartialEq, Eq, Structural)]
pub enum ProcessError {
    UnknownPid,
    IllegalTransition,
}

/// One registered process: its identity and its current status.
#[derive(Debug, Clone, Copy, PartialEq, Eq, Structural)]
pub struct PidState {
    pub id: u128,
    pub status: PidStatus,
}

/// The legal lifecycle transitions: `Ready→Active`, `Active→Waiting`,
/// `Waiting→Active`, `Active→Done`, `Active→Error`, and `Disabled`
/// from any non-terminal state.  `Done`, `Disabled` and `Error` are
/// terminal: nothing leaves them.
pub open spec fn spec_legal_transition(from: PidStatus, to: PidStatus) -> bool {
    match (from, to) {
        (PidStatus::Ready, PidStatus::Active) => true,
        (PidStatus::Active, PidStatus::Waiting) => true,
        (PidStatus::Waiting, PidStatus::Active) => true,
        (PidStatus::Active, PidStatus::Done) => true,
        (PidStatus::Active, PidStatus::Error(_)) => true,
        (PidStatus::Ready, PidStatus::Disabled) => true,
        (PidStatus::Active, PidStatus::Disabled) => true,
        (PidStatus::Waiting, PidStatus::Disabled) => true,
        _ => false,
    }
}

/// Executable transition legality check, proved against
/// [`spec_legal_transition`].
pub fn legal_transition(from: PidStatus, to: PidStatus) -> (r: bool)
    ensures
        r == spec_legal_transition(from, to),
{
    match (from, to) {
        (PidStatus::Ready, PidStatus::Active) => true,
        (PidStatus::Active, PidStatus::Waiting) => true,
        (PidStatus::Waiting, PidStatus::Active) => true,
        (PidStatus::Active, PidStatus::Done) => true,
        (PidStatus::Active, PidStatus::Error(_)) => true,
        (PidStatus::Ready, PidStatus::Disabled) => true,
        (PidStatus::Active, PidStatus::Disabled) => true,
        (PidStatus::Waiting, PidStatus::Disabled) => true,
        _ => false,
    }
}

/// The lifecycle laws of the registry: a new process starts `Ready`
/// (that is [`IdCounter::gen_id`]'s own contract); `Ready→Active→Done`
/// is legal step by step; `Done→Active` is not; `Disabled` is
/// reachable from `Ready`, `Active` and `Waiting`, and no transition
/// at all leaves `Done`, `Disabled` or `Error`.
pub proof fn lemma_pid_lifecycle()
    ensures
        spec_legal_transition(PidStatus::Ready, PidStatus::Active),
        spec_legal_transition(PidStatus::Active, PidStatus::Done),
        !spec_legal_transition(PidStatus::Done, PidStatus::Active),
        spec_legal_transition(PidStatus::Ready, PidStatus::Disabled),
        spec_legal_transition(PidStatus::Active, PidStatus::Disabled),
        spec_legal_transition(PidStatus::Waiting, PidStatus::Disabled),
        forall|t: PidStatus| !spec_legal_transition(PidStatus::Done, t),
        forall|t: PidStatus| !spec_legal_transition(PidStatus::Disabled, t),
        forall|n: PidErrorNumber, t: PidStatus| !spec_legal_transition(PidStatus::Error(n), t),
{
}

/// Process identity manager: the identity of one execution unit.
pub struct Pid {
    id: u128,
}

impl Pid {
    /// The 128-bit identity value.
    pub closed spec fn spec_id(&self) -> u128 {
        self.id
    }

    /// Generate a fresh identity through the registry; the new process
    /// is registered `Ready` and recorded as the most recent one.
    pub fn new(id_counter: &mut IdCounter) -> (p: Pid)
        requires
            old(id_counter).wf(),
        ensures
            final(id_counter).wf(),
            final(id_counter).spec_map() == old(id_counter).spec_map().insert(
                p.spec_id(),
                PidState { id: p.spec_id(), status: PidStatus::Ready },
            ),
            final(id_counter).spec_last() == Some(p.spec_id()),
    {
        Pid { id: id_counter.gen_id() }
    }

    /// The identity value.
    pub fn id(&self) -> (r: u128)
        ensures
            r == self.spec_id(),
    {
        self.id
    }
}

/// The process registry: generates identities and is the one authority
/// over their lifecycle status.
pub struct IdCounter {
    last_id: Option<u128>,
    ids_list: HashMap<u128, PidState>,
}

impl IdCounter {
    /// The most recently generated identity, if any.
    pub closed spec fn spec_last(&self) -> Option<u128> {
        self.last_id
    }

    /// The registered processes, by identity.
    pub closed spec fn spec_map(&self) -> Map<u128, PidState> {
        self.ids_list@
    }

    /// Well-formedness: every record is registered under its own
    /// identity.
    pub closed spec fn wf(&self) -> bool {
        forall|k: u128| #[trigger]
            self.ids_list@.contains_key(k) ==> self.ids_list@[k].id == k
    }

    /// An empty registry.
    pub fn init() -> (c: IdCounter)
        ensures
            c.wf(),
            c.spec_last() is None,
            c.spec_map() == Map::<u128, PidState>::empty(),
    {
        IdCounter { last_id: None, ids_list: HashMap::new() }
    }

    /// Generate and register a new identity: the fresh process starts
    /// `Ready` and becomes the most recently generated one.
    pub fn gen_id(&mut self) -> (r: u128)
        requires
            old(self).wf(),
        ensures
            final(self).wf(),
            final(self).spec_map() == old(self).spec_map().insert(
                r,
                PidState { id: r, status: PidStatus::Ready },
            ),
            final(self).spec_last() == Some(r),
    {
        let id: u128 = fresh_uuid_bits();
        self.ids_list.insert(id, PidState { id, status: PidStatus::Ready });
        self.last_id = Some(id);
        id
    }

    /// The most recently generated identity; that one exists is the
    /// caller's obligation.
    pub fn get_last_id(&mut self) -> (r: u128)
        requires
            old(self).spec_last() is Some,
        ensures
            *final(self) == *old(self),
            Some(r) == old(self).spec_last(),
    {
        match self.last_id {
            Some(id) => id,
            None => vstd::pervasive::unreached(),
        }
    }

    /// The status of a registered process; `UnknownPid` exactly when
    /// the identity was never registered.
    pub fn get_status(&self, pid: u128) -> (res: Result<PidStatus, ProcessError>)
        requires
            self.wf(),
        ensures
            self.spec_map().contains_key(pid) ==> res == Ok::<PidStatus, ProcessError>(
                self.spec_map()[pid].status,
            ),
            !self.spec_map().contains_key(pid) ==> res == Err::<PidStatus, ProcessError>(
                ProcessError::UnknownPid,
            ),
    {
        match self.ids_list.get(&pid) {
            Some(state) => Ok(state.status),
            None => Err(ProcessError::UnknownPid),
        }
    }

    /// Request a status transition.  It is applied exactly when the
    /// identity is registered and the step is legal; an unknown
    /// identity reports `UnknownPid`, and an illegal step — any step
    /// out of `Done`, `Disabled` or `Error` included — reports
    /// `IllegalTransition` and changes nothing.
    pub fn set_status(&mut self, pid: u128, new_status: PidStatus) -> (res: Result<
        (),
        ProcessError,
    >)
        requires
            old(self).wf(),
        ensures
            final(self).wf(),
            !old(self).spec_map().contains_key(pid) ==> res == Err::<(), ProcessError>(
                ProcessError::UnknownPid,
            ) && *final(self) == *old(self),
            old(self).spec_map().contains_key(pid) && !spec_legal_transition(
                old(self).spec_map()[pid].status,
                new_status,
            ) ==> res == Err::<(), ProcessError>(ProcessError::IllegalTransition) && *final(self)
                == *old(self),
            old(self).spec_map().contains_key(pid) && spec_legal_transition(
                old(self).spec_map()[pid].status,
                new_status,
            ) ==> res == Ok::<(), ProcessError>(())
                && final(self).spec_map() == old(self).spec_map().insert(
                pid,
                PidState { id: pid, status: new_status },
            ) && final(self).spec_last() == old(self).spec_last(),
    {
        let current = match self.ids_list.get(&pid) {
            Some(state) => state.status,
            None => {
                return Err(ProcessError::UnknownPid);
            },
        };
        if legal_transition(current, new_status) {
            self.ids_list.insert(pid, PidState { id: pid, status: new_status });
            Ok(())
        } else {
            Err(ProcessError::IllegalTransition)
        }
    }
}

} // verus!
