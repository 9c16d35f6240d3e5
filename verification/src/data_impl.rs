//! Traits for the data that surrounding layers store through this
//! one: heap-resident values and type payloads of the intermediate
//! representation.

use vstd::prelude::*;

verus! {

/// Data that lives in the heap.
pub trait HeapData: Sized {
    fn new(&mut self) -> Self;

    fn get_data<T>(&mut self) -> Option<T>;

    fn get_last<T>(&mut self) -> Option<T>;
}

/// Type content that lives in the intermediate representation.
pub trait TypeDataIRa {

}

} // verus!
