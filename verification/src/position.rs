use crate::descriptor::{TypeDescriptor, TypeModel};
use std::sync::atomic::{AtomicUsize, Ordering};
use vstd::prelude::*;

verus! {

/// State of a scan that several workers pull from: the position of the next
/// record that nobody has taken, and the record type reduced to the columns
/// that were asked for.
pub struct Hdf5ReadInitData {
    index: AtomicUsize,
    dtype: TypeDescriptor,
}

impl View for Hdf5ReadInitData {
    type V = TypeModel;

    /// The reduced record type.
    closed spec fn view(&self) -> TypeModel {
        self.dtype@
    }
}

impl Hdf5ReadInitData {
    /// A scan that starts at the first record.
    pub fn new(dtype: TypeDescriptor) -> (init: Self)
        ensures
            init@ == dtype@,
    {
        Self { index: AtomicUsize::new(0), dtype }
    }

    /// The reduced record type.
    pub fn dtype(&self) -> (dtype: &TypeDescriptor)
        ensures
            dtype@ == self@,
    {
        &self.dtype
    }

    /// Takes the next position for the caller alone and moves the scan past
    /// it. Which position a caller gets depends on the other callers, so
    /// nothing is stated of it here.
    pub fn claim(&self) -> usize {
        self.index.fetch_add(1, Ordering::Relaxed)
    }
}

} // verus!
