use vstd::prelude::*;

use crate::memory::{DeviceMemory, Error, Stream};
use crate::phases::{non_decreasing, transposition_phases};
use crate::scalar::GPUSortAllowed;
use crate::sorting;

verus! {

/// Sorting and order checking on a device array of sortable scalars.
///
/// The blocking forms wait until the work has completed; the `_async` forms
/// enqueue it on the caller's stream. The order check always tests
/// non-decreasing order, whichever direction the array was sorted in.
pub trait MemoryExt<T: GPUSortAllowed> {
    /// The elements of the array, in order.
    spec fn elements(&self) -> Seq<T>;

    /// Sorts in ascending order and waits for completion.
    fn sort(&mut self) -> (r: Result<(), Error>)
        ensures
            r is Ok,
            final(self).elements() == transposition_phases(old(self).elements(), true),
            final(self).elements().to_multiset() == old(self).elements().to_multiset(),
    ;

    /// Sorts in descending order and waits for completion.
    fn sort_desc(&mut self) -> (r: Result<(), Error>)
        ensures
            r is Ok,
            final(self).elements() == transposition_phases(old(self).elements(), false),
            final(self).elements().to_multiset() == old(self).elements().to_multiset(),
    ;

    /// Enqueues an ascending sort on `stream`.
    fn sort_async(&mut self, stream: &Stream) -> (r: Result<(), Error>)
        ensures
            r is Ok,
            final(self).elements() == transposition_phases(old(self).elements(), true),
            final(self).elements().to_multiset() == old(self).elements().to_multiset(),
    ;

    /// Enqueues a descending sort on `stream`.
    fn sort_desc_async(&mut self, stream: &Stream) -> (r: Result<(), Error>)
        ensures
            r is Ok,
            final(self).elements() == transposition_phases(old(self).elements(), false),
            final(self).elements().to_multiset() == old(self).elements().to_multiset(),
    ;

    /// Whether the array is non-decreasing; an error below two elements.
    fn check_sorted(&self) -> (r: Result<bool, Error>)
        ensures
            self.elements().len() < 2 ==> r == Err::<bool, Error>(Error::TooFewElements),
            self.elements().len() >= 2 ==> r == Ok::<bool, Error>(non_decreasing(self.elements())),
    ;

    /// As `check_sorted`, with the results brought back on `stream`.
    fn check_sorted_async(&self, stream: &Stream) -> (r: Result<bool, Error>)
        ensures
            self.elements().len() < 2 ==> r == Err::<bool, Error>(Error::TooFewElements),
            self.elements().len() >= 2 ==> r == Ok::<bool, Error>(non_decreasing(self.elements())),
    ;
}

impl<T: GPUSortAllowed> MemoryExt<T> for DeviceMemory<T> {
    open spec fn elements(&self) -> Seq<T> {
        self@
    }

    fn sort(&mut self) -> (r: Result<(), Error>) {
        let stream = Stream::new();
        self.sort_async(&stream)?;
        stream.synchronize();
        Ok(())
    }

    fn sort_desc(&mut self) -> (r: Result<(), Error>) {
        let stream = Stream::new();
        self.sort_desc_async(&stream)?;
        stream.synchronize();
        Ok(())
    }

    fn sort_async(&mut self, stream: &Stream) -> (r: Result<(), Error>) {
        sorting::sort(self, stream, true)
    }

    fn sort_desc_async(&mut self, stream: &Stream) -> (r: Result<(), Error>) {
        sorting::sort(self, stream, false)
    }

    fn check_sorted(&self) -> (r: Result<bool, Error>) {
        sorting::check_sorted(self, None)
    }

    fn check_sorted_async(&self, stream: &Stream) -> (r: Result<bool, Error>) {
        sorting::check_sorted(self, Some(stream))
    }
}

} // verus!
