use vstd::prelude::*;

verus! {

/// Errors of the sorting and order-check operations.
#[derive(Debug, Clone, Copy, PartialEq, Eq, Structural)]
pub enum Error {
    /// The order check needs at least one adjacent pair, so two elements.
    TooFewElements,
    /// A host copy was given a buffer of another length than the device array.
    LengthMismatch,
    /// A status code other than success from the accelerator runtime.
    Runtime(i32),
}

/// An ordered queue of device operations.
///
/// This backend runs each operation to completion when it is enqueued, so
/// operations on one stream complete in the order in which they were issued
/// and `synchronize` has nothing left to wait for.
pub struct Stream {}

impl Stream {
    /// A new, empty stream.
    pub fn new() -> (r: Stream) {
        Stream {}
    }

    /// Waits until every operation enqueued on the stream has completed.
    pub fn synchronize(&self) {
    }
}

/// A contiguous, fixed-length buffer of elements held by the device.
///
/// Its element count never changes after creation; sorting mutates the
/// elements in place.
pub struct DeviceMemory<T> {
    pub(crate) data: Vec<T>,
}

impl<T: Copy> View for DeviceMemory<T> {
    type V = Seq<T>;

    closed spec fn view(&self) -> Seq<T> {
        self.data@
    }
}

impl<T: Copy> DeviceMemory<T> {
    /// The view is the element buffer.
    pub(crate) proof fn lemma_view(&self)
        ensures
            self@ == self.data@,
    {
    }

    /// A device array holding the elements of `data`, in order.
    pub fn from_host(data: Vec<T>) -> (r: Self)
        ensures
            r@ == data@,
    {
        DeviceMemory { data }
    }

    /// Number of elements.
    pub fn count(&self) -> (r: usize)
        ensures
            r == self@.len(),
    {
        self.data.len()
    }

    /// Overwrites the device array with `src`, which must have its length.
    pub fn copy_from_host(&mut self, src: &Vec<T>) -> (r: Result<(), Error>)
        ensures
            src@.len() != old(self)@.len() ==> r == Err::<(), Error>(Error::LengthMismatch)
                && final(self)@ == old(self)@,
            src@.len() == old(self)@.len() ==> r is Ok && final(self)@ == src@,
    {
        if src.len() != self.data.len() {
            return Err(Error::LengthMismatch);
        }
        let mut i: usize = 0;
        while i < src.len()
            invariant
                self.data@.len() == src@.len(),
                i <= src@.len(),
                forall|k: int| 0 <= k < i ==> #[trigger] self.data@[k] == src@[k],
            decreases src@.len() - i,
        {
            self.data.set(i, src[i]);
            i = i + 1;
        }
        assert(self.data@ =~= src@);
        Ok(())
    }

    /// Copies the device array into `dst`, which must have its length.
    pub fn copy_to_host(&self, dst: &mut Vec<T>) -> (r: Result<(), Error>)
        ensures
            old(dst)@.len() != self@.len() ==> r == Err::<(), Error>(Error::LengthMismatch)
                && final(dst)@ == old(dst)@,
            old(dst)@.len() == self@.len() ==> r is Ok && final(dst)@ == self@,
    {
        if dst.len() != self.data.len() {
            return Err(Error::LengthMismatch);
        }
        let mut i: usize = 0;
        while i < self.data.len()
            invariant
                dst@.len() == self.data@.len(),
                i <= self.data@.len(),
                forall|k: int| 0 <= k < i ==> #[trigger] dst@[k] == self.data@[k],
            decreases self.data@.len() - i,
        {
            dst.set(i, self.data[i]);
            i = i + 1;
        }
        assert(dst@ =~= self.data@);
        Ok(())
    }

    /// A fresh host vector with the elements of the device array.
    pub fn to_host(&self) -> (r: Vec<T>)
        ensures
            r@ == self@,
    {
        let mut out: Vec<T> = Vec::new();
        let mut i: usize = 0;
        while i < self.data.len()
            invariant
                i <= self.data@.len(),
                out@ == self.data@.subrange(0, i as int),
            decreases self.data@.len() - i,
        {
            out.push(self.data[i]);
            i = i + 1;
            assert(out@ =~= self.data@.subrange(0, i as int));
        }
        assert(self.data@.subrange(0, self.data@.len() as int) =~= self.data@);
        out
    }
}

} // verus!
