use vstd::prelude::*;

use crate::memory::Error;

verus! {

/// The status code with which the accelerator runtime reports success.
pub const RUNTIME_SUCCESS: i32 = 0;

/// Number of devices, from the runtime's answer to a device-count query: the
/// status code it returned and the count it wrote. Any status but success is
/// passed on unchanged as an error, and the count is then not read.
pub fn device_count(status: i32, count: i32) -> (r: Result<i32, Error>)
    ensures
        status == RUNTIME_SUCCESS ==> r == Ok::<i32, Error>(count),
        status != RUNTIME_SUCCESS ==> r == Err::<i32, Error>(Error::Runtime(status)),
{
    if status == RUNTIME_SUCCESS {
        Ok(count)
    } else {
        Err(Error::Runtime(status))
    }
}

} // verus!
