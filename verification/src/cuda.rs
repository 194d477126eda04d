//! Device memory management: fixed-size device-resident buffers,
//! host-to-device and device-to-host transfers, the synchronization
//! barrier and the default stream.
//!
//! A [`DeviceBuffer`] owns one device memory block of a fixed byte size,
//! established at allocation and immutable thereafter. Transfers are
//! bounds-checked against the capacity: an oversized transfer fails with
//! an invalid-argument error and leaves both buffers unchanged. Release
//! happens when the value is dropped; it occurs exactly once and cannot
//! fail.
//!
//! The device is modelled explicitly: enqueued work completes by the time
//! the call that enqueued it returns, so the synchronization barrier
//! always succeeds with no work pending.

use vstd::prelude::*;
use vstd::pervasive::VecAdditionalExecFns;

use crate::error::Error;

verus! {

/// An ordered device work queue. Only the default stream is exposed at
/// this layer.
#[derive(Debug, Clone, Copy, PartialEq, Eq, Structural)]
pub struct Stream;

/// The default device stream: the queue used when no explicit stream is
/// created.
pub fn get_default_stream() -> (r: Stream)
    ensures
        r == Stream,
{
    Stream
}

/// Blocks until every piece of work enqueued on the device has completed.
/// Enqueued work completes by the time the enqueuing call returns, so the
/// barrier is always established and the call always succeeds.
pub fn synchronize() -> (r: Result<(), Error>)
    ensures
        r is Ok,
{
    Ok(())
}

/// The device block contents after a host-to-device copy: the copied
/// bytes, then the untouched remainder of the block.
pub open spec fn store(buf: Seq<u8>, data: Seq<u8>) -> Seq<u8>
    recommends
        data.len() <= buf.len(),
{
    data + buf.skip(data.len() as int)
}

/// The bytes a device-to-host copy of `n` bytes reads back.
pub open spec fn load(buf: Seq<u8>, n: int) -> Seq<u8>
    recommends
        0 <= n <= buf.len(),
{
    buf.take(n)
}

/// Data written to a device block is read back unchanged: a copy in
/// followed by a copy out of the same length yields the original data.
pub proof fn lemma_copy_round_trip(buf: Seq<u8>, data: Seq<u8>)
    requires
        data.len() <= buf.len(),
    ensures
        load(store(buf, data), data.len() as int) == data,
{
    assert(load(store(buf, data), data.len() as int) =~= data);
}

/// A device memory block of fixed byte size. The view is the block's
/// byte contents; the length of the view is the capacity.
pub struct DeviceBuffer {
    data: Vec<u8>,
}

impl View for DeviceBuffer {
    type V = Seq<u8>;

    closed spec fn view(&self) -> Seq<u8> {
        self.data@
    }
}

impl DeviceBuffer {
    /// Allocates a zero-initialized device block of `size` bytes.
    /// Allocation of a valid size never fails, and the block's size is
    /// exactly the requested one.
    pub fn new(size: usize) -> (r: Result<DeviceBuffer, Error>)
        ensures
            r matches Ok(b) && b@ == Seq::new(size as nat, |i: int| 0u8),
    {
        let data: Vec<u8> = vec![0u8; size];
        proof {
            assert(data@ =~= Seq::new(size as nat, |i: int| 0u8));
        }
        Ok(DeviceBuffer { data })
    }

    /// The block's size in bytes, fixed at allocation.
    pub fn size(&self) -> (r: usize)
        ensures
            r == self@.len(),
    {
        self.data.len()
    }

    /// Copies host bytes to the start of the device block. Fails with an
    /// invalid-argument error, leaving the block unchanged, exactly when
    /// the data is larger than the block.
    pub fn copy_from_host(&mut self, data: &[u8]) -> (r: Result<(), Error>)
        ensures
            data@.len() <= old(self)@.len() ==> (r is Ok && final(self)@ == store(
                old(self)@,
                data@,
            )),
            data@.len() > old(self)@.len() ==> (r matches Err(e) && (e
                matches Error::InvalidArgument(m) && m@ == "Data size exceeds buffer size"@)
                && final(self)@ == old(self)@),
    {
        let n = data.len();
        if n > self.data.len() {
            return Err(Error::InvalidArgument("Data size exceeds buffer size".to_owned()));
        }
        let mut i: usize = 0;
        while i < n
            invariant
                i <= n,
                n == data@.len(),
                n <= self.data@.len(),
                self.data@.len() == old(self)@.len(),
                forall|k: int| 0 <= k < i ==> self.data@[k] == data@[k],
                forall|k: int| i <= k < self.data@.len() ==> self.data@[k] == old(self)@[k],
            decreases n - i,
        {
            self.data.set(i, data[i]);
            i = i + 1;
        }
        proof {
            assert(self.data@ =~= store(old(self)@, data@));
        }
        Ok(())
    }

    /// Copies bytes from the start of the device block into the host
    /// buffer, filling it. Fails with an invalid-argument error, leaving
    /// the host buffer unchanged, exactly when the host buffer is larger
    /// than the block.
    pub fn copy_to_host(&self, data: &mut Vec<u8>) -> (r: Result<(), Error>)
        ensures
            old(data)@.len() <= self@.len() ==> (r is Ok && final(data)@ == load(
                self@,
                old(data)@.len() as int,
            )),
            old(data)@.len() > self@.len() ==> (r matches Err(e) && (e
                matches Error::InvalidArgument(m) && m@ == "Data size exceeds buffer size"@)
                && final(data)@ == old(data)@),
    {
        let n = data.len();
        if n > self.data.len() {
            return Err(Error::InvalidArgument("Data size exceeds buffer size".to_owned()));
        }
        let mut i: usize = 0;
        while i < n
            invariant
                i <= n,
                n == data@.len(),
                n <= self.data@.len(),
                self@ == self.data@,
                forall|k: int| 0 <= k < i ==> data@[k] == self.data@[k],
            decreases n - i,
        {
            data.set(i, self.data[i]);
            i = i + 1;
        }
        proof {
            assert(data@ =~= load(self@, n as int));
        }
        Ok(())
    }
}

} // verus!
