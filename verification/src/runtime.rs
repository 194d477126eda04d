//! The execution pipeline: deserializes serialized engines, enumerates
//! their tensor slots, creates execution contexts, binds tensor addresses
//! and launches inference.
//!
//! A [`Runtime`] borrows its logger and deserializes engine blobs. A
//! [`CudaEngine`] owns the slot table the blob carried; it is shareable
//! for read-only use and for creating any number of execution contexts. An
//! [`ExecutionContext`] borrows its engine — it can never outlive it —
//! and holds the current tensor address bindings, mutated by the
//! set-address call and consumed by the launch.

use vstd::prelude::*;
use vstd::string::StringSliceAdditionalSpecFns;
use vstd::utf8::*;

use crate::codec;
use crate::codec::SlotView;
use crate::codec::TensorSlot;
use crate::cuda::Stream;
use crate::error::Error;
use crate::logger::LogHandler;
use crate::logger::Logger;
use crate::text;

verus! {

/// A runnable engine: the ordered tensor slot table recovered from a
/// serialized-engine blob. Read-only operations are safely shareable.
pub struct CudaEngine {
    slots: Vec<TensorSlot>,
}

impl View for CudaEngine {
    type V = Seq<SlotView>;

    closed spec fn view(&self) -> Seq<SlotView> {
        codec::slot_views(self.slots@)
    }
}

impl CudaEngine {
    /// A well-formed engine: its slot table respects the wire format's
    /// bounds. Every engine value satisfies this.
    pub open spec fn wf(&self) -> bool {
        codec::wf_slots(self@)
    }

    #[verifier::type_invariant]
    spec fn inv(self) -> bool {
        self.wf()
    }

    /// The number of I/O tensor slots of the engine.
    pub fn get_nb_io_tensors(&self) -> (r: Result<i32, Error>)
        ensures
            r matches Ok(n) && n == self@.len(),
    {
        proof {
            use_type_invariant(&*self);
        }
        Ok(self.slots.len() as i32)
    }

    /// The name of the tensor slot at `index`. Fails with a runtime error
    /// exactly when the index is outside the slot range, and with a UTF-8
    /// error exactly when the stored name is not valid UTF-8.
    pub fn get_tensor_name(&self, index: i32) -> (r: Result<String, Error>)
        ensures
            !(0 <= index < self@.len()) ==> (r matches Err(e) && (e matches Error::Runtime(m)
                && m@ == "Tensor index out of range"@)),
            0 <= index < self@.len() && valid_utf8(self@[index as int].name) ==> (r matches Ok(s)
                && s@ == decode_utf8(self@[index as int].name)),
            0 <= index < self@.len() && !valid_utf8(self@[index as int].name) ==> (r
                matches Err(e) && (e matches Error::Utf8(m) && m@
                == "Tensor name is not valid UTF-8"@)),
    {
        proof {
            use_type_invariant(&*self);
        }
        if index < 0 || index >= self.slots.len() as i32 {
            return Err(Error::Runtime("Tensor index out of range".to_owned()));
        }
        let slot = &self.slots[index as usize];
        proof {
            assert(slot@ == self@[index as int]);
        }
        if text::utf8_valid(slot.name.as_slice()) {
            proof {
                text::lemma_decode_lossy_of_valid(slot.name@);
            }
            Ok(text::utf8_lossy(slot.name.as_slice()))
        } else {
            Err(Error::Utf8("Tensor name is not valid UTF-8".to_owned()))
        }
    }

    /// Creates an execution context bound to this engine, with every
    /// tensor slot still unbound. The context borrows the engine and can
    /// never outlive it; an engine may serve several contexts.
    pub fn create_execution_context<'a>(&'a self) -> (r: Result<ExecutionContext<'a>, Error>)
        ensures
            r matches Ok(c) && c.wf() && c.spec_engine() == self@ && c.spec_bindings()
                == Seq::new(self@.len(), |i: int| None::<usize>),
    {
        proof {
            use_type_invariant(&*self);
        }
        let n = self.slots.len();
        let bindings: Vec<Option<usize>> = vec![None; n];
        let c = ExecutionContext { engine: self, bindings };
        proof {
            assert(c.spec_bindings() =~= Seq::new(self@.len(), |i: int| None::<usize>));
        }
        Ok(c)
    }
}

/// A runnable instance bound to one engine: holds the current tensor
/// address bindings and launches inference.
pub struct ExecutionContext<'a> {
    engine: &'a CudaEngine,
    bindings: Vec<Option<usize>>,
}

impl<'a> ExecutionContext<'a> {
    /// The slot table of the engine this context runs.
    pub closed spec fn spec_engine(&self) -> Seq<SlotView> {
        codec::slot_views(self.engine.slots@)
    }

    /// The current bindings, one per slot: the bound device address, or
    /// nothing while the slot is unbound.
    pub closed spec fn spec_bindings(&self) -> Seq<Option<usize>> {
        self.bindings@
    }

    /// A well-formed context: one binding per slot of a well-formed
    /// engine. Creation establishes this and every operation keeps it.
    pub open spec fn wf(&self) -> bool {
        &&& codec::wf_slots(self.spec_engine())
        &&& self.spec_bindings().len() == self.spec_engine().len()
    }

    /// True when every slot of the context has a bound address.
    pub open spec fn all_bound(&self) -> bool {
        forall|i: int| 0 <= i < self.spec_bindings().len() ==> self.spec_bindings()[i] is Some
    }

    /// Binds the tensor with the given name to a device address. The
    /// caller guarantees the address names valid device memory of
    /// sufficient capacity for the tensor's actual shape; this layer does
    /// not validate it. Fails with a string-conversion error when the name
    /// holds an embedded null byte, and with an invalid-argument error
    /// when no slot carries the name; the bindings are then unchanged.
    pub fn set_tensor_address(&mut self, name: &str, addr: usize) -> (r: Result<(), Error>)
        requires
            old(self).wf(),
        ensures
            final(self).wf(),
            final(self).spec_engine() == old(self).spec_engine(),
            (exists|i: int|
                0 <= i < name.spec_bytes().len() && name.spec_bytes()[i] == 0) ==> (r
                matches Err(e) && (e matches Error::StringConversion(m) && m@
                == "Tensor name holds an embedded null byte"@) && final(self).spec_bindings()
                == old(self).spec_bindings()),
            (forall|i: int| 0 <= i < name.spec_bytes().len() ==> name.spec_bytes()[i] != 0)
                && !slot_named(old(self).spec_engine(), name.spec_bytes()) ==> (r matches Err(e)
                && (e matches Error::InvalidArgument(m) && m@ == "Unknown tensor name"@)
                && final(self).spec_bindings() == old(self).spec_bindings()),
            (forall|i: int| 0 <= i < name.spec_bytes().len() ==> name.spec_bytes()[i] != 0)
                && slot_named(old(self).spec_engine(), name.spec_bytes()) ==> (r is Ok
                && final(self).spec_bindings() == Seq::new(
                old(self).spec_bindings().len(),
                |i: int|
                    if old(self).spec_engine()[i].name == name.spec_bytes() {
                        Some(addr)
                    } else {
                        old(self).spec_bindings()[i]
                    },
            )),
    {
        let name_bytes = name.as_bytes();
        let mut j: usize = 0;
        let nb = name_bytes.len();
        while j < nb
            invariant
                j <= nb,
                nb == name.spec_bytes().len(),
                name_bytes@ == name.spec_bytes(),
                *self == *old(self),
                self.wf(),
                forall|k: int| 0 <= k < j ==> name.spec_bytes()[k] != 0,
            decreases nb - j,
        {
            if name_bytes[j] == 0 {
                return Err(
                    Error::StringConversion("Tensor name holds an embedded null byte".to_owned()),
                );
            }
            j = j + 1;
        }
        let n = self.bindings.len();
        let mut i: usize = 0;
        let mut found = false;
        let ghost bindings0 = self.bindings@;
        while i < n
            invariant
                i <= n,
                self.wf(),
                n == self.spec_bindings().len(),
                self.spec_engine() == old(self).spec_engine(),
                bindings0 == old(self).spec_bindings(),
                name_bytes@ == name.spec_bytes(),
                found == (exists|k: int|
                    0 <= k < i && self.spec_engine()[k].name == name.spec_bytes()),
                forall|k: int|
                    0 <= k < n ==> #[trigger] self.spec_bindings()[k] == (if 0 <= k < i
                        && self.spec_engine()[k].name == name.spec_bytes() {
                        Some(addr)
                    } else {
                        bindings0[k]
                    }),
            decreases n - i,
        {
            let slot = &self.engine.slots[i];
            proof {
                assert(slot@ == self.spec_engine()[i as int]);
            }
            if codec::eq_bytes(slot.name.as_slice(), name_bytes) {
                self.bindings.set(i, Some(addr));
                found = true;
            }
            i = i + 1;
        }
        if found {
            proof {
                assert(self.spec_bindings() =~= Seq::new(
                    old(self).spec_bindings().len(),
                    |i: int|
                        if old(self).spec_engine()[i].name == name.spec_bytes() {
                            Some(addr)
                        } else {
                            old(self).spec_bindings()[i]
                        },
                ));
            }
            Ok(())
        } else {
            proof {
                assert(self.spec_bindings() =~= bindings0);
            }
            Err(Error::InvalidArgument("Unknown tensor name".to_owned()))
        }
    }

    /// Launches inference on the given stream. The launch is accepted
    /// exactly when every tensor slot has a bound address; the work is
    /// complete by the time the call returns, so a later synchronization
    /// barrier has nothing left to wait for. The bindings are unchanged
    /// either way.
    pub fn enqueue_v3(&mut self, stream: Stream) -> (r: Result<(), Error>)
        requires
            old(self).wf(),
        ensures
            *final(self) == *old(self),
            old(self).all_bound() ==> r is Ok,
            !old(self).all_bound() ==> (r matches Err(e) && (e matches Error::Cuda(m) && m@
                == "Launch rejected: a tensor address is missing"@)),
    {
        let _ = stream;
        let n = self.bindings.len();
        let mut i: usize = 0;
        while i < n
            invariant
                i <= n,
                n == self.spec_bindings().len(),
                *self == *old(self),
                forall|k: int| 0 <= k < i ==> self.spec_bindings()[k] is Some,
            decreases n - i,
        {
            if self.bindings[i].is_none() {
                proof {
                    assert(self.spec_bindings()[i as int] is None);
                }
                return Err(Error::Cuda("Launch rejected: a tensor address is missing".to_owned()));
            }
            i = i + 1;
        }
        Ok(())
    }
}

/// True when some slot of the table carries the given name.
pub open spec fn slot_named(slots: Seq<SlotView>, name: Seq<u8>) -> bool {
    exists|i: int| 0 <= i < slots.len() && #[trigger] slots[i].name == name
}

/// Deserializes engines. Borrows the logger it reports through: the
/// logger must outlive the runtime, and the borrow checker enforces that
/// order.
pub struct Runtime<'a, H: LogHandler> {
    _logger: &'a Logger<H>,
}

impl<'a, H: LogHandler> Runtime<'a, H> {
    /// Creates a runtime that reports through the given logger.
    pub fn new(logger: &'a Logger<H>) -> (r: Result<Runtime<'a, H>, Error>)
        ensures
            r is Ok,
    {
        Ok(Runtime { _logger: logger })
    }

    /// Deserializes a serialized-engine blob into a runnable engine.
    /// Fails with a runtime error exactly when the bytes are not a
    /// well-formed engine blob; the recovered engine carries exactly the
    /// slot table the blob encodes.
    pub fn deserialize_cuda_engine(&self, data: &[u8]) -> (r: Result<CudaEngine, Error>)
        ensures
            (codec::parse_engine_blob(data@) matches Some(slots) ==> r matches Ok(e) && e@
                == slots),
            codec::parse_engine_blob(data@) is None ==> (r matches Err(e) && (e
                matches Error::Runtime(m) && m@ == "Engine data is corrupt"@)),
    {
        match codec::read_engine_blob(data) {
            Some(slots) => Ok(CudaEngine { slots }),
            None => Err(Error::Runtime("Engine data is corrupt".to_owned())),
        }
    }
}

} // verus!
