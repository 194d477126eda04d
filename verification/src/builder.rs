//! The build pipeline: network definitions, builder configurations and
//! the build step that emits a serialized engine.
//!
//! The workflow is linear, with no retries: create a [`Builder`] against a
//! logger, create a [`NetworkDefinition`] (with the explicit-batch flag)
//! and a [`BuilderConfig`], configure memory pool limits, then build. The
//! build step rejects an empty network — it never silently produces a
//! usable empty engine — and otherwise emits the serialized-engine blob
//! that the runtime deserializes.
//!
//! A [`Builder`] borrows its logger, so the logger always outlives every
//! builder created from it.

pub mod network_flags;

use vstd::prelude::*;

use crate::codec;
use crate::codec::SlotView;
use crate::codec::TensorSlot;
use crate::error::Error;
use crate::logger::LogHandler;
use crate::logger::Logger;

verus! {

/// Memory pool kinds whose size a builder configuration can bound.
#[derive(Debug, Clone, Copy, PartialEq, Eq, Structural)]
pub enum MemoryPoolType {
    /// Scratch device memory available to the optimizer and executor.
    Workspace,
    /// Managed SRAM of the deep-learning accelerator.
    DlaManagedSram,
    /// Local DRAM of the deep-learning accelerator.
    DlaLocalDram,
    /// Global DRAM of the deep-learning accelerator.
    DlaGlobalDram,
}

/// A network definition: the ordered tensor slot table that model ingest
/// populates. The view is the slot table.
pub struct NetworkDefinition {
    slots: Vec<TensorSlot>,
}

impl View for NetworkDefinition {
    type V = Seq<SlotView>;

    closed spec fn view(&self) -> Seq<SlotView> {
        codec::slot_views(self.slots@)
    }
}

impl NetworkDefinition {
    /// A well-formed network: its slot table respects the wire format's
    /// bounds. Creation and ingest keep this invariant.
    pub open spec fn wf(&self) -> bool {
        codec::wf_slots(self@)
    }

    /// Replaces the slot table; model ingest populates the network
    /// through this.
    pub(crate) fn set_slots(&mut self, slots: Vec<TensorSlot>)
        ensures
            final(self)@ == codec::slot_views(slots@),
    {
        self.slots = slots;
    }
}

/// Optimization parameters for the build step: one optional byte limit
/// per memory pool kind. A limit left unset leaves the native default in
/// force.
pub struct BuilderConfig {
    workspace: Option<usize>,
    dla_managed_sram: Option<usize>,
    dla_local_dram: Option<usize>,
    dla_global_dram: Option<usize>,
}

impl BuilderConfig {
    /// The limit currently recorded for a pool kind.
    pub closed spec fn spec_limit(&self, pool: MemoryPoolType) -> Option<usize> {
        match pool {
            MemoryPoolType::Workspace => self.workspace,
            MemoryPoolType::DlaManagedSram => self.dla_managed_sram,
            MemoryPoolType::DlaLocalDram => self.dla_local_dram,
            MemoryPoolType::DlaGlobalDram => self.dla_global_dram,
        }
    }

    /// Bounds the given memory pool at `size` bytes for the coming build.
    /// Only the named pool's limit changes.
    pub fn set_memory_pool_limit(&mut self, pool: MemoryPoolType, size: usize) -> (r: Result<
        (),
        Error,
    >)
        ensures
            r is Ok,
            final(self).spec_limit(pool) == Some(size),
            forall|p: MemoryPoolType|
                p != pool ==> #[trigger] final(self).spec_limit(p) == old(self).spec_limit(p),
    {
        match pool {
            MemoryPoolType::Workspace => {
                self.workspace = Some(size);
            },
            MemoryPoolType::DlaManagedSram => {
                self.dla_managed_sram = Some(size);
            },
            MemoryPoolType::DlaLocalDram => {
                self.dla_local_dram = Some(size);
            },
            MemoryPoolType::DlaGlobalDram => {
                self.dla_global_dram = Some(size);
            },
        }
        Ok(())
    }
}

/// Builds optimized, serialized engines. Borrows the logger it reports
/// through: the logger must outlive the builder, and the borrow checker
/// enforces that order.
pub struct Builder<'a, H: LogHandler> {
    _logger: &'a Logger<H>,
}

impl<'a, H: LogHandler> Builder<'a, H> {
    /// Creates a builder that reports through the given logger.
    pub fn new(logger: &'a Logger<H>) -> (r: Result<Builder<'a, H>, Error>)
        ensures
            r is Ok,
    {
        Ok(Builder { _logger: logger })
    }

    /// Creates an empty network definition. The explicit-batch flag
    /// (`network_flags::EXPLICIT_BATCH`) is the only supported creation
    /// mode at this layer; the native layer validates the flags, so no
    /// validation happens here.
    pub fn create_network(&self, flags: u32) -> (r: Result<NetworkDefinition, Error>)
        ensures
            r matches Ok(n) && n@ == Seq::<SlotView>::empty(),
            (r matches Ok(n) ==> n.wf()),
    {
        let _ = flags;
        let n = NetworkDefinition { slots: Vec::new() };
        proof {
            assert(n@ =~= Seq::<SlotView>::empty());
        }
        Ok(n)
    }

    /// Creates a configuration with every pool limit unset.
    pub fn create_config(&self) -> (r: Result<BuilderConfig, Error>)
        ensures
            r matches Ok(c) && forall|p: MemoryPoolType| #[trigger] c.spec_limit(p) is None,
    {
        Ok(
            BuilderConfig {
                workspace: None,
                dla_managed_sram: None,
                dla_local_dram: None,
                dla_global_dram: None,
            },
        )
    }

    /// Builds the serialized engine for a populated network: the engine
    /// blob that deserialization recovers the slot table from. Fails with
    /// a runtime error exactly when the network is empty. The configured
    /// pool limits govern the native optimizer's search; they do not
    /// change which engine the model describes.
    pub fn build_serialized_network(
        &self,
        network: &NetworkDefinition,
        config: &BuilderConfig,
    ) -> (r: Result<Vec<u8>, Error>)
        requires
            network.wf(),
        ensures
            network@.len() == 0 ==> (r matches Err(e) && (e matches Error::Runtime(m) && m@
                == "Network definition is empty"@)),
            network@.len() > 0 ==> (r matches Ok(data) && data@ == codec::engine_blob(network@)),
    {
        let _ = config;
        if network.slots.len() == 0 {
            return Err(Error::Runtime("Network definition is empty".to_owned()));
        }
        Ok(codec::write_engine_blob(&network.slots))
    }
}

} // verus!
