//! Model ingest: populates a network definition from serialized model
//! bytes.
//!
//! Ingest is an opaque adapter step: bytes in, populated network out, or a
//! typed error. A model blob opens with the model magic and carries the
//! tensor slot table of the graph's inputs and outputs; anything else is
//! rejected with a runtime error, before any build or execution step runs.
//! The parser holds no state after parsing and should be destroyed
//! promptly.

use vstd::prelude::*;

use crate::builder::NetworkDefinition;
use crate::codec;
use crate::error::Error;
use crate::logger::LogHandler;
use crate::logger::Logger;

verus! {

/// Parses serialized model bytes into a network definition.
pub struct OnnxParser;

impl OnnxParser {
    /// Creates a parser for the given network, reporting through the
    /// given logger.
    pub fn new<H: LogHandler>(network: &NetworkDefinition, logger: &Logger<H>) -> (r: Result<
        OnnxParser,
        Error,
    >)
        ensures
            r is Ok,
    {
        let _ = network;
        let _ = logger;
        Ok(OnnxParser)
    }

    /// Parses a model blob and populates the network definition with the
    /// tensor slot table it carries. Fails with a runtime error, exactly
    /// when the bytes are not a well-formed model blob; the network is
    /// then left unchanged and must not be reused for a build.
    pub fn parse(&self, network: &mut NetworkDefinition, model_bytes: &[u8]) -> (r: Result<
        (),
        Error,
    >)
        ensures
            (codec::parse_model_blob(model_bytes@) matches Some(slots) ==> r is Ok
                && final(network)@ == slots && final(network).wf()),
            codec::parse_model_blob(model_bytes@) is None ==> (r matches Err(e) && (e
                matches Error::Runtime(m) && m@ == "Model bytes are malformed"@) && final(network)@
                == old(network)@),
    {
        match codec::read_model_blob(model_bytes) {
            Some(slots) => {
                network.set_slots(slots);
                Ok(())
            },
            None => Err(Error::Runtime("Model bytes are malformed".to_owned())),
        }
    }
}

} // verus!
