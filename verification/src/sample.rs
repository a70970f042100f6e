//! The unit of encoded output that the engine hands to the relay.

use vstd::prelude::*;
use std::sync::Arc;

verus! {

/// One encoded or muxed output unit: its bytes and the two flags a consumer's
/// gate looks at.
#[derive(Debug)]
pub struct MediaSample {
    /// The encoded bytes.
    pub payload: Vec<u8>,
    /// The unit can only be decoded with the units before it.
    pub delta_unit: bool,
    /// The unit is a container header, not media data.
    pub header: bool,
}

/// A sample as the fan-out shares it: every consumer's queue holds a
/// reference to the same, immutable sample.
pub type SharedSample = Arc<MediaSample>;

impl MediaSample {
    /// A decoder can start at this unit without anything that came before it:
    /// it is neither a delta unit nor a header.
    pub open spec fn is_sync_point(&self) -> bool {
        !self.delta_unit && !self.header
    }

    pub fn new(payload: Vec<u8>, delta_unit: bool, header: bool) -> (sample: Self)
        ensures
            sample.payload == payload,
            sample.delta_unit == delta_unit,
            sample.header == header,
    {
        MediaSample { payload, delta_unit, header }
    }
}

} // verus!
