//! Force plates: external force-sensor data attached to a frame,
//! present only from protocol 2.9.0.

use vstd::prelude::*;

use crate::parse::{parser_of, spec_unpack_vec_of, unpack_vec, Unpack};
use crate::reader::{spec_read_i32, ByteSource};
use crate::version::ProtocolVersion;
use crate::ParseError;

verus! {

/// A force plate: an ID plus its channels. The structure is ragged:
/// each channel declares its own sample count independently. Samples
/// are 32-bit float bit patterns.
#[derive(Clone, Debug, PartialEq)]
pub struct ForcePlate {
    /// ID of the plate.
    pub id: i32,
    /// Channels from the plate, each an independent sample sequence.
    pub channels: Vec<Vec<u32>>,
}

pub struct ForcePlateV {
    pub id: i32,
    pub channels: Seq<Seq<u32>>,
}

impl View for ForcePlate {
    type V = ForcePlateV;

    open spec fn view(&self) -> ForcePlateV {
        ForcePlateV { id: self.id, channels: self.channels.deep_view() }
    }
}

impl DeepView for ForcePlate {
    type V = ForcePlateV;

    open spec fn deep_view(&self) -> ForcePlateV {
        self.view()
    }
}

/// An ID, then a count-prefixed sequence of channels, each itself a
/// count-prefixed sequence of samples.
pub open spec fn spec_unpack_force_plate(b: Seq<u8>, pos: int, ver: ProtocolVersion) -> Result<
    (ForcePlateV, int),
    ParseError,
> {
    match spec_read_i32(b, pos) {
        Err(e) => Err(e),
        Ok((id, p1)) => match spec_unpack_vec_of(b, p1, parser_of::<Vec<u32>>(ver)) {
            Err(e) => Err(e),
            Ok((channels, p2)) => Ok((ForcePlateV { id, channels }, p2)),
        },
    }
}

impl Unpack for ForcePlate {
    open spec fn spec_unpack(b: Seq<u8>, pos: int, ver: ProtocolVersion) -> Result<
        (ForcePlateV, int),
        ParseError,
    > {
        spec_unpack_force_plate(b, pos, ver)
    }

    fn unpack(ver: &ProtocolVersion, src: &mut ByteSource) -> (r: Result<ForcePlate, ParseError>) {
        let id = match src.read_i32() {
            Ok(v) => v,
            Err(e) => { return Err(e) },
        };
        let channels = match unpack_vec::<Vec<u32>>(ver, src) {
            Ok(v) => v,
            Err(e) => { return Err(e) },
        };
        Ok(ForcePlate { id, channels })
    }
}

} // verus!
