//! Markers: tracked 3D points, and labeled markers with per-version
//! optional status flags.

use vstd::prelude::*;

use crate::reader::{spec_read_i32, spec_read_u16, spec_read_u32, ByteSource};
use crate::version::{has_optional_flags, spec_has_optional_flags, ProtocolVersion};
use crate::parse::Unpack;
use crate::ParseError;

verus! {

/// A visible marker: a point in 3D space. Each coordinate is the bit
/// pattern of a 32-bit IEEE-754 float, read little-endian.
#[derive(Clone, Copy, Debug, PartialEq, Eq)]
pub struct Marker {
    pub x: u32,
    pub y: u32,
    pub z: u32,
}

impl View for Marker {
    type V = Marker;

    open spec fn view(&self) -> Marker {
        *self
    }
}

impl DeepView for Marker {
    type V = Marker;

    open spec fn deep_view(&self) -> Marker {
        *self
    }
}

/// Three consecutive 32-bit coordinates, x then y then z.
pub open spec fn spec_unpack_marker(b: Seq<u8>, pos: int) -> Result<(Marker, int), ParseError> {
    match spec_read_u32(b, pos) {
        Err(e) => Err(e),
        Ok((x, p1)) => match spec_read_u32(b, p1) {
            Err(e) => Err(e),
            Ok((y, p2)) => match spec_read_u32(b, p2) {
                Err(e) => Err(e),
                Ok((z, p3)) => Ok((Marker { x, y, z }, p3)),
            },
        },
    }
}

impl Unpack for Marker {
    open spec fn spec_unpack(b: Seq<u8>, pos: int, ver: ProtocolVersion) -> Result<
        (Marker, int),
        ParseError,
    > {
        spec_unpack_marker(b, pos)
    }

    fn unpack(ver: &ProtocolVersion, src: &mut ByteSource) -> (r: Result<Marker, ParseError>) {
        let x = match src.read_u32() {
            Ok(v) => v,
            Err(e) => { return Err(e) },
        };
        let y = match src.read_u32() {
            Ok(v) => v,
            Err(e) => { return Err(e) },
        };
        let z = match src.read_u32() {
            Ok(v) => v,
            Err(e) => { return Err(e) },
        };
        Ok(Marker { x, y, z })
    }
}

/// An identifiable marker. The three status booleans are packed in one
/// 16-bit field on the wire and are present only from protocol 2.6.0.
#[derive(Clone, Copy, Debug, PartialEq, Eq)]
pub struct LabeledMarker {
    /// ID of this marker.
    pub id: i32,
    /// Position in 3D space.
    pub position: Marker,
    /// Size of the marker (32-bit float bit pattern).
    pub size: u32,
    /// Was the marker occluded in this frame (bit 0)?
    pub occluded: Option<bool>,
    /// Was the position solved using a point cloud (bit 1)?
    pub point_cloud_solved: Option<bool>,
    /// Was the position solved using a model solver (bit 2)?
    pub model_solved: Option<bool>,
}

impl View for LabeledMarker {
    type V = LabeledMarker;

    open spec fn view(&self) -> LabeledMarker {
        *self
    }
}

impl DeepView for LabeledMarker {
    type V = LabeledMarker;

    open spec fn deep_view(&self) -> LabeledMarker {
        *self
    }
}

/// ID, position, size, then (from 2.6.0 on) one 16-bit bitfield whose
/// bits 0..2 are occluded / point-cloud-solved / model-solved.
pub open spec fn spec_unpack_labeled_marker(b: Seq<u8>, pos: int, ver: ProtocolVersion) -> Result<
    (LabeledMarker, int),
    ParseError,
> {
    match spec_read_i32(b, pos) {
        Err(e) => Err(e),
        Ok((id, p1)) => match spec_unpack_marker(b, p1) {
            Err(e) => Err(e),
            Ok((position, p2)) => match spec_read_u32(b, p2) {
                Err(e) => Err(e),
                Ok((size, p3)) => if spec_has_optional_flags(ver) {
                    match spec_read_u16(b, p3) {
                        Err(e) => Err(e),
                        Ok((params, p4)) => Ok(
                            (
                                LabeledMarker {
                                    id,
                                    position,
                                    size,
                                    occluded: Some(params & 0x01 > 0),
                                    point_cloud_solved: Some(params & 0x02 > 0),
                                    model_solved: Some(params & 0x04 > 0),
                                },
                                p4,
                            ),
                        ),
                    }
                } else {
                    Ok(
                        (
                            LabeledMarker {
                                id,
                                position,
                                size,
                                occluded: None,
                                point_cloud_solved: None,
                                model_solved: None,
                            },
                            p3,
                        ),
                    )
                },
            },
        },
    }
}

impl Unpack for LabeledMarker {
    open spec fn spec_unpack(b: Seq<u8>, pos: int, ver: ProtocolVersion) -> Result<
        (LabeledMarker, int),
        ParseError,
    > {
        spec_unpack_labeled_marker(b, pos, ver)
    }

    fn unpack(ver: &ProtocolVersion, src: &mut ByteSource) -> (r: Result<
        LabeledMarker,
        ParseError,
    >) {
        let id = match src.read_i32() {
            Ok(v) => v,
            Err(e) => { return Err(e) },
        };
        let position = match Marker::unpack(ver, src) {
            Ok(v) => v,
            Err(e) => { return Err(e) },
        };
        let size = match src.read_u32() {
            Ok(v) => v,
            Err(e) => { return Err(e) },
        };
        if has_optional_flags(ver) {
            let params = match src.read_u16() {
                Ok(v) => v,
                Err(e) => { return Err(e) },
            };
            Ok(
                LabeledMarker {
                    id,
                    position,
                    size,
                    occluded: Some(params & 0x01 > 0),
                    point_cloud_solved: Some(params & 0x02 > 0),
                    model_solved: Some(params & 0x04 > 0),
                },
            )
        } else {
            Ok(
                LabeledMarker {
                    id,
                    position,
                    size,
                    occluded: None,
                    point_cloud_solved: None,
                    model_solved: None,
                },
            )
        }
    }
}

} // verus!
