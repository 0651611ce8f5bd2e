//! Rigid bodies: tracked objects with a six-degree-of-freedom pose and
//! a marker constellation.

use vstd::prelude::*;

use crate::marker::{spec_unpack_marker, Marker};
use crate::parse::{count_nat, parser_of, spec_parse_n_acc, unpack_n, Unpack};
use crate::reader::{spec_read_i32, spec_read_u16, spec_read_u32, ByteSource};
use crate::version::{has_optional_flags, spec_has_optional_flags, ProtocolVersion};
use crate::ParseError;

verus! {

/// An orientation, as four consecutive 32-bit float bit patterns in
/// wire order: x, y, z, w.
#[derive(Clone, Copy, Debug, PartialEq, Eq)]
pub struct Quaternion {
    pub x: u32,
    pub y: u32,
    pub z: u32,
    pub w: u32,
}

impl View for Quaternion {
    type V = Quaternion;

    open spec fn view(&self) -> Quaternion {
        *self
    }
}

impl DeepView for Quaternion {
    type V = Quaternion;

    open spec fn deep_view(&self) -> Quaternion {
        *self
    }
}

pub open spec fn spec_unpack_quaternion(b: Seq<u8>, pos: int) -> Result<
    (Quaternion, int),
    ParseError,
> {
    match spec_read_u32(b, pos) {
        Err(e) => Err(e),
        Ok((x, p1)) => match spec_read_u32(b, p1) {
            Err(e) => Err(e),
            Ok((y, p2)) => match spec_read_u32(b, p2) {
                Err(e) => Err(e),
                Ok((z, p3)) => match spec_read_u32(b, p3) {
                    Err(e) => Err(e),
                    Ok((w, p4)) => Ok((Quaternion { x, y, z, w }, p4)),
                },
            },
        },
    }
}

impl Unpack for Quaternion {
    open spec fn spec_unpack(b: Seq<u8>, pos: int, ver: ProtocolVersion) -> Result<
        (Quaternion, int),
        ParseError,
    > {
        spec_unpack_quaternion(b, pos)
    }

    fn unpack(ver: &ProtocolVersion, src: &mut ByteSource) -> (r: Result<Quaternion, ParseError>) {
        let ghost b0 = src.spec_data();
        let ghost q0 = src.spec_pos();
        let x = match src.read_u32() {
            Ok(v) => v,
            Err(e) => {
                proof {
                    assert(spec_unpack_quaternion(b0, q0) == Err::<(Quaternion, int), ParseError>(
                        e,
                    ));
                    assert(Quaternion::spec_unpack(b0, q0, *ver) == spec_unpack_quaternion(
                        b0,
                        q0,
                    ));
                }
                return Err(e);
            },
        };
        let y = match src.read_u32() {
            Ok(v) => v,
            Err(e) => {
                proof {
                    assert(spec_unpack_quaternion(b0, q0) == Err::<(Quaternion, int), ParseError>(
                        e,
                    ));
                }
                return Err(e);
            },
        };
        let z = match src.read_u32() {
            Ok(v) => v,
            Err(e) => { return Err(e) },
        };
        let w = match src.read_u32() {
            Ok(v) => v,
            Err(e) => { return Err(e) },
        };
        Ok(Quaternion { x, y, z, w })
    }
}

/// A set of markers forming a rigid body.
///
/// The three marker-related sequences are parallel and of equal
/// length, mirroring the wire layout: all positions first, then all
/// IDs, then all sizes. They are deliberately not zipped into
/// per-marker records.
#[derive(Clone, Debug, PartialEq)]
pub struct RigidBody {
    /// ID of the body.
    pub id: i32,
    /// Position in 3D.
    pub position: Marker,
    /// Orientation as a quaternion.
    pub orientation: Quaternion,
    /// Positions of the markers comprising this body.
    pub markers: Vec<Marker>,
    /// IDs of those markers, in the same order.
    pub marker_ids: Vec<i32>,
    /// Sizes of those markers (32-bit float bit patterns), same order.
    pub marker_sizes: Vec<u32>,
    /// Mean tracking error for the markers (32-bit float bit pattern).
    pub mean_error: u32,
    /// Was the body successfully tracked this frame (bit 0 of a 16-bit
    /// field, present only from protocol 2.6.0)?
    pub valid_track: Option<bool>,
}

pub struct RigidBodyV {
    pub id: i32,
    pub position: Marker,
    pub orientation: Quaternion,
    pub markers: Seq<Marker>,
    pub marker_ids: Seq<i32>,
    pub marker_sizes: Seq<u32>,
    pub mean_error: u32,
    pub valid_track: Option<bool>,
}

impl View for RigidBody {
    type V = RigidBodyV;

    open spec fn view(&self) -> RigidBodyV {
        RigidBodyV {
            id: self.id,
            position: self.position,
            orientation: self.orientation,
            markers: self.markers@,
            marker_ids: self.marker_ids@,
            marker_sizes: self.marker_sizes@,
            mean_error: self.mean_error,
            valid_track: self.valid_track,
        }
    }
}

impl DeepView for RigidBody {
    type V = RigidBodyV;

    open spec fn deep_view(&self) -> RigidBodyV {
        self.view()
    }
}

/// ID, position, orientation, then one marker count driving three
/// parallel sequences (positions, IDs, sizes), the mean error, and
/// (from 2.6.0 on) the valid-track bitfield.
pub open spec fn spec_unpack_rigid_body(b: Seq<u8>, pos: int, ver: ProtocolVersion) -> Result<
    (RigidBodyV, int),
    ParseError,
> {
    match spec_read_i32(b, pos) {
        Err(e) => Err(e),
        Ok((id, p1)) => match spec_unpack_marker(b, p1) {
            Err(e) => Err(e),
            Ok((position, p2)) => match spec_unpack_quaternion(b, p2) {
                Err(e) => Err(e),
                Ok((orientation, p3)) => match spec_read_i32(b, p3) {
                    Err(e) => Err(e),
                    Ok((n, p4)) => match spec_parse_n_acc(
                        b,
                        p4,
                        count_nat(n),
                        parser_of::<Marker>(ver),
                        Seq::empty(),
                    ) {
                        Err(e) => Err(e),
                        Ok((markers, p5)) => match spec_parse_n_acc(
                            b,
                            p5,
                            count_nat(n),
                            parser_of::<i32>(ver),
                            Seq::empty(),
                        ) {
                            Err(e) => Err(e),
                            Ok((marker_ids, p6)) => match spec_parse_n_acc(
                                b,
                                p6,
                                count_nat(n),
                                parser_of::<u32>(ver),
                                Seq::empty(),
                            ) {
                                Err(e) => Err(e),
                                Ok((marker_sizes, p7)) => match spec_read_u32(b, p7) {
                                    Err(e) => Err(e),
                                    Ok((mean_error, p8)) => if spec_has_optional_flags(ver) {
                                        match spec_read_u16(b, p8) {
                                            Err(e) => Err(e),
                                            Ok((params, p9)) => Ok(
                                                (
                                                    RigidBodyV {
                                                        id,
                                                        position,
                                                        orientation,
                                                        markers,
                                                        marker_ids,
                                                        marker_sizes,
                                                        mean_error,
                                                        valid_track: Some(params & 0x01 > 0),
                                                    },
                                                    p9,
                                                ),
                                            ),
                                        }
                                    } else {
                                        Ok(
                                            (
                                                RigidBodyV {
                                                    id,
                                                    position,
                                                    orientation,
                                                    markers,
                                                    marker_ids,
                                                    marker_sizes,
                                                    mean_error,
                                                    valid_track: None,
                                                },
                                                p8,
                                            ),
                                        )
                                    },
                                },
                            },
                        },
                    },
                },
            },
        },
    }
}

impl Unpack for RigidBody {
    open spec fn spec_unpack(b: Seq<u8>, pos: int, ver: ProtocolVersion) -> Result<
        (RigidBodyV, int),
        ParseError,
    > {
        spec_unpack_rigid_body(b, pos, ver)
    }

    fn unpack(ver: &ProtocolVersion, src: &mut ByteSource) -> (r: Result<RigidBody, ParseError>) {
        let id = match src.read_i32() {
            Ok(v) => v,
            Err(e) => { return Err(e) },
        };
        let position = match Marker::unpack(ver, src) {
            Ok(v) => v,
            Err(e) => { return Err(e) },
        };
        let orientation = match Quaternion::unpack(ver, src) {
            Ok(v) => v,
            Err(e) => { return Err(e) },
        };
        let n = match src.read_i32() {
            Ok(v) => v,
            Err(e) => { return Err(e) },
        };
        let markers = match unpack_n::<Marker>(ver, src, n) {
            Ok(v) => v,
            Err(e) => { return Err(e) },
        };
        let marker_ids = match unpack_n::<i32>(ver, src, n) {
            Ok(v) => v,
            Err(e) => { return Err(e) },
        };
        let marker_sizes = match unpack_n::<u32>(ver, src, n) {
            Ok(v) => v,
            Err(e) => { return Err(e) },
        };
        let mean_error = match src.read_u32() {
            Ok(v) => v,
            Err(e) => { return Err(e) },
        };
        let valid_track = if has_optional_flags(ver) {
            let params = match src.read_u16() {
                Ok(v) => v,
                Err(e) => { return Err(e) },
            };
            Some(params & 0x01 > 0)
        } else {
            None
        };
        proof {
            assert(markers.deep_view() =~= markers@);
            assert(marker_ids.deep_view() =~= marker_ids@);
            assert(marker_sizes.deep_view() =~= marker_sizes@);
        }
        Ok(
            RigidBody {
                id,
                position,
                orientation,
                markers,
                marker_ids,
                marker_sizes,
                mean_error,
                valid_track,
            },
        )
    }
}

} // verus!
