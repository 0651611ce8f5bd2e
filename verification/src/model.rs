//! Model definitions: descriptors of the data sets a sender can
//! stream, selected by a leading 32-bit discriminant.

use vstd::prelude::*;

use crate::parse::{parser_of, spec_unpack_vec_of, unpack_vec, Unpack};
use crate::reader::{spec_read_cstring, spec_read_i32, spec_read_u32, ByteSource};
use crate::version::ProtocolVersion;
use crate::ParseError;

verus! {

/// A 3D offset, each coordinate the bit pattern of a 32-bit IEEE-754
/// float.
#[derive(Clone, Copy, Debug, PartialEq, Eq)]
pub struct Vector3 {
    pub x: u32,
    pub y: u32,
    pub z: u32,
}

/// Description of a marker set: its name and its markers' names.
#[derive(Clone, Debug, PartialEq)]
pub struct MarkerSet {
    /// Name of the set.
    pub name: String,
    /// Names of the markers in the set.
    pub markers: Vec<String>,
}

pub struct MarkerSetV {
    pub name: Seq<char>,
    pub markers: Seq<Seq<char>>,
}

impl View for MarkerSet {
    type V = MarkerSetV;

    open spec fn view(&self) -> MarkerSetV {
        MarkerSetV { name: self.name@, markers: self.markers.deep_view() }
    }
}

impl DeepView for MarkerSet {
    type V = MarkerSetV;

    open spec fn deep_view(&self) -> MarkerSetV {
        self.view()
    }
}

/// Description of a rigid body: name, IDs and the offset from its
/// parent.
#[derive(Clone, Debug, PartialEq)]
pub struct RigidBody {
    /// Name of the body.
    pub name: String,
    /// ID of the body.
    pub id: i32,
    /// ID of the parent of this body.
    pub parent_id: i32,
    /// Offset from the parent.
    pub offset: Vector3,
}

pub struct RigidBodyV {
    pub name: Seq<char>,
    pub id: i32,
    pub parent_id: i32,
    pub offset: Vector3,
}

impl View for RigidBody {
    type V = RigidBodyV;

    open spec fn view(&self) -> RigidBodyV {
        RigidBodyV {
            name: self.name@,
            id: self.id,
            parent_id: self.parent_id,
            offset: self.offset,
        }
    }
}

impl DeepView for RigidBody {
    type V = RigidBodyV;

    open spec fn deep_view(&self) -> RigidBodyV {
        self.view()
    }
}

/// Description of a skeleton: its name, its ID and its bones.
#[derive(Clone, Debug, PartialEq)]
pub struct Skeleton {
    /// Name of the skeleton.
    pub name: String,
    /// ID of the skeleton.
    pub id: i32,
    /// Descriptions of the bodies comprising the skeleton.
    pub bones: Vec<RigidBody>,
}

pub struct SkeletonV {
    pub name: Seq<char>,
    pub id: i32,
    pub bones: Seq<RigidBodyV>,
}

impl View for Skeleton {
    type V = SkeletonV;

    open spec fn view(&self) -> SkeletonV {
        SkeletonV { name: self.name@, id: self.id, bones: self.bones.deep_view() }
    }
}

impl DeepView for Skeleton {
    type V = SkeletonV;

    open spec fn deep_view(&self) -> SkeletonV {
        self.view()
    }
}

/// One model definition: a closed choice over the three descriptor
/// kinds.
#[derive(Clone, Debug, PartialEq)]
pub enum DataSet {
    /// Description of a marker set.
    MarkerSet(MarkerSet),
    /// Description of a rigid body.
    RigidBody(RigidBody),
    /// Description of a skeleton.
    Skeleton(Skeleton),
}

pub enum DataSetV {
    MarkerSet(MarkerSetV),
    RigidBody(RigidBodyV),
    Skeleton(SkeletonV),
}

impl View for DataSet {
    type V = DataSetV;

    open spec fn view(&self) -> DataSetV {
        match self {
            DataSet::MarkerSet(m) => DataSetV::MarkerSet(m@),
            DataSet::RigidBody(r) => DataSetV::RigidBody(r@),
            DataSet::Skeleton(s) => DataSetV::Skeleton(s@),
        }
    }
}

impl DeepView for DataSet {
    type V = DataSetV;

    open spec fn deep_view(&self) -> DataSetV {
        self.view()
    }
}

/// A name, then a count-prefixed sequence of marker names.
pub open spec fn spec_unpack_marker_set(b: Seq<u8>, pos: int, ver: ProtocolVersion) -> Result<
    (MarkerSetV, int),
    ParseError,
> {
    match spec_read_cstring(b, pos) {
        Err(e) => Err(e),
        Ok((name, p1)) => match spec_unpack_vec_of(b, p1, parser_of::<String>(ver)) {
            Err(e) => Err(e),
            Ok((markers, p2)) => Ok((MarkerSetV { name, markers }, p2)),
        },
    }
}

/// A name, two IDs, then the three offset coordinates.
pub open spec fn spec_unpack_rigid_body_desc(b: Seq<u8>, pos: int) -> Result<
    (RigidBodyV, int),
    ParseError,
> {
    match spec_read_cstring(b, pos) {
        Err(e) => Err(e),
        Ok((name, p1)) => match spec_read_i32(b, p1) {
            Err(e) => Err(e),
            Ok((id, p2)) => match spec_read_i32(b, p2) {
                Err(e) => Err(e),
                Ok((parent_id, p3)) => match spec_read_u32(b, p3) {
                    Err(e) => Err(e),
                    Ok((x, p4)) => match spec_read_u32(b, p4) {
                        Err(e) => Err(e),
                        Ok((y, p5)) => match spec_read_u32(b, p5) {
                            Err(e) => Err(e),
                            Ok((z, p6)) => Ok(
                                (
                                    RigidBodyV {
                                        name,
                                        id,
                                        parent_id,
                                        offset: Vector3 { x, y, z },
                                    },
                                    p6,
                                ),
                            ),
                        },
                    },
                },
            },
        },
    }
}

/// A name, an ID, then a count-prefixed sequence of rigid-body
/// descriptions.
pub open spec fn spec_unpack_skeleton_desc(b: Seq<u8>, pos: int, ver: ProtocolVersion) -> Result<
    (SkeletonV, int),
    ParseError,
> {
    match spec_read_cstring(b, pos) {
        Err(e) => Err(e),
        Ok((name, p1)) => match spec_read_i32(b, p1) {
            Err(e) => Err(e),
            Ok((id, p2)) => match spec_unpack_vec_of(b, p2, parser_of::<RigidBody>(ver)) {
                Err(e) => Err(e),
                Ok((bones, p3)) => Ok((SkeletonV { name, id, bones }, p3)),
            },
        },
    }
}

/// A leading 32-bit discriminant selects the descriptor kind: 0 is a
/// marker set, 1 a rigid body, 2 a skeleton. Any other discriminant is
/// a fatal structural mismatch: there is no way to skip an entry of
/// unknown shape.
pub open spec fn spec_unpack_data_set(b: Seq<u8>, pos: int, ver: ProtocolVersion) -> Result<
    (DataSetV, int),
    ParseError,
> {
    match spec_read_i32(b, pos) {
        Err(e) => Err(e),
        Ok((d, p1)) => if d == 0 {
            match spec_unpack_marker_set(b, p1, ver) {
                Err(e) => Err(e),
                Ok((m, p2)) => Ok((DataSetV::MarkerSet(m), p2)),
            }
        } else if d == 1 {
            match spec_unpack_rigid_body_desc(b, p1) {
                Err(e) => Err(e),
                Ok((r, p2)) => Ok((DataSetV::RigidBody(r), p2)),
            }
        } else if d == 2 {
            match spec_unpack_skeleton_desc(b, p1, ver) {
                Err(e) => Err(e),
                Ok((s, p2)) => Ok((DataSetV::Skeleton(s), p2)),
            }
        } else {
            Err(ParseError::UnknownError)
        },
    }
}

impl Unpack for MarkerSet {
    open spec fn spec_unpack(b: Seq<u8>, pos: int, ver: ProtocolVersion) -> Result<
        (MarkerSetV, int),
        ParseError,
    > {
        spec_unpack_marker_set(b, pos, ver)
    }

    fn unpack(ver: &ProtocolVersion, src: &mut ByteSource) -> (r: Result<MarkerSet, ParseError>) {
        let name = match src.read_cstring() {
            Ok(v) => v,
            Err(e) => { return Err(e) },
        };
        let markers = match unpack_vec::<String>(ver, src) {
            Ok(v) => v,
            Err(e) => { return Err(e) },
        };
        Ok(MarkerSet { name, markers })
    }
}

impl Unpack for RigidBody {
    open spec fn spec_unpack(b: Seq<u8>, pos: int, ver: ProtocolVersion) -> Result<
        (RigidBodyV, int),
        ParseError,
    > {
        spec_unpack_rigid_body_desc(b, pos)
    }

    fn unpack(ver: &ProtocolVersion, src: &mut ByteSource) -> (r: Result<RigidBody, ParseError>) {
        let name = match src.read_cstring() {
            Ok(v) => v,
            Err(e) => { return Err(e) },
        };
        let id = match src.read_i32() {
            Ok(v) => v,
            Err(e) => { return Err(e) },
        };
        let parent_id = match src.read_i32() {
            Ok(v) => v,
            Err(e) => { return Err(e) },
        };
        let x = match src.read_u32() {
            Ok(v) => v,
            Err(e) => { return Err(e) },
        };
        let y = match src.read_u32() {
            Ok(v) => v,
            Err(e) => { return Err(e) },
        };
        let z = match src.read_u32() {
            Ok(v) => v,
            Err(e) => { return Err(e) },
        };
        Ok(RigidBody { name, id, parent_id, offset: Vector3 { x, y, z } })
    }
}

impl Unpack for Skeleton {
    open spec fn spec_unpack(b: Seq<u8>, pos: int, ver: ProtocolVersion) -> Result<
        (SkeletonV, int),
        ParseError,
    > {
        spec_unpack_skeleton_desc(b, pos, ver)
    }

    fn unpack(ver: &ProtocolVersion, src: &mut ByteSource) -> (r: Result<Skeleton, ParseError>) {
        let name = match src.read_cstring() {
            Ok(v) => v,
            Err(e) => { return Err(e) },
        };
        let id = match src.read_i32() {
            Ok(v) => v,
            Err(e) => { return Err(e) },
        };
        let bones = match unpack_vec::<RigidBody>(ver, src) {
            Ok(v) => v,
            Err(e) => { return Err(e) },
        };
        Ok(Skeleton { name, id, bones })
    }
}

impl Unpack for DataSet {
    open spec fn spec_unpack(b: Seq<u8>, pos: int, ver: ProtocolVersion) -> Result<
        (DataSetV, int),
        ParseError,
    > {
        spec_unpack_data_set(b, pos, ver)
    }

    fn unpack(ver: &ProtocolVersion, src: &mut ByteSource) -> (r: Result<DataSet, ParseError>) {
        let d = match src.read_i32() {
            Ok(v) => v,
            Err(e) => { return Err(e) },
        };
        if d == 0 {
            match MarkerSet::unpack(ver, src) {
                Ok(m) => Ok(DataSet::MarkerSet(m)),
                Err(e) => Err(e),
            }
        } else if d == 1 {
            match RigidBody::unpack(ver, src) {
                Ok(r) => Ok(DataSet::RigidBody(r)),
                Err(e) => Err(e),
            }
        } else if d == 2 {
            match Skeleton::unpack(ver, src) {
                Ok(s) => Ok(DataSet::Skeleton(s)),
                Err(e) => Err(e),
            }
        } else {
            Err(ParseError::UnknownError)
        }
    }
}

} // verus!
