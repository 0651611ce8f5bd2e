//! Skeletons: ordered collections of rigid bodies ("bones").

use vstd::prelude::*;

use crate::parse::{parser_of, spec_unpack_vec_of, unpack_vec, Unpack};
use crate::reader::{spec_read_i32, ByteSource};
use crate::rigid_body::{RigidBody, RigidBodyV};
use crate::version::ProtocolVersion;
use crate::ParseError;

verus! {

/// A skeleton: an ID plus the rigid bodies comprising it.
#[derive(Clone, Debug, PartialEq)]
pub struct Skeleton {
    /// ID of the skeleton.
    pub id: i32,
    /// Rigid bodies comprising this skeleton, in wire order.
    pub bones: Vec<RigidBody>,
}

pub struct SkeletonV {
    pub id: i32,
    pub bones: Seq<RigidBodyV>,
}

impl View for Skeleton {
    type V = SkeletonV;

    open spec fn view(&self) -> SkeletonV {
        SkeletonV { id: self.id, bones: self.bones.deep_view() }
    }
}

impl DeepView for Skeleton {
    type V = SkeletonV;

    open spec fn deep_view(&self) -> SkeletonV {
        self.view()
    }
}

/// An ID, then a count-prefixed sequence of rigid bodies.
pub open spec fn spec_unpack_skeleton(b: Seq<u8>, pos: int, ver: ProtocolVersion) -> Result<
    (SkeletonV, int),
    ParseError,
> {
    match spec_read_i32(b, pos) {
        Err(e) => Err(e),
        Ok((id, p1)) => match spec_unpack_vec_of(b, p1, parser_of::<RigidBody>(ver)) {
            Err(e) => Err(e),
            Ok((bones, p2)) => Ok((SkeletonV { id, bones }, p2)),
        },
    }
}

impl Unpack for Skeleton {
    open spec fn spec_unpack(b: Seq<u8>, pos: int, ver: ProtocolVersion) -> Result<
        (SkeletonV, int),
        ParseError,
    > {
        spec_unpack_skeleton(b, pos, ver)
    }

    fn unpack(ver: &ProtocolVersion, src: &mut ByteSource) -> (r: Result<Skeleton, ParseError>) {
        let id = match src.read_i32() {
            Ok(v) => v,
            Err(e) => { return Err(e) },
        };
        let bones = match unpack_vec::<RigidBody>(ver, src) {
            Ok(v) => v,
            Err(e) => { return Err(e) },
        };
        Ok(Skeleton { id, bones })
    }
}

} // verus!
