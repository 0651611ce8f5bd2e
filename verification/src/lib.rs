//! Decoder for the NatNet motion-capture streaming wire format.
//!
//! NatNet messages are little-endian binary frames produced by motion
//! tracking servers. The layout is not self-describing: which optional
//! fields are present, and how wide they are, depends on the protocol
//! version the sender speaks, which the caller must supply out of band.
//! Every decoder is verified against a specification-level parser of
//! the same wire layout, so a successful decode returns exactly the
//! value that layout assigns to the input bytes.
//!
//! Floating-point wire fields (positions, sizes, latency, timestamps)
//! are exposed as their raw IEEE-754 bit patterns (`u32` for 32-bit
//! values, `u64` for 64-bit values); interpreting them numerically is
//! left to the caller.

use vstd::prelude::*;

mod force_plate;
mod frame;
mod marker;
mod messages;
pub mod model;
mod parse;
mod props;
mod reader;
mod rigid_body;
mod sender;
mod skeleton;
mod version;

pub use force_plate::ForcePlate;
pub use frame::{FrameOfData, MarkerSetEntry, MarkerSetMap, Timecode, Timestamp};
pub use marker::{Marker, LabeledMarker};
pub use messages::{NatNetRequest, NatNetResponse};
pub use parse::Unpack;
pub use props::{
    lemma_decode_deterministic, lemma_end_marker_flip, lemma_frame_version_gate,
    lemma_truncated_message,
};
pub use reader::ByteSource;
pub use rigid_body::{Quaternion, RigidBody};
pub use sender::{Sender, SenderVersion};
pub use skeleton::Skeleton;
pub use version::ProtocolVersion;

use crate::frame::spec_unpack_frame;
use crate::messages::NatNetResponseV;
use crate::model::DataSet;
use crate::parse::{parser_of, spec_unpack_vec_of, unpack_vec};
use crate::reader::{spec_read_cstring, spec_read_i32, spec_read_u16};
use crate::sender::spec_unpack_sender;

verus! {

/// Errors caused during message parsing.
#[derive(Clone, Copy, Debug, PartialEq, Eq)]
pub enum ParseError {
    /// The end-of-data marker of a frame was nonzero, or a
    /// model-definition entry carried an unknown discriminant: the
    /// structure of the message did not match what the decoder
    /// expected, most likely because of a version mismatch.
    UnknownError,
    /// An envelope carried a message-type code the decoder does not
    /// know; the code is included for diagnostics.
    UnknownResponse(u16),
    /// The byte source failed for a reason other than running out of
    /// bytes (a transport failure). Decoding an in-memory buffer never
    /// produces this variant; it exists so that callers feeding bytes
    /// from a fallible transport have a distinct place for such
    /// failures in the same taxonomy.
    IO,
    /// Bytes that should have formed text were not valid UTF-8.
    StringError,
    /// The source ran out of bytes in the middle of a primitive: the
    /// message is truncated, which most likely means a version
    /// mismatch or wire corruption.
    NotEnoughBytes,
}

/// The message-type codes of the envelope.
#[derive(Clone, Copy, Debug, PartialEq, Eq, Structural)]
pub enum NatNetMsgType {
    Ping,
    PingResponse,
    Request,
    Response,
    RequestModelDef,
    ModelDef,
    RequestFrameOfData,
    FrameOfData,
    MessageString,
    UnrecognizedRequest,
}

impl NatNetMsgType {
    /// The wire code of each message type.
    pub open spec fn spec_code(self) -> u16 {
        match self {
            NatNetMsgType::Ping => 0,
            NatNetMsgType::PingResponse => 1,
            NatNetMsgType::Request => 2,
            NatNetMsgType::Response => 3,
            NatNetMsgType::RequestModelDef => 4,
            NatNetMsgType::ModelDef => 5,
            NatNetMsgType::RequestFrameOfData => 6,
            NatNetMsgType::FrameOfData => 7,
            NatNetMsgType::MessageString => 8,
            NatNetMsgType::UnrecognizedRequest => 100,
        }
    }

    pub fn code(self) -> (c: u16)
        ensures
            c == self.spec_code(),
    {
        match self {
            NatNetMsgType::Ping => 0,
            NatNetMsgType::PingResponse => 1,
            NatNetMsgType::Request => 2,
            NatNetMsgType::Response => 3,
            NatNetMsgType::RequestModelDef => 4,
            NatNetMsgType::ModelDef => 5,
            NatNetMsgType::RequestFrameOfData => 6,
            NatNetMsgType::FrameOfData => 7,
            NatNetMsgType::MessageString => 8,
            NatNetMsgType::UnrecognizedRequest => 100,
        }
    }
}

/// The body of a message whose envelope carried `msg_id` and declared
/// `num_bytes`. The declared length does not bound the decode; it is
/// load-bearing only for the Response quirk: a declared length of
/// exactly 4 selects the integer response, any other length the text
/// response. Request-type codes and unknown codes fail with
/// `UnknownResponse`.
pub open spec fn spec_unpack_rest(
    b: Seq<u8>,
    pos: int,
    msg_id: u16,
    num_bytes: u16,
    ver: ProtocolVersion,
) -> Result<(NatNetResponseV, int), ParseError> {
    if msg_id == NatNetMsgType::FrameOfData.spec_code() {
        match spec_unpack_frame(b, pos, ver) {
            Err(e) => Err(e),
            Ok((f, p)) => Ok((NatNetResponseV::FrameOfData(f), p)),
        }
    } else if msg_id == NatNetMsgType::ModelDef.spec_code() {
        match spec_unpack_vec_of(b, pos, parser_of::<DataSet>(ver)) {
            Err(e) => Err(e),
            Ok((models, p)) => Ok((NatNetResponseV::ModelDef(models), p)),
        }
    } else if msg_id == NatNetMsgType::PingResponse.spec_code() {
        match spec_unpack_sender(b, pos) {
            Err(e) => Err(e),
            Ok((s, p)) => Ok((NatNetResponseV::Ping(s), p)),
        }
    } else if msg_id == NatNetMsgType::MessageString.spec_code() {
        match spec_read_cstring(b, pos) {
            Err(e) => Err(e),
            Ok((s, p)) => Ok((NatNetResponseV::MessageString(s), p)),
        }
    } else if msg_id == NatNetMsgType::Response.spec_code() && num_bytes == 4 {
        match spec_read_i32(b, pos) {
            Err(e) => Err(e),
            Ok((i, p)) => Ok((NatNetResponseV::Response(i), p)),
        }
    } else if msg_id == NatNetMsgType::Response.spec_code() {
        match spec_read_cstring(b, pos) {
            Err(e) => Err(e),
            Ok((s, p)) => Ok((NatNetResponseV::ResponseString(s), p)),
        }
    } else if msg_id == NatNetMsgType::UnrecognizedRequest.spec_code() {
        Ok((NatNetResponseV::UnrecognizedRequest, pos))
    } else {
        Err(ParseError::UnknownResponse(msg_id))
    }
}

/// A whole message: the envelope (type code, declared length), then
/// the type-specific body.
pub open spec fn spec_unpack_message(b: Seq<u8>, pos: int, ver: ProtocolVersion) -> Result<
    (NatNetResponseV, int),
    ParseError,
> {
    match spec_read_u16(b, pos) {
        Err(e) => Err(e),
        Ok((msg_id, p1)) => match spec_read_u16(b, p1) {
            Err(e) => Err(e),
            Ok((num_bytes, p2)) => spec_unpack_rest(b, p2, msg_id, num_bytes, ver),
        },
    }
}

/// A filtered decode for protocol probing: `None` unless the envelope
/// could be read and carries the wanted type, the decoded body
/// otherwise.
pub open spec fn spec_unpack_type(
    b: Seq<u8>,
    pos: int,
    t: NatNetMsgType,
    ver: ProtocolVersion,
) -> Option<Result<(NatNetResponseV, int), ParseError>> {
    match spec_read_u16(b, pos) {
        Err(e) => None,
        Ok((msg_id, p1)) => match spec_read_u16(b, p1) {
            Err(e) => None,
            Ok((num_bytes, p2)) => if msg_id == t.spec_code() {
                Some(spec_unpack_rest(b, p2, msg_id, num_bytes, ver))
            } else {
                None
            },
        },
    }
}

/// Parser for NatNet data: an immutable bundle of the negotiated
/// protocol version, the main entry point to decode messages.
#[derive(Clone, Copy, Debug)]
pub struct NatNet {
    ver: ProtocolVersion,
}

impl NatNet {
    /// The protocol version this parser assumes.
    pub closed spec fn spec_ver(&self) -> ProtocolVersion {
        self.ver
    }

    /// Creates a parser that uses the given version for subsequent
    /// `unpack` calls.
    pub fn new(ver: ProtocolVersion) -> (p: NatNet)
        ensures
            p.spec_ver() == ver,
    {
        NatNet { ver }
    }

    /// Decodes one message, assuming the given protocol version.
    pub fn unpack_with(ver: &ProtocolVersion, src: &mut ByteSource) -> (r: Result<
        NatNetResponse,
        ParseError,
    >)
        ensures
            final(src).spec_data() == old(src).spec_data(),
            old(src).spec_pos() <= final(src).spec_pos(),
            match r {
                Ok(v) => spec_unpack_message(old(src).spec_data(), old(src).spec_pos(), *ver)
                    == Ok::<(NatNetResponseV, int), ParseError>((v@, final(src).spec_pos())),
                Err(e) => spec_unpack_message(old(src).spec_data(), old(src).spec_pos(), *ver)
                    == Err::<(NatNetResponseV, int), ParseError>(e),
            },
    {
        let msg_id = match src.read_u16() {
            Ok(v) => v,
            Err(e) => { return Err(e) },
        };
        let num_bytes = match src.read_u16() {
            Ok(v) => v,
            Err(e) => { return Err(e) },
        };
        NatNet::unpack_rest(msg_id, num_bytes, ver, src)
    }

    /// Decodes the body after the envelope has been read.
    fn unpack_rest(msg_id: u16, num_bytes: u16, ver: &ProtocolVersion, src: &mut ByteSource) -> (r:
        Result<NatNetResponse, ParseError>)
        ensures
            final(src).spec_data() == old(src).spec_data(),
            old(src).spec_pos() <= final(src).spec_pos(),
            match r {
                Ok(v) => spec_unpack_rest(
                    old(src).spec_data(),
                    old(src).spec_pos(),
                    msg_id,
                    num_bytes,
                    *ver,
                ) == Ok::<(NatNetResponseV, int), ParseError>((v@, final(src).spec_pos())),
                Err(e) => spec_unpack_rest(
                    old(src).spec_data(),
                    old(src).spec_pos(),
                    msg_id,
                    num_bytes,
                    *ver,
                ) == Err::<(NatNetResponseV, int), ParseError>(e),
            },
    {
        if msg_id == NatNetMsgType::FrameOfData.code() {
            match FrameOfData::unpack(ver, src) {
                Ok(f) => Ok(NatNetResponse::FrameOfData(f)),
                Err(e) => Err(e),
            }
        } else if msg_id == NatNetMsgType::ModelDef.code() {
            match unpack_vec::<DataSet>(ver, src) {
                Ok(models) => Ok(NatNetResponse::ModelDef(models)),
                Err(e) => Err(e),
            }
        } else if msg_id == NatNetMsgType::PingResponse.code() {
            match Sender::unpack(ver, src) {
                Ok(s) => Ok(NatNetResponse::Ping(s)),
                Err(e) => Err(e),
            }
        } else if msg_id == NatNetMsgType::MessageString.code() {
            match src.read_cstring() {
                Ok(s) => Ok(NatNetResponse::MessageString(s)),
                Err(e) => Err(e),
            }
        } else if msg_id == NatNetMsgType::Response.code() && num_bytes == 4 {
            match src.read_i32() {
                Ok(i) => Ok(NatNetResponse::Response(i)),
                Err(e) => Err(e),
            }
        } else if msg_id == NatNetMsgType::Response.code() {
            match src.read_cstring() {
                Ok(s) => Ok(NatNetResponse::ResponseString(s)),
                Err(e) => Err(e),
            }
        } else if msg_id == NatNetMsgType::UnrecognizedRequest.code() {
            Ok(NatNetResponse::UnrecognizedRequest)
        } else {
            Err(ParseError::UnknownResponse(msg_id))
        }
    }

    /// Decodes only messages of the wanted type.
    ///
    /// The envelope of any message is consumed to check its type.
    /// Failure to read the envelope, or a type other than the wanted
    /// one, is a uniform `None`, so a caller can cheaply probe with
    /// candidate versions; once the type matches, body failures
    /// propagate normally.
    pub fn unpack_type_with(t: NatNetMsgType, ver: &ProtocolVersion, src: &mut ByteSource) -> (r:
        Option<Result<NatNetResponse, ParseError>>)
        ensures
            final(src).spec_data() == old(src).spec_data(),
            old(src).spec_pos() <= final(src).spec_pos(),
            match r {
                None => spec_unpack_type(old(src).spec_data(), old(src).spec_pos(), t, *ver)
                    is None,
                Some(inner) => match inner {
                    Ok(v) => spec_unpack_type(old(src).spec_data(), old(src).spec_pos(), t, *ver)
                        == Some(
                        Ok::<(NatNetResponseV, int), ParseError>((v@, final(src).spec_pos())),
                    ),
                    Err(e) => spec_unpack_type(old(src).spec_data(), old(src).spec_pos(), t, *ver)
                        == Some(Err::<(NatNetResponseV, int), ParseError>(e)),
                },
            },
    {
        let msg_id = match src.read_u16() {
            Ok(v) => v,
            Err(e) => { return None },
        };
        let num_bytes = match src.read_u16() {
            Ok(v) => v,
            Err(e) => { return None },
        };
        if msg_id == t.code() {
            Some(NatNet::unpack_rest(msg_id, num_bytes, ver, src))
        } else {
            None
        }
    }

    /// Decodes one message with this parser's version.
    pub fn unpack(&self, src: &mut ByteSource) -> (r: Result<NatNetResponse, ParseError>)
        ensures
            final(src).spec_data() == old(src).spec_data(),
            old(src).spec_pos() <= final(src).spec_pos(),
            match r {
                Ok(v) => spec_unpack_message(
                    old(src).spec_data(),
                    old(src).spec_pos(),
                    self.spec_ver(),
                ) == Ok::<(NatNetResponseV, int), ParseError>((v@, final(src).spec_pos())),
                Err(e) => spec_unpack_message(
                    old(src).spec_data(),
                    old(src).spec_pos(),
                    self.spec_ver(),
                ) == Err::<(NatNetResponseV, int), ParseError>(e),
            },
    {
        NatNet::unpack_with(&self.ver, src)
    }

    /// Decodes only messages of the wanted type, with this parser's
    /// version (see `unpack_type_with`).
    pub fn unpack_type(&self, t: NatNetMsgType, src: &mut ByteSource) -> (r: Option<
        Result<NatNetResponse, ParseError>,
    >)
        ensures
            final(src).spec_data() == old(src).spec_data(),
            old(src).spec_pos() <= final(src).spec_pos(),
            match r {
                None => spec_unpack_type(
                    old(src).spec_data(),
                    old(src).spec_pos(),
                    t,
                    self.spec_ver(),
                ) is None,
                Some(inner) => match inner {
                    Ok(v) => spec_unpack_type(
                        old(src).spec_data(),
                        old(src).spec_pos(),
                        t,
                        self.spec_ver(),
                    ) == Some(
                        Ok::<(NatNetResponseV, int), ParseError>((v@, final(src).spec_pos())),
                    ),
                    Err(e) => spec_unpack_type(
                        old(src).spec_data(),
                        old(src).spec_pos(),
                        t,
                        self.spec_ver(),
                    ) == Some(Err::<(NatNetResponseV, int), ParseError>(e)),
                },
            },
    {
        NatNet::unpack_type_with(t, &self.ver, src)
    }
}

} // verus!
