//! The messages exchanged with a tracking server: the tagged response
//! value the decoder produces, and the fixed-shape outgoing requests.

use vstd::prelude::*;

use crate::frame::{FrameOfData, FrameOfDataV};
use crate::model::{DataSet, DataSetV};
use crate::sender::{Sender, SenderV};
use crate::NatNetMsgType;

verus! {

/// A decoded message from the tracking server.
#[derive(Clone, Debug, PartialEq)]
pub enum NatNetResponse {
    /// Response to a ping request: data about the sender application.
    Ping(Sender),
    /// Response to a command, as an integer code.
    Response(i32),
    /// Response to a command, in text form.
    ResponseString(String),
    /// Model definitions describing the data in a frame.
    ModelDef(Vec<DataSet>),
    /// One frame of tracked data.
    FrameOfData(FrameOfData),
    /// A text message from the sender application.
    MessageString(String),
    /// The sender application did not understand the request.
    UnrecognizedRequest,
}

pub enum NatNetResponseV {
    Ping(SenderV),
    Response(i32),
    ResponseString(Seq<char>),
    ModelDef(Seq<DataSetV>),
    FrameOfData(FrameOfDataV),
    MessageString(Seq<char>),
    UnrecognizedRequest,
}

impl View for NatNetResponse {
    type V = NatNetResponseV;

    open spec fn view(&self) -> NatNetResponseV {
        match self {
            NatNetResponse::Ping(s) => NatNetResponseV::Ping(s@),
            NatNetResponse::Response(i) => NatNetResponseV::Response(*i),
            NatNetResponse::ResponseString(s) => NatNetResponseV::ResponseString(s@),
            NatNetResponse::ModelDef(v) => NatNetResponseV::ModelDef(v.deep_view()),
            NatNetResponse::FrameOfData(f) => NatNetResponseV::FrameOfData(f@),
            NatNetResponse::MessageString(s) => NatNetResponseV::MessageString(s@),
            NatNetResponse::UnrecognizedRequest => NatNetResponseV::UnrecognizedRequest,
        }
    }
}

impl DeepView for NatNetResponse {
    type V = NatNetResponseV;

    open spec fn deep_view(&self) -> NatNetResponseV {
        self.view()
    }
}

/// A request sent to a tracking server.
#[derive(Clone, Debug, PartialEq)]
pub enum NatNetRequest {
    /// Ping the server; the payload is the sender's name, without a
    /// trailing nul (the encoder appends one).
    Ping(Vec<u8>),
    /// Request the model definitions.
    ModelDefinitions,
    /// Request a frame of data.
    FrameOfData,
}

pub enum NatNetRequestV {
    Ping(Seq<u8>),
    ModelDefinitions,
    FrameOfData,
}

impl View for NatNetRequest {
    type V = NatNetRequestV;

    open spec fn view(&self) -> NatNetRequestV {
        match self {
            NatNetRequest::Ping(name) => NatNetRequestV::Ping(name@),
            NatNetRequest::ModelDefinitions => NatNetRequestV::ModelDefinitions,
            NatNetRequest::FrameOfData => NatNetRequestV::FrameOfData,
        }
    }
}

impl DeepView for NatNetRequest {
    type V = NatNetRequestV;

    open spec fn deep_view(&self) -> NatNetRequestV {
        self.view()
    }
}

/// A 16-bit value encoded little-endian.
pub open spec fn le16_bytes(v: u16) -> Seq<u8> {
    seq![(v & 0xff) as u8, (v >> 8) as u8]
}

/// The bytes of an encoded request.
///
/// The model-definition and frame requests are a type code with a
/// zero-length body. A ping request is the type code, the 16-bit
/// length of the nul-terminated name, then the name and its nul. A
/// request longer than 65535 bytes in total cannot be represented, so
/// an oversized name is truncated to make the total exactly 65535,
/// with a forced trailing nul.
pub open spec fn spec_encode_request(req: NatNetRequestV) -> Seq<u8> {
    match req {
        NatNetRequestV::ModelDefinitions => le16_bytes(
            NatNetMsgType::RequestModelDef.spec_code(),
        ) + le16_bytes(0),
        NatNetRequestV::FrameOfData => le16_bytes(NatNetMsgType::RequestFrameOfData.spec_code())
            + le16_bytes(0),
        NatNetRequestV::Ping(name) => if name.len() + 1 > 65531 {
            le16_bytes(NatNetMsgType::Ping.spec_code()) + le16_bytes(65531) + name.take(65530)
                + seq![0u8]
        } else {
            le16_bytes(NatNetMsgType::Ping.spec_code()) + le16_bytes((name.len() + 1) as u16)
                + name + seq![0u8]
        },
    }
}

/// Appends a 16-bit value in little-endian order.
fn push_u16_le(out: &mut Vec<u8>, v: u16)
    ensures
        final(out)@ == old(out)@ + le16_bytes(v),
{
    proof {
        assert((v & 0xff) < 256 && (v >> 8) < 256) by (bit_vector);
    }
    let ghost o0 = out@;
    out.push((v & 0xff) as u8);
    out.push((v >> 8) as u8);
    proof {
        assert(out@ =~= o0 + le16_bytes(v));
    }
}

impl NatNetRequest {
    /// Encodes the request for the wire.
    pub fn into_bytes(self) -> (r: Vec<u8>)
        ensures
            r@ == spec_encode_request(self@),
    {
        let ghost rv = self@;
        let mut out: Vec<u8> = Vec::new();
        match self {
            NatNetRequest::ModelDefinitions => {
                push_u16_le(&mut out, NatNetMsgType::RequestModelDef.code());
                push_u16_le(&mut out, 0);
                proof {
                    assert(out@ =~= spec_encode_request(rv));
                }
            },
            NatNetRequest::FrameOfData => {
                push_u16_le(&mut out, NatNetMsgType::RequestFrameOfData.code());
                push_u16_le(&mut out, 0);
                proof {
                    assert(out@ =~= spec_encode_request(rv));
                }
            },
            NatNetRequest::Ping(name) => {
                push_u16_le(&mut out, NatNetMsgType::Ping.code());
                if name.len() > 65530 {
                    push_u16_le(&mut out, 65531);
                    let ghost head = out@;
                    let mut i: usize = 0;
                    while i < 65530
                        invariant
                            65530 < name@.len(),
                            out@ == head + name@.take(i as int),
                            0 <= i as int <= 65530,
                        decreases 65530 - i,
                    {
                        let byte = name[i];
                        out.push(byte);
                        proof {
                            assert(out@ =~= head + name@.take(i as int + 1));
                        }
                        i = i + 1;
                    }
                    out.push(0);
                    proof {
                        assert(out@ =~= spec_encode_request(rv));
                    }
                } else {
                    push_u16_le(&mut out, (name.len() + 1) as u16);
                    out.extend_from_slice(name.as_slice());
                    out.push(0);
                    proof {
                        assert(out@ =~= spec_encode_request(rv));
                    }
                }
            },
        }
        out
    }
}

} // verus!
