//! The sender descriptor: identifies the application producing the
//! stream and the protocol version it speaks.

use vstd::prelude::*;
use vstd::utf8::{decode_utf8, decode_utf8_encode_utf8, encode_utf8, valid_utf8};

use crate::parse::Unpack;
use crate::reader::{
    lemma_find_nul, spec_find_nul, spec_read_cstring, spec_read_u8, spec_skip, ByteSource,
};
use crate::version::ProtocolVersion;
use crate::ParseError;

verus! {

/// A four-byte version as the sender descriptor carries it:
/// `major.minor.patch` plus a numeric build tag, one byte each.
#[derive(Clone, Copy, Debug, PartialEq, Eq, Structural)]
pub struct SenderVersion {
    pub major: u8,
    pub minor: u8,
    pub patch: u8,
    pub build: u8,
}

/// Four consecutive bytes: major, minor, patch, build.
pub open spec fn spec_unpack_sender_version(b: Seq<u8>, pos: int) -> Result<
    (SenderVersion, int),
    ParseError,
> {
    match spec_read_u8(b, pos) {
        Err(e) => Err(e),
        Ok((major, p1)) => match spec_read_u8(b, p1) {
            Err(e) => Err(e),
            Ok((minor, p2)) => match spec_read_u8(b, p2) {
                Err(e) => Err(e),
                Ok((patch, p3)) => match spec_read_u8(b, p3) {
                    Err(e) => Err(e),
                    Ok((build, p4)) => Ok((SenderVersion { major, minor, patch, build }, p4)),
                },
            },
        },
    }
}

/// Decodes one four-byte version field.
pub fn unpack_sender_version(src: &mut ByteSource) -> (r: Result<SenderVersion, ParseError>)
    ensures
        final(src).spec_data() == old(src).spec_data(),
        old(src).spec_pos() <= final(src).spec_pos(),
        match r {
            Ok(v) => spec_unpack_sender_version(old(src).spec_data(), old(src).spec_pos())
                == Ok::<(SenderVersion, int), ParseError>((v, final(src).spec_pos())),
            Err(e) => spec_unpack_sender_version(old(src).spec_data(), old(src).spec_pos())
                == Err::<(SenderVersion, int), ParseError>(e),
        },
{
    let major = match src.read_u8() {
        Ok(v) => v,
        Err(e) => { return Err(e) },
    };
    let minor = match src.read_u8() {
        Ok(v) => v,
        Err(e) => { return Err(e) },
    };
    let patch = match src.read_u8() {
        Ok(v) => v,
        Err(e) => { return Err(e) },
    };
    let build = match src.read_u8() {
        Ok(v) => v,
        Err(e) => { return Err(e) },
    };
    Ok(SenderVersion { major, minor, patch, build })
}

/// The application that is sending data.
///
/// The name occupies a fixed 256-byte slot on the wire: after the
/// null-terminated name, the decoder discards the unused remainder of
/// the slot so the cursor lands exactly at the version fields.
#[derive(Clone, Debug, PartialEq)]
pub struct Sender {
    /// Name of the application sending data.
    pub name: String,
    /// Internal version of the sender application.
    pub version: SenderVersion,
    /// Protocol version the sender application speaks.
    pub natnet_version: SenderVersion,
}

pub struct SenderV {
    pub name: Seq<char>,
    pub version: SenderVersion,
    pub natnet_version: SenderVersion,
}

impl View for Sender {
    type V = SenderV;

    open spec fn view(&self) -> SenderV {
        SenderV {
            name: self.name@,
            version: self.version,
            natnet_version: self.natnet_version,
        }
    }
}

impl DeepView for Sender {
    type V = SenderV;

    open spec fn deep_view(&self) -> SenderV {
        self.view()
    }
}

/// A null-terminated name inside a 256-byte slot (a name longer than
/// 255 bytes cannot come from a well-formed descriptor and is a
/// structural mismatch), then the application version and the protocol
/// version, four bytes each.
pub open spec fn spec_unpack_sender(b: Seq<u8>, pos: int) -> Result<(SenderV, int), ParseError> {
    match spec_read_cstring(b, pos) {
        Err(e) => Err(e),
        Ok((name, p1)) => {
            let nlen = p1 - pos - 1;
            if nlen > 255 {
                Err(ParseError::UnknownError)
            } else {
                match spec_skip(b, p1, 255 - nlen) {
                    Err(e) => Err(e),
                    Ok((u, p2)) => match spec_unpack_sender_version(b, p2) {
                        Err(e) => Err(e),
                        Ok((version, p3)) => match spec_unpack_sender_version(b, p3) {
                            Err(e) => Err(e),
                            Ok((natnet_version, p4)) => Ok(
                                (SenderV { name, version, natnet_version }, p4),
                            ),
                        },
                    },
                }
            }
        },
    }
}

impl Unpack for Sender {
    open spec fn spec_unpack(b: Seq<u8>, pos: int, ver: ProtocolVersion) -> Result<
        (SenderV, int),
        ParseError,
    > {
        spec_unpack_sender(b, pos)
    }

    fn unpack(ver: &ProtocolVersion, src: &mut ByteSource) -> (r: Result<Sender, ParseError>) {
        let ghost b = src.spec_data();
        let ghost p_start = src.spec_pos();
        let name = match src.read_cstring() {
            Ok(v) => v,
            Err(e) => { return Err(e) },
        };
        let ghost content = b.subrange(p_start, src.spec_pos() - 1);
        proof {
            // The name's byte length equals the wire bytes consumed
            // before the nul: UTF-8 decode then encode is the identity
            // on valid byte sequences.
            src.lemma_len_bound();
            assert(p_start <= b.len()) by {
                if p_start > b.len() {
                    assert(spec_find_nul(b, p_start) == b.len());
                }
            }
            lemma_find_nul(b, p_start);
            let j: int = spec_find_nul(b, p_start);
            assert(j < b.len() && src.spec_pos() == j + 1);
            assert(content.len() == j - p_start);
            assert(valid_utf8(content) && name@ == decode_utf8(content));
            decode_utf8_encode_utf8(content);
            assert(encode_utf8(name@) == content);
        }
        let nlen = name.as_str().len();
        proof {
            assert(nlen as int == content.len());
        }
        if nlen > 255 {
            return Err(ParseError::UnknownError);
        }
        match src.skip(255 - nlen) {
            Ok(u) => u,
            Err(e) => { return Err(e) },
        };
        let version = match unpack_sender_version(src) {
            Ok(v) => v,
            Err(e) => { return Err(e) },
        };
        let natnet_version = match unpack_sender_version(src) {
            Ok(v) => v,
            Err(e) => { return Err(e) },
        };
        Ok(Sender { name, version, natnet_version })
    }
}

} // verus!
