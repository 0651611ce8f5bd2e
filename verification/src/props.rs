//! Properties of the decoder that go beyond single contracts: a
//! decode depends only on the bytes it consumes, truncating a
//! well-formed message yields `NotEnoughBytes`, flipping the terminal
//! end-of-data marker of a frame yields a structural mismatch, and the
//! presence of every version-dependent frame field follows the threshold table.

use vstd::prelude::*;

use crate::force_plate::ForcePlate;
use crate::frame::{
    entries_insert, spec_parse_marker_sets, spec_unpack_frame, spec_unpack_frame_tail,
    FrameOfDataV, MarkerSetEntryV,
};
use crate::marker::{LabeledMarker, Marker};
use crate::model::{DataSet, MarkerSet, RigidBody as RigidBodyDesc, Skeleton as SkeletonDesc};
use crate::parse::{count_nat, parser_of, spec_parse_n_acc, spec_unpack_vec_of, Unpack};
use crate::reader::{
    lemma_find_nul, spec_find_nul, spec_le_u32, spec_read_cstring, spec_read_i32, spec_read_u16,
    spec_read_u32, spec_read_u64,
};
use crate::rigid_body::{Quaternion, RigidBody};
use crate::sender::spec_unpack_sender;
use crate::skeleton::Skeleton;
use crate::version::{
    spec_has_force_plates, spec_has_optional_flags, spec_timestamp_is_double,
    spec_timestamp_is_single, ProtocolVersion,
};
use crate::{spec_unpack_message, NatNetMsgType, ParseError};

verus! {

/// A parser is secure against buffer edits beyond what it consumes:
/// a successful parse moves forward and stays in bounds; it returns
/// the same result on any buffer that agrees on the consumed range;
/// and cutting the buffer short of what it consumed turns the parse
/// into `NotEnoughBytes`.
#[verifier::opaque]
pub open spec fn parser_secure<T>(
    f: spec_fn(Seq<u8>, int) -> Result<(T, int), ParseError>,
) -> bool {
    (forall|b: Seq<u8>, pos: int|
        0 <= pos && (#[trigger] f(b, pos)) is Ok ==> pos <= f(b, pos)->Ok_0.1 <= b.len())
        && (forall|b: Seq<u8>, b2: Seq<u8>, pos: int|
        #![trigger f(b, pos), f(b2, pos)]
        0 <= pos && f(b, pos) is Ok && f(b, pos)->Ok_0.1 <= b2.len() && (forall|i: int|
            pos <= i < f(b, pos)->Ok_0.1 ==> b2[i] == b[i]) ==> f(b2, pos) == f(b, pos)) && (
    forall|b: Seq<u8>, pos: int, k: int|
        #![trigger f(b.take(k), pos), f(b, pos)]
        0 <= pos <= k <= b.len() && f(b, pos) is Ok && k < f(b, pos)->Ok_0.1 ==> f(b.take(k), pos)
            == Err::<(T, int), ParseError>(ParseError::NotEnoughBytes))
}

/// If no byte of `b` at or after `pos` is nul, the search runs to the
/// end.
proof fn lemma_find_nul_none(b: Seq<u8>, pos: int)
    requires
        0 <= pos,
        forall|i: int| pos <= i < b.len() ==> b[i] != 0,
    ensures
        spec_find_nul(b, pos) == b.len(),
    decreases b.len() - pos,
{
    if pos < b.len() {
        lemma_find_nul_none(b, pos + 1)
    }
}

/// The nul search gives the same index on any buffer that agrees up
/// to and including the nul.
proof fn lemma_find_nul_agree(b: Seq<u8>, b2: Seq<u8>, pos: int)
    requires
        0 <= pos,
        spec_find_nul(b, pos) < b.len(),
        spec_find_nul(b, pos) < b2.len(),
        forall|i: int| pos <= i <= spec_find_nul(b, pos) ==> b2[i] == b[i],
    ensures
        spec_find_nul(b2, pos) == spec_find_nul(b, pos),
    decreases b.len() - pos,
{
    lemma_find_nul(b, pos);
    if b[pos] != 0 {
        lemma_find_nul_agree(b, b2, pos + 1);
    }
}

/// Reading null-terminated text is secure in the sense of
/// [`parser_secure`].
proof fn lemma_cstring_secure()
    ensures
        forall|b: Seq<u8>, pos: int|
            0 <= pos && (#[trigger] spec_read_cstring(b, pos)) is Ok ==> pos < spec_read_cstring(
                b,
                pos,
            )->Ok_0.1 <= b.len(),
        forall|b: Seq<u8>, b2: Seq<u8>, pos: int|
            #![trigger spec_read_cstring(b, pos), spec_read_cstring(b2, pos)]
            0 <= pos && spec_read_cstring(b, pos) is Ok && spec_read_cstring(b, pos)->Ok_0.1
                <= b2.len() && (forall|i: int|
                pos <= i < spec_read_cstring(b, pos)->Ok_0.1 ==> b2[i] == b[i])
                ==> spec_read_cstring(b2, pos) == spec_read_cstring(b, pos),
        forall|b: Seq<u8>, pos: int, k: int|
            #![trigger spec_read_cstring(b.take(k), pos), spec_read_cstring(b, pos)]
            0 <= pos <= k <= b.len() && spec_read_cstring(b, pos) is Ok && k < spec_read_cstring(
                b,
                pos,
            )->Ok_0.1 ==> spec_read_cstring(b.take(k), pos) == Err::<
                (Seq<char>, int),
                ParseError,
            >(ParseError::NotEnoughBytes),
{
    assert forall|b: Seq<u8>, pos: int|
        0 <= pos && (#[trigger] spec_read_cstring(b, pos)) is Ok implies pos < spec_read_cstring(
        b,
        pos,
    )->Ok_0.1 <= b.len() by {
        if pos > b.len() {
            assert(spec_find_nul(b, pos) == b.len());
        } else {
            lemma_find_nul(b, pos);
        }
    }
    assert forall|b: Seq<u8>, b2: Seq<u8>, pos: int|
        0 <= pos && (#[trigger] spec_read_cstring(b, pos)) is Ok && spec_read_cstring(
            b,
            pos,
        )->Ok_0.1 <= b2.len() && (forall|i: int|
            pos <= i < spec_read_cstring(b, pos)->Ok_0.1 ==> b2[i] == b[i]) implies (
    #[trigger] spec_read_cstring(b2, pos)) == spec_read_cstring(b, pos) by {
        if pos > b.len() {
            assert(spec_find_nul(b, pos) == b.len());
        } else {
            lemma_find_nul(b, pos);
            let j: int = spec_find_nul(b, pos);
            lemma_find_nul_agree(b, b2, pos);
            assert(b2.subrange(pos, j) =~= b.subrange(pos, j));
        }
    }
    assert forall|b: Seq<u8>, pos: int, k: int|
        #![trigger spec_read_cstring(b.take(k), pos), spec_read_cstring(b, pos)]
        0 <= pos <= k <= b.len() && spec_read_cstring(b, pos) is Ok && k < spec_read_cstring(
            b,
            pos,
        )->Ok_0.1 implies spec_read_cstring(b.take(k), pos) == Err::<
        (Seq<char>, int),
        ParseError,
    >(ParseError::NotEnoughBytes) by {
        lemma_find_nul(b, pos);
        let j: int = spec_find_nul(b, pos);
        assert(forall|i: int| pos <= i < k ==> b.take(k)[i] != 0);
        lemma_find_nul_none(b.take(k), pos);
    }
}

/// Decoding a fixed number of elements with a secure element parser
/// moves forward and stays in bounds.
proof fn lemma_parse_n_forward<T>(
    b: Seq<u8>,
    pos: int,
    n: nat,
    f: spec_fn(Seq<u8>, int) -> Result<(T, int), ParseError>,
    acc: Seq<T>,
)
    requires
        parser_secure(f),
        0 <= pos <= b.len(),
        spec_parse_n_acc(b, pos, n, f, acc) is Ok,
    ensures
        pos <= spec_parse_n_acc(b, pos, n, f, acc)->Ok_0.1 <= b.len(),
    decreases n,
{
    reveal(parser_secure);
    if n > 0 {
        let p1: int = f(b, pos)->Ok_0.1;
        lemma_parse_n_forward(b, p1, (n - 1) as nat, f, acc.push(f(b, pos)->Ok_0.0));
    }
}

/// A fixed-count decode with a secure element parser depends only on
/// the bytes it consumes.
proof fn lemma_parse_n_local<T>(
    b: Seq<u8>,
    b2: Seq<u8>,
    pos: int,
    n: nat,
    f: spec_fn(Seq<u8>, int) -> Result<(T, int), ParseError>,
    acc: Seq<T>,
)
    requires
        parser_secure(f),
        0 <= pos <= b.len(),
        spec_parse_n_acc(b, pos, n, f, acc) is Ok,
        spec_parse_n_acc(b, pos, n, f, acc)->Ok_0.1 <= b2.len(),
        forall|i: int| pos <= i < spec_parse_n_acc(b, pos, n, f, acc)->Ok_0.1 ==> b2[i] == b[i],
    ensures
        spec_parse_n_acc(b2, pos, n, f, acc) == spec_parse_n_acc(b, pos, n, f, acc),
    decreases n,
{
    reveal(parser_secure);
    if n > 0 {
        let p1: int = f(b, pos)->Ok_0.1;
        lemma_parse_n_forward(b, p1, (n - 1) as nat, f, acc.push(f(b, pos)->Ok_0.0));
        assert(f(b2, pos) == f(b, pos));
        lemma_parse_n_local(b, b2, p1, (n - 1) as nat, f, acc.push(f(b, pos)->Ok_0.0));
    }
}

/// Cutting the buffer short of what a fixed-count decode consumed
/// turns it into `NotEnoughBytes`.
proof fn lemma_parse_n_trunc<T>(
    b: Seq<u8>,
    pos: int,
    k: int,
    n: nat,
    f: spec_fn(Seq<u8>, int) -> Result<(T, int), ParseError>,
    acc: Seq<T>,
)
    requires
        parser_secure(f),
        0 <= pos <= k <= b.len(),
        spec_parse_n_acc(b, pos, n, f, acc) is Ok,
        k < spec_parse_n_acc(b, pos, n, f, acc)->Ok_0.1,
    ensures
        spec_parse_n_acc(b.take(k), pos, n, f, acc) == Err::<(Seq<T>, int), ParseError>(
            ParseError::NotEnoughBytes,
        ),
    decreases n,
{
    reveal(parser_secure);
    let p1: int = f(b, pos)->Ok_0.1;
    lemma_parse_n_forward(b, p1, (n - 1) as nat, f, acc.push(f(b, pos)->Ok_0.0));
    if k < p1 {
        assert(f(b.take(k), pos) == Err::<(T, int), ParseError>(ParseError::NotEnoughBytes));
    } else {
        assert(f(b.take(k), pos) == f(b, pos));
        lemma_parse_n_trunc(b, p1, k, (n - 1) as nat, f, acc.push(f(b, pos)->Ok_0.0));
        assert(b.take(k).take(k) =~= b.take(k));
    }
}

/// The three facts of [`parser_secure`], for a count-prefixed
/// sequence with a secure element parser.
proof fn lemma_vec_of_forward<T>(
    b: Seq<u8>,
    pos: int,
    f: spec_fn(Seq<u8>, int) -> Result<(T, int), ParseError>,
)
    requires
        parser_secure(f),
        0 <= pos,
        spec_unpack_vec_of(b, pos, f) is Ok,
    ensures
        pos <= spec_unpack_vec_of(b, pos, f)->Ok_0.1 <= b.len(),
{
    let n: i32 = spec_read_i32(b, pos)->Ok_0.0;
    lemma_parse_n_forward(b, pos + 4, count_nat(n), f, Seq::empty());
}

proof fn lemma_vec_of_local<T>(
    b: Seq<u8>,
    b2: Seq<u8>,
    pos: int,
    f: spec_fn(Seq<u8>, int) -> Result<(T, int), ParseError>,
)
    requires
        parser_secure(f),
        0 <= pos,
        spec_unpack_vec_of(b, pos, f) is Ok,
        spec_unpack_vec_of(b, pos, f)->Ok_0.1 <= b2.len(),
        forall|i: int| pos <= i < spec_unpack_vec_of(b, pos, f)->Ok_0.1 ==> b2[i] == b[i],
    ensures
        spec_unpack_vec_of(b2, pos, f) == spec_unpack_vec_of(b, pos, f),
{
    let n: i32 = spec_read_i32(b, pos)->Ok_0.0;
    lemma_parse_n_forward(b, pos + 4, count_nat(n), f, Seq::empty());
    assert(spec_read_i32(b2, pos) == spec_read_i32(b, pos));
    lemma_parse_n_local(b, b2, pos + 4, count_nat(n), f, Seq::empty());
}

proof fn lemma_vec_of_trunc<T>(
    b: Seq<u8>,
    pos: int,
    k: int,
    f: spec_fn(Seq<u8>, int) -> Result<(T, int), ParseError>,
)
    requires
        parser_secure(f),
        0 <= pos <= k <= b.len(),
        spec_unpack_vec_of(b, pos, f) is Ok,
        k < spec_unpack_vec_of(b, pos, f)->Ok_0.1,
    ensures
        spec_unpack_vec_of(b.take(k), pos, f) == Err::<(Seq<T>, int), ParseError>(
            ParseError::NotEnoughBytes,
        ),
{
    let n: i32 = spec_read_i32(b, pos)->Ok_0.0;
    lemma_parse_n_forward(b, pos + 4, count_nat(n), f, Seq::empty());
    if k < pos + 4 {
    } else {
        assert(spec_read_i32(b.take(k), pos) == spec_read_i32(b, pos));
        lemma_parse_n_trunc(b, pos + 4, k, count_nat(n), f, Seq::empty());
        assert(b.take(k).take(k) =~= b.take(k));
    }
}

/// Each primitive element parser is secure.
proof fn lemma_u32_secure(ver: ProtocolVersion)
    ensures
        parser_secure(parser_of::<u32>(ver)),
{
    reveal(parser_secure);
    assert(parser_secure(parser_of::<u32>(ver)));
}

proof fn lemma_i32_secure(ver: ProtocolVersion)
    ensures
        parser_secure(parser_of::<i32>(ver)),
{
    reveal(parser_secure);
    assert(parser_secure(parser_of::<i32>(ver)));
}

proof fn lemma_string_secure(ver: ProtocolVersion)
    ensures
        parser_secure(parser_of::<String>(ver)),
{
    reveal(parser_secure);
    lemma_cstring_secure();
    let f = parser_of::<String>(ver);
    assert forall|b: Seq<u8>, pos: int| 0 <= pos && (#[trigger] f(b, pos)) is Ok implies pos <= f(
        b,
        pos,
    )->Ok_0.1 <= b.len() by {
        assert(f(b, pos) == spec_read_cstring(b, pos));
    }
    assert forall|b: Seq<u8>, b2: Seq<u8>, pos: int|
        #![trigger f(b, pos), f(b2, pos)]
        0 <= pos && f(b, pos) is Ok && f(b, pos)->Ok_0.1 <= b2.len() && (forall|i: int|
            pos <= i < f(b, pos)->Ok_0.1 ==> b2[i] == b[i]) implies f(b2, pos) == f(b, pos) by {
        assert(f(b, pos) == spec_read_cstring(b, pos));
        assert(f(b2, pos) == spec_read_cstring(b2, pos));
    }
    assert forall|b: Seq<u8>, pos: int, k: int|
        #![trigger f(b.take(k), pos), f(b, pos)]
        0 <= pos <= k <= b.len() && f(b, pos) is Ok && k < f(b, pos)->Ok_0.1 implies f(
        b.take(k),
        pos,
    ) == Err::<(Seq<char>, int), ParseError>(ParseError::NotEnoughBytes) by {
        assert(f(b, pos) == spec_read_cstring(b, pos));
        assert(f(b.take(k), pos) == spec_read_cstring(b.take(k), pos));
    }
}

proof fn lemma_marker_secure(ver: ProtocolVersion)
    ensures
        parser_secure(parser_of::<Marker>(ver)),
{
    reveal(parser_secure);
    assert(parser_secure(parser_of::<Marker>(ver)));
}

proof fn lemma_quaternion_secure(ver: ProtocolVersion)
    ensures
        parser_secure(parser_of::<Quaternion>(ver)),
{
    reveal(parser_secure);
    assert(parser_secure(parser_of::<Quaternion>(ver)));
}

proof fn lemma_labeled_marker_secure(ver: ProtocolVersion)
    ensures
        parser_secure(parser_of::<LabeledMarker>(ver)),
{
    reveal(parser_secure);
    lemma_marker_secure(ver);
    let f = parser_of::<LabeledMarker>(ver);
    let fm = parser_of::<Marker>(ver);
    assert forall|b: Seq<u8>, pos: int| 0 <= pos && (#[trigger] f(b, pos)) is Ok implies pos <= f(
        b,
        pos,
    )->Ok_0.1 <= b.len() by {
        assert(fm(b, pos + 4) == Marker::spec_unpack(b, pos + 4, ver));
    }
    assert forall|b: Seq<u8>, b2: Seq<u8>, pos: int|
        #![trigger f(b, pos), f(b2, pos)]
        0 <= pos && f(b, pos) is Ok && f(b, pos)->Ok_0.1 <= b2.len() && (forall|i: int|
            pos <= i < f(b, pos)->Ok_0.1 ==> b2[i] == b[i]) implies f(b2, pos) == f(b, pos) by {
        assert(fm(b, pos + 4) == Marker::spec_unpack(b, pos + 4, ver));
        assert(fm(b2, pos + 4) == Marker::spec_unpack(b2, pos + 4, ver));
    }
    assert forall|b: Seq<u8>, pos: int, k: int|
        #![trigger f(b.take(k), pos), f(b, pos)]
        0 <= pos <= k <= b.len() && f(b, pos) is Ok && k < f(b, pos)->Ok_0.1 implies f(
        b.take(k),
        pos,
    ) == Err::<(LabeledMarker, int), ParseError>(ParseError::NotEnoughBytes) by {
        assert(fm(b, pos + 4) == Marker::spec_unpack(b, pos + 4, ver));
        assert(fm(b.take(k), pos + 4) == Marker::spec_unpack(b.take(k), pos + 4, ver));
    }
}

/// One force-plate channel is a count-prefixed sequence of samples.
proof fn lemma_channel_secure(ver: ProtocolVersion)
    ensures
        parser_secure(parser_of::<Vec<u32>>(ver)),
{
    reveal(parser_secure);
    lemma_u32_secure(ver);
    let f = parser_of::<Vec<u32>>(ver);
    let fe = parser_of::<u32>(ver);
    assert forall|b: Seq<u8>, pos: int| 0 <= pos && (#[trigger] f(b, pos)) is Ok implies pos <= f(
        b,
        pos,
    )->Ok_0.1 <= b.len() by {
        lemma_vec_of_forward(b, pos, fe);
    }
    assert forall|b: Seq<u8>, b2: Seq<u8>, pos: int|
        #![trigger f(b, pos), f(b2, pos)]
        0 <= pos && f(b, pos) is Ok && f(b, pos)->Ok_0.1 <= b2.len() && (forall|i: int|
            pos <= i < f(b, pos)->Ok_0.1 ==> b2[i] == b[i]) implies f(b2, pos) == f(b, pos) by {
        lemma_vec_of_local(b, b2, pos, fe);
    }
    assert forall|b: Seq<u8>, pos: int, k: int|
        #![trigger f(b.take(k), pos), f(b, pos)]
        0 <= pos <= k <= b.len() && f(b, pos) is Ok && k < f(b, pos)->Ok_0.1 implies f(
        b.take(k),
        pos,
    ) == Err::<(Seq<u32>, int), ParseError>(ParseError::NotEnoughBytes) by {
        lemma_vec_of_trunc(b, pos, k, fe);
    }
}


proof fn lemma_rigid_body_forward_one(b: Seq<u8>, pos: int, ver: ProtocolVersion)
    requires
        0 <= pos,
        RigidBody::spec_unpack(b, pos, ver) is Ok,
    ensures
        pos <= RigidBody::spec_unpack(b, pos, ver)->Ok_0.1 <= b.len(),
{
    lemma_marker_secure(ver);
    lemma_quaternion_secure(ver);
    lemma_i32_secure(ver);
    lemma_u32_secure(ver);
    reveal(parser_secure);
    let fm = parser_of::<Marker>(ver);
    let fq = parser_of::<Quaternion>(ver);
    let fi = parser_of::<i32>(ver);
    let fu = parser_of::<u32>(ver);
    let p1: int = pos + 4;
    assert(fm(b, p1) == Marker::spec_unpack(b, p1, ver));
    let p2: int = fm(b, p1)->Ok_0.1;
    assert(fq(b, p2) == Quaternion::spec_unpack(b, p2, ver));
    let p3: int = fq(b, p2)->Ok_0.1;
    let n: i32 = spec_read_i32(b, p3)->Ok_0.0;
    let p4: int = p3 + 4;
    lemma_parse_n_forward(b, p4, count_nat(n), fm, Seq::empty());
    let p5: int = spec_parse_n_acc(b, p4, count_nat(n), fm, Seq::empty())->Ok_0.1;
    lemma_parse_n_forward(b, p5, count_nat(n), fi, Seq::empty());
    let p6: int = spec_parse_n_acc(b, p5, count_nat(n), fi, Seq::empty())->Ok_0.1;
    lemma_parse_n_forward(b, p6, count_nat(n), fu, Seq::empty());
}

proof fn lemma_rigid_body_local_one(b: Seq<u8>, b2: Seq<u8>, pos: int, ver: ProtocolVersion)
    requires
        0 <= pos,
        RigidBody::spec_unpack(b, pos, ver) is Ok,
        RigidBody::spec_unpack(b, pos, ver)->Ok_0.1 <= b2.len(),
        forall|i: int| pos <= i < RigidBody::spec_unpack(b, pos, ver)->Ok_0.1 ==> b2[i] == b[i],
    ensures
        RigidBody::spec_unpack(b2, pos, ver) == RigidBody::spec_unpack(b, pos, ver),
{
    lemma_marker_secure(ver);
    lemma_quaternion_secure(ver);
    lemma_i32_secure(ver);
    lemma_u32_secure(ver);
    reveal(parser_secure);
    let fm = parser_of::<Marker>(ver);
    let fq = parser_of::<Quaternion>(ver);
    let fi = parser_of::<i32>(ver);
    let fu = parser_of::<u32>(ver);
    let p1: int = pos + 4;
    assert(fm(b, p1) == Marker::spec_unpack(b, p1, ver));
    assert(fm(b2, p1) == Marker::spec_unpack(b2, p1, ver));
    let p2: int = fm(b, p1)->Ok_0.1;
    assert(fq(b, p2) == Quaternion::spec_unpack(b, p2, ver));
    assert(fq(b2, p2) == Quaternion::spec_unpack(b2, p2, ver));
    let p3: int = fq(b, p2)->Ok_0.1;
    let n: i32 = spec_read_i32(b, p3)->Ok_0.0;
    let p4: int = p3 + 4;
    lemma_parse_n_forward(b, p4, count_nat(n), fm, Seq::empty());
    let p5: int = spec_parse_n_acc(b, p4, count_nat(n), fm, Seq::empty())->Ok_0.1;
    lemma_parse_n_forward(b, p5, count_nat(n), fi, Seq::empty());
    let p6: int = spec_parse_n_acc(b, p5, count_nat(n), fi, Seq::empty())->Ok_0.1;
    lemma_parse_n_forward(b, p6, count_nat(n), fu, Seq::empty());
    let p7: int = spec_parse_n_acc(b, p6, count_nat(n), fu, Seq::empty())->Ok_0.1;
    lemma_parse_n_local(b, b2, p4, count_nat(n), fm, Seq::empty());
    lemma_parse_n_local(b, b2, p5, count_nat(n), fi, Seq::empty());
    lemma_parse_n_local(b, b2, p6, count_nat(n), fu, Seq::empty());
}

proof fn lemma_rigid_body_trunc_one(b: Seq<u8>, pos: int, k: int, ver: ProtocolVersion)
    requires
        0 <= pos <= k <= b.len(),
        RigidBody::spec_unpack(b, pos, ver) is Ok,
        k < RigidBody::spec_unpack(b, pos, ver)->Ok_0.1,
    ensures
        RigidBody::spec_unpack(b.take(k), pos, ver) == Err::<
            (crate::rigid_body::RigidBodyV, int),
            ParseError,
        >(ParseError::NotEnoughBytes),
{
    lemma_marker_secure(ver);
    lemma_quaternion_secure(ver);
    lemma_i32_secure(ver);
    lemma_u32_secure(ver);
    reveal(parser_secure);
    let fm = parser_of::<Marker>(ver);
    let fq = parser_of::<Quaternion>(ver);
    let fi = parser_of::<i32>(ver);
    let fu = parser_of::<u32>(ver);
    let bk = b.take(k);
    let p1: int = pos + 4;
    assert(fm(b, p1) == Marker::spec_unpack(b, p1, ver));
    let p2: int = fm(b, p1)->Ok_0.1;
    assert(fq(b, p2) == Quaternion::spec_unpack(b, p2, ver));
    let p3: int = fq(b, p2)->Ok_0.1;
    let n: i32 = spec_read_i32(b, p3)->Ok_0.0;
    let p4: int = p3 + 4;
    lemma_parse_n_forward(b, p4, count_nat(n), fm, Seq::empty());
    let p5: int = spec_parse_n_acc(b, p4, count_nat(n), fm, Seq::empty())->Ok_0.1;
    lemma_parse_n_forward(b, p5, count_nat(n), fi, Seq::empty());
    let p6: int = spec_parse_n_acc(b, p5, count_nat(n), fi, Seq::empty())->Ok_0.1;
    lemma_parse_n_forward(b, p6, count_nat(n), fu, Seq::empty());
    let p7: int = spec_parse_n_acc(b, p6, count_nat(n), fu, Seq::empty())->Ok_0.1;
    assert(bk.take(k) =~= bk);
    if k < p1 {
    } else {
        assert(fm(bk, p1) == Marker::spec_unpack(bk, p1, ver));
        if k < p2 {
        } else {
            assert(fm(bk, p1) == fm(b, p1));
            assert(fq(bk, p2) == Quaternion::spec_unpack(bk, p2, ver));
            if k < p3 {
            } else {
                assert(fq(bk, p2) == fq(b, p2));
                if k < p4 {
                } else {
                    assert(spec_read_i32(bk, p3) == spec_read_i32(b, p3));
                    if k < p5 {
                        lemma_parse_n_trunc(b, p4, k, count_nat(n), fm, Seq::empty());
                    } else {
                        lemma_parse_n_local(b, bk, p4, count_nat(n), fm, Seq::empty());
                        if k < p6 {
                            lemma_parse_n_trunc(b, p5, k, count_nat(n), fi, Seq::empty());
                        } else {
                            lemma_parse_n_local(b, bk, p5, count_nat(n), fi, Seq::empty());
                            if k < p7 {
                                lemma_parse_n_trunc(b, p6, k, count_nat(n), fu, Seq::empty());
                            } else {
                                lemma_parse_n_local(b, bk, p6, count_nat(n), fu, Seq::empty());
                            }
                        }
                    }
                }
            }
        }
    }
}

proof fn lemma_rigid_body_secure(ver: ProtocolVersion)
    ensures
        parser_secure(parser_of::<RigidBody>(ver)),
{
    reveal(parser_secure);
    let f = parser_of::<RigidBody>(ver);
    assert forall|b: Seq<u8>, pos: int| 0 <= pos && (#[trigger] f(b, pos)) is Ok implies pos <= f(
        b,
        pos,
    )->Ok_0.1 <= b.len() by {
        lemma_rigid_body_forward_one(b, pos, ver);
    }
    assert forall|b: Seq<u8>, b2: Seq<u8>, pos: int|
        #![trigger f(b, pos), f(b2, pos)]
        0 <= pos && f(b, pos) is Ok && f(b, pos)->Ok_0.1 <= b2.len() && (forall|i: int|
            pos <= i < f(b, pos)->Ok_0.1 ==> b2[i] == b[i]) implies f(b2, pos) == f(b, pos) by {
        lemma_rigid_body_local_one(b, b2, pos, ver);
    }
    assert forall|b: Seq<u8>, pos: int, k: int|
        #![trigger f(b.take(k), pos), f(b, pos)]
        0 <= pos <= k <= b.len() && f(b, pos) is Ok && k < f(b, pos)->Ok_0.1 implies f(
        b.take(k),
        pos,
    ) == Err::<(crate::rigid_body::RigidBodyV, int), ParseError>(ParseError::NotEnoughBytes) by {
        lemma_rigid_body_trunc_one(b, pos, k, ver);
    }
}

proof fn lemma_skeleton_secure(ver: ProtocolVersion)
    ensures
        parser_secure(parser_of::<Skeleton>(ver)),
{
    reveal(parser_secure);
    lemma_rigid_body_secure(ver);
    let f = parser_of::<Skeleton>(ver);
    let fr = parser_of::<RigidBody>(ver);
    assert forall|b: Seq<u8>, pos: int| 0 <= pos && (#[trigger] f(b, pos)) is Ok implies pos <= f(
        b,
        pos,
    )->Ok_0.1 <= b.len() by {
        lemma_vec_of_forward(b, pos + 4, fr);
    }
    assert forall|b: Seq<u8>, b2: Seq<u8>, pos: int|
        #![trigger f(b, pos), f(b2, pos)]
        0 <= pos && f(b, pos) is Ok && f(b, pos)->Ok_0.1 <= b2.len() && (forall|i: int|
            pos <= i < f(b, pos)->Ok_0.1 ==> b2[i] == b[i]) implies f(b2, pos) == f(b, pos) by {
        lemma_vec_of_forward(b, pos + 4, fr);
        lemma_vec_of_local(b, b2, pos + 4, fr);
    }
    assert forall|b: Seq<u8>, pos: int, k: int|
        #![trigger f(b.take(k), pos), f(b, pos)]
        0 <= pos <= k <= b.len() && f(b, pos) is Ok && k < f(b, pos)->Ok_0.1 implies f(
        b.take(k),
        pos,
    ) == Err::<(crate::skeleton::SkeletonV, int), ParseError>(ParseError::NotEnoughBytes) by {
        lemma_vec_of_forward(b, pos + 4, fr);
        if k < pos + 4 {
        } else {
            lemma_vec_of_trunc(b, pos + 4, k, fr);
        }
    }
}

proof fn lemma_force_plate_secure(ver: ProtocolVersion)
    ensures
        parser_secure(parser_of::<ForcePlate>(ver)),
{
    reveal(parser_secure);
    lemma_channel_secure(ver);
    let f = parser_of::<ForcePlate>(ver);
    let fc = parser_of::<Vec<u32>>(ver);
    assert forall|b: Seq<u8>, pos: int| 0 <= pos && (#[trigger] f(b, pos)) is Ok implies pos <= f(
        b,
        pos,
    )->Ok_0.1 <= b.len() by {
        lemma_vec_of_forward(b, pos + 4, fc);
    }
    assert forall|b: Seq<u8>, b2: Seq<u8>, pos: int|
        #![trigger f(b, pos), f(b2, pos)]
        0 <= pos && f(b, pos) is Ok && f(b, pos)->Ok_0.1 <= b2.len() && (forall|i: int|
            pos <= i < f(b, pos)->Ok_0.1 ==> b2[i] == b[i]) implies f(b2, pos) == f(b, pos) by {
        lemma_vec_of_forward(b, pos + 4, fc);
        lemma_vec_of_local(b, b2, pos + 4, fc);
    }
    assert forall|b: Seq<u8>, pos: int, k: int|
        #![trigger f(b.take(k), pos), f(b, pos)]
        0 <= pos <= k <= b.len() && f(b, pos) is Ok && k < f(b, pos)->Ok_0.1 implies f(
        b.take(k),
        pos,
    ) == Err::<(crate::force_plate::ForcePlateV, int), ParseError>(ParseError::NotEnoughBytes) by {
        lemma_vec_of_forward(b, pos + 4, fc);
        if k < pos + 4 {
        } else {
            lemma_vec_of_trunc(b, pos + 4, k, fc);
        }
    }
}


proof fn lemma_marker_set_desc_secure(ver: ProtocolVersion)
    ensures
        parser_secure(parser_of::<MarkerSet>(ver)),
{
    reveal(parser_secure);
    lemma_cstring_secure();
    lemma_string_secure(ver);
    let f = parser_of::<MarkerSet>(ver);
    let fs = parser_of::<String>(ver);
    assert forall|b: Seq<u8>, pos: int| 0 <= pos && (#[trigger] f(b, pos)) is Ok implies pos <= f(
        b,
        pos,
    )->Ok_0.1 <= b.len() by {
        let p1: int = spec_read_cstring(b, pos)->Ok_0.1;
        lemma_vec_of_forward(b, p1, fs);
    }
    assert forall|b: Seq<u8>, b2: Seq<u8>, pos: int|
        #![trigger f(b, pos), f(b2, pos)]
        0 <= pos && f(b, pos) is Ok && f(b, pos)->Ok_0.1 <= b2.len() && (forall|i: int|
            pos <= i < f(b, pos)->Ok_0.1 ==> b2[i] == b[i]) implies f(b2, pos) == f(b, pos) by {
        let p1: int = spec_read_cstring(b, pos)->Ok_0.1;
        lemma_vec_of_forward(b, p1, fs);
        assert(spec_read_cstring(b2, pos) == spec_read_cstring(b, pos));
        lemma_vec_of_local(b, b2, p1, fs);
    }
    assert forall|b: Seq<u8>, pos: int, k: int|
        #![trigger f(b.take(k), pos), f(b, pos)]
        0 <= pos <= k <= b.len() && f(b, pos) is Ok && k < f(b, pos)->Ok_0.1 implies f(
        b.take(k),
        pos,
    ) == Err::<(crate::model::MarkerSetV, int), ParseError>(ParseError::NotEnoughBytes) by {
        let bk = b.take(k);
        let p1: int = spec_read_cstring(b, pos)->Ok_0.1;
        lemma_vec_of_forward(b, p1, fs);
        assert(bk.take(k) =~= bk);
        if k < p1 {
            assert(spec_read_cstring(bk, pos) == Err::<(Seq<char>, int), ParseError>(
                ParseError::NotEnoughBytes,
            ));
        } else {
            assert(spec_read_cstring(bk, pos) == spec_read_cstring(b, pos));
            lemma_vec_of_trunc(b, p1, k, fs);
        }
    }
}

proof fn lemma_rigid_body_desc_secure(ver: ProtocolVersion)
    ensures
        parser_secure(parser_of::<RigidBodyDesc>(ver)),
{
    reveal(parser_secure);
    lemma_cstring_secure();
    let f = parser_of::<RigidBodyDesc>(ver);
    assert forall|b: Seq<u8>, pos: int| 0 <= pos && (#[trigger] f(b, pos)) is Ok implies pos <= f(
        b,
        pos,
    )->Ok_0.1 <= b.len() by {
        let p1: int = spec_read_cstring(b, pos)->Ok_0.1;
    }
    assert forall|b: Seq<u8>, b2: Seq<u8>, pos: int|
        #![trigger f(b, pos), f(b2, pos)]
        0 <= pos && f(b, pos) is Ok && f(b, pos)->Ok_0.1 <= b2.len() && (forall|i: int|
            pos <= i < f(b, pos)->Ok_0.1 ==> b2[i] == b[i]) implies f(b2, pos) == f(b, pos) by {
        let p1: int = spec_read_cstring(b, pos)->Ok_0.1;
        assert(spec_read_cstring(b2, pos) == spec_read_cstring(b, pos));
    }
    assert forall|b: Seq<u8>, pos: int, k: int|
        #![trigger f(b.take(k), pos), f(b, pos)]
        0 <= pos <= k <= b.len() && f(b, pos) is Ok && k < f(b, pos)->Ok_0.1 implies f(
        b.take(k),
        pos,
    ) == Err::<(crate::model::RigidBodyV, int), ParseError>(ParseError::NotEnoughBytes) by {
        let bk = b.take(k);
        let p1: int = spec_read_cstring(b, pos)->Ok_0.1;
        if k < p1 {
            assert(spec_read_cstring(bk, pos) == Err::<(Seq<char>, int), ParseError>(
                ParseError::NotEnoughBytes,
            ));
        } else {
            assert(spec_read_cstring(bk, pos) == spec_read_cstring(b, pos));
        }
    }
}

proof fn lemma_skeleton_desc_secure(ver: ProtocolVersion)
    ensures
        parser_secure(parser_of::<SkeletonDesc>(ver)),
{
    reveal(parser_secure);
    lemma_cstring_secure();
    lemma_rigid_body_desc_secure(ver);
    let f = parser_of::<SkeletonDesc>(ver);
    let fr = parser_of::<RigidBodyDesc>(ver);
    assert forall|b: Seq<u8>, pos: int| 0 <= pos && (#[trigger] f(b, pos)) is Ok implies pos <= f(
        b,
        pos,
    )->Ok_0.1 <= b.len() by {
        let p1: int = spec_read_cstring(b, pos)->Ok_0.1;
        lemma_vec_of_forward(b, p1 + 4, fr);
    }
    assert forall|b: Seq<u8>, b2: Seq<u8>, pos: int|
        #![trigger f(b, pos), f(b2, pos)]
        0 <= pos && f(b, pos) is Ok && f(b, pos)->Ok_0.1 <= b2.len() && (forall|i: int|
            pos <= i < f(b, pos)->Ok_0.1 ==> b2[i] == b[i]) implies f(b2, pos) == f(b, pos) by {
        let p1: int = spec_read_cstring(b, pos)->Ok_0.1;
        lemma_vec_of_forward(b, p1 + 4, fr);
        assert(spec_read_cstring(b2, pos) == spec_read_cstring(b, pos));
        lemma_vec_of_local(b, b2, p1 + 4, fr);
    }
    assert forall|b: Seq<u8>, pos: int, k: int|
        #![trigger f(b.take(k), pos), f(b, pos)]
        0 <= pos <= k <= b.len() && f(b, pos) is Ok && k < f(b, pos)->Ok_0.1 implies f(
        b.take(k),
        pos,
    ) == Err::<(crate::model::SkeletonV, int), ParseError>(ParseError::NotEnoughBytes) by {
        let bk = b.take(k);
        let p1: int = spec_read_cstring(b, pos)->Ok_0.1;
        lemma_vec_of_forward(b, p1 + 4, fr);
        assert(bk.take(k) =~= bk);
        if k < p1 {
            assert(spec_read_cstring(bk, pos) == Err::<(Seq<char>, int), ParseError>(
                ParseError::NotEnoughBytes,
            ));
        } else {
            assert(spec_read_cstring(bk, pos) == spec_read_cstring(b, pos));
            if k < p1 + 4 {
            } else {
                lemma_vec_of_trunc(b, p1 + 4, k, fr);
            }
        }
    }
}

proof fn lemma_data_set_secure(ver: ProtocolVersion)
    ensures
        parser_secure(parser_of::<DataSet>(ver)),
{
    reveal(parser_secure);
    lemma_marker_set_desc_secure(ver);
    lemma_rigid_body_desc_secure(ver);
    lemma_skeleton_desc_secure(ver);
    let f = parser_of::<DataSet>(ver);
    let fm = parser_of::<MarkerSet>(ver);
    let fr = parser_of::<RigidBodyDesc>(ver);
    let fs = parser_of::<SkeletonDesc>(ver);
    assert forall|b: Seq<u8>, pos: int| 0 <= pos && (#[trigger] f(b, pos)) is Ok implies pos <= f(
        b,
        pos,
    )->Ok_0.1 <= b.len() by {
        let p1: int = pos + 4;
        assert(fm(b, p1) == MarkerSet::spec_unpack(b, p1, ver));
        assert(fr(b, p1) == RigidBodyDesc::spec_unpack(b, p1, ver));
        assert(fs(b, p1) == SkeletonDesc::spec_unpack(b, p1, ver));
    }
    assert forall|b: Seq<u8>, b2: Seq<u8>, pos: int|
        #![trigger f(b, pos), f(b2, pos)]
        0 <= pos && f(b, pos) is Ok && f(b, pos)->Ok_0.1 <= b2.len() && (forall|i: int|
            pos <= i < f(b, pos)->Ok_0.1 ==> b2[i] == b[i]) implies f(b2, pos) == f(b, pos) by {
        let p1: int = pos + 4;
        assert(fm(b, p1) == MarkerSet::spec_unpack(b, p1, ver));
        assert(fr(b, p1) == RigidBodyDesc::spec_unpack(b, p1, ver));
        assert(fs(b, p1) == SkeletonDesc::spec_unpack(b, p1, ver));
        assert(fm(b2, p1) == MarkerSet::spec_unpack(b2, p1, ver));
        assert(fr(b2, p1) == RigidBodyDesc::spec_unpack(b2, p1, ver));
        assert(fs(b2, p1) == SkeletonDesc::spec_unpack(b2, p1, ver));
    }
    assert forall|b: Seq<u8>, pos: int, k: int|
        #![trigger f(b.take(k), pos), f(b, pos)]
        0 <= pos <= k <= b.len() && f(b, pos) is Ok && k < f(b, pos)->Ok_0.1 implies f(
        b.take(k),
        pos,
    ) == Err::<(crate::model::DataSetV, int), ParseError>(ParseError::NotEnoughBytes) by {
        let bk = b.take(k);
        let p1: int = pos + 4;
        assert(fm(b, p1) == MarkerSet::spec_unpack(b, p1, ver));
        assert(fr(b, p1) == RigidBodyDesc::spec_unpack(b, p1, ver));
        assert(fs(b, p1) == SkeletonDesc::spec_unpack(b, p1, ver));
        if k >= p1 {
            assert(fm(bk, p1) == MarkerSet::spec_unpack(bk, p1, ver));
            assert(fr(bk, p1) == RigidBodyDesc::spec_unpack(bk, p1, ver));
            assert(fs(bk, p1) == SkeletonDesc::spec_unpack(bk, p1, ver));
        }
    }
}

/// The sender descriptor parser is secure: three facts in the sense
/// of [`parser_secure`], stated directly.
proof fn lemma_sender_secure()
    ensures
        forall|b: Seq<u8>, pos: int|
            0 <= pos && (#[trigger] spec_unpack_sender(b, pos)) is Ok ==> pos < spec_unpack_sender(
                b,
                pos,
            )->Ok_0.1 <= b.len(),
        forall|b: Seq<u8>, b2: Seq<u8>, pos: int|
            #![trigger spec_unpack_sender(b, pos), spec_unpack_sender(b2, pos)]
            0 <= pos && spec_unpack_sender(b, pos) is Ok && spec_unpack_sender(b, pos)->Ok_0.1
                <= b2.len() && (forall|i: int|
                pos <= i < spec_unpack_sender(b, pos)->Ok_0.1 ==> b2[i] == b[i])
                ==> spec_unpack_sender(b2, pos) == spec_unpack_sender(b, pos),
        forall|b: Seq<u8>, pos: int, k: int|
            #![trigger spec_unpack_sender(b.take(k), pos), spec_unpack_sender(b, pos)]
            0 <= pos <= k <= b.len() && spec_unpack_sender(b, pos) is Ok && k < spec_unpack_sender(
                b,
                pos,
            )->Ok_0.1 ==> spec_unpack_sender(b.take(k), pos) == Err::<
                (crate::sender::SenderV, int),
                ParseError,
            >(ParseError::NotEnoughBytes),
{
    lemma_cstring_secure();
    assert forall|b: Seq<u8>, pos: int|
        0 <= pos && (#[trigger] spec_unpack_sender(b, pos)) is Ok implies pos < spec_unpack_sender(
        b,
        pos,
    )->Ok_0.1 <= b.len() by {
        let p1: int = spec_read_cstring(b, pos)->Ok_0.1;
    }
    assert forall|b: Seq<u8>, b2: Seq<u8>, pos: int|
        #![trigger spec_unpack_sender(b, pos), spec_unpack_sender(b2, pos)]
        0 <= pos && spec_unpack_sender(b, pos) is Ok && spec_unpack_sender(b, pos)->Ok_0.1
            <= b2.len() && (forall|i: int|
            pos <= i < spec_unpack_sender(b, pos)->Ok_0.1 ==> b2[i] == b[i])
        implies spec_unpack_sender(b2, pos) == spec_unpack_sender(b, pos) by {
        let p1: int = spec_read_cstring(b, pos)->Ok_0.1;
        assert(spec_read_cstring(b2, pos) == spec_read_cstring(b, pos));
    }
    assert forall|b: Seq<u8>, pos: int, k: int|
        #![trigger spec_unpack_sender(b.take(k), pos), spec_unpack_sender(b, pos)]
        0 <= pos <= k <= b.len() && spec_unpack_sender(b, pos) is Ok && k < spec_unpack_sender(
            b,
            pos,
        )->Ok_0.1 implies spec_unpack_sender(b.take(k), pos) == Err::<
        (crate::sender::SenderV, int),
        ParseError,
    >(ParseError::NotEnoughBytes) by {
        let bk = b.take(k);
        let p1: int = spec_read_cstring(b, pos)->Ok_0.1;
        if k < p1 {
            assert(spec_read_cstring(bk, pos) == Err::<(Seq<char>, int), ParseError>(
                ParseError::NotEnoughBytes,
            ));
        } else {
            assert(spec_read_cstring(bk, pos) == spec_read_cstring(b, pos));
        }
    }
}

/// The marker-set fold of a frame moves forward and stays in bounds.
proof fn lemma_marker_sets_forward(
    b: Seq<u8>,
    pos: int,
    n: nat,
    ver: ProtocolVersion,
    acc: Seq<MarkerSetEntryV>,
)
    requires
        0 <= pos <= b.len(),
        spec_parse_marker_sets(b, pos, n, ver, acc) is Ok,
    ensures
        pos <= spec_parse_marker_sets(b, pos, n, ver, acc)->Ok_0.1 <= b.len(),
    decreases n,
{
    lemma_cstring_secure();
    lemma_marker_secure(ver);
    if n > 0 {
        let p1: int = spec_read_cstring(b, pos)->Ok_0.1;
        lemma_vec_of_forward(b, p1, parser_of::<Marker>(ver));
        let p2: int = spec_unpack_vec_of(b, p1, parser_of::<Marker>(ver))->Ok_0.1;
        let name = spec_read_cstring(b, pos)->Ok_0.0;
        let ms = spec_unpack_vec_of(b, p1, parser_of::<Marker>(ver))->Ok_0.0;
        lemma_marker_sets_forward(b, p2, (n - 1) as nat, ver, entries_insert(acc, name, ms));
    }
}

/// The marker-set fold depends only on the bytes it consumes.
proof fn lemma_marker_sets_local(
    b: Seq<u8>,
    b2: Seq<u8>,
    pos: int,
    n: nat,
    ver: ProtocolVersion,
    acc: Seq<MarkerSetEntryV>,
)
    requires
        0 <= pos <= b.len(),
        spec_parse_marker_sets(b, pos, n, ver, acc) is Ok,
        spec_parse_marker_sets(b, pos, n, ver, acc)->Ok_0.1 <= b2.len(),
        forall|i: int|
            pos <= i < spec_parse_marker_sets(b, pos, n, ver, acc)->Ok_0.1 ==> b2[i] == b[i],
    ensures
        spec_parse_marker_sets(b2, pos, n, ver, acc) == spec_parse_marker_sets(b, pos, n, ver, acc),
    decreases n,
{
    lemma_cstring_secure();
    lemma_marker_secure(ver);
    if n > 0 {
        let p1: int = spec_read_cstring(b, pos)->Ok_0.1;
        lemma_vec_of_forward(b, p1, parser_of::<Marker>(ver));
        let p2: int = spec_unpack_vec_of(b, p1, parser_of::<Marker>(ver))->Ok_0.1;
        let name = spec_read_cstring(b, pos)->Ok_0.0;
        let ms = spec_unpack_vec_of(b, p1, parser_of::<Marker>(ver))->Ok_0.0;
        lemma_marker_sets_forward(b, p2, (n - 1) as nat, ver, entries_insert(acc, name, ms));
        assert(spec_read_cstring(b2, pos) == spec_read_cstring(b, pos));
        lemma_vec_of_local(b, b2, p1, parser_of::<Marker>(ver));
        lemma_marker_sets_local(b, b2, p2, (n - 1) as nat, ver, entries_insert(acc, name, ms));
    }
}

/// Cutting the buffer short of what the marker-set fold consumed
/// turns it into `NotEnoughBytes`.
proof fn lemma_marker_sets_trunc(
    b: Seq<u8>,
    pos: int,
    k: int,
    n: nat,
    ver: ProtocolVersion,
    acc: Seq<MarkerSetEntryV>,
)
    requires
        0 <= pos <= k <= b.len(),
        spec_parse_marker_sets(b, pos, n, ver, acc) is Ok,
        k < spec_parse_marker_sets(b, pos, n, ver, acc)->Ok_0.1,
    ensures
        spec_parse_marker_sets(b.take(k), pos, n, ver, acc) == Err::<
            (Seq<MarkerSetEntryV>, int),
            ParseError,
        >(ParseError::NotEnoughBytes),
    decreases n,
{
    lemma_cstring_secure();
    lemma_marker_secure(ver);
    let bk = b.take(k);
    let p1: int = spec_read_cstring(b, pos)->Ok_0.1;
    lemma_vec_of_forward(b, p1, parser_of::<Marker>(ver));
    let p2: int = spec_unpack_vec_of(b, p1, parser_of::<Marker>(ver))->Ok_0.1;
    let name = spec_read_cstring(b, pos)->Ok_0.0;
    let ms = spec_unpack_vec_of(b, p1, parser_of::<Marker>(ver))->Ok_0.0;
    lemma_marker_sets_forward(b, p2, (n - 1) as nat, ver, entries_insert(acc, name, ms));
    assert(bk.take(k) =~= bk);
    if k < p1 {
        assert(spec_read_cstring(bk, pos) == Err::<(Seq<char>, int), ParseError>(
            ParseError::NotEnoughBytes,
        ));
    } else {
        assert(spec_read_cstring(bk, pos) == spec_read_cstring(b, pos));
        if k < p2 {
            lemma_vec_of_trunc(b, p1, k, parser_of::<Marker>(ver));
        } else {
            lemma_vec_of_local(b, bk, p1, parser_of::<Marker>(ver));
            lemma_marker_sets_trunc(b, p2, k, (n - 1) as nat, ver, entries_insert(acc, name, ms));
        }
    }
}

/// The fixed tail of a frame moves forward and stays in bounds.
proof fn lemma_frame_tail_forward(
    b: Seq<u8>,
    pos: int,
    ver: ProtocolVersion,
    head: crate::frame::FrameHeadV,
)
    requires
        0 <= pos,
        spec_unpack_frame_tail(b, pos, ver, head) is Ok,
    ensures
        pos <= spec_unpack_frame_tail(b, pos, ver, head)->Ok_0.1 <= b.len(),
{
}

/// The fixed tail of a frame depends only on the bytes it consumes.
proof fn lemma_frame_tail_local(
    b: Seq<u8>,
    b2: Seq<u8>,
    pos: int,
    ver: ProtocolVersion,
    head: crate::frame::FrameHeadV,
)
    requires
        0 <= pos,
        spec_unpack_frame_tail(b, pos, ver, head) is Ok,
        spec_unpack_frame_tail(b, pos, ver, head)->Ok_0.1 <= b2.len(),
        forall|i: int|
            pos <= i < spec_unpack_frame_tail(b, pos, ver, head)->Ok_0.1 ==> b2[i] == b[i],
    ensures
        spec_unpack_frame_tail(b2, pos, ver, head) == spec_unpack_frame_tail(b, pos, ver, head),
{
    assert(spec_read_u32(b2, pos) == spec_read_u32(b, pos));
    assert(spec_read_u32(b2, pos + 4) == spec_read_u32(b, pos + 4));
    assert(spec_read_u32(b2, pos + 8) == spec_read_u32(b, pos + 8));
    let p11: int = pos + 12;
    let p12: int = if spec_timestamp_is_double(ver) {
        assert(spec_read_u64(b2, p11) == spec_read_u64(b, p11));
        p11 + 8
    } else if spec_timestamp_is_single(ver) {
        assert(spec_read_u32(b2, p11) == spec_read_u32(b, p11));
        p11 + 4
    } else {
        p11
    };
    let p13: int = if spec_has_optional_flags(ver) {
        assert(spec_read_u16(b2, p12) == spec_read_u16(b, p12));
        p12 + 2
    } else {
        p12
    };
    assert(spec_read_i32(b2, p13) == spec_read_i32(b, p13));
}

/// Cutting the buffer short of what the tail consumed turns it into
/// `NotEnoughBytes`.
proof fn lemma_frame_tail_trunc(
    b: Seq<u8>,
    pos: int,
    k: int,
    ver: ProtocolVersion,
    head: crate::frame::FrameHeadV,
)
    requires
        0 <= pos <= k <= b.len(),
        spec_unpack_frame_tail(b, pos, ver, head) is Ok,
        k < spec_unpack_frame_tail(b, pos, ver, head)->Ok_0.1,
    ensures
        spec_unpack_frame_tail(b.take(k), pos, ver, head) == Err::<(FrameOfDataV, int), ParseError>(
            ParseError::NotEnoughBytes,
        ),
{
    let bk = b.take(k);
    let p11: int = pos + 12;
    let p12: int = if spec_timestamp_is_double(ver) {
        p11 + 8
    } else if spec_timestamp_is_single(ver) {
        p11 + 4
    } else {
        p11
    };
    let p13: int = if spec_has_optional_flags(ver) {
        p12 + 2
    } else {
        p12
    };
    if k < pos + 4 {
    } else {
        assert(spec_read_u32(bk, pos) == spec_read_u32(b, pos));
        if k < pos + 8 {
        } else {
            assert(spec_read_u32(bk, pos + 4) == spec_read_u32(b, pos + 4));
            if k < p11 {
            } else {
                assert(spec_read_u32(bk, pos + 8) == spec_read_u32(b, pos + 8));
                if k < p12 {
                } else {
                    if spec_timestamp_is_double(ver) {
                        assert(spec_read_u64(bk, p11) == spec_read_u64(b, p11));
                    } else if spec_timestamp_is_single(ver) {
                        assert(spec_read_u32(bk, p11) == spec_read_u32(b, p11));
                    }
                    if k < p13 {
                    } else {
                        if spec_has_optional_flags(ver) {
                            assert(spec_read_u16(bk, p12) == spec_read_u16(b, p12));
                        }
                    }
                }
            }
        }
    }
}

/// A whole-frame decode moves forward and stays in bounds.
#[verifier::rlimit(100)]
proof fn lemma_frame_forward(b: Seq<u8>, pos: int, ver: ProtocolVersion)
    requires
        0 <= pos,
        spec_unpack_frame(b, pos, ver) is Ok,
    ensures
        pos <= spec_unpack_frame(b, pos, ver)->Ok_0.1 <= b.len(),
{
    lemma_marker_secure(ver);
    lemma_rigid_body_secure(ver);
    lemma_skeleton_secure(ver);
    lemma_labeled_marker_secure(ver);
    lemma_force_plate_secure(ver);
    let fm = parser_of::<Marker>(ver);
    let n_sets: i32 = spec_read_i32(b, pos + 4)->Ok_0.0;
    let p2: int = pos + 8;
    lemma_marker_sets_forward(b, p2, count_nat(n_sets), ver, Seq::empty());
    let p3: int = spec_parse_marker_sets(b, p2, count_nat(n_sets), ver, Seq::empty())->Ok_0.1;
    lemma_vec_of_forward(b, p3, fm);
    let p4: int = spec_unpack_vec_of(b, p3, fm)->Ok_0.1;
    lemma_vec_of_forward(b, p4, parser_of::<RigidBody>(ver));
    let p5: int = spec_unpack_vec_of(b, p4, parser_of::<RigidBody>(ver))->Ok_0.1;
    lemma_vec_of_forward(b, p5, parser_of::<Skeleton>(ver));
    let p6: int = spec_unpack_vec_of(b, p5, parser_of::<Skeleton>(ver))->Ok_0.1;
    lemma_vec_of_forward(b, p6, parser_of::<LabeledMarker>(ver));
    let p7: int = spec_unpack_vec_of(b, p6, parser_of::<LabeledMarker>(ver))->Ok_0.1;
    let p8: int = if spec_has_force_plates(ver) {
        lemma_vec_of_forward(b, p7, parser_of::<ForcePlate>(ver));
        spec_unpack_vec_of(b, p7, parser_of::<ForcePlate>(ver))->Ok_0.1
    } else {
        p7
    };
    assert(spec_unpack_frame_tail(b, p8, ver, frame_head_of(b, pos, ver)) is Ok);
    lemma_frame_tail_forward(b, p8, ver, frame_head_of(b, pos, ver));
}

/// The position of a frame's fixed tail, after the force plates.
spec fn frame_p8(b: Seq<u8>, pos: int, ver: ProtocolVersion) -> int {
    let p2: int = pos + 8;
    let n_sets: i32 = spec_read_i32(b, pos + 4)->Ok_0.0;
    let p3: int = spec_parse_marker_sets(b, p2, count_nat(n_sets), ver, Seq::empty())->Ok_0.1;
    let fm = parser_of::<Marker>(ver);
    let p4: int = spec_unpack_vec_of(b, p3, fm)->Ok_0.1;
    let p5: int = spec_unpack_vec_of(b, p4, parser_of::<RigidBody>(ver))->Ok_0.1;
    let p6: int = spec_unpack_vec_of(b, p5, parser_of::<Skeleton>(ver))->Ok_0.1;
    let p7: int = spec_unpack_vec_of(b, p6, parser_of::<LabeledMarker>(ver))->Ok_0.1;
    if spec_has_force_plates(ver) {
        spec_unpack_vec_of(b, p7, parser_of::<ForcePlate>(ver))->Ok_0.1
    } else {
        p7
    }
}

/// The head values of a frame whose decode succeeded.
spec fn frame_head_of(b: Seq<u8>, pos: int, ver: ProtocolVersion) -> crate::frame::FrameHeadV {
    let p2: int = pos + 8;
    let n_sets: i32 = spec_read_i32(b, pos + 4)->Ok_0.0;
    let p3: int = spec_parse_marker_sets(b, p2, count_nat(n_sets), ver, Seq::empty())->Ok_0.1;
    let fm = parser_of::<Marker>(ver);
    let p4: int = spec_unpack_vec_of(b, p3, fm)->Ok_0.1;
    let p5: int = spec_unpack_vec_of(b, p4, parser_of::<RigidBody>(ver))->Ok_0.1;
    let p6: int = spec_unpack_vec_of(b, p5, parser_of::<Skeleton>(ver))->Ok_0.1;
    let p7: int = spec_unpack_vec_of(b, p6, parser_of::<LabeledMarker>(ver))->Ok_0.1;
    crate::frame::FrameHeadV {
        frame_number: spec_read_i32(b, pos)->Ok_0.0,
        marker_sets: spec_parse_marker_sets(b, p2, count_nat(n_sets), ver, Seq::empty())->Ok_0.0,
        other_markers: spec_unpack_vec_of(b, p3, fm)->Ok_0.0,
        rigid_bodies: spec_unpack_vec_of(b, p4, parser_of::<RigidBody>(ver))->Ok_0.0,
        skeletons: spec_unpack_vec_of(b, p5, parser_of::<Skeleton>(ver))->Ok_0.0,
        labeled_markers: spec_unpack_vec_of(b, p6, parser_of::<LabeledMarker>(ver))->Ok_0.0,
        force_plates: if spec_has_force_plates(ver) {
            Some(spec_unpack_vec_of(b, p7, parser_of::<ForcePlate>(ver))->Ok_0.0)
        } else {
            None
        },
    }
}

/// A whole-frame decode depends only on the bytes it consumes.
#[verifier::rlimit(100)]
proof fn lemma_frame_local(b: Seq<u8>, b2: Seq<u8>, pos: int, ver: ProtocolVersion)
    requires
        0 <= pos,
        spec_unpack_frame(b, pos, ver) is Ok,
        spec_unpack_frame(b, pos, ver)->Ok_0.1 <= b2.len(),
        forall|i: int| pos <= i < spec_unpack_frame(b, pos, ver)->Ok_0.1 ==> b2[i] == b[i],
    ensures
        spec_unpack_frame(b2, pos, ver) == spec_unpack_frame(b, pos, ver),
{
    lemma_marker_secure(ver);
    lemma_rigid_body_secure(ver);
    lemma_skeleton_secure(ver);
    lemma_labeled_marker_secure(ver);
    lemma_force_plate_secure(ver);
    let fm = parser_of::<Marker>(ver);
    let n_sets: i32 = spec_read_i32(b, pos + 4)->Ok_0.0;
    let p2: int = pos + 8;
    lemma_marker_sets_forward(b, p2, count_nat(n_sets), ver, Seq::empty());
    let p3: int = spec_parse_marker_sets(b, p2, count_nat(n_sets), ver, Seq::empty())->Ok_0.1;
    lemma_vec_of_forward(b, p3, fm);
    let p4: int = spec_unpack_vec_of(b, p3, fm)->Ok_0.1;
    lemma_vec_of_forward(b, p4, parser_of::<RigidBody>(ver));
    let p5: int = spec_unpack_vec_of(b, p4, parser_of::<RigidBody>(ver))->Ok_0.1;
    lemma_vec_of_forward(b, p5, parser_of::<Skeleton>(ver));
    let p6: int = spec_unpack_vec_of(b, p5, parser_of::<Skeleton>(ver))->Ok_0.1;
    lemma_vec_of_forward(b, p6, parser_of::<LabeledMarker>(ver));
    let p7: int = spec_unpack_vec_of(b, p6, parser_of::<LabeledMarker>(ver))->Ok_0.1;
    let p8: int = if spec_has_force_plates(ver) {
        lemma_vec_of_forward(b, p7, parser_of::<ForcePlate>(ver));
        spec_unpack_vec_of(b, p7, parser_of::<ForcePlate>(ver))->Ok_0.1
    } else {
        p7
    };
    lemma_frame_tail_forward(b, p8, ver, frame_head_of(b, pos, ver));
    assert(spec_read_i32(b2, pos) == spec_read_i32(b, pos));
    assert(spec_read_i32(b2, pos + 4) == spec_read_i32(b, pos + 4));
    lemma_marker_sets_local(b, b2, p2, count_nat(n_sets), ver, Seq::empty());
    lemma_vec_of_local(b, b2, p3, fm);
    lemma_vec_of_local(b, b2, p4, parser_of::<RigidBody>(ver));
    lemma_vec_of_local(b, b2, p5, parser_of::<Skeleton>(ver));
    lemma_vec_of_local(b, b2, p6, parser_of::<LabeledMarker>(ver));
    if spec_has_force_plates(ver) {
        lemma_vec_of_local(b, b2, p7, parser_of::<ForcePlate>(ver));
    }
    lemma_frame_tail_local(b, b2, p8, ver, frame_head_of(b, pos, ver));
}

/// Cutting the buffer short of what a whole-frame decode consumed
/// turns it into `NotEnoughBytes`.
#[verifier::rlimit(100)]
proof fn lemma_frame_trunc(b: Seq<u8>, pos: int, k: int, ver: ProtocolVersion)
    requires
        0 <= pos <= k <= b.len(),
        spec_unpack_frame(b, pos, ver) is Ok,
        k < spec_unpack_frame(b, pos, ver)->Ok_0.1,
    ensures
        spec_unpack_frame(b.take(k), pos, ver) == Err::<(FrameOfDataV, int), ParseError>(
            ParseError::NotEnoughBytes,
        ),
{
    lemma_frame_forward(b, pos, ver);
    lemma_marker_secure(ver);
    lemma_rigid_body_secure(ver);
    lemma_skeleton_secure(ver);
    lemma_labeled_marker_secure(ver);
    lemma_force_plate_secure(ver);
    let bk = b.take(k);
    let fm = parser_of::<Marker>(ver);
    let n_sets: i32 = spec_read_i32(b, pos + 4)->Ok_0.0;
    let p2: int = pos + 8;
    lemma_marker_sets_forward(b, p2, count_nat(n_sets), ver, Seq::empty());
    let p3: int = spec_parse_marker_sets(b, p2, count_nat(n_sets), ver, Seq::empty())->Ok_0.1;
    lemma_vec_of_forward(b, p3, fm);
    let p4: int = spec_unpack_vec_of(b, p3, fm)->Ok_0.1;
    lemma_vec_of_forward(b, p4, parser_of::<RigidBody>(ver));
    let p5: int = spec_unpack_vec_of(b, p4, parser_of::<RigidBody>(ver))->Ok_0.1;
    lemma_vec_of_forward(b, p5, parser_of::<Skeleton>(ver));
    let p6: int = spec_unpack_vec_of(b, p5, parser_of::<Skeleton>(ver))->Ok_0.1;
    lemma_vec_of_forward(b, p6, parser_of::<LabeledMarker>(ver));
    let p7: int = spec_unpack_vec_of(b, p6, parser_of::<LabeledMarker>(ver))->Ok_0.1;
    let p8: int = if spec_has_force_plates(ver) {
        lemma_vec_of_forward(b, p7, parser_of::<ForcePlate>(ver));
        spec_unpack_vec_of(b, p7, parser_of::<ForcePlate>(ver))->Ok_0.1
    } else {
        p7
    };
    assert(bk.take(k) =~= bk);
    if k < p2 {
    } else if k < p3 {
        lemma_marker_sets_trunc(b, p2, k, count_nat(n_sets), ver, Seq::empty());
    } else {
        lemma_marker_sets_local(b, bk, p2, count_nat(n_sets), ver, Seq::empty());
        if k < p4 {
            lemma_vec_of_trunc(b, p3, k, fm);
        } else {
            lemma_vec_of_local(b, bk, p3, fm);
            if k < p5 {
                lemma_vec_of_trunc(b, p4, k, parser_of::<RigidBody>(ver));
            } else {
                lemma_vec_of_local(b, bk, p4, parser_of::<RigidBody>(ver));
                if k < p6 {
                    lemma_vec_of_trunc(b, p5, k, parser_of::<Skeleton>(ver));
                } else {
                    lemma_vec_of_local(b, bk, p5, parser_of::<Skeleton>(ver));
                    if k < p7 {
                        lemma_vec_of_trunc(b, p6, k, parser_of::<LabeledMarker>(ver));
                    } else {
                        lemma_vec_of_local(b, bk, p6, parser_of::<LabeledMarker>(ver));
                        let mut head_ok: bool = true;
                        if spec_has_force_plates(ver) {
                            if k < p8 {
                                lemma_vec_of_trunc(b, p7, k, parser_of::<ForcePlate>(ver));
                                head_ok = false;
                            } else {
                                lemma_vec_of_local(b, bk, p7, parser_of::<ForcePlate>(ver));
                            }
                        }
                        if head_ok {
                            assert(frame_head_of(bk, pos, ver) == frame_head_of(b, pos, ver));
                            lemma_frame_tail_trunc(b, p8, k, ver, frame_head_of(b, pos, ver));
                        }
                    }
                }
            }
        }
    }
}

/// Decoding is deterministic: the result of a decode is a function of
/// the buffer, the start position and the protocol version alone, so
/// decoding the same bytes twice from the same position yields
/// structurally equal results.
pub proof fn lemma_decode_deterministic(b1: Seq<u8>, b2: Seq<u8>, pos: int, ver: ProtocolVersion)
    requires
        b1 == b2,
    ensures
        spec_unpack_message(b1, pos, ver) == spec_unpack_message(b2, pos, ver),
{
}

/// Truncating any well-formed message to fewer bytes than its decode
/// consumed turns the decode into `NotEnoughBytes` — never a
/// different error and never a fabricated value.
#[verifier::rlimit(100)]
pub proof fn lemma_truncated_message(b: Seq<u8>, pos: int, ver: ProtocolVersion, k: int)
    requires
        0 <= pos <= k <= b.len(),
        spec_unpack_message(b, pos, ver) is Ok,
        k < spec_unpack_message(b, pos, ver)->Ok_0.1,
    ensures
        spec_unpack_message(b.take(k), pos, ver) == Err::<
            (crate::messages::NatNetResponseV, int),
            ParseError,
        >(ParseError::NotEnoughBytes),
{
    lemma_cstring_secure();
    lemma_sender_secure();
    lemma_data_set_secure(ver);
    let bk = b.take(k);
    if k < pos + 2 {
    } else if k < pos + 4 {
        assert(spec_read_u16(bk, pos) == spec_read_u16(b, pos));
    } else {
        assert(spec_read_u16(bk, pos) == spec_read_u16(b, pos));
        assert(spec_read_u16(bk, pos + 2) == spec_read_u16(b, pos + 2));
        let msg_id: u16 = spec_read_u16(b, pos)->Ok_0.0;
        let num_bytes: u16 = spec_read_u16(b, pos + 2)->Ok_0.0;
        let p2: int = pos + 4;
        if msg_id == NatNetMsgType::FrameOfData.spec_code() {
            lemma_frame_trunc(b, p2, k, ver);
        } else if msg_id == NatNetMsgType::ModelDef.spec_code() {
            lemma_vec_of_forward(b, p2, parser_of::<DataSet>(ver));
            lemma_vec_of_trunc(b, p2, k, parser_of::<DataSet>(ver));
            assert(bk.take(k) =~= bk);
        } else if msg_id == NatNetMsgType::PingResponse.spec_code() {
            assert(bk == b.take(k));
        } else if msg_id == NatNetMsgType::MessageString.spec_code() {
            assert(bk.take(k) =~= bk);
        }
    }
}

/// Under agreement on every byte before the end-of-data marker, a
/// frame decode on the edited buffer reaches the same fixed tail at
/// the same position with the same head values.
#[verifier::rlimit(100)]
proof fn lemma_frame_flip_head(b: Seq<u8>, b2: Seq<u8>, pos: int, ver: ProtocolVersion)
    requires
        0 <= pos,
        spec_unpack_frame(b, pos, ver) is Ok,
        b2.len() == b.len(),
        forall|i: int| pos <= i < spec_unpack_frame(b, pos, ver)->Ok_0.1 - 4 ==> b2[i] == b[i],
    ensures
        pos <= frame_p8(b, pos, ver),
        spec_unpack_frame_tail(b, frame_p8(b, pos, ver), ver, frame_head_of(b, pos, ver))
            == spec_unpack_frame(b, pos, ver),
        spec_unpack_frame_tail(b, frame_p8(b, pos, ver), ver, frame_head_of(b, pos, ver)) is Ok,
        spec_unpack_frame(b2, pos, ver) == spec_unpack_frame_tail(
            b2,
            frame_p8(b, pos, ver),
            ver,
            frame_head_of(b, pos, ver),
        ),
{
    lemma_marker_secure(ver);
    lemma_rigid_body_secure(ver);
    lemma_skeleton_secure(ver);
    lemma_labeled_marker_secure(ver);
    lemma_force_plate_secure(ver);
    let fm = parser_of::<Marker>(ver);
    let n_sets: i32 = spec_read_i32(b, pos + 4)->Ok_0.0;
    let p2: int = pos + 8;
    lemma_marker_sets_forward(b, p2, count_nat(n_sets), ver, Seq::empty());
    let p3: int = spec_parse_marker_sets(b, p2, count_nat(n_sets), ver, Seq::empty())->Ok_0.1;
    lemma_vec_of_forward(b, p3, fm);
    let p4: int = spec_unpack_vec_of(b, p3, fm)->Ok_0.1;
    lemma_vec_of_forward(b, p4, parser_of::<RigidBody>(ver));
    let p5: int = spec_unpack_vec_of(b, p4, parser_of::<RigidBody>(ver))->Ok_0.1;
    lemma_vec_of_forward(b, p5, parser_of::<Skeleton>(ver));
    let p6: int = spec_unpack_vec_of(b, p5, parser_of::<Skeleton>(ver))->Ok_0.1;
    lemma_vec_of_forward(b, p6, parser_of::<LabeledMarker>(ver));
    let p7: int = spec_unpack_vec_of(b, p6, parser_of::<LabeledMarker>(ver))->Ok_0.1;
    let p8: int = if spec_has_force_plates(ver) {
        lemma_vec_of_forward(b, p7, parser_of::<ForcePlate>(ver));
        spec_unpack_vec_of(b, p7, parser_of::<ForcePlate>(ver))->Ok_0.1
    } else {
        p7
    };
    lemma_frame_tail_forward(b, p8, ver, frame_head_of(b, pos, ver));
    assert(spec_read_i32(b2, pos) == spec_read_i32(b, pos));
    assert(spec_read_i32(b2, pos + 4) == spec_read_i32(b, pos + 4));
    lemma_marker_sets_local(b, b2, p2, count_nat(n_sets), ver, Seq::empty());
    lemma_vec_of_local(b, b2, p3, fm);
    lemma_vec_of_local(b, b2, p4, parser_of::<RigidBody>(ver));
    lemma_vec_of_local(b, b2, p5, parser_of::<Skeleton>(ver));
    lemma_vec_of_local(b, b2, p6, parser_of::<LabeledMarker>(ver));
    if spec_has_force_plates(ver) {
        lemma_vec_of_local(b, b2, p7, parser_of::<ForcePlate>(ver));
    }
}

/// Flipping the end-of-data marker turns the fixed tail of a frame
/// into a structural mismatch.
proof fn lemma_tail_flip(
    b: Seq<u8>,
    b2: Seq<u8>,
    pos: int,
    ver: ProtocolVersion,
    head: crate::frame::FrameHeadV,
)
    requires
        0 <= pos,
        spec_unpack_frame_tail(b, pos, ver, head) is Ok,
        spec_unpack_frame_tail(b, pos, ver, head)->Ok_0.1 <= b2.len(),
        forall|i: int|
            pos <= i < spec_unpack_frame_tail(b, pos, ver, head)->Ok_0.1 - 4 ==> b2[i] == b[i],
        spec_le_u32(b2, spec_unpack_frame_tail(b, pos, ver, head)->Ok_0.1 - 4) != 0,
    ensures
        spec_le_u32(b, spec_unpack_frame_tail(b, pos, ver, head)->Ok_0.1 - 4) == 0,
        spec_unpack_frame_tail(b2, pos, ver, head) == Err::<(FrameOfDataV, int), ParseError>(
            ParseError::UnknownError,
        ),
{
    let p11: int = pos + 12;
    let p12: int = if spec_timestamp_is_double(ver) {
        p11 + 8
    } else if spec_timestamp_is_single(ver) {
        p11 + 4
    } else {
        p11
    };
    let p13: int = if spec_has_optional_flags(ver) {
        p12 + 2
    } else {
        p12
    };
    let w: u32 = spec_le_u32(b, p13);
    let eod: i32 = spec_read_i32(b, p13)->Ok_0.0;
    assert(w == 0) by {
        assert(eod == #[verifier::truncate] (w as i32));
        assert(w as i32 == 0 ==> w == 0) by (bit_vector);
    }
    assert(spec_read_u32(b2, pos) == spec_read_u32(b, pos));
    assert(spec_read_u32(b2, pos + 4) == spec_read_u32(b, pos + 4));
    assert(spec_read_u32(b2, pos + 8) == spec_read_u32(b, pos + 8));
    if spec_timestamp_is_double(ver) {
        assert(spec_read_u64(b2, p11) == spec_read_u64(b, p11));
    } else if spec_timestamp_is_single(ver) {
        assert(spec_read_u32(b2, p11) == spec_read_u32(b, p11));
    }
    if spec_has_optional_flags(ver) {
        assert(spec_read_u16(b2, p12) == spec_read_u16(b, p12));
    }
    let w2: u32 = spec_le_u32(b2, p13);
    assert(spec_read_i32(b2, p13) == Ok::<(i32, int), ParseError>(
        (#[verifier::truncate] (w2 as i32), p13 + 4),
    ));
    assert(w2 as i32 != 0) by (bit_vector)
        requires
            w2 != 0,
    ;
}

/// A well-formed frame ends in a zero 4-byte end-of-data marker.
/// Flipping that marker to any nonzero value, with every other
/// consumed byte unchanged, turns the decode into a structural
/// mismatch (`UnknownError`): the decoder never accepts a frame whose
/// layout it disagrees with.
#[verifier::rlimit(100)]
pub proof fn lemma_end_marker_flip(b: Seq<u8>, pos: int, ver: ProtocolVersion, b2: Seq<u8>)
    requires
        0 <= pos,
        spec_unpack_frame(b, pos, ver) is Ok,
        b2.len() == b.len(),
        forall|i: int|
            pos <= i < spec_unpack_frame(b, pos, ver)->Ok_0.1 - 4 ==> b2[i] == b[i],
        spec_le_u32(b2, spec_unpack_frame(b, pos, ver)->Ok_0.1 - 4) != 0,
    ensures
        spec_le_u32(b, spec_unpack_frame(b, pos, ver)->Ok_0.1 - 4) == 0,
        spec_unpack_frame(b2, pos, ver) == Err::<(FrameOfDataV, int), ParseError>(
            ParseError::UnknownError,
        ),
{
    lemma_frame_flip_head(b, b2, pos, ver);
    let head = frame_head_of(b, pos, ver);
    let p8: int = frame_p8(b, pos, ver);
    lemma_frame_tail_forward(b, p8, ver, head);
    lemma_tail_flip(b, b2, p8, ver, head);
}

/// The presence of every version-dependent frame field follows the
/// threshold table exactly: the recording and models-changed flags and the
/// timestamp are present from 2.6.0 on, the timestamp is a 64-bit
/// value exactly from 2.7.0 on, and force plates are present from
/// 2.9.0 on.
pub proof fn lemma_frame_version_gate(b: Seq<u8>, pos: int, ver: ProtocolVersion)
    requires
        spec_unpack_frame(b, pos, ver) is Ok,
    ensures
        ({
            let f = spec_unpack_frame(b, pos, ver)->Ok_0.0;
            &&& (f.force_plates is Some <==> spec_has_force_plates(ver))
            &&& (f.timestamp is Some <==> spec_has_optional_flags(ver))
            &&& (f.timestamp matches Some(t) ==> (t is Double <==> spec_timestamp_is_double(ver)))
            &&& (f.is_recording is Some <==> spec_has_optional_flags(ver))
            &&& (f.tracked_models_changed is Some <==> spec_has_optional_flags(ver))
        }),
{
}

} // verus!
