//! Count-prefixed sequences and the decoding interface shared by all
//! entities.
//!
//! Every NatNet sequence is a signed 32-bit count followed by that many
//! elements. The count comes from untrusted input: it is only a
//! decode-time hint, so elements are decoded one by one and a count
//! that exceeds the remaining bytes fails with `NotEnoughBytes` instead
//! of driving an allocation. A count of zero or less yields an empty
//! sequence, as the reference protocol clients do.

use vstd::prelude::*;

use crate::reader::{spec_read_cstring, spec_read_i32, spec_read_u32, ByteSource};
use crate::version::ProtocolVersion;
use crate::ParseError;

verus! {

/// The number of elements a signed 32-bit count denotes: negative
/// counts mean none.
pub open spec fn count_nat(n: i32) -> nat {
    if n <= 0 {
        0
    } else {
        n as nat
    }
}

/// `n` elements decoded in sequence by `f`, appended to `acc`; the
/// first failing element aborts the whole sequence.
pub open spec fn spec_parse_n_acc<T>(
    b: Seq<u8>,
    pos: int,
    n: nat,
    f: spec_fn(Seq<u8>, int) -> Result<(T, int), ParseError>,
    acc: Seq<T>,
) -> Result<(Seq<T>, int), ParseError>
    decreases n,
{
    if n == 0 {
        Ok((acc, pos))
    } else {
        match f(b, pos) {
            Ok((v, p)) => spec_parse_n_acc(b, p, (n - 1) as nat, f, acc.push(v)),
            Err(e) => Err(e),
        }
    }
}

/// A count-prefixed sequence: a signed 32-bit count, then that many
/// elements decoded by `f`.
pub open spec fn spec_unpack_vec_of<T>(
    b: Seq<u8>,
    pos: int,
    f: spec_fn(Seq<u8>, int) -> Result<(T, int), ParseError>,
) -> Result<(Seq<T>, int), ParseError> {
    match spec_read_i32(b, pos) {
        Ok((n, p)) => spec_parse_n_acc(b, p, count_nat(n), f, Seq::empty()),
        Err(e) => Err(e),
    }
}

/// Decoding an entity from the byte source, given the caller's
/// protocol version. `spec_unpack` is the entity's wire layout; the
/// executable `unpack` must decode exactly by it.
pub trait Unpack: Sized + DeepView {
    spec fn spec_unpack(b: Seq<u8>, pos: int, ver: ProtocolVersion) -> Result<
        (<Self as DeepView>::V, int),
        ParseError,
    >;

    fn unpack(ver: &ProtocolVersion, src: &mut ByteSource) -> (r: Result<Self, ParseError>)
        ensures
            final(src).spec_data() == old(src).spec_data(),
            old(src).spec_pos() <= final(src).spec_pos(),
            match r {
                Ok(v) => Self::spec_unpack(old(src).spec_data(), old(src).spec_pos(), *ver)
                    == Ok::<(<Self as DeepView>::V, int), ParseError>(
                    (v.deep_view(), final(src).spec_pos()),
                ),
                Err(e) => Self::spec_unpack(old(src).spec_data(), old(src).spec_pos(), *ver)
                    == Err::<(<Self as DeepView>::V, int), ParseError>(e),
            },
    ;
}

/// The layout of `T` under `ver`, as a function of buffer and position.
pub open spec fn parser_of<T: Unpack>(ver: ProtocolVersion) -> spec_fn(Seq<u8>, int) -> Result<
    (<T as DeepView>::V, int),
    ParseError,
> {
    |b: Seq<u8>, pos: int| T::spec_unpack(b, pos, ver)
}

/// Decodes exactly `n` elements (none, if `n` is zero or negative).
pub fn unpack_n<T: Unpack>(ver: &ProtocolVersion, src: &mut ByteSource, n: i32) -> (r: Result<
    Vec<T>,
    ParseError,
>)
    ensures
        final(src).spec_data() == old(src).spec_data(),
        old(src).spec_pos() <= final(src).spec_pos(),
        match r {
            Ok(v) => spec_parse_n_acc(
                old(src).spec_data(),
                old(src).spec_pos(),
                count_nat(n),
                parser_of::<T>(*ver),
                Seq::empty(),
            ) == Ok::<(Seq<<T as DeepView>::V>, int), ParseError>(
                (v.deep_view(), final(src).spec_pos()),
            ),
            Err(e) => spec_parse_n_acc(
                old(src).spec_data(),
                old(src).spec_pos(),
                count_nat(n),
                parser_of::<T>(*ver),
                Seq::empty(),
            ) == Err::<(Seq<<T as DeepView>::V>, int), ParseError>(e),
        },
{
    let ghost b = src.spec_data();
    let ghost p0 = src.spec_pos();
    let ghost f = parser_of::<T>(*ver);
    let mut out: Vec<T> = Vec::new();
    proof {
        assert(out.deep_view() =~= Seq::<<T as DeepView>::V>::empty());
    }
    let mut i: i32 = 0;
    while i < n
        invariant
            b == old(src).spec_data(),
            p0 == old(src).spec_pos(),
            f == parser_of::<T>(*ver),
            src.spec_data() == b,
            p0 <= src.spec_pos(),
            0 <= i as int <= count_nat(n),
            spec_parse_n_acc(b, p0, count_nat(n), f, Seq::empty()) == spec_parse_n_acc(
                b,
                src.spec_pos(),
                (count_nat(n) - i as int) as nat,
                f,
                out.deep_view(),
            ),
        decreases n - i,
    {
        let ghost cur = src.spec_pos();
        let ghost o_prev = out.deep_view();
        match T::unpack(ver, src) {
            Ok(v) => {
                proof {
                    assert(f(b, cur) == T::spec_unpack(b, cur, *ver));
                }
                let ghost dv = v.deep_view();
                out.push(v);
                proof {
                    assert(out.deep_view() =~= o_prev.push(dv));
                }
                i = i + 1;
            },
            Err(e) => {
                proof {
                    assert(f(b, cur) == T::spec_unpack(b, cur, *ver));
                    assert(spec_parse_n_acc(
                        b,
                        cur,
                        (count_nat(n) - i as int) as nat,
                        f,
                        o_prev,
                    ) == Err::<(Seq<<T as DeepView>::V>, int), ParseError>(e));
                }
                return Err(e);
            },
        }
    }
    Ok(out)
}

/// Decodes a count-prefixed sequence: a signed 32-bit count, then that
/// many elements.
pub fn unpack_vec<T: Unpack>(ver: &ProtocolVersion, src: &mut ByteSource) -> (r: Result<
    Vec<T>,
    ParseError,
>)
    ensures
        final(src).spec_data() == old(src).spec_data(),
        old(src).spec_pos() <= final(src).spec_pos(),
        match r {
            Ok(v) => spec_unpack_vec_of(
                old(src).spec_data(),
                old(src).spec_pos(),
                parser_of::<T>(*ver),
            ) == Ok::<(Seq<<T as DeepView>::V>, int), ParseError>(
                (v.deep_view(), final(src).spec_pos()),
            ),
            Err(e) => spec_unpack_vec_of(
                old(src).spec_data(),
                old(src).spec_pos(),
                parser_of::<T>(*ver),
            ) == Err::<(Seq<<T as DeepView>::V>, int), ParseError>(e),
        },
{
    let n = match src.read_i32() {
        Ok(n) => n,
        Err(e) => { return Err(e) },
    };
    unpack_n::<T>(ver, src, n)
}

impl Unpack for i32 {
    open spec fn spec_unpack(b: Seq<u8>, pos: int, ver: ProtocolVersion) -> Result<
        (i32, int),
        ParseError,
    > {
        spec_read_i32(b, pos)
    }

    fn unpack(ver: &ProtocolVersion, src: &mut ByteSource) -> (r: Result<i32, ParseError>) {
        src.read_i32()
    }
}

impl Unpack for u32 {
    open spec fn spec_unpack(b: Seq<u8>, pos: int, ver: ProtocolVersion) -> Result<
        (u32, int),
        ParseError,
    > {
        spec_read_u32(b, pos)
    }

    fn unpack(ver: &ProtocolVersion, src: &mut ByteSource) -> (r: Result<u32, ParseError>) {
        src.read_u32()
    }
}

impl Unpack for String {
    open spec fn spec_unpack(b: Seq<u8>, pos: int, ver: ProtocolVersion) -> Result<
        (Seq<char>, int),
        ParseError,
    > {
        spec_read_cstring(b, pos)
    }

    fn unpack(ver: &ProtocolVersion, src: &mut ByteSource) -> (r: Result<String, ParseError>) {
        src.read_cstring()
    }
}

/// One force-plate channel: a count-prefixed sequence of 32-bit
/// samples (IEEE-754 bit patterns).
impl Unpack for Vec<u32> {
    open spec fn spec_unpack(b: Seq<u8>, pos: int, ver: ProtocolVersion) -> Result<
        (Seq<u32>, int),
        ParseError,
    > {
        spec_unpack_vec_of(b, pos, parser_of::<u32>(ver))
    }

    fn unpack(ver: &ProtocolVersion, src: &mut ByteSource) -> (r: Result<Vec<u32>, ParseError>) {
        unpack_vec::<u32>(ver, src)
    }
}

} // verus!
