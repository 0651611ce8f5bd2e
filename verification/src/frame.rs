//! Frames of data: one full snapshot of tracked scene state.

use vstd::prelude::*;

use crate::force_plate::{ForcePlate, ForcePlateV};
use crate::marker::{LabeledMarker, Marker};
use crate::parse::{
    count_nat, parser_of, spec_unpack_vec_of, unpack_vec, Unpack,
};
use crate::reader::{
    spec_read_cstring, spec_read_i32, spec_read_u16, spec_read_u32, spec_read_u64, ByteSource,
};
use crate::rigid_body::{RigidBody, RigidBodyV};
use crate::skeleton::{Skeleton, SkeletonV};
use crate::version::{
    has_force_plates, has_optional_flags, spec_has_force_plates, spec_has_optional_flags,
    spec_timestamp_is_double, spec_timestamp_is_single, timestamp_is_double, timestamp_is_single,
    ProtocolVersion,
};
use crate::ParseError;

verus! {

/// One named marker set inside a frame.
#[derive(Clone, Debug, PartialEq)]
pub struct MarkerSetEntry {
    /// Name of the set.
    pub name: String,
    /// The set's markers, in wire order.
    pub markers: Vec<Marker>,
}

pub struct MarkerSetEntryV {
    pub name: Seq<char>,
    pub markers: Seq<Marker>,
}

impl View for MarkerSetEntry {
    type V = MarkerSetEntryV;

    open spec fn view(&self) -> MarkerSetEntryV {
        MarkerSetEntryV { name: self.name@, markers: self.markers@ }
    }
}

impl DeepView for MarkerSetEntry {
    type V = MarkerSetEntryV;

    open spec fn deep_view(&self) -> MarkerSetEntryV {
        self.view()
    }
}

/// Inserting into a name-keyed entry sequence: a new name is appended,
/// a name already present has its markers replaced in place, so the
/// last occurrence of a duplicated name wins.
pub open spec fn entries_insert(
    s: Seq<MarkerSetEntryV>,
    name: Seq<char>,
    markers: Seq<Marker>,
) -> Seq<MarkerSetEntryV>
    decreases s.len(),
{
    if s.len() == 0 {
        seq![MarkerSetEntryV { name, markers }]
    } else if s[0].name == name {
        seq![MarkerSetEntryV { name, markers }] + s.drop_first()
    } else {
        seq![s[0]] + entries_insert(s.drop_first(), name, markers)
    }
}

/// Whether some entry carries this name.
pub open spec fn entries_contain(s: Seq<MarkerSetEntryV>, name: Seq<char>) -> bool {
    exists|i: int| 0 <= i < s.len() && s[i].name == name
}

/// If the first matching name sits at `i`, inserting replaces the
/// markers at `i` and moves nothing else.
proof fn lemma_entries_insert_update(
    s: Seq<MarkerSetEntryV>,
    name: Seq<char>,
    markers: Seq<Marker>,
    i: int,
)
    requires
        0 <= i < s.len(),
        s[i].name == name,
        forall|j: int| 0 <= j < i ==> s[j].name != name,
    ensures
        entries_insert(s, name, markers) == s.update(i, MarkerSetEntryV { name, markers }),
    decreases i,
{
    if i == 0 {
        assert(entries_insert(s, name, markers) =~= s.update(
            0,
            MarkerSetEntryV { name, markers },
        ));
    } else {
        assert(forall|j: int|
            0 <= j < s.drop_first().len() ==> s.drop_first()[j] == s[j + 1]);
        lemma_entries_insert_update(s.drop_first(), name, markers, i - 1);
        assert(seq![s[0]] + s.drop_first().update(i - 1, MarkerSetEntryV { name, markers })
            =~= s.update(i, MarkerSetEntryV { name, markers }));
    }
}

/// Inserting a name no entry carries appends the new entry.
proof fn lemma_entries_insert_push(s: Seq<MarkerSetEntryV>, name: Seq<char>, markers: Seq<Marker>)
    requires
        forall|j: int| 0 <= j < s.len() ==> s[j].name != name,
    ensures
        entries_insert(s, name, markers) == s.push(MarkerSetEntryV { name, markers }),
    decreases s.len(),
{
    if s.len() == 0 {
        assert(entries_insert(s, name, markers) =~= s.push(MarkerSetEntryV { name, markers }));
    } else {
        assert(forall|j: int|
            0 <= j < s.drop_first().len() ==> s.drop_first()[j] == s[j + 1]);
        lemma_entries_insert_push(s.drop_first(), name, markers);
        assert(seq![s[0]] + s.drop_first().push(MarkerSetEntryV { name, markers }) =~= s.push(
            MarkerSetEntryV { name, markers },
        ));
    }
}

/// The frame's named marker sets: a name-keyed mapping in which a
/// duplicated name keeps only its last occurrence.
#[derive(Clone, Debug, PartialEq)]
pub struct MarkerSetMap {
    entries: Vec<MarkerSetEntry>,
}

impl View for MarkerSetMap {
    type V = Seq<MarkerSetEntryV>;

    closed spec fn view(&self) -> Seq<MarkerSetEntryV> {
        self.entries.deep_view()
    }
}

impl DeepView for MarkerSetMap {
    type V = Seq<MarkerSetEntryV>;

    closed spec fn deep_view(&self) -> Seq<MarkerSetEntryV> {
        self.view()
    }
}

impl MarkerSetMap {
    pub fn new() -> (m: MarkerSetMap)
        ensures
            m@ == Seq::<MarkerSetEntryV>::empty(),
    {
        let m = MarkerSetMap { entries: Vec::new() };
        proof {
            assert(m@ =~= Seq::<MarkerSetEntryV>::empty());
        }
        m
    }

    /// Inserts a set under its name; a name already present has its
    /// markers replaced, so the last occurrence wins.
    #[verifier::loop_isolation(false)]
    pub fn insert(&mut self, name: String, markers: Vec<Marker>)
        ensures
            final(self)@ == entries_insert(old(self)@, name@, markers@),
    {
        let ghost s0 = self@;
        let ghost se0 = self.entries@;
        let new_entry = MarkerSetEntry { name, markers };
        let ghost nv = new_entry@;
        let n = self.entries.len();
        let mut i: usize = 0;
        while i < n
            invariant
                s0 == self@,
                se0 == self.entries@,
                nv == (MarkerSetEntryV { name: new_entry.name@, markers: new_entry.markers@ }),
                n == self.entries.len(),
                0 <= i as int <= n as int,
                forall|j: int| 0 <= j < i as int ==> s0[j].name != nv.name,
            decreases n - i,
        {
            if self.entries[i].name == new_entry.name {
                proof {
                    assert(s0[i as int].name == nv.name);
                    lemma_entries_insert_update(s0, nv.name, nv.markers, i as int);
                }
                self.entries.remove(i);
                self.entries.insert(i, new_entry);
                proof {
                    assert(self.entries@ =~= se0.update(i as int, new_entry));
                    assert(self@ =~= s0.update(i as int, nv));
                }
                return ;
            }
            i = i + 1;
        }
        proof {
            lemma_entries_insert_push(s0, nv.name, nv.markers);
        }
        self.entries.push(new_entry);
        proof {
            assert(self@ =~= s0.push(nv));
        }
    }

    /// Whether a set with this name is present.
    pub fn contains_key(&self, name: &str) -> (r: bool)
        ensures
            r == entries_contain(self@, name@),
    {
        let key: String = name.to_owned();
        let n = self.entries.len();
        let mut i: usize = 0;
        while i < n
            invariant
                n == self.entries.len(),
                0 <= i as int <= n as int,
                key@ == name@,
                forall|j: int| 0 <= j < i as int ==> self@[j].name != name@,
            decreases n - i,
        {
            if self.entries[i].name == key {
                assert(self@[i as int].name == name@);
                return true;
            }
            i = i + 1;
        }
        false
    }

    /// The markers of the set with this name, if present.
    pub fn get(&self, name: &str) -> (r: Option<&Vec<Marker>>)
        ensures
            match r {
                Some(m) => exists|i: int|
                    0 <= i < self@.len() && self@[i].name == name@ && self@[i].markers == m@,
                None => !entries_contain(self@, name@),
            },
    {
        let key: String = name.to_owned();
        let n = self.entries.len();
        let mut i: usize = 0;
        while i < n
            invariant
                n == self.entries.len(),
                0 <= i as int <= n as int,
                key@ == name@,
                forall|j: int| 0 <= j < i as int ==> self@[j].name != name@,
            decreases n - i,
        {
            if self.entries[i].name == key {
                assert(self@[i as int].name == name@);
                return Some(&self.entries[i].markers);
            }
            i = i + 1;
        }
        None
    }

    /// How many sets the mapping holds.
    pub fn len(&self) -> (n: usize)
        ensures
            n == self@.len(),
    {
        self.entries.len()
    }

    /// The entries in insertion order.
    pub fn entries(&self) -> (r: &Vec<MarkerSetEntry>)
        ensures
            r.deep_view() == self@,
    {
        &self.entries
    }
}

/// A two-part timecode: the timecode word and its subframe part.
#[derive(Clone, Copy, Debug, PartialEq, Eq, Structural)]
pub struct Timecode {
    pub word: u32,
    pub subframe: u32,
}

/// The frame timestamp as read from the wire: a 32-bit IEEE-754 bit
/// pattern for protocol 2.6.x, a 64-bit one from 2.7.0 on.
#[derive(Clone, Copy, Debug, PartialEq, Eq)]
pub enum Timestamp {
    /// A 32-bit float bit pattern (protocol 2.6.x only).
    Single(u32),
    /// A 64-bit float bit pattern (protocol 2.7.0 and later).
    Double(u64),
}

/// The named marker sets of a frame, as a fold over the wire entries:
/// each is a name, then a count-prefixed marker sequence, inserted
/// into the mapping so that a duplicated name keeps the last
/// occurrence.
pub open spec fn spec_parse_marker_sets(
    b: Seq<u8>,
    pos: int,
    n: nat,
    ver: ProtocolVersion,
    acc: Seq<MarkerSetEntryV>,
) -> Result<(Seq<MarkerSetEntryV>, int), ParseError>
    decreases n,
{
    if n == 0 {
        Ok((acc, pos))
    } else {
        match spec_read_cstring(b, pos) {
            Err(e) => Err(e),
            Ok((name, p1)) => match spec_unpack_vec_of(b, p1, parser_of::<Marker>(ver)) {
                Err(e) => Err(e),
                Ok((markers, p2)) => spec_parse_marker_sets(
                    b,
                    p2,
                    (n - 1) as nat,
                    ver,
                    entries_insert(acc, name, markers),
                ),
            },
        }
    }
}

/// One frame of data: the main payload coming from the tracking
/// server.
#[derive(Clone, Debug, PartialEq)]
pub struct FrameOfData {
    /// Current frame number.
    pub frame_number: i32,
    /// Named marker sets.
    pub marker_sets: MarkerSetMap,
    /// Markers not belonging to a named set.
    pub other_markers: Vec<Marker>,
    /// Rigid bodies.
    pub rigid_bodies: Vec<RigidBody>,
    /// Skeletons.
    pub skeletons: Vec<Skeleton>,
    /// Labeled markers.
    pub labeled_markers: Vec<LabeledMarker>,
    /// Force-plate data (protocol 2.9.0 and later).
    pub force_plates: Option<Vec<ForcePlate>>,
    /// Latency (32-bit float bit pattern).
    pub latency: u32,
    /// Two-part timecode.
    pub timecode: Timecode,
    /// Timestamp of the data (protocol 2.6.0 and later).
    pub timestamp: Option<Timestamp>,
    /// Is the sender recording (protocol 2.6.0 and later)?
    pub is_recording: Option<bool>,
    /// Has the list of actively tracked models changed (protocol 2.6.0
    /// and later)?
    pub tracked_models_changed: Option<bool>,
}

pub struct FrameOfDataV {
    pub frame_number: i32,
    pub marker_sets: Seq<MarkerSetEntryV>,
    pub other_markers: Seq<Marker>,
    pub rigid_bodies: Seq<RigidBodyV>,
    pub skeletons: Seq<SkeletonV>,
    pub labeled_markers: Seq<LabeledMarker>,
    pub force_plates: Option<Seq<ForcePlateV>>,
    pub latency: u32,
    pub timecode: Timecode,
    pub timestamp: Option<Timestamp>,
    pub is_recording: Option<bool>,
    pub tracked_models_changed: Option<bool>,
}

impl View for FrameOfData {
    type V = FrameOfDataV;

    open spec fn view(&self) -> FrameOfDataV {
        FrameOfDataV {
            frame_number: self.frame_number,
            marker_sets: self.marker_sets@,
            other_markers: self.other_markers@,
            rigid_bodies: self.rigid_bodies.deep_view(),
            skeletons: self.skeletons.deep_view(),
            labeled_markers: self.labeled_markers@,
            force_plates: match self.force_plates {
                Some(v) => Some(v.deep_view()),
                None => None,
            },
            latency: self.latency,
            timecode: self.timecode,
            timestamp: self.timestamp,
            is_recording: self.is_recording,
            tracked_models_changed: self.tracked_models_changed,
        }
    }
}

impl DeepView for FrameOfData {
    type V = FrameOfDataV;

    open spec fn deep_view(&self) -> FrameOfDataV {
        self.view()
    }
}

/// The values of a frame that precede the fixed tail: everything
/// from the frame number through the force plates.
pub struct FrameHeadV {
    pub frame_number: i32,
    pub marker_sets: Seq<MarkerSetEntryV>,
    pub other_markers: Seq<Marker>,
    pub rigid_bodies: Seq<RigidBodyV>,
    pub skeletons: Seq<SkeletonV>,
    pub labeled_markers: Seq<LabeledMarker>,
    pub force_plates: Option<Seq<ForcePlateV>>,
}

/// The fixed tail of a frame: latency; the two timecode words; the
/// timestamp in the width the version gate selects; the
/// recording/models-changed bitfield (2.6.0 on); and a 4-byte
/// end-of-data marker that must be zero — a nonzero marker means the
/// decoder and the sender disagree about the layout, so everything
/// already decoded is suspect and the frame is rejected as a
/// structural mismatch.
pub open spec fn spec_unpack_frame_tail(
    b: Seq<u8>,
    pos: int,
    ver: ProtocolVersion,
    head: FrameHeadV,
) -> Result<(FrameOfDataV, int), ParseError> {
    match spec_read_u32(b, pos) {
        Err(e) => Err(e),
        Ok((latency, p9)) => match spec_read_u32(b, p9) {
            Err(e) => Err(e),
            Ok((tc, p10)) => match spec_read_u32(b, p10) {
                Err(e) => Err(e),
                Ok((tcs, p11)) => match (if spec_timestamp_is_double(ver) {
                    match spec_read_u64(b, p11) {
                        Err(e) => Err(e),
                        Ok((t, p12)) => Ok((Some(Timestamp::Double(t)), p12)),
                    }
                } else if spec_timestamp_is_single(ver) {
                    match spec_read_u32(b, p11) {
                        Err(e) => Err(e),
                        Ok((t, p12)) => Ok((Some(Timestamp::Single(t)), p12)),
                    }
                } else {
                    Ok((None, p11))
                }) {
                    Err(e) => Err(e),
                    Ok((timestamp, p12)) => match (if spec_has_optional_flags(ver) {
                        match spec_read_u16(b, p12) {
                            Err(e) => Err(e),
                            Ok((params, p13)) => Ok(
                                ((Some(params & 0x01 > 0), Some(params & 0x02 > 0)), p13),
                            ),
                        }
                    } else {
                        Ok(((None, None), p12))
                    }) {
                        Err(e) => Err(e),
                        Ok(((is_recording, changed), p13)) => match spec_read_i32(b, p13) {
                            Err(e) => Err(e),
                            Ok((eod, p14)) => if eod == 0 {
                                Ok(
                                    (
                                        FrameOfDataV {
                                            frame_number: head.frame_number,
                                            marker_sets: head.marker_sets,
                                            other_markers: head.other_markers,
                                            rigid_bodies: head.rigid_bodies,
                                            skeletons: head.skeletons,
                                            labeled_markers: head.labeled_markers,
                                            force_plates: head.force_plates,
                                            latency,
                                            timecode: Timecode { word: tc, subframe: tcs },
                                            timestamp,
                                            is_recording,
                                            tracked_models_changed: changed,
                                        },
                                        p14,
                                    ),
                                )
                            } else {
                                Err(ParseError::UnknownError)
                            },
                        },
                    },
                },
            },
        },
    }
}

/// The layout of a whole frame, in order: frame number; named marker
/// sets; unlabeled markers; rigid bodies; skeletons; labeled markers;
/// force plates (2.9.0 on); then the fixed tail
/// ([`spec_unpack_frame_tail`]).
pub open spec fn spec_unpack_frame(b: Seq<u8>, pos: int, ver: ProtocolVersion) -> Result<
    (FrameOfDataV, int),
    ParseError,
> {
    match spec_read_i32(b, pos) {
        Err(e) => Err(e),
        Ok((frame_number, p1)) => match spec_read_i32(b, p1) {
            Err(e) => Err(e),
            Ok((n_sets, p2)) => match spec_parse_marker_sets(
                b,
                p2,
                count_nat(n_sets),
                ver,
                Seq::empty(),
            ) {
                Err(e) => Err(e),
                Ok((marker_sets, p3)) => match spec_unpack_vec_of(
                    b,
                    p3,
                    parser_of::<Marker>(ver),
                ) {
                    Err(e) => Err(e),
                    Ok((other_markers, p4)) => match spec_unpack_vec_of(
                        b,
                        p4,
                        parser_of::<RigidBody>(ver),
                    ) {
                        Err(e) => Err(e),
                        Ok((rigid_bodies, p5)) => match spec_unpack_vec_of(
                            b,
                            p5,
                            parser_of::<Skeleton>(ver),
                        ) {
                            Err(e) => Err(e),
                            Ok((skeletons, p6)) => match spec_unpack_vec_of(
                                b,
                                p6,
                                parser_of::<LabeledMarker>(ver),
                            ) {
                                Err(e) => Err(e),
                                Ok((labeled_markers, p7)) => match (if spec_has_force_plates(
                                    ver,
                                ) {
                                    match spec_unpack_vec_of(
                                        b,
                                        p7,
                                        parser_of::<ForcePlate>(ver),
                                    ) {
                                        Err(e) => Err(e),
                                        Ok((fp, p8)) => Ok((Some(fp), p8)),
                                    }
                                } else {
                                    Ok((None, p7))
                                }) {
                                    Err(e) => Err(e),
                                    Ok((force_plates, p8)) => spec_unpack_frame_tail(
                                        b,
                                        p8,
                                        ver,
                                        FrameHeadV {
                                            frame_number,
                                            marker_sets,
                                            other_markers,
                                            rigid_bodies,
                                            skeletons,
                                            labeled_markers,
                                            force_plates,
                                        },
                                    ),
                                },
                            },
                        },
                    },
                },
            },
        },
    }
}

impl Unpack for FrameOfData {
    open spec fn spec_unpack(b: Seq<u8>, pos: int, ver: ProtocolVersion) -> Result<
        (FrameOfDataV, int),
        ParseError,
    > {
        spec_unpack_frame(b, pos, ver)
    }

    fn unpack(ver: &ProtocolVersion, src: &mut ByteSource) -> (r: Result<FrameOfData, ParseError>)
    {
        let ghost b = src.spec_data();
        let frame_number = match src.read_i32() {
            Ok(v) => v,
            Err(e) => { return Err(e) },
        };
        let n_sets = match src.read_i32() {
            Ok(v) => v,
            Err(e) => { return Err(e) },
        };
        let ghost p_sets = src.spec_pos();
        let mut marker_sets = MarkerSetMap::new();
        let mut i: i32 = 0;
        while i < n_sets
            invariant
                b == old(src).spec_data(),
                src.spec_data() == b,
                old(src).spec_pos() <= p_sets <= src.spec_pos(),
                0 <= i as int <= count_nat(n_sets),
                spec_parse_marker_sets(b, p_sets, count_nat(n_sets), *ver, Seq::empty())
                    == spec_parse_marker_sets(
                    b,
                    src.spec_pos(),
                    (count_nat(n_sets) - i as int) as nat,
                    *ver,
                    marker_sets@,
                ),
                spec_read_i32(b, old(src).spec_pos()) == Ok::<(i32, int), ParseError>(
                    (frame_number, old(src).spec_pos() + 4),
                ),
                spec_read_i32(b, old(src).spec_pos() + 4) == Ok::<(i32, int), ParseError>(
                    (n_sets, p_sets),
                ),
            decreases n_sets - i,
        {
            let ghost cur = src.spec_pos();
            let ghost acc0 = marker_sets@;
            let name = match src.read_cstring() {
                Ok(v) => v,
                Err(e) => { return Err(e) },
            };
            let markers = match unpack_vec::<Marker>(ver, src) {
                Ok(v) => v,
                Err(e) => { return Err(e) },
            };
            proof {
                assert(markers.deep_view() =~= markers@);
            }
            marker_sets.insert(name, markers);
            i = i + 1;
        }
        let other_markers = match unpack_vec::<Marker>(ver, src) {
            Ok(v) => v,
            Err(e) => { return Err(e) },
        };
        let rigid_bodies = match unpack_vec::<RigidBody>(ver, src) {
            Ok(v) => v,
            Err(e) => { return Err(e) },
        };
        let skeletons = match unpack_vec::<Skeleton>(ver, src) {
            Ok(v) => v,
            Err(e) => { return Err(e) },
        };
        let labeled_markers = match unpack_vec::<LabeledMarker>(ver, src) {
            Ok(v) => v,
            Err(e) => { return Err(e) },
        };
        let force_plates = if has_force_plates(ver) {
            match unpack_vec::<ForcePlate>(ver, src) {
                Ok(v) => Some(v),
                Err(e) => { return Err(e) },
            }
        } else {
            None
        };
        let latency = match src.read_u32() {
            Ok(v) => v,
            Err(e) => { return Err(e) },
        };
        let tc = match src.read_u32() {
            Ok(v) => v,
            Err(e) => { return Err(e) },
        };
        let tcs = match src.read_u32() {
            Ok(v) => v,
            Err(e) => { return Err(e) },
        };
        let timestamp = if timestamp_is_double(ver) {
            match src.read_u64() {
                Ok(v) => Some(Timestamp::Double(v)),
                Err(e) => { return Err(e) },
            }
        } else if timestamp_is_single(ver) {
            match src.read_u32() {
                Ok(v) => Some(Timestamp::Single(v)),
                Err(e) => { return Err(e) },
            }
        } else {
            None
        };
        let (is_recording, tracked_models_changed) = if has_optional_flags(ver) {
            let params = match src.read_u16() {
                Ok(v) => v,
                Err(e) => { return Err(e) },
            };
            (Some(params & 0x01 > 0), Some(params & 0x02 > 0))
        } else {
            (None, None)
        };
        let eod = match src.read_i32() {
            Ok(v) => v,
            Err(e) => { return Err(e) },
        };
        if eod == 0 {
            proof {
                assert(other_markers.deep_view() =~= other_markers@);
                assert(labeled_markers.deep_view() =~= labeled_markers@);
            }
            Ok(
                FrameOfData {
                    frame_number,
                    marker_sets,
                    other_markers,
                    rigid_bodies,
                    skeletons,
                    labeled_markers,
                    force_plates,
                    latency,
                    timecode: Timecode { word: tc, subframe: tcs },
                    timestamp,
                    is_recording,
                    tracked_models_changed,
                },
            )
        } else {
            Err(ParseError::UnknownError)
        }
    }
}

} // verus!
