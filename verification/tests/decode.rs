use natnet_decode::model::DataSet;
use natnet_decode::{
    ByteSource, NatNet, NatNetMsgType, NatNetRequest, NatNetResponse, ParseError,
    ProtocolVersion, Timestamp,
};

fn push_u16(out: &mut Vec<u8>, v: u16) {
    out.extend_from_slice(&v.to_le_bytes());
}

fn push_i32(out: &mut Vec<u8>, v: i32) {
    out.extend_from_slice(&v.to_le_bytes());
}

fn push_u32(out: &mut Vec<u8>, v: u32) {
    out.extend_from_slice(&v.to_le_bytes());
}

fn push_f32(out: &mut Vec<u8>, v: f32) {
    out.extend_from_slice(&v.to_le_bytes());
}

fn push_f64(out: &mut Vec<u8>, v: f64) {
    out.extend_from_slice(&v.to_le_bytes());
}

fn push_cstring(out: &mut Vec<u8>, s: &str) {
    out.extend_from_slice(s.as_bytes());
    out.push(0);
}

fn push_marker(out: &mut Vec<u8>, x: f32, y: f32, z: f32) {
    push_f32(out, x);
    push_f32(out, y);
    push_f32(out, z);
}

fn at_least(v: (u64, u64, u64), t: (u64, u64, u64)) -> bool {
    v >= t
}

/// One frame-of-data message (with envelope), shaped like the fixtures
/// the original protocol clients exchange: two named marker sets, two
/// unlabeled markers, one rigid body, no skeletons, three labeled
/// markers, one force plate from 2.9.0 on.
fn build_frame_message(v: (u64, u64, u64), second_set: &str, others: i32) -> Vec<u8> {
    let flags = at_least(v, (2, 6, 0));
    let mut out = Vec::new();
    push_u16(&mut out, 7); // FrameOfData
    push_u16(&mut out, 0); // declared length (not load-bearing here)
    push_i32(&mut out, 42); // frame number
    push_i32(&mut out, 2); // marker sets
    push_cstring(&mut out, "all");
    push_i32(&mut out, 1);
    push_marker(&mut out, 1.0, 2.0, 3.0);
    push_cstring(&mut out, second_set);
    push_i32(&mut out, 1);
    push_marker(&mut out, 4.0, 5.0, 6.0);
    push_i32(&mut out, others); // unlabeled markers
    for i in 0..others {
        push_marker(&mut out, i as f32, 0.0, 0.0);
    }
    push_i32(&mut out, 1); // rigid bodies
    push_i32(&mut out, 7); // id
    push_marker(&mut out, 0.5, 0.5, 0.5);
    push_f32(&mut out, 0.0); // quaternion x
    push_f32(&mut out, 0.0);
    push_f32(&mut out, 0.0);
    push_f32(&mut out, 1.0);
    push_i32(&mut out, 1); // one marker
    push_marker(&mut out, 0.1, 0.2, 0.3);
    push_i32(&mut out, 11); // its id
    push_f32(&mut out, 0.05); // its size
    push_f32(&mut out, 0.001); // mean error
    if flags {
        push_u16(&mut out, 1); // valid track
    }
    push_i32(&mut out, 0); // skeletons
    push_i32(&mut out, 3); // labeled markers
    for i in 0..3 {
        push_i32(&mut out, 100 + i);
        push_marker(&mut out, 0.0, 1.0, 2.0);
        push_f32(&mut out, 0.02);
        if flags {
            push_u16(&mut out, 0b101);
        }
    }
    if at_least(v, (2, 9, 0)) {
        push_i32(&mut out, 1); // force plates
        push_i32(&mut out, 1); // plate id
        push_i32(&mut out, 1); // channels
        push_i32(&mut out, 2); // samples
        push_f32(&mut out, 9.8);
        push_f32(&mut out, 9.9);
    }
    push_f32(&mut out, 0.004); // latency
    push_u32(&mut out, 123); // timecode
    push_u32(&mut out, 456);
    if at_least(v, (2, 7, 0)) {
        push_f64(&mut out, 1.5);
    } else if at_least(v, (2, 6, 0)) {
        push_f32(&mut out, 1.5);
    }
    if flags {
        push_u16(&mut out, 0b11);
    }
    push_i32(&mut out, 0); // end-of-data marker
    out
}

/// One ping-response message: the sender descriptor with its fixed
/// 256-byte name slot, padded with the given filler byte.
fn build_ping_response(name: &str, natnet: (u8, u8, u8), filler: u8) -> Vec<u8> {
    let mut out = Vec::new();
    push_u16(&mut out, 1); // PingResponse
    push_u16(&mut out, 0);
    out.extend_from_slice(name.as_bytes());
    out.push(0);
    for _ in 0..(256 - name.len() - 1) {
        out.push(filler);
    }
    out.extend_from_slice(&[1, 5, 0, 9]); // application version
    out.extend_from_slice(&[natnet.0, natnet.1, natnet.2, 0]); // protocol version
    out
}

fn unpack(v: (u64, u64, u64), bytes: &[u8]) -> Result<NatNetResponse, ParseError> {
    let ver = ProtocolVersion::new(v.0, v.1, v.2);
    let mut src = ByteSource::new(bytes.to_vec());
    NatNet::unpack_with(&ver, &mut src)
}

#[test]
fn verions() {
    let versions = [(2u64, 5u64, 0u64), (2, 7, 0), (2, 9, 0)];
    for v in versions.iter() {
        let bytes = build_ping_response("NatNetLib", (v.0 as u8, v.1 as u8, v.2 as u8), 0);
        match unpack(*v, &bytes).unwrap() {
            NatNetResponse::Ping(sender) => {
                assert_eq!("NatNetLib", sender.name);
                assert_eq!(sender.natnet_version.major as u64, v.0);
                assert_eq!(sender.natnet_version.minor as u64, v.1);
                assert_eq!(sender.natnet_version.patch as u64, v.2);
            }
            _ => assert!(false),
        }
    }
}

#[test]
fn parse_2_5() {
    let bytes = build_frame_message((2, 5, 0), "Rigid Body 1", 2);
    if let NatNetResponse::FrameOfData(frame) = unpack((2, 5, 0), &bytes).unwrap() {
        assert!(frame.marker_sets.contains_key("all"));
        assert!(frame.marker_sets.contains_key("Rigid Body 1"));
        assert_eq!(frame.other_markers.len(), 2);
        assert_eq!(frame.rigid_bodies.len(), 1);
        assert_eq!(frame.skeletons.len(), 0);
        assert_eq!(frame.labeled_markers.len(), 3);
        assert!(frame.force_plates.is_none());
        assert!(frame.timestamp.is_none());
        assert!(frame.is_recording.is_none());
        assert!(frame.tracked_models_changed.is_none());
    } else {
        panic!("expected a frame of data");
    }
}

#[test]
fn parse_2_7() {
    let bytes = build_frame_message((2, 7, 0), "Rigid Body 1", 2);
    if let NatNetResponse::FrameOfData(frame) = unpack((2, 7, 0), &bytes).unwrap() {
        assert!(frame.marker_sets.contains_key("all"));
        assert!(frame.marker_sets.contains_key("Rigid Body 1"));
        assert_eq!(frame.other_markers.len(), 2);
        assert_eq!(frame.rigid_bodies.len(), 1);
        assert_eq!(frame.skeletons.len(), 0);
        assert_eq!(frame.labeled_markers.len(), 3);
        assert!(frame.force_plates.is_none());
        assert!(frame.timestamp.is_some());
        assert!(frame.is_recording.is_some());
        assert!(frame.tracked_models_changed.is_some());
    } else {
        panic!("expected a frame of data");
    }
}

#[test]
fn parse_2_9() {
    let bytes = build_frame_message((2, 9, 0), "Triangle", 0);
    if let NatNetResponse::FrameOfData(frame) = unpack((2, 9, 0), &bytes).unwrap() {
        assert!(frame.marker_sets.contains_key("all"));
        assert!(frame.marker_sets.contains_key("Triangle"));
        assert_eq!(frame.other_markers.len(), 0);
        assert_eq!(frame.rigid_bodies.len(), 1);
        assert_eq!(frame.skeletons.len(), 0);
        assert_eq!(frame.labeled_markers.len(), 3);
        assert!(frame.force_plates.is_some());
        assert!(frame.timestamp.is_some());
        assert!(frame.is_recording.is_some());
        assert!(frame.tracked_models_changed.is_some());
    } else {
        panic!("expected a frame of data");
    }
}

#[test]
fn version_gate_thresholds() {
    // 2.5.0: nothing optional; 2.6.0: flags and a 32-bit timestamp;
    // 2.7.0: 64-bit timestamp; 2.9.0: force plates too.
    for v in [(2u64, 5u64, 0u64), (2, 6, 0), (2, 7, 0), (2, 9, 0)] {
        let bytes = build_frame_message(v, "Rigid Body 1", 2);
        if let NatNetResponse::FrameOfData(frame) = unpack(v, &bytes).unwrap() {
            assert_eq!(frame.is_recording.is_some(), v >= (2, 6, 0));
            assert_eq!(frame.tracked_models_changed.is_some(), v >= (2, 6, 0));
            assert_eq!(frame.timestamp.is_some(), v >= (2, 6, 0));
            assert_eq!(
                matches!(frame.timestamp, Some(Timestamp::Double(_))),
                v >= (2, 7, 0)
            );
            assert_eq!(
                matches!(frame.timestamp, Some(Timestamp::Single(_))),
                v == (2, 6, 0)
            );
            assert_eq!(frame.force_plates.is_some(), v >= (2, 9, 0));
        } else {
            panic!("expected a frame of data");
        }
    }
}

#[test]
fn ping_request_envelope() {
    let bytes = NatNetRequest::Ping(vec![b'X']).into_bytes();
    assert_eq!(bytes, vec![0, 0, 2, 0, b'X', 0]);
    let msg_type = u16::from_le_bytes([bytes[0], bytes[1]]);
    let declared_len = u16::from_le_bytes([bytes[2], bytes[3]]);
    assert_eq!(msg_type, 0);
    assert_eq!(declared_len, 2);
}

#[test]
fn decode_twice_equal() {
    let bytes = build_frame_message((2, 9, 0), "Triangle", 1);
    let first = unpack((2, 9, 0), &bytes).unwrap();
    let second = unpack((2, 9, 0), &bytes).unwrap();
    assert_eq!(first, second);
}

#[test]
fn truncation_gives_not_enough_bytes() {
    let bytes = build_frame_message((2, 9, 0), "Triangle", 2);
    for k in 0..bytes.len() {
        let result = unpack((2, 9, 0), &bytes[..k]);
        assert_eq!(result, Err(ParseError::NotEnoughBytes));
    }
}

#[test]
fn end_marker_flip_is_structural_mismatch() {
    for marker in [[1u8, 0, 0, 0], [0, 0, 0, 0x80], [0xFF, 0xFF, 0xFF, 0xFF]] {
        let mut bytes = build_frame_message((2, 7, 0), "Rigid Body 1", 2);
        let n = bytes.len();
        bytes[n - 4..].copy_from_slice(&marker);
        assert_eq!(unpack((2, 7, 0), &bytes), Err(ParseError::UnknownError));
    }
}

#[test]
fn response_length_quirk() {
    // A declared length of exactly 4 selects the integer response.
    let mut int_msg = Vec::new();
    push_u16(&mut int_msg, 3);
    push_u16(&mut int_msg, 4);
    push_i32(&mut int_msg, 1);
    assert_eq!(
        unpack((2, 7, 0), &int_msg).unwrap(),
        NatNetResponse::Response(1)
    );
    // Any other declared length selects the text response.
    let mut text_msg = Vec::new();
    push_u16(&mut text_msg, 3);
    push_u16(&mut text_msg, 3);
    push_cstring(&mut text_msg, "ok");
    assert_eq!(
        unpack((2, 7, 0), &text_msg).unwrap(),
        NatNetResponse::ResponseString(String::from("ok"))
    );
}

#[test]
fn oversized_ping_request_is_truncated() {
    let name = vec![b'a'; 100_000];
    let bytes = NatNetRequest::Ping(name).into_bytes();
    assert_eq!(bytes.len(), 65535);
    assert_eq!(bytes[bytes.len() - 1], 0);
    assert_eq!(&bytes[0..2], &[0, 0]);
    assert_eq!(u16::from_le_bytes([bytes[2], bytes[3]]), 65531);
}

#[test]
fn fixed_shape_requests() {
    let model: Vec<u8> = NatNetRequest::ModelDefinitions.into_bytes();
    assert_eq!(model, vec![4, 0, 0, 0]);
    let frame: Vec<u8> = NatNetRequest::FrameOfData.into_bytes();
    assert_eq!(frame, vec![6, 0, 0, 0]);
}

#[test]
fn model_definitions_decode() {
    let mut msg = Vec::new();
    push_u16(&mut msg, 5); // ModelDef
    push_u16(&mut msg, 0);
    push_i32(&mut msg, 3);
    push_i32(&mut msg, 0); // marker set descriptor
    push_cstring(&mut msg, "hand");
    push_i32(&mut msg, 2);
    push_cstring(&mut msg, "thumb");
    push_cstring(&mut msg, "index");
    push_i32(&mut msg, 1); // rigid body descriptor
    push_cstring(&mut msg, "wand");
    push_i32(&mut msg, 9);
    push_i32(&mut msg, 0);
    push_f32(&mut msg, 0.0);
    push_f32(&mut msg, 1.0);
    push_f32(&mut msg, 2.0);
    push_i32(&mut msg, 2); // skeleton descriptor
    push_cstring(&mut msg, "body");
    push_i32(&mut msg, 3);
    push_i32(&mut msg, 1);
    push_cstring(&mut msg, "bone");
    push_i32(&mut msg, 4);
    push_i32(&mut msg, 3);
    push_f32(&mut msg, 0.0);
    push_f32(&mut msg, 0.0);
    push_f32(&mut msg, 0.0);
    match unpack((2, 7, 0), &msg).unwrap() {
        NatNetResponse::ModelDef(models) => {
            assert_eq!(models.len(), 3);
            match &models[0] {
                DataSet::MarkerSet(m) => {
                    assert_eq!(m.name, "hand");
                    assert_eq!(m.markers, vec!["thumb".to_string(), "index".to_string()]);
                }
                _ => panic!("expected a marker set descriptor"),
            }
            match &models[1] {
                DataSet::RigidBody(r) => {
                    assert_eq!(r.name, "wand");
                    assert_eq!(r.id, 9);
                    assert_eq!(r.parent_id, 0);
                    assert_eq!(r.offset.y, 1.0f32.to_bits());
                }
                _ => panic!("expected a rigid body descriptor"),
            }
            match &models[2] {
                DataSet::Skeleton(s) => {
                    assert_eq!(s.name, "body");
                    assert_eq!(s.id, 3);
                    assert_eq!(s.bones.len(), 1);
                    assert_eq!(s.bones[0].name, "bone");
                }
                _ => panic!("expected a skeleton descriptor"),
            }
        }
        _ => panic!("expected model definitions"),
    }
}

#[test]
fn unknown_model_discriminant_fails() {
    let mut msg = Vec::new();
    push_u16(&mut msg, 5);
    push_u16(&mut msg, 0);
    push_i32(&mut msg, 1);
    push_i32(&mut msg, 7); // no such descriptor kind
    assert_eq!(unpack((2, 7, 0), &msg), Err(ParseError::UnknownError));
}

#[test]
fn unknown_message_type_is_reported() {
    let mut msg = Vec::new();
    push_u16(&mut msg, 42);
    push_u16(&mut msg, 0);
    assert_eq!(unpack((2, 7, 0), &msg), Err(ParseError::UnknownResponse(42)));
}

#[test]
fn unrecognized_request_decodes() {
    let mut msg = Vec::new();
    push_u16(&mut msg, 100);
    push_u16(&mut msg, 0);
    assert_eq!(
        unpack((2, 7, 0), &msg).unwrap(),
        NatNetResponse::UnrecognizedRequest
    );
}

#[test]
fn invalid_text_is_string_error() {
    let mut msg = Vec::new();
    push_u16(&mut msg, 8); // MessageString
    push_u16(&mut msg, 0);
    msg.extend_from_slice(&[0xFF, 0xFE, 0]);
    assert_eq!(unpack((2, 7, 0), &msg), Err(ParseError::StringError));
}

#[test]
fn unterminated_text_is_truncation() {
    let mut msg = Vec::new();
    push_u16(&mut msg, 8);
    push_u16(&mut msg, 0);
    msg.extend_from_slice(b"hello");
    assert_eq!(unpack((2, 7, 0), &msg), Err(ParseError::NotEnoughBytes));
}

#[test]
fn sender_slot_skips_garbage_padding() {
    // The name slot's unused bytes may hold anything; the cursor must
    // land exactly at the version fields.
    let bytes = build_ping_response("Motive", (2, 7, 0), 0xAB);
    match unpack((2, 7, 0), &bytes).unwrap() {
        NatNetResponse::Ping(sender) => {
            assert_eq!(sender.name, "Motive");
            assert_eq!(sender.version.major, 1);
            assert_eq!(sender.version.minor, 5);
            assert_eq!(sender.version.build, 9);
            assert_eq!(sender.natnet_version.major, 2);
            assert_eq!(sender.natnet_version.minor, 7);
        }
        _ => panic!("expected a sender descriptor"),
    }
}

#[test]
fn duplicate_marker_set_keeps_last() {
    let mut msg = Vec::new();
    push_u16(&mut msg, 7);
    push_u16(&mut msg, 0);
    push_i32(&mut msg, 42);
    push_i32(&mut msg, 2); // two sets with the same name
    push_cstring(&mut msg, "all");
    push_i32(&mut msg, 1);
    push_marker(&mut msg, 1.0, 1.0, 1.0);
    push_cstring(&mut msg, "all");
    push_i32(&mut msg, 1);
    push_marker(&mut msg, 2.0, 2.0, 2.0);
    push_i32(&mut msg, 0); // others
    push_i32(&mut msg, 0); // rigid bodies
    push_i32(&mut msg, 0); // skeletons
    push_i32(&mut msg, 0); // labeled
    push_f32(&mut msg, 0.0); // latency
    push_u32(&mut msg, 0);
    push_u32(&mut msg, 0);
    push_i32(&mut msg, 0); // end marker
    if let NatNetResponse::FrameOfData(frame) = unpack((2, 5, 0), &msg).unwrap() {
        assert_eq!(frame.marker_sets.len(), 1);
        let markers = frame.marker_sets.get("all").unwrap();
        assert_eq!(markers.len(), 1);
        assert_eq!(markers[0].x, 2.0f32.to_bits());
    } else {
        panic!("expected a frame of data");
    }
}

#[test]
fn rigid_body_parallel_sequences() {
    let bytes = build_frame_message((2, 7, 0), "Rigid Body 1", 2);
    if let NatNetResponse::FrameOfData(frame) = unpack((2, 7, 0), &bytes).unwrap() {
        let body = &frame.rigid_bodies[0];
        assert_eq!(body.id, 7);
        assert_eq!(body.markers.len(), 1);
        assert_eq!(body.marker_ids, vec![11]);
        assert_eq!(body.marker_sizes, vec![0.05f32.to_bits()]);
        assert_eq!(body.orientation.w, 1.0f32.to_bits());
        assert_eq!(body.valid_track, Some(true));
    } else {
        panic!("expected a frame of data");
    }
}

#[test]
fn labeled_marker_flag_bits() {
    let bytes = build_frame_message((2, 7, 0), "Rigid Body 1", 2);
    if let NatNetResponse::FrameOfData(frame) = unpack((2, 7, 0), &bytes).unwrap() {
        let m = &frame.labeled_markers[0];
        assert_eq!(m.id, 100);
        assert_eq!(m.occluded, Some(true));
        assert_eq!(m.point_cloud_solved, Some(false));
        assert_eq!(m.model_solved, Some(true));
    } else {
        panic!("expected a frame of data");
    }
}

#[test]
fn force_plate_channels_are_ragged() {
    let bytes = build_frame_message((2, 9, 0), "Triangle", 0);
    if let NatNetResponse::FrameOfData(frame) = unpack((2, 9, 0), &bytes).unwrap() {
        let plates = frame.force_plates.unwrap();
        assert_eq!(plates.len(), 1);
        assert_eq!(plates[0].id, 1);
        assert_eq!(plates[0].channels.len(), 1);
        assert_eq!(
            plates[0].channels[0],
            vec![9.8f32.to_bits(), 9.9f32.to_bits()]
        );
    } else {
        panic!("expected a frame of data");
    }
}

#[test]
fn unpack_type_filters_by_type() {
    let ver = ProtocolVersion::new(2, 7, 0);
    let parser = NatNet::new(ver);
    let bytes = build_ping_response("NatNetLib", (2, 7, 0), 0);
    // Matching type: the body decodes.
    let mut src = ByteSource::new(bytes.clone());
    match parser.unpack_type(NatNetMsgType::PingResponse, &mut src) {
        Some(Ok(NatNetResponse::Ping(sender))) => assert_eq!(sender.name, "NatNetLib"),
        _ => panic!("expected a matching ping response"),
    }
    // Other type wanted: a uniform no-match.
    let mut src = ByteSource::new(bytes);
    assert!(parser
        .unpack_type(NatNetMsgType::FrameOfData, &mut src)
        .is_none());
    // Unreadable envelope: also a uniform no-match.
    let mut src = ByteSource::new(vec![7]);
    assert!(parser
        .unpack_type(NatNetMsgType::FrameOfData, &mut src)
        .is_none());
}

#[test]
fn version_ordering_is_lexicographic() {
    let v = ProtocolVersion::new(2, 6, 3);
    assert!(v.at_least(2, 6, 0));
    assert!(v.at_least(2, 6, 3));
    assert!(v.at_least(1, 9, 9));
    assert!(!v.at_least(2, 7, 0));
    assert!(!v.at_least(3, 0, 0));
    assert_eq!(ProtocolVersion::new(2, 6, 3), v);
}

#[test]
fn parser_uses_its_version() {
    let parser = NatNet::new(ProtocolVersion::new(2, 5, 0));
    let bytes = build_frame_message((2, 5, 0), "Rigid Body 1", 2);
    let mut src = ByteSource::new(bytes);
    match parser.unpack(&mut src) {
        Ok(NatNetResponse::FrameOfData(frame)) => assert_eq!(frame.frame_number, 42),
        _ => panic!("expected a frame of data"),
    }
}
