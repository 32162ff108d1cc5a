use fyanrirt::codec::{decode, encode, fits, try_encode, FrameDecodeError};
use fyanrirt::command::{Bind, BindResp, Body, Frame, MessageResp, ShortMessage};

fn bind() -> Bind {
    Bind {
        system_id: b"smppclient1".to_vec(),
        password: b"password".to_vec(),
        system_type: b"test".to_vec(),
        interface_version: 0x34,
        addr_ton: 0,
        addr_npi: 0,
        address_range: Vec::new(),
    }
}

fn message() -> ShortMessage {
    ShortMessage {
        service_type: Vec::new(),
        source_addr_ton: 0,
        source_addr_npi: 0,
        source_addr: b"Alice".to_vec(),
        dest_addr_ton: 0,
        dest_addr_npi: 0,
        destination_addr: b"375291234567".to_vec(),
        esm_class: 0x10,
        protocol_id: 0,
        priority_flag: 0,
        schedule_delivery_time: Vec::new(),
        validity_period: Vec::new(),
        registered_delivery: 0x1d,
        replace_if_present_flag: 0,
        data_coding: 8,
        sm_default_msg_id: 0,
        short_message: vec![0x00, 0x48, 0x00, 0x69],
        optional: Vec::new(),
    }
}

fn frame(status: u32, sequence: u32, body: Body) -> Frame {
    Frame { command_status: status, sequence_number: sequence, body }
}

fn every_variant() -> Vec<Frame> {
    let mut with_optional = message();
    with_optional.optional = vec![0x02, 0x04, 0x00, 0x02, 0x00, 0x07];
    with_optional.short_message = vec![0, 1, 2, 0, 255];
    vec![
        frame(0, 1, Body::BindTransceiver(bind())),
        frame(
            0,
            1,
            Body::BindTransceiverResp(BindResp {
                system_id: b"SMSC".to_vec(),
                optional: vec![0x02, 0x10, 0x00, 0x01, 0x34],
            }),
        ),
        frame(0x0000_000d, 1, Body::BindTransceiverResp(BindResp { system_id: Vec::new(), optional: Vec::new() })),
        frame(0, 2, Body::SubmitSm(message())),
        frame(0, 0x7fff_ffff, Body::SubmitSm(with_optional.clone())),
        frame(0, 2, Body::SubmitSmResp(MessageResp { message_id: b"abc123".to_vec(), optional: Vec::new() })),
        frame(0x45, 2, Body::SubmitSmResp(MessageResp { message_id: Vec::new(), optional: Vec::new() })),
        frame(0, 9, Body::DeliverSm(with_optional)),
        frame(0, 9, Body::DeliverSmResp(MessageResp { message_id: Vec::new(), optional: Vec::new() })),
        frame(0, 3, Body::Unbind),
        frame(0, 3, Body::UnbindResp),
        frame(0, 4, Body::Other { command_id: 0x0000_0015, body: Vec::new() }),
        frame(3, 0xffff_ffff, Body::Other { command_id: 0x8000_0000, body: vec![1, 0, 2, 0, 0] }),
    ]
}

#[test]
fn unbind_is_a_bare_header() {
    let unbind = frame(0, 3, Body::Unbind);
    assert!(unbind.is_valid());
    let bytes = encode(&unbind);
    assert_eq!(bytes, vec![0, 0, 0, 16, 0, 0, 0, 6, 0, 0, 0, 0, 0, 0, 0, 3]);
    assert_eq!(decode(&bytes, 1024), (Ok(Some(unbind)), 16));
}

#[test]
fn unbind_resp_is_a_bare_header() {
    let bytes = encode(&frame(0, 3, Body::UnbindResp));
    assert_eq!(bytes, vec![0, 0, 0, 16, 0x80, 0, 0, 6, 0, 0, 0, 0, 0, 0, 0, 3]);
}

#[test]
fn bind_transceiver_bytes() {
    let bytes = encode(&frame(0, 1, Body::BindTransceiver(bind())));
    let mut expected = vec![0, 0, 0, 46, 0, 0, 0, 9, 0, 0, 0, 0, 0, 0, 0, 1];
    expected.extend_from_slice(b"smppclient1\0");
    expected.extend_from_slice(b"password\0");
    expected.extend_from_slice(b"test\0");
    expected.extend_from_slice(&[0x34, 0, 0, 0]);
    assert_eq!(bytes.len(), 46);
    assert_eq!(bytes, expected);
}

#[test]
fn submit_sm_bytes() {
    let bytes = encode(&frame(0, 2, Body::SubmitSm(message())));
    let mut expected = vec![0, 0, 0, 54, 0, 0, 0, 4, 0, 0, 0, 0, 0, 0, 0, 2];
    expected.extend_from_slice(&[0]); // service type
    expected.extend_from_slice(&[0, 0]);
    expected.extend_from_slice(b"Alice\0");
    expected.extend_from_slice(&[0, 0]);
    expected.extend_from_slice(b"375291234567\0");
    expected.extend_from_slice(&[0x10, 0, 0]); // esm class, protocol id, priority
    expected.extend_from_slice(&[0, 0]); // schedule delivery time, validity period
    expected.extend_from_slice(&[0x1d, 0, 8, 0]);
    expected.extend_from_slice(&[4, 0x00, 0x48, 0x00, 0x69]);
    assert_eq!(bytes, expected);
}

#[test]
fn sequence_and_status_are_big_endian() {
    let bytes = encode(&frame(0x0102_0304, 0xa1b2_c3d4, Body::UnbindResp));
    assert_eq!(&bytes[8..12], &[1, 2, 3, 4]);
    assert_eq!(&bytes[12..16], &[0xa1, 0xb2, 0xc3, 0xd4]);
}

#[test]
fn every_variant_round_trips() {
    for f in every_variant() {
        assert!(f.is_valid());
        let bytes = encode(&f);
        assert_eq!(bytes.len() as u32, f.command_length());
        assert_eq!(&bytes[4..8], &f.command_id().to_be_bytes());
        assert_eq!(decode(&bytes, 4096), (Ok(Some(f)), bytes.len()));
    }
}

#[test]
fn round_trip_ignores_what_follows() {
    for f in every_variant() {
        let mut bytes = encode(&f);
        let n = bytes.len();
        bytes.extend_from_slice(&[0, 0, 0]);
        assert_eq!(decode(&bytes, 4096), (Ok(Some(f)), n));
    }
}

#[test]
fn frames_in_a_row_are_read_one_by_one() {
    let first = frame(0, 2, Body::SubmitSmResp(MessageResp { message_id: b"a".to_vec(), optional: Vec::new() }));
    let second = frame(0, 3, Body::UnbindResp);
    let mut bytes = encode(&first);
    let split = bytes.len();
    bytes.extend_from_slice(&encode(&second));
    assert_eq!(decode(&bytes, 4096), (Ok(Some(first)), split));
    assert_eq!(decode(&bytes[split..], 4096), (Ok(Some(second)), 16));
    assert_eq!(decode(&bytes[split + 16..], 4096), (Ok(None), 0));
}

#[test]
fn a_partial_frame_waits_for_more() {
    let bytes = encode(&frame(0, 1, Body::BindTransceiver(bind())));
    for n in 0..bytes.len() {
        assert_eq!(decode(&bytes[..n], 4096), (Ok(None), 0));
    }
}

#[test]
fn declared_length_below_header_is_malformed() {
    for declared in 0..16u8 {
        let bytes = vec![0, 0, 0, declared, 0, 0, 0, 6, 0, 0, 0, 0, 0, 0, 0, 3];
        assert_eq!(decode(&bytes, 1024), (Err(FrameDecodeError::Malformed), 0));
    }
    // four bytes are enough to tell
    assert_eq!(decode(&[0, 0, 0, 15], 1024), (Err(FrameDecodeError::Malformed), 0));
    assert_eq!(decode(&[0, 0, 0], 1024), (Ok(None), 0));
}

#[test]
fn declared_length_above_maximum_is_too_large() {
    let bytes = encode(&frame(0, 1, Body::BindTransceiver(bind())));
    assert_eq!(bytes.len(), 46);
    assert_eq!(decode(&bytes, 45), (Err(FrameDecodeError::TooLarge), 0));
    assert!(matches!(decode(&bytes, 46), (Ok(Some(_)), 46)));
    assert_eq!(decode(&[0xff, 0xff, 0xff, 0xff], 0xffff_fffe), (Err(FrameDecodeError::TooLarge), 0));
    assert_eq!(decode(&[0xff, 0xff, 0xff, 0xff], 0xffff_ffff), (Ok(None), 0));
}

#[test]
fn malformed_wins_over_too_large() {
    assert_eq!(decode(&[0, 0, 0, 8], 4), (Err(FrameDecodeError::Malformed), 0));
}

#[test]
fn a_body_cut_short_is_truncated_and_skipped() {
    let whole = encode(&frame(0, 2, Body::SubmitSm(message())));
    // declare five bytes fewer: the content is cut off
    let mut bytes = whole[..whole.len() - 5].to_vec();
    bytes[3] = (whole.len() - 5) as u8;
    let next = encode(&frame(0, 3, Body::UnbindResp));
    let n = bytes.len();
    bytes.extend_from_slice(&next);
    assert_eq!(decode(&bytes, 4096), (Err(FrameDecodeError::Truncated), n));
    assert!(matches!(decode(&bytes[n..], 4096), (Ok(Some(_)), 16)));
}

#[test]
fn a_body_where_none_belongs_is_truncated() {
    let bytes = vec![0, 0, 0, 17, 0, 0, 0, 6, 0, 0, 0, 0, 0, 0, 0, 3, 0];
    assert_eq!(decode(&bytes, 4096), (Err(FrameDecodeError::Truncated), 17));
    let bytes = vec![0, 0, 0, 17, 0x80, 0, 0, 6, 0, 0, 0, 0, 0, 0, 0, 3, 9];
    assert_eq!(decode(&bytes, 4096), (Err(FrameDecodeError::Truncated), 17));
}

#[test]
fn bytes_behind_a_bind_request_are_truncated() {
    let mut bytes = encode(&frame(0, 1, Body::BindTransceiver(bind())));
    bytes.push(7);
    bytes[3] += 1;
    assert_eq!(decode(&bytes, 4096), (Err(FrameDecodeError::Truncated), 47));
}

#[test]
fn a_string_over_its_limit_is_truncated() {
    // a system identifier of sixteen bytes before its zero
    let mut bytes = vec![0, 0, 0, 33, 0x80, 0, 0, 9, 0, 0, 0, 0, 0, 0, 0, 1];
    bytes.extend_from_slice(b"0123456789abcdef\0");
    assert_eq!(decode(&bytes, 4096), (Err(FrameDecodeError::Truncated), 33));
    // fifteen fit
    let mut bytes = vec![0, 0, 0, 32, 0x80, 0, 0, 9, 0, 0, 0, 0, 0, 0, 0, 1];
    bytes.extend_from_slice(b"0123456789abcde\0");
    let expected = frame(
        0,
        1,
        Body::BindTransceiverResp(BindResp { system_id: b"0123456789abcde".to_vec(), optional: Vec::new() }),
    );
    assert_eq!(decode(&bytes, 4096), (Ok(Some(expected)), 32));
}

#[test]
fn a_string_without_its_zero_is_truncated() {
    let mut bytes = vec![0, 0, 0, 19, 0x80, 0, 0, 4, 0, 0, 0, 0, 0, 0, 0, 2];
    bytes.extend_from_slice(b"abc");
    assert_eq!(decode(&bytes, 4096), (Err(FrameDecodeError::Truncated), 19));
}

#[test]
fn content_longer_than_the_body_is_truncated() {
    let mut bytes = encode(&frame(0, 2, Body::DeliverSm(message())));
    let at = bytes.len() - 5;
    assert_eq!(bytes[at], 4);
    bytes[at] = 5;
    assert_eq!(decode(&bytes, 4096), (Err(FrameDecodeError::Truncated), bytes.len()));
}

#[test]
fn an_answer_without_body_reads_as_empty() {
    let bytes = vec![0, 0, 0, 16, 0x80, 0, 0, 9, 0, 0, 0, 0x0d, 0, 0, 0, 1];
    let expected = frame(0x0d, 1, Body::BindTransceiverResp(BindResp { system_id: Vec::new(), optional: Vec::new() }));
    assert_eq!(decode(&bytes, 4096), (Ok(Some(expected)), 16));
    let bytes = vec![0, 0, 0, 16, 0x80, 0, 0, 4, 0, 0, 0, 0x45, 0, 0, 0, 2];
    let expected = frame(0x45, 2, Body::SubmitSmResp(MessageResp { message_id: Vec::new(), optional: Vec::new() }));
    assert_eq!(decode(&bytes, 4096), (Ok(Some(expected)), 16));
    let bytes = vec![0, 0, 0, 16, 0x80, 0, 0, 5, 0, 0, 0, 0, 0, 0, 0, 2];
    let expected = frame(0, 2, Body::DeliverSmResp(MessageResp { message_id: Vec::new(), optional: Vec::new() }));
    assert_eq!(decode(&bytes, 4096), (Ok(Some(expected)), 16));
}

#[test]
fn optional_parameters_are_kept_as_they_came() {
    let mut bytes = vec![0, 0, 0, 26, 0x80, 0, 0, 9, 0, 0, 0, 0, 0, 0, 0, 1];
    bytes.extend_from_slice(b"SMSC\0");
    bytes.extend_from_slice(&[0x02, 0x10, 0x00, 0x01, 0x34]);
    let expected = frame(
        0,
        1,
        Body::BindTransceiverResp(BindResp {
            system_id: b"SMSC".to_vec(),
            optional: vec![0x02, 0x10, 0x00, 0x01, 0x34],
        }),
    );
    assert_eq!(decode(&bytes, 4096), (Ok(Some(expected.clone())), 26));
    assert_eq!(encode(&expected), bytes);
}

#[test]
fn an_unknown_command_keeps_its_raw_body() {
    // enquire_link, generic_nack, and an identifier that no version defines
    for id in [0x0000_0015u32, 0x8000_0000, 0x1234_5678, 0, 0x0000_0001, 0x8000_0001] {
        let mut bytes = vec![0, 0, 0, 21];
        bytes.extend_from_slice(&id.to_be_bytes());
        bytes.extend_from_slice(&[0, 0, 0, 8, 0, 0, 0, 77]);
        bytes.extend_from_slice(&[9, 0, 8, 0, 7]);
        let expected = frame(8, 77, Body::Other { command_id: id, body: vec![9, 0, 8, 0, 7] });
        assert_eq!(decode(&bytes, 4096), (Ok(Some(expected.clone())), 21));
        assert_eq!(expected.command_id(), id);
        assert_eq!(encode(&expected), bytes);
    }
}

#[test]
fn decode_looks_at_nothing_but_the_buffer() {
    let bytes = encode(&frame(0, 2, Body::SubmitSm(message())));
    let first = decode(&bytes, 4096);
    let _ = decode(&[0, 0, 0, 1], 4096);
    assert_eq!(decode(&bytes, 4096), first);
}

#[test]
fn invalid_frames_are_not_encoded() {
    let mut with_zero = bind();
    with_zero.system_id = b"ab\0cd".to_vec();
    let f = frame(0, 1, Body::BindTransceiver(with_zero));
    assert!(!f.is_valid());
    assert_eq!(try_encode(&f), None);

    let mut too_long = bind();
    too_long.password = b"123456789".to_vec();
    let f = frame(0, 1, Body::BindTransceiver(too_long));
    assert!(!f.is_valid());
    assert_eq!(try_encode(&f), None);

    let mut long_content = message();
    long_content.short_message = vec![b'x'; 256];
    let f = frame(0, 1, Body::SubmitSm(long_content));
    assert!(!f.is_valid());
    assert_eq!(try_encode(&f), None);

    // a known identifier has its own variant
    let f = frame(0, 1, Body::Other { command_id: 0x8000_0004, body: Vec::new() });
    assert!(!f.is_valid());
    assert_eq!(try_encode(&f), None);
}

#[test]
fn valid_frames_are_encoded_by_try_encode() {
    for f in every_variant() {
        assert_eq!(try_encode(&f), Some(encode(&f)));
    }
}

#[test]
fn limits_count_the_closing_zero() {
    assert!(fits(&b"123456789012345".to_vec(), 16));
    assert!(!fits(&b"1234567890123456".to_vec(), 16));
    assert!(fits(&Vec::new(), 1));
    assert!(!fits(&Vec::new(), 0));
    assert!(!fits(&vec![b'a', 0], 16));
    assert!(fits(&vec![0x80, 0xff], 16));
}

#[test]
fn content_of_255_bytes_fits() {
    let mut m = message();
    m.short_message = (0..255u8).collect();
    let f = frame(0, 5, Body::SubmitSm(m));
    let bytes = encode(&f);
    assert_eq!(decode(&bytes, 4096), (Ok(Some(f)), bytes.len()));
}
