//! Message-grammar checks: id dispatch, the flag table, every message
//! kind, frames, frame sets, and acknowledgement records.

use rodust_raknet::packets::{
    decode_packet, Ack, ConnPing, ConnPong, ConnReq, ConnReqAccept, Flag, Fragment, Frame,
    FramePacketId, FrameSet, Incompatible, Nack, NewConn, OConnReply1, OConnReply2, OConnReq1,
    OConnReq2, Order, Packet, PacketError, PacketId, Record, SecurityState, UConnConnPing,
    UConnPing, UConnPong,
};
use rodust_raknet::types::{Addr, DataError, Magic, SizedBuffer};

fn loaded(data: &[u8]) -> SizedBuffer<256> {
    let mut buf = SizedBuffer::<256>::new();
    buf.load(data).unwrap();
    buf
}

fn sample_magic() -> Vec<u8> {
    (0..16).collect()
}

#[test]
fn packet_id_exact_tags() {
    let cases: [(u8, PacketId); 10] = [
        (0x01, PacketId::UConnPing),
        (0x02, PacketId::UConnConnPing),
        (0x1c, PacketId::UConnPong),
        (0x05, PacketId::OConnReq1),
        (0x06, PacketId::OConnReply1),
        (0x07, PacketId::OConnReq2),
        (0x08, PacketId::OConnReply2),
        (0x19, PacketId::Incompatible),
        (0xa0, PacketId::Nack),
        (0xc0, PacketId::Ack),
    ];
    for (byte, want) in cases {
        let mut buf = loaded(&[byte]);
        assert_eq!(PacketId::take(&mut buf).unwrap(), want);
    }
}

#[test]
fn packet_id_frame_set_range_and_unknown() {
    let mut buf = loaded(&[0x83]);
    assert_eq!(PacketId::take(&mut buf).unwrap(), PacketId::FrameSet(0x83));
    let mut buf = loaded(&[0x80]);
    assert_eq!(PacketId::take(&mut buf).unwrap(), PacketId::FrameSet(0x80));
    let mut buf = loaded(&[0x8d]);
    assert_eq!(PacketId::take(&mut buf).unwrap(), PacketId::FrameSet(0x8d));
    let mut buf = loaded(&[0x90]);
    assert!(matches!(
        PacketId::take(&mut buf),
        Err(PacketError::UnknownPacket)
    ));
    let mut buf = loaded(&[0x8e]);
    assert!(matches!(
        PacketId::take(&mut buf),
        Err(PacketError::UnknownPacket)
    ));
}

#[test]
fn frame_packet_id_tags() {
    let cases: [(u8, FramePacketId); 7] = [
        (0x09, FramePacketId::ConnReq),
        (0x10, FramePacketId::ConnReqAccept),
        (0x00, FramePacketId::ConnPing),
        (0x03, FramePacketId::ConnPong),
        (0x13, FramePacketId::NewConn),
        (0x15, FramePacketId::DisConn),
        (0xfe, FramePacketId::Game),
    ];
    for (byte, want) in cases {
        let mut buf = loaded(&[byte]);
        assert_eq!(FramePacketId::take(&mut buf).unwrap(), want);
    }
    let mut buf = loaded(&[0x04]);
    assert!(matches!(
        FramePacketId::take(&mut buf),
        Err(PacketError::UnknownPacket)
    ));
}

#[test]
fn flag_byte_zero_is_all_false() {
    let mut buf = loaded(&[0b0000_0000]);
    let flag = Flag::take(&mut buf).unwrap();
    assert!(!flag.is_fragment);
    assert!(!flag.is_reliable);
    assert!(!flag.is_order);
    assert!(!flag.is_sequence);
    assert!(!flag.need_ack);
}

#[test]
fn flag_byte_index_three() {
    let mut buf = loaded(&[0b0111_0000]);
    let flag = Flag::take(&mut buf).unwrap();
    assert!(flag.is_reliable);
    assert!(flag.is_order);
    assert!(!flag.is_sequence);
    assert!(!flag.need_ack);
    assert!(flag.is_fragment);
}

#[test]
fn flag_table_all_indices() {
    let want = [
        (false, false, false, false),
        (false, true, true, false),
        (true, false, false, false),
        (true, true, false, false),
        (true, true, true, false),
        (false, false, false, true),
        (true, false, false, true),
        (true, true, false, true),
    ];
    for (idx, (reliable, order, sequence, ack)) in want.iter().enumerate() {
        let byte = (idx as u8) << 5;
        let mut buf = loaded(&[byte]);
        let flag = Flag::take(&mut buf).unwrap();
        assert_eq!(flag.is_reliable, *reliable);
        assert_eq!(flag.is_order, *order);
        assert_eq!(flag.is_sequence, *sequence);
        assert_eq!(flag.need_ack, *ack);
        assert!(!flag.is_fragment);
    }
}

#[test]
fn security_state_from_boolean() {
    let mut buf = loaded(&[0]);
    assert_eq!(SecurityState::take(&mut buf).unwrap(), SecurityState::Raw);
    let mut buf = loaded(&[2]);
    assert_eq!(
        SecurityState::take(&mut buf).unwrap(),
        SecurityState::Encrypt
    );
}

#[test]
fn uconn_ping_fields() {
    let mut data = vec![0, 0, 0, 0, 0, 0, 0, 42];
    data.extend_from_slice(&sample_magic());
    data.extend_from_slice(&[0, 0, 0, 0, 0, 0, 0, 7]);
    let mut buf = loaded(&data);
    let p = UConnPing::take(&mut buf).unwrap();
    assert_eq!(p.time, 42);
    assert_eq!(p.magic, Magic(sample_magic()));
    assert_eq!(p.client_guid, 7);
    assert!(buf.is_empty());
}

#[test]
fn uconn_ping_rejects_negative_time() {
    let mut data = vec![0xff; 8];
    data.extend_from_slice(&sample_magic());
    data.extend_from_slice(&[0; 8]);
    let mut buf = loaded(&data);
    assert!(matches!(
        UConnPing::take(&mut buf),
        Err(PacketError::DataError(DataError::InvalidTime))
    ));
}

#[test]
fn uconn_conn_ping_fields() {
    let mut data = vec![0, 0, 0, 0, 0, 0, 0, 1];
    data.extend_from_slice(&sample_magic());
    data.extend_from_slice(&[0xff; 8]);
    let mut buf = loaded(&data);
    let p = UConnConnPing::take(&mut buf).unwrap();
    assert_eq!(p.time, 1);
    assert_eq!(p.client_guid, -1);
}

#[test]
fn uconn_pong_fields() {
    let mut data = vec![0, 0, 0, 0, 0, 0, 0, 5];
    data.extend_from_slice(&[0, 0, 0, 0, 0, 0, 0, 9]);
    data.extend_from_slice(&sample_magic());
    data.extend_from_slice(&[0x00, 0x05, b'P', b'a', b'u', b'l', b'a']);
    let mut buf = loaded(&data);
    let p = UConnPong::take(&mut buf).unwrap();
    assert_eq!(p.time, 5);
    assert_eq!(p.server_guid, 9);
    assert_eq!(p.magic, Magic(sample_magic()));
    assert_eq!(p.server_id, "Paula");
    assert!(buf.is_empty());
}

#[test]
fn conn_ping_and_pong() {
    let mut buf = loaded(&[0, 0, 0, 0, 0, 0, 0, 3]);
    assert_eq!(ConnPing::take(&mut buf).unwrap().time, 3);

    let mut data = vec![0, 0, 0, 0, 0, 0, 0, 3];
    data.extend_from_slice(&[0, 0, 0, 0, 0, 0, 0, 4]);
    let mut buf = loaded(&data);
    let p = ConnPong::take(&mut buf).unwrap();
    assert_eq!(p.ping_time, 3);
    assert_eq!(p.pong_time, 4);
}

#[test]
fn conn_req_fields() {
    let mut data = vec![0, 0, 0, 0, 0, 0, 0, 11];
    data.extend_from_slice(&[0, 0, 0, 0, 0, 0, 0, 12]);
    let mut buf = loaded(&data);
    let p = ConnReq::take(&mut buf).unwrap();
    assert_eq!(p.guid, 11);
    assert_eq!(p.time, 12);
}

#[test]
fn oconn_req1_mtu_from_padding() {
    let mut data = sample_magic();
    data.push(11);
    data.extend_from_slice(&[0; 40]);
    let mut buf = loaded(&data);
    let p = OConnReq1::take(&mut buf).unwrap();
    assert_eq!(p.magic, Magic(sample_magic()));
    assert_eq!(p.version, 11);
    assert_eq!(p.mtu_size, 40);
    assert_eq!(buf.len(), 40);
}

#[test]
fn oconn_req1_oversized_padding_is_invalid_mtu() {
    let mut data = sample_magic();
    data.push(11);
    data.extend_from_slice(&vec![0u8; 0x1_0000]);
    let mut buf = SizedBuffer::<70000>::new();
    buf.load(&data).unwrap();
    assert!(matches!(
        OConnReq1::take(&mut buf),
        Err(PacketError::InvalidMtuSize)
    ));
}

#[test]
fn oconn_reply1_fields() {
    let mut data = sample_magic();
    data.extend_from_slice(&[0, 0, 0, 0, 0, 0, 0, 9]);
    data.push(1);
    data.extend_from_slice(&[0x05, 0xdc]);
    let mut buf = loaded(&data);
    let p = OConnReply1::take(&mut buf).unwrap();
    assert_eq!(p.server_guid, 9);
    assert_eq!(p.security, SecurityState::Encrypt);
    assert_eq!(p.mtu, 1500);
}

#[test]
fn oconn_req2_fields() {
    let mut data = sample_magic();
    data.extend_from_slice(&[4, 10, 0, 0, 1, 0x00, 0x50]);
    data.extend_from_slice(&[0x05, 0xdc]);
    data.extend_from_slice(&[0, 0, 0, 0, 0, 0, 0, 21]);
    let mut buf = loaded(&data);
    let p = OConnReq2::take(&mut buf).unwrap();
    assert_eq!(
        p.server_addr,
        Addr::V4 {
            ip: vec![10, 0, 0, 1],
            port: 80
        }
    );
    assert_eq!(p.mtu, 1500);
    assert_eq!(p.client_guid, 21);
}

#[test]
fn oconn_reply2_fields() {
    let mut data = sample_magic();
    data.extend_from_slice(&[0, 0, 0, 0, 0, 0, 0, 9]);
    let mut v6 = vec![6, 0, 0, 0x90, 0x1f, 0, 0, 0, 0];
    v6.extend_from_slice(&[7; 16]);
    v6.extend_from_slice(&[0, 0, 0, 0]);
    data.extend_from_slice(&v6);
    data.extend_from_slice(&[0x05, 0xdc]);
    data.push(0);
    let mut buf = loaded(&data);
    let p = OConnReply2::take(&mut buf).unwrap();
    assert_eq!(
        p.client_addr,
        Addr::V6 {
            ip: vec![7; 16],
            port: 8080
        }
    );
    assert_eq!(p.mtu, 1500);
    assert_eq!(p.security, SecurityState::Raw);
}

#[test]
fn conn_req_accept_fields() {
    let mut data = vec![4, 127, 0, 0, 1, 0x1f, 0x90];
    data.extend_from_slice(&[0x00, 0x02]);
    for i in 0..10u8 {
        data.extend_from_slice(&[4, 192, 168, 0, i, 0x00, 0x50]);
    }
    data.extend_from_slice(&[0, 0, 0, 0, 0, 0, 0, 31]);
    data.extend_from_slice(&[0, 0, 0, 0, 0, 0, 0, 32]);
    let mut buf = loaded(&data);
    let p = ConnReqAccept::take(&mut buf).unwrap();
    assert_eq!(
        p.client_addr,
        Addr::V4 {
            ip: vec![127, 0, 0, 1],
            port: 8080
        }
    );
    assert_eq!(p.system_index, 2);
    assert_eq!(p.internal_addrs.len(), 10);
    assert_eq!(
        p.internal_addrs[9],
        Addr::V4 {
            ip: vec![192, 168, 0, 9],
            port: 80
        }
    );
    assert_eq!(p.req_time, 31);
    assert_eq!(p.time, 32);
    assert!(buf.is_empty());
}

#[test]
fn new_conn_fields() {
    let mut data = vec![4, 1, 2, 3, 4, 0x00, 0x50];
    data.extend_from_slice(&[4, 5, 6, 7, 8, 0x01, 0x00]);
    let mut buf = loaded(&data);
    let p = NewConn::take(&mut buf).unwrap();
    assert_eq!(
        p.server_addr,
        Addr::V4 {
            ip: vec![1, 2, 3, 4],
            port: 80
        }
    );
    assert_eq!(
        p.internal_addr,
        Addr::V4 {
            ip: vec![5, 6, 7, 8],
            port: 256
        }
    );
}

#[test]
fn incompatible_fields() {
    let mut data = vec![11];
    data.extend_from_slice(&sample_magic());
    data.extend_from_slice(&[0, 0, 0, 0, 0, 0, 0, 13]);
    let mut buf = loaded(&data);
    let p = Incompatible::take(&mut buf).unwrap();
    assert_eq!(p.protocol, 11);
    assert_eq!(p.server_guid, 13);
}

#[test]
fn order_and_fragment_fields() {
    let mut buf = loaded(&[0x01, 0x00, 0x00, 9]);
    let o = Order::take(&mut buf).unwrap();
    assert_eq!(o.index, 1);
    assert_eq!(o.channel, 9);

    let mut buf = loaded(&[0, 0, 0, 3, 0, 7, 0, 0, 0, 2]);
    let f = Fragment::take(&mut buf).unwrap();
    assert_eq!(f.compound_size, 3);
    assert_eq!(f.compound_id, 7);
    assert_eq!(f.index, 2);
}

#[test]
fn record_single_and_range() {
    let mut buf = loaded(&[1, 0x05, 0x00, 0x00]);
    assert_eq!(Record::take(&mut buf).unwrap(), Record::Single(5));

    let mut buf = loaded(&[0, 0x01, 0x00, 0x00, 0x03, 0x00, 0x00]);
    assert_eq!(
        Record::take(&mut buf).unwrap(),
        Record::Range { begin: 1, end: 3 }
    );

    let mut buf = loaded(&[1, 0x05]);
    assert!(matches!(
        Record::take(&mut buf),
        Err(PacketError::DataError(DataError::InsufficientByte))
    ));
}

#[test]
fn ack_and_nack_carry_one_record() {
    let mut buf = loaded(&[0x00, 0x02, 1, 0x05, 0x00, 0x00]);
    let a = Ack::take(&mut buf).unwrap();
    assert_eq!(a.record_count, 2);
    assert_eq!(a.record, Record::Single(5));

    let mut buf = loaded(&[0x00, 0x01, 0, 0x01, 0x00, 0x00, 0x03, 0x00, 0x00]);
    let n = Nack::take(&mut buf).unwrap();
    assert_eq!(n.record_count, 1);
    assert_eq!(n.record, Record::Range { begin: 1, end: 3 });
}

#[test]
fn frame_reliable_only() {
    let data = [0x40, 0x00, 0x10, 0x05, 0x00, 0x00, 0xaa, 0xbb];
    let mut buf = loaded(&data);
    let f = Frame::take(&mut buf).unwrap();
    assert!(f.flag.is_reliable && !f.flag.is_fragment);
    assert_eq!(f.bit_len, 16);
    assert_eq!(f.reliable_index, Some(5));
    assert_eq!(f.sequence_index, None);
    assert_eq!(f.order, None);
    assert_eq!(f.fragment, None);
    assert_eq!(f.body, vec![0xaa, 0xbb]);
    assert!(buf.is_empty());
}

#[test]
fn frame_fragmented() {
    let data = [
        0x10, 0x00, 0x08, 0, 0, 0, 3, 0, 7, 0, 0, 0, 0, 0xcc,
    ];
    let mut buf = loaded(&data);
    let f = Frame::take(&mut buf).unwrap();
    assert!(f.flag.is_fragment && !f.flag.is_reliable);
    assert_eq!(f.bit_len, 8);
    assert_eq!(
        f.fragment,
        Some(Fragment {
            compound_size: 3,
            compound_id: 7,
            index: 0
        })
    );
    assert_eq!(f.body, vec![0xcc]);
}

#[test]
fn frame_with_short_body_fails() {
    let data = [0x00, 0x00, 0x20, 0xaa];
    let mut buf = loaded(&data);
    assert!(matches!(
        Frame::take(&mut buf),
        Err(PacketError::DataError(DataError::InsufficientByte))
    ));
}

#[test]
fn frame_set_sequence_and_frame() {
    let data = [0x02, 0x00, 0x00, 0x00, 0x00, 0x08, 0xee];
    let mut buf = loaded(&data);
    let fs = FrameSet::take(&mut buf).unwrap();
    assert_eq!(fs.sequence, 2);
    assert_eq!(fs.frame.body, vec![0xee]);
}

#[test]
fn decode_packet_dispatches_by_id() {
    let mut data = vec![0x01, 0, 0, 0, 0, 0, 0, 0, 42];
    data.extend_from_slice(&sample_magic());
    data.extend_from_slice(&[0, 0, 0, 0, 0, 0, 0, 7]);
    let mut buf = loaded(&data);
    match decode_packet(&mut buf).unwrap() {
        Packet::UConnPing(p) => assert_eq!(p.time, 42),
        _ => panic!("wrong kind"),
    }

    let data = [0x84, 0x02, 0x00, 0x00, 0x00, 0x00, 0x08, 0xee];
    let mut buf = loaded(&data);
    match decode_packet(&mut buf).unwrap() {
        Packet::FrameSet(fs) => {
            assert_eq!(fs.sequence, 2);
            assert_eq!(fs.frame.body, vec![0xee]);
        },
        _ => panic!("wrong kind"),
    }

    let mut buf = loaded(&[0xc0, 0x00, 0x01, 1, 0x09, 0x00, 0x00]);
    match decode_packet(&mut buf).unwrap() {
        Packet::Ack(a) => assert_eq!(a.record, Record::Single(9)),
        _ => panic!("wrong kind"),
    }
}

#[test]
fn uconn_pong_propagates_string_failures() {
    let mut data = vec![0, 0, 0, 0, 0, 0, 0, 5];
    data.extend_from_slice(&[0, 0, 0, 0, 0, 0, 0, 9]);
    data.extend_from_slice(&sample_magic());
    data.extend_from_slice(&[0x00, 0x02, 0xff, 0xfe]);
    let mut buf = loaded(&data);
    assert!(matches!(
        UConnPong::take(&mut buf),
        Err(PacketError::DataError(DataError::Utf8Error))
    ));

    let mut data = vec![0, 0, 0, 0, 0, 0, 0, 5];
    data.extend_from_slice(&[0, 0, 0, 0, 0, 0, 0, 9]);
    data.extend_from_slice(&sample_magic());
    data.extend_from_slice(&[0x00, 0x09, b'P']);
    let mut buf = loaded(&data);
    assert!(matches!(
        UConnPong::take(&mut buf),
        Err(PacketError::DataError(DataError::InsufficientByte))
    ));
}

#[test]
fn oconn_req2_propagates_bad_address_family() {
    let mut data = sample_magic();
    data.extend_from_slice(&[9, 10, 0, 0, 1, 0x00, 0x50]);
    data.extend_from_slice(&[0x05, 0xdc]);
    data.extend_from_slice(&[0; 8]);
    let mut buf = loaded(&data);
    assert!(matches!(
        OConnReq2::take(&mut buf),
        Err(PacketError::DataError(DataError::UnsupportedIpv(9)))
    ));
}

#[test]
fn conn_req_accept_propagates_internal_address_failure() {
    let mut data = vec![4, 127, 0, 0, 1, 0x1f, 0x90];
    data.extend_from_slice(&[0x00, 0x02]);
    for i in 0..4u8 {
        data.extend_from_slice(&[4, 192, 168, 0, i, 0x00, 0x50]);
    }
    // The fifth internal address carries an unknown family tag.
    data.extend_from_slice(&[7, 192, 168, 0, 4, 0x00, 0x50]);
    let mut buf = loaded(&data);
    assert!(matches!(
        ConnReqAccept::take(&mut buf),
        Err(PacketError::DataError(DataError::UnsupportedIpv(7)))
    ));
}

#[test]
fn decode_packet_unknown_and_empty() {
    let mut buf = loaded(&[0x90]);
    assert!(matches!(
        decode_packet(&mut buf),
        Err(PacketError::UnknownPacket)
    ));
    let mut buf = loaded(&[]);
    assert!(matches!(
        decode_packet(&mut buf),
        Err(PacketError::DataError(DataError::InsufficientByte))
    ));
}
