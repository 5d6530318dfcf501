//! Fragment-reassembly checks: in-order completion, out-of-order refusal,
//! and independence of compounds.

use rodust_raknet::frame::Archaeologist;
use rodust_raknet::packets::{Flag, Fragment, Frame};

fn fragment_frame(compound_size: u32, compound_id: u16, index: u32, body: &[u8]) -> Frame {
    Frame {
        flag: Flag {
            is_reliable: false,
            is_order: false,
            is_sequence: false,
            need_ack: false,
            is_fragment: true,
        },
        bit_len: (body.len() * 8) as u16,
        reliable_index: None,
        sequence_index: None,
        order: None,
        fragment: Some(Fragment {
            compound_size,
            compound_id,
            index,
        }),
        body: body.to_vec(),
    }
}

fn plain_frame(body: &[u8]) -> Frame {
    Frame {
        flag: Flag {
            is_reliable: false,
            is_order: false,
            is_sequence: false,
            need_ack: false,
            is_fragment: false,
        },
        bit_len: (body.len() * 8) as u16,
        reliable_index: None,
        sequence_index: None,
        order: None,
        fragment: None,
        body: body.to_vec(),
    }
}

#[test]
fn in_order_fragments_complete() {
    let mut engine = Archaeologist::new();
    assert_eq!(engine.collect(&fragment_frame(3, 7, 0, b"he")), None);
    assert_eq!(engine.collect(&fragment_frame(3, 7, 1, b"ll")), None);
    assert_eq!(
        engine.collect(&fragment_frame(3, 7, 2, b"o!")),
        Some(b"hello!".to_vec())
    );
}

#[test]
fn out_of_order_fragment_never_completes() {
    let mut engine = Archaeologist::new();
    assert_eq!(engine.collect(&fragment_frame(3, 7, 2, b"o!")), None);
    assert_eq!(engine.collect(&fragment_frame(3, 7, 0, b"he")), None);
    assert_eq!(engine.collect(&fragment_frame(3, 7, 1, b"ll")), None);
}

#[test]
fn completed_compound_is_removed() {
    let mut engine = Archaeologist::new();
    assert_eq!(
        engine.collect(&fragment_frame(1, 9, 0, b"solo")),
        Some(b"solo".to_vec())
    );
    // The id is free again: a fresh compound starts from index zero.
    assert_eq!(engine.collect(&fragment_frame(2, 9, 0, b"ab")), None);
    assert_eq!(
        engine.collect(&fragment_frame(2, 9, 1, b"cd")),
        Some(b"abcd".to_vec())
    );
}

#[test]
fn non_fragment_frame_yields_nothing() {
    let mut engine = Archaeologist::new();
    assert_eq!(engine.collect(&plain_frame(b"whole")), None);
}

#[test]
fn compounds_are_independent() {
    let mut engine = Archaeologist::new();
    assert_eq!(engine.collect(&fragment_frame(2, 1, 0, b"a")), None);
    assert_eq!(engine.collect(&fragment_frame(2, 2, 0, b"x")), None);
    assert_eq!(
        engine.collect(&fragment_frame(2, 2, 1, b"y")),
        Some(b"xy".to_vec())
    );
    assert_eq!(
        engine.collect(&fragment_frame(2, 1, 1, b"b")),
        Some(b"ab".to_vec())
    );
}

#[test]
fn repeated_fragment_is_dropped() {
    let mut engine = Archaeologist::new();
    assert_eq!(engine.collect(&fragment_frame(2, 3, 0, b"a")), None);
    assert_eq!(engine.collect(&fragment_frame(2, 3, 0, b"a")), None);
    assert_eq!(
        engine.collect(&fragment_frame(2, 3, 1, b"b")),
        Some(b"ab".to_vec())
    );
}
