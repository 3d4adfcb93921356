//! Decoder checks, including cross-checks of the compact-integer decoder
//! against the reference SCALE codec.

use babe_verify::codec::{dec_compact_at, decode_consensus_log, decode_header, decode_pre_digest};
use babe_verify::types::{ConsensusLog, DigestItem, PreDigest, BABE_ENGINE};
use parity_scale_codec::{Compact, Encode};

fn compact(v: u64) -> Vec<u8> {
    Compact(v).encode()
}

fn item(tag: u8, engine: &[u8; 4], payload: &[u8]) -> Vec<u8> {
    let mut v = vec![tag];
    v.extend_from_slice(engine);
    v.extend(compact(payload.len() as u64));
    v.extend_from_slice(payload);
    v
}

fn header_bytes(parent: &[u8; 32], number: u64, items: &[Vec<u8>]) -> Vec<u8> {
    let mut v = parent.to_vec();
    v.extend(compact(number));
    v.extend_from_slice(&[1u8; 32]);
    v.extend_from_slice(&[2u8; 32]);
    v.extend(compact(items.len() as u64));
    for it in items {
        v.extend_from_slice(it);
    }
    v
}

#[test]
fn compact_agrees_with_reference_codec() {
    let samples: &[u64] = &[
        0,
        1,
        63,
        64,
        255,
        16383,
        16384,
        0x3FFF_FFFF,
        0x4000_0000,
        0xFFFF_FFFF,
        0x1_0000_0000,
        0xFFFF_FFFF_FFFF_FFFF,
    ];
    for &v in samples {
        let enc = compact(v);
        let got = dec_compact_at(&enc, 0);
        assert_eq!(got, Some((v, enc.len())), "value {v}");
    }
}

#[test]
fn compact_rejects_non_minimal_forms() {
    // 63 in two-byte mode: (63 << 2) | 1 little-endian.
    let w: u16 = (63u16 << 2) | 1;
    let enc = w.to_le_bytes().to_vec();
    assert_eq!(dec_compact_at(&enc, 0), None);
    // 100 in four-byte mode.
    let w: u32 = (100u32 << 2) | 2;
    let enc = w.to_le_bytes().to_vec();
    assert_eq!(dec_compact_at(&enc, 0), None);
}

#[test]
fn header_decodes_with_all_digest_kinds() {
    let items = vec![
        item(6, b"BABE", &[0xAA, 0xBB]),
        item(4, b"BABE", &[0xCC]),
        item(0, b"XXXX", &[1, 2, 3]),
        item(5, b"BABE", &[0xDD; 64]),
    ];
    // An `Other` item has no engine: tag 0 then the payload directly.
    let mut other = vec![0u8];
    other.extend(compact(3));
    other.extend_from_slice(&[9, 9, 9]);
    let items = vec![items[0].clone(), items[1].clone(), other, items[3].clone()];
    let bytes = header_bytes(&[5u8; 32], 77, &items);
    let h = decode_header(&bytes).expect("decodes");
    assert_eq!(h.parent_hash, vec![5u8; 32]);
    assert_eq!(h.number, 77);
    assert_eq!(h.state_root, vec![1u8; 32]);
    assert_eq!(h.extrinsics_root, vec![2u8; 32]);
    assert_eq!(h.logs.len(), 4);
    match &h.logs[0] {
        DigestItem::PreRuntime(e, p) => {
            assert_eq!(*e, BABE_ENGINE);
            assert_eq!(p, &vec![0xAA, 0xBB]);
        },
        _ => panic!("wrong kind"),
    }
    match &h.logs[2] {
        DigestItem::Other(p) => assert_eq!(p, &vec![9, 9, 9]),
        _ => panic!("wrong kind"),
    }
    match &h.logs[3] {
        DigestItem::Seal(e, p) => {
            assert_eq!(*e, BABE_ENGINE);
            assert_eq!(p.len(), 64);
        },
        _ => panic!("wrong kind"),
    }
}

#[test]
fn header_rejects_trailing_bytes_and_truncation() {
    let items = vec![item(6, b"BABE", &[0xAA])];
    let mut bytes = header_bytes(&[5u8; 32], 1, &items);
    let good = decode_header(&bytes);
    assert!(good.is_some());
    bytes.push(0);
    assert!(decode_header(&bytes).is_none(), "trailing byte");
    let short = &bytes[..40].to_vec();
    assert!(decode_header(short).is_none(), "truncated");
}

#[test]
fn pre_digest_decodes_every_kind() {
    let mut primary = vec![1u8];
    primary.extend_from_slice(&2u32.to_le_bytes());
    primary.extend_from_slice(&105u64.to_le_bytes());
    primary.extend_from_slice(&[3u8; 32]);
    primary.extend_from_slice(&[4u8; 64]);
    match decode_pre_digest(&primary) {
        Some(PreDigest::Primary { authority_index, slot, vrf_output, vrf_proof }) => {
            assert_eq!(authority_index, 2);
            assert_eq!(slot, 105);
            assert_eq!(vrf_output, vec![3u8; 32]);
            assert_eq!(vrf_proof, vec![4u8; 64]);
        },
        _ => panic!("expected a primary claim"),
    }
    let mut plain = vec![2u8];
    plain.extend_from_slice(&1u32.to_le_bytes());
    plain.extend_from_slice(&106u64.to_le_bytes());
    assert!(matches!(
        decode_pre_digest(&plain),
        Some(PreDigest::SecondaryPlain { authority_index: 1, slot: 106 })
    ));
    let mut svrf = vec![3u8];
    svrf.extend_from_slice(&0u32.to_le_bytes());
    svrf.extend_from_slice(&107u64.to_le_bytes());
    svrf.extend_from_slice(&[3u8; 32]);
    svrf.extend_from_slice(&[4u8; 64]);
    assert!(matches!(decode_pre_digest(&svrf), Some(PreDigest::SecondaryVrf { .. })));
    // A truncated primary payload is refused.
    let bad = primary[..primary.len() - 1].to_vec();
    assert!(decode_pre_digest(&bad).is_none());
}

#[test]
fn consensus_log_decodes_every_kind() {
    let mut next_epoch = vec![1u8];
    next_epoch.extend(compact(2));
    next_epoch.extend_from_slice(&[10u8; 32]);
    next_epoch.extend_from_slice(&1u64.to_le_bytes());
    next_epoch.extend_from_slice(&[11u8; 32]);
    next_epoch.extend_from_slice(&3u64.to_le_bytes());
    next_epoch.extend_from_slice(&[12u8; 32]);
    match decode_consensus_log(&next_epoch) {
        Some(ConsensusLog::NextEpochData { authorities, randomness }) => {
            assert_eq!(authorities.len(), 2);
            assert_eq!(authorities[0].public_key, vec![10u8; 32]);
            assert_eq!(authorities[0].weight, 1);
            assert_eq!(authorities[1].weight, 3);
            assert_eq!(randomness, vec![12u8; 32]);
        },
        _ => panic!("expected next-epoch data"),
    }
    let mut on_disabled = vec![2u8];
    on_disabled.extend_from_slice(&7u32.to_le_bytes());
    assert!(matches!(
        decode_consensus_log(&on_disabled),
        Some(ConsensusLog::OnDisabled { authority_index: 7 })
    ));
    let mut config = vec![3u8];
    config.extend_from_slice(&1u64.to_le_bytes());
    config.extend_from_slice(&4u64.to_le_bytes());
    config.push(1);
    assert!(matches!(
        decode_consensus_log(&config),
        Some(ConsensusLog::NextConfigData { c_num: 1, c_den: 4, allow_secondary: true })
    ));
    // A boolean byte other than 0 or 1 is refused.
    let mut bad = config.clone();
    bad[17] = 2;
    assert!(decode_consensus_log(&bad).is_none());
}
