//! End-to-end verification flows: structural failures, claim checks, epoch
//! transitions, randomness accumulation, commits, and chain selection.

use babe_verify::epochs::{EpochTracker, RandomnessSource};
use babe_verify::select::{select, ChainTip, Selection};
use babe_verify::threshold::check_primary_threshold;
use babe_verify::types::{Authority, BabeGenesisConfiguration, EpochDescriptor, VerifyError};
use babe_verify::verify::{verify_header, VerifyConfig};
use parity_scale_codec::{Compact, Encode};

fn compact(v: u64) -> Vec<u8> {
    Compact(v).encode()
}

fn item(tag: u8, payload: &[u8]) -> Vec<u8> {
    let mut v = vec![tag];
    v.extend_from_slice(b"BABE");
    v.extend(compact(payload.len() as u64));
    v.extend_from_slice(payload);
    v
}

fn header_bytes(parent: &[u8; 32], number: u64, items: &[Vec<u8>]) -> Vec<u8> {
    let mut v = parent.to_vec();
    v.extend(compact(number));
    v.extend_from_slice(&[1u8; 32]);
    v.extend_from_slice(&[2u8; 32]);
    v.extend(compact(items.len() as u64));
    for it in items {
        v.extend_from_slice(it);
    }
    v
}

fn primary_payload(idx: u32, slot: u64, out: &[u8; 32]) -> Vec<u8> {
    let mut v = vec![1u8];
    v.extend_from_slice(&idx.to_le_bytes());
    v.extend_from_slice(&slot.to_le_bytes());
    v.extend_from_slice(out);
    v.extend_from_slice(&[4u8; 64]);
    v
}

fn secondary_plain_payload(idx: u32, slot: u64) -> Vec<u8> {
    let mut v = vec![2u8];
    v.extend_from_slice(&idx.to_le_bytes());
    v.extend_from_slice(&slot.to_le_bytes());
    v
}

fn secondary_vrf_payload(idx: u32, slot: u64, out: &[u8; 32]) -> Vec<u8> {
    let mut v = vec![3u8];
    v.extend_from_slice(&idx.to_le_bytes());
    v.extend_from_slice(&slot.to_le_bytes());
    v.extend_from_slice(out);
    v.extend_from_slice(&[4u8; 64]);
    v
}

fn next_config_payload(c_num: u64, c_den: u64, allow: bool) -> Vec<u8> {
    let mut v = vec![3u8];
    v.extend_from_slice(&c_num.to_le_bytes());
    v.extend_from_slice(&c_den.to_le_bytes());
    v.push(if allow { 1 } else { 0 });
    v
}

fn next_epoch_payload(auths: &[(u8, u64)], randomness: &[u8; 32]) -> Vec<u8> {
    let mut v = vec![1u8];
    v.extend(compact(auths.len() as u64));
    for (k, w) in auths {
        v.extend_from_slice(&[*k; 32]);
        v.extend_from_slice(&w.to_le_bytes());
    }
    v.extend_from_slice(randomness);
    v
}

fn on_disabled_payload(idx: u32) -> Vec<u8> {
    let mut v = vec![2u8];
    v.extend_from_slice(&idx.to_le_bytes());
    v
}

fn auth(k: u8, w: u64) -> Authority {
    Authority { public_key: vec![k; 32], weight: w }
}

/// Three authorities with weights [1, 1, 2], total 4, c = 1/2, epoch 0
/// starting at slot 100, ten slots per epoch.
fn genesis() -> BabeGenesisConfiguration {
    BabeGenesisConfiguration {
        epoch0: EpochDescriptor {
            epoch_index: 0,
            start_slot: 100,
            authorities: vec![auth(10, 1), auth(11, 1), auth(12, 2)],
            total_weight: 4,
            randomness: vec![7u8; 32],
            c_num: 1,
            c_den: 2,
            allow_secondary: true,
            disabled: vec![],
        },
        epoch_duration: 10,
        slot_duration: 6,
    }
}

const GENESIS_HASH: [u8; 32] = [0u8; 32];

fn verify(
    bytes: &[u8],
    g: &BabeGenesisConfiguration,
    tracker: &EpochTracker,
) -> Result<babe_verify::epochs::PendingVerify, VerifyError> {
    verify_header(
        VerifyConfig { scale_encoded_header: bytes, genesis_configuration: g },
        tracker,
    )
}

#[test]
fn valid_primary_claim_verifies_and_commits() {
    let g = genesis();
    let mut tracker = EpochTracker::new(GENESIS_HASH.to_vec(), &g);
    let bytes = header_bytes(
        &GENESIS_HASH,
        1,
        &[item(6, &primary_payload(2, 100, &[0u8; 32])), item(5, &[0xDD; 64])],
    );
    let p = verify(&bytes, &g, &tracker).expect("verifies");
    assert!(p.is_primary);
    assert_eq!(p.slot, 100);
    assert_eq!(p.authority_index, 2);
    assert_eq!(p.author_public_key, vec![12u8; 32]);
    assert_eq!(p.vrf_output, Some(vec![0u8; 32]));
    assert_eq!(p.seal_signature, vec![0xDD; 64]);
    assert_eq!(p.pre_seal_header.logs.len(), 1);
    let r = tracker.commit_block([0xA1; 32].to_vec(), &p, true, true, None);
    assert_eq!(r, Ok(()));
    assert_eq!(tracker.entries.len(), 2);
    let e = &tracker.entries[1];
    assert_eq!(e.slot, 100);
    assert_eq!(e.descriptor.epoch_index, 0);
    assert_eq!(e.cur_outputs, vec![vec![0u8; 32]]);
}

#[test]
fn garbage_bytes_fail_invalid_header() {
    let g = genesis();
    let tracker = EpochTracker::new(GENESIS_HASH.to_vec(), &g);
    assert_eq!(verify(&[1, 2, 3], &g, &tracker).unwrap_err(), VerifyError::InvalidHeader);
}

#[test]
fn header_without_seal_fails_missing_seal() {
    let g = genesis();
    let tracker = EpochTracker::new(GENESIS_HASH.to_vec(), &g);
    let bytes = header_bytes(&GENESIS_HASH, 1, &[item(6, &primary_payload(2, 100, &[0u8; 32]))]);
    assert_eq!(verify(&bytes, &g, &tracker).unwrap_err(), VerifyError::MissingSeal);
    let empty = header_bytes(&GENESIS_HASH, 1, &[]);
    assert_eq!(verify(&empty, &g, &tracker).unwrap_err(), VerifyError::MissingSeal);
}

#[test]
fn seal_anywhere_but_last_fails_missing_seal() {
    let g = genesis();
    let tracker = EpochTracker::new(GENESIS_HASH.to_vec(), &g);
    let bytes = header_bytes(
        &GENESIS_HASH,
        1,
        &[item(5, &[0xDD; 64]), item(6, &primary_payload(2, 100, &[0u8; 32]))],
    );
    assert_eq!(verify(&bytes, &g, &tracker).unwrap_err(), VerifyError::MissingSeal);
}

#[test]
fn zero_pre_runtime_digests_fail_missing() {
    let g = genesis();
    let tracker = EpochTracker::new(GENESIS_HASH.to_vec(), &g);
    let bytes = header_bytes(&GENESIS_HASH, 1, &[item(5, &[0xDD; 64])]);
    assert_eq!(verify(&bytes, &g, &tracker).unwrap_err(), VerifyError::MissingPreRuntimeDigest);
}

#[test]
fn two_pre_runtime_digests_fail_multiple() {
    let g = genesis();
    let tracker = EpochTracker::new(GENESIS_HASH.to_vec(), &g);
    let pp = primary_payload(2, 100, &[0u8; 32]);
    let bytes = header_bytes(&GENESIS_HASH, 1, &[item(6, &pp), item(6, &pp), item(5, &[0xDD; 64])]);
    assert_eq!(verify(&bytes, &g, &tracker).unwrap_err(), VerifyError::MultiplePreRuntimeDigests);
}

#[test]
fn malformed_pre_runtime_payload_fails_decode() {
    let g = genesis();
    let tracker = EpochTracker::new(GENESIS_HASH.to_vec(), &g);
    let bytes = header_bytes(&GENESIS_HASH, 1, &[item(6, &[9, 9]), item(5, &[0xDD; 64])]);
    assert_eq!(
        verify(&bytes, &g, &tracker).unwrap_err(),
        VerifyError::PreRuntimeDigestDecodeError
    );
}

#[test]
fn malformed_consensus_payload_fails_decode() {
    let g = genesis();
    let tracker = EpochTracker::new(GENESIS_HASH.to_vec(), &g);
    let bytes = header_bytes(
        &GENESIS_HASH,
        1,
        &[item(6, &primary_payload(2, 100, &[0u8; 32])), item(4, &[0xFF]), item(5, &[0xDD; 64])],
    );
    assert_eq!(verify(&bytes, &g, &tracker).unwrap_err(), VerifyError::ConsensusDigestDecodeError);
}

#[test]
fn next_epoch_data_with_zero_weight_fails_decode() {
    let g = genesis();
    let tracker = EpochTracker::new(GENESIS_HASH.to_vec(), &g);
    let bad = next_epoch_payload(&[(20, 0)], &[8u8; 32]);
    let bytes = header_bytes(
        &GENESIS_HASH,
        1,
        &[item(6, &primary_payload(2, 100, &[0u8; 32])), item(4, &bad), item(5, &[0xDD; 64])],
    );
    assert_eq!(verify(&bytes, &g, &tracker).unwrap_err(), VerifyError::ConsensusDigestDecodeError);
}

#[test]
fn unknown_parent_is_reported() {
    let g = genesis();
    let tracker = EpochTracker::new(GENESIS_HASH.to_vec(), &g);
    let bytes = header_bytes(
        &[0x55; 32],
        1,
        &[item(6, &primary_payload(2, 100, &[0u8; 32])), item(5, &[0xDD; 64])],
    );
    assert_eq!(verify(&bytes, &g, &tracker).unwrap_err(), VerifyError::UnknownParent);
}

#[test]
fn authority_index_out_of_range_fails() {
    let g = genesis();
    let tracker = EpochTracker::new(GENESIS_HASH.to_vec(), &g);
    let bytes = header_bytes(
        &GENESIS_HASH,
        1,
        &[item(6, &primary_payload(5, 100, &[0u8; 32])), item(5, &[0xDD; 64])],
    );
    assert_eq!(verify(&bytes, &g, &tracker).unwrap_err(), VerifyError::BadAuthorityIndex);
}

#[test]
fn slot_before_genesis_start_fails_epoch_mismatch() {
    let g = genesis();
    let tracker = EpochTracker::new(GENESIS_HASH.to_vec(), &g);
    let bytes = header_bytes(
        &GENESIS_HASH,
        1,
        &[item(6, &primary_payload(2, 99, &[0u8; 32])), item(5, &[0xDD; 64])],
    );
    assert_eq!(verify(&bytes, &g, &tracker).unwrap_err(), VerifyError::SlotEpochMismatch);
}

#[test]
fn high_vrf_output_fails_threshold() {
    let g = genesis();
    let tracker = EpochTracker::new(GENESIS_HASH.to_vec(), &g);
    let bytes = header_bytes(
        &GENESIS_HASH,
        1,
        &[item(6, &primary_payload(2, 100, &[0xFF; 32])), item(5, &[0xDD; 64])],
    );
    assert_eq!(verify(&bytes, &g, &tracker).unwrap_err(), VerifyError::VrfOutputTooHigh);
}

#[test]
fn threshold_matches_closed_form_for_weight_two_of_four() {
    // c = 1/2, share = 2/4: threshold is 1 - 0.5^0.5, about 0.2929 of the
    // output space.
    let frac = |x: f64| (x * (u64::MAX as f64)) as u64;
    assert!(check_primary_threshold(frac(0.1), 2, 4, 1, 2));
    assert!(check_primary_threshold(frac(0.25), 2, 4, 1, 2));
    assert!(!check_primary_threshold(frac(0.3), 2, 4, 1, 2));
    assert!(!check_primary_threshold(frac(0.9), 2, 4, 1, 2));
    // Weight 1 of 4: threshold 1 - 0.5^0.25, about 0.159.
    assert!(check_primary_threshold(frac(0.1), 1, 4, 1, 2));
    assert!(!check_primary_threshold(frac(0.2), 1, 4, 1, 2));
    // c = 1 admits every output.
    assert!(check_primary_threshold(u64::MAX, 1, 4, 1, 1));
}

#[test]
fn secondary_plain_claims_follow_the_deterministic_author() {
    let g = genesis();
    let tracker = EpochTracker::new(GENESIS_HASH.to_vec(), &g);
    // Slot 103: 103 mod 3 enabled authorities picks index 1.
    let good = header_bytes(
        &GENESIS_HASH,
        1,
        &[item(6, &secondary_plain_payload(1, 103)), item(5, &[0xDD; 64])],
    );
    let p = verify(&good, &g, &tracker).expect("verifies");
    assert!(!p.is_primary);
    assert_eq!(p.vrf_output, None);
    assert_eq!(p.author_public_key, vec![11u8; 32]);
    let wrong = header_bytes(
        &GENESIS_HASH,
        1,
        &[item(6, &secondary_plain_payload(0, 103)), item(5, &[0xDD; 64])],
    );
    assert_eq!(verify(&wrong, &g, &tracker).unwrap_err(), VerifyError::WrongSecondaryAuthor);
}

#[test]
fn secondary_claims_disallowed_when_config_forbids_them() {
    let mut g = genesis();
    g.epoch0.allow_secondary = false;
    let tracker = EpochTracker::new(GENESIS_HASH.to_vec(), &g);
    let bytes = header_bytes(
        &GENESIS_HASH,
        1,
        &[item(6, &secondary_plain_payload(1, 103)), item(5, &[0xDD; 64])],
    );
    assert_eq!(verify(&bytes, &g, &tracker).unwrap_err(), VerifyError::SecondaryClaimsDisallowed);
}

#[test]
fn altered_seal_fails_bad_seal_and_nothing_else() {
    let g = genesis();
    let mut tracker = EpochTracker::new(GENESIS_HASH.to_vec(), &g);
    let bytes = header_bytes(
        &GENESIS_HASH,
        1,
        &[item(6, &primary_payload(2, 100, &[0u8; 32])), item(5, &[0xDD; 64])],
    );
    let p = verify(&bytes, &g, &tracker).expect("verifies");
    // The external signature check fails on the flipped seal.
    let r = tracker.commit_block([0xA1; 32].to_vec(), &p, false, true, None);
    assert_eq!(r, Err(VerifyError::BadSeal));
    assert_eq!(tracker.entries.len(), 1, "nothing committed");
}

#[test]
fn failed_vrf_proof_fails_bad_vrf_proof() {
    let g = genesis();
    let mut tracker = EpochTracker::new(GENESIS_HASH.to_vec(), &g);
    let bytes = header_bytes(
        &GENESIS_HASH,
        1,
        &[item(6, &primary_payload(2, 100, &[0u8; 32])), item(5, &[0xDD; 64])],
    );
    let p = verify(&bytes, &g, &tracker).expect("verifies");
    let r = tracker.commit_block([0xA1; 32].to_vec(), &p, true, false, None);
    assert_eq!(r, Err(VerifyError::BadVrfProof));
    assert_eq!(tracker.entries.len(), 1);
}

#[test]
fn committing_twice_does_not_double_commit() {
    let g = genesis();
    let mut tracker = EpochTracker::new(GENESIS_HASH.to_vec(), &g);
    let bytes = header_bytes(
        &GENESIS_HASH,
        1,
        &[item(6, &primary_payload(2, 100, &[0u8; 32])), item(5, &[0xDD; 64])],
    );
    let p1 = verify(&bytes, &g, &tracker).expect("verifies");
    assert_eq!(tracker.commit_block([0xA1; 32].to_vec(), &p1, true, true, None), Ok(()));
    assert_eq!(tracker.entries.len(), 2);
    // Verifying the same header again yields the same outcome, and a second
    // commit leaves the tracker exactly as it was.
    let p2 = verify(&bytes, &g, &tracker).expect("verifies again");
    assert_eq!(p2.slot, p1.slot);
    assert_eq!(p2.author_public_key, p1.author_public_key);
    assert_eq!(tracker.commit_block([0xA1; 32].to_vec(), &p2, true, true, None), Ok(()));
    assert_eq!(tracker.entries.len(), 2);
    assert_eq!(tracker.entries[1].cur_outputs.len(), 1, "output folded once");
}

#[test]
fn epoch_transition_uses_announced_authorities_and_requires_the_log() {
    let g = genesis();
    let mut tracker = EpochTracker::new(GENESIS_HASH.to_vec(), &g);
    let b1 = header_bytes(
        &GENESIS_HASH,
        1,
        &[item(6, &primary_payload(2, 100, &[0u8; 32])), item(5, &[0xDD; 64])],
    );
    let p1 = verify(&b1, &g, &tracker).expect("block 1 verifies");
    tracker.commit_block([0xA1; 32].to_vec(), &p1, true, true, None).unwrap();
    // First block of epoch 1, announcing two new authorities.
    let announce = next_epoch_payload(&[(20, 1), (21, 1)], &[8u8; 32]);
    let b2 = header_bytes(
        &[0xA1; 32],
        2,
        &[
            item(6, &primary_payload(0, 110, &[0u8; 32])),
            item(4, &announce),
            item(5, &[0xDD; 64]),
        ],
    );
    let p2 = verify(&b2, &g, &tracker).expect("block 2 verifies");
    assert_eq!(p2.transition.descriptor.epoch_index, 1);
    assert_eq!(p2.transition.descriptor.start_slot, 110);
    assert_eq!(p2.transition.descriptor.authorities.len(), 2);
    assert_eq!(p2.transition.descriptor.authorities[0].public_key, vec![20u8; 32]);
    assert_eq!(p2.transition.descriptor.total_weight, 2);
    // A sibling at the same boundary without the log fails.
    let b2x = header_bytes(
        &[0xA1; 32],
        2,
        &[item(6, &primary_payload(0, 110, &[0u8; 32])), item(5, &[0xDD; 64])],
    );
    assert_eq!(verify(&b2x, &g, &tracker).unwrap_err(), VerifyError::MissingEpochTransitionLog);
}

#[test]
fn next_epoch_data_announced_before_the_boundary_is_honoured() {
    let g = genesis();
    let mut tracker = EpochTracker::new(GENESIS_HASH.to_vec(), &g);
    // The announcement arrives in an epoch-0 block; the first block of
    // epoch 1 carries no log of its own and still transitions.
    let announce = next_epoch_payload(&[(20, 1), (21, 1)], &[8u8; 32]);
    let b1 = header_bytes(
        &GENESIS_HASH,
        1,
        &[
            item(6, &primary_payload(2, 100, &[0u8; 32])),
            item(4, &announce),
            item(5, &[0xDD; 64]),
        ],
    );
    let p1 = verify(&b1, &g, &tracker).expect("block 1 verifies");
    tracker.commit_block([0xA1; 32].to_vec(), &p1, true, true, None).unwrap();
    let b2 = header_bytes(
        &[0xA1; 32],
        2,
        &[item(6, &primary_payload(0, 110, &[0u8; 32])), item(5, &[0xDD; 64])],
    );
    let p2 = verify(&b2, &g, &tracker).expect("block 2 verifies from the pending announcement");
    assert_eq!(p2.transition.descriptor.epoch_index, 1);
    assert_eq!(p2.transition.descriptor.authorities.len(), 2);
    assert_eq!(p2.transition.descriptor.authorities[0].public_key, vec![20u8; 32]);
}

#[test]
fn errors_carry_a_description() {
    assert_eq!(VerifyError::BadSeal.description(), "invalid seal signature");
    assert!(VerifyError::VrfOutputTooHigh.description().contains("threshold"));
}

#[test]
fn on_disabled_marks_the_next_epoch_descriptor() {
    let g = genesis();
    let mut tracker = EpochTracker::new(GENESIS_HASH.to_vec(), &g);
    let b1 = header_bytes(
        &GENESIS_HASH,
        1,
        &[
            item(6, &primary_payload(2, 100, &[0u8; 32])),
            item(4, &on_disabled_payload(0)),
            item(5, &[0xDD; 64]),
        ],
    );
    let p1 = verify(&b1, &g, &tracker).expect("block 1 verifies");
    tracker.commit_block([0xA1; 32].to_vec(), &p1, true, true, None).unwrap();
    let announce = next_epoch_payload(&[(10, 1), (11, 1), (12, 2)], &[8u8; 32]);
    // Authority 0 was disabled for epoch 1: its claim is rejected there.
    let b2 = header_bytes(
        &[0xA1; 32],
        2,
        &[
            item(6, &primary_payload(0, 110, &[0u8; 32])),
            item(4, &announce),
            item(5, &[0xDD; 64]),
        ],
    );
    assert_eq!(verify(&b2, &g, &tracker).unwrap_err(), VerifyError::BadAuthorityIndex);
    let b2ok = header_bytes(
        &[0xA1; 32],
        2,
        &[
            item(6, &primary_payload(2, 110, &[0u8; 32])),
            item(4, &announce),
            item(5, &[0xDD; 64]),
        ],
    );
    let p2 = verify(&b2ok, &g, &tracker).expect("block by an enabled authority verifies");
    assert_eq!(p2.transition.descriptor.disabled, vec![0u32]);
}

#[test]
fn randomness_of_epoch_two_hashes_epoch_zero_outputs() {
    let g = genesis();
    let mut tracker = EpochTracker::new(GENESIS_HASH.to_vec(), &g);
    // Epoch 0: one primary block, VRF output all zeros.
    let b1 = header_bytes(
        &GENESIS_HASH,
        1,
        &[item(6, &primary_payload(2, 100, &[0u8; 32])), item(5, &[0xDD; 64])],
    );
    let p1 = verify(&b1, &g, &tracker).expect("block 1 verifies");
    tracker.commit_block([0xA1; 32].to_vec(), &p1, true, true, None).unwrap();
    // First block of epoch 1: randomness still the genesis seed.
    let announce = next_epoch_payload(&[(10, 1), (11, 1), (12, 2)], &[8u8; 32]);
    let b2 = header_bytes(
        &[0xA1; 32],
        2,
        &[
            item(6, &primary_payload(2, 110, &[0u8; 32])),
            item(4, &announce),
            item(5, &[0xDD; 64]),
        ],
    );
    let p2 = verify(&b2, &g, &tracker).expect("block 2 verifies");
    match &p2.transition.source {
        RandomnessSource::Value(v) => assert_eq!(v, &vec![7u8; 32]),
        _ => panic!("epoch 1 uses the genesis randomness"),
    }
    tracker.commit_block([0xA2; 32].to_vec(), &p2, true, true, None).unwrap();
    // First block of epoch 2: the source is epoch 0's ordered outputs.
    let b3 = header_bytes(
        &[0xA2; 32],
        3,
        &[
            item(6, &primary_payload(2, 120, &[0u8; 32])),
            item(4, &announce),
            item(5, &[0xDD; 64]),
        ],
    );
    let p3 = verify(&b3, &g, &tracker).expect("block 3 verifies");
    match &p3.transition.source {
        RandomnessSource::Accumulated(outs) => {
            assert_eq!(outs, &vec![vec![0u8; 32]], "exactly epoch 0's primary outputs in order");
        },
        _ => panic!("epoch 2 randomness comes from the accumulator"),
    }
    // The caller hashes the sequence; the tracker commits the digest as is.
    tracker
        .commit_block([0xA3; 32].to_vec(), &p3, true, true, Some(vec![9u8; 32]))
        .unwrap();
    let committed = &tracker.entries[3];
    assert_eq!(committed.descriptor.epoch_index, 2);
    assert_eq!(committed.descriptor.randomness, vec![9u8; 32]);
}

#[test]
fn secondary_vrf_claim_carries_its_proof_obligation() {
    let g = genesis();
    let mut tracker = EpochTracker::new(GENESIS_HASH.to_vec(), &g);
    // Slot 103 picks authority 1; a VRF-bound secondary claim by it, with a
    // high output, is fine: secondary claims have no threshold.
    let bytes = header_bytes(
        &GENESIS_HASH,
        1,
        &[item(6, &secondary_vrf_payload(1, 103, &[0xFF; 32])), item(5, &[0xDD; 64])],
    );
    let p = verify(&bytes, &g, &tracker).expect("verifies");
    assert!(!p.is_primary);
    assert_eq!(p.vrf_output, Some(vec![0xFF; 32]));
    // Its proof must still check: a failed proof is rejected, and its output
    // is never folded into the accumulator even on success.
    let r = tracker.commit_block([0xA1; 32].to_vec(), &p, true, false, None);
    assert_eq!(r, Err(VerifyError::BadVrfProof));
    assert_eq!(tracker.commit_block([0xA1; 32].to_vec(), &p, true, true, None), Ok(()));
    assert_eq!(tracker.entries[1].cur_outputs.len(), 0);
}

#[test]
fn secondary_plain_commit_ignores_the_vrf_answer() {
    let g = genesis();
    let mut tracker = EpochTracker::new(GENESIS_HASH.to_vec(), &g);
    let bytes = header_bytes(
        &GENESIS_HASH,
        1,
        &[item(6, &secondary_plain_payload(1, 103)), item(5, &[0xDD; 64])],
    );
    let p = verify(&bytes, &g, &tracker).expect("verifies");
    assert_eq!(tracker.commit_block([0xA1; 32].to_vec(), &p, true, false, None), Ok(()));
    assert_eq!(tracker.entries.len(), 2);
}

#[test]
fn deterministic_author_skips_disabled_authorities() {
    let mut g = genesis();
    g.epoch0.disabled = vec![1];
    let tracker = EpochTracker::new(GENESIS_HASH.to_vec(), &g);
    // Enabled authorities are [0, 2]; slot 103 picks position 103 mod 2 = 1,
    // so authority 2 is the author.
    let good = header_bytes(
        &GENESIS_HASH,
        1,
        &[item(6, &secondary_plain_payload(2, 103)), item(5, &[0xDD; 64])],
    );
    let p = verify(&good, &g, &tracker).expect("verifies");
    assert_eq!(p.authority_index, 2);
    let wrong = header_bytes(
        &GENESIS_HASH,
        1,
        &[item(6, &secondary_plain_payload(0, 103)), item(5, &[0xDD; 64])],
    );
    assert_eq!(verify(&wrong, &g, &tracker).unwrap_err(), VerifyError::WrongSecondaryAuthor);
    // The disabled authority itself cannot claim at all.
    let disabled = header_bytes(
        &GENESIS_HASH,
        1,
        &[item(6, &secondary_plain_payload(1, 103)), item(5, &[0xDD; 64])],
    );
    assert_eq!(verify(&disabled, &g, &tracker).unwrap_err(), VerifyError::BadAuthorityIndex);
}

#[test]
fn next_config_data_changes_the_threshold_at_the_boundary() {
    let g = genesis();
    let mut tracker = EpochTracker::new(GENESIS_HASH.to_vec(), &g);
    // Epoch 0 block announcing a config for the next boundary: c = 1/1 and
    // secondary claims forbidden.
    let b1 = header_bytes(
        &GENESIS_HASH,
        1,
        &[
            item(6, &primary_payload(2, 100, &[0u8; 32])),
            item(4, &next_config_payload(1, 1, false)),
            item(5, &[0xDD; 64]),
        ],
    );
    let p1 = verify(&b1, &g, &tracker).expect("block 1 verifies");
    assert_eq!(p1.transition.pend_config, Some((1, 1, false)));
    tracker.commit_block([0xA1; 32].to_vec(), &p1, true, true, None).unwrap();
    let announce = next_epoch_payload(&[(10, 1), (11, 1), (12, 2)], &[8u8; 32]);
    let b2 = header_bytes(
        &[0xA1; 32],
        2,
        &[
            item(6, &primary_payload(2, 110, &[0u8; 32])),
            item(4, &announce),
            item(5, &[0xDD; 64]),
        ],
    );
    let p2 = verify(&b2, &g, &tracker).expect("block 2 verifies");
    assert_eq!(p2.transition.descriptor.c_num, 1);
    assert_eq!(p2.transition.descriptor.c_den, 1);
    assert!(!p2.transition.descriptor.allow_secondary);
    tracker.commit_block([0xA2; 32].to_vec(), &p2, true, true, None).unwrap();
    // Secondary claims are now rejected in epoch 1.
    let b3 = header_bytes(
        &[0xA2; 32],
        3,
        &[item(6, &secondary_plain_payload(1, 111)), item(5, &[0xDD; 64])],
    );
    assert_eq!(verify(&b3, &g, &tracker).unwrap_err(), VerifyError::SecondaryClaimsDisallowed);
}

#[test]
fn pruning_releases_abandoned_siblings() {
    let g = genesis();
    let mut tracker = EpochTracker::new(GENESIS_HASH.to_vec(), &g);
    // Two sibling children of the genesis block.
    let b1 = header_bytes(
        &GENESIS_HASH,
        1,
        &[item(6, &primary_payload(2, 100, &[0u8; 32])), item(5, &[0xDD; 64])],
    );
    let p1 = verify(&b1, &g, &tracker).expect("first sibling verifies");
    tracker.commit_block([0xA1; 32].to_vec(), &p1, true, true, None).unwrap();
    let b2 = header_bytes(
        &GENESIS_HASH,
        1,
        &[item(6, &primary_payload(2, 101, &[0u8; 32])), item(5, &[0xDD; 64])],
    );
    let p2 = verify(&b2, &g, &tracker).expect("second sibling verifies");
    tracker.commit_block([0xA2; 32].to_vec(), &p2, true, true, None).unwrap();
    assert_eq!(tracker.entries.len(), 3);
    // The first sibling's branch is abandoned.
    tracker.prune(&vec![GENESIS_HASH.to_vec(), vec![0xA2; 32]]);
    assert_eq!(tracker.entries.len(), 2);
    assert_eq!(tracker.entries[0].hash, GENESIS_HASH.to_vec());
    assert_eq!(tracker.entries[1].hash, vec![0xA2; 32]);
    // A child of the released entry can no longer be verified against it.
    let b3 = header_bytes(
        &[0xA1; 32],
        2,
        &[item(6, &primary_payload(2, 102, &[0u8; 32])), item(5, &[0xDD; 64])],
    );
    assert_eq!(verify(&b3, &g, &tracker).unwrap_err(), VerifyError::UnknownParent);
}

#[test]
fn chain_selection_prefers_more_primary_claims_at_equal_slots() {
    let a = ChainTip { slot: 120, primary_count: 3 };
    let b = ChainTip { slot: 120, primary_count: 2 };
    assert_eq!(select(&a, &b), Selection::Greater);
    assert_eq!(select(&b, &a), Selection::Less);
    let c = ChainTip { slot: 120, primary_count: 3 };
    assert_eq!(select(&a, &c), Selection::Incomparable);
    let later = ChainTip { slot: 121, primary_count: 0 };
    assert_eq!(select(&later, &a), Selection::Greater);
    assert_eq!(select(&a, &later), Selection::Less);
}
