//! Stated laws of the verification rule.
//!
//! Each proof function here states, over the spec functions that the
//! executable contracts are written in, one property a consumer of the
//! library is entitled to rely on.

use vstd::prelude::*;

verus! {

use crate::codec::{dec_header, le_val};
use crate::types::{AuthorityV, BabeGenesisConfiguration, ConsensusLogV, HeaderV, PreDigestV,
    VerifyError};
use crate::epochs::{Entry, EntryV, PendingVerifyV, TransitionV, RandomnessSourceV, lookup,
    resolve_transition, last_next_epoch, committed_entry};
use crate::verify::{seal_sig_of, pre_payloads, structural_outcome, claim_slot, claim_index,
    verify_outcome};
use crate::threshold::primary_claim_passes;

/// A header carrying a primary claim by an enabled authority whose stated
/// VRF output meets the weight threshold verifies, and is reported as a
/// primary claim by its claimed author. (The VRF proof itself is checked by
/// the external primitive; `commit_block` turns its answer into `Ok` or
/// `BadVrfProof`.)
pub proof fn lemma_primary_claim_accepted(
    bytes: Seq<u8>,
    entries: Seq<Entry>,
    g: BabeGenesisConfiguration,
    h: HeaderV,
    sig: Seq<u8>,
    pd: PreDigestV,
    logs: Seq<ConsensusLogV>,
    parent: EntryV,
    t: TransitionV,
    idx: u32,
    slot: u64,
    vrf_output: Seq<u8>,
    vrf_proof: Seq<u8>,
)
    requires
        dec_header(bytes) == Some(h),
        structural_outcome(h) == Ok::<(Seq<u8>, PreDigestV, Seq<ConsensusLogV>), VerifyError>(
            (sig, pd, logs),
        ),
        pd == (PreDigestV::Primary { authority_index: idx, slot, vrf_output, vrf_proof }),
        lookup(entries, h.parent_hash) == Some(parent),
        resolve_transition(parent, slot, logs, g) == Ok::<TransitionV, VerifyError>(t),
        idx < t.descriptor.authorities.len(),
        !t.descriptor.disabled.contains(idx),
        primary_claim_passes(
            le_val(vrf_output, 8),
            t.descriptor.authorities[idx as int].weight,
            t.descriptor.total_weight,
            t.descriptor.c_num,
            t.descriptor.c_den,
        ),
    ensures
        match verify_outcome(bytes, entries, g) {
            Ok(p) => {
                &&& p.is_primary
                &&& p.vrf_output == Some(vrf_output)
                &&& p.vrf_proof == Some(vrf_proof)
                &&& p.author_public_key == t.descriptor.authorities[idx as int].public_key
                &&& p.slot == slot
            },
            Err(_) => false,
        },
{
    assert(claim_slot(pd) == slot && claim_index(pd) == idx);
}

/// Verification is a function of the header bytes and the tracked state:
/// verifying the same header twice against the same parent state yields the
/// same outcome. (That a repeated commit cannot double-fold epoch state is
/// part of the contract of `EpochTracker::commit_block`: committing a block
/// hash already present leaves the tracker unchanged.)
pub proof fn lemma_verify_deterministic(
    bytes: Seq<u8>,
    entries: Seq<Entry>,
    g: BabeGenesisConfiguration,
    p1: PendingVerifyV,
    p2: PendingVerifyV,
)
    requires
        verify_outcome(bytes, entries, g) == Ok::<PendingVerifyV, VerifyError>(p1),
        verify_outcome(bytes, entries, g) == Ok::<PendingVerifyV, VerifyError>(p2),
    ensures
        p1 == p2,
{
}

/// A header without a BABE seal as its last digest entry — no digest
/// entries at all, a last entry of another kind, or a seal of another
/// engine — is rejected with `MissingSeal`, whatever else it carries.
pub proof fn lemma_missing_seal(
    bytes: Seq<u8>,
    entries: Seq<Entry>,
    g: BabeGenesisConfiguration,
    h: HeaderV,
)
    requires
        dec_header(bytes) == Some(h),
        seal_sig_of(h) is None,
    ensures
        verify_outcome(bytes, entries, g) == Err::<PendingVerifyV, VerifyError>(
            VerifyError::MissingSeal,
        ),
{
}

/// A sealed header with no BABE pre-runtime digest is rejected with
/// `MissingPreRuntimeDigest`.
pub proof fn lemma_missing_pre_runtime(
    bytes: Seq<u8>,
    entries: Seq<Entry>,
    g: BabeGenesisConfiguration,
    h: HeaderV,
)
    requires
        dec_header(bytes) == Some(h),
        seal_sig_of(h) is Some,
        pre_payloads(h.logs).len() == 0,
    ensures
        verify_outcome(bytes, entries, g) == Err::<PendingVerifyV, VerifyError>(
            VerifyError::MissingPreRuntimeDigest,
        ),
{
}

/// A sealed header with two or more BABE pre-runtime digests is rejected
/// with `MultiplePreRuntimeDigests`.
pub proof fn lemma_multiple_pre_runtime(
    bytes: Seq<u8>,
    entries: Seq<Entry>,
    g: BabeGenesisConfiguration,
    h: HeaderV,
)
    requires
        dec_header(bytes) == Some(h),
        seal_sig_of(h) is Some,
        pre_payloads(h.logs).len() >= 2,
    ensures
        verify_outcome(bytes, entries, g) == Err::<PendingVerifyV, VerifyError>(
            VerifyError::MultiplePreRuntimeDigests,
        ),
{
}

/// A block opening a new epoch with a `NextEpochData` log gets exactly the
/// announced authority set in its committed descriptor.
pub proof fn lemma_epoch_transition_announced(
    parent: EntryV,
    slot: u64,
    logs: Seq<ConsensusLogV>,
    g: BabeGenesisConfiguration,
    auths: Seq<AuthorityV>,
    rnd: Seq<u8>,
)
    requires
        slot >= g.epoch0.start_slot,
        (slot - g.epoch0.start_slot) / (g.epoch_duration as int)
            > parent.descriptor.epoch_index as int,
        last_next_epoch(logs) == Some((auths, rnd)),
    ensures
        match resolve_transition(parent, slot, logs, g) {
            Ok(t) => t.descriptor.authorities == auths,
            Err(_) => false,
        },
{
}

/// A block opening a new epoch on a branch where no `NextEpochData` was
/// announced — neither in the block itself nor pending from its parent's
/// epoch — is rejected with `MissingEpochTransitionLog`.
pub proof fn lemma_epoch_transition_missing(
    parent: EntryV,
    slot: u64,
    logs: Seq<ConsensusLogV>,
    g: BabeGenesisConfiguration,
)
    requires
        slot >= g.epoch0.start_slot,
        (slot - g.epoch0.start_slot) / (g.epoch_duration as int)
            > parent.descriptor.epoch_index as int,
        last_next_epoch(logs) is None,
        parent.pend_authorities is None,
    ensures
        resolve_transition(parent, slot, logs, g) == Err::<TransitionV, VerifyError>(
            VerifyError::MissingEpochTransitionLog,
        ),
{
}

/// Randomness accumulation across a fixed fork: let the parent be the last
/// block of epoch `e`, let a child open epoch `e + 1` and commit, and let a
/// grandchild open epoch `e + 2`. Then the randomness source handed out for
/// the grandchild's descriptor is exactly the ordered sequence of primary
/// VRF outputs that epoch `e` accumulated — whose 32-byte hash the caller
/// supplies to `commit_block`, which then commits it verbatim as epoch
/// `e + 2`'s randomness.
pub proof fn lemma_randomness_two_epochs(
    parent: EntryV,
    slot1: u64,
    logs1: Seq<ConsensusLogV>,
    g: BabeGenesisConfiguration,
    t1: TransitionV,
    h1: Seq<u8>,
    p1: PendingVerifyV,
    rnd1: Seq<u8>,
    slot2: u64,
    logs2: Seq<ConsensusLogV>,
    t2: TransitionV,
)
    requires
        parent.descriptor.epoch_index < u64::MAX - 1,
        slot1 >= g.epoch0.start_slot,
        (slot1 - g.epoch0.start_slot) / (g.epoch_duration as int)
            == parent.descriptor.epoch_index as int + 1,
        resolve_transition(parent, slot1, logs1, g) == Ok::<TransitionV, VerifyError>(t1),
        p1.transition == t1,
        slot2 >= g.epoch0.start_slot,
        (slot2 - g.epoch0.start_slot) / (g.epoch_duration as int)
            == parent.descriptor.epoch_index as int + 2,
        resolve_transition(committed_entry(h1, p1, rnd1), slot2, logs2, g) == Ok::<
            TransitionV,
            VerifyError,
        >(t2),
    ensures
        t2.source == RandomnessSourceV::Accumulated(parent.cur_outputs),
{
    assert(t1.prev_outputs == parent.cur_outputs);
    assert(committed_entry(h1, p1, rnd1).descriptor.epoch_index as int
        == parent.descriptor.epoch_index as int + 1);
    assert(committed_entry(h1, p1, rnd1).prev_outputs == parent.cur_outputs);
}

} // verus!
