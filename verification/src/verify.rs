//! Verification of one header against its parent's tracked state.
//!
//! `verify_header` performs every check that is a function of the header
//! and the tracked state alone: decoding, the position and engine of the
//! seal, the uniqueness of the pre-runtime digest, the decoding of every
//! consensus log, the parent lookup, the epoch transition rule, the
//! authority-index and slot checks of the claim, the deterministic
//! secondary-author rule, and the primary weight threshold. What remains is
//! cryptography — the VRF proof, the seal signature over the pre-seal
//! hash, and the hashing of accumulated randomness — which the caller
//! performs with the obligations returned here, and then reports to
//! `EpochTracker::commit_block`.

use vstd::prelude::*;

verus! {

use crate::codec::{dec_header, dec_pre_digest, dec_consensus_log, decode_header,
    decode_pre_digest, decode_consensus_log, le_val, read_le};
use crate::types::{AuthorityV, BabeGenesisConfiguration, ConsensusLog, ConsensusLogV, DigestItem,
    DigestItemV, EpochDescriptor, EpochDescriptorV, Header, HeaderV, PreDigest, PreDigestV,
    VerifyError, BABE_ENGINE, wf_genesis, sum_weights, log_value_ok, clone_bytes, contains_u32,
    check_authorities};
use crate::epochs::{EpochTracker, Entry, PendingVerify, PendingVerifyV, TransitionV, lookup,
    resolve_transition, transition_for, wf_entry, wf_pending};
use crate::threshold::{check_primary_threshold, primary_claim_passes};

// ---------------------------------------------------------------------------
// Structural extraction
// ---------------------------------------------------------------------------

/// The seal: the signature of the last digest entry, which must be a
/// BABE-tagged `Seal`.
pub open spec fn seal_sig_of(h: HeaderV) -> Option<Seq<u8>> {
    if h.logs.len() == 0 {
        None
    } else {
        match h.logs.last() {
            DigestItemV::Seal(e, s) => if e == BABE_ENGINE {
                Some(s)
            } else {
                None
            },
            _ => None,
        }
    }
}

/// The payloads of the BABE-tagged pre-runtime entries, in order.
pub open spec fn pre_payloads(logs: Seq<DigestItemV>) -> Seq<Seq<u8>>
    decreases logs.len(),
{
    if logs.len() == 0 {
        Seq::empty()
    } else {
        pre_payloads(logs.drop_last()) + (match logs.last() {
            DigestItemV::PreRuntime(e, p) => if e == BABE_ENGINE {
                seq![p]
            } else {
                Seq::empty()
            },
            _ => Seq::empty(),
        })
    }
}

/// The payloads of the BABE-tagged consensus entries, in order.
pub open spec fn consensus_payloads(logs: Seq<DigestItemV>) -> Seq<Seq<u8>>
    decreases logs.len(),
{
    if logs.len() == 0 {
        Seq::empty()
    } else {
        consensus_payloads(logs.drop_last()) + (match logs.last() {
            DigestItemV::Consensus(e, p) => if e == BABE_ENGINE {
                seq![p]
            } else {
                Seq::empty()
            },
            _ => Seq::empty(),
        })
    }
}

/// Decodes every consensus payload, in order; fails if any payload is not a
/// well-formed log entry with usable values.
pub open spec fn dec_all_consensus(ps: Seq<Seq<u8>>) -> Option<Seq<ConsensusLogV>>
    decreases ps.len(),
{
    if ps.len() == 0 {
        Some(Seq::empty())
    } else {
        match dec_all_consensus(ps.drop_last()) {
            None => None,
            Some(ls) => match dec_consensus_log(ps.last()) {
                None => None,
                Some(l) => if log_value_ok(l) {
                    Some(ls.push(l))
                } else {
                    None
                },
            },
        }
    }
}

/// The structural stage: the seal signature, the single decoded slot claim,
/// and the decoded consensus logs — or the precise structural failure.
pub open spec fn structural_outcome(h: HeaderV) -> Result<
    (Seq<u8>, PreDigestV, Seq<ConsensusLogV>),
    VerifyError,
> {
    match seal_sig_of(h) {
        None => Err(VerifyError::MissingSeal),
        Some(sig) => {
            let pres = pre_payloads(h.logs);
            if pres.len() == 0 {
                Err(VerifyError::MissingPreRuntimeDigest)
            } else if pres.len() >= 2 {
                Err(VerifyError::MultiplePreRuntimeDigests)
            } else {
                match dec_pre_digest(pres[0]) {
                    None => Err(VerifyError::PreRuntimeDigestDecodeError),
                    Some(pd) => match dec_all_consensus(consensus_payloads(h.logs)) {
                        None => Err(VerifyError::ConsensusDigestDecodeError),
                        Some(logs) => Ok((sig, pd, logs)),
                    },
                }
            }
        },
    }
}

// ---------------------------------------------------------------------------
// The slot claim
// ---------------------------------------------------------------------------

/// The slot a claim names.
pub open spec fn claim_slot(pd: PreDigestV) -> u64 {
    match pd {
        PreDigestV::Primary { slot, .. } => slot,
        PreDigestV::SecondaryPlain { slot, .. } => slot,
        PreDigestV::SecondaryVrf { slot, .. } => slot,
    }
}

/// The authority index a claim names.
pub open spec fn claim_index(pd: PreDigestV) -> u32 {
    match pd {
        PreDigestV::Primary { authority_index, .. } => authority_index,
        PreDigestV::SecondaryPlain { authority_index, .. } => authority_index,
        PreDigestV::SecondaryVrf { authority_index, .. } => authority_index,
    }
}

/// The authority indices below `n` that are not disabled, in order.
pub open spec fn enabled_indices(n: int, disabled: Seq<u32>) -> Seq<u32>
    decreases n,
{
    if n <= 0 {
        Seq::empty()
    } else {
        enabled_indices(n - 1, disabled) + (if disabled.contains((n - 1) as u32) {
            Seq::empty()
        } else {
            seq![(n - 1) as u32]
        })
    }
}

/// The deterministic author of a secondary slot: the enabled authorities in
/// index order, picked round-robin by slot number.
pub open spec fn secondary_author(slot: u64, d: EpochDescriptorV) -> u32
    recommends
        enabled_indices(d.authorities.len() as int, d.disabled).len() > 0,
{
    let en = enabled_indices(d.authorities.len() as int, d.disabled);
    en[(slot as int) % (en.len() as int)]
}

/// The validated content of a slot claim.
#[verifier::ext_equal]
pub struct ClaimV {
    pub is_primary: bool,
    pub authority_index: u32,
    pub author: Seq<u8>,
    pub vrf_output: Option<Seq<u8>>,
    pub vrf_proof: Option<Seq<u8>>,
}

/// The claim rule against a descriptor. The index must name an enabled
/// authority. A primary claim must meet the weight threshold on its stated
/// VRF output. A secondary claim of either kind is allowed only if the
/// descriptor permits secondary claims and the index equals the slot's
/// deterministic author; the VRF-bound kind additionally carries its proof
/// obligation out.
pub open spec fn claim_outcome(pd: PreDigestV, d: EpochDescriptorV) -> Result<ClaimV, VerifyError> {
    let idx = claim_index(pd);
    let slot = claim_slot(pd);
    if idx >= d.authorities.len() || d.disabled.contains(idx) {
        Err(VerifyError::BadAuthorityIndex)
    } else {
        match pd {
            PreDigestV::Primary { vrf_output, vrf_proof, .. } => {
                if !primary_claim_passes(
                    le_val(vrf_output, 8),
                    d.authorities[idx as int].weight,
                    d.total_weight,
                    d.c_num,
                    d.c_den,
                ) {
                    Err(VerifyError::VrfOutputTooHigh)
                } else {
                    Ok(
                        ClaimV {
                            is_primary: true,
                            authority_index: idx,
                            author: d.authorities[idx as int].public_key,
                            vrf_output: Some(vrf_output),
                            vrf_proof: Some(vrf_proof),
                        },
                    )
                }
            },
            PreDigestV::SecondaryPlain { .. } => {
                if !d.allow_secondary {
                    Err(VerifyError::SecondaryClaimsDisallowed)
                } else if secondary_author(slot, d) != idx {
                    Err(VerifyError::WrongSecondaryAuthor)
                } else {
                    Ok(
                        ClaimV {
                            is_primary: false,
                            authority_index: idx,
                            author: d.authorities[idx as int].public_key,
                            vrf_output: None,
                            vrf_proof: None,
                        },
                    )
                }
            },
            PreDigestV::SecondaryVrf { vrf_output, vrf_proof, .. } => {
                if !d.allow_secondary {
                    Err(VerifyError::SecondaryClaimsDisallowed)
                } else if secondary_author(slot, d) != idx {
                    Err(VerifyError::WrongSecondaryAuthor)
                } else {
                    Ok(
                        ClaimV {
                            is_primary: false,
                            authority_index: idx,
                            author: d.authorities[idx as int].public_key,
                            vrf_output: Some(vrf_output),
                            vrf_proof: Some(vrf_proof),
                        },
                    )
                }
            },
        }
    }
}

// ---------------------------------------------------------------------------
// The whole rule
// ---------------------------------------------------------------------------

/// What verifying `bytes` against the tracked `entries` and the genesis
/// configuration must yield.
pub open spec fn verify_outcome(
    bytes: Seq<u8>,
    entries: Seq<Entry>,
    g: BabeGenesisConfiguration,
) -> Result<PendingVerifyV, VerifyError> {
    match dec_header(bytes) {
        None => Err(VerifyError::InvalidHeader),
        Some(h) => match structural_outcome(h) {
            Err(e) => Err(e),
            Ok((sig, pd, logs)) => match lookup(entries, h.parent_hash) {
                None => Err(VerifyError::UnknownParent),
                Some(parent) => match resolve_transition(parent, claim_slot(pd), logs, g) {
                    Err(e) => Err(e),
                    Ok(t) => match claim_outcome(pd, t.descriptor) {
                        Err(e) => Err(e),
                        Ok(c) => Ok(
                            PendingVerifyV {
                                slot: claim_slot(pd),
                                is_primary: c.is_primary,
                                authority_index: c.authority_index,
                                author_public_key: c.author,
                                vrf_output: c.vrf_output,
                                vrf_proof: c.vrf_proof,
                                seal_signature: sig,
                                pre_seal_header: HeaderV {
                                    parent_hash: h.parent_hash,
                                    number: h.number,
                                    state_root: h.state_root,
                                    extrinsics_root: h.extrinsics_root,
                                    logs: h.logs.drop_last(),
                                },
                                transition: t,
                            },
                        ),
                    },
                },
            },
        },
    }
}

/// Configuration for [`verify_header`].
pub struct VerifyConfig<'a> {
    /// Encoded header of the block.
    pub scale_encoded_header: &'a [u8],
    /// The genesis consensus configuration of the chain.
    pub genesis_configuration: &'a BabeGenesisConfiguration,
}

// ---------------------------------------------------------------------------
// Helper lemmas
// ---------------------------------------------------------------------------

proof fn lemma_payloads_concat(a: Seq<DigestItemV>, b: Seq<DigestItemV>)
    ensures
        consensus_payloads(a + b) == consensus_payloads(a) + consensus_payloads(b),
    decreases b.len(),
{
    if b.len() == 0 {
        assert(a + b =~= a);
        assert(consensus_payloads(a) + consensus_payloads(b) =~= consensus_payloads(a));
    } else {
        lemma_payloads_concat(a, b.drop_last());
        assert((a + b).drop_last() =~= a + b.drop_last());
        assert((a + b).last() == b.last());
        assert(consensus_payloads(a) + (consensus_payloads(b.drop_last()) + (match b.last() {
            DigestItemV::Consensus(e, p) => if e == BABE_ENGINE {
                seq![p]
            } else {
                Seq::<Seq<u8>>::empty()
            },
            _ => Seq::<Seq<u8>>::empty(),
        })) =~= (consensus_payloads(a) + consensus_payloads(b.drop_last())) + (match b.last() {
            DigestItemV::Consensus(e, p) => if e == BABE_ENGINE {
                seq![p]
            } else {
                Seq::<Seq<u8>>::empty()
            },
            _ => Seq::<Seq<u8>>::empty(),
        }));
    }
}

proof fn lemma_dec_all_none_extend(ps: Seq<Seq<u8>>, qs: Seq<Seq<u8>>)
    requires
        dec_all_consensus(ps) is None,
    ensures
        dec_all_consensus(ps + qs) is None,
    decreases qs.len(),
{
    if qs.len() == 0 {
        assert(ps + qs =~= ps);
    } else {
        lemma_dec_all_none_extend(ps, qs.drop_last());
        assert((ps + qs).drop_last() =~= ps + qs.drop_last());
    }
}

proof fn lemma_sum_weights_nonneg(auths: Seq<AuthorityV>)
    ensures
        sum_weights(auths) >= 0,
    decreases auths.len(),
{
    if auths.len() > 0 {
        lemma_sum_weights_nonneg(auths.drop_last());
    }
}

proof fn lemma_sum_weights_at_least(auths: Seq<AuthorityV>, i: int)
    requires
        0 <= i < auths.len(),
    ensures
        sum_weights(auths) >= auths[i].weight,
    decreases auths.len(),
{
    lemma_sum_weights_nonneg(auths.drop_last());
    if i == auths.len() - 1 {
    } else {
        lemma_sum_weights_at_least(auths.drop_last(), i);
    }
}

proof fn lemma_enabled_nonempty(n: int, disabled: Seq<u32>, idx: int)
    requires
        0 <= idx < n,
        !disabled.contains(idx as u32),
    ensures
        enabled_indices(n, disabled).len() > 0,
    decreases n,
{
    if idx < n - 1 {
        lemma_enabled_nonempty(n - 1, disabled, idx);
    }
}

// ---------------------------------------------------------------------------
// Executable helpers
// ---------------------------------------------------------------------------

/// Computes the deterministic secondary author of a slot.
fn secondary_author_for(slot: u64, d: &EpochDescriptor) -> (r: u32)
    requires
        d.authorities@.len() <= u32::MAX,
        enabled_indices(d.authorities@.len() as int, d.disabled@).len() > 0,
    ensures
        r == secondary_author(slot, d@),
{
    let n = d.authorities.len();
    let mut en: Vec<u32> = Vec::new();
    let mut k: usize = 0;
    while k < n
        invariant
            k <= n,
            n == d.authorities@.len(),
            n <= u32::MAX,
            en@ == enabled_indices(k as int, d.disabled@),
        decreases n - k,
    {
        if !contains_u32(&d.disabled, k as u32) {
            en.push(k as u32);
        }
        k = k + 1;
        proof {
            assert(en@ =~= enabled_indices(k as int, d.disabled@));
        }
    }
    let m = en.len();
    proof {
        assert(m > 0);
    }
    let pos = (slot % (m as u64)) as usize;
    en[pos]
}

// ---------------------------------------------------------------------------
// The verification entry point
// ---------------------------------------------------------------------------

/// Verifies whether a block header provides a correct proof of the
/// legitimacy of the authorship, as far as the header and the tracked state
/// decide it, and returns the remaining cryptographic obligations together
/// with the state to commit.
#[verifier::loop_isolation(false)]
#[verifier::rlimit(100)]
pub fn verify_header(config: VerifyConfig, tracker: &EpochTracker) -> (r: Result<
    PendingVerify,
    VerifyError,
>)
    requires
        tracker.wf(),
        wf_genesis(config.genesis_configuration),
    ensures
        match r {
            Ok(p) => verify_outcome(
                config.scale_encoded_header@,
                tracker.entries@,
                *config.genesis_configuration,
            ) == Ok::<PendingVerifyV, VerifyError>(p@) && wf_pending(p@),
            Err(e) => verify_outcome(
                config.scale_encoded_header@,
                tracker.entries@,
                *config.genesis_configuration,
            ) == Err::<PendingVerifyV, VerifyError>(e),
        },
{
    let bytes: Vec<u8> = vstd::slice::slice_to_vec(config.scale_encoded_header);
    let h = match decode_header(&bytes) {
        None => {
            return Err(VerifyError::InvalidHeader);
        },
        Some(h) => h,
    };
    let ghost hv = h@;
    let n_logs = h.logs.len();
    // The last entry must be the BABE seal.
    if n_logs == 0 {
        return Err(VerifyError::MissingSeal);
    }
    let seal_signature = match &h.logs[n_logs - 1] {
        DigestItem::Seal(e, s) => {
            if *e != BABE_ENGINE {
                return Err(VerifyError::MissingSeal);
            }
            clone_bytes(s)
        },
        _ => {
            return Err(VerifyError::MissingSeal);
        },
    };
    proof {
        assert(hv.logs.last() == h.logs@[n_logs - 1]@);
        assert(seal_sig_of(hv) == Some(seal_signature@));
    }
    // Exactly one BABE pre-runtime digest.
    let mut pre_count: usize = 0;
    let mut pre_payload: Option<Vec<u8>> = None;
    let mut i: usize = 0;
    while i < n_logs
        invariant
            i <= n_logs,
            pre_count <= i,
            pre_count == pre_payloads(hv.logs.take(i as int)).len(),
            match pre_payload {
                Some(p) => pre_count >= 1 && p@ == pre_payloads(hv.logs.take(i as int))[0],
                None => pre_count == 0,
            },
        decreases n_logs - i,
    {
        proof {
            assert(hv.logs.take(i + 1 as int).drop_last() =~= hv.logs.take(i as int));
            assert(hv.logs.take(i + 1 as int).last() == h.logs@[i as int]@);
        }
        match &h.logs[i] {
            DigestItem::PreRuntime(e, p) => {
                if *e == BABE_ENGINE {
                    if pre_count == 0 {
                        pre_payload = Some(clone_bytes(p));
                    }
                    pre_count = pre_count + 1;
                }
            },
            _ => {},
        }
        i = i + 1;
    }
    proof {
        assert(hv.logs.take(n_logs as int) =~= hv.logs);
    }
    if pre_count == 0 {
        return Err(VerifyError::MissingPreRuntimeDigest);
    }
    if pre_count >= 2 {
        return Err(VerifyError::MultiplePreRuntimeDigests);
    }
    let pp = match pre_payload {
        Some(p) => p,
        None => {
            return Err(VerifyError::MissingPreRuntimeDigest);
        },
    };
    let pd = match decode_pre_digest(&pp) {
        None => {
            return Err(VerifyError::PreRuntimeDigestDecodeError);
        },
        Some(x) => x,
    };
    // Decode every BABE consensus log, in order, and check its values.
    let mut logs_dec: Vec<ConsensusLog> = Vec::new();
    let mut i2: usize = 0;
    while i2 < n_logs
        invariant
            i2 <= n_logs,
            dec_all_consensus(consensus_payloads(hv.logs.take(i2 as int))) == Some(
                logs_dec@.map_values(|l: ConsensusLog| l@),
            ),
            forall|j: int| 0 <= j < logs_dec@.len() ==> log_value_ok((#[trigger] logs_dec@[j])@),
        decreases n_logs - i2,
    {
        proof {
            assert(hv.logs.take(i2 + 1 as int).drop_last() =~= hv.logs.take(i2 as int));
            assert(hv.logs.take(i2 + 1 as int).last() == h.logs@[i2 as int]@);
        }
        let ghost prefix = consensus_payloads(hv.logs.take(i2 as int));
        match &h.logs[i2] {
            DigestItem::Consensus(e, p) => {
                if *e == BABE_ENGINE {
                    proof {
                        assert(consensus_payloads(hv.logs.take(i2 + 1 as int)) =~= prefix.push(
                            p@,
                        ));
                        assert(prefix.push(p@).drop_last() =~= prefix);
                    }
                    let l = match decode_consensus_log(p) {
                        None => {
                            proof {
                                assert(hv.logs =~= hv.logs.take(i2 + 1 as int) + hv.logs.skip(
                                    i2 + 1,
                                ));
                                lemma_payloads_concat(
                                    hv.logs.take(i2 + 1 as int),
                                    hv.logs.skip(i2 + 1),
                                );
                                lemma_dec_all_none_extend(
                                    consensus_payloads(hv.logs.take(i2 + 1 as int)),
                                    consensus_payloads(hv.logs.skip(i2 + 1)),
                                );
                            }
                            return Err(VerifyError::ConsensusDigestDecodeError);
                        },
                        Some(l) => l,
                    };
                    let ok = match &l {
                        ConsensusLog::NextEpochData { authorities, randomness } => {
                            check_authorities(authorities) && randomness.len() == 32
                        },
                        ConsensusLog::OnDisabled { .. } => true,
                        ConsensusLog::NextConfigData { c_num, c_den, .. } => {
                            *c_num >= 1 && *c_num <= *c_den
                        },
                    };
                    if !ok {
                        proof {
                            assert(!log_value_ok(l@));
                            assert(hv.logs =~= hv.logs.take(i2 + 1 as int) + hv.logs.skip(i2 + 1));
                            lemma_payloads_concat(
                                hv.logs.take(i2 + 1 as int),
                                hv.logs.skip(i2 + 1),
                            );
                            lemma_dec_all_none_extend(
                                consensus_payloads(hv.logs.take(i2 + 1 as int)),
                                consensus_payloads(hv.logs.skip(i2 + 1)),
                            );
                        }
                        return Err(VerifyError::ConsensusDigestDecodeError);
                    }
                    proof {
                        assert(logs_dec@.push(l).map_values(|x: ConsensusLog| x@) =~= logs_dec@
                            .map_values(|x: ConsensusLog| x@).push(l@));
                    }
                    logs_dec.push(l);
                } else {
                    proof {
                        assert(consensus_payloads(hv.logs.take(i2 + 1 as int)) =~= prefix);
                    }
                }
            },
            _ => {
                proof {
                    assert(consensus_payloads(hv.logs.take(i2 + 1 as int)) =~= prefix);
                }
            },
        }
        i2 = i2 + 1;
    }
    proof {
        assert(hv.logs.take(n_logs as int) =~= hv.logs);
    }
    // Resolve the parent and the epoch descriptor for the claimed slot.
    let parent_i = match tracker.find(&h.parent_hash) {
        None => {
            return Err(VerifyError::UnknownParent);
        },
        Some(i) => i,
    };
    let (slot, aidx) = match &pd {
        PreDigest::Primary { slot, authority_index, .. } => (*slot, *authority_index),
        PreDigest::SecondaryPlain { slot, authority_index } => (*slot, *authority_index),
        PreDigest::SecondaryVrf { slot, authority_index, .. } => (*slot, *authority_index),
    };
    proof {
        assert(wf_entry(tracker.entries@[parent_i as int]@));
        assert(slot == claim_slot(pd@) && aidx == claim_index(pd@));
    }
    let t = match transition_for(
        &tracker.entries[parent_i],
        slot,
        &logs_dec,
        config.genesis_configuration,
    ) {
        Err(e) => {
            return Err(e);
        },
        Ok(t) => t,
    };
    let ghost dv = t.descriptor@;
    // The claim itself.
    if aidx as usize >= t.descriptor.authorities.len() {
        return Err(VerifyError::BadAuthorityIndex);
    }
    if contains_u32(&t.descriptor.disabled, aidx) {
        return Err(VerifyError::BadAuthorityIndex);
    }
    proof {
        assert(dv.authorities[aidx as int] == t.descriptor.authorities@[aidx as int]@);
    }
    let author_public_key = clone_bytes(&t.descriptor.authorities[aidx as usize].public_key);
    let (is_primary, vrf_output, vrf_proof) = match &pd {
        PreDigest::Primary { vrf_output, vrf_proof, .. } => {
            let out64 = read_le(vrf_output, 0, 8);
            proof {
                assert(vrf_output@.skip(0) =~= vrf_output@);
                lemma_sum_weights_at_least(dv.authorities, aidx as int);
                lemma_sum_weights_nonneg(dv.authorities.drop_last());
            }
            let w = t.descriptor.authorities[aidx as usize].weight;
            if !check_primary_threshold(
                out64,
                w,
                t.descriptor.total_weight,
                t.descriptor.c_num,
                t.descriptor.c_den,
            ) {
                return Err(VerifyError::VrfOutputTooHigh);
            }
            (true, Some(clone_bytes(vrf_output)), Some(clone_bytes(vrf_proof)))
        },
        PreDigest::SecondaryPlain { .. } => {
            if !t.descriptor.allow_secondary {
                return Err(VerifyError::SecondaryClaimsDisallowed);
            }
            proof {
                lemma_enabled_nonempty(dv.authorities.len() as int, dv.disabled, aidx as int);
            }
            let author = secondary_author_for(slot, &t.descriptor);
            if author != aidx {
                return Err(VerifyError::WrongSecondaryAuthor);
            }
            (false, None, None)
        },
        PreDigest::SecondaryVrf { vrf_output, vrf_proof, .. } => {
            if !t.descriptor.allow_secondary {
                return Err(VerifyError::SecondaryClaimsDisallowed);
            }
            proof {
                lemma_enabled_nonempty(dv.authorities.len() as int, dv.disabled, aidx as int);
            }
            let author = secondary_author_for(slot, &t.descriptor);
            if author != aidx {
                return Err(VerifyError::WrongSecondaryAuthor);
            }
            (false, Some(clone_bytes(vrf_output)), Some(clone_bytes(vrf_proof)))
        },
    };
    // The pre-seal header: the decoded header with its seal popped.
    let Header { parent_hash, number, state_root, extrinsics_root, mut logs } = h;
    let _popped = logs.pop();
    let pre_seal_header = Header { parent_hash, number, state_root, extrinsics_root, logs };
    proof {
        assert(pre_seal_header@.logs =~= hv.logs.drop_last());
    }
    let p = PendingVerify {
        slot,
        is_primary,
        authority_index: aidx,
        author_public_key,
        vrf_output,
        vrf_proof,
        seal_signature,
        pre_seal_header,
        transition: t,
    };
    proof {
        let rr = verify_outcome(
            config.scale_encoded_header@,
            tracker.entries@,
            *config.genesis_configuration,
        );
        match rr {
            Ok(pv) => {
                assert(p@ =~~= pv);
            },
            Err(_) => {
                assert(false);
            },
        }
    }
    Ok(p)
}

} // verus!
