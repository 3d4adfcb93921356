//! Fork-aware tracking of epoch descriptors.
//!
//! The tracker maps each verified block, by its hash, to the epoch
//! descriptor effective at that block, together with the per-branch
//! randomness accumulator and the pending parameters announced for the next
//! epoch. Committed state is never mutated: a child block either shares its
//! parent's descriptor values or gets a freshly built one, so sibling
//! branches can diverge freely.
//!
//! Hashing is an external capability. Where a new epoch's randomness is the
//! hash of accumulated VRF outputs, the tracker hands out the exact ordered
//! sequence to hash (`RandomnessSource::Accumulated`) and the caller passes
//! the 32-byte digest back to `commit_block`.

use vstd::prelude::*;

verus! {

use crate::types::{
    Authority, AuthorityV, ConsensusLog, ConsensusLogV, EpochDescriptor, EpochDescriptorV,
    VerifyError, wf_descriptor, wf_authorities, sum_weights, log_value_ok, clone_bytes,
    clone_u32s, clone_authorities, clone_outputs, clone_descriptor, compute_total_weight,
};
use vstd::arithmetic::div_mod::lemma_fundamental_div_mod;
use vstd::arithmetic::mul::{lemma_mul_is_commutative, lemma_mul_nonnegative};

// ---------------------------------------------------------------------------
// Views of list-valued fields
// ---------------------------------------------------------------------------

pub open spec fn outs_view(v: Vec<Vec<u8>>) -> Seq<Seq<u8>> {
    v@.map_values(|o: Vec<u8>| o@)
}

// ---------------------------------------------------------------------------
// Tracked state per block
// ---------------------------------------------------------------------------

/// Where the randomness of a block's epoch descriptor comes from: a value
/// known outright, or the ordered primary VRF outputs whose hash it is.
#[derive(Debug)]
pub enum RandomnessSource {
    Value(Vec<u8>),
    Accumulated(Vec<Vec<u8>>),
}

/// View of a randomness source.
#[verifier::ext_equal]
pub enum RandomnessSourceV {
    Value(Seq<u8>),
    Accumulated(Seq<Seq<u8>>),
}

impl View for RandomnessSource {
    type V = RandomnessSourceV;

    open spec fn view(&self) -> RandomnessSourceV {
        match self {
            RandomnessSource::Value(v) => RandomnessSourceV::Value(v@),
            RandomnessSource::Accumulated(o) => RandomnessSourceV::Accumulated(
                o@.map_values(|x: Vec<u8>| x@),
            ),
        }
    }
}

/// The state the tracker keeps for one verified block.
pub struct Entry {
    /// The block's hash, the key of the entry.
    pub hash: Vec<u8>,
    /// The block's slot.
    pub slot: u64,
    /// The epoch descriptor effective at this block.
    pub descriptor: EpochDescriptor,
    /// Primary VRF outputs of this block's epoch on this branch, in order,
    /// up to and including this block.
    pub cur_outputs: Vec<Vec<u8>>,
    /// Primary VRF outputs of the previous epoch on this branch, complete.
    pub prev_outputs: Vec<Vec<u8>>,
    /// The authority set announced for the next epoch, if a log was seen.
    pub pend_authorities: Option<Vec<Authority>>,
    /// The configuration announced for the next epoch, if a log was seen.
    pub pend_config: Option<(u64, u64, bool)>,
    /// Authorities disabled for the next epoch by `OnDisabled` logs.
    pub pend_disabled: Vec<u32>,
}

/// View of an entry.
#[verifier::ext_equal]
pub struct EntryV {
    pub hash: Seq<u8>,
    pub slot: u64,
    pub descriptor: EpochDescriptorV,
    pub cur_outputs: Seq<Seq<u8>>,
    pub prev_outputs: Seq<Seq<u8>>,
    pub pend_authorities: Option<Seq<AuthorityV>>,
    pub pend_config: Option<(u64, u64, bool)>,
    pub pend_disabled: Seq<u32>,
}

impl View for Entry {
    type V = EntryV;

    open spec fn view(&self) -> EntryV {
        EntryV {
            hash: self.hash@,
            slot: self.slot,
            descriptor: self.descriptor@,
            cur_outputs: self.cur_outputs@.map_values(|o: Vec<u8>| o@),
            prev_outputs: self.prev_outputs@.map_values(|o: Vec<u8>| o@),
            pend_authorities: match &self.pend_authorities {
                None => None,
                Some(v) => Some(v@.map_values(|a: Authority| a@)),
            },
            pend_config: self.pend_config,
            pend_disabled: self.pend_disabled@,
        }
    }
}

/// A usable entry: well-formed descriptor, 32-byte hash and outputs, and
/// well-formed pending parameters.
pub open spec fn wf_entry(e: EntryV) -> bool {
    &&& e.hash.len() == 32
    &&& wf_descriptor(e.descriptor)
    &&& match e.pend_authorities {
        Some(a) => wf_authorities(a),
        None => true,
    }
    &&& match e.pend_config {
        Some((n, d, _)) => 1 <= n <= d,
        None => true,
    }
    &&& forall|i: int| 0 <= i < e.cur_outputs.len() ==> (#[trigger] e.cur_outputs[i]).len() == 32
    &&& forall|i: int| 0 <= i < e.prev_outputs.len() ==> (#[trigger] e.prev_outputs[i]).len() == 32
}

// ---------------------------------------------------------------------------
// Consensus-log digestion
// ---------------------------------------------------------------------------

/// The last `NextEpochData` of the list, if any: the authorities and the
/// announced randomness.
pub open spec fn last_next_epoch(ls: Seq<ConsensusLogV>) -> Option<(Seq<AuthorityV>, Seq<u8>)>
    decreases ls.len(),
{
    if ls.len() == 0 {
        None
    } else {
        match ls.last() {
            ConsensusLogV::NextEpochData { authorities, randomness } => Some(
                (authorities, randomness),
            ),
            _ => last_next_epoch(ls.drop_last()),
        }
    }
}

/// The last `NextConfigData` of the list, if any.
pub open spec fn last_next_config(ls: Seq<ConsensusLogV>) -> Option<(u64, u64, bool)>
    decreases ls.len(),
{
    if ls.len() == 0 {
        None
    } else {
        match ls.last() {
            ConsensusLogV::NextConfigData { c_num, c_den, allow_secondary } => Some(
                (c_num, c_den, allow_secondary),
            ),
            _ => last_next_config(ls.drop_last()),
        }
    }
}

/// All `OnDisabled` indices of the list, in order.
pub open spec fn disabled_of(ls: Seq<ConsensusLogV>) -> Seq<u32>
    decreases ls.len(),
{
    if ls.len() == 0 {
        Seq::empty()
    } else {
        disabled_of(ls.drop_last()) + (match ls.last() {
            ConsensusLogV::OnDisabled { authority_index } => seq![authority_index],
            _ => Seq::empty(),
        })
    }
}

// ---------------------------------------------------------------------------
// The epoch transition rule
// ---------------------------------------------------------------------------

/// What verifying a block against its parent's state yields, short of the
/// cryptographic checks: the descriptor the block runs under, where its
/// randomness comes from, the accumulator buckets before this block's own
/// output is folded in, and the pending parameters for the next boundary.
#[verifier::ext_equal]
pub struct TransitionV {
    pub descriptor: EpochDescriptorV,
    pub source: RandomnessSourceV,
    pub cur_outputs: Seq<Seq<u8>>,
    pub prev_outputs: Seq<Seq<u8>>,
    pub pend_authorities: Option<Seq<AuthorityV>>,
    pub pend_config: Option<(u64, u64, bool)>,
    pub pend_disabled: Seq<u32>,
}

/// The descriptor rule. A block in its parent's epoch inherits the parent's
/// descriptor and extends the pending parameters. A block whose slot falls
/// in a later epoch opens it: the authority set must have been announced by
/// a `NextEpochData` in this block or earlier in the parent's epoch, the
/// threshold configuration is the announced one or is inherited, the
/// disabled set is what `OnDisabled` logs accumulated, and the randomness is
/// the genesis seed for epochs 0 and 1, and the hash of the primary VRF
/// outputs of epoch `e - 2` on this branch otherwise. (The randomness field
/// a `NextEpochData` log announces is decoded and carried in the data
/// model, but the committed randomness is always the accumulator-derived
/// one: the descriptor rule, not the block author, decides it.)
pub open spec fn resolve_transition(
    parent: EntryV,
    slot: u64,
    logs: Seq<ConsensusLogV>,
    g: crate::types::BabeGenesisConfiguration,
) -> Result<TransitionV, VerifyError> {
    let start0 = g.epoch0.start_slot;
    let dur = g.epoch_duration;
    if slot < start0 {
        Err(VerifyError::SlotEpochMismatch)
    } else {
        let e = (slot - start0) / (dur as int);
        let ep = parent.descriptor.epoch_index as int;
        if e < ep {
            Err(VerifyError::SlotEpochMismatch)
        } else if e == ep {
            Ok(
                TransitionV {
                    descriptor: parent.descriptor,
                    source: RandomnessSourceV::Value(parent.descriptor.randomness),
                    cur_outputs: parent.cur_outputs,
                    prev_outputs: parent.prev_outputs,
                    pend_authorities: match last_next_epoch(logs) {
                        Some((a, _)) => Some(a),
                        None => parent.pend_authorities,
                    },
                    pend_config: match last_next_config(logs) {
                        Some(c) => Some(c),
                        None => parent.pend_config,
                    },
                    pend_disabled: parent.pend_disabled + disabled_of(logs),
                },
            )
        } else {
            let announced = match last_next_epoch(logs) {
                Some((a, _)) => Some(a),
                None => parent.pend_authorities,
            };
            match announced {
                None => Err(VerifyError::MissingEpochTransitionLog),
                Some(auths) => {
                    let cfg = match last_next_config(logs) {
                        Some(c) => Some(c),
                        None => parent.pend_config,
                    };
                    let (c_num, c_den, allow_secondary) = match cfg {
                        Some(c) => c,
                        None => (
                            parent.descriptor.c_num,
                            parent.descriptor.c_den,
                            parent.descriptor.allow_secondary,
                        ),
                    };
                    let source = if e <= 1 {
                        RandomnessSourceV::Value(g.epoch0.randomness@)
                    } else if e == ep + 1 {
                        RandomnessSourceV::Accumulated(parent.prev_outputs)
                    } else if e == ep + 2 {
                        RandomnessSourceV::Accumulated(parent.cur_outputs)
                    } else {
                        RandomnessSourceV::Accumulated(Seq::empty())
                    };
                    let randomness = match source {
                        RandomnessSourceV::Value(v) => v,
                        RandomnessSourceV::Accumulated(_) => Seq::empty(),
                    };
                    Ok(
                        TransitionV {
                            descriptor: EpochDescriptorV {
                                epoch_index: e as u64,
                                start_slot: (start0 + e * dur) as u64,
                                authorities: auths,
                                total_weight: sum_weights(auths) as u128,
                                randomness,
                                c_num,
                                c_den,
                                allow_secondary,
                                disabled: parent.pend_disabled,
                            },
                            source,
                            cur_outputs: Seq::empty(),
                            prev_outputs: if e == ep + 1 {
                                parent.cur_outputs
                            } else {
                                Seq::empty()
                            },
                            pend_authorities: None,
                            pend_config: None,
                            pend_disabled: disabled_of(logs),
                        },
                    )
                },
            }
        }
    }
}

/// A usable transition: well-formed descriptor fields, with the randomness
/// pinned by the source.
pub open spec fn wf_transition(t: TransitionV) -> bool {
    &&& wf_authorities(t.descriptor.authorities)
    &&& t.descriptor.total_weight == sum_weights(t.descriptor.authorities)
    &&& 1 <= t.descriptor.c_num <= t.descriptor.c_den
    &&& match t.source {
        RandomnessSourceV::Value(v) => t.descriptor.randomness == v && v.len() == 32,
        RandomnessSourceV::Accumulated(o) => t.descriptor.randomness.len() == 0 && forall|i: int|
            0 <= i < o.len() ==> (#[trigger] o[i]).len() == 32,
    }
    &&& match t.pend_authorities {
        Some(a) => wf_authorities(a),
        None => true,
    }
    &&& match t.pend_config {
        Some((n, d, _)) => 1 <= n <= d,
        None => true,
    }
    &&& forall|i: int| 0 <= i < t.cur_outputs.len() ==> (#[trigger] t.cur_outputs[i]).len() == 32
    &&& forall|i: int| 0 <= i < t.prev_outputs.len() ==> (#[trigger] t.prev_outputs[i]).len() == 32
}

// ---------------------------------------------------------------------------
// Executable transition
// ---------------------------------------------------------------------------

/// Executable counterpart of [`TransitionV`].
#[derive(Debug)]
pub struct Transition {
    pub descriptor: EpochDescriptor,
    pub source: RandomnessSource,
    pub cur_outputs: Vec<Vec<u8>>,
    pub prev_outputs: Vec<Vec<u8>>,
    pub pend_authorities: Option<Vec<Authority>>,
    pub pend_config: Option<(u64, u64, bool)>,
    pub pend_disabled: Vec<u32>,
}

impl View for Transition {
    type V = TransitionV;

    open spec fn view(&self) -> TransitionV {
        TransitionV {
            descriptor: self.descriptor@,
            source: self.source@,
            cur_outputs: self.cur_outputs@.map_values(|o: Vec<u8>| o@),
            prev_outputs: self.prev_outputs@.map_values(|o: Vec<u8>| o@),
            pend_authorities: match &self.pend_authorities {
                None => None,
                Some(v) => Some(v@.map_values(|a: Authority| a@)),
            },
            pend_config: self.pend_config,
            pend_disabled: self.pend_disabled@,
        }
    }
}

/// Scans for the last `NextEpochData`.
fn last_epoch_log(logs: &Vec<ConsensusLog>) -> (r: Option<(Vec<Authority>, Vec<u8>)>)
    ensures
        match r {
            Some((a, rnd)) => last_next_epoch(logs@.map_values(|l: ConsensusLog| l@)) == Some(
                ((a@.map_values(|x: Authority| x@)), rnd@),
            ),
            None => last_next_epoch(logs@.map_values(|l: ConsensusLog| l@)) is None,
        },
{
    let ghost lv = logs@.map_values(|l: ConsensusLog| l@);
    let mut k: usize = logs.len();
    proof {
        assert(lv.take(k as int) =~= lv);
    }
    while k > 0
        invariant
            k <= lv.len(),
            lv == logs@.map_values(|l: ConsensusLog| l@),
            last_next_epoch(lv.take(k as int)) == last_next_epoch(lv),
        decreases k,
    {
        k = k - 1;
        proof {
            assert(lv.take(k + 1 as int).drop_last() =~= lv.take(k as int));
            assert(lv.take(k + 1 as int).last() == lv[k as int]);
        }
        match &logs[k] {
            ConsensusLog::NextEpochData { authorities, randomness } => {
                let a = clone_authorities(authorities);
                let rnd = clone_bytes(randomness);
                return Some((a, rnd));
            },
            _ => {},
        }
    }
    proof {
        assert(lv.take(0) =~= Seq::<ConsensusLogV>::empty());
    }
    None
}

/// Scans for the last `NextConfigData`.
fn last_config_log(logs: &Vec<ConsensusLog>) -> (r: Option<(u64, u64, bool)>)
    ensures
        r == last_next_config(logs@.map_values(|l: ConsensusLog| l@)),
{
    let ghost lv = logs@.map_values(|l: ConsensusLog| l@);
    let mut k: usize = logs.len();
    proof {
        assert(lv.take(k as int) =~= lv);
    }
    while k > 0
        invariant
            k <= lv.len(),
            lv == logs@.map_values(|l: ConsensusLog| l@),
            last_next_config(lv.take(k as int)) == last_next_config(lv),
        decreases k,
    {
        k = k - 1;
        proof {
            assert(lv.take(k + 1 as int).drop_last() =~= lv.take(k as int));
            assert(lv.take(k + 1 as int).last() == lv[k as int]);
        }
        match &logs[k] {
            ConsensusLog::NextConfigData { c_num, c_den, allow_secondary } => {
                return Some((*c_num, *c_den, *allow_secondary));
            },
            _ => {},
        }
    }
    proof {
        assert(lv.take(0) =~= Seq::<ConsensusLogV>::empty());
    }
    None
}

/// Collects the `OnDisabled` indices, in order.
fn disabled_logs(logs: &Vec<ConsensusLog>) -> (r: Vec<u32>)
    ensures
        r@ == disabled_of(logs@.map_values(|l: ConsensusLog| l@)),
{
    let ghost lv = logs@.map_values(|l: ConsensusLog| l@);
    let mut r: Vec<u32> = Vec::new();
    let mut i: usize = 0;
    while i < logs.len()
        invariant
            i <= lv.len(),
            lv == logs@.map_values(|l: ConsensusLog| l@),
            r@ == disabled_of(lv.take(i as int)),
        decreases lv.len() - i,
    {
        proof {
            assert(lv.take(i + 1 as int).drop_last() =~= lv.take(i as int));
            assert(lv.take(i + 1 as int).last() == lv[i as int]);
        }
        match &logs[i] {
            ConsensusLog::OnDisabled { authority_index } => {
                r.push(*authority_index);
            },
            _ => {},
        }
        i = i + 1;
        proof {
            assert(r@ =~= disabled_of(lv.take(i as int)));
        }
    }
    proof {
        assert(lv.take(lv.len() as int) =~= lv);
    }
    r
}

/// Appends two disabled-index lists.
fn concat_u32s(a: &Vec<u32>, b: &Vec<u32>) -> (r: Vec<u32>)
    ensures
        r@ == a@ + b@,
{
    let mut r = clone_u32s(a);
    let mut i: usize = 0;
    while i < b.len()
        invariant
            i <= b@.len(),
            r@ == a@ + b@.take(i as int),
        decreases b@.len() - i,
    {
        r.push(b[i]);
        i = i + 1;
        proof {
            assert(r@ =~= a@ + b@.take(i as int));
        }
    }
    proof {
        assert(b@.take(b@.len() as int) =~= b@);
    }
    r
}

/// What `last_next_epoch` yields came from one of the entries, so it is
/// usable whenever every entry is.
proof fn lemma_last_epoch_ok(ls: Seq<ConsensusLogV>)
    requires
        forall|i: int| 0 <= i < ls.len() ==> log_value_ok(#[trigger] ls[i]),
    ensures
        match last_next_epoch(ls) {
            Some((a, r)) => wf_authorities(a) && r.len() == 32,
            None => true,
        },
    decreases ls.len(),
{
    if ls.len() > 0 {
        match ls.last() {
            ConsensusLogV::NextEpochData { authorities, randomness } => {
                assert(log_value_ok(ls[ls.len() - 1]));
            },
            _ => {
                assert(forall|i: int|
                    0 <= i < ls.drop_last().len() ==> log_value_ok(#[trigger] ls.drop_last()[i]));
                lemma_last_epoch_ok(ls.drop_last());
            },
        }
    }
}

/// Same for `last_next_config`.
proof fn lemma_last_config_ok(ls: Seq<ConsensusLogV>)
    requires
        forall|i: int| 0 <= i < ls.len() ==> log_value_ok(#[trigger] ls[i]),
    ensures
        match last_next_config(ls) {
            Some((n, d, _)) => 1 <= n <= d,
            None => true,
        },
    decreases ls.len(),
{
    if ls.len() > 0 {
        match ls.last() {
            ConsensusLogV::NextConfigData { .. } => {
                assert(log_value_ok(ls[ls.len() - 1]));
            },
            _ => {
                assert(forall|i: int|
                    0 <= i < ls.drop_last().len() ==> log_value_ok(#[trigger] ls.drop_last()[i]));
                lemma_last_config_ok(ls.drop_last());
            },
        }
    }
}

/// Applies the descriptor rule to a parent entry, a claimed slot, and the
/// block's decoded consensus logs.
pub fn transition_for(
    parent: &Entry,
    slot: u64,
    logs: &Vec<ConsensusLog>,
    g: &crate::types::BabeGenesisConfiguration,
) -> (r: Result<Transition, VerifyError>)
    requires
        wf_entry(parent@),
        crate::types::wf_genesis(g),
        forall|i: int| 0 <= i < logs@.len() ==> log_value_ok((#[trigger] logs@[i])@),
    ensures
        match r {
            Ok(t) => resolve_transition(parent@, slot, logs@.map_values(|l: ConsensusLog| l@), *g)
                == Ok::<TransitionV, VerifyError>(t@) && wf_transition(t@),
            Err(e) => resolve_transition(
                parent@,
                slot,
                logs@.map_values(|l: ConsensusLog| l@),
                *g,
            ) == Err::<TransitionV, VerifyError>(e),
        },
{
    let ghost lv = logs@.map_values(|l: ConsensusLog| l@);
    proof {
        assert forall|i: int| 0 <= i < lv.len() implies log_value_ok(#[trigger] lv[i]) by {
            assert(lv[i] == logs@[i]@);
        }
        lemma_last_epoch_ok(lv);
        lemma_last_config_ok(lv);
    }
    let start0 = g.epoch0.start_slot;
    let dur = g.epoch_duration;
    if slot < start0 {
        return Err(VerifyError::SlotEpochMismatch);
    }
    let e: u64 = (slot - start0) / dur;
    let ep: u64 = parent.descriptor.epoch_index;
    if e < ep {
        return Err(VerifyError::SlotEpochMismatch);
    }
    if e == ep {
        let pend_authorities = match last_epoch_log(logs) {
            Some((a, _)) => Some(a),
            None => match &parent.pend_authorities {
                Some(v) => Some(clone_authorities(v)),
                None => None,
            },
        };
        let pend_config = match last_config_log(logs) {
            Some(c) => Some(c),
            None => parent.pend_config,
        };
        let own_disabled = disabled_logs(logs);
        let t = Transition {
            descriptor: clone_descriptor(&parent.descriptor),
            source: RandomnessSource::Value(clone_bytes(&parent.descriptor.randomness)),
            cur_outputs: clone_outputs(&parent.cur_outputs),
            prev_outputs: clone_outputs(&parent.prev_outputs),
            pend_authorities,
            pend_config,
            pend_disabled: concat_u32s(&parent.pend_disabled, &own_disabled),
        };
        proof {
            assert(t@.cur_outputs =~= parent@.cur_outputs);
            assert(t@.prev_outputs =~= parent@.prev_outputs);
            let rr = resolve_transition(parent@, slot, lv, *g);
            match rr {
                Ok(tv) => {
                    assert(t@ =~~= tv);
                },
                Err(_) => {
                    assert(false);
                },
            }
        }
        return Ok(t);
    }
    // The slot opens a later epoch.
    let announced = match last_epoch_log(logs) {
        Some((a, _)) => Some(a),
        None => match &parent.pend_authorities {
            Some(v) => Some(clone_authorities(v)),
            None => None,
        },
    };
    let auths = match announced {
        None => {
            return Err(VerifyError::MissingEpochTransitionLog);
        },
        Some(a) => a,
    };
    let (c_num, c_den, allow_secondary) = match last_config_log(logs) {
        Some(c) => c,
        None => match parent.pend_config {
            Some(c) => c,
            None => (
                parent.descriptor.c_num,
                parent.descriptor.c_den,
                parent.descriptor.allow_secondary,
            ),
        },
    };
    let source = if e <= 1 {
        RandomnessSource::Value(clone_bytes(&g.epoch0.randomness))
    } else if e == ep + 1 {
        RandomnessSource::Accumulated(clone_outputs(&parent.prev_outputs))
    } else if ep <= u64::MAX - 2 && e == ep + 2 {
        RandomnessSource::Accumulated(clone_outputs(&parent.cur_outputs))
    } else {
        RandomnessSource::Accumulated(Vec::new())
    };
    let randomness = match &source {
        RandomnessSource::Value(v) => clone_bytes(v),
        RandomnessSource::Accumulated(_) => Vec::new(),
    };
    let total_weight = compute_total_weight(&auths);
    proof {
        // e * dur never passes the claimed slot.
        lemma_fundamental_div_mod(slot - start0, dur as int);
        lemma_mul_is_commutative(dur as int, e as int);
        lemma_mul_nonnegative(e as int, dur as int);
        assert((slot - start0) % (dur as int) >= 0);
        assert(e as int * dur as int <= slot - start0);
    }
    let start_slot: u64 = start0 + e * dur;
    let t = Transition {
        descriptor: EpochDescriptor {
            epoch_index: e,
            start_slot,
            authorities: auths,
            total_weight,
            randomness,
            c_num,
            c_den,
            allow_secondary,
            disabled: clone_u32s(&parent.pend_disabled),
        },
        source,
        cur_outputs: Vec::new(),
        prev_outputs: if e == ep + 1 {
            clone_outputs(&parent.cur_outputs)
        } else {
            Vec::new()
        },
        pend_authorities: None,
        pend_config: None,
        pend_disabled: disabled_logs(logs),
    };
    proof {
        assert(t@.cur_outputs =~= Seq::<Seq<u8>>::empty());
        if e == ep + 1 {
            assert(t@.prev_outputs =~= parent@.cur_outputs);
        } else {
            assert(t@.prev_outputs =~= Seq::<Seq<u8>>::empty());
        }
        if e as int == ep as int + 2 {
            assert(ep <= u64::MAX - 2 && e == ep + 2);
        }
        let rr = resolve_transition(parent@, slot, lv, *g);
        match rr {
            Ok(tv) => {
                assert(t@ =~~= tv);
            },
            Err(_) => {
                assert(false);
            },
        }
    }
    Ok(t)
}

// ---------------------------------------------------------------------------
// The pending outcome of verifying one header
// ---------------------------------------------------------------------------

/// What verifying a header yields before the external cryptographic answers
/// are in: the claim's author and kind, the VRF obligation (proof to check
/// against the transcript built from the descriptor's randomness and the
/// slot), the seal obligation (signature to check over the hash of the
/// pre-seal header), and the state to commit.
#[derive(Debug)]
pub struct PendingVerify {
    pub slot: u64,
    pub is_primary: bool,
    pub authority_index: u32,
    pub author_public_key: Vec<u8>,
    pub vrf_output: Option<Vec<u8>>,
    pub vrf_proof: Option<Vec<u8>>,
    pub seal_signature: Vec<u8>,
    pub pre_seal_header: crate::types::Header,
    pub transition: Transition,
}

/// View of a pending outcome.
#[verifier::ext_equal]
pub struct PendingVerifyV {
    pub slot: u64,
    pub is_primary: bool,
    pub authority_index: u32,
    pub author_public_key: Seq<u8>,
    pub vrf_output: Option<Seq<u8>>,
    pub vrf_proof: Option<Seq<u8>>,
    pub seal_signature: Seq<u8>,
    pub pre_seal_header: crate::types::HeaderV,
    pub transition: TransitionV,
}

impl View for PendingVerify {
    type V = PendingVerifyV;

    open spec fn view(&self) -> PendingVerifyV {
        PendingVerifyV {
            slot: self.slot,
            is_primary: self.is_primary,
            authority_index: self.authority_index,
            author_public_key: self.author_public_key@,
            vrf_output: match &self.vrf_output {
                None => None,
                Some(o) => Some(o@),
            },
            vrf_proof: match &self.vrf_proof {
                None => None,
                Some(o) => Some(o@),
            },
            seal_signature: self.seal_signature@,
            pre_seal_header: self.pre_seal_header@,
            transition: self.transition@,
        }
    }
}

/// A usable pending outcome.
pub open spec fn wf_pending(p: PendingVerifyV) -> bool {
    &&& wf_transition(p.transition)
    &&& (p.is_primary ==> p.vrf_output is Some)
    &&& match p.vrf_output {
        Some(o) => o.len() == 32,
        None => true,
    }
}

// ---------------------------------------------------------------------------
// The tracker
// ---------------------------------------------------------------------------

/// First entry whose hash is `h`, scanning from the front.
pub open spec fn lookup(entries: Seq<Entry>, h: Seq<u8>) -> Option<EntryV>
    decreases entries.len(),
{
    if entries.len() == 0 {
        None
    } else if entries[0].hash@ == h {
        Some(entries[0]@)
    } else {
        lookup(entries.skip(1), h)
    }
}

proof fn lemma_lookup_found(entries: Seq<Entry>, h: Seq<u8>, i: int)
    requires
        0 <= i < entries.len(),
        forall|j: int| 0 <= j < i ==> (#[trigger] entries[j]).hash@ != h,
        entries[i].hash@ == h,
    ensures
        lookup(entries, h) == Some(entries[i]@),
    decreases i,
{
    if i > 0 {
        assert(entries[0].hash@ != h);
        assert forall|j: int| 0 <= j < i - 1 implies (#[trigger] entries.skip(1)[j]).hash@ != h by {
            assert(entries.skip(1)[j] == entries[j + 1]);
        }
        assert(entries.skip(1)[i - 1] == entries[i]);
        lemma_lookup_found(entries.skip(1), h, i - 1);
    }
}

proof fn lemma_lookup_absent(entries: Seq<Entry>, h: Seq<u8>)
    requires
        forall|j: int| 0 <= j < entries.len() ==> (#[trigger] entries[j]).hash@ != h,
    ensures
        lookup(entries, h) is None,
    decreases entries.len(),
{
    if entries.len() > 0 {
        assert forall|j: int|
            0 <= j < entries.skip(1).len() implies (#[trigger] entries.skip(1)[j]).hash@ != h by {
            assert(entries.skip(1)[j] == entries[j + 1]);
        }
        lemma_lookup_absent(entries.skip(1), h);
    }
}

/// The entry a freshly committed block gets: the pending state with the
/// epoch randomness resolved and, for a primary claim, the VRF output folded
/// into the open accumulator bucket.
pub open spec fn committed_entry(block_hash: Seq<u8>, p: PendingVerifyV, rnd: Seq<u8>) -> EntryV {
    EntryV {
        hash: block_hash,
        slot: p.slot,
        descriptor: EpochDescriptorV {
            epoch_index: p.transition.descriptor.epoch_index,
            start_slot: p.transition.descriptor.start_slot,
            authorities: p.transition.descriptor.authorities,
            total_weight: p.transition.descriptor.total_weight,
            randomness: rnd,
            c_num: p.transition.descriptor.c_num,
            c_den: p.transition.descriptor.c_den,
            allow_secondary: p.transition.descriptor.allow_secondary,
            disabled: p.transition.descriptor.disabled,
        },
        cur_outputs: p.transition.cur_outputs + (if p.is_primary {
            seq![p.vrf_output.unwrap()]
        } else {
            Seq::empty()
        }),
        prev_outputs: p.transition.prev_outputs,
        pend_authorities: p.transition.pend_authorities,
        pend_config: p.transition.pend_config,
        pend_disabled: p.transition.pend_disabled,
    }
}

/// The randomness a pending outcome commits under: the known value, or the
/// externally computed hash of the accumulated outputs.
pub open spec fn resolved_randomness(p: PendingVerifyV, given: Option<Vec<u8>>) -> Seq<u8> {
    match p.transition.source {
        RandomnessSourceV::Value(v) => v,
        RandomnessSourceV::Accumulated(_) => given.unwrap()@,
    }
}

/// Whether any element of `keep` equals `h`, byte for byte.
fn contains_bytes(keep: &Vec<Vec<u8>>, h: &Vec<u8>) -> (r: bool)
    ensures
        r == outs_view(*keep).contains(h@),
{
    let mut i: usize = 0;
    while i < keep.len()
        invariant
            i <= keep@.len(),
            forall|j: int| 0 <= j < i ==> outs_view(*keep)[j] != h@,
        decreases keep@.len() - i,
    {
        if crate::types::bytes_eq(&keep[i], h) {
            proof {
                assert(outs_view(*keep)[i as int] == h@);
            }
            return true;
        }
        i = i + 1;
    }
    proof {
        if outs_view(*keep).contains(h@) {
            let j = choose|j: int|
                0 <= j < outs_view(*keep).len() && outs_view(*keep)[j] == h@;
            assert(false);
        }
    }
    false
}

/// Copies an entry.
fn clone_entry(e: &Entry) -> (r: Entry)
    ensures
        r@ == e@,
{
    let r = Entry {
        hash: clone_bytes(&e.hash),
        slot: e.slot,
        descriptor: clone_descriptor(&e.descriptor),
        cur_outputs: clone_outputs(&e.cur_outputs),
        prev_outputs: clone_outputs(&e.prev_outputs),
        pend_authorities: match &e.pend_authorities {
            Some(v) => Some(clone_authorities(v)),
            None => None,
        },
        pend_config: e.pend_config,
        pend_disabled: clone_u32s(&e.pend_disabled),
    };
    proof {
        assert(r@ =~~= e@);
    }
    r
}

/// The entries whose block hashes are still wanted, in order.
pub open spec fn kept_views(vs: Seq<EntryV>, keep: Seq<Seq<u8>>) -> Seq<EntryV>
    decreases vs.len(),
{
    if vs.len() == 0 {
        Seq::empty()
    } else {
        kept_views(vs.drop_last(), keep) + (if keep.contains(vs.last().hash) {
            seq![vs.last()]
        } else {
            Seq::empty()
        })
    }
}

/// The fork-indexed store of verified blocks' epoch state.
pub struct EpochTracker {
    pub entries: Vec<Entry>,
}

impl EpochTracker {
    /// Every entry usable, every hash unique.
    pub open spec fn wf(&self) -> bool {
        &&& forall|i: int|
            0 <= i < self.entries@.len() ==> wf_entry((#[trigger] self.entries@[i])@)
        &&& forall|i: int, j: int|
            0 <= i < j < self.entries@.len() ==> (#[trigger] self.entries@[i]).hash@ != (
            #[trigger] self.entries@[j]).hash@
    }

    /// Anchors the tracker at the genesis block: slot 0, the epoch-0
    /// descriptor, empty accumulators, nothing pending.
    pub fn new(genesis_hash: Vec<u8>, g: &crate::types::BabeGenesisConfiguration) -> (r: Self)
        requires
            genesis_hash@.len() == 32,
            crate::types::wf_genesis(g),
        ensures
            r.wf(),
            r.entries@.len() == 1,
            r.entries@[0]@.hash == genesis_hash@,
            r.entries@[0]@.slot == 0,
            r.entries@[0]@.descriptor == g.epoch0@,
            r.entries@[0]@.cur_outputs.len() == 0,
            r.entries@[0]@.prev_outputs.len() == 0,
            r.entries@[0]@.pend_authorities is None,
            r.entries@[0]@.pend_config is None,
            r.entries@[0]@.pend_disabled.len() == 0,
    {
        let e = Entry {
            hash: genesis_hash,
            slot: 0,
            descriptor: clone_descriptor(&g.epoch0),
            cur_outputs: Vec::new(),
            prev_outputs: Vec::new(),
            pend_authorities: None,
            pend_config: None,
            pend_disabled: Vec::new(),
        };
        let mut entries: Vec<Entry> = Vec::new();
        entries.push(e);
        EpochTracker { entries }
    }

    /// Finds the entry for a block hash.
    pub fn find(&self, h: &Vec<u8>) -> (r: Option<usize>)
        ensures
            match r {
                Some(i) => {
                    &&& i < self.entries@.len()
                    &&& self.entries@[i as int].hash@ == h@
                    &&& lookup(self.entries@, h@) == Some(self.entries@[i as int]@)
                },
                None => {
                    &&& lookup(self.entries@, h@) is None
                    &&& forall|j: int|
                        0 <= j < self.entries@.len() ==> (#[trigger] self.entries@[j]).hash@ != h@
                },
            },
    {
        let mut i: usize = 0;
        while i < self.entries.len()
            invariant
                i <= self.entries@.len(),
                forall|j: int| 0 <= j < i ==> (#[trigger] self.entries@[j]).hash@ != h@,
            decreases self.entries@.len() - i,
        {
            if crate::types::bytes_eq(&self.entries[i].hash, h) {
                proof {
                    lemma_lookup_found(self.entries@, h@, i as int);
                }
                return Some(i);
            }
            i = i + 1;
        }
        proof {
            lemma_lookup_absent(self.entries@, h@);
        }
        None
    }

    /// Commits a verified block, given the external answers: whether the
    /// seal signature checked over the pre-seal hash, whether the VRF proof
    /// checked (ignored for a claim carrying no proof), and, where the
    /// randomness source is an accumulated sequence, its 32-byte hash.
    ///
    /// The commit is atomic: on any failure the tracker is unchanged. It is
    /// also idempotent: committing a block already present leaves the
    /// tracker unchanged, so verifying the same header twice cannot
    /// double-fold its VRF output.
    pub fn commit_block(
        &mut self,
        block_hash: Vec<u8>,
        p: &PendingVerify,
        seal_ok: bool,
        vrf_ok: bool,
        accumulated_randomness: Option<Vec<u8>>,
    ) -> (r: Result<(), VerifyError>)
        requires
            old(self).wf(),
            wf_pending(p@),
            block_hash@.len() == 32,
            match p@.transition.source {
                RandomnessSourceV::Accumulated(_) => accumulated_randomness is Some
                    && accumulated_randomness.unwrap()@.len() == 32,
                RandomnessSourceV::Value(_) => true,
            },
        ensures
            final(self).wf(),
            !seal_ok ==> r == Err::<(), VerifyError>(VerifyError::BadSeal) && final(self).entries@
                == old(self).entries@,
            seal_ok && p@.vrf_output is Some && !vrf_ok ==> r == Err::<(), VerifyError>(
                VerifyError::BadVrfProof,
            ) && final(self).entries@ == old(self).entries@,
            seal_ok && (p@.vrf_output is Some ==> vrf_ok) && lookup(
                old(self).entries@,
                block_hash@,
            ) is Some ==> r == Ok::<(), VerifyError>(()) && final(self).entries@ == old(
                self,
            ).entries@,
            seal_ok && (p@.vrf_output is Some ==> vrf_ok) && lookup(
                old(self).entries@,
                block_hash@,
            ) is None ==> r == Ok::<(), VerifyError>(()) && final(self).entries@.len() == old(
                self,
            ).entries@.len() + 1 && final(self).entries@.subrange(0, old(self).entries@.len() as int)
                == old(self).entries@ && final(self).entries@.last()@ == committed_entry(
                block_hash@,
                p@,
                resolved_randomness(p@, accumulated_randomness),
            ),
    {
        if !seal_ok {
            return Err(VerifyError::BadSeal);
        }
        let needs_vrf = match &p.vrf_output {
            Some(_) => true,
            None => false,
        };
        if needs_vrf && !vrf_ok {
            return Err(VerifyError::BadVrfProof);
        }
        match self.find(&block_hash) {
            Some(_) => {
                return Ok(());
            },
            None => {},
        }
        let randomness = match &p.transition.source {
            RandomnessSource::Value(v) => clone_bytes(v),
            RandomnessSource::Accumulated(_) => accumulated_randomness.unwrap(),
        };
        let mut d = clone_descriptor(&p.transition.descriptor);
        d.randomness = randomness;
        let mut cur = clone_outputs(&p.transition.cur_outputs);
        if p.is_primary {
            match &p.vrf_output {
                Some(o) => {
                    cur.push(clone_bytes(o));
                },
                None => {
                    proof {
                        assert(false);
                    }
                },
            }
        }
        let entry = Entry {
            hash: block_hash,
            slot: p.slot,
            descriptor: d,
            cur_outputs: cur,
            prev_outputs: clone_outputs(&p.transition.prev_outputs),
            pend_authorities: match &p.transition.pend_authorities {
                Some(v) => Some(clone_authorities(v)),
                None => None,
            },
            pend_config: p.transition.pend_config,
            pend_disabled: clone_u32s(&p.transition.pend_disabled),
        };
        proof {
            let ce = committed_entry(
                block_hash@,
                p@,
                resolved_randomness(p@, accumulated_randomness),
            );
            if p@.is_primary {
                assert(entry@.cur_outputs =~= ce.cur_outputs);
            } else {
                assert(entry@.cur_outputs =~= ce.cur_outputs);
            }
            assert(entry@ =~~= ce);
            assert(wf_entry(entry@));
        }
        let ghost old_entries = self.entries@;
        self.entries.push(entry);
        proof {
            assert(self.entries@.subrange(0, old_entries.len() as int) =~= old_entries);
        }
        Ok(())
    }

    /// Releases the state of abandoned branches: every entry whose block
    /// hash is not among `keep` — the blocks still reachable from a tracked
    /// tip, or wanted as immutable history — is dropped, preserving the
    /// order of what remains.
    #[verifier::loop_isolation(false)]
    pub fn prune(&mut self, keep: &Vec<Vec<u8>>)
        requires
            old(self).wf(),
        ensures
            final(self).wf(),
            final(self).entries@.map_values(|e: Entry| e@) == kept_views(
                old(self).entries@.map_values(|e: Entry| e@),
                outs_view(*keep),
            ),
    {
        let ghost f = |e: Entry| e@;
        let ghost old_vs = self.entries@.map_values(f);
        let mut kept: Vec<Entry> = Vec::new();
        let ghost mut idxs: Seq<int> = Seq::empty();
        let n = self.entries.len();
        let mut i: usize = 0;
        proof {
            assert(old_vs.take(0) =~= Seq::<EntryV>::empty());
        }
        while i < n
            invariant
                i <= n,
                kept@.map_values(f) == kept_views(old_vs.take(i as int), outs_view(*keep)),
                idxs.len() == kept@.len(),
                forall|a: int| 0 <= a < idxs.len() ==> 0 <= #[trigger] idxs[a] < i,
                forall|a: int, b: int| 0 <= a < b < idxs.len() ==> idxs[a] < idxs[b],
                forall|a: int|
                    0 <= a < kept@.len() ==> (#[trigger] kept@[a])@ == old_vs[idxs[a]],
            decreases n - i,
        {
            proof {
                assert(old_vs.take(i + 1 as int).drop_last() =~= old_vs.take(i as int));
                assert(old_vs.take(i + 1 as int).last() == old_vs[i as int]);
            }
            if contains_bytes(keep, &self.entries[i].hash) {
                let e = clone_entry(&self.entries[i]);
                proof {
                    assert(old_vs[i as int].hash == self.entries@[i as int].hash@);
                    assert(kept@.push(e).map_values(f) =~= kept@.map_values(f).push(
                        old_vs[i as int],
                    ));
                    assert(kept_views(old_vs.take(i + 1 as int), outs_view(*keep)) =~= kept_views(
                        old_vs.take(i as int),
                        outs_view(*keep),
                    ).push(old_vs[i as int]));
                    idxs = idxs.push(i as int);
                }
                kept.push(e);
            } else {
                proof {
                    assert(old_vs[i as int].hash == self.entries@[i as int].hash@);
                    assert(kept_views(old_vs.take(i + 1 as int), outs_view(*keep)) =~= kept_views(
                        old_vs.take(i as int),
                        outs_view(*keep),
                    ));
                }
            }
            i = i + 1;
        }
        proof {
            assert(old_vs.take(n as int) =~= old_vs);
            assert forall|a: int|
                0 <= a < kept@.len() implies wf_entry((#[trigger] kept@[a])@) by {
                assert(kept@[a]@ == old_vs[idxs[a]]);
                assert(old_vs[idxs[a]] == self.entries@[idxs[a]]@);
            }
            assert forall|a: int, b: int|
                0 <= a < b < kept@.len() implies (#[trigger] kept@[a]).hash@ != (
            #[trigger] kept@[b]).hash@ by {
                assert(kept@[a]@ == old_vs[idxs[a]] && kept@[b]@ == old_vs[idxs[b]]);
                assert(idxs[a] < idxs[b]);
                assert(old_vs[idxs[a]].hash == self.entries@[idxs[a]].hash@);
                assert(old_vs[idxs[b]].hash == self.entries@[idxs[b]].hash@);
            }
        }
        self.entries = kept;
    }
}

} // verus!
