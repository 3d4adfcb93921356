//! Data model: headers, digest items, slot claims, consensus log entries,
//! epoch descriptors, and the error taxonomy of verification.
//!
//! Every executable type has a spec-level view (`...V`) over `Seq` so that
//! contracts can speak of the mathematical content of a value.

use vstd::prelude::*;

verus! {

// ---------------------------------------------------------------------------
// Spec-level views
// ---------------------------------------------------------------------------

/// View of one digest log entry of a header.
#[verifier::ext_equal]
pub enum DigestItemV {
    /// A log entry of a kind this protocol ignores.
    Other(Seq<u8>),
    /// A consensus log entry: engine identifier and payload.
    Consensus(u32, Seq<u8>),
    /// A seal: engine identifier and signature bytes.
    Seal(u32, Seq<u8>),
    /// A pre-runtime entry: engine identifier and payload.
    PreRuntime(u32, Seq<u8>),
}

/// View of a decoded block header.
#[verifier::ext_equal]
pub struct HeaderV {
    pub parent_hash: Seq<u8>,
    pub number: u64,
    pub state_root: Seq<u8>,
    pub extrinsics_root: Seq<u8>,
    pub logs: Seq<DigestItemV>,
}

/// View of a slot claim carried by the single BABE pre-runtime digest.
#[verifier::ext_equal]
pub enum PreDigestV {
    Primary { authority_index: u32, slot: u64, vrf_output: Seq<u8>, vrf_proof: Seq<u8> },
    SecondaryPlain { authority_index: u32, slot: u64 },
    SecondaryVrf { authority_index: u32, slot: u64, vrf_output: Seq<u8>, vrf_proof: Seq<u8> },
}

/// View of one weighted authority.
#[verifier::ext_equal]
pub struct AuthorityV {
    pub public_key: Seq<u8>,
    pub weight: u64,
}

/// View of a decoded BABE consensus log entry.
#[verifier::ext_equal]
pub enum ConsensusLogV {
    NextEpochData { authorities: Seq<AuthorityV>, randomness: Seq<u8> },
    OnDisabled { authority_index: u32 },
    NextConfigData { c_num: u64, c_den: u64, allow_secondary: bool },
}

/// View of an epoch descriptor.
#[verifier::ext_equal]
pub struct EpochDescriptorV {
    pub epoch_index: u64,
    pub start_slot: u64,
    pub authorities: Seq<AuthorityV>,
    pub total_weight: u128,
    pub randomness: Seq<u8>,
    pub c_num: u64,
    pub c_den: u64,
    pub allow_secondary: bool,
    pub disabled: Seq<u32>,
}

// ---------------------------------------------------------------------------
// Executable types
// ---------------------------------------------------------------------------

/// One digest log entry of a header. The engine identifier is held as the
/// little-endian value of its four bytes.
#[derive(Clone, Debug)]
pub enum DigestItem {
    Other(Vec<u8>),
    Consensus(u32, Vec<u8>),
    Seal(u32, Vec<u8>),
    PreRuntime(u32, Vec<u8>),
}

/// A decoded block header: parent hash, number, the two roots, and the
/// ordered digest log.
#[derive(Clone, Debug)]
pub struct Header {
    pub parent_hash: Vec<u8>,
    pub number: u64,
    pub state_root: Vec<u8>,
    pub extrinsics_root: Vec<u8>,
    pub logs: Vec<DigestItem>,
}

/// A slot claim decoded from the BABE pre-runtime digest payload.
#[derive(Clone, Debug)]
pub enum PreDigest {
    Primary { authority_index: u32, slot: u64, vrf_output: Vec<u8>, vrf_proof: Vec<u8> },
    SecondaryPlain { authority_index: u32, slot: u64 },
    SecondaryVrf { authority_index: u32, slot: u64, vrf_output: Vec<u8>, vrf_proof: Vec<u8> },
}

/// One weighted authority of an epoch.
#[derive(Clone, Debug)]
pub struct Authority {
    pub public_key: Vec<u8>,
    pub weight: u64,
}

/// A decoded BABE consensus log entry.
#[derive(Clone, Debug)]
pub enum ConsensusLog {
    NextEpochData { authorities: Vec<Authority>, randomness: Vec<u8> },
    OnDisabled { authority_index: u32 },
    NextConfigData { c_num: u64, c_den: u64, allow_secondary: bool },
}

/// The epoch descriptor effective at some block: the authority set and
/// weights, the epoch randomness, the threshold constant `c` as a fraction,
/// whether secondary claims are allowed, and the disabled authority indices.
#[derive(Clone, Debug)]
pub struct EpochDescriptor {
    pub epoch_index: u64,
    pub start_slot: u64,
    pub authorities: Vec<Authority>,
    pub total_weight: u128,
    pub randomness: Vec<u8>,
    pub c_num: u64,
    pub c_den: u64,
    pub allow_secondary: bool,
    pub disabled: Vec<u32>,
}

/// The immutable genesis consensus configuration: the descriptor of epoch 0
/// plus the slot count of an epoch and the duration of a slot.
#[derive(Clone, Debug)]
pub struct BabeGenesisConfiguration {
    pub epoch0: EpochDescriptor,
    pub epoch_duration: u64,
    pub slot_duration: u64,
}

/// Failure to verify a block header. A rejected header is rejected for good:
/// none of these conditions is retriable.
#[derive(Clone, Copy, Debug, PartialEq, Eq, Structural)]
pub enum VerifyError {
    /// The header bytes are not a well-formed encoded header.
    InvalidHeader,
    /// The last digest log entry is not a BABE seal.
    MissingSeal,
    /// No BABE pre-runtime digest is present.
    MissingPreRuntimeDigest,
    /// More than one BABE pre-runtime digest is present.
    MultiplePreRuntimeDigests,
    /// The pre-runtime digest payload is not a well-formed slot claim.
    PreRuntimeDigestDecodeError,
    /// A BABE consensus digest payload is not a well-formed log entry, or
    /// carries an invalid value (an empty authority set, a zero weight, a
    /// repeated key, or a threshold fraction outside `0 < c <= 1`).
    ConsensusDigestDecodeError,
    /// The tracker holds no state for the header's parent.
    UnknownParent,
    /// The claimed authority index is out of range or disabled.
    BadAuthorityIndex,
    /// The claimed slot does not map to an epoch this branch can verify.
    SlotEpochMismatch,
    /// The block opens a new epoch but no `NextEpochData` announces it.
    MissingEpochTransitionLog,
    /// A secondary claim was made while the descriptor disallows them.
    SecondaryClaimsDisallowed,
    /// The VRF proof does not check against the transcript and public key.
    BadVrfProof,
    /// The VRF proof is valid but the output does not meet the threshold.
    VrfOutputTooHigh,
    /// A secondary claim names an authority other than the slot's author.
    WrongSecondaryAuthor,
    /// The seal signature does not check over the pre-seal header hash.
    BadSeal,
}

impl VerifyError {
    /// A short description of the failure, for logs.
    pub fn description(&self) -> &'static str {
        match self {
            VerifyError::InvalidHeader => "header passed is of the wrong format",
            VerifyError::MissingSeal => "the seal is missing from the header",
            VerifyError::MissingPreRuntimeDigest => "no pre-runtime digest in the block header",
            VerifyError::MultiplePreRuntimeDigests => {
                "multiple pre-runtime digests in the block header"
            },
            VerifyError::PreRuntimeDigestDecodeError => "failed to decode pre-runtime digest",
            VerifyError::ConsensusDigestDecodeError => "failed to decode a consensus digest",
            VerifyError::UnknownParent => "the parent block is not tracked",
            VerifyError::BadAuthorityIndex => "authority index out of range or disabled",
            VerifyError::SlotEpochMismatch => "slot does not map to a verifiable epoch",
            VerifyError::MissingEpochTransitionLog => {
                "epoch transition without a next-epoch digest"
            },
            VerifyError::SecondaryClaimsDisallowed => "secondary slot claims are disallowed",
            VerifyError::BadVrfProof => "invalid VRF proof",
            VerifyError::VrfOutputTooHigh => "VRF output does not meet the slot threshold",
            VerifyError::WrongSecondaryAuthor => "not the slot's deterministic author",
            VerifyError::BadSeal => "invalid seal signature",
        }
    }
}

// ---------------------------------------------------------------------------
// View impls
// ---------------------------------------------------------------------------

impl View for DigestItem {
    type V = DigestItemV;

    open spec fn view(&self) -> DigestItemV {
        match self {
            DigestItem::Other(p) => DigestItemV::Other(p@),
            DigestItem::Consensus(e, p) => DigestItemV::Consensus(*e, p@),
            DigestItem::Seal(e, p) => DigestItemV::Seal(*e, p@),
            DigestItem::PreRuntime(e, p) => DigestItemV::PreRuntime(*e, p@),
        }
    }
}

impl View for Header {
    type V = HeaderV;

    open spec fn view(&self) -> HeaderV {
        HeaderV {
            parent_hash: self.parent_hash@,
            number: self.number,
            state_root: self.state_root@,
            extrinsics_root: self.extrinsics_root@,
            logs: self.logs@.map_values(|d: DigestItem| d@),
        }
    }
}

impl View for PreDigest {
    type V = PreDigestV;

    open spec fn view(&self) -> PreDigestV {
        match self {
            PreDigest::Primary { authority_index, slot, vrf_output, vrf_proof } => {
                PreDigestV::Primary {
                    authority_index: *authority_index,
                    slot: *slot,
                    vrf_output: vrf_output@,
                    vrf_proof: vrf_proof@,
                }
            },
            PreDigest::SecondaryPlain { authority_index, slot } => {
                PreDigestV::SecondaryPlain { authority_index: *authority_index, slot: *slot }
            },
            PreDigest::SecondaryVrf { authority_index, slot, vrf_output, vrf_proof } => {
                PreDigestV::SecondaryVrf {
                    authority_index: *authority_index,
                    slot: *slot,
                    vrf_output: vrf_output@,
                    vrf_proof: vrf_proof@,
                }
            },
        }
    }
}

impl View for Authority {
    type V = AuthorityV;

    open spec fn view(&self) -> AuthorityV {
        AuthorityV { public_key: self.public_key@, weight: self.weight }
    }
}

impl View for ConsensusLog {
    type V = ConsensusLogV;

    open spec fn view(&self) -> ConsensusLogV {
        match self {
            ConsensusLog::NextEpochData { authorities, randomness } => {
                ConsensusLogV::NextEpochData {
                    authorities: authorities@.map_values(|a: Authority| a@),
                    randomness: randomness@,
                }
            },
            ConsensusLog::OnDisabled { authority_index } => {
                ConsensusLogV::OnDisabled { authority_index: *authority_index }
            },
            ConsensusLog::NextConfigData { c_num, c_den, allow_secondary } => {
                ConsensusLogV::NextConfigData {
                    c_num: *c_num,
                    c_den: *c_den,
                    allow_secondary: *allow_secondary,
                }
            },
        }
    }
}

impl View for EpochDescriptor {
    type V = EpochDescriptorV;

    open spec fn view(&self) -> EpochDescriptorV {
        EpochDescriptorV {
            epoch_index: self.epoch_index,
            start_slot: self.start_slot,
            authorities: self.authorities@.map_values(|a: Authority| a@),
            total_weight: self.total_weight,
            randomness: self.randomness@,
            c_num: self.c_num,
            c_den: self.c_den,
            allow_secondary: self.allow_secondary,
            disabled: self.disabled@,
        }
    }
}

// ---------------------------------------------------------------------------
// Well-formedness
// ---------------------------------------------------------------------------

/// The engine identifier `b"BABE"`, as the little-endian value of its bytes.
pub const BABE_ENGINE: u32 = 0x45424142;

/// Sum of the weights of an authority list.
pub open spec fn sum_weights(auths: Seq<AuthorityV>) -> int
    decreases auths.len(),
{
    if auths.len() == 0 {
        0
    } else {
        sum_weights(auths.drop_last()) + auths.last().weight
    }
}

/// No two authorities share a public key.
pub open spec fn unique_keys(auths: Seq<AuthorityV>) -> bool {
    forall|i: int, j: int|
        0 <= i < j < auths.len() ==> auths[i].public_key != auths[j].public_key
}

/// A usable authority entry: a 32-byte key and a positive weight.
pub open spec fn wf_authority(a: AuthorityV) -> bool {
    a.public_key.len() == 32 && a.weight >= 1
}

/// A usable authority list: nonempty, all entries well formed, keys unique,
/// and small enough that a `u32` index covers it.
pub open spec fn wf_authorities(auths: Seq<AuthorityV>) -> bool {
    &&& auths.len() >= 1
    &&& auths.len() <= u32::MAX
    &&& forall|i: int| 0 <= i < auths.len() ==> wf_authority(#[trigger] auths[i])
    &&& unique_keys(auths)
}

/// A usable epoch descriptor. `total_weight` is pinned to the sum of the
/// weights, and the threshold constant satisfies `0 < c <= 1`.
pub open spec fn wf_descriptor(d: EpochDescriptorV) -> bool {
    &&& wf_authorities(d.authorities)
    &&& d.total_weight == sum_weights(d.authorities)
    &&& d.randomness.len() == 32
    &&& 1 <= d.c_num <= d.c_den
}

/// A decoded consensus log entry whose values are usable: an announced
/// authority set must be well formed, and an announced threshold fraction
/// must satisfy `0 < c <= 1`.
pub open spec fn log_value_ok(l: ConsensusLogV) -> bool {
    match l {
        ConsensusLogV::NextEpochData { authorities, randomness } => wf_authorities(authorities)
            && randomness.len() == 32,
        ConsensusLogV::OnDisabled { .. } => true,
        ConsensusLogV::NextConfigData { c_num, c_den, .. } => 1 <= c_num <= c_den,
    }
}

/// A usable genesis configuration: a well-formed epoch-0 descriptor and a
/// positive epoch length.
pub open spec fn wf_genesis(g: &BabeGenesisConfiguration) -> bool {
    &&& wf_descriptor(g.epoch0@)
    &&& g.epoch0@.epoch_index == 0
    &&& g.epoch_duration >= 1
}

// ---------------------------------------------------------------------------
// Executable helpers with exact contracts
// ---------------------------------------------------------------------------

/// Byte-for-byte equality of two vectors.
pub fn bytes_eq(a: &Vec<u8>, b: &Vec<u8>) -> (r: bool)
    ensures
        r == (a@ == b@),
{
    if a.len() != b.len() {
        return false;
    }
    let mut i: usize = 0;
    while i < a.len()
        invariant
            i <= a@.len(),
            a@.len() == b@.len(),
            forall|j: int| 0 <= j < i ==> a@[j] == b@[j],
        decreases a@.len() - i,
    {
        if a[i] != b[i] {
            return false;
        }
        i = i + 1;
    }
    proof {
        assert(a@ =~= b@);
    }
    true
}

/// Whether `v` holds `x`.
pub fn contains_u32(v: &Vec<u32>, x: u32) -> (r: bool)
    ensures
        r == v@.contains(x),
{
    let mut i: usize = 0;
    while i < v.len()
        invariant
            i <= v@.len(),
            forall|j: int| 0 <= j < i ==> v@[j] != x,
        decreases v@.len() - i,
    {
        if v[i] == x {
            proof {
                assert(v@[i as int] == x);
            }
            return true;
        }
        i = i + 1;
    }
    false
}

/// Copies a byte vector.
pub fn clone_bytes(v: &Vec<u8>) -> (r: Vec<u8>)
    ensures
        r@ == v@,
{
    let r = crate::codec::copy_range(v, 0, v.len());
    proof {
        assert(v@.subrange(0, v@.len() as int) =~= v@);
    }
    r
}

/// Copies a list of byte vectors.
pub fn clone_outputs(v: &Vec<Vec<u8>>) -> (r: Vec<Vec<u8>>)
    ensures
        r@.map_values(|o: Vec<u8>| o@) == v@.map_values(|o: Vec<u8>| o@),
        r@.len() == v@.len(),
{
    let ghost f = |o: Vec<u8>| o@;
    let mut r: Vec<Vec<u8>> = Vec::new();
    let mut i: usize = 0;
    while i < v.len()
        invariant
            i <= v@.len(),
            r@.len() == i,
            r@.map_values(f) == v@.take(i as int).map_values(f),
            f == (|o: Vec<u8>| o@),
        decreases v@.len() - i,
    {
        let o = clone_bytes(&v[i]);
        proof {
            assert(r@.push(o).map_values(f) =~= r@.map_values(f).push(o@));
            assert(v@.take(i + 1 as int).map_values(f) =~= v@.take(i as int).map_values(f).push(
                v@[i as int]@,
            ));
        }
        r.push(o);
        i = i + 1;
    }
    proof {
        assert(v@.take(v@.len() as int) =~= v@);
    }
    r
}

/// Copies an authority list.
pub fn clone_authorities(v: &Vec<Authority>) -> (r: Vec<Authority>)
    ensures
        r@.map_values(|a: Authority| a@) == v@.map_values(|a: Authority| a@),
        r@.len() == v@.len(),
{
    let ghost f = |a: Authority| a@;
    let mut r: Vec<Authority> = Vec::new();
    let mut i: usize = 0;
    while i < v.len()
        invariant
            i <= v@.len(),
            r@.len() == i,
            r@.map_values(f) == v@.take(i as int).map_values(f),
            f == (|a: Authority| a@),
        decreases v@.len() - i,
    {
        let a = Authority { public_key: clone_bytes(&v[i].public_key), weight: v[i].weight };
        proof {
            assert(a@ == v@[i as int]@);
            assert(r@.push(a).map_values(f) =~= r@.map_values(f).push(a@));
            assert(v@.take(i + 1 as int).map_values(f) =~= v@.take(i as int).map_values(f).push(
                v@[i as int]@,
            ));
        }
        r.push(a);
        i = i + 1;
    }
    proof {
        assert(v@.take(v@.len() as int) =~= v@);
    }
    r
}

/// Copies a disabled-index list.
pub fn clone_u32s(v: &Vec<u32>) -> (r: Vec<u32>)
    ensures
        r@ == v@,
{
    let mut r: Vec<u32> = Vec::new();
    let mut i: usize = 0;
    while i < v.len()
        invariant
            i <= v@.len(),
            r@ == v@.take(i as int),
        decreases v@.len() - i,
    {
        r.push(v[i]);
        i = i + 1;
        proof {
            assert(r@ =~= v@.take(i as int));
        }
    }
    proof {
        assert(v@.take(v@.len() as int) =~= v@);
    }
    r
}

/// Copies an epoch descriptor.
pub fn clone_descriptor(d: &EpochDescriptor) -> (r: EpochDescriptor)
    ensures
        r@ == d@,
{
    EpochDescriptor {
        epoch_index: d.epoch_index,
        start_slot: d.start_slot,
        authorities: clone_authorities(&d.authorities),
        total_weight: d.total_weight,
        randomness: clone_bytes(&d.randomness),
        c_num: d.c_num,
        c_den: d.c_den,
        allow_secondary: d.allow_secondary,
        disabled: clone_u32s(&d.disabled),
    }
}

/// Sums the weights of an authority list.
pub fn compute_total_weight(v: &Vec<Authority>) -> (r: u128)
    requires
        v@.len() <= u32::MAX,
    ensures
        r as int == sum_weights(v@.map_values(|a: Authority| a@)),
{
    let ghost f = |a: Authority| a@;
    let ghost av = v@.map_values(f);
    let mut acc: u128 = 0;
    let mut i: usize = 0;
    while i < v.len()
        invariant
            i <= v@.len(),
            v@.len() <= u32::MAX,
            av == v@.map_values(f),
            f == (|a: Authority| a@),
            acc as int == sum_weights(av.take(i as int)),
            acc <= (i as int) * 0xFFFF_FFFF_FFFF_FFFF,
        decreases v@.len() - i,
    {
        proof {
            assert(av.take(i + 1 as int).drop_last() =~= av.take(i as int));
            assert(av.take(i + 1 as int).last() == av[i as int]);
        }
        acc = acc + (v[i].weight as u128);
        i = i + 1;
    }
    proof {
        assert(av.take(av.len() as int) =~= av);
    }
    acc
}

/// Checks that an authority list is usable: nonempty, indexable by `u32`,
/// 32-byte keys, positive weights, no repeated key.
pub fn check_authorities(v: &Vec<Authority>) -> (r: bool)
    ensures
        r == wf_authorities(v@.map_values(|a: Authority| a@)),
{
    let ghost f = |a: Authority| a@;
    let ghost av = v@.map_values(f);
    if v.len() == 0 {
        return false;
    }
    if v.len() > u32::MAX as usize {
        return false;
    }
    let mut i: usize = 0;
    while i < v.len()
        invariant
            i <= av.len(),
            av == v@.map_values(f),
            f == (|a: Authority| a@),
            forall|j: int| 0 <= j < i ==> wf_authority(#[trigger] av[j]),
            forall|a: int, b: int| 0 <= a < b < i ==> av[a].public_key != av[b].public_key,
        decreases av.len() - i,
    {
        if v[i].public_key.len() != 32 || v[i].weight == 0 {
            proof {
                assert(!wf_authority(av[i as int]));
            }
            return false;
        }
        let mut j: usize = 0;
        while j < i
            invariant
                j <= i < av.len(),
                av == v@.map_values(f),
                f == (|a: Authority| a@),
                forall|k: int| 0 <= k < j ==> av[k].public_key != av[i as int].public_key,
            decreases i - j,
        {
            if bytes_eq(&v[j].public_key, &v[i].public_key) {
                proof {
                    assert(av[j as int].public_key == av[i as int].public_key);
                    assert(!unique_keys(av));
                }
                return false;
            }
            j = j + 1;
        }
        i = i + 1;
    }
    true
}

} // verus!
