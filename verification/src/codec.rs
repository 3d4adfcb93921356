//! Decoding of encoded block headers and of the payloads of BABE digest
//! entries.
//!
//! The byte format is the one the chain's headers are carried in: fixed-width
//! little-endian integers, length-prefixed byte strings, and the compact
//! integer scheme whose two low bits of the first byte select the width.
//! The spec functions in this module are the format's definition; each
//! executable decoder is proved to return exactly what its spec function
//! says, on every input. Decoding is strict: only the minimal (canonical)
//! compact form is accepted, and payload decoders consume the whole payload.

use vstd::prelude::*;

verus! {

use crate::types::{
    AuthorityV, ConsensusLogV, DigestItemV, HeaderV, PreDigestV, Authority, ConsensusLog,
    DigestItem, Header, PreDigest,
};

// ---------------------------------------------------------------------------
// Little-endian integers
// ---------------------------------------------------------------------------

/// Little-endian value of the first `n` bytes of `s`.
pub open spec fn le_val(s: Seq<u8>, n: int) -> int
    decreases n,
{
    if n <= 0 {
        0
    } else {
        s[0] + 256 * le_val(s.skip(1), n - 1)
    }
}

/// `256^n`.
pub open spec fn pow256(n: int) -> int
    decreases n,
{
    if n <= 0 {
        1
    } else {
        256 * pow256(n - 1)
    }
}

pub proof fn lemma_pow256_mono(a: int, b: int)
    requires
        0 <= a <= b,
    ensures
        pow256(a) <= pow256(b),
        pow256(a) >= 1,
    decreases b,
{
    if b > 0 {
        if a == b {
            lemma_pow256_mono(0, a - 1);
        } else {
            lemma_pow256_mono(a, b - 1);
        }
    }
}

/// An `n`-byte little-endian value is below `256^n`.
pub proof fn lemma_le_val_bound(s: Seq<u8>, n: int)
    requires
        0 <= n <= s.len(),
    ensures
        0 <= le_val(s, n) < pow256(n),
    decreases n,
{
    if n > 0 {
        lemma_le_val_bound(s.skip(1), n - 1);
    }
}

/// Reads the `n`-byte little-endian integer at offset `i`.
pub fn read_le(b: &Vec<u8>, i: usize, n: usize) -> (r: u64)
    requires
        n <= 8,
        i + n <= b@.len(),
    ensures
        r as int == le_val(b@.skip(i as int), n as int),
{
    let _blen = b.len();
    let mut acc: u128 = 0;
    let mut k: usize = n;
    proof {
        assert(b@.skip(i as int).skip(n as int) =~= b@.skip(i + n as int));
    }
    while k > 0
        invariant
            k <= n,
            n <= 8,
            i + n <= b@.len(),
            b@.len() <= usize::MAX,
            acc as int == le_val(b@.skip(i + k as int), (n - k) as int),
            acc < pow256((n - k) as int),
        decreases k,
    {
        k = k - 1;
        proof {
            lemma_le_val_bound(b@.skip(i + k as int), (n - k) as int);
            lemma_pow256_mono((n - k) as int, 8);
            assert(pow256(8) == 0x1_0000_0000_0000_0000) by {
                reveal_with_fuel(pow256, 9);
            }
            assert(b@.skip(i + k as int).skip(1) =~= b@.skip(i + k + 1 as int));
            assert(b@.skip(i + k as int)[0] == b@[i + k as int]);
        }
        acc = acc * 256 + (b[i + k] as u128);
    }
    proof {
        lemma_pow256_mono(n as int, 8);
        assert(pow256(8) == 0x1_0000_0000_0000_0000) by {
            reveal_with_fuel(pow256, 9);
        }
    }
    acc as u64
}

/// Copies the `n` bytes at offset `i` into a fresh vector.
pub fn copy_range(b: &Vec<u8>, i: usize, n: usize) -> (r: Vec<u8>)
    requires
        i + n <= b@.len(),
    ensures
        r@ == b@.subrange(i as int, i + n as int),
{
    let _blen = b.len();
    let mut r: Vec<u8> = Vec::new();
    let mut k: usize = 0;
    while k < n
        invariant
            k <= n,
            i + n <= b@.len(),
            b@.len() <= usize::MAX,
            r@ == b@.subrange(i as int, i + k as int),
        decreases n - k,
    {
        r.push(b[i + k]);
        k = k + 1;
        proof {
            assert(r@ =~= b@.subrange(i as int, i + k as int));
        }
    }
    r
}

// ---------------------------------------------------------------------------
// Compact integers
// ---------------------------------------------------------------------------

/// Decodes the compact integer at the front of `s`: the value and the byte
/// count consumed. `None` if `s` does not begin with the minimal encoding of
/// a value that fits in `u64`.
pub open spec fn dec_compact(s: Seq<u8>) -> Option<(u64, int)> {
    if s.len() == 0 {
        None
    } else {
        let b0 = s[0] as int;
        let mode = b0 % 4;
        if mode == 0 {
            Some(((b0 / 4) as u64, 1))
        } else if mode == 1 {
            if s.len() < 2 {
                None
            } else {
                let v = (b0 + 256 * (s[1] as int)) / 4;
                if v >= 64 {
                    Some((v as u64, 2))
                } else {
                    None
                }
            }
        } else if mode == 2 {
            if s.len() < 4 {
                None
            } else {
                let v = le_val(s, 4) / 4;
                if v >= 16384 {
                    Some((v as u64, 4))
                } else {
                    None
                }
            }
        } else {
            let n = b0 / 4 + 4;
            if n > 8 || s.len() < 1 + n {
                None
            } else {
                let v = le_val(s.skip(1), n);
                if s[n] != 0 && v >= 0x4000_0000 {
                    Some((v as u64, 1 + n))
                } else {
                    None
                }
            }
        }
    }
}

/// Decodes the compact integer at offset `i`.
pub fn dec_compact_at(b: &Vec<u8>, i: usize) -> (r: Option<(u64, usize)>)
    requires
        i <= b@.len(),
    ensures
        match r {
            Some((v, c)) => {
                &&& dec_compact(b@.skip(i as int)) == Some((v, c as int))
                &&& 1 <= c
                &&& i + c <= b@.len()
            },
            None => dec_compact(b@.skip(i as int)) is None,
        },
{
    let ghost s = b@.skip(i as int);
    if i >= b.len() {
        return None;
    }
    let b0 = b[i];
    proof {
        assert(s[0] == b@[i as int]);
    }
    let mode = b0 % 4;
    if mode == 0 {
        Some(((b0 / 4) as u64, 1))
    } else if mode == 1 {
        if b.len() - i < 2 {
            return None;
        }
        proof {
            assert(s[1] == b@[i + 1]);
        }
        let w: u64 = (b0 as u64) + 256 * (b[i + 1] as u64);
        let v: u64 = w / 4;
        if v >= 64 {
            Some((v, 2))
        } else {
            None
        }
    } else if mode == 2 {
        if b.len() - i < 4 {
            return None;
        }
        let w = read_le(b, i, 4);
        let v: u64 = w / 4;
        if v >= 16384 {
            Some((v, 4))
        } else {
            None
        }
    } else {
        let n: usize = (b0 / 4) as usize + 4;
        if n > 8 || b.len() - i < 1 + n {
            return None;
        }
        let v = read_le(b, i + 1, n);
        proof {
            assert(s.skip(1) =~= b@.skip(i + 1 as int));
            assert(s[n as int] == b@[i + n as int]);
        }
        if b[i + n] != 0 && v >= 0x4000_0000 {
            Some((v, 1 + n))
        } else {
            None
        }
    }
}

// ---------------------------------------------------------------------------
// Digest items
// ---------------------------------------------------------------------------

/// Decodes a length-prefixed byte string at the front of `s`.
pub open spec fn dec_payload(s: Seq<u8>) -> Option<(Seq<u8>, int)> {
    match dec_compact(s) {
        None => None,
        Some((l, c)) => {
            if s.len() < c + l {
                None
            } else {
                Some((s.subrange(c, c + l), c + l))
            }
        },
    }
}

/// Decodes one digest log entry at the front of `s`: a tag byte, then for
/// the tagged kinds a four-byte engine identifier, then a length-prefixed
/// payload.
pub open spec fn dec_digest_item(s: Seq<u8>) -> Option<(DigestItemV, int)> {
    if s.len() < 1 {
        None
    } else {
        let tag = s[0];
        if tag == 0 {
            match dec_payload(s.skip(1)) {
                None => None,
                Some((p, c)) => Some((DigestItemV::Other(p), 1 + c)),
            }
        } else if tag == 4 || tag == 5 || tag == 6 {
            if s.len() < 5 {
                None
            } else {
                let engine = le_val(s.skip(1), 4) as u32;
                match dec_payload(s.skip(5)) {
                    None => None,
                    Some((p, c)) => {
                        if tag == 4 {
                            Some((DigestItemV::Consensus(engine, p), 5 + c))
                        } else if tag == 5 {
                            Some((DigestItemV::Seal(engine, p), 5 + c))
                        } else {
                            Some((DigestItemV::PreRuntime(engine, p), 5 + c))
                        }
                    },
                }
            }
        } else {
            None
        }
    }
}

/// Decodes `n` digest log entries at the front of `s`.
pub open spec fn dec_digest_items(s: Seq<u8>, n: int) -> Option<(Seq<DigestItemV>, int)>
    decreases n,
{
    if n <= 0 {
        Some((Seq::empty(), 0))
    } else {
        match dec_digest_item(s) {
            None => None,
            Some((d, c)) => match dec_digest_items(s.skip(c), n - 1) {
                None => None,
                Some((ds, c2)) => Some((seq![d] + ds, c + c2)),
            },
        }
    }
}

/// Decodes a whole header. The bytes must be consumed exactly.
pub open spec fn dec_header(s: Seq<u8>) -> Option<HeaderV> {
    if s.len() < 32 {
        None
    } else {
        match dec_compact(s.skip(32)) {
            None => None,
            Some((number, c1)) => {
                let p = 32 + c1;
                if s.len() < p + 64 {
                    None
                } else {
                    match dec_compact(s.skip(p + 64)) {
                        None => None,
                        Some((n, c2)) => {
                            let q = p + 64 + c2;
                            match dec_digest_items(s.skip(q), n as int) {
                                None => None,
                                Some((logs, c3)) => {
                                    if q + c3 == s.len() {
                                        Some(
                                            HeaderV {
                                                parent_hash: s.subrange(0, 32),
                                                number,
                                                state_root: s.subrange(p, p + 32),
                                                extrinsics_root: s.subrange(p + 32, p + 64),
                                                logs,
                                            },
                                        )
                                    } else {
                                        None
                                    }
                                },
                            }
                        },
                    }
                }
            },
        }
    }
}

/// Decodes the length-prefixed byte string at offset `i`.
fn dec_payload_at(b: &Vec<u8>, i: usize) -> (r: Option<(Vec<u8>, usize)>)
    requires
        i <= b@.len(),
    ensures
        match r {
            Some((p, c)) => {
                &&& dec_payload(b@.skip(i as int)) == Some((p@, c as int))
                &&& 1 <= c
                &&& i + c <= b@.len()
            },
            None => dec_payload(b@.skip(i as int)) is None,
        },
{
    let ghost s = b@.skip(i as int);
    match dec_compact_at(b, i) {
        None => None,
        Some((l, c)) => {
            if l > (b.len() - i - c) as u64 {
                return None;
            }
            let l = l as usize;
            let p = copy_range(b, i + c, l);
            proof {
                assert(s.subrange(c as int, c + l as int) =~= b@.subrange(
                    i + c as int,
                    i + c + l as int,
                ));
            }
            Some((p, c + l))
        },
    }
}

/// Decodes the digest log entry at offset `i`.
fn dec_digest_item_at(b: &Vec<u8>, i: usize) -> (r: Option<(DigestItem, usize)>)
    requires
        i <= b@.len(),
    ensures
        match r {
            Some((d, c)) => {
                &&& dec_digest_item(b@.skip(i as int)) == Some((d@, c as int))
                &&& 1 <= c
                &&& i + c <= b@.len()
            },
            None => dec_digest_item(b@.skip(i as int)) is None,
        },
{
    let ghost s = b@.skip(i as int);
    if i >= b.len() {
        return None;
    }
    let tag = b[i];
    proof {
        assert(s[0] == b@[i as int]);
        assert(s.skip(1) =~= b@.skip(i + 1 as int));
    }
    if tag == 0 {
        match dec_payload_at(b, i + 1) {
            None => None,
            Some((p, c)) => Some((DigestItem::Other(p), 1 + c)),
        }
    } else if tag == 4 || tag == 5 || tag == 6 {
        if b.len() - i < 5 {
            return None;
        }
        let engine = read_le(b, i + 1, 4) as u32;
        proof {
            assert(s.skip(5) =~= b@.skip(i + 5 as int));
            lemma_le_val_bound(b@.skip(i + 1 as int), 4);
            assert(pow256(4) == 0x1_0000_0000) by {
                reveal_with_fuel(pow256, 5);
            }
        }
        match dec_payload_at(b, i + 5) {
            None => None,
            Some((p, c)) => {
                if tag == 4 {
                    Some((DigestItem::Consensus(engine, p), 5 + c))
                } else if tag == 5 {
                    Some((DigestItem::Seal(engine, p), 5 + c))
                } else {
                    Some((DigestItem::PreRuntime(engine, p), 5 + c))
                }
            },
        }
    } else {
        None
    }
}

/// Decodes the whole of `b` as a header.
#[verifier::loop_isolation(false)]
#[verifier::rlimit(100)]
pub fn decode_header(b: &Vec<u8>) -> (r: Option<Header>)
    ensures
        match r {
            Some(h) => dec_header(b@) == Some(h@),
            None => dec_header(b@) is None,
        },
{
    if b.len() < 32 {
        return None;
    }
    let parent_hash = copy_range(b, 0, 32);
    let (number, c1) = match dec_compact_at(b, 32) {
        None => {
            return None;
        },
        Some(x) => x,
    };
    let p = 32 + c1;
    if b.len() - p < 64 {
        return None;
    }
    let state_root = copy_range(b, p, 32);
    let extrinsics_root = copy_range(b, p + 32, 32);
    let (n_logs, c2) = match dec_compact_at(b, p + 64) {
        None => {
            return None;
        },
        Some(x) => x,
    };
    proof {
        assert(p + 64 + c2 <= b@.len());
    }
    let q = p + 64 + c2;
    let ghost vf = |d: DigestItem| d@;
    let mut logs: Vec<DigestItem> = Vec::new();
    let mut pos: usize = q;
    let mut k: u64 = 0;
    while k < n_logs
        invariant
            k <= n_logs,
            q <= pos <= b@.len(),
            logs@.len() == k,
            vf == (|d: DigestItem| d@),
            dec_digest_items(b@.skip(q as int), n_logs as int) == match dec_digest_items(
                b@.skip(pos as int),
                n_logs - k,
            ) {
                None => None::<(Seq<DigestItemV>, int)>,
                Some((ds, c)) => Some((logs@.map_values(vf) + ds, pos - q + c)),
            },
        decreases n_logs - k,
    {
        match dec_digest_item_at(b, pos) {
            None => {
                return None;
            },
            Some((d, c)) => {
                proof {
                    assert(b@.skip(pos as int).skip(c as int) =~= b@.skip(pos + c as int));
                    let pre = logs@.map_values(vf);
                    let rest = dec_digest_items(b@.skip(pos + c as int), n_logs - k - 1);
                    assert(logs@.push(d).map_values(vf) =~= pre.push(d@));
                    if rest is Some {
                        let (ds, c2x) = rest.unwrap();
                        assert(pre + (seq![d@] + ds) =~= pre.push(d@) + ds);
                    }
                }
                logs.push(d);
                pos = pos + c;
                k = k + 1;
            },
        }
    }
    if pos != b.len() {
        return None;
    }
    let h = Header { parent_hash, number, state_root, extrinsics_root, logs };
    proof {
        assert(dec_digest_items(b@.skip(pos as int), 0) == Some((Seq::<DigestItemV>::empty(), 0int)));
        assert(logs@.map_values(vf) + Seq::<DigestItemV>::empty() =~= logs@.map_values(vf));
        assert(dec_header(b@) == Some(h@));
    }
    Some(h)
}

// ---------------------------------------------------------------------------
// Pre-runtime payload
// ---------------------------------------------------------------------------

/// Decodes a whole pre-runtime payload as a slot claim: a tag byte, the
/// authority index, the slot, and for the VRF-bearing kinds a 32-byte output
/// and a 64-byte proof.
pub open spec fn dec_pre_digest(s: Seq<u8>) -> Option<PreDigestV> {
    if s.len() < 1 {
        None
    } else if s[0] == 1 && s.len() == 109 {
        Some(
            PreDigestV::Primary {
                authority_index: le_val(s.skip(1), 4) as u32,
                slot: le_val(s.skip(5), 8) as u64,
                vrf_output: s.subrange(13, 45),
                vrf_proof: s.subrange(45, 109),
            },
        )
    } else if s[0] == 2 && s.len() == 13 {
        Some(
            PreDigestV::SecondaryPlain {
                authority_index: le_val(s.skip(1), 4) as u32,
                slot: le_val(s.skip(5), 8) as u64,
            },
        )
    } else if s[0] == 3 && s.len() == 109 {
        Some(
            PreDigestV::SecondaryVrf {
                authority_index: le_val(s.skip(1), 4) as u32,
                slot: le_val(s.skip(5), 8) as u64,
                vrf_output: s.subrange(13, 45),
                vrf_proof: s.subrange(45, 109),
            },
        )
    } else {
        None
    }
}

/// Decodes the whole of `b` as a slot claim.
pub fn decode_pre_digest(b: &Vec<u8>) -> (r: Option<PreDigest>)
    ensures
        match r {
            Some(d) => dec_pre_digest(b@) == Some(d@),
            None => dec_pre_digest(b@) is None,
        },
{
    if b.len() < 1 {
        return None;
    }
    let tag = b[0];
    if tag == 1 && b.len() == 109 {
        proof {
            lemma_le_val_bound(b@.skip(1), 4);
            lemma_le_val_bound(b@.skip(5), 8);
            assert(pow256(4) == 0x1_0000_0000 && pow256(8) == 0x1_0000_0000_0000_0000) by {
                reveal_with_fuel(pow256, 9);
            }
        }
        let authority_index = read_le(b, 1, 4) as u32;
        let slot = read_le(b, 5, 8);
        let vrf_output = copy_range(b, 13, 32);
        let vrf_proof = copy_range(b, 45, 64);
        Some(PreDigest::Primary { authority_index, slot, vrf_output, vrf_proof })
    } else if tag == 2 && b.len() == 13 {
        proof {
            lemma_le_val_bound(b@.skip(1), 4);
            lemma_le_val_bound(b@.skip(5), 8);
            assert(pow256(4) == 0x1_0000_0000 && pow256(8) == 0x1_0000_0000_0000_0000) by {
                reveal_with_fuel(pow256, 9);
            }
        }
        let authority_index = read_le(b, 1, 4) as u32;
        let slot = read_le(b, 5, 8);
        Some(PreDigest::SecondaryPlain { authority_index, slot })
    } else if tag == 3 && b.len() == 109 {
        proof {
            lemma_le_val_bound(b@.skip(1), 4);
            lemma_le_val_bound(b@.skip(5), 8);
            assert(pow256(4) == 0x1_0000_0000 && pow256(8) == 0x1_0000_0000_0000_0000) by {
                reveal_with_fuel(pow256, 9);
            }
        }
        let authority_index = read_le(b, 1, 4) as u32;
        let slot = read_le(b, 5, 8);
        let vrf_output = copy_range(b, 13, 32);
        let vrf_proof = copy_range(b, 45, 64);
        Some(PreDigest::SecondaryVrf { authority_index, slot, vrf_output, vrf_proof })
    } else {
        None
    }
}

// ---------------------------------------------------------------------------
// Consensus payload
// ---------------------------------------------------------------------------

/// Decodes `n` authority entries (32-byte key, 8-byte weight each) at the
/// front of `s`.
pub open spec fn dec_authorities(s: Seq<u8>, n: int) -> Option<Seq<AuthorityV>>
    decreases n,
{
    if n <= 0 {
        Some(Seq::empty())
    } else if s.len() < 40 {
        None
    } else {
        match dec_authorities(s.skip(40), n - 1) {
            None => None,
            Some(rest) => Some(
                seq![
                    AuthorityV {
                        public_key: s.subrange(0, 32),
                        weight: le_val(s.skip(32), 8) as u64,
                    },
                ] + rest,
            ),
        }
    }
}

/// Decodes a whole consensus payload as a log entry: next-epoch data, a
/// disabled-authority mark, or a configuration change.
pub open spec fn dec_consensus_log(s: Seq<u8>) -> Option<ConsensusLogV> {
    if s.len() < 1 {
        None
    } else if s[0] == 1 {
        match dec_compact(s.skip(1)) {
            None => None,
            Some((n, c)) => {
                if s.len() != 1 + c + 40 * n + 32 {
                    None
                } else {
                    match dec_authorities(s.skip(1 + c), n as int) {
                        None => None,
                        Some(auths) => Some(
                            ConsensusLogV::NextEpochData {
                                authorities: auths,
                                randomness: s.subrange(s.len() - 32, s.len() as int),
                            },
                        ),
                    }
                }
            },
        }
    } else if s[0] == 2 {
        if s.len() == 5 {
            Some(ConsensusLogV::OnDisabled { authority_index: le_val(s.skip(1), 4) as u32 })
        } else {
            None
        }
    } else if s[0] == 3 {
        if s.len() == 18 && (s[17] == 0 || s[17] == 1) {
            Some(
                ConsensusLogV::NextConfigData {
                    c_num: le_val(s.skip(1), 8) as u64,
                    c_den: le_val(s.skip(9), 8) as u64,
                    allow_secondary: s[17] == 1,
                },
            )
        } else {
            None
        }
    } else {
        None
    }
}

/// Decodes the whole of `b` as a consensus log entry.
#[verifier::loop_isolation(false)]
pub fn decode_consensus_log(b: &Vec<u8>) -> (r: Option<ConsensusLog>)
    ensures
        match r {
            Some(l) => dec_consensus_log(b@) == Some(l@),
            None => dec_consensus_log(b@) is None,
        },
{
    if b.len() < 1 {
        return None;
    }
    let tag = b[0];
    if tag == 1 {
        let (n, c) = match dec_compact_at(b, 1) {
            None => {
                proof {
                    assert(b@.skip(1 as int) =~= b@.skip(1));
                }
                return None;
            },
            Some(x) => x,
        };
        proof {
            assert(b@.skip(1 as int) =~= b@.skip(1));
        }
        // `40 * n + 32` must equal the remaining length exactly.
        let rem = (b.len() - 1 - c) as u64;
        if rem < 32 || (rem - 32) / 40 != n || (rem - 32) % 40 != 0 {
            proof {
                assert(b@.len() != 1 + c + 40 * (n as int) + 32);
            }
            return None;
        }
        proof {
            assert(b@.len() == 1 + c + 40 * (n as int) + 32);
            assert(n <= usize::MAX);
        }
        let n_us = n as usize;
        let ghost start = 1 + c;
        let mut auths: Vec<Authority> = Vec::new();
        let mut pos: usize = 1 + c;
        let mut k: usize = 0;
        let ghost af = |a: Authority| a@;
        while k < n_us
            invariant
                k <= n_us,
                n_us == n,
                pos == start + 40 * k,
                start + 40 * (n_us as int) + 32 == b@.len(),
                auths@.len() == k,
                af == (|a: Authority| a@),
                dec_authorities(b@.skip(start as int), n as int) == match dec_authorities(
                    b@.skip(pos as int),
                    n - k,
                ) {
                    None => None::<Seq<AuthorityV>>,
                    Some(rest) => Some(auths@.map_values(af) + rest),
                },
            decreases n_us - k,
        {
            let public_key = copy_range(b, pos, 32);
            let weight = read_le(b, pos + 32, 8);
            let a = Authority { public_key, weight };
            proof {
                assert(pos + 40 <= b@.len());
                let s = b@.skip(pos as int);
                assert(s.subrange(0, 32) =~= b@.subrange(pos as int, pos + 32 as int));
                assert(s.skip(32) =~= b@.skip(pos + 32 as int));
                assert(s.skip(40) =~= b@.skip(pos + 40 as int));
                lemma_le_val_bound(b@.skip(pos + 32 as int), 8);
                assert(pow256(8) == 0x1_0000_0000_0000_0000) by {
                    reveal_with_fuel(pow256, 9);
                }
                let pre = auths@.map_values(af);
                assert(auths@.push(a).map_values(af) =~= pre.push(a@));
                let rest = dec_authorities(b@.skip(pos + 40 as int), n - k - 1);
                if rest is Some {
                    assert(pre + (seq![a@] + rest.unwrap()) =~= pre.push(a@) + rest.unwrap());
                }
            }
            auths.push(a);
            pos = pos + 40;
            k = k + 1;
        }
        let randomness = copy_range(b, pos, 32);
        let l = ConsensusLog::NextEpochData { authorities: auths, randomness };
        proof {
            assert(dec_authorities(b@.skip(pos as int), 0) == Some(Seq::<AuthorityV>::empty()));
            assert(auths@.map_values(af) + Seq::<AuthorityV>::empty() =~= auths@.map_values(af));
            assert(b@.subrange(pos as int, pos + 32 as int) =~= b@.subrange(
                b@.len() - 32,
                b@.len() as int,
            ));
            assert(dec_consensus_log(b@) == Some(l@));
        }
        Some(l)
    } else if tag == 2 {
        if b.len() != 5 {
            return None;
        }
        proof {
            lemma_le_val_bound(b@.skip(1), 4);
            assert(pow256(4) == 0x1_0000_0000) by {
                reveal_with_fuel(pow256, 5);
            }
        }
        let authority_index = read_le(b, 1, 4) as u32;
        Some(ConsensusLog::OnDisabled { authority_index })
    } else if tag == 3 {
        if b.len() != 18 {
            return None;
        }
        let flag = b[17];
        if flag > 1 {
            return None;
        }
        proof {
            lemma_le_val_bound(b@.skip(1), 8);
            lemma_le_val_bound(b@.skip(9), 8);
            assert(pow256(8) == 0x1_0000_0000_0000_0000) by {
                reveal_with_fuel(pow256, 9);
            }
        }
        let c_num = read_le(b, 1, 8);
        let c_den = read_le(b, 9, 8);
        Some(ConsensusLog::NextConfigData { c_num, c_den, allow_secondary: flag == 1 })
    } else {
        None
    }
}

} // verus!
