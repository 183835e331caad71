//! Transfer fingerprints for replay detection.
//!
//! A submitted transfer is summarized as a 32-byte fingerprint: the request
//! fields and the caller identity are serialized unambiguously, folded
//! through a 64-bit FNV-1a digest, and the digest's big-endian bytes are
//! padded to 32 bytes. The ledger's observed time is mixed in as well, so
//! the fingerprint identifies a request as seen at one instant.

use vstd::prelude::*;
use crate::account::Principal;
use crate::types::{TransferArgs, TransferArgsV};

verus! {

/// The FNV-1a 64-bit offset basis.
pub const FNV_OFFSET: u64 = 0xcbf2_9ce4_8422_2325;

/// The FNV-1a 64-bit prime.
pub const FNV_PRIME: u64 = 0x0000_0100_0000_01b3;

/// Big-endian bytes of a 64-bit integer.
pub open spec fn enc_u64(x: u64) -> Seq<u8> {
    seq![
        (x >> 56) as u8,
        (x >> 48) as u8,
        (x >> 40) as u8,
        (x >> 32) as u8,
        (x >> 24) as u8,
        (x >> 16) as u8,
        (x >> 8) as u8,
        x as u8,
    ]
}

/// Big-endian bytes of a 128-bit integer.
pub open spec fn enc_u128(x: u128) -> Seq<u8> {
    enc_u64((x >> 64) as u64) + enc_u64(x as u64)
}

/// Length-prefixed encoding of a byte string.
pub open spec fn enc_bytes(b: Seq<u8>) -> Seq<u8> {
    enc_u64(b.len() as u64) + b
}

/// Tagged encoding of an optional byte string.
pub open spec fn enc_opt_bytes(o: Option<Seq<u8>>) -> Seq<u8> {
    match o {
        Some(b) => seq![1u8] + enc_bytes(b),
        None => seq![0u8],
    }
}

/// Tagged encoding of an optional 64-bit integer.
pub open spec fn enc_opt_u64(o: Option<u64>) -> Seq<u8> {
    match o {
        Some(x) => seq![1u8] + enc_u64(x),
        None => seq![0u8],
    }
}

/// Tagged encoding of an optional 128-bit integer.
pub open spec fn enc_opt_u128(o: Option<u128>) -> Seq<u8> {
    match o {
        Some(x) => seq![1u8] + enc_u128(x),
        None => seq![0u8],
    }
}

/// The serialized form of a transfer request as seen at `timestamp`:
/// caller, source subaccount, destination, amount, declared fee, memo,
/// declared creation time, and the ledger's observed time.
pub open spec fn fingerprint_input(caller: Seq<u8>, args: TransferArgsV, timestamp: u64) -> Seq<
    u8,
> {
    enc_bytes(caller) + enc_opt_bytes(args.from_subaccount) + enc_bytes(args.to.owner)
        + enc_opt_bytes(args.to.subaccount) + enc_u128(args.amount) + enc_opt_u128(args.fee)
        + enc_opt_bytes(args.memo) + enc_opt_u64(args.created_at_time) + enc_u64(timestamp)
}

/// One FNV-1a step: fold byte `b` into state `h`.
pub open spec fn fnv64_step(h: u64, b: u8) -> u64 {
    vstd::wrapping::u64_specs::wrapping_mul(h ^ (b as u64), FNV_PRIME)
}

/// FNV-1a folded over `s`, starting from state `h`.
pub open spec fn fnv64_from(h: u64, s: Seq<u8>) -> u64
    decreases s.len(),
{
    if s.len() == 0 {
        h
    } else {
        fnv64_from(fnv64_step(h, s[0]), s.drop_first())
    }
}

/// The 64-bit FNV-1a digest of `s`.
pub open spec fn fnv64(s: Seq<u8>) -> u64 {
    fnv64_from(FNV_OFFSET, s)
}

/// The 32-byte fingerprint of a transfer request as seen at `timestamp`:
/// the digest's eight big-endian bytes, padded with zeros.
pub open spec fn fingerprint_spec(caller: Seq<u8>, args: TransferArgsV, timestamp: u64) -> Seq<
    u8,
> {
    enc_u64(fnv64(fingerprint_input(caller, args, timestamp))) + Seq::new(24, |i: int| 0u8)
}

/// The all-zero pseudo-fingerprint recorded on transactions that are not
/// subject to deduplication (mint, burn, reward).
pub open spec fn zero_fingerprint() -> Seq<u8> {
    Seq::new(32, |i: int| 0u8)
}

/// A vector of 32 zero bytes.
pub fn zero_hash() -> (r: Vec<u8>)
    ensures
        r@ == zero_fingerprint(),
{
    let mut r: Vec<u8> = Vec::new();
    let mut i: usize = 0;
    while i < 32
        invariant
            i <= 32,
            r@.len() == i,
            forall|k: int| 0 <= k < i ==> r@[k] == 0u8,
        decreases 32 - i,
    {
        r.push(0u8);
        i += 1;
    }
    proof {
        assert(r@ =~= zero_fingerprint());
    }
    r
}

/// Append the big-endian bytes of `x` to `out`.
fn append_u64(out: &mut Vec<u8>, x: u64)
    ensures
        final(out)@ == old(out)@ + enc_u64(x),
{
    out.push((x >> 56) as u8);
    out.push((x >> 48) as u8);
    out.push((x >> 40) as u8);
    out.push((x >> 32) as u8);
    out.push((x >> 24) as u8);
    out.push((x >> 16) as u8);
    out.push((x >> 8) as u8);
    out.push(x as u8);
    proof {
        assert(out@ =~= old(out)@ + enc_u64(x));
    }
}

/// Append the big-endian bytes of `x` to `out`.
fn append_u128(out: &mut Vec<u8>, x: u128)
    ensures
        final(out)@ == old(out)@ + enc_u128(x),
{
    append_u64(out, (x >> 64) as u64);
    append_u64(out, x as u64);
    proof {
        assert(out@ =~= old(out)@ + enc_u128(x));
    }
}

/// Append the length-prefixed bytes of `b` to `out`.
fn append_bytes(out: &mut Vec<u8>, b: &Vec<u8>)
    ensures
        final(out)@ == old(out)@ + enc_bytes(b@),
{
    append_u64(out, b.len() as u64);
    let mut i: usize = 0;
    while i < b.len()
        invariant
            i <= b.len(),
            out@ == old(out)@ + enc_u64(b@.len() as u64) + b@.subrange(0, i as int),
        decreases b.len() - i,
    {
        out.push(b[i]);
        proof {
            assert(out@ =~= old(out)@ + enc_u64(b@.len() as u64) + b@.subrange(0, i + 1));
        }
        i += 1;
    }
    proof {
        assert(b@.subrange(0, b@.len() as int) =~= b@);
        assert(out@ =~= old(out)@ + enc_bytes(b@));
    }
}

/// Append the tagged encoding of an optional byte string to `out`.
fn append_opt_bytes(out: &mut Vec<u8>, o: &Option<Vec<u8>>)
    ensures
        final(out)@ == old(out)@ + enc_opt_bytes(
            match *o {
                Some(b) => Some(b@),
                None => None,
            },
        ),
{
    match o {
        Some(b) => {
            out.push(1u8);
            proof {
                assert(out@ =~= old(out)@ + seq![1u8]);
            }
            append_bytes(out, b);
            proof {
                assert(out@ =~= old(out)@ + enc_opt_bytes(Some(b@)));
            }
        },
        None => {
            out.push(0u8);
            proof {
                assert(out@ =~= old(out)@ + enc_opt_bytes(None));
            }
        },
    }
}

/// Fold `bytes` through FNV-1a.
fn fnv64_exec(bytes: &Vec<u8>) -> (r: u64)
    ensures
        r == fnv64(bytes@),
{
    let mut h: u64 = FNV_OFFSET;
    let mut i: usize = 0;
    proof {
        assert(bytes@.skip(0) =~= bytes@);
    }
    while i < bytes.len()
        invariant
            i <= bytes.len(),
            fnv64(bytes@) == fnv64_from(h, bytes@.skip(i as int)),
        decreases bytes.len() - i,
    {
        proof {
            assert(bytes@.skip(i as int)[0] == bytes@[i as int]);
            assert(bytes@.skip(i as int).drop_first() =~= bytes@.skip(i + 1));
        }
        h = (h ^ (bytes[i] as u64)).wrapping_mul(FNV_PRIME);
        i += 1;
    }
    proof {
        assert(bytes@.skip(bytes@.len() as int) =~= Seq::<u8>::empty());
    }
    h
}

/// Compute the 32-byte fingerprint of a transfer request as seen at
/// `timestamp`.
pub fn generate_tx_hash(args: &TransferArgs, caller: &Principal, timestamp: u64) -> (r: Vec<u8>)
    ensures
        r@ == fingerprint_spec(caller@, args@, timestamp),
        r@.len() == 32,
{
    let mut input: Vec<u8> = Vec::new();
    append_bytes(&mut input, &caller.bytes);
    append_opt_bytes(&mut input, &args.from_subaccount);
    append_bytes(&mut input, &args.to.owner.bytes);
    append_opt_bytes(&mut input, &args.to.subaccount);
    append_u128(&mut input, args.amount);
    match args.fee {
        Some(f) => {
            input.push(1u8);
            append_u128(&mut input, f);
        },
        None => {
            input.push(0u8);
        },
    }
    append_opt_bytes(&mut input, &args.memo);
    match args.created_at_time {
        Some(t) => {
            input.push(1u8);
            append_u64(&mut input, t);
        },
        None => {
            input.push(0u8);
        },
    }
    append_u64(&mut input, timestamp);
    proof {
        assert(input@ =~= fingerprint_input(caller@, args@, timestamp));
    }
    let h = fnv64_exec(&input);
    let mut r: Vec<u8> = Vec::new();
    append_u64(&mut r, h);
    let mut i: usize = 0;
    while i < 24
        invariant
            i <= 24,
            r@.len() == 8 + i,
            r@.subrange(0, 8) == enc_u64(fnv64(fingerprint_input(caller@, args@, timestamp))),
            forall|k: int| 8 <= k < r@.len() ==> r@[k] == 0u8,
        decreases 24 - i,
    {
        r.push(0u8);
        proof {
            assert(r@.subrange(0, 8) =~= enc_u64(
                fnv64(fingerprint_input(caller@, args@, timestamp)),
            ));
        }
        i += 1;
    }
    proof {
        assert(r@ =~= fingerprint_spec(caller@, args@, timestamp));
    }
    r
}

} // verus!
