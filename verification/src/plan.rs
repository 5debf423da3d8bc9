use vstd::prelude::*;

use crate::errors::TransferError;

verus! {

/// How a source is carried to the server: as one continuous body, or split
/// into `part_count` chunks of `chunk_size` bytes (the last one possibly
/// shorter) that are uploaded concurrently and reassembled by part number.
#[derive(Debug, Clone, PartialEq, Eq, Structural)]
pub enum UploadPlan {
    Simple,
    Multipart { chunk_size: u64, part_count: u64 },
}

/// `ceil(total_len / chunk_size)`, the number of parts a multipart transfer
/// of `total_len` bytes needs.
pub open spec fn spec_part_count(total_len: u64, chunk_size: u64) -> int
    recommends
        chunk_size > 0,
{
    total_len as int / chunk_size as int + if total_len as int % chunk_size as int == 0 {
        0int
    } else {
        1int
    }
}

/// Decide between a single-stream and a multipart transfer.
///
/// A source of unknown length (standard input) or shorter than `threshold`
/// is streamed as one body.  Anything else is split into `threshold`-sized
/// parts.  Encryption seals blocks under one per-transfer context whose
/// chunk counter only a single stream may advance, so encryption together
/// with a multipart-sized source is rejected before any byte moves.
pub fn plan(total_len: Option<u64>, threshold: u64, encrypt: bool) -> (r: Result<
    UploadPlan,
    TransferError,
>)
    requires
        threshold > 0,
    ensures
        match r {
            Ok(UploadPlan::Simple) => {
                &&& total_len matches Some(l) ==> l < threshold
            },
            Ok(UploadPlan::Multipart { chunk_size, part_count }) => {
                &&& !encrypt
                &&& total_len matches Some(l) && l >= threshold && chunk_size == threshold
                    && part_count == spec_part_count(l, threshold)
            },
            Err(e) => {
                &&& e == TransferError::UnsupportedCombination
                &&& encrypt
                &&& total_len matches Some(l) && l >= threshold
            },
        },
        r is Err <==> (encrypt && (total_len matches Some(l) && l >= threshold)),
        r matches Ok(p) && p is Simple <==> (total_len is None || (total_len matches Some(l) && l
            < threshold)),
{
    match total_len {
        None => Ok(UploadPlan::Simple),
        Some(l) => {
            if l < threshold {
                Ok(UploadPlan::Simple)
            } else if encrypt {
                Err(TransferError::UnsupportedCombination)
            } else {
                let whole: u64 = l / threshold;
                let part_count: u64 = if l % threshold == 0 {
                    whole
                } else {
                    proof {
                        assert((l as int) / (threshold as int) < l as int) by (nonlinear_arith)
                            requires
                                threshold >= 1,
                                (l as int) % (threshold as int) != 0,
                                l > 0,
                        ;
                    }
                    whole + 1
                };
                Ok(UploadPlan::Multipart { chunk_size: threshold, part_count })
            }
        },
    }
}

/// The byte range of one part, numbered from 1: part `n` covers
/// `[(n - 1) * chunk_size, min(n * chunk_size, total_len))`.
pub open spec fn spec_part_range(total_len: u64, chunk_size: u64, n: int) -> (int, int) {
    (
        (n - 1) * chunk_size,
        if n * chunk_size <= total_len {
            n * chunk_size as int
        } else {
            total_len as int
        },
    )
}

/// Compute the byte offset and length of part `n` of a multipart transfer.
/// Every part but the last spans exactly `chunk_size` bytes; the last spans
/// what remains.
pub fn part_range(total_len: u64, chunk_size: u64, n: u64) -> (r: (u64, u64))
    requires
        chunk_size > 0,
        total_len >= chunk_size,
        1 <= n <= spec_part_count(total_len, chunk_size),
    ensures
        r.0 == spec_part_range(total_len, chunk_size, n as int).0,
        r.0 + r.1 == spec_part_range(total_len, chunk_size, n as int).1,
        r.1 > 0,
        n < spec_part_count(total_len, chunk_size) ==> r.1 == chunk_size,
{
    proof {
        lemma_part_ranges(total_len, chunk_size, n as int);
        assert((n as int - 1) * chunk_size + chunk_size == n as int * chunk_size)
            by (nonlinear_arith);
    }
    let offset: u64 = (n - 1) * chunk_size;
    let len: u64 = if total_len - offset < chunk_size {
        total_len - offset
    } else {
        chunk_size
    };
    (offset, len)
}

/// Bounds on a part's byte range: every part of a multipart plan starts
/// inside the source, and all but the last end exactly `chunk_size` later.
proof fn lemma_part_ranges(total_len: u64, chunk_size: u64, n: int)
    requires
        chunk_size > 0,
        total_len >= chunk_size,
        1 <= n <= spec_part_count(total_len, chunk_size),
    ensures
        0 <= (n - 1) * chunk_size < total_len,
        n < spec_part_count(total_len, chunk_size) ==> n * chunk_size <= total_len,
{
    let t = total_len as int;
    let c = chunk_size as int;
    let q = t / c;
    let m = t % c;
    vstd::arithmetic::div_mod::lemma_fundamental_div_mod(t, c);
    vstd::arithmetic::div_mod::lemma_mod_bound(t, c);
    assert(t == q * c + m);
    if m == 0 {
        assert(n <= q);
        vstd::arithmetic::mul::lemma_mul_inequality(n, q, c);
        assert(n * c <= q * c);
        vstd::arithmetic::mul::lemma_mul_inequality(n - 1, q - 1, c);
        assert((n - 1) * c <= (q - 1) * c);
        assert((q - 1) * c == q * c - c) by (nonlinear_arith);
    } else {
        assert(n <= q + 1);
        vstd::arithmetic::mul::lemma_mul_inequality(n - 1, q, c);
        assert((n - 1) * c <= q * c);
        if n < q + 1 {
            vstd::arithmetic::mul::lemma_mul_inequality(n, q, c);
        }
    }
    vstd::arithmetic::mul::lemma_mul_nonnegative(n - 1, c);
}

} // verus!
