//! Proof-of-work solver: searches the 64-bit nonce space of an encoded
//! registration frame until the hexadecimal SHA-256 digest of the frame's
//! body starts with the required number of `'0'` characters.

use vstd::prelude::*;
use crate::codec::EnrollError;

verus! {

/// The SHA-256 digest of a byte sequence, rendered as the ASCII bytes of its
/// 64 lowercase hexadecimal digits.
pub uninterp spec fn sha256_hex(data: Seq<u8>) -> Seq<u8>;

/// Relies on `sha256::digest`, which returns the SHA-256 digest of the bytes
/// as a 64-character lowercase hexadecimal string; the result depends on the
/// bytes alone.
#[verifier::external_body]
fn digest_hex(buffer: &Vec<u8>, skip: usize) -> (r: Vec<u8>)
    requires
        skip <= buffer@.len(),
    ensures
        r@ == sha256_hex(buffer@.skip(skip as int)),
        r@.len() == 64,
{
    sha256::digest(&buffer[skip..]).into_bytes()
}

/// Whether the first `difficulty` bytes of a hex digest are the ASCII digit
/// `'0'`.
pub open spec fn meets_difficulty(digest: Seq<u8>, difficulty: nat) -> bool {
    digest.len() >= difficulty && forall|i: int| 0 <= i < difficulty ==> digest[i] == 48u8
}

/// Checks the difficulty predicate on a hex digest.
pub fn check_difficulty(digest: &Vec<u8>, difficulty: usize) -> (r: bool)
    ensures
        r == meets_difficulty(digest@, difficulty as nat),
{
    if digest.len() < difficulty {
        return false;
    }
    let mut i: usize = 0;
    while i < difficulty
        invariant
            i <= difficulty,
            difficulty <= digest@.len(),
            forall|j: int| 0 <= j < i ==> digest@[j] == 48u8,
        decreases difficulty - i,
    {
        if digest[i] != 48 {
            return false;
        }
        i += 1;
    }
    true
}

/// Big-endian bytes of a 64-bit value.
pub open spec fn be64(x: u64) -> Seq<u8> {
    seq![
        ((x / 0x100000000000000) % 256) as u8,
        ((x / 0x1000000000000) % 256) as u8,
        ((x / 0x10000000000) % 256) as u8,
        ((x / 0x100000000) % 256) as u8,
        ((x / 0x1000000) % 256) as u8,
        ((x / 0x10000) % 256) as u8,
        ((x / 0x100) % 256) as u8,
        (x % 256) as u8,
    ]
}

/// The buffer with the eight bytes at `off` replaced by the big-endian bytes
/// of `c`.
pub open spec fn with_nonce(buf: Seq<u8>, off: int, c: u64) -> Seq<u8> {
    buf.subrange(0, off) + be64(c) + buf.skip(off + 8)
}

/// Writes the big-endian bytes of `c` into the eight-byte window at `off`.
fn write_nonce(buffer: &mut Vec<u8>, off: usize, c: u64)
    requires
        off + 8 <= old(buffer)@.len(),
    ensures
        final(buffer)@ == with_nonce(old(buffer)@, off as int, c),
        final(buffer)@.len() == old(buffer)@.len(),
        forall|i: int|
            0 <= i < old(buffer)@.len() && !(off <= i < off + 8)
                ==> final(buffer)@[i] == old(buffer)@[i],
{
    let n: usize = buffer.len();
    proof {
        assert(off + 8 <= n);
    }
    buffer[off] = ((c / 0x100000000000000) % 256) as u8;
    buffer[off + 1] = ((c / 0x1000000000000) % 256) as u8;
    buffer[off + 2] = ((c / 0x10000000000) % 256) as u8;
    buffer[off + 3] = ((c / 0x100000000) % 256) as u8;
    buffer[off + 4] = ((c / 0x1000000) % 256) as u8;
    buffer[off + 5] = ((c / 0x10000) % 256) as u8;
    buffer[off + 6] = ((c / 0x100) % 256) as u8;
    buffer[off + 7] = (c % 256) as u8;
    proof {
        assert(buffer@ =~= with_nonce(old(buffer)@, off as int, c));
    }
}

/// Like [`solve`], but bounded: tries the nonce bytes as handed in, then
/// only the candidates `0, 1, ...` below `attempts`, so a caller can put a
/// ceiling on the search instead of committing to the whole nonce space.
pub fn solve_within(
    buffer: &mut Vec<u8>,
    nonce_offset: usize,
    header_width: usize,
    difficulty: usize,
    attempts: u64,
) -> (r: Result<(), EnrollError>)
    requires
        nonce_offset + 8 <= old(buffer)@.len(),
        header_width <= old(buffer)@.len(),
        difficulty <= 64,
    ensures
        final(buffer)@.len() == old(buffer)@.len(),
        forall|i: int|
            0 <= i < old(buffer)@.len() && !(nonce_offset <= i < nonce_offset + 8)
                ==> final(buffer)@[i] == old(buffer)@[i],
        match r {
            Ok(u) => meets_difficulty(
                sha256_hex(final(buffer)@.skip(header_width as int)),
                difficulty as nat,
            ),
            Err(e) => e == EnrollError::ProofOfWorkExhausted && !meets_difficulty(
                sha256_hex(old(buffer)@.skip(header_width as int)),
                difficulty as nat,
            ) && forall|c: u64|
                c < attempts ==> !meets_difficulty(
                    sha256_hex(
                        with_nonce(old(buffer)@, nonce_offset as int, c).skip(header_width as int),
                    ),
                    difficulty as nat,
                ),
        },
        difficulty == 0 ==> (r matches Ok(u)) && final(buffer)@ == old(buffer)@,
{
    let d0 = digest_hex(buffer, header_width);
    if check_difficulty(&d0, difficulty) {
        return Ok(());
    }
    let mut c: u64 = 0;
    while c < attempts
        invariant
            buffer@.len() == old(buffer)@.len(),
            nonce_offset + 8 <= buffer@.len(),
            header_width <= buffer@.len(),
            difficulty <= 64,
            c <= attempts,
            forall|i: int|
                0 <= i < old(buffer)@.len() && !(nonce_offset <= i < nonce_offset + 8)
                    ==> buffer@[i] == old(buffer)@[i],
            !meets_difficulty(
                sha256_hex(old(buffer)@.skip(header_width as int)),
                difficulty as nat,
            ),
            forall|k: u64|
                k < c ==> !meets_difficulty(
                    sha256_hex(
                        with_nonce(old(buffer)@, nonce_offset as int, k).skip(header_width as int),
                    ),
                    difficulty as nat,
                ),
        decreases attempts - c,
    {
        write_nonce(buffer, nonce_offset, c);
        proof {
            assert(buffer@ =~= with_nonce(old(buffer)@, nonce_offset as int, c));
        }
        let d = digest_hex(buffer, header_width);
        if check_difficulty(&d, difficulty) {
            return Ok(());
        }
        c = c + 1;
    }
    Err(EnrollError::ProofOfWorkExhausted)
}

/// Seals the frame in `buffer`: tries the nonce bytes as handed in, then
/// every candidate 0, 1, 2, ... written big-endian into the window at
/// `nonce_offset`, until the digest of the bytes after the first
/// `header_width` meets the difficulty. Only the nonce window is ever
/// written. With the whole nonce space exhausted the search fails, and no
/// candidate satisfies the difficulty.
pub fn solve(
    buffer: &mut Vec<u8>,
    nonce_offset: usize,
    header_width: usize,
    difficulty: usize,
) -> (r: Result<(), EnrollError>)
    requires
        nonce_offset + 8 <= old(buffer)@.len(),
        header_width <= old(buffer)@.len(),
        difficulty <= 64,
    ensures
        final(buffer)@.len() == old(buffer)@.len(),
        forall|i: int|
            0 <= i < old(buffer)@.len() && !(nonce_offset <= i < nonce_offset + 8)
                ==> final(buffer)@[i] == old(buffer)@[i],
        match r {
            Ok(u) => meets_difficulty(
                sha256_hex(final(buffer)@.skip(header_width as int)),
                difficulty as nat,
            ),
            Err(e) => e == EnrollError::ProofOfWorkExhausted && !meets_difficulty(
                sha256_hex(old(buffer)@.skip(header_width as int)),
                difficulty as nat,
            ) && forall|c: u64|
                !meets_difficulty(
                    sha256_hex(
                        with_nonce(old(buffer)@, nonce_offset as int, c).skip(header_width as int),
                    ),
                    difficulty as nat,
                ),
        },
        difficulty == 0 ==> (r matches Ok(u)) && final(buffer)@ == old(buffer)@,
{
    let d0 = digest_hex(buffer, header_width);
    if check_difficulty(&d0, difficulty) {
        return Ok(());
    }
    let mut c: u64 = 0;
    loop
        invariant
            buffer@.len() == old(buffer)@.len(),
            nonce_offset + 8 <= buffer@.len(),
            header_width <= buffer@.len(),
            difficulty <= 64,
            forall|i: int|
                0 <= i < old(buffer)@.len() && !(nonce_offset <= i < nonce_offset + 8)
                    ==> buffer@[i] == old(buffer)@[i],
            !meets_difficulty(
                sha256_hex(old(buffer)@.skip(header_width as int)),
                difficulty as nat,
            ),
            forall|k: u64|
                k < c ==> !meets_difficulty(
                    sha256_hex(
                        with_nonce(old(buffer)@, nonce_offset as int, k).skip(header_width as int),
                    ),
                    difficulty as nat,
                ),
        decreases u64::MAX - c,
    {
        write_nonce(buffer, nonce_offset, c);
        proof {
            assert(buffer@ =~= with_nonce(old(buffer)@, nonce_offset as int, c));
        }
        let d = digest_hex(buffer, header_width);
        if check_difficulty(&d, difficulty) {
            return Ok(());
        }
        if c == u64::MAX {
            return Err(EnrollError::ProofOfWorkExhausted);
        }
        c = c + 1;
    }
}

} // verus!
