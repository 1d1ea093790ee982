//! The Internet checksum: the complement of the ones' complement sum of a
//! message's sixteen-bit words.

use vstd::prelude::*;

verus! {

/// Adds what lies above sixteen bits back in below.
pub open spec fn fold16(x: nat) -> nat {
    x % 65536 + x / 65536
}

/// The checksum of a message whose words add up to `sum`.
pub open spec fn checksum16(sum: nat) -> nat {
    (65535 - fold16(fold16(sum))) as nat
}

/// The sum of the big-endian sixteen-bit words of `bytes`; an odd last byte
/// counts as the high half of a word.
pub open spec fn word_sum(bytes: Seq<u8>) -> nat
    decreases bytes.len(),
{
    if bytes.len() == 0 {
        0
    } else if bytes.len() % 2 == 1 {
        word_sum(bytes.drop_last()) + bytes.last() as nat * 256
    } else {
        word_sum(bytes.drop_last().drop_last()) + bytes[bytes.len() - 2] as nat * 256
            + bytes[bytes.len() - 1] as nat
    }
}

/// Folding twice brings any sum of at most thirty-two bits down to sixteen.
pub proof fn lemma_fold_twice(sum: nat)
    requires
        sum < 0x1_0000_0000,
    ensures
        fold16(fold16(sum)) <= 65535,
        checksum16(sum) <= 65535,
        sum > 0 ==> fold16(fold16(sum)) > 0,
{
}

/// A message verifies with its checksum in place: the words and the
/// checksum together fold to sixteen one bits.
pub proof fn lemma_checksum_verifies(sum: nat)
    requires
        sum < 0xffff_0000,
    ensures
        fold16(fold16(sum + checksum16(sum))) == 65535,
{
}

/// The Internet checksum of `bytes`.
pub fn internet_checksum(bytes: &[u8]) -> (out: u16)
    requires
        bytes@.len() <= 65535,
    ensures
        out == checksum16(word_sum(bytes@)),
{
    let n = bytes.len();
    let mut sum: u64 = 0;
    let mut i: usize = 0;
    while i + 1 < n
        invariant
            n == bytes@.len(),
            n <= 65535,
            i <= n,
            i % 2 == 0,
            sum == word_sum(bytes@.take(i as int)),
            sum <= i * 65535,
        decreases n - i,
    {
        proof {
            let next = bytes@.take(i + 2);
            assert(next.drop_last().drop_last() =~= bytes@.take(i as int));
        }
        sum = sum + (bytes[i] as u64) * 256 + bytes[i + 1] as u64;
        i = i + 2;
    }
    if i < n {
        proof {
            assert(bytes@.take(n as int).drop_last() =~= bytes@.take(i as int));
        }
        sum = sum + (bytes[i] as u64) * 256;
    }
    proof {
        assert(bytes@.take(n as int) =~= bytes@);
        lemma_fold_twice(sum as nat);
    }
    let once: u64 = sum % 65536 + sum / 65536;
    let twice: u64 = once % 65536 + once / 65536;
    (65535 - twice) as u16
}

} // verus!
