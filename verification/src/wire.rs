//! The bytes of a probe's transport header, as far as a router hands them
//! back: the leading eight.

use vstd::prelude::*;
use crate::checksum::{
    checksum16, internet_checksum, lemma_checksum_verifies, lemma_fold_twice, word_sum,
};
use crate::generator::{Probe, WireFields};
use crate::probe::ProbeMethod;

verus! {

/// The two bytes of a sixteen-bit number, high byte first.
pub open spec fn be16_bytes(x: int) -> Seq<u8> {
    seq![(x / 256) as u8, (x % 256) as u8]
}

/// The sixteen-bit number whose high byte stands at `at`.
pub open spec fn be16_at(bytes: Seq<u8>, at: int) -> int {
    bytes[at] as int * 256 + bytes[at + 1] as int
}

/// The number by which an IPv4 header names the protocol of a method.
pub open spec fn protocol_number(method: ProbeMethod) -> u8 {
    match method {
        ProbeMethod::UDP => 17,
        ProbeMethod::TCP => 6,
        ProbeMethod::ICMP => 1,
    }
}

/// An echo request without data and with a checksum of zero.
pub open spec fn echo_request_unsummed(identifier: u16, sequence: u16) -> Seq<u8> {
    seq![8u8, 0u8, 0u8, 0u8] + be16_bytes(identifier as int) + be16_bytes(sequence as int)
}

/// An echo request without data: type 8, code 0, checksum, identifier,
/// sequence number.
pub open spec fn echo_request(identifier: u16, sequence: u16) -> Seq<u8> {
    seq![8u8, 0u8] + be16_bytes(
        checksum16(word_sum(echo_request_unsummed(identifier, sequence))) as int,
    ) + be16_bytes(identifier as int) + be16_bytes(sequence as int)
}

/// An echo request verifies: summed with its checksum in place, its words
/// fold to sixteen one bits, so that its checksum comes out as zero.
pub proof fn lemma_echo_request_verifies(identifier: u16, sequence: u16)
    ensures
        checksum16(word_sum(echo_request(identifier, sequence))) == 0,
{
    let unsummed = echo_request_unsummed(identifier, sequence);
    let summed = echo_request(identifier, sequence);
    let plain = (2048 + identifier + sequence) as nat;
    let c = checksum16(plain);
    lemma_word_sum_of_eight(unsummed);
    lemma_word_sum_of_eight(summed);
    assert(word_sum(unsummed) == plain);
    lemma_fold_twice(plain);
    assert(be16_bytes(c as int)[0] as nat * 256 + be16_bytes(c as int)[1] as nat == c);
    assert(word_sum(summed) == plain + c);
    lemma_checksum_verifies(plain);
}

/// The word sum of eight bytes, written out.
proof fn lemma_word_sum_of_eight(bytes: Seq<u8>)
    requires
        bytes.len() == 8,
    ensures
        word_sum(bytes) == bytes[0] as nat * 256 + bytes[1] as nat + bytes[2] as nat * 256
            + bytes[3] as nat + bytes[4] as nat * 256 + bytes[5] as nat + bytes[6] as nat * 256
            + bytes[7] as nat,
{
    let six = bytes.drop_last().drop_last();
    let four = six.drop_last().drop_last();
    let two = four.drop_last().drop_last();
    assert(two.drop_last().drop_last().len() == 0);
    assert(word_sum(two) == bytes[0] as nat * 256 + bytes[1] as nat) by {
        reveal_with_fuel(word_sum, 2);
    }
    assert(word_sum(four) == word_sum(two) + bytes[2] as nat * 256 + bytes[3] as nat);
    assert(word_sum(six) == word_sum(four) + bytes[4] as nat * 256 + bytes[5] as nat);
}

/// The leading eight bytes of a probe's transport header. ICMP: the echo
/// request. UDP: the two ports, a length of eight and no checksum. TCP: the
/// two ports and a sequence number of zero.
pub open spec fn leading_bytes(method: ProbeMethod, fields: WireFields, source_port: u16) -> Seq<
    u8,
> {
    match fields {
        WireFields::Echo { identifier, sequence } => echo_request(identifier, sequence),
        WireFields::Port { destination_port } => be16_bytes(source_port as int) + be16_bytes(
            destination_port as int,
        ) + (if method == ProbeMethod::TCP {
            seq![0u8, 0u8, 0u8, 0u8]
        } else {
            seq![0u8, 8u8, 0u8, 0u8]
        }),
    }
}

/// The number by which an IPv4 header names the protocol of `method`.
pub fn protocol_of(method: ProbeMethod) -> (out: u8)
    ensures
        out == protocol_number(method),
{
    match method {
        ProbeMethod::UDP => 17,
        ProbeMethod::TCP => 6,
        ProbeMethod::ICMP => 1,
    }
}

/// Appends the two bytes of `x`, high byte first.
pub fn push_be16(out: &mut Vec<u8>, x: u16)
    ensures
        final(out)@ == old(out)@ + be16_bytes(x as int),
{
    out.push((x / 256) as u8);
    out.push((x % 256) as u8);
    assert(final(out)@ =~= old(out)@ + be16_bytes(x as int));
}

/// The bytes of an echo request without data.
pub fn echo_request_bytes(identifier: u16, sequence: u16) -> (out: Vec<u8>)
    ensures
        out@ == echo_request(identifier, sequence),
{
    let mut unsummed: Vec<u8> = Vec::new();
    unsummed.push(8);
    unsummed.push(0);
    unsummed.push(0);
    unsummed.push(0);
    push_be16(&mut unsummed, identifier);
    push_be16(&mut unsummed, sequence);
    assert(unsummed@ =~= echo_request_unsummed(identifier, sequence));
    let checksum = internet_checksum(unsummed.as_slice());
    let mut out: Vec<u8> = Vec::new();
    out.push(8);
    out.push(0);
    push_be16(&mut out, checksum);
    push_be16(&mut out, identifier);
    push_be16(&mut out, sequence);
    assert(out@ =~= echo_request(identifier, sequence));
    out
}

impl Probe {
    /// The leading eight bytes of the probe's transport header, sent from
    /// `source_port` where the method has ports.
    pub fn leading_bytes(&self, source_port: u16) -> (out: Vec<u8>)
        ensures
            out@ == leading_bytes(self.method, self.fields, source_port),
            out@.len() == 8,
    {
        match self.fields {
            WireFields::Echo { identifier, sequence } => echo_request_bytes(identifier, sequence),
            WireFields::Port { destination_port } => {
                let mut out: Vec<u8> = Vec::new();
                push_be16(&mut out, source_port);
                push_be16(&mut out, destination_port);
                out.push(0);
                match self.method {
                    ProbeMethod::TCP => {
                        out.push(0);
                    },
                    _ => {
                        out.push(8);
                    },
                }
                out.push(0);
                out.push(0);
                assert(out@ =~= leading_bytes(self.method, self.fields, source_port));
                out
            },
        }
    }
}

} // verus!
