//! IPv4 addresses as four octets.

use vstd::prelude::*;
use crate::decimal::{decimal, push_decimal};

verus! {

/// An IPv4 address, most significant octet first.
#[derive(Clone, Copy, Debug, PartialEq, Eq, Structural, Hash)]
pub struct Ipv4Address {
    pub a: u8,
    pub b: u8,
    pub c: u8,
    pub d: u8,
}

impl Ipv4Address {
    /// The dotted decimal notation of the address.
    pub open spec fn dotted(self) -> Seq<char> {
        decimal(self.a as nat) + seq!['.'] + decimal(self.b as nat) + seq!['.'] + decimal(
            self.c as nat,
        ) + seq!['.'] + decimal(self.d as nat)
    }

    pub fn new(a: u8, b: u8, c: u8, d: u8) -> (out: Self)
        ensures
            out == (Ipv4Address { a, b, c, d }),
    {
        Ipv4Address { a, b, c, d }
    }

    /// The four octets, most significant first.
    pub fn octets(&self) -> (out: [u8; 4])
        ensures
            out@ == seq![self.a, self.b, self.c, self.d],
    {
        let out = [self.a, self.b, self.c, self.d];
        assert(out@ =~= seq![self.a, self.b, self.c, self.d]);
        out
    }

    /// Appends the dotted decimal notation of the address to `out`.
    pub fn push_dotted(&self, out: &mut String)
        ensures
            final(out)@ == old(out)@ + self.dotted(),
    {
        proof {
            reveal_strlit(".");
        }
        push_decimal(out, self.a as u64);
        out.append(".");
        push_decimal(out, self.b as u64);
        out.append(".");
        push_decimal(out, self.c as u64);
        out.append(".");
        push_decimal(out, self.d as u64);
        assert(final(out)@ =~= old(out)@ + self.dotted());
    }

    /// The dotted decimal notation of the address as a string.
    pub fn render(&self) -> (out: String)
        ensures
            out@ == self.dotted(),
    {
        let mut out = String::new();
        self.push_dotted(&mut out);
        assert(out@ =~= self.dotted());
        out
    }
}

} // verus!
