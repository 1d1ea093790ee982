//! The probes of a run: which wire fields each one carries, and how its
//! identity is read back from them.

use vstd::prelude::*;
use crate::address::Ipv4Address;
use crate::decimal::{decimal, lemma_decimal_injective, to_decimal};
use crate::probe::{ProbeId, ProbeMethod};

verus! {

/// The number that a probe carries on the wire: the base plus the probe's
/// place in the run, counted hop by hop and query by query.
pub open spec fn token_of(base_port: int, queries_per_hop: int, ttl: int, query: int) -> int {
    base_port + (ttl - 1) * queries_per_hop + query
}

/// The parameters of a run's probes.
pub ghost struct GeneratorView {
    pub method: ProbeMethod,
    pub base_port: int,
    pub hops: int,
    pub queries_per_hop: int,
}

impl GeneratorView {
    /// Whether every probe of the run has a time to live of eight bits and a
    /// token of sixteen.
    pub open spec fn fits(self) -> bool {
        &&& 0 <= self.base_port <= 65535
        &&& 0 <= self.hops <= 255
        &&& 0 <= self.queries_per_hop <= 65535
        &&& self.base_port + self.hops * self.queries_per_hop <= 65536
    }

    /// Whether `(ttl, query)` names a probe of the run.
    pub open spec fn has_probe(self, ttl: int, query: int) -> bool {
        1 <= ttl <= self.hops && 0 <= query < self.queries_per_hop
    }

    /// The token of probe `(ttl, query)`.
    pub open spec fn token(self, ttl: int, query: int) -> int {
        token_of(self.base_port, self.queries_per_hop, ttl, query)
    }

    /// The identity of probe `(ttl, query)`: its token in decimal notation.
    pub open spec fn probe_id(self, ttl: int, query: int) -> Seq<char> {
        decimal(self.token(ttl, query) as nat)
    }

    /// Whether `token` is the token of some probe of the run.
    pub open spec fn has_token(self, token: int) -> bool {
        self.base_port <= token < self.base_port + self.hops * self.queries_per_hop
    }

    /// The probe that carries `token`, as `(ttl, query)`.
    pub open spec fn decode(self, token: int) -> Option<(int, int)> {
        if self.has_token(token) && self.queries_per_hop > 0 {
            Some(
                (
                    (token - self.base_port) / self.queries_per_hop + 1,
                    (token - self.base_port) % self.queries_per_hop,
                ),
            )
        } else {
            None
        }
    }
}

/// Every probe of a run that fits has a token of the run.
pub proof fn lemma_token_in_range(g: GeneratorView, ttl: int, query: int)
    requires
        g.fits(),
        g.has_probe(ttl, query),
    ensures
        g.has_token(g.token(ttl, query)),
        0 <= g.token(ttl, query) - g.base_port < g.hops * g.queries_per_hop,
        g.token(ttl, query) <= 65535,
{
    let q = g.queries_per_hop;
    assert((ttl - 1) * q + query < g.hops * q) by (nonlinear_arith)
        requires
            1 <= ttl <= g.hops,
            0 <= query < q,
    ;
    assert((ttl - 1) * q >= 0) by (nonlinear_arith)
        requires
            1 <= ttl,
            0 <= q,
    ;
}

/// Reading back the token of a probe gives the probe.
pub proof fn lemma_decode_token(g: GeneratorView, ttl: int, query: int)
    requires
        g.fits(),
        g.has_probe(ttl, query),
    ensures
        g.decode(g.token(ttl, query)) == Some((ttl, query)),
{
    lemma_token_in_range(g, ttl, query);
    let q = g.queries_per_hop;
    let off = (ttl - 1) * q + query;
    assert(g.token(ttl, query) - g.base_port == off);
    vstd::arithmetic::div_mod::lemma_fundamental_div_mod_converse(off, q, ttl - 1, query);
}

/// A token that reads back as a probe is the token of that probe, and the
/// probe is one of the run.
pub proof fn lemma_token_decode(g: GeneratorView, token: int)
    requires
        g.fits(),
        g.decode(token) is Some,
    ensures
        ({
            let (ttl, query) = g.decode(token)->0;
            g.has_probe(ttl, query) && g.token(ttl, query) == token
        }),
{
    let q = g.queries_per_hop;
    let off = token - g.base_port;
    vstd::arithmetic::div_mod::lemma_fundamental_div_mod(off, q);
    vstd::arithmetic::div_mod::lemma_mod_bound(off, q);
    vstd::arithmetic::div_mod::lemma_div_pos_is_pos(off, q);
    assert(off / q < g.hops) by (nonlinear_arith)
        requires
            off == q * (off / q) + off % q,
            0 <= off % q,
            off < g.hops * q,
            q > 0,
    ;
    assert(q * (off / q) == (off / q) * q) by (nonlinear_arith);
}

/// Every token of a run reads back as a probe, and no other number does.
pub proof fn lemma_decode_total(g: GeneratorView, token: int)
    requires
        g.fits(),
    ensures
        g.decode(token) is Some <==> g.has_token(token),
        g.has_token(token) ==> token <= 65535,
{
    if g.has_token(token) {
        assert(g.queries_per_hop > 0) by (nonlinear_arith)
            requires
                g.hops * g.queries_per_hop > 0,
                g.hops >= 0,
                g.queries_per_hop >= 0,
        ;
    }
}

/// Two different probes of a run carry different tokens and have different
/// identities.
pub proof fn lemma_probe_ids_distinct(
    g: GeneratorView,
    ttl1: int,
    query1: int,
    ttl2: int,
    query2: int,
)
    requires
        g.fits(),
        g.has_probe(ttl1, query1),
        g.has_probe(ttl2, query2),
        (ttl1, query1) != (ttl2, query2),
    ensures
        g.token(ttl1, query1) != g.token(ttl2, query2),
        g.probe_id(ttl1, query1) != g.probe_id(ttl2, query2),
{
    lemma_decode_token(g, ttl1, query1);
    lemma_decode_token(g, ttl2, query2);
    lemma_token_in_range(g, ttl1, query1);
    lemma_token_in_range(g, ttl2, query2);
    if g.probe_id(ttl1, query1) == g.probe_id(ttl2, query2) {
        lemma_decimal_injective(g.token(ttl1, query1) as nat, g.token(ttl2, query2) as nat);
    }
}

/// The wire fields that carry a probe's token.
#[derive(Clone, Copy, Debug, PartialEq, Eq, Structural)]
pub enum WireFields {
    /// The destination port of a UDP datagram or a TCP segment.
    Port { destination_port: u16 },
    /// The identifier and sequence number of an ICMP echo request.
    Echo { identifier: u16, sequence: u16 },
}

impl WireFields {
    /// The token that the fields carry.
    pub open spec fn token(self) -> int {
        match self {
            WireFields::Port { destination_port } => destination_port as int,
            WireFields::Echo { identifier, sequence } => identifier + sequence,
        }
    }
}

impl GeneratorView {
    /// The wire fields of probe `(ttl, query)`: for UDP and TCP the token is
    /// the destination port; for ICMP the identifier is the base and the
    /// sequence number the probe's place in the run.
    pub open spec fn wire_fields(self, ttl: int, query: int) -> WireFields {
        match self.method {
            ProbeMethod::ICMP => WireFields::Echo {
                identifier: self.base_port as u16,
                sequence: (self.token(ttl, query) - self.base_port) as u16,
            },
            _ => WireFields::Port { destination_port: self.token(ttl, query) as u16 },
        }
    }
}

/// One outbound probe.
#[derive(Debug)]
pub struct Probe {
    pub id: ProbeId,
    pub ttl: u8,
    pub method: ProbeMethod,
    pub destination: Ipv4Address,
    pub fields: WireFields,
    /// When the probe was sent, in microseconds on a monotonic clock.
    pub sent_at: u64,
}

/// Makes the probes of one run.
#[derive(Clone, Copy, Debug)]
pub struct ProbeGenerator {
    method: ProbeMethod,
    base_port: u16,
    hops: u8,
    queries_per_hop: u16,
}

impl View for ProbeGenerator {
    type V = GeneratorView;

    closed spec fn view(&self) -> GeneratorView {
        GeneratorView {
            method: self.method,
            base_port: self.base_port as int,
            hops: self.hops as int,
            queries_per_hop: self.queries_per_hop as int,
        }
    }
}

impl ProbeGenerator {
    /// Every generator fits: see `new`.
    #[verifier::type_invariant]
    pub open spec fn well_formed(&self) -> bool {
        self@.fits()
    }

    /// A generator for a run of `hops` hops with `queries_per_hop` probes
    /// each, whose tokens start at `base_port`; `None` where a hop count
    /// does not fit a time to live, or a token does not fit sixteen bits.
    pub fn new(method: ProbeMethod, base_port: u16, hops: u16, queries_per_hop: u16) -> (out:
        Option<Self>)
        ensures
            out is Some <==> (GeneratorView {
                method,
                base_port: base_port as int,
                hops: hops as int,
                queries_per_hop: queries_per_hop as int,
            }).fits(),
            out is Some ==> out->0@ == (GeneratorView {
                method,
                base_port: base_port as int,
                hops: hops as int,
                queries_per_hop: queries_per_hop as int,
            }),
    {
        if hops > 255 {
            return None;
        }
        assert(0 <= hops * queries_per_hop <= 255 * 65535) by (nonlinear_arith)
            requires
                0 <= hops <= 255,
                0 <= queries_per_hop <= 65535,
        ;
        let span: u32 = (hops as u32) * (queries_per_hop as u32);
        if base_port as u32 + span > 65536 {
            return None;
        }
        Some(ProbeGenerator { method, base_port, hops: hops as u8, queries_per_hop })
    }

    pub fn method(&self) -> (out: ProbeMethod)
        ensures
            out == self@.method,
    {
        self.method
    }

    pub fn base_port(&self) -> (out: u16)
        ensures
            out == self@.base_port,
    {
        self.base_port
    }

    pub fn hops(&self) -> (out: u8)
        ensures
            out == self@.hops,
    {
        self.hops
    }

    pub fn queries_per_hop(&self) -> (out: u16)
        ensures
            out == self@.queries_per_hop,
    {
        self.queries_per_hop
    }

    /// The token of probe `(ttl, query)`.
    pub fn token(&self, ttl: u8, query: u16) -> (out: u16)
        requires
            self@.has_probe(ttl as int, query as int),
        ensures
            out == self@.token(ttl as int, query as int),
            self@.has_token(out as int),
    {
        proof {
            use_type_invariant(self);
            lemma_token_in_range(self@, ttl as int, query as int);
            assert(0 <= (ttl - 1) * self.queries_per_hop <= 254 * 65535) by (nonlinear_arith)
                requires
                    1 <= ttl <= 255,
                    0 <= self.queries_per_hop <= 65535,
            ;
        }
        let place: u32 = ((ttl - 1) as u32) * (self.queries_per_hop as u32) + query as u32;
        (self.base_port as u32 + place) as u16
    }

    /// The identity of probe `(ttl, query)`.
    pub fn probe_id(&self, ttl: u8, query: u16) -> (out: ProbeId)
        requires
            self@.has_probe(ttl as int, query as int),
        ensures
            out@ == self@.probe_id(ttl as int, query as int),
    {
        to_decimal(self.token(ttl, query) as u64)
    }

    /// The identity of the probe that carries `token`, whichever it is.
    pub fn token_id(token: u16) -> (out: ProbeId)
        ensures
            out@ == decimal(token as nat),
    {
        to_decimal(token as u64)
    }

    /// The probe that carries `token`, as `(ttl, query)`; `None` where no
    /// probe of the run carries it.
    pub fn decode(&self, token: u16) -> (out: Option<(u8, u16)>)
        ensures
            match out {
                Some((ttl, query)) => self@.decode(token as int) == Some(
                    (ttl as int, query as int),
                ),
                None => self@.decode(token as int) is None,
            },
    {
        proof {
            use_type_invariant(self);
        }
        if token < self.base_port || self.queries_per_hop == 0 {
            return None;
        }
        let place: u32 = (token - self.base_port) as u32;
        assert(0 <= self.hops * self.queries_per_hop <= 255 * 65535) by (nonlinear_arith)
            requires
                0 <= self.hops <= 255,
                0 <= self.queries_per_hop <= 65535,
        ;
        let span: u32 = (self.hops as u32) * (self.queries_per_hop as u32);
        if place >= span {
            return None;
        }
        proof {
            lemma_token_decode(self@, token as int);
        }
        let ttl: u32 = place / (self.queries_per_hop as u32) + 1;
        let query: u32 = place % (self.queries_per_hop as u32);
        Some((ttl as u8, query as u16))
    }

    /// The wire fields of probe `(ttl, query)`.
    pub fn wire_fields(&self, ttl: u8, query: u16) -> (out: WireFields)
        requires
            self@.has_probe(ttl as int, query as int),
        ensures
            out == self@.wire_fields(ttl as int, query as int),
            out.token() == self@.token(ttl as int, query as int),
    {
        let token = self.token(ttl, query);
        match self.method {
            ProbeMethod::ICMP => WireFields::Echo {
                identifier: self.base_port,
                sequence: token - self.base_port,
            },
            _ => WireFields::Port { destination_port: token },
        }
    }

    /// Probe `(ttl, query)` to `destination`, sent at `sent_at`.
    pub fn generate(&self, ttl: u8, query: u16, destination: Ipv4Address, sent_at: u64) -> (out:
        Probe)
        requires
            self@.has_probe(ttl as int, query as int),
        ensures
            out.id@ == self@.probe_id(ttl as int, query as int),
            out.ttl == ttl,
            out.method == self@.method,
            out.destination == destination,
            out.fields == self@.wire_fields(ttl as int, query as int),
            out.sent_at == sent_at,
    {
        Probe {
            id: self.probe_id(ttl, query),
            ttl,
            method: self.method,
            destination,
            fields: self.wire_fields(ttl, query),
            sent_at,
        }
    }
}

} // verus!
