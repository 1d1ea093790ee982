//! Decoding a captured IPv4 datagram into the probe that it answers.

use vstd::prelude::*;
use crate::address::Ipv4Address;
use crate::decimal::decimal;
use crate::generator::{
    lemma_decode_token, lemma_decode_total, lemma_token_in_range, GeneratorView, ProbeGenerator,
};
use crate::probe::{ProbeMethod, ProbeResponse, ProbeResponseView};
use crate::wire::{be16_at, leading_bytes, protocol_number, protocol_of};

verus! {

/// What a datagram says of a probe: the token it carries, and whether the
/// destination itself answered.
pub ghost struct Signal {
    pub token: int,
    pub destination_reached: bool,
}

/// The length of the IPv4 header that starts at `at`; `None` where the bytes
/// there are no such header, or the header runs past the end.
pub open spec fn ipv4_header_len(bytes: Seq<u8>, at: int) -> Option<int> {
    if at + 20 <= bytes.len() && bytes[at] / 16 == 4 && bytes[at] % 16 >= 5 && at + (bytes[at]
        % 16) * 4 <= bytes.len() {
        Some((bytes[at] % 16) * 4)
    } else {
        None
    }
}

/// The token in the copy of an outbound datagram that starts at `at`: the
/// copy has an IPv4 header of the run's protocol and the leading eight bytes
/// of a transport header. For UDP and TCP the token is the destination port.
/// For ICMP the copy is an echo request with the run's identifier, and the
/// token is identifier plus sequence number.
pub open spec fn embedded_token(g: GeneratorView, bytes: Seq<u8>, at: int) -> Option<int> {
    match ipv4_header_len(bytes, at) {
        None => None,
        Some(len) => {
            let t = at + len;
            if bytes[at + 9] != protocol_number(g.method) || t + 8 > bytes.len() {
                None
            } else if g.method == ProbeMethod::ICMP {
                if bytes[t] == 8 && bytes[t + 1] == 0 && be16_at(bytes, t + 4) == g.base_port {
                    Some(be16_at(bytes, t + 4) + be16_at(bytes, t + 6))
                } else {
                    None
                }
            } else {
                Some(be16_at(bytes, t + 2))
            }
        },
    }
}

/// What the ICMP message that starts at `at` says. Time exceeded in transit
/// (type 11, code 0) carries a copy of the probe and comes from a router on
/// the way. Port unreachable (type 3, code 3) carries one too and is the
/// destination's answer to a UDP probe. An echo reply (type 0, code 0) with
/// the run's identifier is the destination's answer to an ICMP probe.
pub open spec fn control_signal(g: GeneratorView, bytes: Seq<u8>, at: int) -> Option<Signal> {
    if at + 8 > bytes.len() {
        None
    } else if bytes[at] == 11 && bytes[at + 1] == 0 {
        match embedded_token(g, bytes, at + 8) {
            Some(token) => Some(Signal { token, destination_reached: false }),
            None => None,
        }
    } else if bytes[at] == 3 && bytes[at + 1] == 3 && g.method == ProbeMethod::UDP {
        match embedded_token(g, bytes, at + 8) {
            Some(token) => Some(Signal { token, destination_reached: true }),
            None => None,
        }
    } else if bytes[at] == 0 && bytes[at + 1] == 0 && g.method == ProbeMethod::ICMP && be16_at(
        bytes,
        at + 4,
    ) == g.base_port {
        Some(
            Signal {
                token: be16_at(bytes, at + 4) + be16_at(bytes, at + 6),
                destination_reached: true,
            },
        )
    } else {
        None
    }
}

/// Whether a TCP flags byte has RST set, or both SYN and ACK: the two ways
/// in which a destination answers a TCP probe.
pub open spec fn answers_tcp_probe(flags: u8) -> bool {
    (flags / 4) % 2 == 1 || ((flags / 2) % 2 == 1 && (flags / 16) % 2 == 1)
}

/// What the TCP segment that starts at `at` says: in a TCP run, a reset or
/// an accepted connection comes from the destination, and its source port is
/// the probe's token.
pub open spec fn tcp_signal(g: GeneratorView, bytes: Seq<u8>, at: int) -> Option<Signal> {
    if g.method == ProbeMethod::TCP && at + 20 <= bytes.len() && answers_tcp_probe(
        bytes[at + 13],
    ) {
        Some(Signal { token: be16_at(bytes, at), destination_reached: true })
    } else {
        None
    }
}

/// What a captured IPv4 datagram says of a probe of the run, if anything.
pub open spec fn signal(g: GeneratorView, bytes: Seq<u8>) -> Option<Signal> {
    let found = match ipv4_header_len(bytes, 0) {
        None => None,
        Some(len) => {
            if bytes[9] == 1 {
                control_signal(g, bytes, len)
            } else if bytes[9] == 6 {
                tcp_signal(g, bytes, len)
            } else {
                None
            }
        },
    };
    match found {
        Some(s) => if g.has_token(s.token) {
            found
        } else {
            None
        },
        None => None,
    }
}

/// A response decoded from a captured datagram.
#[derive(Debug)]
pub struct ParsedResponse {
    pub response: ProbeResponse,
    /// Whether the datagram is an answer of the destination itself.
    pub destination_reached: bool,
}

/// Decodes captured datagrams for one run.
#[derive(Clone, Copy, Debug)]
pub struct ProbeResponseParser {
    generator: ProbeGenerator,
}

impl View for ProbeResponseParser {
    type V = GeneratorView;

    closed spec fn view(&self) -> GeneratorView {
        self.generator@
    }
}

/// The sixteen-bit number whose high byte stands at `at`.
fn read_be16(bytes: &[u8], at: usize) -> (out: u16)
    requires
        at + 2 <= bytes@.len(),
    ensures
        out == be16_at(bytes@, at as int),
{
    (bytes[at] as u16) * 256 + bytes[at + 1] as u16
}

/// The length of the IPv4 header that starts at `at`.
fn read_header_len(bytes: &[u8], at: usize) -> (out: Option<usize>)
    requires
        at <= bytes@.len(),
    ensures
        out is Some == ipv4_header_len(bytes@, at as int) is Some,
        out is Some ==> out->0 == ipv4_header_len(bytes@, at as int)->0,
        out is Some ==> 20 <= out->0 && at + out->0 <= bytes@.len(),
{
    if bytes.len() - at < 20 {
        return None;
    }
    let first = bytes[at];
    if first / 16 != 4 || first % 16 < 5 {
        return None;
    }
    let len: usize = (first % 16) as usize * 4;
    if bytes.len() - at < len {
        return None;
    }
    Some(len)
}

impl ProbeResponseParser {
    pub fn new(generator: ProbeGenerator) -> (out: Self)
        ensures
            out@ == generator@,
    {
        ProbeResponseParser { generator }
    }

    /// The token in the copy of an outbound datagram that starts at `at`.
    fn read_embedded_token(&self, bytes: &[u8], at: usize) -> (out: Option<u32>)
        requires
            at <= bytes@.len(),
        ensures
            out is Some == embedded_token(self@, bytes@, at as int) is Some,
            out is Some ==> out->0 == embedded_token(self@, bytes@, at as int)->0,
    {
        let len = match read_header_len(bytes, at) {
            Some(len) => len,
            None => {
                return None;
            },
        };
        let end = bytes.len();
        let t = at + len;
        let method = self.generator.method();
        if bytes[at + 9] != protocol_of(method) || end - t < 8 {
            return None;
        }
        match method {
            ProbeMethod::ICMP => {
                let identifier = read_be16(bytes, t + 4);
                if bytes[t] == 8 && bytes[t + 1] == 0 && identifier
                    == self.generator.base_port() {
                    Some(identifier as u32 + read_be16(bytes, t + 6) as u32)
                } else {
                    None
                }
            },
            _ => Some(read_be16(bytes, t + 2) as u32),
        }
    }

    /// What the ICMP message that starts at `at` says.
    fn read_control(&self, bytes: &[u8], at: usize) -> (out: Option<(u32, bool)>)
        requires
            at <= bytes@.len(),
        ensures
            match out {
                Some((token, destination_reached)) => control_signal(self@, bytes@, at as int)
                    == Some(Signal { token: token as int, destination_reached }),
                None => control_signal(self@, bytes@, at as int) is None,
            },
    {
        if bytes.len() - at < 8 {
            return None;
        }
        let kind = bytes[at];
        let code = bytes[at + 1];
        let method = self.generator.method();
        if kind == 11 && code == 0 {
            match self.read_embedded_token(bytes, at + 8) {
                Some(token) => Some((token, false)),
                None => None,
            }
        } else if kind == 3 && code == 3 && method == ProbeMethod::UDP {
            match self.read_embedded_token(bytes, at + 8) {
                Some(token) => Some((token, true)),
                None => None,
            }
        } else if kind == 0 && code == 0 && method == ProbeMethod::ICMP {
            let identifier = read_be16(bytes, at + 4);
            if identifier == self.generator.base_port() {
                Some((identifier as u32 + read_be16(bytes, at + 6) as u32, true))
            } else {
                None
            }
        } else {
            None
        }
    }

    /// What the TCP segment that starts at `at` says.
    fn read_tcp(&self, bytes: &[u8], at: usize) -> (out: Option<(u32, bool)>)
        requires
            at <= bytes@.len(),
        ensures
            match out {
                Some((token, destination_reached)) => tcp_signal(self@, bytes@, at as int)
                    == Some(Signal { token: token as int, destination_reached }),
                None => tcp_signal(self@, bytes@, at as int) is None,
            },
    {
        if self.generator.method() != ProbeMethod::TCP || bytes.len() - at < 20 {
            return None;
        }
        let flags = bytes[at + 13];
        if (flags / 4) % 2 == 1 || ((flags / 2) % 2 == 1 && (flags / 16) % 2 == 1) {
            Some((read_be16(bytes, at) as u32, true))
        } else {
            None
        }
    }

    /// Decodes one captured IPv4 datagram, seen to come from `source`. A
    /// datagram that answers a probe of the run gives that probe's identity,
    /// `source` as the responder, and whether the destination answered. Any
    /// other datagram gives `None`.
    pub fn parse(&self, packet: &[u8], source: Ipv4Address) -> (out: Option<ParsedResponse>)
        ensures
            out is Some == signal(self@, packet@) is Some,
            out is Some ==> out->0.response@ == (ProbeResponseView {
                id: decimal(signal(self@, packet@)->0.token as nat),
                from_address: source,
            }),
            out is Some ==> out->0.destination_reached == signal(
                self@,
                packet@,
            )->0.destination_reached,
    {
        let len = match read_header_len(packet, 0) {
            Some(len) => len,
            None => {
                return None;
            },
        };
        let found = if packet[9] == 1 {
            self.read_control(packet, len)
        } else if packet[9] == 6 {
            self.read_tcp(packet, len)
        } else {
            None
        };
        match found {
            Some((token, destination_reached)) => {
                proof {
                    use_type_invariant(&self.generator);
                    lemma_decode_total(self@, token as int);
                }
                if token > 65535 {
                    return None;
                }
                match self.generator.decode(token as u16) {
                    Some(_) => Some(
                        ParsedResponse {
                            response: ProbeResponse::new(
                                ProbeGenerator::token_id(token as u16),
                                source,
                            ),
                            destination_reached,
                        },
                    ),
                    None => None,
                }
            },
            None => None,
        }
    }
}

/// Whether `bytes` holds, from `at` on, a copy of an outbound datagram of
/// `method` whose transport header starts with `leading`.
pub open spec fn embeds(bytes: Seq<u8>, at: int, method: ProbeMethod, leading: Seq<u8>) -> bool {
    &&& 0 <= at
    &&& ipv4_header_len(bytes, at) is Some
    &&& bytes[at + 9] == protocol_number(method)
    &&& at + ipv4_header_len(bytes, at)->0 + 8 <= bytes.len()
    &&& bytes.subrange(
        at + ipv4_header_len(bytes, at)->0,
        at + ipv4_header_len(bytes, at)->0 + 8,
    ) == leading
}

/// Whether `frame` is an IPv4 datagram with an ICMP message of the given
/// type and code that carries a copy of an outbound datagram of `method`
/// whose transport header starts with `leading`.
pub open spec fn reports(frame: Seq<u8>, kind: u8, code: u8, method: ProbeMethod, leading: Seq<u8>)
    -> bool {
    &&& ipv4_header_len(frame, 0) is Some
    &&& frame[9] == 1
    &&& ipv4_header_len(frame, 0)->0 + 8 <= frame.len()
    &&& frame[ipv4_header_len(frame, 0)->0] == kind
    &&& frame[ipv4_header_len(frame, 0)->0 + 1] == code
    &&& embeds(frame, ipv4_header_len(frame, 0)->0 + 8, method, leading)
}

/// The copy of a probe, as a router hands it back, carries the probe's
/// token.
pub proof fn lemma_embedded_probe(
    g: GeneratorView,
    ttl: int,
    query: int,
    source_port: u16,
    bytes: Seq<u8>,
    at: int,
)
    requires
        g.fits(),
        g.has_probe(ttl, query),
        embeds(bytes, at, g.method, leading_bytes(g.method, g.wire_fields(ttl, query), source_port)),
    ensures
        embedded_token(g, bytes, at) == Some(g.token(ttl, query)),
{
    lemma_token_in_range(g, ttl, query);
    let t = at + ipv4_header_len(bytes, at)->0;
    let leading = leading_bytes(g.method, g.wire_fields(ttl, query), source_port);
    let copy = bytes.subrange(t, t + 8);
    assert(forall|i: int| 0 <= i < 8 ==> bytes[t + i] == #[trigger] copy[i]);
    assert(copy[0] == leading[0]);
    assert(copy[1] == leading[1]);
    assert(copy[2] == leading[2]);
    assert(copy[3] == leading[3]);
    assert(copy[4] == leading[4]);
    assert(copy[5] == leading[5]);
    assert(copy[6] == leading[6]);
    assert(copy[7] == leading[7]);
}

/// A time-exceeded message that carries the copy of a probe decodes to that
/// probe: to its token, which reads back as the probe's time to live and
/// query, and so to its identity. It is not taken for the destination's
/// answer.
pub proof fn lemma_time_exceeded_round_trip(
    g: GeneratorView,
    ttl: int,
    query: int,
    source_port: u16,
    frame: Seq<u8>,
)
    requires
        g.fits(),
        g.has_probe(ttl, query),
        reports(
            frame,
            11,
            0,
            g.method,
            leading_bytes(g.method, g.wire_fields(ttl, query), source_port),
        ),
    ensures
        signal(g, frame) == Some(
            Signal { token: g.token(ttl, query), destination_reached: false },
        ),
        g.decode(signal(g, frame)->0.token) == Some((ttl, query)),
        decimal(signal(g, frame)->0.token as nat) == g.probe_id(ttl, query),
{
    lemma_token_in_range(g, ttl, query);
    lemma_decode_token(g, ttl, query);
    lemma_embedded_probe(g, ttl, query, source_port, frame, ipv4_header_len(frame, 0)->0 + 8);
}

/// A port-unreachable message that carries the copy of a UDP probe decodes
/// to that probe, and is taken for the destination's answer.
pub proof fn lemma_port_unreachable_round_trip(
    g: GeneratorView,
    ttl: int,
    query: int,
    source_port: u16,
    frame: Seq<u8>,
)
    requires
        g.fits(),
        g.has_probe(ttl, query),
        g.method == ProbeMethod::UDP,
        reports(
            frame,
            3,
            3,
            g.method,
            leading_bytes(g.method, g.wire_fields(ttl, query), source_port),
        ),
    ensures
        signal(g, frame) == Some(Signal { token: g.token(ttl, query), destination_reached: true }),
{
    lemma_token_in_range(g, ttl, query);
    lemma_embedded_probe(g, ttl, query, source_port, frame, ipv4_header_len(frame, 0)->0 + 8);
}

} // verus!
