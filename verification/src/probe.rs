//! The values that travel between the parts of a trace: the response that a
//! captured packet decodes to, the result of a completed probe, the error of
//! a failed one, and the pending entry that turns the first into the second.

use vstd::prelude::*;
use crate::address::Ipv4Address;
use crate::decimal::{decimal, push_decimal};

verus! {

/// The token that identifies one outbound probe within a run.
pub type ProbeId = String;

/// `std::io::Error`, the cause of a failed send or receive. The library
/// carries such a value from whoever met the failure to whoever reports it,
/// and never looks inside: nothing is claimed of what it holds.
#[verifier::external_type_specification]
#[verifier::external_body]
pub struct ExIoError(std::io::Error);

/// How a probe is carried on the wire.
#[derive(Clone, Copy, Debug, PartialEq, Eq, Structural)]
pub enum ProbeMethod {
    UDP,
    TCP,
    ICMP,
}

impl Default for ProbeMethod {
    fn default() -> (out: Self)
        ensures
            out == ProbeMethod::UDP,
    {
        ProbeMethod::UDP
    }
}

/// What a captured packet says: which probe it answers, and who sent it.
#[derive(Debug)]
pub struct ProbeResponse {
    id: ProbeId,
    from_address: Ipv4Address,
}

/// The mathematical value of a `ProbeResponse`.
pub ghost struct ProbeResponseView {
    pub id: Seq<char>,
    pub from_address: Ipv4Address,
}

impl View for ProbeResponse {
    type V = ProbeResponseView;

    closed spec fn view(&self) -> ProbeResponseView {
        ProbeResponseView { id: self.id@, from_address: self.from_address }
    }
}

impl Clone for ProbeResponse {
    fn clone(&self) -> (out: Self)
        ensures
            out@ == self@,
    {
        ProbeResponse { id: self.id.clone(), from_address: self.from_address }
    }
}

impl ProbeResponse {
    pub fn new(id: ProbeId, from_address: Ipv4Address) -> (out: Self)
        ensures
            out@ == (ProbeResponseView { id: id@, from_address }),
    {
        ProbeResponse { id, from_address }
    }

    pub fn probe_id(&self) -> (out: ProbeId)
        ensures
            out@ == self@.id,
    {
        self.id.clone()
    }

    pub fn from_address(&self) -> (out: Ipv4Address)
        ensures
            out == self@.from_address,
    {
        self.from_address
    }
}

/// A duration in microseconds written in milliseconds, with three decimals.
pub open spec fn millis_notation(micros: nat) -> Seq<char> {
    decimal(micros / 1000) + seq!['.'] + decimal((micros / 100) % 10) + decimal(
        (micros / 10) % 10,
    ) + decimal(micros % 10)
}

/// Appends `micros`, written in milliseconds with three decimals, to `out`.
pub fn push_millis(out: &mut String, micros: u64)
    ensures
        final(out)@ == old(out)@ + millis_notation(micros as nat),
{
    proof {
        reveal_strlit(".");
    }
    push_decimal(out, micros / 1000);
    out.append(".");
    push_decimal(out, (micros / 100) % 10);
    push_decimal(out, (micros / 10) % 10);
    push_decimal(out, micros % 10);
    assert(final(out)@ =~= old(out)@ + millis_notation(micros as nat));
}

/// The outcome of a probe that was answered in time.
#[derive(Debug)]
pub struct ProbeResult {
    id: ProbeId,
    ttl: u8,
    from_address: Ipv4Address,
    rtt: u64,
    hostname: Option<String>,
}

/// The mathematical value of a `ProbeResult`. The round-trip time is in
/// microseconds.
pub ghost struct ProbeResultView {
    pub id: Seq<char>,
    pub ttl: u8,
    pub from_address: Ipv4Address,
    pub rtt: nat,
    pub hostname: Option<Seq<char>>,
}

impl ProbeResultView {
    /// The name under which the responder is shown: its host name where one
    /// is known, else its address.
    pub open spec fn shown_name(self) -> Seq<char> {
        match self.hostname {
            Some(name) => name,
            None => self.from_address.dotted(),
        }
    }

    /// The text of the result: name, address in brackets, two spaces, and
    /// the round-trip time in milliseconds.
    pub open spec fn text(self) -> Seq<char> {
        self.shown_name() + seq![' ', '('] + self.from_address.dotted() + seq![')', ' ', ' ']
            + millis_notation(self.rtt) + seq![' ', 'm', 's']
    }
}

impl View for ProbeResult {
    type V = ProbeResultView;

    closed spec fn view(&self) -> ProbeResultView {
        ProbeResultView {
            id: self.id@,
            ttl: self.ttl,
            from_address: self.from_address,
            rtt: self.rtt as nat,
            hostname: match self.hostname {
                Some(name) => Some(name@),
                None => None,
            },
        }
    }
}

impl Clone for ProbeResult {
    fn clone(&self) -> (out: Self)
        ensures
            out@ == self@,
    {
        let hostname = match &self.hostname {
            Some(name) => Some(name.clone()),
            None => None,
        };
        ProbeResult {
            id: self.id.clone(),
            ttl: self.ttl,
            from_address: self.from_address,
            rtt: self.rtt,
            hostname,
        }
    }
}

impl ProbeResult {
    /// A result without a host name. `rtt` is in microseconds.
    pub fn new(id: ProbeId, ttl: u8, from_address: Ipv4Address, rtt: u64) -> (out: Self)
        ensures
            out@ == (ProbeResultView {
                id: id@,
                ttl,
                from_address,
                rtt: rtt as nat,
                hostname: None,
            }),
    {
        ProbeResult { id, ttl, from_address, rtt, hostname: None }
    }

    pub fn probe_id(&self) -> (out: ProbeId)
        ensures
            out@ == self@.id,
    {
        self.id.clone()
    }

    pub fn from_address(&self) -> (out: Ipv4Address)
        ensures
            out == self@.from_address,
    {
        self.from_address
    }

    /// The round-trip time in microseconds.
    pub fn rtt(&self) -> (out: u64)
        ensures
            out == self@.rtt,
    {
        self.rtt
    }

    pub fn ttl(&self) -> (out: u8)
        ensures
            out == self@.ttl,
    {
        self.ttl
    }

    pub fn set_hostname(&mut self, hostname: &str)
        ensures
            final(self)@ == (ProbeResultView { hostname: Some(hostname@), ..old(self)@ }),
    {
        self.hostname = Some(String::from_str(hostname));
    }

    pub fn get_hostname(&self) -> (out: Option<String>)
        ensures
            out is Some == self@.hostname is Some,
            out is Some ==> out->0@ == self@.hostname->0,
    {
        match &self.hostname {
            Some(name) => Some(name.clone()),
            None => None,
        }
    }

    /// Appends the text of the result to `out`.
    pub fn push_text(&self, out: &mut String)
        ensures
            final(out)@ == old(out)@ + self@.text(),
    {
        proof {
            reveal_strlit(" (");
            reveal_strlit(")  ");
            reveal_strlit(" ms");
        }
        match &self.hostname {
            Some(name) => {
                out.append(name.as_str());
            },
            None => {
                self.from_address.push_dotted(out);
            },
        }
        assert(out@ =~= old(out)@ + self@.shown_name());
        out.append(" (");
        self.from_address.push_dotted(out);
        out.append(")  ");
        push_millis(out, self.rtt);
        out.append(" ms");
        assert(" ("@ =~= seq![' ', '(']);
        assert(")  "@ =~= seq![')', ' ', ' ']);
        assert(" ms"@ =~= seq![' ', 'm', 's']);
        assert(final(out)@ =~= old(out)@ + self@.text());
    }

    /// The text of the result as a string.
    pub fn render(&self) -> (out: String)
        ensures
            out@ == self@.text(),
    {
        let mut out = String::new();
        self.push_text(&mut out);
        assert(out@ =~= self@.text());
        out
    }
}

/// Why a probe has no result.
#[derive(Debug)]
pub enum ProbeError {
    /// No response arrived before the deadline.
    Timeout { ttl: u8 },
    /// Sending or receiving failed.
    IoError { ttl: u8, io_error: Option<std::io::Error> },
}

impl ProbeError {
    /// The time to live of the probe that failed.
    pub open spec fn spec_ttl(&self) -> u8 {
        match self {
            ProbeError::Timeout { ttl } => *ttl,
            ProbeError::IoError { ttl, .. } => *ttl,
        }
    }

    pub fn get_ttl(&self) -> (out: u8)
        ensures
            out == self.spec_ttl(),
    {
        match self {
            ProbeError::Timeout { ttl } => *ttl,
            ProbeError::IoError { ttl, .. } => *ttl,
        }
    }
}

/// The view of an optional result.
pub open spec fn result_view(result: Option<ProbeResult>) -> Option<ProbeResultView> {
    match result {
        Some(r) => Some(r@),
        None => None,
    }
}

/// Where a pending entry stands.
pub ghost enum ProbeState {
    /// No response yet, and the deadline has not been seen to pass.
    Waiting,
    /// The first response came from `from_address`, `rtt` microseconds after
    /// the probe was sent.
    Answered { from_address: Ipv4Address, rtt: nat },
    /// The deadline passed without a response.
    Expired,
}

/// The mathematical value of a `CompletableProbe`. Times are in microseconds
/// on a monotonic clock.
pub ghost struct CompletableProbeView {
    pub id: Seq<char>,
    pub ttl: u8,
    pub sent_at: nat,
    pub state: ProbeState,
}

/// The time from `sent_at` to `now`; zero where `now` is the earlier.
pub open spec fn elapsed(sent_at: nat, now: nat) -> nat {
    if now >= sent_at {
        (now - sent_at) as nat
    } else {
        0
    }
}

impl CompletableProbeView {
    /// The result that the entry holds, if it was answered.
    pub open spec fn result(self) -> Option<ProbeResultView> {
        match self.state {
            ProbeState::Answered { from_address, rtt } => Some(
                ProbeResultView { id: self.id, ttl: self.ttl, from_address, rtt, hostname: None },
            ),
            _ => None,
        }
    }

    /// The entry after `response` was seen at `now`: the first response with
    /// the entry's id fills a waiting entry, and nothing else changes it.
    pub open spec fn completed(self, response: ProbeResponseView, now: nat) -> Self {
        if response.id == self.id && self.state is Waiting {
            CompletableProbeView {
                state: ProbeState::Answered {
                    from_address: response.from_address,
                    rtt: elapsed(self.sent_at, now),
                },
                ..self
            }
        } else {
            self
        }
    }

    /// What `response`, seen at `now`, is answered with: the entry's result
    /// where the id is the entry's and the entry has not expired.
    pub open spec fn answer(self, response: ProbeResponseView, now: nat) -> Option<
        ProbeResultView,
    > {
        if response.id == self.id {
            self.completed(response, now).result()
        } else {
            None
        }
    }

    /// The entry after its deadline was tested at `now`: a waiting entry
    /// whose deadline has come expires.
    pub open spec fn awaited(self, now: nat, deadline: nat) -> Self {
        if self.state is Waiting && now >= deadline {
            CompletableProbeView { state: ProbeState::Expired, ..self }
        } else {
            self
        }
    }
}

/// A probe that was sent and may still be answered.
pub struct CompletableProbe {
    id: ProbeId,
    ttl: u8,
    sent_at: u64,
    answer: Option<(Ipv4Address, u64)>,
    expired: bool,
}

impl View for CompletableProbe {
    type V = CompletableProbeView;

    closed spec fn view(&self) -> CompletableProbeView {
        CompletableProbeView {
            id: self.id@,
            ttl: self.ttl,
            sent_at: self.sent_at as nat,
            state: match self.answer {
                Some((from_address, rtt)) => ProbeState::Answered { from_address, rtt: rtt as nat },
                None => if self.expired {
                    ProbeState::Expired
                } else {
                    ProbeState::Waiting
                },
            },
        }
    }
}

impl CompletableProbe {
    /// A waiting entry for the probe `id`, sent at `sent_at` with time to
    /// live `ttl`.
    pub fn new(id: &str, ttl: u8, sent_at: u64) -> (out: Self)
        ensures
            out@ == (CompletableProbeView {
                id: id@,
                ttl,
                sent_at: sent_at as nat,
                state: ProbeState::Waiting,
            }),
    {
        CompletableProbe { id: String::from_str(id), ttl, sent_at, answer: None, expired: false }
    }

    /// Whether the entry is the one of probe `id`.
    pub fn has_id(&self, id: &str) -> (out: bool)
        ensures
            out == (self@.id == id@),
    {
        let other = String::from_str(id);
        self.id == other
    }

    /// The result that the entry holds, if it was answered.
    pub fn result(&self) -> (out: Option<ProbeResult>)
        ensures
            result_view(out) == self@.result(),
    {
        match self.answer {
            Some((from_address, rtt)) => Some(
                ProbeResult::new(self.id.clone(), self.ttl, from_address, rtt),
            ),
            None => None,
        }
    }

    /// Takes in a response seen at `now`. The first response that carries
    /// the entry's id fills the entry, with the time since the send as
    /// round-trip time; later ones are answered with the same result. A
    /// response with another id, or one for an expired entry, is answered
    /// with `None` and changes nothing.
    pub fn complete(&mut self, probe_response: ProbeResponse, now: u64) -> (out: Option<
        ProbeResult,
    >)
        ensures
            final(self)@ == old(self)@.completed(probe_response@, now as nat),
            result_view(out) == old(self)@.answer(probe_response@, now as nat),
    {
        if probe_response.id != self.id {
            return None;
        }
        if self.answer.is_none() && !self.expired {
            let rtt: u64 = if now >= self.sent_at {
                now - self.sent_at
            } else {
                0
            };
            self.answer = Some((probe_response.from_address, rtt));
        }
        self.result()
    }

    /// Tests the entry at `now` against its deadline. An answered entry gives
    /// its result. A waiting entry whose deadline has come expires, and an
    /// expired one stays so: both give `Timeout`. Otherwise the entry is
    /// still waiting and the answer is `None`.
    pub fn await_one(&mut self, now: u64, deadline: u64) -> (out: Option<
        Result<ProbeResult, ProbeError>,
    >)
        ensures
            final(self)@ == old(self)@.awaited(now as nat, deadline as nat),
            match final(self)@.state {
                ProbeState::Waiting => out is None,
                ProbeState::Answered { .. } => out is Some && out->0 is Ok && Some(
                    out->0->Ok_0@,
                ) == final(self)@.result(),
                ProbeState::Expired => out is Some && out->0 is Err && out->0->Err_0
                    == (ProbeError::Timeout { ttl: old(self)@.ttl }),
            },
    {
        match self.result() {
            Some(result) => Some(Ok(result)),
            None => {
                if !self.expired && now >= deadline {
                    self.expired = true;
                }
                if self.expired {
                    Some(Err(ProbeError::Timeout { ttl: self.ttl }))
                } else {
                    None
                }
            },
        }
    }
}

} // verus!
