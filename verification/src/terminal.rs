//! The walk along the path: hop by hop, a fixed number of probes each, until
//! the destination answers or the hops run out.
//!
//! The walk is a state machine. Whoever drives it sends what `outbound`
//! describes, tells the walk how the send went, hands it every captured
//! datagram and the time, prints the line of each finished hop, and stops
//! when the walk is done.

use vstd::prelude::*;
use crate::address::Ipv4Address;
use crate::decimal::{decimal, push_decimal};
use crate::generator::{lemma_probe_ids_distinct, GeneratorView, Probe, ProbeGenerator};
use crate::options::TracerouteOptions;
use crate::parser::{signal, ProbeResponseParser};
use crate::probe::{
    CompletableProbeView, ProbeError, ProbeResponseView, ProbeResult, ProbeResultView, ProbeState,
};
use crate::task::{
    awaited_table, completed_table, keyed, outcome_of, Awaited, AwaitedView, ProbeTask,
};

verus! {

/// Where a walk stands.
#[derive(Clone, Copy, Debug, PartialEq, Eq, Structural)]
pub enum WalkState {
    /// The probes of hop `ttl` are being sent.
    ProbingHop { ttl: u8 },
    /// All probes of hop `ttl` were sent, and some may still be answered.
    AwaitingHop { ttl: u8 },
    /// Every probe of hop `ttl` has its outcome, and the hop's line is due.
    ReportingHop { ttl: u8 },
    /// The walk is over.
    Done,
}

/// Why a walk cannot start.
#[derive(Debug)]
pub enum TracerouteError {
    /// The host has no address.
    HostnameNotResolved(String),
    /// The hops do not fit a time to live, or the tokens do not fit sixteen
    /// bits.
    ProbesDoNotFit,
}

/// What one probe of the current hop has come to.
#[derive(Debug)]
pub enum Slot {
    /// Sent, and waited for until `deadline`.
    Waiting { deadline: u64 },
    /// Answered in time.
    Answered(ProbeResult),
    /// Not sent, or not answered in time.
    Failed(ProbeError),
}

/// The mathematical value of a `Slot`.
pub ghost enum SlotView {
    Waiting { deadline: nat },
    Answered(ProbeResultView),
    Failed(ProbeError),
}

impl View for Slot {
    type V = SlotView;

    open spec fn view(&self) -> SlotView {
        match self {
            Slot::Waiting { deadline } => SlotView::Waiting { deadline: *deadline as nat },
            Slot::Answered(result) => SlotView::Answered(result@),
            Slot::Failed(error) => SlotView::Failed(*error),
        }
    }
}

/// Whether no slot is waiting.
pub open spec fn all_settled(slots: Seq<SlotView>) -> bool {
    forall|i: int| 0 <= i < slots.len() ==> !(#[trigger] slots[i] is Waiting)
}

/// Whether some slot holds an answer from `target`.
pub open spec fn reached(slots: Seq<SlotView>, target: Ipv4Address) -> bool {
    exists|i: int|
        0 <= i < slots.len() && (#[trigger] slots[i]) is Answered && slots[i]->Answered_0.from_address
            == target
}

/// Where a walk stands at hop `ttl` with the given slots, of `queries` due:
/// probing while probes are left to send, awaiting while a slot is waiting,
/// else reporting.
pub open spec fn hop_state(ttl: u8, slots: Seq<SlotView>, queries: int) -> WalkState {
    if slots.len() < queries {
        WalkState::ProbingHop { ttl }
    } else if !all_settled(slots) {
        WalkState::AwaitingHop { ttl }
    } else {
        WalkState::ReportingHop { ttl }
    }
}

/// The deadline of a probe sent at `sent_at` and waited for `wait`, both in
/// microseconds.
pub open spec fn deadline_of(sent_at: nat, wait: nat) -> nat {
    if sent_at + wait <= u64::MAX {
        sent_at + wait
    } else {
        u64::MAX as nat
    }
}

/// The slot that an awaited probe has come to.
pub open spec fn slot_of(awaited: AwaitedView, deadline: nat) -> SlotView {
    match awaited {
        AwaitedView::Completed(result) => SlotView::Answered(result),
        AwaitedView::TimedOut { ttl } => SlotView::Failed(ProbeError::Timeout { ttl }),
        _ => SlotView::Waiting { deadline },
    }
}

/// The mathematical value of a walk.
pub ghost struct TerminalView {
    pub target: Ipv4Address,
    pub generator: GeneratorView,
    /// How long each probe is waited for, in microseconds.
    pub wait: nat,
    pub state: WalkState,
    /// The slots of the current hop, in the order of the queries.
    pub slots: Seq<SlotView>,
    /// The probes that were sent, each under its identity.
    pub table: Map<Seq<char>, CompletableProbeView>,
}

impl WalkState {
    /// The hop that the walk is at, unless it is over.
    pub open spec fn hop(self) -> Option<u8> {
        match self {
            WalkState::ProbingHop { ttl } => Some(ttl),
            WalkState::AwaitingHop { ttl } => Some(ttl),
            WalkState::ReportingHop { ttl } => Some(ttl),
            WalkState::Done => None,
        }
    }
}

impl TerminalView {
    /// Whether slot `query` of hop `ttl` is what the probe `(ttl, query)` has
    /// come to: a waiting slot has its probe in the table, an answer carries
    /// the probe's identity and time to live, an error its time to live.
    pub open spec fn slot_fits(self, ttl: u8, query: int) -> bool {
        let id = self.generator.probe_id(ttl as int, query);
        match self.slots[query] {
            SlotView::Waiting { deadline } => self.table.contains_key(id) && self.table[id].ttl
                == ttl,
            SlotView::Answered(result) => result.id == id && result.ttl == ttl,
            SlotView::Failed(error) => error.spec_ttl() == ttl,
        }
    }

    /// What holds of a walk at hop `ttl`: the probes fit; the table holds
    /// each probe under its identity; the hop is one of the run; and slot
    /// `i` is what query `i` of the hop has come to.
    pub open spec fn hop_inv(self, ttl: u8) -> bool {
        &&& self.generator.fits()
        &&& self.wait <= 255_000_000
        &&& keyed(self.table)
        &&& 1 <= ttl <= self.generator.hops
        &&& self.slots.len() <= self.generator.queries_per_hop
        &&& forall|i: int| 0 <= i < self.slots.len() ==> self.slot_fits(ttl, i)
    }

    /// What holds of every walk: one that is not over is at a hop of the
    /// run, in the state that its slots say, and its slots are those of the
    /// hop's queries, in their order.
    pub open spec fn wf(self) -> bool {
        &&& self.generator.fits()
        &&& self.wait <= 255_000_000
        &&& keyed(self.table)
        &&& match self.state.hop() {
            Some(ttl) => self.hop_inv(ttl) && self.state == hop_state(
                ttl,
                self.slots,
                self.generator.queries_per_hop,
            ),
            None => true,
        }
    }

    /// The walk at the start: at hop one, or over at once where there is no
    /// hop.
    pub open spec fn start(target: Ipv4Address, generator: GeneratorView, wait: nat) -> Self {
        TerminalView {
            target,
            generator,
            wait,
            state: if generator.hops >= 1 {
                hop_state(1, Seq::empty(), generator.queries_per_hop)
            } else {
                WalkState::Done
            },
            slots: Seq::empty(),
            table: Map::empty(),
        }
    }

    /// The walk after the next probe of the hop was sent at `sent_at`: the
    /// probe is in the table, and its slot waits. Outside of probing nothing
    /// changes.
    pub open spec fn sent(self, sent_at: nat) -> Self {
        match self.state {
            WalkState::ProbingHop { ttl } => {
                let id = self.generator.probe_id(ttl as int, self.slots.len() as int);
                let slots = self.slots.push(
                    SlotView::Waiting { deadline: deadline_of(sent_at, self.wait) },
                );
                TerminalView {
                    state: hop_state(ttl, slots, self.generator.queries_per_hop),
                    slots,
                    table: self.table.insert(
                        id,
                        CompletableProbeView { id, ttl, sent_at, state: ProbeState::Waiting },
                    ),
                    ..self
                }
            },
            _ => self,
        }
    }

    /// The walk after the next probe of the hop could not be sent: its slot
    /// holds the error, and the hop goes on. Outside of probing nothing
    /// changes.
    pub open spec fn send_failed(self, io_error: Option<std::io::Error>) -> Self {
        match self.state {
            WalkState::ProbingHop { ttl } => {
                let slots = self.slots.push(
                    SlotView::Failed(ProbeError::IoError { ttl, io_error }),
                );
                TerminalView {
                    state: hop_state(ttl, slots, self.generator.queries_per_hop),
                    slots,
                    ..self
                }
            },
            _ => self,
        }
    }
}

impl TerminalView {
    /// The walk after slot `query` of hop `ttl` was tested at `now`: a
    /// waiting slot takes what its probe has come to, and a probe whose
    /// deadline has come expires.
    pub open spec fn poll_slot(self, ttl: u8, now: nat, query: int) -> Self {
        match self.slots[query] {
            SlotView::Waiting { deadline } => {
                let id = self.generator.probe_id(ttl as int, query);
                TerminalView {
                    slots: self.slots.update(
                        query,
                        slot_of(outcome_of(self.table, id, now, deadline), deadline),
                    ),
                    table: awaited_table(self.table, id, now, deadline),
                    ..self
                }
            },
            _ => self,
        }
    }

    /// The walk after the first `n` slots of hop `ttl` were tested at `now`.
    pub open spec fn polled_to(self, ttl: u8, now: nat, n: nat) -> Self
        decreases n,
    {
        if n == 0 {
            self
        } else {
            self.polled_to(ttl, now, (n - 1) as nat).poll_slot(ttl, now, n - 1)
        }
    }

    /// The walk after the time `now` was seen: while a hop is awaited, every
    /// slot is tested, and the hop is due for its line once none waits.
    /// Outside of awaiting nothing changes.
    pub open spec fn polled(self, now: nat) -> Self {
        match self.state {
            WalkState::AwaitingHop { ttl } => {
                let tested = self.polled_to(ttl, now, self.slots.len());
                TerminalView {
                    state: hop_state(ttl, tested.slots, self.generator.queries_per_hop),
                    ..tested
                }
            },
            _ => self,
        }
    }

    /// The walk after `packet` was captured at `now`, coming from `source`:
    /// where the packet answers a probe of the run, the table takes the
    /// response in; then the time is seen.
    pub open spec fn captured(self, packet: Seq<u8>, source: Ipv4Address, now: nat) -> Self {
        let table = match signal(self.generator, packet) {
            Some(s) => completed_table(
                self.table,
                ProbeResponseView { id: decimal(s.token as nat), from_address: source },
                now,
            ),
            None => self.table,
        };
        (TerminalView { table, ..self }).polled(now)
    }

    /// The walk after a reported hop's responder `query` was given a host
    /// name. Outside of reporting, and for a slot without an answer, nothing
    /// changes.
    pub open spec fn named(self, query: int, hostname: Seq<char>) -> Self {
        if self.state is ReportingHop && 0 <= query < self.slots.len()
            && self.slots[query] is Answered {
            TerminalView {
                slots: self.slots.update(
                    query,
                    SlotView::Answered(
                        ProbeResultView {
                            hostname: Some(hostname),
                            ..self.slots[query]->Answered_0
                        },
                    ),
                ),
                ..self
            }
        } else {
            self
        }
    }

    /// The walk after the line of a hop was reported: over where the
    /// destination answered or the hop was the last, else at the next hop
    /// with no probe sent. Outside of reporting nothing changes.
    pub open spec fn reported(self) -> Self {
        match self.state {
            WalkState::ReportingHop { ttl } => {
                if reached(self.slots, self.target) || ttl >= self.generator.hops {
                    TerminalView { state: WalkState::Done, ..self }
                } else {
                    TerminalView {
                        state: hop_state(
                            (ttl + 1) as u8,
                            Seq::empty(),
                            self.generator.queries_per_hop,
                        ),
                        slots: Seq::empty(),
                        ..self
                    }
                }
            },
            _ => self,
        }
    }
}

/// The text of one slot: the result's text, or a star where there is none.
pub open spec fn slot_text(slot: SlotView) -> Seq<char> {
    match slot {
        SlotView::Answered(result) => result.text(),
        _ => seq!['*'],
    }
}

/// The texts of the slots in order, each after two spaces.
pub open spec fn slots_text(slots: Seq<SlotView>) -> Seq<char>
    decreases slots.len(),
{
    if slots.len() == 0 {
        Seq::empty()
    } else {
        slots_text(slots.drop_last()) + seq![' ', ' '] + slot_text(slots.last())
    }
}

/// The line of a hop: its time to live and the texts of its slots.
pub open spec fn hop_text(ttl: u8, slots: Seq<SlotView>) -> Seq<char> {
    decimal(ttl as nat) + slots_text(slots)
}

/// The views of slots.
pub open spec fn slot_views(slots: Seq<Slot>) -> Seq<SlotView> {
    Seq::new(slots.len(), |i: int| slots[i]@)
}

/// Where a walk stands at hop `ttl` with the given slots, of `queries` due.
fn hop_state_of(ttl: u8, slots: &Vec<Slot>, queries: u16) -> (out: WalkState)
    ensures
        out == hop_state(ttl, slot_views(slots@), queries as int),
{
    if slots.len() < queries as usize {
        return WalkState::ProbingHop { ttl };
    }
    let mut i: usize = 0;
    while i < slots.len()
        invariant
            i <= slots@.len(),
            slots@.len() >= queries,
            forall|j: int| 0 <= j < i ==> !(#[trigger] slot_views(slots@)[j] is Waiting),
        decreases slots@.len() - i,
    {
        match &slots[i] {
            Slot::Waiting { .. } => {
                assert(slot_views(slots@)[i as int] is Waiting);
                assert(!all_settled(slot_views(slots@)));
                return WalkState::AwaitingHop { ttl };
            },
            _ => {},
        }
        i = i + 1;
    }
    WalkState::ReportingHop { ttl }
}

/// A walk along the path to one target.
pub struct TracerouteTerminal {
    target: Ipv4Address,
    generator: ProbeGenerator,
    wait: u64,
    state: WalkState,
    slots: Vec<Slot>,
    task: ProbeTask,
}

impl View for TracerouteTerminal {
    type V = TerminalView;

    closed spec fn view(&self) -> TerminalView {
        TerminalView {
            target: self.target,
            generator: self.generator@,
            wait: self.wait as nat,
            state: self.state,
            slots: slot_views(self.slots@),
            table: self.task@,
        }
    }
}

impl TracerouteTerminal {
    /// Whether the table is in order.
    pub closed spec fn table_wf(&self) -> bool {
        self.task.wf()
    }

    /// What holds of every walk.
    pub open spec fn wf(&self) -> bool {
        self@.wf() && self.table_wf()
    }

    /// A walk to the address that the host of `options` resolved to. Without
    /// an address the walk cannot start, and neither where the probes do not
    /// fit.
    pub fn new(options: TracerouteOptions, resolved: Option<Ipv4Address>) -> (out: Result<
        Self,
        TracerouteError,
    >)
        ensures
            resolved is None ==> out is Err && out->Err_0 is HostnameNotResolved
                && out->Err_0->HostnameNotResolved_0@ == options.host@,
            resolved is Some && !generator_of(options).fits() ==> out is Err
                && out->Err_0 is ProbesDoNotFit,
            resolved is Some && generator_of(options).fits() ==> out is Ok && out->Ok_0.wf()
                && out->Ok_0@ == TerminalView::start(
                resolved->0,
                generator_of(options),
                (options.wait * 1_000_000) as nat,
            ),
    {
        let target = match resolved {
            Some(address) => address,
            None => {
                return Err(TracerouteError::HostnameNotResolved(options.host));
            },
        };
        let generator = match ProbeGenerator::new(
            options.method,
            options.initial_destination_port,
            options.hops,
            options.queries_per_hop,
        ) {
            Some(generator) => generator,
            None => {
                return Err(TracerouteError::ProbesDoNotFit);
            },
        };
        let slots: Vec<Slot> = Vec::new();
        let state = if generator.hops() >= 1 {
            hop_state_of(1, &slots, generator.queries_per_hop())
        } else {
            WalkState::Done
        };
        let out = TracerouteTerminal {
            target,
            generator,
            wait: options.wait_micros(),
            state,
            slots,
            task: ProbeTask::new(),
        };
        proof {
            assert(slot_views(out.slots@) =~= Seq::empty());
        }
        Ok(out)
    }

    /// Where the walk stands.
    pub fn state(&self) -> (out: WalkState)
        ensures
            out == self@.state,
    {
        self.state
    }

    /// The address that the walk leads to.
    pub fn target(&self) -> (out: Ipv4Address)
        ensures
            out == self@.target,
    {
        self.target
    }

    /// Whether the walk is over.
    pub fn is_done(&self) -> (out: bool)
        ensures
            out == (self@.state is Done),
    {
        match self.state {
            WalkState::Done => true,
            _ => false,
        }
    }
}

/// The parameters of the probes that `options` asks for.
pub open spec fn generator_of(options: TracerouteOptions) -> GeneratorView {
    GeneratorView {
        method: options.method,
        base_port: options.initial_destination_port as int,
        hops: options.hops as int,
        queries_per_hop: options.queries_per_hop as int,
    }
}

/// Sending a probe keeps a walk in order.
pub proof fn lemma_sent_wf(v: TerminalView, sent_at: nat)
    requires
        v.wf(),
    ensures
        v.sent(sent_at).wf(),
{
    match v.state {
        WalkState::ProbingHop { ttl } => {
            let after = v.sent(sent_at);
            let n = v.slots.len() as int;
            let id = v.generator.probe_id(ttl as int, n);
            assert forall|i: int| 0 <= i < after.slots.len() implies after.slot_fits(ttl, i) by {
                if i < n {
                    assert(v.slot_fits(ttl, i));
                    assert(after.slots[i] == v.slots[i]);
                    lemma_probe_ids_distinct(v.generator, ttl as int, i, ttl as int, n);
                }
            }
            assert(after.hop_inv(ttl));
        },
        _ => {},
    }
}

/// A failed send keeps a walk in order.
pub proof fn lemma_send_failed_wf(v: TerminalView, io_error: Option<std::io::Error>)
    requires
        v.wf(),
    ensures
        v.send_failed(io_error).wf(),
{
    match v.state {
        WalkState::ProbingHop { ttl } => {
            let after = v.send_failed(io_error);
            let n = v.slots.len() as int;
            assert forall|i: int| 0 <= i < after.slots.len() implies after.slot_fits(ttl, i) by {
                if i < n {
                    assert(v.slot_fits(ttl, i));
                    assert(after.slots[i] == v.slots[i]);
                }
            }
            assert(after.hop_inv(ttl));
        },
        _ => {},
    }
}

/// Testing one slot keeps the hop in order and leaves the other slots as
/// they were.
pub proof fn lemma_poll_slot(v: TerminalView, ttl: u8, now: nat, query: int)
    requires
        v.hop_inv(ttl),
        0 <= query < v.slots.len(),
    ensures
        v.poll_slot(ttl, now, query).hop_inv(ttl),
        v.poll_slot(ttl, now, query).slots.len() == v.slots.len(),
        v.poll_slot(ttl, now, query).target == v.target,
        v.poll_slot(ttl, now, query).generator == v.generator,
        v.poll_slot(ttl, now, query).wait == v.wait,
        v.poll_slot(ttl, now, query).state == v.state,
        forall|i: int|
            0 <= i < v.slots.len() && i != query ==> v.poll_slot(ttl, now, query).slots[i]
                == v.slots[i],
{
    let after = v.poll_slot(ttl, now, query);
    assert(v.slot_fits(ttl, query));
    match v.slots[query] {
        SlotView::Waiting { deadline } => {
            let id = v.generator.probe_id(ttl as int, query);
            assert(v.table[id].id == id);
            assert forall|i: int| 0 <= i < after.slots.len() implies after.slot_fits(ttl, i) by {
                assert(v.slot_fits(ttl, i));
                if i != query {
                    lemma_probe_ids_distinct(v.generator, ttl as int, i, ttl as int, query);
                }
            }
            assert forall|k: Seq<char>| after.table.contains_key(k) implies (
            #[trigger] after.table[k]).id == k by {
                if k != id {
                    assert(v.table[k].id == k);
                }
            }
        },
        _ => {},
    }
}

/// Testing the first `n` slots keeps the hop in order.
pub proof fn lemma_polled_to(v: TerminalView, ttl: u8, now: nat, n: nat)
    requires
        v.hop_inv(ttl),
        n <= v.slots.len(),
    ensures
        v.polled_to(ttl, now, n).hop_inv(ttl),
        v.polled_to(ttl, now, n).slots.len() == v.slots.len(),
        v.polled_to(ttl, now, n).target == v.target,
        v.polled_to(ttl, now, n).generator == v.generator,
        v.polled_to(ttl, now, n).wait == v.wait,
        v.polled_to(ttl, now, n).state == v.state,
        forall|i: int| n <= i < v.slots.len() ==> v.polled_to(ttl, now, n).slots[i] == v.slots[i],
    decreases n,
{
    if n > 0 {
        lemma_polled_to(v, ttl, now, (n - 1) as nat);
        lemma_poll_slot(v.polled_to(ttl, now, (n - 1) as nat), ttl, now, n - 1);
    }
}

/// Seeing the time keeps a walk in order.
pub proof fn lemma_polled_wf(v: TerminalView, now: nat)
    requires
        v.wf(),
    ensures
        v.polled(now).wf(),
{
    match v.state {
        WalkState::AwaitingHop { ttl } => {
            lemma_polled_to(v, ttl, now, v.slots.len());
            let tested = v.polled_to(ttl, now, v.slots.len());
            let after = v.polled(now);
            assert forall|i: int| 0 <= i < after.slots.len() implies after.slot_fits(ttl, i) by {
                assert(tested.slot_fits(ttl, i));
            }
            assert(after.hop_inv(ttl));
        },
        _ => {},
    }
}

/// A captured packet keeps a walk in order.
pub proof fn lemma_captured_wf(v: TerminalView, packet: Seq<u8>, source: Ipv4Address, now: nat)
    requires
        v.wf(),
    ensures
        v.captured(packet, source, now).wf(),
{
    let table = match signal(v.generator, packet) {
        Some(s) => completed_table(
            v.table,
            ProbeResponseView { id: decimal(s.token as nat), from_address: source },
            now,
        ),
        None => v.table,
    };
    let taken = TerminalView { table, ..v };
    assert forall|k: Seq<char>| table.contains_key(k) implies (#[trigger] table[k]).id == k by {
        assert(v.table.contains_key(k));
        assert(v.table[k].id == k);
    }
    match v.state.hop() {
        Some(ttl) => {
            assert forall|i: int| 0 <= i < taken.slots.len() implies taken.slot_fits(ttl, i) by {
                assert(v.slot_fits(ttl, i));
            }
            assert(taken.hop_inv(ttl));
        },
        None => {},
    }
    lemma_polled_wf(taken, now);
}

/// A host name keeps a walk in order.
pub proof fn lemma_named_wf(v: TerminalView, query: int, hostname: Seq<char>)
    requires
        v.wf(),
    ensures
        v.named(query, hostname).wf(),
{
    let after = v.named(query, hostname);
    match v.state {
        WalkState::ReportingHop { ttl } => {
            assert forall|i: int| 0 <= i < after.slots.len() implies after.slot_fits(ttl, i) by {
                assert(v.slot_fits(ttl, i));
            }
            assert forall|i: int| 0 <= i < after.slots.len() implies !(
            #[trigger] after.slots[i] is Waiting) by {
                assert(!(v.slots[i] is Waiting));
            }
            assert(after.hop_inv(ttl));
        },
        _ => {},
    }
}

/// Reporting a hop keeps a walk in order.
pub proof fn lemma_reported_wf(v: TerminalView)
    requires
        v.wf(),
    ensures
        v.reported().wf(),
{
    match v.state {
        WalkState::ReportingHop { ttl } => {
            let after = v.reported();
            if !(reached(v.slots, v.target) || ttl >= v.generator.hops) {
                assert(after.hop_inv((ttl + 1) as u8));
            }
        },
        _ => {},
    }
}

impl TerminalView {
    /// The probe that is due next, as time to live and query: while a hop is
    /// probed, the first query of the hop that has no slot yet.
    pub open spec fn next_probe(self) -> Option<(u8, int)> {
        match self.state {
            WalkState::ProbingHop { ttl } => Some((ttl, self.slots.len() as int)),
            _ => None,
        }
    }
}

impl TracerouteTerminal {
    /// The probe that is due next, as it would be if sent at `sent_at`;
    /// `None` where no probe is due.
    pub fn outbound(&self, sent_at: u64) -> (out: Option<Probe>)
        requires
            self.wf(),
        ensures
            match self@.next_probe() {
                Some((ttl, query)) => out is Some && out->0.id@ == self@.generator.probe_id(
                    ttl as int,
                    query,
                ) && out->0.ttl == ttl && out->0.method == self@.generator.method
                    && out->0.destination == self@.target && out->0.fields
                    == self@.generator.wire_fields(ttl as int, query) && out->0.sent_at
                    == sent_at,
                None => out is None,
            },
    {
        match self.state {
            WalkState::ProbingHop { ttl } => {
                let query = self.slots.len() as u16;
                Some(self.generator.generate(ttl, query, self.target, sent_at))
            },
            _ => None,
        }
    }

    /// Tells the walk that the probe that was due was sent at `sent_at`. The
    /// probe is entered as waiting until its deadline. Where no probe was
    /// due nothing changes.
    pub fn probe_sent(&mut self, sent_at: u64)
        requires
            old(self).wf(),
        ensures
            final(self).wf(),
            final(self)@ == old(self)@.sent(sent_at as nat),
    {
        match self.state {
            WalkState::ProbingHop { ttl } => {
                let query = self.slots.len() as u16;
                let probe = self.generator.generate(ttl, query, self.target, sent_at);
                self.task.register(&probe);
                let deadline: u64 = if sent_at > u64::MAX - self.wait {
                    u64::MAX
                } else {
                    sent_at + self.wait
                };
                self.slots.push(Slot::Waiting { deadline });
                self.state = hop_state_of(ttl, &self.slots, self.generator.queries_per_hop());
                proof {
                    assert(slot_views(final(self).slots@) =~= slot_views(old(self).slots@).push(
                        SlotView::Waiting { deadline: deadline as nat },
                    ));
                    lemma_sent_wf(old(self)@, sent_at as nat);
                }
            },
            _ => {},
        }
    }

    /// Tells the walk that the probe that was due could not be sent. Its
    /// slot holds the error, and the hop goes on with the next probe. Where
    /// no probe was due nothing changes.
    pub fn send_failed(&mut self, io_error: Option<std::io::Error>)
        requires
            old(self).wf(),
        ensures
            final(self).wf(),
            final(self)@ == old(self)@.send_failed(io_error),
    {
        match self.state {
            WalkState::ProbingHop { ttl } => {
                self.slots.push(Slot::Failed(ProbeError::IoError { ttl, io_error }));
                self.state = hop_state_of(ttl, &self.slots, self.generator.queries_per_hop());
                proof {
                    assert(slot_views(final(self).slots@) =~= slot_views(old(self).slots@).push(
                        SlotView::Failed(ProbeError::IoError { ttl, io_error }),
                    ));
                    lemma_send_failed_wf(old(self)@, io_error);
                }
            },
            _ => {},
        }
    }
}

impl TracerouteTerminal {
    /// Tells the walk the time. While a hop is awaited, every waiting probe
    /// is tested against its deadline: an answered one fills its slot, one
    /// whose deadline has come times out, and the hop is due for its line
    /// once no slot waits. Outside of awaiting nothing changes.
    pub fn tick(&mut self, now: u64)
        requires
            old(self).wf(),
        ensures
            final(self).wf(),
            final(self)@ == old(self)@.polled(now as nat),
    {
        match self.state {
            WalkState::AwaitingHop { ttl } => {
                let ghost before = self@;
                let n = self.slots.len();
                let mut i: usize = 0;
                while i < n
                    invariant
                        i <= n,
                        n == before.slots.len(),
                        before.hop_inv(ttl),
                        self.task.wf(),
                        self@ == before.polled_to(ttl, now as nat, i as nat),
                    decreases n - i,
                {
                    let ghost prev = self@;
                    proof {
                        lemma_polled_to(before, ttl, now as nat, i as nat);
                        assert(prev.slots.len() == self.slots@.len());
                    }
                    let waiting = match &self.slots[i] {
                        Slot::Waiting { deadline } => Some(*deadline),
                        _ => None,
                    };
                    match waiting {
                        Some(deadline) => {
                            let id = self.generator.probe_id(ttl, i as u16);
                            let awaited = self.task.await_one(id.as_str(), now, deadline);
                            match awaited {
                                Awaited::Completed(result) => {
                                    self.slots[i] = Slot::Answered(result);
                                },
                                Awaited::TimedOut(error) => {
                                    self.slots[i] = Slot::Failed(
                                        ProbeError::Timeout { ttl: error.get_ttl() },
                                    );
                                },
                                _ => {},
                            }
                            proof {
                                assert(prev.slots[i as int] == SlotView::Waiting {
                                    deadline: deadline as nat,
                                });
                                assert(self@.slots =~= prev.poll_slot(
                                    ttl,
                                    now as nat,
                                    i as int,
                                ).slots);
                            }
                        },
                        None => {
                            assert(!(prev.slots[i as int] is Waiting));
                        },
                    }
                    assert(self@ == prev.poll_slot(ttl, now as nat, i as int));
                    i = i + 1;
                }
                self.state = hop_state_of(ttl, &self.slots, self.generator.queries_per_hop());
                proof {
                    lemma_polled_wf(before, now as nat);
                }
            },
            _ => {},
        }
    }

    /// Hands the walk a datagram captured at `now`, seen to come from
    /// `source`. Where it answers a probe of the run that still waits, the
    /// probe is completed with the time since its send; any other datagram
    /// is passed over. Then the time is seen, as by `tick`.
    pub fn capture(&mut self, packet: &[u8], source: Ipv4Address, now: u64)
        requires
            old(self).wf(),
        ensures
            final(self).wf(),
            final(self)@ == old(self)@.captured(packet@, source, now as nat),
    {
        let parser = ProbeResponseParser::new(self.generator);
        match parser.parse(packet, source) {
            Some(parsed) => {
                let _ = self.task.complete(parsed.response, now);
            },
            None => {},
        }
        proof {
            self.task.lemma_keyed();
            match old(self)@.state.hop() {
                Some(ttl) => {
                    assert forall|i: int| 0 <= i < self@.slots.len() implies self@.slot_fits(
                        ttl,
                        i,
                    ) by {
                        assert(old(self)@.slot_fits(ttl, i));
                    }
                },
                None => {},
            }
        }
        self.tick(now);
    }
}

/// The earliest deadline among the waiting slots, if any waits.
pub open spec fn earliest_deadline(slots: Seq<SlotView>) -> Option<nat>
    decreases slots.len(),
{
    if slots.len() == 0 {
        None
    } else {
        let before = earliest_deadline(slots.drop_last());
        match slots.last() {
            SlotView::Waiting { deadline } => match before {
                Some(earlier) => if earlier <= deadline {
                    before
                } else {
                    Some(deadline)
                },
                None => Some(deadline),
            },
            _ => before,
        }
    }
}

impl TracerouteTerminal {
    /// The line of the hop that is due for reporting: its time to live,
    /// then for each query, after two spaces, the text of its result, or a
    /// star where it has none. `None` where no hop is due.
    pub fn hop_line(&self) -> (out: Option<String>)
        ensures
            match self@.state {
                WalkState::ReportingHop { ttl } => out is Some && out->0@ == hop_text(
                    ttl,
                    self@.slots,
                ),
                _ => out is None,
            },
    {
        match self.state {
            WalkState::ReportingHop { ttl } => {
                let mut line = String::new();
                push_decimal(&mut line, ttl as u64);
                assert(line@ =~= decimal(ttl as nat));
                let ghost views = slot_views(self.slots@);
                let mut i: usize = 0;
                while i < self.slots.len()
                    invariant
                        i <= self.slots@.len(),
                        views == slot_views(self.slots@),
                        line@ == decimal(ttl as nat) + slots_text(views.take(i as int)),
                    decreases self.slots@.len() - i,
                {
                    let ghost so_far = line@;
                    line.append("  ");
                    match &self.slots[i] {
                        Slot::Answered(result) => {
                            result.push_text(&mut line);
                        },
                        _ => {
                            line.append("*");
                        },
                    }
                    proof {
                        reveal_strlit("  ");
                        reveal_strlit("*");
                        let next = views.take(i + 1);
                        assert(next.drop_last() =~= views.take(i as int));
                        assert(next.last() == views[i as int]);
                        assert("  "@ =~= seq![' ', ' ']);
                        assert("*"@ =~= seq!['*']);
                        assert(line@ =~= so_far + seq![' ', ' '] + slot_text(views[i as int]));
                        assert(line@ =~= decimal(ttl as nat) + slots_text(next));
                    }
                    i = i + 1;
                }
                assert(views.take(i as int) =~= views);
                Some(line)
            },
            _ => None,
        }
    }

    /// The address that answered query `query` of the current hop, if it was
    /// answered.
    pub fn responder(&self, query: usize) -> (out: Option<Ipv4Address>)
        ensures
            out is Some <==> query < self@.slots.len() && self@.slots[query as int] is Answered,
            out is Some ==> out->0 == self@.slots[query as int]->Answered_0.from_address,
    {
        if query >= self.slots.len() {
            return None;
        }
        match &self.slots[query] {
            Slot::Answered(result) => Some(result.from_address()),
            _ => None,
        }
    }

    /// The result of query `query` of the current hop, if it was answered.
    pub fn result(&self, query: usize) -> (out: Option<ProbeResult>)
        ensures
            out is Some <==> query < self@.slots.len() && self@.slots[query as int] is Answered,
            out is Some ==> out->0@ == self@.slots[query as int]->Answered_0,
    {
        if query >= self.slots.len() {
            return None;
        }
        match &self.slots[query] {
            Slot::Answered(result) => Some(result.clone()),
            _ => None,
        }
    }

    /// The time to live in the error of query `query` of the current hop,
    /// and whether the error is a timeout, if the query failed.
    pub fn failure(&self, query: usize) -> (out: Option<(u8, bool)>)
        ensures
            out is Some <==> query < self@.slots.len() && self@.slots[query as int] is Failed,
            out is Some ==> out->0 == (
                self@.slots[query as int]->Failed_0.spec_ttl(),
                self@.slots[query as int]->Failed_0 is Timeout,
            ),
    {
        if query >= self.slots.len() {
            return None;
        }
        match &self.slots[query] {
            Slot::Failed(error) => {
                let timeout = match error {
                    ProbeError::Timeout { .. } => true,
                    _ => false,
                };
                Some((error.get_ttl(), timeout))
            },
            _ => None,
        }
    }

    /// How many probes of the current hop have a slot.
    pub fn slot_count(&self) -> (out: usize)
        ensures
            out == self@.slots.len(),
    {
        self.slots.len()
    }

    /// Gives the responder of query `query` a host name, once its hop is due
    /// for reporting. Otherwise, and where the query has no answer, nothing
    /// changes.
    pub fn set_hostname(&mut self, query: usize, hostname: &str)
        requires
            old(self).wf(),
        ensures
            final(self).wf(),
            final(self)@ == old(self)@.named(query as int, hostname@),
    {
        match self.state {
            WalkState::ReportingHop { .. } => {
                if query < self.slots.len() {
                    match &mut self.slots[query] {
                        Slot::Answered(result) => {
                            result.set_hostname(hostname);
                        },
                        _ => {},
                    }
                }
                proof {
                    assert(final(self)@.slots =~= old(self)@.named(
                        query as int,
                        hostname@,
                    ).slots);
                    lemma_named_wf(old(self)@, query as int, hostname@);
                }
            },
            _ => {},
        }
    }

    /// The earliest deadline among the waiting probes of the current hop.
    pub fn next_deadline(&self) -> (out: Option<u64>)
        ensures
            out is Some == earliest_deadline(self@.slots) is Some,
            out is Some ==> out->0 == earliest_deadline(self@.slots)->0,
    {
        let ghost views = slot_views(self.slots@);
        let mut earliest: Option<u64> = None;
        let mut i: usize = 0;
        while i < self.slots.len()
            invariant
                i <= self.slots@.len(),
                views == slot_views(self.slots@),
                earliest is Some == earliest_deadline(views.take(i as int)) is Some,
                earliest is Some ==> earliest->0 == earliest_deadline(views.take(i as int))->0,
            decreases self.slots@.len() - i,
        {
            proof {
                let next = views.take(i + 1);
                assert(next.drop_last() =~= views.take(i as int));
                assert(next.last() == views[i as int]);
            }
            match &self.slots[i] {
                Slot::Waiting { deadline } => {
                    earliest = match earliest {
                        Some(earlier) => if earlier <= *deadline {
                            Some(earlier)
                        } else {
                            Some(*deadline)
                        },
                        None => Some(*deadline),
                    };
                },
                _ => {},
            }
            i = i + 1;
        }
        assert(views.take(i as int) =~= views);
        earliest
    }

    /// The error to report when capturing fails: an I/O error with the time
    /// to live of the current hop, or zero once the walk is over. The walk
    /// itself stays as it is: the probes that still wait time out at their
    /// deadlines.
    pub fn capture_failed(&self, io_error: Option<std::io::Error>) -> (out: ProbeError)
        ensures
            out == (ProbeError::IoError {
                ttl: match self@.state.hop() {
                    Some(ttl) => ttl,
                    None => 0,
                },
                io_error,
            }),
    {
        let ttl: u8 = match self.state {
            WalkState::ProbingHop { ttl } => ttl,
            WalkState::AwaitingHop { ttl } => ttl,
            WalkState::ReportingHop { ttl } => ttl,
            WalkState::Done => 0,
        };
        ProbeError::IoError { ttl, io_error }
    }

    /// Whether some probe of the current hop was answered by the target.
    fn target_answered(&self) -> (out: bool)
        ensures
            out == reached(self@.slots, self@.target),
    {
        let ghost views = slot_views(self.slots@);
        let mut i: usize = 0;
        while i < self.slots.len()
            invariant
                i <= self.slots@.len(),
                views == slot_views(self.slots@),
                forall|j: int|
                    0 <= j < i ==> !((#[trigger] views[j]) is Answered
                        && views[j]->Answered_0.from_address == self.target),
            decreases self.slots@.len() - i,
        {
            match &self.slots[i] {
                Slot::Answered(result) => {
                    if result.from_address() == self.target {
                        assert(views[i as int] is Answered && views[i as int]->Answered_0.from_address
                            == self.target);
                        return true;
                    }
                },
                _ => {},
            }
            i = i + 1;
        }
        false
    }

    /// Tells the walk that the line of the hop that was due has been
    /// reported. The walk is over where the target answered a probe of the
    /// hop, or the hop was the last; else it goes on to the next hop. Where
    /// no hop was due nothing changes.
    pub fn hop_reported(&mut self)
        requires
            old(self).wf(),
        ensures
            final(self).wf(),
            final(self)@ == old(self)@.reported(),
    {
        match self.state {
            WalkState::ReportingHop { ttl } => {
                proof {
                    lemma_reported_wf(old(self)@);
                }
                if self.target_answered() || ttl >= self.generator.hops() {
                    self.state = WalkState::Done;
                } else {
                    self.slots = Vec::new();
                    self.state = hop_state_of(ttl + 1, &self.slots, self.generator.queries_per_hop());
                    assert(slot_views(self.slots@) =~= Seq::empty());
                }
            },
            _ => {},
        }
    }
}

/// The outcomes of a hop stand in the order of its queries: in a walk that
/// is in order, the result in slot `query` is the one of probe `query` of
/// the current hop, whenever and in whatever order the responses came.
pub proof fn lemma_results_in_query_order(v: TerminalView, query: int)
    requires
        v.wf(),
        v.state.hop() is Some,
        0 <= query < v.slots.len(),
        v.slots[query] is Answered,
    ensures
        v.slots[query]->Answered_0.id == v.generator.probe_id(v.state.hop()->0 as int, query),
        v.slots[query]->Answered_0.ttl == v.state.hop()->0,
{
    assert(v.slot_fits(v.state.hop()->0, query));
}

/// Testing the first `n` slots leaves the probes of the later slots in the
/// table as they were.
proof fn lemma_polled_to_later(v: TerminalView, ttl: u8, now: nat, n: nat, query: int)
    requires
        v.hop_inv(ttl),
        n <= query < v.slots.len(),
    ensures
        v.polled_to(ttl, now, n).table.contains_key(v.generator.probe_id(ttl as int, query))
            == v.table.contains_key(v.generator.probe_id(ttl as int, query)),
        v.polled_to(ttl, now, n).table[v.generator.probe_id(ttl as int, query)]
            == v.table[v.generator.probe_id(ttl as int, query)],
    decreases n,
{
    if n > 0 {
        lemma_polled_to_later(v, ttl, now, (n - 1) as nat, query);
        lemma_polled_to(v, ttl, now, (n - 1) as nat);
        lemma_probe_ids_distinct(v.generator, ttl as int, n - 1, ttl as int, query);
    }
}

/// What a slot holds once the time was seen depends on its own probe alone:
/// a waiting slot takes what the probe of its query has come to, and a
/// settled slot stays as it is.
pub proof fn lemma_polled_slot(v: TerminalView, now: nat, query: int)
    requires
        v.wf(),
        v.state is AwaitingHop,
        0 <= query < v.slots.len(),
    ensures
        v.polled(now).slots.len() == v.slots.len(),
        v.polled(now).slots[query] == (match v.slots[query] {
            SlotView::Waiting { deadline } => slot_of(
                outcome_of(
                    v.table,
                    v.generator.probe_id(v.state.hop()->0 as int, query),
                    now,
                    deadline,
                ),
                deadline,
            ),
            settled => settled,
        }),
{
    let ttl = v.state.hop()->0;
    let n = v.slots.len();
    lemma_polled_to(v, ttl, now, query as nat);
    lemma_polled_to_later(v, ttl, now, query as nat, query);
    let upto = v.polled_to(ttl, now, query as nat);
    lemma_poll_slot(upto, ttl, now, query);
    lemma_polled_from(v, ttl, now, (query + 1) as nat, n, query);
    lemma_polled_to(v, ttl, now, n);
    assert(v.polled_to(ttl, now, (query + 1) as nat) == upto.poll_slot(ttl, now, query));
}

/// Testing further slots leaves a slot that was tested as it is.
proof fn lemma_polled_from(v: TerminalView, ttl: u8, now: nat, from: nat, n: nat, query: int)
    requires
        v.hop_inv(ttl),
        0 <= query < from <= n <= v.slots.len(),
    ensures
        v.polled_to(ttl, now, n).slots[query] == v.polled_to(ttl, now, from).slots[query],
    decreases n,
{
    if n > from {
        lemma_polled_from(v, ttl, now, from, (n - 1) as nat, query);
        lemma_polled_to(v, ttl, now, (n - 1) as nat);
        lemma_poll_slot(v.polled_to(ttl, now, (n - 1) as nat), ttl, now, n - 1);
    }
}

/// A hop that is due for its line has one outcome for each of its queries,
/// and none of them is still waited for.
pub proof fn lemma_reported_hop_is_complete(v: TerminalView)
    requires
        v.wf(),
        v.state is ReportingHop,
    ensures
        v.slots.len() == v.generator.queries_per_hop,
        all_settled(v.slots),
{
}

/// Reporting a hop ends the walk or moves it to the next hop, with no probe
/// of that hop sent yet: a walk reports each hop once, in rising order, and
/// is over after the last at the latest.
pub proof fn lemma_reported_advances(v: TerminalView)
    requires
        v.wf(),
        v.state is ReportingHop,
    ensures
        v.reported().state is Done || (v.reported().state.hop() == Some(
            (v.state.hop()->0 + 1) as u8,
        ) && v.state.hop()->0 < v.generator.hops && v.reported().slots.len() == 0),
        reached(v.slots, v.target) ==> v.reported().state is Done,
        v.state.hop()->0 == v.generator.hops ==> v.reported().state is Done,
        !reached(v.slots, v.target) && v.state.hop()->0 < v.generator.hops ==> !(
        v.reported().state is Done),
{
}

} // verus!
