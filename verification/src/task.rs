//! The table of probes that await a response. Responses are matched to
//! entries by identity; each entry is completed at most once.

use vstd::prelude::*;
use crate::generator::Probe;
use crate::probe::{
    result_view, CompletableProbe, CompletableProbeView, ProbeError, ProbeResponse,
    ProbeResponseView, ProbeResult, ProbeResultView, ProbeState,
};

verus! {

/// The table that a sequence of entries stands for: each entry under its
/// identity.
pub open spec fn table_of(entries: Seq<CompletableProbeView>) -> Map<
    Seq<char>,
    CompletableProbeView,
>
    decreases entries.len(),
{
    if entries.len() == 0 {
        Map::empty()
    } else {
        table_of(entries.drop_last()).insert(entries.last().id, entries.last())
    }
}

/// Whether no two entries have the same identity.
pub open spec fn distinct_ids(entries: Seq<CompletableProbeView>) -> bool {
    forall|i: int, j: int| 0 <= i < j < entries.len() ==> entries[i].id != entries[j].id
}

/// An identity that no entry has is not in the table.
pub proof fn lemma_table_absent(entries: Seq<CompletableProbeView>, id: Seq<char>)
    requires
        forall|i: int| 0 <= i < entries.len() ==> entries[i].id != id,
    ensures
        !table_of(entries).contains_key(id),
    decreases entries.len(),
{
    if entries.len() > 0 {
        lemma_table_absent(entries.drop_last(), id);
    }
}

/// The table holds each entry under its identity.
pub proof fn lemma_table_entry(entries: Seq<CompletableProbeView>, i: int)
    requires
        distinct_ids(entries),
        0 <= i < entries.len(),
    ensures
        table_of(entries).contains_key(entries[i].id),
        table_of(entries)[entries[i].id] == entries[i],
    decreases entries.len(),
{
    if i < entries.len() - 1 {
        lemma_table_entry(entries.drop_last(), i);
    }
}

/// Putting an entry in the place of one with the same identity puts it into
/// the table under that identity.
pub proof fn lemma_table_update(
    entries: Seq<CompletableProbeView>,
    i: int,
    entry: CompletableProbeView,
)
    requires
        distinct_ids(entries),
        0 <= i < entries.len(),
        entry.id == entries[i].id,
    ensures
        distinct_ids(entries.update(i, entry)),
        table_of(entries.update(i, entry)) == table_of(entries).insert(entry.id, entry),
    decreases entries.len(),
{
    let after = entries.update(i, entry);
    if i == entries.len() - 1 {
        assert(after.drop_last() =~= entries.drop_last());
        assert(table_of(after) =~= table_of(entries).insert(entry.id, entry));
    } else {
        lemma_table_update(entries.drop_last(), i, entry);
        assert(after.drop_last() =~= entries.drop_last().update(i, entry));
        assert(after.last() == entries.last());
        assert(entries.last().id != entry.id);
        assert(table_of(after) =~= table_of(entries).insert(entry.id, entry));
    }
}

/// Whether every entry of a table stands under its own identity.
pub open spec fn keyed(table: Map<Seq<char>, CompletableProbeView>) -> bool {
    forall|id: Seq<char>| table.contains_key(id) ==> (#[trigger] table[id]).id == id
}

/// The table of a sequence of entries holds each under its own identity.
pub proof fn lemma_table_keyed(entries: Seq<CompletableProbeView>)
    ensures
        keyed(table_of(entries)),
    decreases entries.len(),
{
    if entries.len() > 0 {
        lemma_table_keyed(entries.drop_last());
    }
}

/// The probes that await a response, each under its identity.
pub struct ProbeTask {
    entries: Vec<CompletableProbe>,
}

/// What is known of an awaited probe.
#[derive(Debug)]
pub enum Awaited {
    /// The probe was answered.
    Completed(ProbeResult),
    /// The probe's deadline passed without an answer.
    TimedOut(ProbeError),
    /// Neither yet.
    Waiting,
    /// No probe with that identity was registered.
    Unknown,
}

impl ProbeTask {
    /// The entries in the order in which they were registered.
    pub closed spec fn entries(&self) -> Seq<CompletableProbeView> {
        Seq::new(self.entries@.len(), |i: int| self.entries@[i]@)
    }

    /// No two entries have the same identity.
    pub closed spec fn wf(&self) -> bool {
        distinct_ids(self.entries())
    }
}

impl ProbeTask {
    /// Every entry of the table stands under its own identity.
    pub proof fn lemma_keyed(&self)
        ensures
            keyed(self@),
    {
        lemma_table_keyed(self.entries());
    }
}

impl View for ProbeTask {
    type V = Map<Seq<char>, CompletableProbeView>;

    closed spec fn view(&self) -> Map<Seq<char>, CompletableProbeView> {
        table_of(self.entries())
    }
}

impl ProbeTask {
    /// An empty table.
    pub fn new() -> (out: Self)
        ensures
            out.wf(),
            out@ == Map::<Seq<char>, CompletableProbeView>::empty(),
    {
        let out = ProbeTask { entries: Vec::new() };
        assert(out.entries() =~= Seq::empty());
        out
    }

    /// Where the entry of probe `id` stands.
    fn position(&self, id: &str) -> (out: Option<usize>)
        requires
            self.wf(),
        ensures
            out is Some <==> self@.contains_key(id@),
            out is Some ==> out->0 < self.entries().len() && self.entries()[out->0 as int].id
                == id@ && self@[id@] == self.entries()[out->0 as int],
    {
        let mut i: usize = 0;
        while i < self.entries.len()
            invariant
                i <= self.entries@.len(),
                self.wf(),
                forall|j: int| 0 <= j < i ==> self.entries()[j].id != id@,
            decreases self.entries@.len() - i,
        {
            if self.entries[i].has_id(id) {
                proof {
                    lemma_table_entry(self.entries(), i as int);
                }
                return Some(i);
            }
            i = i + 1;
        }
        proof {
            lemma_table_absent(self.entries(), id@);
        }
        None
    }

    /// Whether a probe `id` was registered.
    pub fn contains(&self, id: &str) -> (out: bool)
        requires
            self.wf(),
        ensures
            out == self@.contains_key(id@),
    {
        self.position(id).is_some()
    }

    /// Enters a probe that was just sent, as waiting since its send time. An
    /// entry with the same identity is replaced.
    pub fn register(&mut self, probe: &Probe)
        requires
            old(self).wf(),
        ensures
            final(self).wf(),
            final(self)@ == old(self)@.insert(
                probe.id@,
                CompletableProbeView {
                    id: probe.id@,
                    ttl: probe.ttl,
                    sent_at: probe.sent_at as nat,
                    state: ProbeState::Waiting,
                },
            ),
    {
        let entry = CompletableProbe::new(probe.id.as_str(), probe.ttl, probe.sent_at);
        match self.position(probe.id.as_str()) {
            Some(i) => {
                proof {
                    lemma_table_update(self.entries(), i as int, entry@);
                }
                self.entries[i] = entry;
                assert(final(self).entries() =~= old(self).entries().update(i as int, entry@));
            },
            None => {
                self.entries.push(entry);
                proof {
                    assert(final(self).entries().drop_last() =~= old(self).entries());
                    assert(final(self).entries().last() == entry@);
                    assert forall|i: int, j: int|
                        0 <= i < j < final(self).entries().len() implies final(self).entries()[i].id
                        != final(self).entries()[j].id by {
                        if j < old(self).entries().len() {
                            assert(final(self).entries()[i] == old(self).entries()[i]);
                            assert(final(self).entries()[j] == old(self).entries()[j]);
                        } else {
                            assert(final(self).entries()[i] == old(self).entries()[i]);
                            lemma_table_entry(old(self).entries(), i);
                        }
                    }
                }
            },
        }
    }

    /// Takes in a response seen at `now`. A response whose identity is not
    /// in the table changes nothing and is answered with `None`. Otherwise
    /// the entry of that identity takes it in: the first response fills a
    /// waiting entry, later ones are answered with the stored result, and an
    /// expired entry stays expired and answers `None`.
    pub fn complete(&mut self, response: ProbeResponse, now: u64) -> (out: Option<ProbeResult>)
        requires
            old(self).wf(),
        ensures
            final(self).wf(),
            final(self)@ == completed_table(old(self)@, response@, now as nat),
            result_view(out) == answer_of(old(self)@, response@, now as nat),
    {
        let id = response.probe_id();
        match self.position(id.as_str()) {
            Some(i) => {
                proof {
                    lemma_table_update(
                        self.entries(),
                        i as int,
                        self.entries()[i as int].completed(response@, now as nat),
                    );
                }
                let out = self.entries[i].complete(response, now);
                assert(final(self).entries() =~= old(self).entries().update(
                    i as int,
                    old(self).entries()[i as int].completed(response@, now as nat),
                ));
                out
            },
            None => None,
        }
    }

    /// Tests probe `id` at `now` against `deadline`. An answered probe gives
    /// its result. A waiting probe whose deadline has come expires, and an
    /// expired one stays so: both give `Timeout` with the probe's time to
    /// live. Otherwise the probe is still waiting.
    pub fn await_one(&mut self, id: &str, now: u64, deadline: u64) -> (out: Awaited)
        requires
            old(self).wf(),
        ensures
            final(self).wf(),
            final(self)@ == awaited_table(old(self)@, id@, now as nat, deadline as nat),
            awaited_view(out) == outcome_of(old(self)@, id@, now as nat, deadline as nat),
    {
        match self.position(id) {
            Some(i) => {
                proof {
                    lemma_table_update(
                        self.entries(),
                        i as int,
                        self.entries()[i as int].awaited(now as nat, deadline as nat),
                    );
                }
                let found = self.entries[i].await_one(now, deadline);
                assert(final(self).entries() =~= old(self).entries().update(
                    i as int,
                    old(self).entries()[i as int].awaited(now as nat, deadline as nat),
                ));
                match found {
                    Some(Ok(result)) => Awaited::Completed(result),
                    Some(Err(error)) => Awaited::TimedOut(error),
                    None => Awaited::Waiting,
                }
            },
            None => Awaited::Unknown,
        }
    }
}

/// The table after `response` was seen at `now`.
pub open spec fn completed_table(
    table: Map<Seq<char>, CompletableProbeView>,
    response: ProbeResponseView,
    now: nat,
) -> Map<Seq<char>, CompletableProbeView> {
    if table.contains_key(response.id) {
        table.insert(response.id, table[response.id].completed(response, now))
    } else {
        table
    }
}

/// What `response`, seen at `now`, is answered with.
pub open spec fn answer_of(
    table: Map<Seq<char>, CompletableProbeView>,
    response: ProbeResponseView,
    now: nat,
) -> Option<ProbeResultView> {
    if table.contains_key(response.id) {
        table[response.id].answer(response, now)
    } else {
        None
    }
}

/// The table after probe `id` was tested at `now` against `deadline`.
pub open spec fn awaited_table(
    table: Map<Seq<char>, CompletableProbeView>,
    id: Seq<char>,
    now: nat,
    deadline: nat,
) -> Map<Seq<char>, CompletableProbeView> {
    if table.contains_key(id) {
        table.insert(id, table[id].awaited(now, deadline))
    } else {
        table
    }
}

/// What is known of an awaited probe, as a mathematical value.
pub ghost enum AwaitedView {
    Completed(ProbeResultView),
    TimedOut { ttl: u8 },
    Waiting,
    Unknown,
}

/// The view of an `Awaited`. Only a timeout is ever handed out as the error
/// of an awaited probe; any other error is shown by its time to live too.
pub open spec fn awaited_view(awaited: Awaited) -> AwaitedView {
    match awaited {
        Awaited::Completed(result) => AwaitedView::Completed(result@),
        Awaited::TimedOut(error) => AwaitedView::TimedOut { ttl: error.spec_ttl() },
        Awaited::Waiting => AwaitedView::Waiting,
        Awaited::Unknown => AwaitedView::Unknown,
    }
}

/// What testing probe `id` at `now` against `deadline` gives.
pub open spec fn outcome_of(
    table: Map<Seq<char>, CompletableProbeView>,
    id: Seq<char>,
    now: nat,
    deadline: nat,
) -> AwaitedView {
    if table.contains_key(id) {
        let entry = table[id].awaited(now, deadline);
        match entry.state {
            ProbeState::Answered { .. } => AwaitedView::Completed(entry.result()->0),
            ProbeState::Expired => AwaitedView::TimedOut { ttl: entry.ttl },
            ProbeState::Waiting => AwaitedView::Waiting,
        }
    } else {
        AwaitedView::Unknown
    }
}

/// A probe is completed at most once: of two responses with the same
/// identity the second is answered as the first was, with the round-trip
/// time fixed when the first was seen, and changes nothing.
pub proof fn lemma_complete_idempotent(
    table: Map<Seq<char>, CompletableProbeView>,
    first: ProbeResponseView,
    first_seen: nat,
    second: ProbeResponseView,
    second_seen: nat,
)
    requires
        first.id == second.id,
    ensures
        answer_of(completed_table(table, first, first_seen), second, second_seen) == answer_of(
            table,
            first,
            first_seen,
        ),
        completed_table(completed_table(table, first, first_seen), second, second_seen)
            == completed_table(table, first, first_seen),
{
    let after = completed_table(table, first, first_seen);
    assert(completed_table(after, second, second_seen) =~= after);
}

/// A response that is late is rejected: once a probe has timed out, a
/// response with its identity is answered with nothing and changes nothing,
/// and the probe stays timed out whenever it is tested again.
pub proof fn lemma_stale_response_rejected(
    table: Map<Seq<char>, CompletableProbeView>,
    id: Seq<char>,
    now: nat,
    deadline: nat,
    response: ProbeResponseView,
    seen: nat,
    later: nat,
    later_deadline: nat,
)
    requires
        outcome_of(table, id, now, deadline) is TimedOut,
        response.id == id,
    ensures
        answer_of(awaited_table(table, id, now, deadline), response, seen) is None,
        completed_table(awaited_table(table, id, now, deadline), response, seen) == awaited_table(
            table,
            id,
            now,
            deadline,
        ),
        outcome_of(
            completed_table(awaited_table(table, id, now, deadline), response, seen),
            id,
            later,
            later_deadline,
        ) == outcome_of(table, id, now, deadline),
{
    let expired = awaited_table(table, id, now, deadline);
    assert(completed_table(expired, response, seen) =~= expired);
}

/// A response leaves every probe but the one it names as it was.
pub proof fn lemma_complete_leaves_others(
    table: Map<Seq<char>, CompletableProbeView>,
    response: ProbeResponseView,
    now: nat,
    other: Seq<char>,
)
    requires
        other != response.id,
    ensures
        completed_table(table, response, now).contains_key(other) == table.contains_key(other),
        table.contains_key(other) ==> completed_table(table, response, now)[other] == table[other],
{
}

/// Each probe has its own deadline: testing one probe leaves every other
/// probe as it was.
pub proof fn lemma_await_leaves_others(
    table: Map<Seq<char>, CompletableProbeView>,
    id: Seq<char>,
    now: nat,
    deadline: nat,
    other: Seq<char>,
)
    requires
        other != id,
    ensures
        awaited_table(table, id, now, deadline).contains_key(other) == table.contains_key(other),
        table.contains_key(other) ==> awaited_table(table, id, now, deadline)[other]
            == table[other],
{
}

} // verus!
