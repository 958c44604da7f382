//! The stream consumer loop: a three-state machine over classified read
//! outcomes, the error classifiers that drive it, and a model of the
//! consumer-group cursor that shows why an entry, once delivered and
//! acknowledged, is never delivered again.

use vstd::prelude::*;
use crate::strutil::{has_substring, contains_substr, str_eq};

verus! {

/// The states of the consumer loop.  There is no terminal state: the loop
/// runs for the lifetime of the process.
#[derive(Clone, Copy, Debug, PartialEq, Eq, Structural)]
pub enum LoopState {
    Reading,
    Recovering,
    IdleBackoff,
}

/// Why a group read failed, as far as the loop distinguishes.
#[derive(Clone, Copy, Debug, PartialEq, Eq, Structural)]
pub enum ReadError {
    GroupMissing,
    Other,
}

/// How an attempt to create the consumer group ended.  A group that
/// already exists counts as success: creation is idempotent.
#[derive(Clone, Copy, Debug, PartialEq, Eq, Structural)]
pub enum CreateOutcome {
    Created,
    AlreadyExists,
    StreamMissing,
}

/// What the outside world reports to the loop.
#[derive(Clone, Copy, Debug, PartialEq, Eq, Structural)]
pub enum LoopEvent {
    BatchRead,
    EmptyRead,
    ReadFailed { error: ReadError },
    CreateFinished { outcome: CreateOutcome },
    DelayElapsed,
}

/// What the loop asks the outside world to do next.
#[derive(Clone, Copy, Debug, PartialEq, Eq, Structural)]
pub enum LoopDirective {
    Read,
    ProcessThenDelay { millis: u64 },
    Delay { millis: u64 },
    CreateGroup,
}

/// The action a state is waiting to take, used when an event arrives that
/// the state does not expect.
pub open spec fn spec_pending(s: LoopState) -> LoopDirective {
    match s {
        LoopState::Reading => LoopDirective::Read,
        LoopState::Recovering => LoopDirective::CreateGroup,
        LoopState::IdleBackoff => (LoopDirective::Delay { millis: 1000 }),
    }
}

/// The transition table of the loop.
///
/// While reading: a batch is processed and acknowledged, then the loop
/// pauses for its polling cadence; an empty read pauses the same way; a
/// read that failed because the group does not exist yet moves to
/// recovery; any other read failure backs off for a second.  Recovery
/// attempts to create the group, treats every outcome (created, already
/// exists, stream still missing) alike, waits half a second, and goes
/// back to reading.  An event a state does not expect leaves the state
/// unchanged and repeats that state's pending action.
pub open spec fn spec_step(s: LoopState, e: LoopEvent) -> (LoopState, LoopDirective) {
    match (s, e) {
        (LoopState::Reading, LoopEvent::BatchRead) => (
            LoopState::Reading,
            LoopDirective::ProcessThenDelay { millis: 100 },
        ),
        (LoopState::Reading, LoopEvent::EmptyRead) => (
            LoopState::Reading,
            LoopDirective::Delay { millis: 100 },
        ),
        (LoopState::Reading, LoopEvent::ReadFailed { error }) => {
            if error == ReadError::GroupMissing {
                (LoopState::Recovering, LoopDirective::CreateGroup)
            } else {
                (LoopState::IdleBackoff, LoopDirective::Delay { millis: 1000 })
            }
        },
        (LoopState::Reading, LoopEvent::DelayElapsed) => (LoopState::Reading, LoopDirective::Read),
        (LoopState::Recovering, LoopEvent::CreateFinished { .. }) => (
            LoopState::Reading,
            LoopDirective::Delay { millis: 500 },
        ),
        (LoopState::IdleBackoff, LoopEvent::DelayElapsed) => (
            LoopState::Reading,
            LoopDirective::Read,
        ),
        (_, _) => (s, spec_pending(s)),
    }
}

/// Advances the loop by one classified event.
pub fn step(s: LoopState, e: LoopEvent) -> (r: (LoopState, LoopDirective))
    ensures
        r == spec_step(s, e),
{
    match (s, e) {
        (LoopState::Reading, LoopEvent::BatchRead) => (
            LoopState::Reading,
            LoopDirective::ProcessThenDelay { millis: 100 },
        ),
        (LoopState::Reading, LoopEvent::EmptyRead) => (
            LoopState::Reading,
            LoopDirective::Delay { millis: 100 },
        ),
        (LoopState::Reading, LoopEvent::ReadFailed { error }) => {
            if error == ReadError::GroupMissing {
                (LoopState::Recovering, LoopDirective::CreateGroup)
            } else {
                (LoopState::IdleBackoff, LoopDirective::Delay { millis: 1000 })
            }
        },
        (LoopState::Reading, LoopEvent::DelayElapsed) => (LoopState::Reading, LoopDirective::Read),
        (LoopState::Recovering, LoopEvent::CreateFinished { .. }) => (
            LoopState::Reading,
            LoopDirective::Delay { millis: 500 },
        ),
        (LoopState::IdleBackoff, LoopEvent::DelayElapsed) => (
            LoopState::Reading,
            LoopDirective::Read,
        ),
        (_, _) => {
            let d = match s {
                LoopState::Reading => LoopDirective::Read,
                LoopState::Recovering => LoopDirective::CreateGroup,
                LoopState::IdleBackoff => (LoopDirective::Delay { millis: 1000 }),
            };
            (s, d)
        },
    }
}

/// Classifies a failed group read: the group or stream does not exist
/// exactly when the error text names the missing-group condition.
pub fn classify_read_error(msg: &str) -> (e: ReadError)
    ensures
        e == (if has_substring(msg@, "NOGROUP"@) {
            ReadError::GroupMissing
        } else {
            ReadError::Other
        }),
{
    if contains_substr(msg, "NOGROUP") {
        ReadError::GroupMissing
    } else {
        ReadError::Other
    }
}

/// Classifies a failed group creation: a group that already exists is
/// reported as such exactly when the error text names the busy-group
/// condition; anything else means the stream itself does not exist yet.
pub fn classify_create_error(msg: &str) -> (c: CreateOutcome)
    ensures
        c == (if has_substring(msg@, "BUSYGROUP"@) {
            CreateOutcome::AlreadyExists
        } else {
            CreateOutcome::StreamMissing
        }),
{
    if contains_substr(msg, "BUSYGROUP") {
        CreateOutcome::AlreadyExists
    } else {
        CreateOutcome::StreamMissing
    }
}

/// Recovery bootstrap: a read against a stream or group that does not
/// exist yet moves the loop from reading to recovering; the creation
/// attempt — whatever its outcome — moves it back to reading, and the
/// next elapsed delay has it read again.  No transition of this path
/// leaves the machine stuck.
pub proof fn lemma_recovery_bootstrap(c: CreateOutcome)
    ensures
        spec_step(LoopState::Reading, LoopEvent::ReadFailed { error: ReadError::GroupMissing })
            == (LoopState::Recovering, LoopDirective::CreateGroup),
        spec_step(LoopState::Recovering, LoopEvent::CreateFinished { outcome: c }) == (
            LoopState::Reading,
            LoopDirective::Delay { millis: 500 },
        ),
        spec_step(LoopState::Reading, LoopEvent::DelayElapsed) == (
            LoopState::Reading,
            LoopDirective::Read,
        ),
{
}

/// One entry of the notification log.
#[derive(Debug)]
pub struct LogEntry {
    pub id: u64,
    pub payload: String,
}

/// The ids of a run of log entries are strictly increasing.
pub open spec fn ids_increasing(s: Seq<LogEntry>) -> bool {
    forall|i: int, j: int| 0 <= i < j < s.len() ==> s[i].id < s[j].id
}

/// A model of the log stream and this consumer group's cursor over it.
///
/// The log assigns strictly increasing ids.  A group read hands out only
/// entries beyond the delivery cursor and advances the cursor past what it
/// handed out; acknowledging an entry records it as processed and never
/// rewinds the cursor.  Together these give the loop its delivery
/// guarantee: one entry is handed out at most once, however often the
/// loop reads.
pub struct StreamGroup {
    pub entries: Vec<LogEntry>,
    pub last_delivered: u64,
    pub acked: Vec<u64>,
}

impl StreamGroup {
    /// The ids of the log are strictly increasing.
    pub open spec fn wf(&self) -> bool {
        ids_increasing(self.entries@)
    }

    /// What a bounded group read returns: the first entries beyond the
    /// delivery cursor, up to the bound, in log order.
    pub open spec fn spec_batch(&self, max: nat) -> Seq<LogEntry> {
        let eligible = self.entries@.filter(
            |e: LogEntry| e.id > self.last_delivered,
        );
        if max < eligible.len() {
            eligible.take(max as int)
        } else {
            eligible
        }
    }

    /// The group state after a bounded read: the cursor stands past the
    /// last entry handed out.
    pub open spec fn spec_after_read(&self, max: nat) -> StreamGroup {
        let batch = self.spec_batch(max);
        StreamGroup {
            entries: self.entries,
            last_delivered: if batch.len() == 0 {
                self.last_delivered
            } else {
                batch.last().id
            },
            acked: self.acked,
        }
    }

    /// Reads the next batch of at most `max` undelivered entries for this
    /// group and advances the delivery cursor past them.
    pub fn read_new(&mut self, max: usize) -> (batch: Vec<LogEntry>)
        requires
            old(self).wf(),
        ensures
            batch@ == old(self).spec_batch(max as nat),
            *final(self) == old(self).spec_after_read(max as nat),
            final(self).wf(),
    {
        let ghost g0 = *self;
        let ghost pred = |e: LogEntry| e.id > g0.last_delivered;
        let cursor0 = self.last_delivered;
        let mut batch: Vec<LogEntry> = Vec::new();
        let mut i: usize = 0;
        while i < self.entries.len() && batch.len() < max
            invariant
                self.entries == g0.entries,
                self.acked == g0.acked,
                cursor0 == g0.last_delivered,
                pred == (|e: LogEntry| e.id > g0.last_delivered),
                g0.wf(),
                i <= self.entries@.len(),
                batch@ == g0.entries@.take(i as int).filter(pred),
                batch@.len() <= max,
                self.last_delivered == if batch@.len() == 0 {
                    g0.last_delivered
                } else {
                    batch@.last().id
                },
                batch@.len() > 0 ==> exists|k: int|
                    0 <= k < i && g0.entries@[k] == batch@.last(),
            decreases self.entries@.len() - i,
        {
            proof {
                reveal(Seq::filter);
                let prefix = g0.entries@.take(i + 1);
                assert(prefix.drop_last() =~= g0.entries@.take(i as int));
                assert(prefix.last() == g0.entries@[i as int]);
            }
            let e = &self.entries[i];
            if e.id > cursor0 {
                let entry = LogEntry { id: e.id, payload: e.payload.clone() };
                proof {
                    assert(entry == g0.entries@[i as int]);
                }
                self.last_delivered = e.id;
                batch.push(entry);
            }
            i += 1;
        }
        proof {
            let eligible = g0.entries@.filter(pred);
            if i == self.entries@.len() {
                assert(g0.entries@.take(i as int) =~= g0.entries@);
            } else {
                assert(batch@.len() == max);
                let taken = g0.entries@.take(i as int);
                let rest = g0.entries@.skip(i as int);
                assert(taken + rest =~= g0.entries@);
                Seq::<LogEntry>::filter_distributes_over_add(taken, rest, pred);
                assert(eligible == batch@ + rest.filter(pred));
                if rest.filter(pred).len() == 0 {
                    assert(eligible =~= batch@);
                } else {
                    assert((max as nat) < eligible.len());
                    assert(eligible.take(max as int) =~= batch@);
                }
            }
            assert(batch@ == g0.spec_batch(max as nat));
            assert(*self == g0.spec_after_read(max as nat));
        }
        batch
    }

    /// Acknowledges one processed entry id.  The delivery cursor is never
    /// rewound by acknowledgment.
    pub fn ack(&mut self, id: u64)
        ensures
            final(self).entries == old(self).entries,
            final(self).last_delivered == old(self).last_delivered,
            final(self).acked@ == old(self).acked@.push(id),
    {
        self.acked.push(id);
    }
}

/// A filtered run of log entries keeps its order, and each of its
/// elements comes from the original run.
proof fn lemma_filter_keeps_order(s: Seq<LogEntry>, pred: spec_fn(LogEntry) -> bool)
    requires
        ids_increasing(s),
    ensures
        ids_increasing(s.filter(pred)),
        forall|k: int| 0 <= k < s.filter(pred).len() ==> s.contains(#[trigger] s.filter(pred)[k]),
    decreases s.len(),
{
    reveal(Seq::filter);
    if s.len() > 0 {
        let hd = s.drop_last();
        lemma_filter_keeps_order(hd, pred);
        assert forall|k: int| 0 <= k < s.filter(pred).len() implies s.contains(
            #[trigger] s.filter(pred)[k],
        ) by {
            if k < hd.filter(pred).len() {
                assert(hd.contains(hd.filter(pred)[k]));
                let i = choose|i: int| 0 <= i < hd.len() && hd[i] == hd.filter(pred)[k];
                assert(s[i] == s.filter(pred)[k]);
            } else {
                assert(s.filter(pred)[k] == s.last());
                assert(s[s.len() - 1] == s.last());
            }
        }
        if pred(s.last()) {
            assert(s.filter(pred) == hd.filter(pred).push(s.last()));
            assert forall|a: int, b: int|
                0 <= a < b < s.filter(pred).len() implies s.filter(pred)[a].id < s.filter(
                pred,
            )[b].id by {
                if b < hd.filter(pred).len() {
                } else {
                    assert(s.filter(pred)[b] == s.last());
                    assert(hd.contains(hd.filter(pred)[a]));
                    let i = choose|i: int| 0 <= i < hd.len() && hd[i] == hd.filter(pred)[a];
                    assert(s[i].id < s.last().id);
                }
            }
        }
    }
}

/// Every entry a bounded read hands out lies strictly beyond the cursor
/// it was read at, and not beyond the cursor it leaves behind.
pub proof fn lemma_batch_bounds(g: StreamGroup, max: nat)
    requires
        g.wf(),
    ensures
        forall|k: int|
            0 <= k < g.spec_batch(max).len() ==> g.last_delivered < (
            #[trigger] g.spec_batch(max)[k]).id && g.spec_batch(max)[k].id <= g.spec_after_read(
                max,
            ).last_delivered,
{
    let pred = |e: LogEntry| e.id > g.last_delivered;
    let eligible = g.entries@.filter(pred);
    lemma_filter_keeps_order(g.entries@, pred);
    let batch = g.spec_batch(max);
    assert forall|k: int|
        0 <= k < batch.len() implies g.last_delivered < (#[trigger] batch[k]).id && batch[k].id
        <= g.spec_after_read(max).last_delivered by {
        assert(batch[k] == eligible[k]);
        g.entries@.lemma_filter_pred(pred, k);
        assert(batch.last() == eligible[batch.len() - 1]);
        if k < batch.len() - 1 {
            assert(eligible[k].id < eligible[batch.len() - 1].id);
        }
    }
}

/// The delivery cursor never moves backwards over a read.
pub proof fn lemma_cursor_monotone(g: StreamGroup, max: nat)
    requires
        g.wf(),
    ensures
        g.spec_after_read(max).last_delivered >= g.last_delivered,
{
    lemma_batch_bounds(g, max);
    let batch = g.spec_batch(max);
    if batch.len() > 0 {
        assert(batch[batch.len() - 1] == batch.last());
    }
}

/// No redelivery: once a batch has been handed out, no later read of the
/// same log — at this cursor or any cursor at least as far along, however
/// many reads and acknowledgments lie in between — hands out any entry id
/// of that batch again.
pub proof fn lemma_no_redelivery(g: StreamGroup, max1: nat, h: StreamGroup, max2: nat)
    requires
        g.wf(),
        h.entries@ == g.entries@,
        h.last_delivered >= g.spec_after_read(max1).last_delivered,
    ensures
        forall|i: int, j: int|
            0 <= i < g.spec_batch(max1).len() && 0 <= j < h.spec_batch(max2).len() ==> (
            #[trigger] g.spec_batch(max1)[i]).id != (#[trigger] h.spec_batch(max2)[j]).id,
{
    lemma_batch_bounds(g, max1);
    lemma_batch_bounds(h, max2);
}

/// Picks the payload out of one log entry's field list: the value of the
/// first field named `data`, if any field is.
pub fn entry_data(fields: &Vec<(String, String)>) -> (r: Option<String>)
    ensures
        match r {
            Option::Some(v) => exists|i: int|
                0 <= i < fields@.len() && (#[trigger] fields@[i]).0@ == "data"@ && fields@[i].1@
                    == v@ && (forall|j: int| 0 <= j < i ==> (#[trigger] fields@[j]).0@ != "data"@),
            Option::None => forall|i: int|
                0 <= i < fields@.len() ==> (#[trigger] fields@[i]).0@ != "data"@,
        },
{
    let mut i: usize = 0;
    while i < fields.len()
        invariant
            i <= fields@.len(),
            forall|j: int| 0 <= j < i ==> (#[trigger] fields@[j]).0@ != "data"@,
        decreases fields@.len() - i,
    {
        if str_eq(fields[i].0.as_str(), "data") {
            return Option::Some(fields[i].1.clone());
        }
        i += 1;
    }
    Option::None
}

} // verus!
