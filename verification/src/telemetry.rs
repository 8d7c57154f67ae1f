//! The events of a running strategy: bounded queues, and the lines that are logged to them.
use std::collections::VecDeque;
use vstd::prelude::*;

use crate::snapshot::{
    applied, blank, same_report, RuntimeEventSnapshot, RuntimeSnapshot, RuntimeUpdate,
};
use crate::text::{trim, trimmed};
use crate::time::UtcTime;

verus! {

/// The events that a strategy's telemetry holds at most.
pub const DEFAULT_EVENT_CAPACITY: usize = 256;

/// The logged events that wait at most to be taken over.
pub const GLOBAL_LOG_CAPACITY: usize = 512;

/// `queue` with `item` at its end; a full queue loses its oldest item.
pub open spec fn pushed<T>(queue: Seq<T>, capacity: int, item: T) -> Seq<T> {
    if queue.len() >= capacity && queue.len() > 0 {
        queue.drop_first().push(item)
    } else {
        queue.push(item)
    }
}

/// `queue` with `items` at its end, one after the other.
pub open spec fn pushed_all<T>(queue: Seq<T>, capacity: int, items: Seq<T>) -> Seq<T>
    decreases items.len(),
{
    if items.len() == 0 {
        queue
    } else {
        pushed(pushed_all(queue, capacity, items.drop_last()), capacity, items.last())
    }
}

/// The items that a queue loses while `items` are put at its end.
pub open spec fn lost<T>(queue: Seq<T>, capacity: int, items: Seq<T>) -> int
    decreases items.len(),
{
    if items.len() == 0 {
        0
    } else {
        lost(queue, capacity, items.drop_last()) + (if pushed_all(
            queue,
            capacity,
            items.drop_last(),
        ).len() >= capacity {
            1int
        } else {
            0
        })
    }
}

/// A queue with a capacity never holds more than it, and at least the newest item.
pub proof fn queue_stays_within_capacity<T>(queue: Seq<T>, capacity: int, items: Seq<T>)
    requires
        capacity > 0,
        queue.len() <= capacity,
    ensures
        pushed_all(queue, capacity, items).len() <= capacity,
        items.len() > 0 ==> pushed_all(queue, capacity, items).last() == items.last(),
    decreases items.len(),
{
    if items.len() > 0 {
        queue_stays_within_capacity(queue, capacity, items.drop_last());
    }
}

/// No event goes missing uncounted: what a queue holds and what it lost are what it was given.
pub proof fn queue_counts_what_it_loses<T>(queue: Seq<T>, capacity: int, items: Seq<T>)
    requires
        capacity > 0,
        queue.len() <= capacity,
    ensures
        pushed_all(queue, capacity, items).len() + lost(queue, capacity, items) == queue.len()
            + items.len(),
    decreases items.len(),
{
    if items.len() > 0 {
        queue_counts_what_it_loses(queue, capacity, items.drop_last());
        queue_stays_within_capacity(queue, capacity, items.drop_last());
    }
}

/// A queue keeps the newest items, in their order.
pub proof fn queue_keeps_the_newest<T>(queue: Seq<T>, capacity: int, items: Seq<T>)
    requires
        capacity > 0,
        queue.len() <= capacity,
    ensures
        pushed_all(queue, capacity, items) == (queue + items).skip(
            queue.len() + items.len() - pushed_all(queue, capacity, items).len(),
        ),
    decreases items.len(),
{
    if items.len() > 0 {
        queue_keeps_the_newest(queue, capacity, items.drop_last());
        queue_stays_within_capacity(queue, capacity, items.drop_last());
        queue_counts_what_it_loses(queue, capacity, items.drop_last());
        let before = pushed_all(queue, capacity, items.drop_last());
        let after = pushed_all(queue, capacity, items);
        let whole = queue + items;
        let part = queue + items.drop_last();
        lost_bound(queue, capacity, items.drop_last());
        assert(whole =~= part.push(items.last()));
        let d = part.len() - before.len();
        assert forall|i: int| 0 <= i < before.len() implies before[i] == part[d + i] by {
            assert(part.skip(d)[i] == part[d + i]);
        }
        assert(after =~= whole.skip(whole.len() - after.len()));
    } else {
        assert((queue + items).skip(0) =~= queue);
    }
}

/// A strategy's telemetry: what is shown of it, and its latest events.
pub struct RuntimeTelemetry {
    pub snapshot: RuntimeSnapshot,
    pub events: VecDeque<RuntimeEventSnapshot>,
    pub event_capacity: usize,
    pub dropped_events: u64,
}

/// A copy of an event.
pub fn copy_event(event: &RuntimeEventSnapshot) -> (r: RuntimeEventSnapshot)
    ensures
        r == *event,
{
    RuntimeEventSnapshot {
        created_at: event.created_at,
        level: event.level.clone(),
        message: event.message.clone(),
    }
}

impl RuntimeTelemetry {
    /// Telemetry before anything happened.
    pub fn new(now: UtcTime) -> (r: RuntimeTelemetry)
        ensures
            r.events@.len() == 0,
            r.event_capacity == DEFAULT_EVENT_CAPACITY,
            r.dropped_events == 0,
            blank(r.snapshot, now),
    {
        RuntimeTelemetry {
            snapshot: RuntimeSnapshot::initial(now),
            events: VecDeque::new(),
            event_capacity: DEFAULT_EVENT_CAPACITY,
            dropped_events: 0,
        }
    }

    fn push_event_snapshot(&mut self, event: RuntimeEventSnapshot)
        requires
            old(self).dropped_events < u64::MAX,
        ensures
            final(self).snapshot == old(self).snapshot,
            final(self).event_capacity == old(self).event_capacity,
            final(self).events@ == pushed(
                old(self).events@,
                old(self).event_capacity as int,
                event,
            ),
            final(self).dropped_events == old(self).dropped_events + (if old(self).events@.len()
                >= old(self).event_capacity {
                1int
            } else {
                0
            }),
    {
        let ghost before = self.events@;
        if self.events.len() >= self.event_capacity {
            let _ = self.events.pop_front();
            self.dropped_events = self.dropped_events + 1;
        }
        self.events.push_back(event);
        proof {
            if before.len() >= self.event_capacity && before.len() > 0 {
                assert(before.subrange(1, before.len() as int) =~= before.drop_first());
            }
            assert(self.events@ =~= pushed(before, self.event_capacity as int, event));
        }
    }

    fn push_all(&mut self, events: Vec<RuntimeEventSnapshot>)
        requires
            old(self).dropped_events + events@.len() <= u64::MAX,
        ensures
            final(self).snapshot == old(self).snapshot,
            final(self).event_capacity == old(self).event_capacity,
            final(self).events@ == pushed_all(
                old(self).events@,
                old(self).event_capacity as int,
                events@,
            ),
            final(self).dropped_events == old(self).dropped_events + lost(
                old(self).events@,
                old(self).event_capacity as int,
                events@,
            ),
    {
        let ghost start = self.events@;
        let ghost capacity = self.event_capacity as int;
        let mut i: usize = 0;
        proof {
            assert(events@.take(0) =~= Seq::<RuntimeEventSnapshot>::empty());
        }
        while i < events.len()
            invariant
                i <= events.len(),
                capacity == self.event_capacity,
                self.snapshot == old(self).snapshot,
                self.event_capacity == old(self).event_capacity,
                old(self).dropped_events + events@.len() <= u64::MAX,
                self.events@ == pushed_all(start, capacity, events@.take(i as int)),
                self.dropped_events == old(self).dropped_events + lost(
                    start,
                    capacity,
                    events@.take(i as int),
                ),
                0 <= lost(start, capacity, events@.take(i as int)) <= i,
            decreases events.len() - i,
        {
            proof {
                assert(events@.take(i + 1).drop_last() =~= events@.take(i as int));
            }
            self.push_event_snapshot(copy_event(&events[i]));
            i = i + 1;
        }
        proof {
            assert(events@.take(i as int) =~= events@);
        }
    }

    /// Adds an event, behind the logged events that waited.
    pub fn push_event(
        &mut self,
        pending: Vec<RuntimeEventSnapshot>,
        level: String,
        message: String,
        now: UtcTime,
    )
        requires
            old(self).dropped_events + pending@.len() < u64::MAX,
        ensures
            final(self).snapshot == old(self).snapshot,
            final(self).event_capacity == old(self).event_capacity,
            ({
                let event = RuntimeEventSnapshot { created_at: now, level, message };
                &&& final(self).events@ == pushed_all(
                    old(self).events@,
                    old(self).event_capacity as int,
                    pending@.push(event),
                )
                &&& final(self).dropped_events == old(self).dropped_events + lost(
                    old(self).events@,
                    old(self).event_capacity as int,
                    pending@.push(event),
                )
            }),
    {
        let ghost all = pending@;
        proof {
            lost_bound(self.events@, self.event_capacity as int, all);
        }
        self.push_all(pending);
        let event = RuntimeEventSnapshot { created_at: now, level, message };
        proof {
            assert(all.push(event).drop_last() =~= all);
        }
        self.push_event_snapshot(event);
    }

    /// Takes a report of the strategy over, if there is one, and shows the latest events.
    pub fn update_snapshot(
        &mut self,
        pending: Vec<RuntimeEventSnapshot>,
        update: Option<RuntimeUpdate>,
        now: UtcTime,
    )
        requires
            old(self).dropped_events + pending@.len() <= u64::MAX,
        ensures
            final(self).event_capacity == old(self).event_capacity,
            final(self).events@ == pushed_all(
                old(self).events@,
                old(self).event_capacity as int,
                pending@,
            ),
            final(self).dropped_events == old(self).dropped_events + lost(
                old(self).events@,
                old(self).event_capacity as int,
                pending@,
            ),
            final(self).snapshot.events@ == final(self).events@,
            final(self).snapshot.dropped_events == final(self).dropped_events,
            final(self).snapshot.updated_at == now,
            match update {
                Some(u) => applied(old(self).snapshot, u, final(self).snapshot),
                None => same_report(old(self).snapshot, final(self).snapshot),
            },
    {
        self.push_all(pending);
        match update {
            Some(update) => self.snapshot.apply(update),
            None => {},
        }
        let mut shown: Vec<RuntimeEventSnapshot> = Vec::new();
        let mut i: usize = 0;
        while i < self.events.len()
            invariant
                i <= self.events@.len(),
                shown@ == self.events@.take(i as int),
            decreases self.events@.len() - i,
        {
            shown.push(copy_event(&self.events[i]));
            i = i + 1;
            proof {
                assert(shown@ =~= self.events@.take(i as int));
            }
        }
        proof {
            assert(self.events@.take(i as int) =~= self.events@);
        }
        self.snapshot.events = shown;
        self.snapshot.dropped_events = self.dropped_events;
        self.snapshot.updated_at = now;
    }
}

proof fn lost_bound<T>(queue: Seq<T>, capacity: int, items: Seq<T>)
    ensures
        0 <= lost(queue, capacity, items) <= items.len(),
    decreases items.len(),
{
    if items.len() > 0 {
        lost_bound(queue, capacity, items.drop_last());
    }
}

/// The logged events that wait to be taken over.
pub struct LogQueue {
    pub events: VecDeque<RuntimeEventSnapshot>,
}

/// `s` without the line breaks at its end.
pub open spec fn without_breaks(s: Seq<char>) -> Seq<char>
    decreases s.len(),
{
    if s.len() > 0 && (s.last() == '\r' || s.last() == '\n') {
        without_breaks(s.drop_last())
    } else {
        s
    }
}

fn strip_breaks(s: &str) -> (r: String)
    ensures
        r@ == without_breaks(s@),
{
    let mut end: usize = s.unicode_len();
    proof {
        assert(s@.take(end as int) =~= s@);
    }
    while end > 0 && (s.get_char(end - 1) == '\r' || s.get_char(end - 1) == '\n')
        invariant
            end <= s@.len(),
            without_breaks(s@) == without_breaks(s@.take(end as int)),
        ensures
            end <= s@.len(),
            without_breaks(s@) == s@.take(end as int),
        decreases end,
    {
        proof {
            assert(s@.take(end as int).drop_last() =~= s@.take(end - 1));
        }
        end = end - 1;
    }
    proof {
        assert(s@.subrange(0, end as int) =~= s@.take(end as int));
    }
    s.substring_char(0, end).to_owned()
}

impl LogQueue {
    /// No events.
    pub fn new() -> (r: LogQueue)
        ensures
            r.events@.len() == 0,
    {
        LogQueue { events: VecDeque::new() }
    }

    /// Adds an event; a full queue loses its oldest one.
    pub fn push_global_tui_event(&mut self, level: String, message: String, now: UtcTime)
        ensures
            final(self).events@ == pushed(
                old(self).events@,
                GLOBAL_LOG_CAPACITY as int,
                (RuntimeEventSnapshot { created_at: now, level, message }),
            ),
    {
        let ghost before = self.events@;
        let event = RuntimeEventSnapshot { created_at: now, level, message };
        if self.events.len() >= GLOBAL_LOG_CAPACITY {
            let _ = self.events.pop_front();
        }
        self.events.push_back(event);
        proof {
            if before.len() >= GLOBAL_LOG_CAPACITY {
                assert(before.subrange(1, before.len() as int) =~= before.drop_first());
            }
            assert(self.events@ =~= pushed(before, GLOBAL_LOG_CAPACITY as int, event));
        }
    }

    /// Adds a logged line, without the line breaks at its end; a blank one is dropped.
    pub fn push_global_log_line(&mut self, line: &str, now: UtcTime)
        ensures
            if trimmed(without_breaks(line@)).len() == 0 {
                final(self).events@ == old(self).events@
            } else {
                exists|event: RuntimeEventSnapshot|
                    event.created_at == now && event.level@ == "log"@ && event.message@
                        == without_breaks(line@) && final(self).events@ == #[trigger] pushed(
                        old(self).events@,
                        GLOBAL_LOG_CAPACITY as int,
                        event,
                    )
            },
    {
        let line = strip_breaks(line);
        if trim(line.as_str()).as_str().is_empty() {
            return;
        }
        self.push_global_tui_event("log".to_owned(), line, now);
    }

    /// Hands the waiting events out.
    pub fn drain(&mut self) -> (r: Vec<RuntimeEventSnapshot>)
        ensures
            r@ == old(self).events@,
            final(self).events@.len() == 0,
    {
        let mut out: Vec<RuntimeEventSnapshot> = Vec::new();
        let ghost all = self.events@;
        let ghost mut n: int = 0;
        proof {
            assert(all.skip(0) =~= all);
        }
        loop
            invariant
                0 <= n <= all.len(),
                all == old(self).events@,
                self.events@ == all.skip(n),
                out@ == all.take(n),
            decreases all.len() - n,
        {
            match self.events.pop_front() {
                Some(event) => {
                    out.push(event);
                    proof {
                        n = n + 1;
                        assert(self.events@ =~= all.skip(n));
                        assert(out@ =~= all.take(n));
                    }
                },
                None => {
                    proof {
                        assert(all.take(n) =~= all);
                    }
                    return out;
                },
            }
        }
    }
}

/// Bytes read as UTF-8, with replacement characters where they are none.
pub uninterp spec fn lossy_text(bytes: Seq<u8>) -> Seq<char>;

/// `String::from_utf8_lossy`, whose result is named.
#[verifier::external_body]
pub(crate) fn from_utf8_lossy(bytes: &Vec<u8>) -> (r: String)
    ensures
        r@ == lossy_text(bytes@),
{
    String::from_utf8_lossy(bytes).to_string()
}

/// Puts written bytes together to lines.
pub struct TuiLogWriter {
    pub line_buffer: Vec<u8>,
}

/// What stands behind the last line break of `bytes`, with `held` before the first one.
pub open spec fn rest_of_line(held: Seq<u8>, bytes: Seq<u8>) -> Seq<u8>
    decreases bytes.len(),
{
    if bytes.len() == 0 {
        held
    } else {
        let before = rest_of_line(held, bytes.drop_last());
        if bytes.last() == 10 {
            Seq::empty()
        } else {
            before.push(bytes.last())
        }
    }
}

/// The lines that `bytes` end, with `held` before the first one; empty ones are left out.
pub open spec fn ended_lines(held: Seq<u8>, bytes: Seq<u8>) -> Seq<Seq<char>>
    decreases bytes.len(),
{
    if bytes.len() == 0 {
        Seq::empty()
    } else {
        let before = ended_lines(held, bytes.drop_last());
        let line = rest_of_line(held, bytes.drop_last());
        if bytes.last() == 10 && line.len() > 0 {
            before.push(lossy_text(line))
        } else {
            before
        }
    }
}

impl TuiLogWriter {
    /// A writer that nothing was written to.
    pub fn new() -> (r: TuiLogWriter)
        ensures
            r.line_buffer@.len() == 0,
    {
        TuiLogWriter { line_buffer: Vec::new() }
    }

    /// The held line, which is then forgotten; `None` where it is empty.
    pub fn flush_line(&mut self) -> (r: Option<String>)
        ensures
            final(self).line_buffer@.len() == 0,
            if old(self).line_buffer@.len() == 0 {
                r is None
            } else {
                r matches Some(line) && line@ == lossy_text(old(self).line_buffer@)
            },
    {
        if self.line_buffer.len() == 0 {
            return None;
        }
        let line = from_utf8_lossy(&self.line_buffer);
        self.line_buffer.clear();
        Some(line)
    }

    /// Takes written bytes, and hands out the lines that they end.
    pub fn write(&mut self, bytes: &[u8]) -> (r: Vec<String>)
        ensures
            final(self).line_buffer@ == rest_of_line(old(self).line_buffer@, bytes@),
            r@.map_values(|s: String| s@) == ended_lines(old(self).line_buffer@, bytes@),
    {
        let ghost held = self.line_buffer@;
        let mut out: Vec<String> = Vec::new();
        let mut i: usize = 0;
        proof {
            assert(bytes@.take(0) =~= Seq::<u8>::empty());
            assert(out@.map_values(|s: String| s@) =~= Seq::<Seq<char>>::empty());
        }
        while i < bytes.len()
            invariant
                i <= bytes@.len(),
                self.line_buffer@ == rest_of_line(held, bytes@.take(i as int)),
                out@.map_values(|s: String| s@) == ended_lines(held, bytes@.take(i as int)),
            decreases bytes@.len() - i,
        {
            proof {
                assert(bytes@.take(i + 1).drop_last() =~= bytes@.take(i as int));
            }
            let b = bytes[i];
            if b == 10 {
                match self.flush_line() {
                    Some(line) => {
                        let ghost before = out@.map_values(|s: String| s@);
                        let ghost added = line@;
                        out.push(line);
                        proof {
                            assert(out@.map_values(|s: String| s@) =~= before.push(added));
                        }
                    },
                    None => {},
                }
                proof {
                    assert(self.line_buffer@ =~= Seq::<u8>::empty());
                }
            } else {
                self.line_buffer.push(b);
            }
            i = i + 1;
        }
        proof {
            assert(bytes@.take(i as int) =~= bytes@);
        }
        out
    }
}

/// It does not matter in how many pieces bytes are written: the same lines come out, and the same
/// rest is held.
pub proof fn pieces_make_the_same_lines(held: Seq<u8>, first: Seq<u8>, second: Seq<u8>)
    ensures
        rest_of_line(held, first + second) == rest_of_line(rest_of_line(held, first), second),
        ended_lines(held, first + second) == ended_lines(held, first) + ended_lines(
            rest_of_line(held, first),
            second,
        ),
    decreases second.len(),
{
    if second.len() > 0 {
        pieces_make_the_same_lines(held, first, second.drop_last());
        assert((first + second).drop_last() =~= first + second.drop_last());
        let a = ended_lines(held, first);
        let b = ended_lines(rest_of_line(held, first), second.drop_last());
        let line = lossy_text(rest_of_line(held, first + second.drop_last()));
        assert((a + b).push(line) =~= a + b.push(line));
    } else {
        assert(first + second =~= first);
        assert(ended_lines(held, first) + Seq::<Seq<char>>::empty() =~= ended_lines(held, first));
    }
}

/// A queue with room takes an item behind the others; a full one gives its oldest item up for it.
pub proof fn queues_give_up_their_oldest<T>(queue: Seq<T>, capacity: int, item: T, i: int)
    requires
        capacity > 0,
        queue.len() <= capacity,
    ensures
        ({
            let r = pushed(queue, capacity, item);
            &&& r.last() == item
            &&& queue.len() < capacity ==> r.len() == queue.len() + 1
            &&& queue.len() == capacity ==> r.len() == capacity
            &&& queue.len() < capacity && 0 <= i < queue.len() ==> r[i] == queue[i]
            &&& queue.len() == capacity && 0 < i < queue.len() ==> r[i - 1] == queue[i]
        }),
{
}

/// A report tells every event that is kept and how many were given up; nothing is given up where
/// all of them have room.
pub proof fn reports_tell_their_events()
    ensures
        forall|
            t: &mut RuntimeTelemetry,
            pending: Vec<RuntimeEventSnapshot>,
            update: Option<RuntimeUpdate>,
            now: UtcTime,
            r: (),
        | #[trigger]
            call_ensures(RuntimeTelemetry::update_snapshot, (t, pending, update, now), r)
                && t.event_capacity > 0 && t.events@.len() <= t.event_capacity ==> {
                &&& final(t).snapshot.events@ == final(t).events@
                &&& final(t).snapshot.dropped_events == final(t).dropped_events
                &&& final(t).snapshot.updated_at == now
                &&& final(t).events@.len() <= t.event_capacity
                &&& final(t).events@.len() + (final(t).dropped_events - t.dropped_events)
                    == t.events@.len() + pending@.len()
                &&& final(t).events@ == (t.events@ + pending@).skip(
                    final(t).dropped_events - t.dropped_events,
                )
                &&& update is None ==> final(t).snapshot.status == t.snapshot.status
                    && final(t).snapshot.metrics == t.snapshot.metrics
                    && final(t).snapshot.active_insights == t.snapshot.active_insights
                    && final(t).snapshot.variables == t.snapshot.variables
                &&& update is Some ==> final(t).snapshot.status@
                    == update->Some_0.status.spec_label()
                    && final(t).snapshot.active_insights == update->Some_0.active_insights
            },
{
    assert forall|
        t: &mut RuntimeTelemetry,
        pending: Vec<RuntimeEventSnapshot>,
        update: Option<RuntimeUpdate>,
        now: UtcTime,
        r: (),
    | #[trigger]
        call_ensures(RuntimeTelemetry::update_snapshot, (t, pending, update, now), r)
            && t.event_capacity > 0 && t.events@.len() <= t.event_capacity implies {
        &&& final(t).snapshot.events@ == final(t).events@
        &&& final(t).snapshot.dropped_events == final(t).dropped_events
        &&& final(t).snapshot.updated_at == now
        &&& final(t).events@.len() <= t.event_capacity
        &&& final(t).events@.len() + (final(t).dropped_events - t.dropped_events)
            == t.events@.len() + pending@.len()
        &&& final(t).events@ == (t.events@ + pending@).skip(
            final(t).dropped_events - t.dropped_events,
        )
        &&& update is None ==> final(t).snapshot.status == t.snapshot.status
            && final(t).snapshot.metrics == t.snapshot.metrics
            && final(t).snapshot.active_insights == t.snapshot.active_insights
            && final(t).snapshot.variables == t.snapshot.variables
        &&& update is Some ==> final(t).snapshot.status@ == update->Some_0.status.spec_label()
            && final(t).snapshot.active_insights == update->Some_0.active_insights
    } by {
        queue_stays_within_capacity(t.events@, t.event_capacity as int, pending@);
        queue_counts_what_it_loses(t.events@, t.event_capacity as int, pending@);
        queue_keeps_the_newest(t.events@, t.event_capacity as int, pending@);
    }
}

/// An event that is told stands last among those that are kept, with its level, its text and its
/// time; the report is not written anew for it.
pub proof fn told_events_stand_last()
    ensures
        forall|
            t: &mut RuntimeTelemetry,
            pending: Vec<RuntimeEventSnapshot>,
            level: String,
            message: String,
            now: UtcTime,
            r: (),
        | #[trigger]
            call_ensures(RuntimeTelemetry::push_event, (t, pending, level, message, now), r)
                && t.event_capacity > 0 && t.events@.len() <= t.event_capacity ==> {
                &&& final(t).events@.len() > 0
                &&& final(t).events@.last().created_at == now
                &&& final(t).events@.last().level == level
                &&& final(t).events@.last().message == message
                &&& final(t).snapshot == t.snapshot
                &&& final(t).events@.len() + (final(t).dropped_events - t.dropped_events)
                    == t.events@.len() + pending@.len() + 1
            },
{
    assert forall|
        t: &mut RuntimeTelemetry,
        pending: Vec<RuntimeEventSnapshot>,
        level: String,
        message: String,
        now: UtcTime,
        r: (),
    | #[trigger]
        call_ensures(RuntimeTelemetry::push_event, (t, pending, level, message, now), r)
            && t.event_capacity > 0 && t.events@.len() <= t.event_capacity implies {
        &&& final(t).events@.len() > 0
        &&& final(t).events@.last().created_at == now
        &&& final(t).events@.last().level == level
        &&& final(t).events@.last().message == message
        &&& final(t).snapshot == t.snapshot
        &&& final(t).events@.len() + (final(t).dropped_events - t.dropped_events)
            == t.events@.len() + pending@.len() + 1
    } by {
        let all = pending@.push(RuntimeEventSnapshot { created_at: now, level, message });
        queue_stays_within_capacity(t.events@, t.event_capacity as int, all);
        queue_counts_what_it_loses(t.events@, t.event_capacity as int, all);
    }
}

/// A line break ends a line and nothing else does: what stands before it is the line, unless that
/// is empty, and what stands behind the last one is held.
pub proof fn line_breaks_end_lines(held: Seq<u8>, line: Seq<u8>)
    requires
        forall|i: int| 0 <= i < line.len() ==> #[trigger] line[i] != 10,
    ensures
        rest_of_line(held, line) == held + line,
        ended_lines(held, line).len() == 0,
        rest_of_line(held, line.push(10)).len() == 0,
        held.len() + line.len() > 0 ==> ended_lines(held, line.push(10)) == seq![
            lossy_text(held + line),
        ],
        held.len() + line.len() == 0 ==> ended_lines(held, line.push(10)).len() == 0,
    decreases line.len(),
{
    assert(line.push(10).drop_last() =~= line);
    if line.len() > 0 {
        let rest = line.drop_last();
        assert forall|i: int| 0 <= i < rest.len() implies #[trigger] rest[i] != 10 by {
            assert(rest[i] == line[i]);
        }
        line_breaks_end_lines(held, rest);
        assert(line.last() == line[line.len() - 1]);
        assert((held + rest).push(line.last()) =~= held + line);
    } else {
        assert(held + line =~= held);
    }
    assert(ended_lines(held, line) =~= Seq::<Seq<char>>::empty());
}

/// Breaks at the end of a line are taken off, and only those.
pub proof fn breaks_are_taken_off(s: Seq<char>)
    ensures
        without_breaks(s).len() <= s.len(),
        without_breaks(s) == s.take(without_breaks(s).len() as int),
        forall|i: int|
            without_breaks(s).len() <= i < s.len() ==> #[trigger] s[i] == '\r' || s[i] == '\n',
        without_breaks(s).len() > 0 ==> without_breaks(s).last() != '\r' && without_breaks(s).last()
            != '\n',
    decreases s.len(),
{
    if s.len() > 0 && (s.last() == '\r' || s.last() == '\n') {
        let rest = s.drop_last();
        breaks_are_taken_off(rest);
        assert(rest.take(without_breaks(rest).len() as int) =~= s.take(
            without_breaks(rest).len() as int,
        ));
        assert forall|i: int| without_breaks(s).len() <= i < s.len() implies #[trigger] s[i]
            == '\r' || s[i] == '\n' by {
            if i < rest.len() {
                assert(rest[i] == s[i]);
            }
        }
    } else {
        assert(s.take(s.len() as int) =~= s);
    }
}

/// Logged lines wait as events named "log", of which the newest are kept; a line without any text
/// is not one. All that waits is handed out, once.
pub proof fn logged_lines_wait_as_events()
    ensures
        forall|q: &mut LogQueue, line: &str, now: UtcTime, r: ()| #[trigger]
            call_ensures(LogQueue::push_global_log_line, (q, line, now), r) && q.events@.len()
                <= 512 ==> {
                &&& trimmed(without_breaks(line@)).len() == 0 ==> final(q).events@ == q.events@
                &&& trimmed(without_breaks(line@)).len() > 0 ==> {
                    &&& final(q).events@.len() == (if q.events@.len() < 512 {
                        q.events@.len() + 1
                    } else {
                        512nat
                    })
                    &&& final(q).events@.last().created_at == now
                    &&& final(q).events@.last().level@ == seq!['l', 'o', 'g']
                    &&& final(q).events@.last().message@ == without_breaks(line@)
                }
            },
        forall|q: &mut LogQueue, r: Vec<RuntimeEventSnapshot>| #[trigger]
            call_ensures(LogQueue::drain, (q,), r) ==> r@ == q.events@ && final(q).events@.len()
                == 0,
{
    reveal_strlit("log");
    assert("log"@ =~= seq!['l', 'o', 'g']);
}

/// What is held of a line comes out when it is asked for, and is held no longer; an event that is
/// told waits last.
pub proof fn held_lines_come_out_once()
    ensures
        forall|w: &mut TuiLogWriter, r: Option<String>| #[trigger]
            call_ensures(TuiLogWriter::flush_line, (w,), r) ==> {
                &&& final(w).line_buffer@.len() == 0
                &&& w.line_buffer@.len() == 0 ==> r is None
                &&& w.line_buffer@.len() > 0 ==> r is Some && r->Some_0@ == lossy_text(
                    w.line_buffer@,
                )
            },
        forall|q: &mut LogQueue, level: String, message: String, now: UtcTime, r: ()| #[trigger]
            call_ensures(LogQueue::push_global_tui_event, (q, level, message, now), r) ==> {
                &&& final(q).events@.last().level == level
                &&& final(q).events@.last().message == message
                &&& final(q).events@.last().created_at == now
                &&& q.events@.len() < 512 ==> final(q).events@.len() == q.events@.len() + 1
                &&& q.events@.len() >= 512 ==> final(q).events@.len() == q.events@.len()
            },
        forall|w: &mut TuiLogWriter, bytes: &[u8], r: Vec<String>| #[trigger]
            call_ensures(TuiLogWriter::write, (w, bytes), r) && bytes@.len() == 0 ==> r@.len() == 0
                && final(w).line_buffer@ == w.line_buffer@,
{
    assert forall|w: &mut TuiLogWriter, bytes: &[u8], r: Vec<String>| #[trigger]
        call_ensures(TuiLogWriter::write, (w, bytes), r) && bytes@.len() == 0 implies r@.len()
        == 0 by {
        assert(r@.map_values(|s: String| s@).len() == r@.len());
    }
}

} // verus!
