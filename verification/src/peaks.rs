//! The peak meter: a decimation filter that forwards at most one peak per
//! throttle interval.
//!
//! Times are nanoseconds on any clock that does not run backwards. A peak
//! that arrives with a time before the last forwarded one has no elapsed
//! time and is discarded.

use vstd::prelude::*;

verus! {

/// The least time, in nanoseconds, between two forwarded peaks: 10 ms.
pub const THROTTLE_NANOS: u64 = 10_000_000;

/// Whether a peak that arrives at `now` is forwarded by a meter that last
/// forwarded at `last`: always if it never forwarded, else if at least the
/// throttle interval has elapsed.
pub open spec fn should_forward(last: Option<u64>, now: u64) -> bool {
    match last {
        None => true,
        Some(t) => now - t >= THROTTLE_NANOS,
    }
}

/// The time of the last forwarded peak after a peak arrived at `now`.
pub open spec fn next_last(last: Option<u64>, now: u64) -> Option<u64> {
    if should_forward(last, now) {
        Some(now)
    } else {
        last
    }
}

/// The time of the last forwarded peak after all of `events`, each a pair of
/// arrival time and peak, arrived in order.
pub open spec fn last_after(last: Option<u64>, events: Seq<(u64, i16)>) -> Option<u64>
    decreases events.len(),
{
    if events.len() == 0 {
        last
    } else {
        next_last(last_after(last, events.drop_last()), events.last().0)
    }
}

/// The positions in `events` of the peaks that are forwarded, in order.
pub open spec fn forwarded_indices(last: Option<u64>, events: Seq<(u64, i16)>) -> Seq<int>
    decreases events.len(),
{
    if events.len() == 0 {
        Seq::empty()
    } else {
        let before = forwarded_indices(last, events.drop_last());
        if should_forward(last_after(last, events.drop_last()), events.last().0) {
            before.push(events.len() - 1)
        } else {
            before
        }
    }
}

/// The peaks of `events` that are forwarded, in order.
pub open spec fn forwarded_peaks(last: Option<u64>, events: Seq<(u64, i16)>) -> Seq<i16> {
    forwarded_indices(last, events).map_values(|i: int| events[i].1)
}

/// A peak meter. It remembers when it last forwarded a peak.
pub struct PeakMeter {
    last_emit: Option<u64>,
}

impl View for PeakMeter {
    type V = Option<u64>;

    closed spec fn view(&self) -> Option<u64> {
        self.last_emit
    }
}

impl PeakMeter {
    /// A meter that has forwarded nothing yet.
    pub fn new() -> (meter: Self)
        ensures
            meter@ is None,
    {
        PeakMeter { last_emit: None }
    }

    /// The time of the last forwarded peak, if any.
    pub fn last_emit(&self) -> (last: Option<u64>)
        ensures
            last == self@,
    {
        self.last_emit
    }

    /// Takes the peak that arrived at `now` and returns it if it is to be
    /// forwarded: always the first one, later ones when at least 10 ms have
    /// passed since the last forwarded peak. A peak that is not forwarded is
    /// dropped and leaves the meter as it was.
    pub fn offer(&mut self, now: u64, peak: i16) -> (forwarded: Option<i16>)
        ensures
            final(self)@ == next_last(old(self)@, now),
            should_forward(old(self)@, now) ==> forwarded == Some(peak) && final(self)@ == Some(
                now,
            ),
            !should_forward(old(self)@, now) ==> forwarded is None && final(self)@ == old(self)@,
    {
        let due = match self.last_emit {
            None => true,
            Some(t) => now >= t && now - t >= THROTTLE_NANOS,
        };
        if due {
            self.last_emit = Some(now);
            Some(peak)
        } else {
            None
        }
    }
}

/// Runs a new meter over `events`, each a pair of arrival time and peak, and
/// returns the peaks that it forwards, in order.
pub fn send_peaks(events: &[(u64, i16)]) -> (sent: Vec<i16>)
    ensures
        sent@ == forwarded_peaks(None, events@),
{
    let mut meter = PeakMeter::new();
    let mut sent: Vec<i16> = Vec::new();
    let n = events.len();
    let mut i: usize = 0;
    while i < n
        invariant
            i <= n,
            n == events.len(),
            meter@ == last_after(None, events@.take(i as int)),
            sent@ == forwarded_peaks(None, events@.take(i as int)),
        decreases n - i,
    {
        let ghost seen = events@.take(i as int);
        let ghost next = events@.take(i + 1);
        proof {
            assert(next.drop_last() =~= seen);
            assert(next.last() == events@[i as int]);
            lemma_forwarded_indices_in_range(None, seen);
            if should_forward(last_after(None, seen), events@[i as int].0) {
                assert(forwarded_peaks(None, next) =~= forwarded_peaks(None, seen).push(
                    events@[i as int].1,
                ));
            } else {
                assert(forwarded_peaks(None, next) =~= forwarded_peaks(None, seen));
            }
        }
        let event = events[i];
        if let Some(peak) = meter.offer(event.0, event.1) {
            sent.push(peak);
        }
        i += 1;
    }
    assert(events@.take(n as int) =~= events@);
    sent
}

/// The forwarded positions are positions of `events`, in strictly increasing
/// order: what is forwarded is a subsequence of what arrived.
pub proof fn lemma_forwarded_indices_in_range(last: Option<u64>, events: Seq<(u64, i16)>)
    ensures
        forwarded_indices(last, events).len() <= events.len(),
        forall|k: int|
            0 <= k < forwarded_indices(last, events).len() ==> 0 <= #[trigger] forwarded_indices(
                last,
                events,
            )[k] < events.len(),
        forall|j: int, k: int|
            0 <= j < k < forwarded_indices(last, events).len() ==> forwarded_indices(
                last,
                events,
            )[j] < forwarded_indices(last, events)[k],
    decreases events.len(),
{
    if events.len() > 0 {
        lemma_forwarded_indices_in_range(last, events.drop_last());
    }
}

/// What the meter remembers is the time of the last forwarded peak, or what
/// it remembered before if nothing was forwarded.
pub proof fn lemma_last_after_is_last_forwarded(last: Option<u64>, events: Seq<(u64, i16)>)
    ensures
        forwarded_indices(last, events).len() == 0 ==> last_after(last, events) == last,
        forwarded_indices(last, events).len() > 0 ==> last_after(last, events) == Some(
            events[forwarded_indices(last, events).last()].0,
        ),
    decreases events.len(),
{
    if events.len() > 0 {
        lemma_last_after_is_last_forwarded(last, events.drop_last());
        lemma_forwarded_indices_in_range(last, events.drop_last());
    }
}

/// A meter that has forwarded nothing forwards the first peak it receives.
pub proof fn lemma_first_peak_is_forwarded(events: Seq<(u64, i16)>)
    requires
        events.len() > 0,
    ensures
        forwarded_indices(None, events).len() > 0,
        forwarded_indices(None, events)[0] == 0,
        forwarded_peaks(None, events).len() > 0,
        forwarded_peaks(None, events)[0] == events[0].1,
    decreases events.len(),
{
    if events.len() == 1 {
        assert(events.drop_last().len() == 0);
        assert(forwarded_indices(None, events.drop_last()).len() == 0);
        assert(last_after(None, events.drop_last()) is None);
    } else {
        lemma_first_peak_is_forwarded(events.drop_last());
    }
}

/// Two peaks forwarded one after the other arrived at least 10 ms apart, and
/// the first forwarded peak arrived at least 10 ms after the one that the
/// meter had forwarded before, if there was one.
pub proof fn lemma_forwarded_peaks_are_spaced(last: Option<u64>, events: Seq<(u64, i16)>)
    ensures
        forall|k: int|
            0 <= k < forwarded_indices(last, events).len() - 1 ==> events[forwarded_indices(
                last,
                events,
            )[k + 1]].0 - events[#[trigger] forwarded_indices(last, events)[k]].0
                >= THROTTLE_NANOS,
        last is Some && forwarded_indices(last, events).len() > 0 ==> events[forwarded_indices(
            last,
            events,
        )[0]].0 - last->0 >= THROTTLE_NANOS,
    decreases events.len(),
{
    if events.len() > 0 {
        let init = events.drop_last();
        lemma_forwarded_peaks_are_spaced(last, init);
        lemma_forwarded_indices_in_range(last, init);
        lemma_last_after_is_last_forwarded(last, init);
        let before = forwarded_indices(last, init);
        let all = forwarded_indices(last, events);
        assert forall|k: int| 0 <= k < all.len() - 1 implies events[all[k + 1]].0 - events[#[trigger] all[k]].0
            >= THROTTLE_NANOS by {
            if k + 1 < before.len() {
                assert(all[k] == before[k]);
                assert(all[k + 1] == before[k + 1]);
                assert(init[before[k]] == events[before[k]]);
                assert(init[before[k + 1]] == events[before[k + 1]]);
            } else {
                assert(all[k] == before.last());
                assert(init[before.last()] == events[before.last()]);
            }
        }
        if last is Some && all.len() > 0 {
            if before.len() > 0 {
                assert(all[0] == before[0]);
                assert(init[before[0]] == events[before[0]]);
            }
        }
    }
}

/// Any two forwarded peaks arrived at least 10 ms apart, the later one
/// after the earlier one.
pub proof fn lemma_any_two_forwarded_are_spaced(
    last: Option<u64>,
    events: Seq<(u64, i16)>,
    j: int,
    k: int,
)
    requires
        0 <= j < k < forwarded_indices(last, events).len(),
    ensures
        events[forwarded_indices(last, events)[k]].0 - events[forwarded_indices(last, events)[j]].0
            >= THROTTLE_NANOS,
    decreases k - j,
{
    lemma_forwarded_peaks_are_spaced(last, events);
    let sent = forwarded_indices(last, events);
    if j + 1 < k {
        lemma_any_two_forwarded_are_spaced(last, events, j, k - 1);
        assert(events[sent[k - 1 + 1]].0 - events[sent[k - 1]].0 >= THROTTLE_NANOS);
    } else {
        assert(events[sent[j + 1]].0 - events[sent[j]].0 >= THROTTLE_NANOS);
    }
}

} // verus!
