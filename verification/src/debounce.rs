//! Coalescing of bursts of raw events, path by path.
//!
//! A debouncer keeps a queue of bursts. A raw event on a path joins the
//! latest burst of that path while that burst is still within its window;
//! otherwise it opens a new burst at the end of the queue. A burst leaves the
//! queue once a whole window has passed since its last raw event. Time is a
//! millisecond reading that the caller supplies with every call.

use vstd::prelude::*;
use crate::kind::EventKind;

verus! {

/// A burst of raw events on one path that has not been emitted yet.
#[derive(Debug, PartialEq, Eq)]
pub struct Burst {
    /// The path the burst is about.
    pub path: String,
    /// The kind of the last raw event of the burst.
    pub kind: EventKind,
    /// The diagnostic text of that kind.
    pub description: String,
    /// When the last raw event of the burst was seen.
    pub last_seen_ms: u64,
}

/// The mathematical content of a [`Burst`].
pub struct BurstView {
    pub path: Seq<char>,
    pub kind: EventKind,
    pub description: Seq<char>,
    pub last_seen_ms: u64,
}

impl View for Burst {
    type V = BurstView;

    open spec fn view(&self) -> BurstView {
        BurstView {
            path: self.path@,
            kind: self.kind,
            description: self.description@,
            last_seen_ms: self.last_seen_ms,
        }
    }
}

impl Clone for Burst {
    fn clone(&self) -> (burst: Burst)
        ensures
            burst@ == self@,
    {
        Burst {
            path: self.path.clone(),
            kind: self.kind,
            description: self.description.clone(),
            last_seen_ms: self.last_seen_ms,
        }
    }
}

impl BurstView {
    /// Whether a whole window has passed at `now_ms` since the last raw event.
    pub open spec fn is_quiet(self, now_ms: u64, window_ms: u64) -> bool {
        self.last_seen_ms + window_ms <= now_ms
    }

    /// The first moment at which the burst is quiet, capped at the largest
    /// reading a clock can give.
    pub open spec fn deadline(self, window_ms: u64) -> u64 {
        if self.last_seen_ms + window_ms <= u64::MAX {
            (self.last_seen_ms + window_ms) as u64
        } else {
            u64::MAX
        }
    }
}

impl Burst {
    /// Whether a whole window has passed at `now_ms` since the last raw event.
    pub fn is_quiet(&self, now_ms: u64, window_ms: u64) -> (quiet: bool)
        ensures
            quiet == self@.is_quiet(now_ms, window_ms),
    {
        now_ms >= self.last_seen_ms && now_ms - self.last_seen_ms >= window_ms
    }

    /// The first moment at which the burst is quiet, capped at `u64::MAX`.
    pub fn deadline(&self, window_ms: u64) -> (deadline: u64)
        ensures
            deadline == self@.deadline(window_ms),
    {
        if self.last_seen_ms <= u64::MAX - window_ms {
            self.last_seen_ms + window_ms
        } else {
            u64::MAX
        }
    }
}

/// The position of the latest burst on `path` in the queue, or -1 if there is none.
pub open spec fn last_of(pending: Seq<BurstView>, path: Seq<char>) -> int
    decreases pending.len(),
{
    if pending.len() == 0 {
        -1
    } else if pending.last().path == path {
        pending.len() - 1
    } else {
        last_of(pending.drop_last(), path)
    }
}

/// The position of the first quiet burst in the queue, or the queue's length
/// if none is quiet.
pub open spec fn first_due(pending: Seq<BurstView>, now_ms: u64, window_ms: u64) -> int
    decreases pending.len(),
{
    if pending.len() == 0 {
        0
    } else if pending.first().is_quiet(now_ms, window_ms) {
        0
    } else {
        1 + first_due(pending.drop_first(), now_ms, window_ms)
    }
}

/// The earliest deadline among the bursts of the queue.
pub open spec fn earliest_deadline(pending: Seq<BurstView>, window_ms: u64) -> Option<u64>
    decreases pending.len(),
{
    if pending.len() == 0 {
        None
    } else {
        let mine = pending.last().deadline(window_ms);
        match earliest_deadline(pending.drop_last(), window_ms) {
            Some(other) if other <= mine => Some(other),
            _ => Some(mine),
        }
    }
}

/// The mathematical content of a [`Debouncer`]: its window and its queue.
pub struct DebouncerView {
    pub window_ms: u64,
    pub pending: Seq<BurstView>,
}

impl DebouncerView {
    /// The queue after one raw event, given as the burst it would open alone.
    /// It joins the latest burst on its path unless that burst is quiet at the
    /// event's time; a burst it joins takes the event's kind, text and time.
    pub open spec fn recorded(self, burst: BurstView) -> DebouncerView {
        let latest = last_of(self.pending, burst.path);
        if latest >= 0 && !self.pending[latest].is_quiet(burst.last_seen_ms, self.window_ms) {
            DebouncerView { pending: self.pending.update(latest, burst), ..self }
        } else {
            DebouncerView { pending: self.pending.push(burst), ..self }
        }
    }

    /// Whether some burst is quiet at `now_ms`.
    pub open spec fn has_due(self, now_ms: u64) -> bool {
        0 <= first_due(self.pending, now_ms, self.window_ms) < self.pending.len()
    }

    /// The first burst that is quiet at `now_ms`.
    pub open spec fn due(self, now_ms: u64) -> BurstView
        recommends
            self.has_due(now_ms),
    {
        self.pending[first_due(self.pending, now_ms, self.window_ms)]
    }

    /// The queue without the first burst that is quiet at `now_ms`.
    pub open spec fn without_due(self, now_ms: u64) -> DebouncerView
        recommends
            self.has_due(now_ms),
    {
        DebouncerView {
            pending: self.pending.remove(first_due(self.pending, now_ms, self.window_ms)),
            ..self
        }
    }

    /// When the next burst becomes quiet, if any burst is pending.
    pub open spec fn next_deadline(self) -> Option<u64> {
        earliest_deadline(self.pending, self.window_ms)
    }
}

/// One raw event as a burst of its own.
pub open spec fn sighting(
    path: Seq<char>,
    kind: EventKind,
    description: Seq<char>,
    now_ms: u64,
) -> BurstView {
    BurstView { path, kind, description, last_seen_ms: now_ms }
}

/// The views of a vector of bursts, one for one.
spec fn burst_views(bursts: Seq<Burst>) -> Seq<BurstView> {
    bursts.map_values(|b: Burst| b@)
}

/// The queue of bursts that await their quiet period.
pub struct Debouncer {
    window_ms: u64,
    pending: Vec<Burst>,
}

impl View for Debouncer {
    type V = DebouncerView;

    closed spec fn view(&self) -> DebouncerView {
        DebouncerView { window_ms: self.window_ms, pending: burst_views(self.pending@) }
    }
}

impl Debouncer {
    /// An empty debouncer with the given window.
    pub fn new(window_ms: u64) -> (debouncer: Debouncer)
        ensures
            debouncer@ == (DebouncerView { window_ms, pending: Seq::empty() }),
    {
        let debouncer = Debouncer { window_ms, pending: Vec::new() };
        assert(debouncer@.pending =~= Seq::empty());
        debouncer
    }

    /// The window in milliseconds.
    pub fn window_ms(&self) -> (window_ms: u64)
        ensures
            window_ms == self@.window_ms,
    {
        self.window_ms
    }

    /// How many bursts are pending.
    pub fn len(&self) -> (len: usize)
        ensures
            len == self@.pending.len(),
    {
        self.pending.len()
    }

    /// Takes in one raw event on `path`, seen at `now_ms`.
    pub fn record(&mut self, now_ms: u64, path: String, kind: EventKind, description: String)
        ensures
            final(self)@ == old(self)@.recorded(sighting(path@, kind, description@, now_ms)),
    {
        let ghost before = self@.pending;
        let mut end: usize = self.pending.len();
        while end > 0 && !(self.pending[end - 1].path == path)
            invariant
                end <= self.pending.len(),
                self@.pending == before,
                forall|j: int| end <= j < before.len() ==> before[j].path != path@,
            decreases end,
        {
            end = end - 1;
        }
        proof {
            lemma_last_of(before, path@, end - 1);
        }
        let burst = Burst { path, kind, description, last_seen_ms: now_ms };
        if end > 0 && !self.pending[end - 1].is_quiet(now_ms, self.window_ms) {
            self.pending.set(end - 1, burst);
            assert(self@.pending =~= before.update(end - 1, burst@));
        } else {
            self.pending.push(burst);
            assert(self@.pending =~= before.push(burst@));
        }
    }

    /// Removes and returns the first burst that is quiet at `now_ms`, if any.
    pub fn pop_due(&mut self, now_ms: u64) -> (burst: Option<Burst>)
        ensures
            burst is Some == old(self)@.has_due(now_ms),
            burst matches Some(b) ==> b@ == old(self)@.due(now_ms) && final(self)@ == old(
                self,
            )@.without_due(now_ms),
            burst is None ==> final(self)@ == old(self)@,
    {
        let ghost before = self@.pending;
        let mut at: usize = 0;
        while at < self.pending.len() && !self.pending[at].is_quiet(now_ms, self.window_ms)
            invariant
                at <= self.pending.len(),
                self@.pending == before,
                self.window_ms == old(self).window_ms,
                forall|j: int| 0 <= j < at ==> !before[j].is_quiet(now_ms, self.window_ms),
            decreases self.pending.len() - at,
        {
            at = at + 1;
        }
        proof {
            lemma_first_due(before, now_ms, self.window_ms, at as int);
        }
        if at < self.pending.len() {
            let burst = self.pending.remove(at);
            assert(self@.pending =~= before.remove(at as int));
            Some(burst)
        } else {
            None
        }
    }

    /// When the next pending burst becomes quiet; `None` if nothing is pending.
    pub fn next_deadline(&self) -> (deadline: Option<u64>)
        ensures
            deadline == self@.next_deadline(),
    {
        let mut best: Option<u64> = None;
        let mut i: usize = 0;
        while i < self.pending.len()
            invariant
                i <= self.pending.len(),
                best == earliest_deadline(self@.pending.take(i as int), self.window_ms),
            decreases self.pending.len() - i,
        {
            let mine = self.pending[i].deadline(self.window_ms);
            assert(self@.pending.take(i + 1).drop_last() =~= self@.pending.take(i as int));
            best =
            match best {
                Some(other) if other <= mine => Some(other),
                _ => Some(mine),
            };
            i = i + 1;
        }
        assert(self@.pending.take(i as int) =~= self@.pending);
        best
    }
}

/// `last_of` names the only position that holds the path and has no later
/// match, or -1 where no position holds it.
pub proof fn lemma_last_of(pending: Seq<BurstView>, path: Seq<char>, at: int)
    requires
        -1 <= at < pending.len(),
        at >= 0 ==> pending[at].path == path,
        forall|j: int| at < j < pending.len() ==> pending[j].path != path,
    ensures
        last_of(pending, path) == at,
    decreases pending.len(),
{
    if pending.len() > 0 && at < pending.len() - 1 {
        lemma_last_of(pending.drop_last(), path, at);
    }
}

/// What `last_of` returns: a position that holds the path, with no later
/// match; -1 only if no position holds it.
pub proof fn lemma_last_of_holds(pending: Seq<BurstView>, path: Seq<char>)
    ensures
        -1 <= last_of(pending, path) < pending.len(),
        last_of(pending, path) >= 0 ==> pending[last_of(pending, path)].path == path,
        forall|j: int| last_of(pending, path) < j < pending.len() ==> pending[j].path != path,
    decreases pending.len(),
{
    if pending.len() > 0 && pending.last().path != path {
        let rest = pending.drop_last();
        lemma_last_of_holds(rest, path);
        assert forall|j: int| last_of(pending, path) < j < pending.len() implies pending[j].path
            != path by {
            if j < rest.len() {
                assert(pending[j] == rest[j]);
            }
        }
    }
}

/// `first_due` names the first quiet position.
pub proof fn lemma_first_due(pending: Seq<BurstView>, now_ms: u64, window_ms: u64, at: int)
    requires
        0 <= at <= pending.len(),
        forall|j: int| 0 <= j < at ==> !pending[j].is_quiet(now_ms, window_ms),
        at < pending.len() ==> pending[at].is_quiet(now_ms, window_ms),
    ensures
        first_due(pending, now_ms, window_ms) == at,
    decreases pending.len(),
{
    if at > 0 {
        let rest = pending.drop_first();
        assert forall|j: int| 0 <= j < at - 1 implies !rest[j].is_quiet(now_ms, window_ms) by {
            assert(rest[j] == pending[j + 1]);
        }
        lemma_first_due(rest, now_ms, window_ms, at - 1);
    }
}

/// What `first_due` returns: every burst before it is still within its
/// window, and the burst at it, if there is one, is quiet.
pub proof fn lemma_first_due_holds(pending: Seq<BurstView>, now_ms: u64, window_ms: u64)
    ensures
        0 <= first_due(pending, now_ms, window_ms) <= pending.len(),
        forall|j: int|
            0 <= j < first_due(pending, now_ms, window_ms) ==> !pending[j].is_quiet(
                now_ms,
                window_ms,
            ),
        first_due(pending, now_ms, window_ms) < pending.len() ==> pending[first_due(
            pending,
            now_ms,
            window_ms,
        )].is_quiet(now_ms, window_ms),
    decreases pending.len(),
{
    if pending.len() > 0 && !pending.first().is_quiet(now_ms, window_ms) {
        let rest = pending.drop_first();
        lemma_first_due_holds(rest, now_ms, window_ms);
        let at = first_due(pending, now_ms, window_ms);
        assert forall|j: int| 0 <= j < at implies !pending[j].is_quiet(now_ms, window_ms) by {
            if j > 0 {
                assert(pending[j] == rest[j - 1]);
            }
        }
        if at < pending.len() {
            assert(pending[at] == rest[at - 1]);
        }
    }
}

/// The queue after a run of raw events, each given as the burst it would
/// open alone, taken in one after the other.
pub open spec fn recorded_all(debouncer: DebouncerView, events: Seq<BurstView>) -> DebouncerView
    decreases events.len(),
{
    if events.len() == 0 {
        debouncer
    } else {
        recorded_all(debouncer, events.drop_last()).recorded(events.last())
    }
}

/// Taking in raw events leaves the window as it is.
pub proof fn lemma_recorded_all_keeps_window(debouncer: DebouncerView, events: Seq<BurstView>)
    ensures
        recorded_all(debouncer, events).window_ms == debouncer.window_ms,
    decreases events.len(),
{
    if events.len() > 0 {
        lemma_recorded_all_keeps_window(debouncer, events.drop_last());
    }
}

/// After a raw event is taken in, the latest burst on its path is the burst
/// that holds it, with the event's kind, text and time.
pub proof fn lemma_recorded_is_latest(debouncer: DebouncerView, event: BurstView)
    ensures
        ({
            let after = debouncer.recorded(event);
            let at = last_of(after.pending, event.path);
            &&& after.window_ms == debouncer.window_ms
            &&& 0 <= at < after.pending.len()
            &&& after.pending[at] == event
        }),
{
    let after = debouncer.recorded(event);
    let latest = last_of(debouncer.pending, event.path);
    lemma_last_of_holds(debouncer.pending, event.path);
    if latest >= 0 && !debouncer.pending[latest].is_quiet(event.last_seen_ms, debouncer.window_ms) {
        lemma_last_of(after.pending, event.path, latest);
    } else {
        lemma_last_of(after.pending, event.path, debouncer.pending.len() as int);
    }
}

/// Raw events on one path that all arrive within one window make one burst.
///
/// However many they are, the queue afterwards is the queue after the first
/// of them, with the one burst that holds the first now holding the last: no
/// further burst was opened. That burst is quiet, and so can leave the
/// queue, exactly from one window after the last event on.
pub proof fn lemma_burst_within_window_coalesces(debouncer: DebouncerView, events: Seq<BurstView>)
    requires
        events.len() >= 1,
        forall|i: int| 0 <= i < events.len() ==> (#[trigger] events[i]).path == events[0].path,
        forall|i: int, j: int|
            #![trigger events[i], events[j]]
            0 <= i < events.len() && 0 <= j < events.len() ==> events[j].last_seen_ms
                - events[i].last_seen_ms < debouncer.window_ms,
    ensures
        ({
            let first = debouncer.recorded(events[0]);
            let at = last_of(first.pending, events[0].path);
            let after = recorded_all(debouncer, events);
            &&& 0 <= at < first.pending.len()
            &&& first.pending[at] == events[0]
            &&& after.window_ms == debouncer.window_ms
            &&& after.pending == first.pending.update(at, events.last())
            &&& forall|now_ms: u64|
                after.pending[at].is_quiet(now_ms, after.window_ms) <==> events.last().last_seen_ms
                    + debouncer.window_ms <= now_ms
        }),
    decreases events.len(),
{
    let first = debouncer.recorded(events[0]);
    let at = last_of(first.pending, events[0].path);
    lemma_recorded_is_latest(debouncer, events[0]);
    if events.len() == 1 {
        assert(events.drop_last() =~= Seq::<BurstView>::empty());
        assert(recorded_all(debouncer, events.drop_last()) == debouncer);
        assert(first.pending.update(at, events.last()) =~= first.pending);
    } else {
        let head = events.drop_last();
        assert(head[0] == events[0]);
        assert forall|i: int| 0 <= i < head.len() implies (#[trigger] head[i]).path
            == head[0].path by {
            assert(head[i] == events[i]);
        }
        assert forall|i: int, j: int|
            #![trigger head[i], head[j]]
            0 <= i < head.len() && 0 <= j < head.len() implies head[j].last_seen_ms
            - head[i].last_seen_ms < debouncer.window_ms by {
            assert(head[i] == events[i] && head[j] == events[j]);
        }
        lemma_burst_within_window_coalesces(debouncer, head);
        let before = recorded_all(debouncer, head);
        let previous = events[events.len() - 2];
        assert(head.last() == previous);
        assert(before.pending == first.pending.update(at, previous));
        lemma_last_of_holds(first.pending, events[0].path);
        lemma_last_of(before.pending, events.last().path, at);
        assert(!before.pending[at].is_quiet(events.last().last_seen_ms, before.window_ms));
        assert(before.pending.update(at, events.last()) =~= first.pending.update(
            at,
            events.last(),
        ));
    }
}

/// Two raw events on one path that lie more than a window apart make two
/// bursts: the later one opens a burst of its own at the end of the queue,
/// and the burst that holds the earlier one is left as it was.
pub proof fn lemma_separated_events_stay_apart(
    debouncer: DebouncerView,
    earlier: BurstView,
    later: BurstView,
)
    requires
        earlier.path == later.path,
        later.last_seen_ms - earlier.last_seen_ms > debouncer.window_ms,
    ensures
        ({
            let first = debouncer.recorded(earlier);
            let at = last_of(first.pending, earlier.path);
            let second = first.recorded(later);
            &&& 0 <= at < first.pending.len()
            &&& first.pending[at] == earlier
            &&& second.pending == first.pending.push(later)
        }),
{
    lemma_recorded_is_latest(debouncer, earlier);
}

/// What `earliest_deadline` returns: nothing for an empty queue, else a
/// deadline of some burst that no other burst's deadline lies before.
pub proof fn lemma_earliest_deadline(pending: Seq<BurstView>, window_ms: u64)
    ensures
        earliest_deadline(pending, window_ms) is None <==> pending.len() == 0,
        earliest_deadline(pending, window_ms) matches Some(earliest) ==> {
            &&& forall|i: int|
                0 <= i < pending.len() ==> earliest <= (#[trigger] pending[i]).deadline(window_ms)
            &&& exists|i: int|
                0 <= i < pending.len() && earliest == (#[trigger] pending[i]).deadline(window_ms)
        },
    decreases pending.len(),
{
    if pending.len() > 0 {
        let rest = pending.drop_last();
        lemma_earliest_deadline(rest, window_ms);
        let earliest = earliest_deadline(pending, window_ms)->0;
        assert forall|i: int| 0 <= i < pending.len() implies earliest <= (
        #[trigger] pending[i]).deadline(window_ms) by {
            if i < rest.len() {
                assert(pending[i] == rest[i]);
            }
        }
        if earliest == pending.last().deadline(window_ms) {
            assert(pending[pending.len() - 1].deadline(window_ms) == earliest);
        } else {
            let i = choose|i: int|
                0 <= i < rest.len() && earliest == (#[trigger] rest[i]).deadline(window_ms);
            assert(pending[i] == rest[i]);
        }
    }
}

/// Waiting until the next deadline misses nothing and is not in vain: before
/// it no burst is quiet, and from it on some burst is, unless the deadline
/// lies beyond what a clock can read.
pub proof fn lemma_deadline_is_first_due(debouncer: DebouncerView, now_ms: u64)
    ensures
        debouncer.next_deadline() is None ==> !debouncer.has_due(now_ms),
        debouncer.next_deadline() matches Some(deadline) ==> {
            &&& now_ms < deadline ==> !debouncer.has_due(now_ms)
            &&& deadline <= now_ms && deadline < u64::MAX ==> debouncer.has_due(now_ms)
        },
{
    let pending = debouncer.pending;
    let window_ms = debouncer.window_ms;
    lemma_earliest_deadline(pending, window_ms);
    lemma_first_due_holds(pending, now_ms, window_ms);
    match debouncer.next_deadline() {
        None => {},
        Some(deadline) => {
            if now_ms < deadline {
                assert forall|j: int| 0 <= j < pending.len() implies !(
                #[trigger] pending[j]).is_quiet(now_ms, window_ms) by {
                    assert(deadline <= pending[j].deadline(window_ms));
                }
                lemma_first_due(pending, now_ms, window_ms, pending.len() as int);
            } else if deadline < u64::MAX {
                let i = choose|i: int|
                    0 <= i < pending.len() && deadline == (#[trigger] pending[i]).deadline(
                        window_ms,
                    );
                assert(pending[i].is_quiet(now_ms, window_ms));
            }
        },
    }
}

} // verus!
