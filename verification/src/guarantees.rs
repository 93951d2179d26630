//! What holds of every watch, proved over the model of the loop.
//!
//! The statements here speak of [`LoopView`], the mathematical content of a
//! [`crate::engine::WatchLoop`]. Since `WatchLoop::new` and `WatchLoop::step`
//! are specified by `LoopView::initial` and `LoopView::step`, whatever is
//! proved of every run of the model holds of every run of the loop.

use vstd::prelude::*;
use crate::debounce::{
    earliest_deadline, first_due, lemma_first_due, lemma_first_due_holds, lemma_last_of,
    lemma_deadline_is_first_due, lemma_recorded_all_keeps_window, recorded_all, sighting,
    BurstView, DebouncerView,
};
use crate::engine::{sightings, ActionView, InputView, LoopView, OutcomeView, StageView};
use crate::error::WatchErrorView;
use crate::event::{
    category_of, category_tag, lemma_category_tags_differ, lemma_first_tag_is_category,
    WatchatEvent,
};
use crate::record::{classified, coalesced, NormalizedEventView, RawEventView};
use crate::request::WatchRequest;

verus! {

/// One report to the loop: an input with the readings of flag and clock that
/// come with it.
pub struct Report {
    pub terminated: bool,
    pub now_ms: u64,
    pub input: InputView,
}

/// Whether a delivered event shows itself as of `category`: its first tag is
/// the tag of that category.
pub open spec fn shows_category(event: NormalizedEventView, category: WatchatEvent) -> bool {
    event.tags.len() > 0 && event.tags[0] == category_tag(category)
}

/// Whether an answer is a wait.
pub open spec fn is_wait(answer: Option<ActionView>) -> bool {
    answer matches Some(ActionView::Wait { .. })
}

/// Whether an answer is a delivery.
pub open spec fn is_delivery(answer: Option<ActionView>) -> bool {
    answer matches Some(ActionView::Deliver { .. })
}

impl LoopView {
    /// What holds of a watch however it got where it is: nothing is queued
    /// during setup, and without debouncing nothing is queued or looked up
    /// at all.
    pub open spec fn wf(self) -> bool {
        &&& self.stage.in_setup() ==> self.debouncer.pending.len() == 0
        &&& !self.debounced ==> self.debouncer.pending.len() == 0 && !(self.stage is Probing)
    }

    /// The watch after one report.
    pub open spec fn after(self, report: Report) -> LoopView {
        self.step(report.terminated, report.now_ms, report.input)
    }

    /// The answer to one report.
    pub open spec fn answer(self, report: Report) -> Option<ActionView> {
        self.reply(report.terminated, report.now_ms, report.input)
    }

    /// The watch after a run of reports, in order.
    pub open spec fn run(self, reports: Seq<Report>) -> LoopView
        decreases reports.len(),
    {
        if reports.len() == 0 {
            self
        } else {
            self.run(reports.drop_last()).after(reports.last())
        }
    }

    /// Whether the loop has never run: the watch is still in setup, or setup failed.
    pub open spec fn never_ran(self) -> bool {
        self.stage.in_setup() || (self.stage matches StageView::Failed { error } && error is Setup)
    }
}

/// What the top of an iteration leads to.
///
/// It changes the stage and shortens the queue, nothing else. A set flag
/// cancels and leaves the queue alone. Otherwise the watch waits, or holds a
/// burst that was in the queue, quiet, and not ruled out by its last raw
/// kind: for lookup where removals are ignored, for delivery where not.
pub proof fn lemma_settled(watch: LoopView, terminated: bool, now_ms: u64)
    ensures
        ({
            let next = watch.settled(terminated, now_ms);
            &&& next == (LoopView { stage: next.stage, debouncer: next.debouncer, ..watch })
            &&& next.debouncer.window_ms == watch.debouncer.window_ms
            &&& next.debouncer.pending.len() <= watch.debouncer.pending.len()
            &&& terminated ==> next == watch.at(StageView::Cancelled)
            &&& !terminated && !watch.debounced ==> next == watch.at(StageView::Waiting)
            &&& !terminated ==> {
                ||| next.stage is Waiting
                ||| next.stage is Probing
                ||| next.stage is Delivering
            }
            &&& next.stage is Waiting && watch.debounced ==> !next.debouncer.has_due(now_ms)
            &&& next.stage matches StageView::Probing { burst } ==> {
                &&& watch.debounced
                &&& watch.policy.ignore_remove
                &&& watch.debouncer.pending.contains(burst)
                &&& burst.is_quiet(now_ms, watch.debouncer.window_ms)
                &&& !watch.rules_out(burst)
            }
            &&& next.stage matches StageView::Delivering { event } ==> {
                &&& watch.debounced
                &&& !watch.policy.ignore_remove
                &&& exists|burst: BurstView|
                    {
                        &&& #[trigger] watch.debouncer.pending.contains(burst)
                        &&& burst.is_quiet(now_ms, watch.debouncer.window_ms)
                        &&& !watch.rules_out(burst)
                        &&& event == coalesced(burst.path, burst.description)
                    }
            }
        }),
    decreases watch.debouncer.pending.len(),
{
    if !terminated && watch.debounced && watch.debouncer.has_due(now_ms) {
        let pending = watch.debouncer.pending;
        let at = first_due(pending, now_ms, watch.debouncer.window_ms);
        lemma_first_due_holds(pending, now_ms, watch.debouncer.window_ms);
        let burst = watch.debouncer.due(now_ms);
        assert(pending[at] == burst);
        assert(pending.contains(burst));
        let rest = LoopView { debouncer: watch.debouncer.without_due(now_ms), ..watch };
        if watch.rules_out(burst) {
            lemma_settled(rest, terminated, now_ms);
            let next = rest.settled(terminated, now_ms);
            assert forall|b: BurstView| rest.debouncer.pending.contains(b) implies pending.contains(
                b,
            ) by {
                let i = choose|i: int|
                    0 <= i < rest.debouncer.pending.len() && rest.debouncer.pending[i] == b;
                if i < at {
                    assert(pending[i] == b);
                } else {
                    assert(pending[i + 1] == b);
                }
            }
            if let StageView::Delivering { event } = next.stage {
                let found = choose|found: BurstView|
                    {
                        &&& #[trigger] rest.debouncer.pending.contains(found)
                        &&& found.is_quiet(now_ms, rest.debouncer.window_ms)
                        &&& !rest.rules_out(found)
                        &&& event == coalesced(found.path, found.description)
                    };
                assert(pending.contains(found));
            }
        }
    } else if !terminated && watch.debounced {
        lemma_first_due_holds(watch.debouncer.pending, now_ms, watch.debouncer.window_ms);
    }
}

/// A watch begins well-formed, and every report leaves it so.
pub proof fn lemma_wf_is_kept(watch: LoopView, report: Report)
    requires
        watch.wf(),
    ensures
        watch.after(report).wf(),
        watch.after(report).debounced == watch.debounced,
        watch.after(report).policy == watch.policy,
{
    let terminated = report.terminated;
    let now_ms = report.now_ms;
    lemma_settled(watch, terminated, now_ms);
    if let InputView::Raw { event } = report.input {
        lemma_settled(watch.buffering(event, now_ms), terminated, now_ms);
    }
}

/// A watch begins well-formed.
pub proof fn lemma_initial_is_wf(request: WatchRequest)
    ensures
        LoopView::initial(request).wf(),
{
}

/// Every run of reports from a well-formed watch ends in a well-formed watch
/// with the same filter policy and the same debounce setting.
pub proof fn lemma_run_keeps_wf(watch: LoopView, reports: Seq<Report>)
    requires
        watch.wf(),
    ensures
        watch.run(reports).wf(),
        watch.run(reports).debounced == watch.debounced,
        watch.run(reports).policy == watch.policy,
    decreases reports.len(),
{
    if reports.len() > 0 {
        lemma_run_keeps_wf(watch, reports.drop_last());
        lemma_wf_is_kept(watch.run(reports.drop_last()), reports.last());
    }
}

/// A watch that has ended stays as it is: it accepts no input and answers
/// nothing, so the handle behind it is spent.
pub proof fn lemma_finished_watch_is_spent(watch: LoopView, report: Report)
    requires
        watch.stage.is_terminal(),
    ensures
        !watch.accepts(report.input),
        watch.after(report) == watch,
        watch.answer(report) is None,
{
}

/// A cancellation signal that ends the wait ends the watch, cleanly, whatever
/// else is pending.
pub proof fn lemma_control_signal_cancels(watch: LoopView, terminated: bool, now_ms: u64)
    requires
        watch.stage is Waiting,
    ensures
        watch.step(terminated, now_ms, InputView::Control).stage is Cancelled,
        watch.reply(terminated, now_ms, InputView::Control) == Some(
            ActionView::Finish { outcome: OutcomeView::Cancelled },
        ),
{
}

/// Once the termination flag reads set, the loop never blocks again and
/// touches the disk no more. The report that carries the reading is answered
/// by the end of the watch, or at most by the delivery of what that very
/// report brought in; and the report after a delivery ends the watch.
pub proof fn lemma_set_flag_ends_the_watch(watch: LoopView, now_ms: u64, input: InputView)
    requires
        watch.stage.is_running(),
        watch.accepts(input),
    ensures
        ({
            let next = watch.step(true, now_ms, input);
            &&& next.stage.is_terminal() || next.stage is Delivering
            &&& next.stage is Delivering ==> watch.stage is Waiting || watch.stage is Probing
            &&& watch.stage is Delivering ==> next.stage.is_terminal()
        }),
{
    lemma_settled(watch, true, now_ms);
    if let InputView::Raw { event } = input {
        lemma_settled(watch.buffering(event, now_ms), true, now_ms);
    }
}

/// Setup that ends under a set termination flag ends the watch before its
/// first wait.
pub proof fn lemma_set_flag_skips_the_first_wait(watch: LoopView, now_ms: u64, input: InputView)
    requires
        watch.accepts(input),
        watch.stage.in_setup(),
    ensures
        ({
            let next = watch.step(true, now_ms, input);
            next.stage.in_setup() || next.stage.is_terminal()
        }),
{
    lemma_settled(watch, true, now_ms);
}

/// Without debouncing, the flags decide and nothing else does.
///
/// A delivery is always the answer to a raw event that the wait produced: the
/// event delivered is that raw event, classified, and the flag of its
/// top-level category is not set. So the first tag of a delivered event is
/// never the tag of an ignored category.
pub proof fn lemma_ignored_categories_are_not_delivered(watch: LoopView, report: Report)
    requires
        watch.wf(),
        !watch.debounced,
        is_delivery(watch.answer(report)),
    ensures
        watch.stage is Waiting,
        report.input matches InputView::Raw { event: raw } && {
            &&& watch.answer(report) == Some(ActionView::Deliver { event: classified(raw) })
            &&& watch.policy.admits_raw(raw.kind)
            &&& forall|category: WatchatEvent|
                watch.policy.ignores(category) ==> {
                    &&& category_of(raw.kind) != Some(category)
                    &&& !#[trigger] shows_category(classified(raw), category)
                }
        },
{
    lemma_settled(watch, report.terminated, report.now_ms);
    if let InputView::Raw { event: raw } = report.input {
        lemma_first_tag_is_category(raw.kind);
        assert forall|category: WatchatEvent| watch.policy.ignores(category) implies {
            &&& category_of(raw.kind) != Some(category)
            &&& !#[trigger] shows_category(classified(raw), category)
        } by {
            if let Some(own) = category_of(raw.kind) {
                lemma_category_tags_differ(own, category);
            }
        }
    }
}

/// Without debouncing, no run of a watch ever delivers an event of an
/// ignored category: whichever report of a run is answered by a delivery, it
/// brought a raw event whose category the request does not ignore, and what
/// is delivered is that event, classified.
pub proof fn lemma_no_run_delivers_an_ignored_category(
    request: WatchRequest,
    reports: Seq<Report>,
    at: int,
)
    requires
        request.window_of() is None,
        0 <= at < reports.len(),
        is_delivery(LoopView::initial(request).run(reports.take(at)).answer(reports[at])),
    ensures
        reports[at].input matches InputView::Raw { event: raw } && {
            &&& LoopView::initial(request).run(reports.take(at)).answer(reports[at]) == Some(
                ActionView::Deliver { event: classified(raw) },
            )
            &&& forall|category: WatchatEvent|
                request.policy_of().ignores(category) ==> {
                    &&& category_of(raw.kind) != Some(category)
                    &&& !#[trigger] shows_category(classified(raw), category)
                }
        },
{
    let begun = LoopView::initial(request);
    lemma_initial_is_wf(request);
    lemma_run_keeps_wf(begun, reports.take(at));
    lemma_ignored_categories_are_not_delivered(begun.run(reports.take(at)), reports[at]);
}

/// Without debouncing, every raw event that the flags do not rule out is
/// delivered: the answer to it is the delivery of its classification. An
/// event that the flags rule out is answered otherwise.
pub proof fn lemma_other_categories_are_delivered(
    watch: LoopView,
    terminated: bool,
    now_ms: u64,
    raw: RawEventView,
)
    requires
        watch.stage is Waiting,
        !watch.debounced,
    ensures
        watch.policy.admits_raw(raw.kind) ==> watch.reply(
            terminated,
            now_ms,
            InputView::Raw { event: raw },
        ) == Some(ActionView::Deliver { event: classified(raw) }),
        !watch.policy.admits_raw(raw.kind) ==> !is_delivery(
            watch.reply(terminated, now_ms, InputView::Raw { event: raw }),
        ),
{
    lemma_settled(watch, terminated, now_ms);
}

/// With debouncing, what is delivered is a coalesced burst: no tags, the one
/// path, the text of the last raw kind. It was quiet when it left the queue.
/// Where access is ignored, its last raw kind is not an access. Where
/// removals are ignored, its path was looked up and found to exist. The
/// flags for creation and modification play no part.
pub proof fn lemma_coalesced_delivery_respects_filters(watch: LoopView, report: Report)
    requires
        watch.debounced,
        is_delivery(watch.answer(report)),
    ensures
        watch.answer(report) matches Some(ActionView::Deliver { event }) && event.tags.len() == 0
            && {
            ||| {
                &&& watch.stage matches StageView::Probing { burst }
                &&& report.input matches InputView::Probed { present }
                &&& watch.policy.ignore_remove ==> present
                &&& watch.policy.admits_coalesced(burst.kind, present)
                &&& event == coalesced(burst.path, burst.description)
            }
            ||| {
                &&& !watch.policy.ignore_remove
                &&& exists|burst: BurstView|
                    {
                        &&& burst.is_quiet(report.now_ms, watch.debouncer.window_ms)
                        &&& !watch.rules_out(burst)
                        &&& #[trigger] coalesced(burst.path, burst.description) == event
                    }
            }
        },
{
    let terminated = report.terminated;
    let now_ms = report.now_ms;
    lemma_settled(watch, terminated, now_ms);
    if let InputView::Raw { event } = report.input {
        let buffered = watch.buffering(event, now_ms);
        lemma_settled(buffered, terminated, now_ms);
        lemma_recorded_all_keeps_window(watch.debouncer, sightings(event, now_ms));
    }
    let next = watch.after(report);
    if let StageView::Delivering { event } = next.stage {
        if !(watch.stage is Probing) {
            let source = if let InputView::Raw { event: raw } = report.input {
                watch.buffering(raw, now_ms)
            } else {
                watch
            };
            let found = choose|found: BurstView|
                {
                    &&& #[trigger] source.debouncer.pending.contains(found)
                    &&& found.is_quiet(now_ms, source.debouncer.window_ms)
                    &&& !source.rules_out(found)
                    &&& event == coalesced(found.path, found.description)
                };
            assert(coalesced(found.path, found.description) == event);
        }
    }
}

/// The loop never waits past a deadline. A wait is asked for only when no
/// burst is quiet, and its deadline, if it has one, lies ahead of the clock
/// reading that came with the report (or beyond what a clock can read).
pub proof fn lemma_wait_is_not_overdue(watch: LoopView, report: Report)
    requires
        is_wait(watch.answer(report)),
    ensures
        ({
            let next = watch.after(report);
            &&& next.stage is Waiting
            &&& next.debounced ==> !next.debouncer.has_due(report.now_ms)
            &&& watch.answer(report) matches Some(
                ActionView::Wait { deadline_ms: Some(deadline_ms) },
            ) ==> report.now_ms < deadline_ms || deadline_ms == u64::MAX
        }),
{
    let terminated = report.terminated;
    let now_ms = report.now_ms;
    lemma_settled(watch, terminated, now_ms);
    if let InputView::Raw { event } = report.input {
        lemma_settled(watch.buffering(event, now_ms), terminated, now_ms);
    }
    lemma_deadline_is_first_due(watch.after(report).debouncer, now_ms);
}

/// A registration that fails ends the watch at once, with a setup error that
/// names the path and carries the failure text unchanged.
pub proof fn lemma_failed_registration_aborts(
    watch: LoopView,
    terminated: bool,
    now_ms: u64,
    message: Seq<char>,
)
    requires
        watch.stage is Registering,
    ensures
        ({
            let path = watch.stage->Registering_path;
            let error = WatchErrorView::Setup { path: Some(path), message };
            &&& watch.step(terminated, now_ms, InputView::RegisterFailed { message }).stage
                == StageView::Failed { error }
            &&& watch.reply(terminated, now_ms, InputView::RegisterFailed { message }) == Some(
                ActionView::Finish { outcome: OutcomeView::Failed { error } },
            )
        }),
{
}

/// A backend that cannot be built ends the watch at once, with a setup error
/// that carries the failure text unchanged.
pub proof fn lemma_failed_construction_aborts(
    watch: LoopView,
    terminated: bool,
    now_ms: u64,
    message: Seq<char>,
)
    requires
        watch.stage is Constructing,
    ensures
        ({
            let error = WatchErrorView::Setup { path: None, message };
            &&& watch.step(terminated, now_ms, InputView::ConstructFailed { message }).stage
                == StageView::Failed { error }
            &&& watch.reply(terminated, now_ms, InputView::ConstructFailed { message }) == Some(
                ActionView::Finish { outcome: OutcomeView::Failed { error } },
            )
        }),
{
}

/// Paths are registered in the order of the request, one at a time, and the
/// loop is entered only when none is left.
pub proof fn lemma_registration_goes_in_order(
    watch: LoopView,
    terminated: bool,
    now_ms: u64,
    input: InputView,
)
    requires
        (watch.stage is Constructing && input is Constructed) || (watch.stage is Registering
            && input is Registered),
    ensures
        ({
            let next = watch.step(terminated, now_ms, input);
            &&& watch.unregistered.len() > 0 ==> {
                &&& next.stage == StageView::Registering { path: watch.unregistered[0] }
                &&& next.unregistered == watch.unregistered.drop_first()
            }
            &&& watch.unregistered.len() == 0 ==> !next.stage.in_setup()
        }),
{
    lemma_settled(watch, terminated, now_ms);
}

/// Once the loop has run, no report makes it as if it had not.
pub proof fn lemma_running_is_not_undone(watch: LoopView, report: Report)
    requires
        !watch.never_ran(),
    ensures
        !watch.after(report).never_ran(),
{
    lemma_settled(watch, report.terminated, report.now_ms);
    if let InputView::Raw { event } = report.input {
        lemma_settled(watch.buffering(event, report.now_ms), report.terminated, report.now_ms);
    }
}

/// If a watch ends with a setup error, no event was ever delivered: no
/// report of the whole run was answered by a delivery.
pub proof fn lemma_failed_setup_delivers_nothing(watch: LoopView, reports: Seq<Report>, at: int)
    requires
        watch.run(reports).never_ran(),
        0 <= at < reports.len(),
    ensures
        !is_delivery(watch.run(reports.take(at)).answer(reports[at])),
    decreases reports.len(),
{
    let head = reports.drop_last();
    if at == reports.len() - 1 {
        assert(reports.take(at) =~= head);
    } else {
        let before = watch.run(head);
        if !before.never_ran() {
            lemma_running_is_not_undone(before, reports.last());
        }
        assert(head.take(at) =~= reports.take(at));
        lemma_failed_setup_delivers_nothing(watch, head, at);
    }
}


/// A run that has reached an end stays there, whatever is reported after.
pub proof fn lemma_run_stays_at_its_end(watch: LoopView, reports: Seq<Report>, ended: int)
    requires
        0 <= ended <= reports.len(),
        watch.run(reports.take(ended)).stage.is_terminal(),
    ensures
        watch.run(reports) == watch.run(reports.take(ended)),
    decreases reports.len(),
{
    if ended == reports.len() {
        assert(reports.take(ended) =~= reports);
    } else {
        let head = reports.drop_last();
        assert(head.take(ended) =~= reports.take(ended));
        lemma_run_stays_at_its_end(watch, head, ended);
    }
}

/// If any path of a request fails to register, the watch returns a setup
/// error that names that path, and no event is ever delivered: neither
/// before the failure nor after it.
pub proof fn lemma_failed_registration_is_the_end(
    request: WatchRequest,
    reports: Seq<Report>,
    at: int,
    message: Seq<char>,
)
    requires
        0 <= at < reports.len(),
        LoopView::initial(request).run(reports.take(at)).stage is Registering,
        reports[at].input == (InputView::RegisterFailed { message }),
    ensures
        ({
            let begun = LoopView::initial(request);
            let path = begun.run(reports.take(at)).stage->Registering_path;
            let error = WatchErrorView::Setup { path: Some(path), message };
            &&& begun.run(reports.take(at)).answer(reports[at]) == Some(
                ActionView::Finish { outcome: OutcomeView::Failed { error } },
            )
            &&& begun.run(reports).stage == StageView::Failed { error }
            &&& forall|k: int|
                0 <= k < reports.len() ==> !is_delivery(
                    #[trigger] begun.run(reports.take(k)).answer(reports[k]),
                )
        }),
{
    let begun = LoopView::initial(request);
    let failing = begun.run(reports.take(at));
    let upto = reports.take(at + 1);
    assert(upto.drop_last() =~= reports.take(at));
    assert(upto.last() == reports[at]);
    assert(begun.run(upto) == failing.after(reports[at]));
    lemma_run_stays_at_its_end(begun, reports, at + 1);
    assert forall|k: int| 0 <= k < reports.len() implies !is_delivery(
        #[trigger] begun.run(reports.take(k)).answer(reports[k]),
    ) by {
        lemma_failed_setup_delivers_nothing(begun, reports, k);
    }
}

/// The reports of a run of raw events that each end a wait, with the
/// termination flag unset: the `i`-th event is received at the `i`-th time.
pub open spec fn raw_reports(events: Seq<RawEventView>, times: Seq<u64>) -> Seq<Report> {
    Seq::new(
        events.len(),
        |i: int|
            Report {
                terminated: false,
                now_ms: times[i],
                input: InputView::Raw { event: events[i] },
            },
    )
}

/// The burst that a raw event on the single path `path` opens when received
/// at `now_ms`.
pub open spec fn sighted(path: Seq<char>, event: RawEventView, now_ms: u64) -> BurstView {
    sighting(path, event.kind, event.description, now_ms)
}

/// A raw event on a single path is taken in as one sighting of that path.
proof fn lemma_single_path_buffering(
    watch: LoopView,
    event: RawEventView,
    path: Seq<char>,
    now_ms: u64,
)
    requires
        event.paths == seq![path],
    ensures
        watch.buffering(event, now_ms) == (LoopView {
            debouncer: watch.debouncer.recorded(sighted(path, event, now_ms)),
            ..watch
        }),
{
    let all = sightings(event, now_ms);
    assert(all =~= seq![sighted(path, event, now_ms)]);
    assert(all.drop_last() =~= Seq::<BurstView>::empty());
    assert(recorded_all(watch.debouncer, all.drop_last()) == watch.debouncer);
    assert(recorded_all(watch.debouncer, all) == recorded_all(
        watch.debouncer,
        all.drop_last(),
    ).recorded(all.last()));
}

/// With a single burst in the queue and no flag against it, the top of an
/// iteration delivers the burst if it is quiet and waits for it if not.
proof fn lemma_single_burst_settles(watch: LoopView, burst: BurstView, now_ms: u64)
    requires
        watch.debounced,
        watch.debouncer.pending == seq![burst],
        !watch.policy.ignore_remove,
        !watch.rules_out(burst),
    ensures
        burst.is_quiet(now_ms, watch.debouncer.window_ms) ==> watch.settled(false, now_ms) == (
        LoopView {
            stage: StageView::Delivering { event: coalesced(burst.path, burst.description) },
            debouncer: DebouncerView { pending: Seq::empty(), ..watch.debouncer },
            ..watch
        }),
        !burst.is_quiet(now_ms, watch.debouncer.window_ms) ==> watch.settled(false, now_ms)
            == watch.at(StageView::Waiting),
        watch.debouncer.next_deadline() == Some(burst.deadline(watch.debouncer.window_ms)),
{
    let pending = watch.debouncer.pending;
    let window_ms = watch.debouncer.window_ms;
    if burst.is_quiet(now_ms, window_ms) {
        lemma_first_due(pending, now_ms, window_ms, 0);
        assert(pending.remove(0) =~= Seq::<BurstView>::empty());
    } else {
        lemma_first_due(pending, now_ms, window_ms, 1);
    }
    assert(pending.drop_last() =~= Seq::<BurstView>::empty());
    assert(earliest_deadline(pending.drop_last(), window_ms) is None);
}

/// With nothing in the queue, the top of an iteration waits without a deadline.
proof fn lemma_empty_queue_settles(watch: LoopView, now_ms: u64)
    requires
        watch.debouncer.pending.len() == 0,
    ensures
        watch.settled(false, now_ms) == watch.at(StageView::Waiting),
        watch.debouncer.next_deadline() is None,
{
}

/// A burst on one path ends in one delivery, and not before its quiet period.
///
/// Take a watch that debounces, waits with an empty queue, and has no flag
/// set that could hold the burst back. Let raw events on one path end its
/// waits, all received within one window. Then every one of them is answered
/// by another wait. Afterwards the queue holds one burst, with the kind and
/// text of the last event. A wait that ends before a whole window has passed
/// since the last event is answered by another wait for that moment. A wait
/// that ends later is answered by the delivery of the burst: no tags, the
/// one path, the text of the last raw kind. That empties the queue, so when
/// the callback has returned the watch waits again with nothing pending.
pub proof fn lemma_burst_is_delivered_once(
    watch: LoopView,
    path: Seq<char>,
    events: Seq<RawEventView>,
    times: Seq<u64>,
    now_ms: u64,
)
    requires
        watch.stage is Waiting,
        watch.debounced,
        watch.debouncer.pending.len() == 0,
        !watch.policy.ignore_remove,
        !(watch.policy.ignore_access && category_of(events.last().kind) == Some(
            WatchatEvent::Access,
        )),
        events.len() == times.len(),
        events.len() >= 1,
        forall|i: int| 0 <= i < events.len() ==> (#[trigger] events[i]).paths == seq![path],
        forall|i: int, j: int|
            #![trigger times[i], times[j]]
            0 <= i < times.len() && 0 <= j < times.len() ==> times[j] - times[i]
                < watch.debouncer.window_ms,
    ensures
        ({
            let reports = raw_reports(events, times);
            let after = watch.run(reports);
            let burst = sighted(path, events.last(), times.last());
            let window_ms = watch.debouncer.window_ms;
            let delivered = after.step(false, now_ms, InputView::TimedOut);
            &&& forall|k: int|
                0 <= k < reports.len() ==> is_wait(
                    #[trigger] watch.run(reports.take(k)).answer(reports[k]),
                )
            &&& after == (LoopView {
                debouncer: DebouncerView { pending: seq![burst], ..watch.debouncer },
                ..watch
            })
            &&& now_ms < times.last() + window_ms ==> after.reply(
                false,
                now_ms,
                InputView::TimedOut,
            ) == Some(ActionView::Wait { deadline_ms: Some(burst.deadline(window_ms)) })
            &&& now_ms >= times.last() + window_ms ==> {
                &&& after.reply(false, now_ms, InputView::TimedOut) == Some(
                    ActionView::Deliver { event: coalesced(path, events.last().description) },
                )
                &&& delivered.debouncer.pending.len() == 0
                &&& forall|later_ms: u64| #[trigger]
                    delivered.step(false, later_ms, InputView::Delivered) == (LoopView {
                        debouncer: DebouncerView { pending: Seq::empty(), ..watch.debouncer },
                        ..watch
                    })
            }
        }),
{
    let reports = raw_reports(events, times);
    let burst = sighted(path, events.last(), times.last());
    lemma_burst_waits(watch, path, events, times);
    let after = watch.run(reports);
    lemma_single_burst_settles(after, burst, now_ms);
    let delivered = after.step(false, now_ms, InputView::TimedOut);
    if now_ms >= times.last() + watch.debouncer.window_ms {
        assert forall|later_ms: u64| #[trigger]
            delivered.step(false, later_ms, InputView::Delivered) == (LoopView {
                debouncer: DebouncerView { pending: Seq::empty(), ..watch.debouncer },
                ..watch
            }) by {
            lemma_empty_queue_settles(delivered, later_ms);
        }
    }
}

/// Where removals are ignored, a burst on one path ends in one lookup, and in
/// one delivery if the path is found.
///
/// Take a watch as in [`lemma_burst_is_delivered_once`], but with removals
/// ignored. The raw events are again answered by waits. A wait that ends
/// after the quiet period is answered by the lookup of the path. If the path
/// exists, the lookup is answered by the delivery of the burst; if it does
/// not, by a wait, and nothing is delivered. Either way the queue is empty.
pub proof fn lemma_burst_is_looked_up_once(
    watch: LoopView,
    path: Seq<char>,
    events: Seq<RawEventView>,
    times: Seq<u64>,
    now_ms: u64,
    later_ms: u64,
    present: bool,
)
    requires
        watch.stage is Waiting,
        watch.debounced,
        watch.debouncer.pending.len() == 0,
        watch.policy.ignore_remove,
        !(watch.policy.ignore_access && category_of(events.last().kind) == Some(
            WatchatEvent::Access,
        )),
        events.len() == times.len(),
        events.len() >= 1,
        forall|i: int| 0 <= i < events.len() ==> (#[trigger] events[i]).paths == seq![path],
        forall|i: int, j: int|
            #![trigger times[i], times[j]]
            0 <= i < times.len() && 0 <= j < times.len() ==> times[j] - times[i]
                < watch.debouncer.window_ms,
        now_ms >= times.last() + watch.debouncer.window_ms,
    ensures
        ({
            let reports = raw_reports(events, times);
            let after = watch.run(reports);
            let probing = after.step(false, now_ms, InputView::TimedOut);
            let probed = InputView::Probed { present };
            &&& forall|k: int|
                0 <= k < reports.len() ==> is_wait(
                    #[trigger] watch.run(reports.take(k)).answer(reports[k]),
                )
            &&& after.reply(false, now_ms, InputView::TimedOut) == Some(
                ActionView::Probe { path },
            )
            &&& probing.debouncer.pending.len() == 0
            &&& present ==> probing.reply(false, later_ms, probed) == Some(
                ActionView::Deliver { event: coalesced(path, events.last().description) },
            )
            &&& !present ==> probing.reply(false, later_ms, probed) == Some(
                ActionView::Wait { deadline_ms: None },
            )
        }),
{
    let reports = raw_reports(events, times);
    let burst = sighted(path, events.last(), times.last());
    lemma_burst_waits(watch, path, events, times);
    let after = watch.run(reports);
    lemma_first_due(after.debouncer.pending, now_ms, after.debouncer.window_ms, 0);
    assert(after.debouncer.pending.remove(0) =~= Seq::<BurstView>::empty());
    let probing = after.step(false, now_ms, InputView::TimedOut);
    assert(probing.stage == StageView::Probing { burst });
    lemma_empty_queue_settles(probing, later_ms);
}

/// While raw events on one path keep arriving within one window, the watch
/// keeps waiting and its queue holds the one burst that the last of them
/// left. No flag plays a part in this.
proof fn lemma_burst_waits(
    watch: LoopView,
    path: Seq<char>,
    events: Seq<RawEventView>,
    times: Seq<u64>,
)
    requires
        watch.stage is Waiting,
        watch.debounced,
        watch.debouncer.pending.len() == 0,
        events.len() == times.len(),
        events.len() >= 1,
        forall|i: int| 0 <= i < events.len() ==> (#[trigger] events[i]).paths == seq![path],
        forall|i: int, j: int|
            #![trigger times[i], times[j]]
            0 <= i < times.len() && 0 <= j < times.len() ==> times[j] - times[i]
                < watch.debouncer.window_ms,
    ensures
        ({
            let reports = raw_reports(events, times);
            let burst = sighted(path, events.last(), times.last());
            &&& forall|k: int|
                0 <= k < reports.len() ==> is_wait(
                    #[trigger] watch.run(reports.take(k)).answer(reports[k]),
                )
            &&& watch.run(reports) == (LoopView {
                debouncer: DebouncerView { pending: seq![burst], ..watch.debouncer },
                ..watch
            })
        }),
    decreases events.len(),
{
    let reports = raw_reports(events, times);
    let window_ms = watch.debouncer.window_ms;
    let burst = sighted(path, events.last(), times.last());
    let head = reports.drop_last();
    let report = reports.last();
    assert(report.input == InputView::Raw { event: events.last() });
    assert(report.now_ms == times.last());
    assert(times[times.len() - 1] - times[times.len() - 1] < window_ms);
    let before = watch.run(head);
    if events.len() == 1 {
        assert(head =~= Seq::<Report>::empty());
        assert(before == watch);
        assert(watch.debouncer.pending =~= Seq::<BurstView>::empty());
        assert(watch.debouncer.recorded(burst).pending =~= seq![burst]);
    } else {
        let earlier_events = events.drop_last();
        let earlier_times = times.drop_last();
        assert(head =~= raw_reports(earlier_events, earlier_times));
        assert forall|i: int| 0 <= i < earlier_events.len() implies (
        #[trigger] earlier_events[i]).paths == seq![path] by {
            assert(earlier_events[i] == events[i]);
        }
        assert forall|i: int, j: int|
            #![trigger earlier_times[i], earlier_times[j]]
            0 <= i < earlier_times.len() && 0 <= j < earlier_times.len() implies earlier_times[j]
            - earlier_times[i] < window_ms by {
            assert(earlier_times[i] == times[i] && earlier_times[j] == times[j]);
        }
        lemma_burst_waits(watch, path, earlier_events, earlier_times);
        let previous = sighted(path, earlier_events.last(), earlier_times.last());
        assert(earlier_times.last() == times[times.len() - 2]);
        assert(times[times.len() - 1] - times[times.len() - 2] < window_ms);
        lemma_last_of(seq![previous], path, 0);
        assert(seq![previous].update(0, burst) =~= seq![burst]);
        assert forall|k: int| 0 <= k < head.len() implies is_wait(
            #[trigger] watch.run(reports.take(k)).answer(reports[k]),
        ) by {
            assert(reports.take(k) =~= head.take(k));
            assert(reports[k] == head[k]);
        }
    }
    lemma_single_path_buffering(before, events.last(), path, times.last());
    let buffered = before.buffering(events.last(), times.last());
    assert(buffered.debouncer.pending == seq![burst]);
    lemma_quiet_later(buffered, burst, times.last());
    assert(reports.take(reports.len() - 1) =~= head);
}

/// A burst that was seen just now, under a window that is not zero, is not
/// quiet yet: the top of the iteration waits.
proof fn lemma_quiet_later(watch: LoopView, burst: BurstView, now_ms: u64)
    requires
        watch.debounced,
        watch.debouncer.pending == seq![burst],
        !burst.is_quiet(now_ms, watch.debouncer.window_ms),
    ensures
        watch.settled(false, now_ms) == watch.at(StageView::Waiting),
{
    lemma_first_due(watch.debouncer.pending, now_ms, watch.debouncer.window_ms, 1);
}


/// Two raw events on one path that lie more than a window apart end in two
/// deliveries, even if the loop is not woken in between.
///
/// Take a watch that debounces, waits with an empty queue, and has no flag
/// set that could hold either event back. The first event is answered by a
/// wait for its quiet period (or, under a window of zero, by its delivery at
/// once). If the next thing the loop hears of is the second event, more than
/// a window later, the answer is the delivery of the first event alone, and
/// the second is left in the queue as a burst of its own. When the callback
/// has returned, the second is delivered in turn if its quiet period has
/// passed; otherwise the loop waits for exactly that moment, and a wait that
/// ends then or later is answered by the second delivery.
pub proof fn lemma_separated_events_are_delivered_apart(
    watch: LoopView,
    path: Seq<char>,
    first: RawEventView,
    first_ms: u64,
    second: RawEventView,
    second_ms: u64,
    later_ms: u64,
    last_ms: u64,
)
    requires
        watch.stage is Waiting,
        watch.debounced,
        watch.debouncer.pending.len() == 0,
        !watch.policy.ignore_remove,
        !(watch.policy.ignore_access && category_of(first.kind) == Some(WatchatEvent::Access)),
        !(watch.policy.ignore_access && category_of(second.kind) == Some(WatchatEvent::Access)),
        first.paths == seq![path],
        second.paths == seq![path],
        second_ms - first_ms > watch.debouncer.window_ms,
    ensures
        ({
            let window_ms = watch.debouncer.window_ms;
            let early = sighted(path, first, first_ms);
            let late = sighted(path, second, second_ms);
            let one = watch.step(false, first_ms, InputView::Raw { event: first });
            let two = one.step(false, second_ms, InputView::Raw { event: second });
            let three = two.step(false, later_ms, InputView::Delivered);
            &&& window_ms == 0 ==> {
                &&& watch.reply(false, first_ms, InputView::Raw { event: first }) == Some(
                    ActionView::Deliver { event: coalesced(path, first.description) },
                )
                &&& one.step(false, later_ms, InputView::Delivered) == watch
            }
            &&& window_ms > 0 ==> {
                &&& watch.reply(false, first_ms, InputView::Raw { event: first }) == Some(
                    ActionView::Wait { deadline_ms: Some(early.deadline(window_ms)) },
                )
                &&& one.reply(false, second_ms, InputView::Raw { event: second }) == Some(
                    ActionView::Deliver { event: coalesced(path, first.description) },
                )
                &&& two.debouncer.pending == seq![late]
                &&& later_ms >= second_ms + window_ms ==> two.reply(
                    false,
                    later_ms,
                    InputView::Delivered,
                ) == Some(ActionView::Deliver { event: coalesced(path, second.description) })
                &&& later_ms < second_ms + window_ms ==> {
                    &&& two.reply(false, later_ms, InputView::Delivered) == Some(
                        ActionView::Wait { deadline_ms: Some(late.deadline(window_ms)) },
                    )
                    &&& last_ms >= second_ms + window_ms ==> three.reply(
                        false,
                        last_ms,
                        InputView::TimedOut,
                    ) == Some(ActionView::Deliver { event: coalesced(path, second.description) })
                }
            }
        }),
{
    let window_ms = watch.debouncer.window_ms;
    let early = sighted(path, first, first_ms);
    let late = sighted(path, second, second_ms);
    assert(watch.debouncer.pending =~= Seq::<BurstView>::empty());
    // The first event.
    lemma_single_path_buffering(watch, first, path, first_ms);
    let heard = watch.buffering(first, first_ms);
    assert(watch.debouncer.recorded(early).pending =~= seq![early]);
    lemma_single_burst_settles(heard, early, first_ms);
    let one = watch.step(false, first_ms, InputView::Raw { event: first });
    if window_ms == 0 {
        lemma_empty_queue_settles(one, later_ms);
    } else {
        assert(one == heard.at(StageView::Waiting));
        // The second event finds the first burst quiet and opens its own.
        lemma_single_path_buffering(one, second, path, second_ms);
        lemma_last_of(seq![early], path, 0);
        let both = one.buffering(second, second_ms);
        assert(both.debouncer.pending =~= seq![early, late]);
        lemma_first_due(both.debouncer.pending, second_ms, window_ms, 0);
        assert(both.debouncer.pending.remove(0) =~= seq![late]);
        let two = one.step(false, second_ms, InputView::Raw { event: second });
        assert(two.debouncer.pending == seq![late]);
        // After the first delivery.
        lemma_single_burst_settles(two, late, later_ms);
        if later_ms < second_ms + window_ms {
            let three = two.step(false, later_ms, InputView::Delivered);
            lemma_single_burst_settles(three, late, last_ms);
        }
    }
}

} // verus!
