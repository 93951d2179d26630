//! The watch loop as a state machine.
//!
//! The loop itself does no waiting and no I/O. It is told what happened (an
//! [`Input`]) and answers with what to do next (an [`Action`]); whoever drives
//! it performs the action and reports back. Each report comes with a fresh
//! reading of the termination flag and of the clock.
//!
//! A watch passes through three phases. During setup the backend is built and
//! the paths are registered one by one; any failure ends the watch before it
//! runs. While running, the loop waits, filters what arrives and has it
//! delivered. It ends cancelled or failed, and then accepts nothing more.

use vstd::prelude::*;
use crate::debounce::{recorded_all, sighting, Burst, BurstView, Debouncer, DebouncerView};
use crate::error::{WatchError, WatchErrorView};
use crate::event::{category_of, WatchatEvent};
use crate::kind::EventKind;
use crate::record::{
    classified, coalesced, NormalizedEvent, NormalizedEventView, RawEvent, RawEventView,
};
use crate::request::{Backend, FilterPolicy, Scope, WatchRequest};

verus! {

/// What the driver reports to the loop.
#[derive(Debug, PartialEq, Eq)]
pub enum Input {
    /// Nothing has been done yet; the watch begins.
    Start,
    /// The backend was built.
    Constructed,
    /// The backend could not be built.
    ConstructFailed { message: String },
    /// The path was registered.
    Registered,
    /// The path could not be registered.
    RegisterFailed { message: String },
    /// The wait ended because cancellation was signalled.
    Control,
    /// The wait ended because the event source produced a raw event.
    Raw { event: RawEvent },
    /// The wait ended because the event source produced an error.
    SourceError { message: String },
    /// The wait ended because a channel was found disconnected.
    Disconnected { message: String },
    /// The wait ended because its deadline passed.
    TimedOut,
    /// The path was looked up on disk.
    Probed { present: bool },
    /// The callback returned normally.
    Delivered,
    /// The callback signalled failure.
    CallbackFailed { message: String },
}

/// The mathematical content of an [`Input`].
pub enum InputView {
    Start,
    Constructed,
    ConstructFailed { message: Seq<char> },
    Registered,
    RegisterFailed { message: Seq<char> },
    Control,
    Raw { event: RawEventView },
    SourceError { message: Seq<char> },
    Disconnected { message: Seq<char> },
    TimedOut,
    Probed { present: bool },
    Delivered,
    CallbackFailed { message: Seq<char> },
}

impl View for Input {
    type V = InputView;

    open spec fn view(&self) -> InputView {
        match self {
            Input::Start => InputView::Start,
            Input::Constructed => InputView::Constructed,
            Input::ConstructFailed { message } => InputView::ConstructFailed { message: message@ },
            Input::Registered => InputView::Registered,
            Input::RegisterFailed { message } => InputView::RegisterFailed { message: message@ },
            Input::Control => InputView::Control,
            Input::Raw { event } => InputView::Raw { event: event@ },
            Input::SourceError { message } => InputView::SourceError { message: message@ },
            Input::Disconnected { message } => InputView::Disconnected { message: message@ },
            Input::TimedOut => InputView::TimedOut,
            Input::Probed { present } => InputView::Probed { present: *present },
            Input::Delivered => InputView::Delivered,
            Input::CallbackFailed { message } => InputView::CallbackFailed { message: message@ },
        }
    }
}

/// How a watch ended.
#[derive(Debug, PartialEq, Eq)]
pub enum Outcome {
    /// Cancellation was requested: a clean end.
    Cancelled,
    /// The watch failed with this error.
    Failed { error: WatchError },
}

/// The mathematical content of an [`Outcome`].
pub enum OutcomeView {
    Cancelled,
    Failed { error: WatchErrorView },
}

impl View for Outcome {
    type V = OutcomeView;

    open spec fn view(&self) -> OutcomeView {
        match self {
            Outcome::Cancelled => OutcomeView::Cancelled,
            Outcome::Failed { error } => OutcomeView::Failed { error: error@ },
        }
    }
}

/// What the loop asks the driver to do next.
#[derive(Debug, PartialEq, Eq)]
pub enum Action {
    /// Build this backend; report `Constructed` or `ConstructFailed`.
    Construct { backend: Backend },
    /// Register this path with the backend; report `Registered` or `RegisterFailed`.
    Register { path: String, scope: Scope },
    /// Block until cancellation is signalled, the event source produces
    /// something, or the clock reaches the deadline. No deadline: no limit.
    Wait { deadline_ms: Option<u64> },
    /// Look up whether this path exists on disk; report `Probed`.
    Probe { path: String },
    /// Hand this event to the callback; report `Delivered` or `CallbackFailed`.
    Deliver { event: NormalizedEvent },
    /// Return to the caller: the watch is over.
    Finish { outcome: Outcome },
}

/// The mathematical content of an [`Action`].
pub enum ActionView {
    Construct { backend: Backend },
    Register { path: Seq<char>, scope: Scope },
    Wait { deadline_ms: Option<u64> },
    Probe { path: Seq<char> },
    Deliver { event: NormalizedEventView },
    Finish { outcome: OutcomeView },
}

impl View for Action {
    type V = ActionView;

    open spec fn view(&self) -> ActionView {
        match self {
            Action::Construct { backend } => ActionView::Construct { backend: *backend },
            Action::Register { path, scope } => ActionView::Register { path: path@, scope: *scope },
            Action::Wait { deadline_ms } => ActionView::Wait { deadline_ms: *deadline_ms },
            Action::Probe { path } => ActionView::Probe { path: path@ },
            Action::Deliver { event } => ActionView::Deliver { event: event@ },
            Action::Finish { outcome } => ActionView::Finish { outcome: outcome@ },
        }
    }
}

impl Action {
    /// Whether the host's lock must be held while the action is performed.
    /// Only a delivery runs under the lock; everything that can block or
    /// touch the disk runs without it.
    pub fn needs_host_lock(&self) -> (needed: bool)
        ensures
            needed == (self@ is Deliver),
    {
        match self {
            Action::Deliver { .. } => true,
            _ => false,
        }
    }
}

/// The view of an action that may be absent.
pub open spec fn reply_view(action: Option<Action>) -> Option<ActionView> {
    match action {
        Some(a) => Some(a@),
        None => None,
    }
}

/// Where a watch stands.
#[derive(Debug, PartialEq, Eq)]
pub enum Stage {
    /// Not begun.
    Created,
    /// The backend is being built.
    Constructing,
    /// This path is being registered.
    Registering { path: String },
    /// Blocked in the wait.
    Waiting,
    /// This burst awaits the lookup of its path.
    Probing { burst: Burst },
    /// This event is with the callback.
    Delivering { event: NormalizedEvent },
    /// Ended by cancellation.
    Cancelled,
    /// Ended by this error.
    Failed { error: WatchError },
}

/// The mathematical content of a [`Stage`].
pub enum StageView {
    Created,
    Constructing,
    Registering { path: Seq<char> },
    Waiting,
    Probing { burst: BurstView },
    Delivering { event: NormalizedEventView },
    Cancelled,
    Failed { error: WatchErrorView },
}

impl View for Stage {
    type V = StageView;

    open spec fn view(&self) -> StageView {
        match self {
            Stage::Created => StageView::Created,
            Stage::Constructing => StageView::Constructing,
            Stage::Registering { path } => StageView::Registering { path: path@ },
            Stage::Waiting => StageView::Waiting,
            Stage::Probing { burst } => StageView::Probing { burst: burst@ },
            Stage::Delivering { event } => StageView::Delivering { event: event@ },
            Stage::Cancelled => StageView::Cancelled,
            Stage::Failed { error } => StageView::Failed { error: error@ },
        }
    }
}

/// The phase a watch is in: setup, then running, then one of two ends.
#[derive(Clone, Copy, Debug, PartialEq, Eq, Structural)]
pub enum Phase {
    Setup,
    Running,
    Cancelled,
    Failed,
}

impl StageView {
    /// Setup: before the loop runs.
    pub open spec fn in_setup(self) -> bool {
        self is Created || self is Constructing || self is Registering
    }

    /// Running: the loop waits, filters and delivers.
    pub open spec fn is_running(self) -> bool {
        self is Waiting || self is Probing || self is Delivering
    }

    /// Ended, one way or the other.
    pub open spec fn is_terminal(self) -> bool {
        self is Cancelled || self is Failed
    }

    /// The phase that the stage belongs to.
    pub open spec fn phase(self) -> Phase {
        match self {
            StageView::Created | StageView::Constructing | StageView::Registering { .. } => {
                Phase::Setup
            },
            StageView::Waiting | StageView::Probing { .. } | StageView::Delivering { .. } => {
                Phase::Running
            },
            StageView::Cancelled => Phase::Cancelled,
            StageView::Failed { .. } => Phase::Failed,
        }
    }
}

/// The mathematical content of a [`WatchLoop`].
pub struct LoopView {
    /// The scope under which paths are registered.
    pub scope: Scope,
    /// The backend the watch runs on.
    pub backend: Backend,
    /// The ignore flags.
    pub policy: FilterPolicy,
    /// Whether raw events are coalesced before delivery.
    pub debounced: bool,
    /// The paths that are still to be registered, in order.
    pub unregistered: Seq<Seq<char>>,
    /// Where the watch stands.
    pub stage: StageView,
    /// The bursts that await their quiet period.
    pub debouncer: DebouncerView,
}

/// The bursts that one raw event opens or joins: one per affected path, all
/// with the event's kind and text and the time it was received.
pub open spec fn sightings(event: RawEventView, now_ms: u64) -> Seq<BurstView> {
    event.paths.map_values(|path: Seq<char>| sighting(path, event.kind, event.description, now_ms))
}

impl LoopView {
    /// The watch as it stands before it begins.
    pub open spec fn initial(request: WatchRequest) -> LoopView {
        LoopView {
            scope: request.scope_of(),
            backend: request.backend_of(),
            policy: request.policy_of(),
            debounced: request.window_of() is Some,
            unregistered: request.paths.deep_view(),
            stage: StageView::Created,
            debouncer: DebouncerView {
                window_ms: request.window_of().unwrap_or(0),
                pending: Seq::empty(),
            },
        }
    }

    /// The same watch at another stage.
    pub open spec fn at(self, stage: StageView) -> LoopView {
        LoopView { stage, ..self }
    }

    /// Whether `input` answers what the watch is waiting for at its stage.
    pub open spec fn accepts(self, input: InputView) -> bool {
        match self.stage {
            StageView::Created => input is Start,
            StageView::Constructing => input is Constructed || input is ConstructFailed,
            StageView::Registering { .. } => input is Registered || input is RegisterFailed,
            StageView::Waiting => {
                ||| input is Control
                ||| input is Raw
                ||| input is SourceError
                ||| input is Disconnected
                ||| input is TimedOut
            },
            StageView::Probing { .. } => input is Probed,
            StageView::Delivering { .. } => input is Delivered || input is CallbackFailed,
            StageView::Cancelled | StageView::Failed { .. } => false,
        }
    }

    /// Whether the last raw kind of a coalesced burst alone rules the burst out.
    pub open spec fn rules_out(self, burst: BurstView) -> bool {
        self.policy.ignore_access && category_of(burst.kind) == Some(WatchatEvent::Access)
    }

    /// The top of an iteration: with nothing in hand, decide what comes next.
    /// A set termination flag ends the watch. Otherwise the first quiet burst
    /// that its last raw kind does not rule out is taken from the queue, to
    /// be looked up on disk where removals are ignored and to be delivered
    /// where they are not. With no such burst, the loop waits.
    pub open spec fn settled(self, terminated: bool, now_ms: u64) -> LoopView
        decreases self.debouncer.pending.len(),
    {
        if terminated {
            self.at(StageView::Cancelled)
        } else if self.debounced && self.debouncer.has_due(now_ms) {
            let burst = self.debouncer.due(now_ms);
            let rest = LoopView { debouncer: self.debouncer.without_due(now_ms), ..self };
            if self.rules_out(burst) {
                rest.settled(terminated, now_ms)
            } else if self.policy.ignore_remove {
                rest.at(StageView::Probing { burst })
            } else {
                rest.at(StageView::Delivering { event: coalesced(burst.path, burst.description) })
            }
        } else {
            self.at(StageView::Waiting)
        }
    }

    /// After the backend is built or a path is registered: on to the next
    /// path, or into the loop when none is left.
    pub open spec fn registering_next(self, terminated: bool, now_ms: u64) -> LoopView {
        if self.unregistered.len() > 0 {
            LoopView {
                unregistered: self.unregistered.drop_first(),
                stage: StageView::Registering { path: self.unregistered.first() },
                ..self
            }
        } else {
            self.settled(terminated, now_ms)
        }
    }

    /// The watch with one raw event taken into its queue of bursts.
    pub open spec fn buffering(self, event: RawEventView, now_ms: u64) -> LoopView {
        LoopView { debouncer: recorded_all(self.debouncer, sightings(event, now_ms)), ..self }
    }

    /// The watch after `input` was reported together with the reading
    /// `terminated` of the termination flag and `now_ms` of the clock. An
    /// input that the watch does not accept changes nothing.
    pub open spec fn step(self, terminated: bool, now_ms: u64, input: InputView) -> LoopView {
        match (self.stage, input) {
            (StageView::Created, InputView::Start) => self.at(StageView::Constructing),
            (StageView::Constructing, InputView::Constructed) => self.registering_next(
                terminated,
                now_ms,
            ),
            (StageView::Constructing, InputView::ConstructFailed { message }) => self.at(
                StageView::Failed { error: WatchErrorView::Setup { path: None, message } },
            ),
            (StageView::Registering { .. }, InputView::Registered) => self.registering_next(
                terminated,
                now_ms,
            ),
            (StageView::Registering { path }, InputView::RegisterFailed { message }) => self.at(
                StageView::Failed { error: WatchErrorView::Setup { path: Some(path), message } },
            ),
            (StageView::Waiting, InputView::Control) => self.at(StageView::Cancelled),
            (StageView::Waiting, InputView::Raw { event }) => {
                if self.debounced {
                    self.buffering(event, now_ms).settled(terminated, now_ms)
                } else if self.policy.admits_raw(event.kind) {
                    self.at(StageView::Delivering { event: classified(event) })
                } else {
                    self.settled(terminated, now_ms)
                }
            },
            (StageView::Waiting, InputView::SourceError { message }) => self.at(
                StageView::Failed { error: WatchErrorView::Channel { message } },
            ),
            (StageView::Waiting, InputView::Disconnected { message }) => self.at(
                StageView::Failed { error: WatchErrorView::Channel { message } },
            ),
            (StageView::Waiting, InputView::TimedOut) => self.settled(terminated, now_ms),
            (StageView::Probing { burst }, InputView::Probed { present }) => {
                if self.policy.admits_coalesced(burst.kind, present) {
                    self.at(
                        StageView::Delivering {
                            event: coalesced(burst.path, burst.description),
                        },
                    )
                } else {
                    self.settled(terminated, now_ms)
                }
            },
            (StageView::Delivering { .. }, InputView::Delivered) => self.settled(
                terminated,
                now_ms,
            ),
            (StageView::Delivering { .. }, InputView::CallbackFailed { message }) => self.at(
                StageView::Failed { error: WatchErrorView::Callback { message } },
            ),
            _ => self,
        }
    }

    /// What the watch asks of its driver at its stage. Before it has begun it
    /// asks nothing.
    pub open spec fn pending_action(self) -> Option<ActionView> {
        match self.stage {
            StageView::Created => None,
            StageView::Constructing => Some(ActionView::Construct { backend: self.backend }),
            StageView::Registering { path } => Some(
                ActionView::Register { path, scope: self.scope },
            ),
            StageView::Waiting => Some(
                ActionView::Wait {
                    deadline_ms: if self.debounced {
                        self.debouncer.next_deadline()
                    } else {
                        None
                    },
                },
            ),
            StageView::Probing { burst } => Some(ActionView::Probe { path: burst.path }),
            StageView::Delivering { event } => Some(ActionView::Deliver { event }),
            StageView::Cancelled => Some(ActionView::Finish { outcome: OutcomeView::Cancelled }),
            StageView::Failed { error } => Some(
                ActionView::Finish { outcome: OutcomeView::Failed { error } },
            ),
        }
    }

    /// The answer to a report: the next action where the input is accepted,
    /// nothing where it is not.
    pub open spec fn reply(self, terminated: bool, now_ms: u64, input: InputView) -> Option<
        ActionView,
    > {
        if self.accepts(input) {
            self.step(terminated, now_ms, input).pending_action()
        } else {
            None
        }
    }
}

/// What comes next at the top of an iteration does not depend on the stage
/// the watch was at before.
pub proof fn lemma_settled_forgets_stage(
    watch: LoopView,
    stage: StageView,
    terminated: bool,
    now_ms: u64,
)
    ensures
        watch.at(stage).settled(terminated, now_ms) == watch.settled(terminated, now_ms),
    decreases watch.debouncer.pending.len(),
{
    if !terminated && watch.debounced && watch.debouncer.has_due(now_ms) {
        let burst = watch.debouncer.due(now_ms);
        let rest = LoopView { debouncer: watch.debouncer.without_due(now_ms), ..watch };
        if watch.rules_out(burst) {
            lemma_settled_forgets_stage(rest, stage, terminated, now_ms);
            assert(rest.at(stage) == (LoopView {
                debouncer: watch.debouncer.without_due(now_ms),
                ..watch.at(stage)
            }));
        }
    }
}

/// Neither the top of an iteration nor the next registration depends on the
/// stage the watch was at before.
proof fn lemma_next_forgets_stage(watch: LoopView, stage: StageView, terminated: bool, now_ms: u64)
    ensures
        watch.at(stage).settled(terminated, now_ms) == watch.settled(terminated, now_ms),
        watch.at(stage).registering_next(terminated, now_ms) == watch.registering_next(
            terminated,
            now_ms,
        ),
        forall|event: RawEventView| #[trigger]
            watch.at(stage).buffering(event, now_ms) == watch.buffering(event, now_ms).at(stage),
{
    lemma_settled_forgets_stage(watch, stage, terminated, now_ms);
}

/// One watch: its fixed configuration, its stage and its queue of bursts.
pub struct WatchLoop {
    scope: Scope,
    backend: Backend,
    policy: FilterPolicy,
    debounced: bool,
    unregistered: Vec<String>,
    stage: Stage,
    debouncer: Debouncer,
}

impl View for WatchLoop {
    type V = LoopView;

    closed spec fn view(&self) -> LoopView {
        LoopView {
            scope: self.scope,
            backend: self.backend,
            policy: self.policy,
            debounced: self.debounced,
            unregistered: self.unregistered.deep_view(),
            stage: self.stage@,
            debouncer: self.debouncer@,
        }
    }
}

impl WatchLoop {
    /// A watch for `request` that has not begun.
    pub fn new(request: WatchRequest) -> (watch: WatchLoop)
        ensures
            watch@ == LoopView::initial(request),
    {
        let scope = request.scope();
        let backend = request.backend();
        let policy = request.filters();
        let window = request.debounce_window();
        WatchLoop {
            scope,
            backend,
            policy,
            debounced: window.is_some(),
            unregistered: request.paths,
            stage: Stage::Created,
            debouncer: Debouncer::new(window.unwrap_or(0)),
        }
    }

    /// Whether `input` answers what the watch is waiting for.
    pub fn accepts(&self, input: &Input) -> (accepted: bool)
        ensures
            accepted == self@.accepts(input@),
    {
        match (&self.stage, input) {
            (Stage::Created, Input::Start) => true,
            (Stage::Constructing, Input::Constructed) => true,
            (Stage::Constructing, Input::ConstructFailed { .. }) => true,
            (Stage::Registering { .. }, Input::Registered) => true,
            (Stage::Registering { .. }, Input::RegisterFailed { .. }) => true,
            (Stage::Waiting, Input::Control) => true,
            (Stage::Waiting, Input::Raw { .. }) => true,
            (Stage::Waiting, Input::SourceError { .. }) => true,
            (Stage::Waiting, Input::Disconnected { .. }) => true,
            (Stage::Waiting, Input::TimedOut) => true,
            (Stage::Probing { .. }, Input::Probed { .. }) => true,
            (Stage::Delivering { .. }, Input::Delivered) => true,
            (Stage::Delivering { .. }, Input::CallbackFailed { .. }) => true,
            _ => false,
        }
    }

    /// Where the watch stands.
    pub fn stage(&self) -> (stage: &Stage)
        ensures
            stage@ == self@.stage,
    {
        &self.stage
    }

    /// The phase the watch is in.
    pub fn phase(&self) -> (phase: Phase)
        ensures
            phase == self@.stage.phase(),
    {
        match &self.stage {
            Stage::Created => Phase::Setup,
            Stage::Constructing => Phase::Setup,
            Stage::Registering { .. } => Phase::Setup,
            Stage::Waiting => Phase::Running,
            Stage::Probing { .. } => Phase::Running,
            Stage::Delivering { .. } => Phase::Running,
            Stage::Cancelled => Phase::Cancelled,
            Stage::Failed { .. } => Phase::Failed,
        }
    }

    /// Whether the watch has ended.
    pub fn is_finished(&self) -> (finished: bool)
        ensures
            finished == self@.stage.is_terminal(),
    {
        match &self.stage {
            Stage::Cancelled => true,
            Stage::Failed { .. } => true,
            _ => false,
        }
    }

    /// What the watch asks of its driver right now.
    pub fn pending_action(&self) -> (action: Option<Action>)
        ensures
            reply_view(action) == self@.pending_action(),
    {
        match &self.stage {
            Stage::Created => None,
            Stage::Constructing => Some(Action::Construct { backend: self.backend }),
            Stage::Registering { path } => Some(
                Action::Register { path: path.clone(), scope: self.scope },
            ),
            Stage::Waiting => {
                let deadline_ms = if self.debounced {
                    self.debouncer.next_deadline()
                } else {
                    None
                };
                Some(Action::Wait { deadline_ms })
            },
            Stage::Probing { burst } => Some(Action::Probe { path: burst.path.clone() }),
            Stage::Delivering { event } => Some(Action::Deliver { event: event.clone() }),
            Stage::Cancelled => Some(Action::Finish { outcome: Outcome::Cancelled }),
            Stage::Failed { error } => Some(
                Action::Finish { outcome: Outcome::Failed { error: error.clone() } },
            ),
        }
    }

    /// Takes in one report and answers with the next action. The answer is
    /// `None`, and nothing changes, where `input` does not answer what the
    /// watch was waiting for.
    pub fn step(&mut self, terminated: bool, now_ms: u64, input: Input) -> (action: Option<Action>)
        ensures
            final(self)@ == old(self)@.step(terminated, now_ms, input@),
            reply_view(action) == old(self)@.reply(terminated, now_ms, input@),
    {
        if !self.accepts(&input) {
            return None;
        }
        let mut stage = Stage::Created;
        core::mem::swap(&mut self.stage, &mut stage);
        assert(self@ == old(self)@.at(StageView::Created));
        match stage {
            Stage::Created => {
                self.stage = Stage::Constructing;
            },
            Stage::Constructing => {
                self.after_construction(terminated, now_ms, input);
            },
            Stage::Registering { path } => {
                self.after_registration(path, terminated, now_ms, input);
            },
            Stage::Waiting => {
                self.after_wait(terminated, now_ms, input);
            },
            Stage::Probing { burst } => {
                self.after_probe(burst, terminated, now_ms, input);
            },
            Stage::Delivering { event } => {
                self.after_delivery(Ghost(event@), terminated, now_ms, input);
            },
            other => {
                self.stage = other;
            },
        }
        self.pending_action()
    }

    /// The step out of `Constructing`.
    fn after_construction(&mut self, terminated: bool, now_ms: u64, input: Input)
        requires
            old(self)@.at(StageView::Constructing).accepts(input@),
        ensures
            final(self)@ == old(self)@.at(StageView::Constructing).step(
                terminated,
                now_ms,
                input@,
            ),
    {
        proof {
            lemma_next_forgets_stage(old(self)@, StageView::Constructing, terminated, now_ms);
        }
        match input {
            Input::ConstructFailed { message } => {
                self.stage = Stage::Failed { error: WatchError::Setup { path: None, message } };
            },
            _ => {
                self.register_next(terminated, now_ms);
            },
        }
    }

    /// The step out of `Registering`.
    fn after_registration(&mut self, path: String, terminated: bool, now_ms: u64, input: Input)
        requires
            old(self)@.at(StageView::Registering { path: path@ }).accepts(input@),
        ensures
            final(self)@ == old(self)@.at(StageView::Registering { path: path@ }).step(
                terminated,
                now_ms,
                input@,
            ),
    {
        proof {
            lemma_next_forgets_stage(
                old(self)@,
                StageView::Registering { path: path@ },
                terminated,
                now_ms,
            );
        }
        match input {
            Input::RegisterFailed { message } => {
                self.stage =
                Stage::Failed { error: WatchError::Setup { path: Some(path), message } };
            },
            _ => {
                self.register_next(terminated, now_ms);
            },
        }
    }

    /// The step out of `Waiting`.
    fn after_wait(&mut self, terminated: bool, now_ms: u64, input: Input)
        requires
            old(self)@.at(StageView::Waiting).accepts(input@),
        ensures
            final(self)@ == old(self)@.at(StageView::Waiting).step(terminated, now_ms, input@),
    {
        proof {
            lemma_next_forgets_stage(old(self)@, StageView::Waiting, terminated, now_ms);
        }
        match input {
            Input::Control => {
                self.stage = Stage::Cancelled;
            },
            Input::Raw { event } => {
                if self.debounced {
                    proof {
                        lemma_next_forgets_stage(
                            old(self)@.buffering(event@, now_ms),
                            StageView::Waiting,
                            terminated,
                            now_ms,
                        );
                    }
                    self.buffer(&event, now_ms);
                    self.settle(terminated, now_ms);
                } else if self.policy.passes_raw(&event.kind) {
                    self.stage = Stage::Delivering { event: NormalizedEvent::from_raw(event) };
                } else {
                    self.settle(terminated, now_ms);
                }
            },
            Input::SourceError { message } => {
                self.stage = Stage::Failed { error: WatchError::Channel { message } };
            },
            Input::Disconnected { message } => {
                self.stage = Stage::Failed { error: WatchError::Channel { message } };
            },
            _ => {
                self.settle(terminated, now_ms);
            },
        }
    }

    /// The step out of `Probing`.
    fn after_probe(&mut self, burst: Burst, terminated: bool, now_ms: u64, input: Input)
        requires
            old(self)@.at(StageView::Probing { burst: burst@ }).accepts(input@),
        ensures
            final(self)@ == old(self)@.at(StageView::Probing { burst: burst@ }).step(
                terminated,
                now_ms,
                input@,
            ),
    {
        proof {
            lemma_next_forgets_stage(
                old(self)@,
                StageView::Probing { burst: burst@ },
                terminated,
                now_ms,
            );
        }
        let present = match input {
            Input::Probed { present } => present,
            _ => false,
        };
        if self.policy.passes_coalesced(&burst.kind, present) {
            self.stage =
            Stage::Delivering { event: NormalizedEvent::from_burst(burst.path, burst.description) };
        } else {
            self.settle(terminated, now_ms);
        }
    }

    /// The step out of `Delivering`.
    fn after_delivery(
        &mut self,
        Ghost(event): Ghost<NormalizedEventView>,
        terminated: bool,
        now_ms: u64,
        input: Input,
    )
        requires
            old(self)@.at(StageView::Delivering { event }).accepts(input@),
        ensures
            final(self)@ == old(self)@.at(StageView::Delivering { event }).step(
                terminated,
                now_ms,
                input@,
            ),
    {
        proof {
            lemma_next_forgets_stage(
                old(self)@,
                StageView::Delivering { event },
                terminated,
                now_ms,
            );
        }
        match input {
            Input::CallbackFailed { message } => {
                self.stage = Stage::Failed { error: WatchError::Callback { message } };
            },
            _ => {
                self.settle(terminated, now_ms);
            },
        }
    }

    /// Moves on to the next unregistered path, or into the loop.
    fn register_next(&mut self, terminated: bool, now_ms: u64)
        ensures
            final(self)@ == old(self)@.registering_next(terminated, now_ms),
    {
        if self.unregistered.len() > 0 {
            let path = self.unregistered.remove(0);
            assert(self.unregistered.deep_view() =~= old(
                self,
            ).unregistered.deep_view().drop_first());
            self.stage = Stage::Registering { path };
        } else {
            self.settle(terminated, now_ms);
        }
    }

    /// Takes one raw event into the queue of bursts, path by path.
    fn buffer(&mut self, event: &RawEvent, now_ms: u64)
        ensures
            final(self)@ == old(self)@.buffering(event@, now_ms),
    {
        let ghost all = sightings(event@, now_ms);
        let mut i: usize = 0;
        assert(all.take(0) =~= Seq::<BurstView>::empty());
        while i < event.paths.len()
            invariant
                i <= event.paths.len(),
                all == sightings(event@, now_ms),
                all.len() == event.paths.len(),
                self@ == (LoopView {
                    debouncer: recorded_all(old(self)@.debouncer, all.take(i as int)),
                    ..old(self)@
                }),
            decreases event.paths.len() - i,
        {
            let path = event.paths[i].clone();
            let description = event.description.clone();
            self.debouncer.record(now_ms, path, event.kind, description);
            assert(all.take(i + 1).drop_last() =~= all.take(i as int));
            assert(all.take(i + 1).last() == all[i as int]);
            i = i + 1;
        }
        assert(all.take(i as int) =~= all);
    }

    /// Whether the last raw kind of `burst` alone rules the burst out.
    fn rules_out(&self, burst: &Burst) -> (ruled_out: bool)
        ensures
            ruled_out == self@.rules_out(burst@),
    {
        self.policy.ignore_access && match burst.kind {
            EventKind::Access(_) => true,
            _ => false,
        }
    }

    /// The top of an iteration: decides what comes next with nothing in hand.
    fn settle(&mut self, terminated: bool, now_ms: u64)
        ensures
            final(self)@ == old(self)@.settled(terminated, now_ms),
    {
        if terminated {
            self.stage = Stage::Cancelled;
            return;
        }
        if !self.debounced {
            self.stage = Stage::Waiting;
            return;
        }
        let mut decided = false;
        while !decided
            invariant
                !terminated,
                self.debounced,
                decided ==> self@ == old(self)@.settled(terminated, now_ms),
                !decided ==> self@.settled(terminated, now_ms) == old(self)@.settled(
                    terminated,
                    now_ms,
                ),
            decreases
                    if decided {
                        0
                    } else {
                        self@.debouncer.pending.len() + 1
                    },
        {
            match self.debouncer.pop_due(now_ms) {
                None => {
                    self.stage = Stage::Waiting;
                    decided = true;
                },
                Some(burst) => {
                    if !self.rules_out(&burst) {
                        self.stage =
                        if self.policy.ignore_remove {
                            Stage::Probing { burst }
                        } else {
                            Stage::Delivering {
                                event: NormalizedEvent::from_burst(burst.path, burst.description),
                            }
                        };
                        decided = true;
                    }
                },
            }
        }
    }
}

} // verus!
