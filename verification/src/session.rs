//! One invocation, as a state machine. The machine decides; whoever drives it
//! talks to the device. Each step takes what the device answered to the last
//! request and gives the next request, until the results or a failure come out.

use vstd::prelude::*;
use crate::error::{Failure, MapCause};
use crate::layout::{decode_results, decoded, encode_input, input_bytes, ComputeResult};
use crate::plan::{
    plan_buffer, plan_dispatch, planned_buffer, planned_dispatch, size_for, BufferPlan, BufferRole,
    DispatchPlan, BATCH_SIZE, BIND_GROUP, HOST_BATCH_SIZE, HOST_START, INPUT_BINDING,
    OUTPUT_BINDING,
};
use crate::range::{parsed_start, range_fits, CandidateRange};
use crate::readback::{readback_next, MapSignal, ReadbackEvent, ReadbackState};
use crate::report::{decimal_text, lemma_decimal_round_trip, write_decimal};

verus! {

/// Which adapters an invocation may run on.
#[derive(Clone, Copy, Debug, PartialEq, Eq, Structural)]
pub enum Backend {
    /// Only the compute backend that a browser offers.
    Browser,
    /// Any backend of the machine.
    Any,
}

/// Which adapter to prefer where several satisfy the request.
#[derive(Clone, Copy, Debug, PartialEq, Eq, Structural)]
pub enum Power {
    /// The adapter that draws least.
    Low,
    /// The fastest adapter.
    High,
}

/// What an invocation waits for.
#[derive(Clone, Copy, Debug, PartialEq, Eq, Structural)]
pub enum Stage {
    /// Nothing has been asked of the device yet.
    Created,
    /// An adapter.
    Adapter,
    /// A device and its queue.
    Device,
    /// The three buffers.
    Buffers,
    /// The pipeline and its bind group.
    Pipeline,
    /// The submission of the recorded work.
    Submission,
    /// The registration of the map request.
    MapRequest,
    /// The end of the device poll.
    Poll,
    /// The completion signal.
    Signal,
    /// The bytes of the mapped range.
    Range,
    /// The unmapping of the staging buffer.
    Unmap,
    /// Nothing: the results were handed out.
    Finished,
    /// Nothing: the invocation was given up.
    Failed,
}

/// What the device answered to the last request.
#[derive(Debug, PartialEq, Eq)]
pub enum Event {
    /// The invocation is to start.
    Begin,
    AdapterFound,
    AdapterMissing,
    DeviceReady,
    DeviceFailed,
    BuffersReady,
    PipelineReady,
    /// The device refused the compute program.
    ShaderRejected,
    /// The device took the compute program and built no pipeline from it.
    PipelineRejected,
    Submitted,
    MapRequested,
    Polled,
    Signal(MapSignal),
    /// The bytes of the whole mapped staging buffer.
    RangeRead(Vec<u8>),
    Unmapped,
}

/// What to ask of the device next.
#[derive(Debug, PartialEq, Eq)]
pub enum Action {
    /// Ask for an adapter.
    RequestAdapter { backend: Backend, power: Power },
    /// Ask the adapter for a device and its queue.
    RequestDevice,
    /// Allocate the three buffers and fill the input buffer with `contents`.
    CreateBuffers { contents: Vec<u8>, input: BufferPlan, output: BufferPlan, staging: BufferPlan },
    /// Compile the compute program, build the pipeline with the layout that the
    /// program itself gives, and bind the input and output buffers.
    BuildPipeline { bind_group: u32, input_binding: u32, output_binding: u32 },
    /// Record one compute pass with one dispatch, then the copy from output to
    /// staging buffer, and submit once.
    Submit(DispatchPlan),
    /// Ask for a map for reading of the first `bytes` bytes of the staging buffer,
    /// which is all of it.
    MapStaging { bytes: u64 },
    /// Poll the device until the pending map is done.
    PollDevice,
    /// Wait for the completion signal.
    AwaitSignal,
    /// Read the mapped range.
    ReadRange,
    /// Unmap the staging buffer.
    Unmap,
    /// Hand out the results.
    Finish(Vec<ComputeResult>),
    /// Report the failure.
    Fail(Failure),
}

/// An event as a value of specifications.
pub enum EventView {
    Begin,
    AdapterFound,
    AdapterMissing,
    DeviceReady,
    DeviceFailed,
    BuffersReady,
    PipelineReady,
    ShaderRejected,
    PipelineRejected,
    Submitted,
    MapRequested,
    Polled,
    Signal(MapSignal),
    RangeRead(Seq<u8>),
    Unmapped,
}

/// An action as a value of specifications.
pub enum ActionView {
    RequestAdapter { backend: Backend, power: Power },
    RequestDevice,
    CreateBuffers { contents: Seq<u8>, input: BufferPlan, output: BufferPlan, staging: BufferPlan },
    BuildPipeline { bind_group: u32, input_binding: u32, output_binding: u32 },
    Submit(DispatchPlan),
    MapStaging { bytes: u64 },
    PollDevice,
    AwaitSignal,
    ReadRange,
    Unmap,
    Finish(Seq<ComputeResult>),
    Fail(Failure),
}

impl View for Event {
    type V = EventView;

    open spec fn view(&self) -> EventView {
        match *self {
            Event::Begin => EventView::Begin,
            Event::AdapterFound => EventView::AdapterFound,
            Event::AdapterMissing => EventView::AdapterMissing,
            Event::DeviceReady => EventView::DeviceReady,
            Event::DeviceFailed => EventView::DeviceFailed,
            Event::BuffersReady => EventView::BuffersReady,
            Event::PipelineReady => EventView::PipelineReady,
            Event::ShaderRejected => EventView::ShaderRejected,
            Event::PipelineRejected => EventView::PipelineRejected,
            Event::Submitted => EventView::Submitted,
            Event::MapRequested => EventView::MapRequested,
            Event::Polled => EventView::Polled,
            Event::Signal(signal) => EventView::Signal(signal),
            Event::RangeRead(bytes) => EventView::RangeRead(bytes@),
            Event::Unmapped => EventView::Unmapped,
        }
    }
}

impl View for Action {
    type V = ActionView;

    open spec fn view(&self) -> ActionView {
        match *self {
            Action::RequestAdapter { backend, power } => ActionView::RequestAdapter {
                backend,
                power,
            },
            Action::RequestDevice => ActionView::RequestDevice,
            Action::CreateBuffers { contents, input, output, staging } => ActionView::CreateBuffers {
                contents: contents@,
                input,
                output,
                staging,
            },
            Action::BuildPipeline {
                bind_group,
                input_binding,
                output_binding,
            } => ActionView::BuildPipeline { bind_group, input_binding, output_binding },
            Action::Submit(plan) => ActionView::Submit(plan),
            Action::MapStaging { bytes } => ActionView::MapStaging { bytes },
            Action::PollDevice => ActionView::PollDevice,
            Action::AwaitSignal => ActionView::AwaitSignal,
            Action::ReadRange => ActionView::ReadRange,
            Action::Unmap => ActionView::Unmap,
            Action::Finish(results) => ActionView::Finish(results@),
            Action::Fail(failure) => ActionView::Fail(failure),
        }
    }
}

/// An invocation as a value of specifications.
pub struct SessionView {
    pub backend: Backend,
    /// The starting value as it was given.
    pub start_text: Seq<char>,
    /// The number of candidates.
    pub count: u32,
    pub stage: Stage,
    /// Where the staging buffer stands.
    pub readback: ReadbackState,
    /// The decoded results, once the mapped range was read.
    pub results: Seq<ComputeResult>,
    /// Why the invocation was given up, once it was.
    pub failure: Option<Failure>,
}

/// A step of an invocation: the state that follows, and what to ask next.
pub struct Outcome {
    pub next: SessionView,
    pub action: ActionView,
}

/// The starting value of an invocation whose text reads as one and whose range
/// fits in 128 bits.
pub open spec fn start_of(s: SessionView) -> Option<u128> {
    match parsed_start(s.start_text) {
        Some(start) => if range_fits(start, s.count) {
            Some(start)
        } else {
            None
        },
        None => None,
    }
}

/// `s` moved on to `stage`, asking for `action`.
pub open spec fn moved(s: SessionView, stage: Stage, action: ActionView) -> Option<Outcome> {
    Some(Outcome { next: SessionView { stage, ..s }, action })
}

/// `s` given up for `failure`.
pub open spec fn given_up(s: SessionView, failure: Failure) -> Option<Outcome> {
    Some(
        Outcome {
            next: SessionView { stage: Stage::Failed, failure: Some(failure), ..s },
            action: ActionView::Fail(failure),
        },
    )
}

/// The step that `s` takes on `event`, or nothing where `s` does not wait for
/// `event`.
///
/// An adapter is asked for first, then a device. Only then is the starting value
/// read, so a text that is no number gives up the invocation before any buffer is
/// allocated. The buffers, the pipeline and the submission follow, each once.
/// The staging buffer is then mapped, the device polled, the signal awaited, the
/// range read and decoded, the buffer unmapped, and the results handed out. A
/// mapped range that is not thirty-two bytes for each candidate is not waited
/// for: no step is taken on it.
pub open spec fn transition(s: SessionView, event: EventView) -> Option<Outcome> {
    match (s.stage, event) {
        (Stage::Created, EventView::Begin) => moved(
            s,
            Stage::Adapter,
            ActionView::RequestAdapter { backend: s.backend, power: Power::High },
        ),
        (Stage::Adapter, EventView::AdapterFound) => moved(
            s,
            Stage::Device,
            ActionView::RequestDevice,
        ),
        (Stage::Adapter, EventView::AdapterMissing) => given_up(s, Failure::AdapterUnavailable),
        (Stage::Device, EventView::DeviceFailed) => given_up(s, Failure::DeviceRequestFailed),
        (Stage::Device, EventView::DeviceReady) => match parsed_start(s.start_text) {
            None => given_up(s, Failure::ParseError),
            Some(start) => if range_fits(start, s.count) {
                moved(
                    s,
                    Stage::Buffers,
                    ActionView::CreateBuffers {
                        contents: input_bytes(start, s.count),
                        input: planned_buffer(BufferRole::Input, s.count),
                        output: planned_buffer(BufferRole::Output, s.count),
                        staging: planned_buffer(BufferRole::Staging, s.count),
                    },
                )
            } else {
                given_up(s, Failure::RangeOverflow)
            },
        },
        (Stage::Buffers, EventView::BuffersReady) => moved(
            s,
            Stage::Pipeline,
            ActionView::BuildPipeline {
                bind_group: BIND_GROUP,
                input_binding: INPUT_BINDING,
                output_binding: OUTPUT_BINDING,
            },
        ),
        (Stage::Pipeline, EventView::PipelineReady) => moved(
            s,
            Stage::Submission,
            ActionView::Submit(planned_dispatch(s.count)),
        ),
        (Stage::Pipeline, EventView::ShaderRejected) => given_up(
            s,
            Failure::ShaderCompilationFailed,
        ),
        (Stage::Pipeline, EventView::PipelineRejected) => given_up(
            s,
            Failure::PipelineCreationFailed,
        ),
        (Stage::Submission, EventView::Submitted) => moved(
            SessionView { readback: ReadbackState::MapRequested, ..s },
            Stage::MapRequest,
            ActionView::MapStaging { bytes: size_for(BufferRole::Staging, s.count) as u64 },
        ),
        (Stage::MapRequest, EventView::MapRequested) => moved(s, Stage::Poll, ActionView::PollDevice),
        (Stage::Poll, EventView::Polled) => moved(s, Stage::Signal, ActionView::AwaitSignal),
        (Stage::Signal, EventView::Signal(MapSignal::Ready)) => moved(
            SessionView { readback: ReadbackState::Mapped, ..s },
            Stage::Range,
            ActionView::ReadRange,
        ),
        (Stage::Signal, EventView::Signal(MapSignal::DeviceError)) => given_up(
            SessionView { readback: ReadbackState::MapFailed, ..s },
            Failure::MapRequestFailed(MapCause::Device),
        ),
        (Stage::Signal, EventView::Signal(MapSignal::ChannelClosed)) => given_up(
            SessionView { readback: ReadbackState::MapFailed, ..s },
            Failure::MapRequestFailed(MapCause::Channel),
        ),
        (Stage::Range, EventView::RangeRead(bytes)) => if start_of(s) is Some && bytes.len() == 32
            * s.count {
            moved(
                SessionView { results: decoded(bytes, start_of(s)->Some_0, s.count), ..s },
                Stage::Unmap,
                ActionView::Unmap,
            )
        } else {
            None
        },
        (Stage::Unmap, EventView::Unmapped) => moved(
            SessionView { readback: ReadbackState::Unmapped, ..s },
            Stage::Finished,
            ActionView::Finish(s.results),
        ),
        _ => None,
    }
}

/// How far an invocation has come.
pub open spec fn stage_rank(stage: Stage) -> nat {
    match stage {
        Stage::Created => 0,
        Stage::Adapter => 1,
        Stage::Device => 2,
        Stage::Buffers => 3,
        Stage::Pipeline => 4,
        Stage::Submission => 5,
        Stage::MapRequest => 6,
        Stage::Poll => 7,
        Stage::Signal => 8,
        Stage::Range => 9,
        Stage::Unmap => 10,
        Stage::Finished => 11,
        Stage::Failed => 12,
    }
}

/// Whether something was allocated on the device by the time `stage` is waited
/// for.
pub open spec fn allocated(stage: Stage) -> bool {
    3 <= stage_rank(stage) <= 11
}

/// Where the staging buffer stands while `stage` is waited for, in an invocation
/// that has not been given up.
pub open spec fn readback_at(stage: Stage) -> ReadbackState {
    if stage_rank(stage) <= 5 {
        ReadbackState::Idle
    } else if stage_rank(stage) <= 8 {
        ReadbackState::MapRequested
    } else if stage_rank(stage) <= 10 {
        ReadbackState::Mapped
    } else {
        ReadbackState::Unmapped
    }
}

/// What holds of every invocation, from its creation on.
pub open spec fn well_formed(s: SessionView) -> bool {
    &&& allocated(s.stage) ==> start_of(s) is Some
    &&& s.stage != Stage::Failed ==> s.failure is None && s.readback == readback_at(s.stage)
    &&& s.stage == Stage::Failed ==> s.failure is Some && (s.readback == ReadbackState::Idle
        || s.readback == ReadbackState::MapFailed)
    &&& if s.stage == Stage::Unmap || s.stage == Stage::Finished {
        exists|bytes: Seq<u8>|
            bytes.len() == 32 * s.count && s.results == #[trigger] decoded(
                bytes,
                start_of(s)->Some_0,
                s.count,
            )
    } else {
        s.results.len() == 0
    }
}

/// A new invocation.
pub open spec fn created(backend: Backend, start_text: Seq<char>, count: u32) -> SessionView {
    SessionView {
        backend,
        start_text,
        count,
        stage: Stage::Created,
        readback: ReadbackState::Idle,
        results: Seq::empty(),
        failure: None,
    }
}

/// Whether `after` and `action` are the step that `before` takes on `event`.
pub open spec fn stepped(
    before: SessionView,
    event: EventView,
    after: SessionView,
    action: Option<Action>,
) -> bool {
    &&& well_formed(after)
    &&& match transition(before, event) {
        Some(outcome) => after == outcome.next && action is Some && action->Some_0@
            == outcome.action,
        None => after == before && action is None,
    }
}

/// One invocation: what was asked for, and how far it has come.
#[derive(Debug)]
pub struct Session {
    backend: Backend,
    start_text: String,
    count: u32,
    stage: Stage,
    readback: ReadbackState,
    range: Option<CandidateRange>,
    results: Vec<ComputeResult>,
    failure: Option<Failure>,
}

impl View for Session {
    type V = SessionView;

    closed spec fn view(&self) -> SessionView {
        SessionView {
            backend: self.backend,
            start_text: self.start_text@,
            count: self.count,
            stage: self.stage,
            readback: self.readback,
            results: self.results@,
            failure: self.failure,
        }
    }
}

impl Session {
    #[verifier::type_invariant]
    spec fn sound(self) -> bool {
        &&& well_formed(self@)
        &&& allocated(self.stage) ==> self.range is Some && self.range->Some_0.start() == start_of(
            self@,
        )->Some_0 && self.range->Some_0.count() == self.count
    }

    /// An invocation on `count` candidates from the value that `start_text`
    /// writes, with nothing asked of the device yet.
    pub fn new(backend: Backend, start_text: String, count: u32) -> (session: Session)
        ensures
            session@ == created(backend, start_text@, count),
            well_formed(session@),
    {
        Session {
            backend,
            start_text,
            count,
            stage: Stage::Created,
            readback: ReadbackState::Idle,
            range: None,
            results: Vec::new(),
            failure: None,
        }
    }

    /// The invocation that a browser makes: the fixed batch from the value that
    /// `start_text` writes, on the browser's own backend.
    pub fn for_browser(start_text: String) -> (session: Session)
        ensures
            session@ == created(Backend::Browser, start_text@, BATCH_SIZE),
    {
        Session::new(Backend::Browser, start_text, BATCH_SIZE)
    }

    /// The invocation that the standalone host makes: its large batch from its
    /// fixed starting value, on any backend.
    pub fn for_host() -> (session: Session)
        ensures
            session@ == created(Backend::Any, decimal_text(HOST_START as nat), HOST_BATCH_SIZE),
            start_of(session@) == Some(HOST_START),
    {
        proof {
            lemma_decimal_round_trip(HOST_START);
        }
        Session::new(Backend::Any, write_decimal(HOST_START), HOST_BATCH_SIZE)
    }

    /// What the invocation waits for.
    pub fn stage(&self) -> (stage: Stage)
        ensures
            stage == self@.stage,
            well_formed(self@),
    {
        proof {
            use_type_invariant(self);
        }
        self.stage
    }

    /// Where the staging buffer stands.
    pub fn readback(&self) -> (state: ReadbackState)
        ensures
            state == self@.readback,
    {
        self.readback
    }

    /// Why the invocation was given up, if it was.
    pub fn failure(&self) -> (failure: Option<Failure>)
        ensures
            failure == self@.failure,
            failure is Some <==> self@.stage == Stage::Failed,
    {
        proof {
            use_type_invariant(self);
        }
        self.failure
    }

    /// The number of candidates.
    pub fn count(&self) -> (count: u32)
        ensures
            count == self@.count,
    {
        self.count
    }

    /// Takes the step that the invocation takes on `event`: the invocation
    /// afterwards and what to ask next, or the invocation as it was and nothing
    /// where it does not wait for `event`.
    pub fn step(self, event: Event) -> (r: (Session, Option<Action>))
        ensures
            well_formed(self@),
            stepped(self@, event@, r.0@, r.1),
    {
        proof {
            use_type_invariant(&self);
        }
        match self.stage {
            Stage::Created => self.when_created(event),
            Stage::Adapter => self.when_adapter_answers(event),
            Stage::Device => self.when_device_answers(event),
            Stage::Buffers => self.when_buffers_stand(event),
            Stage::Pipeline => self.when_pipeline_answers(event),
            Stage::Submission => self.when_submitted(event),
            Stage::MapRequest => self.when_map_requested(event),
            Stage::Poll => self.when_polled(event),
            Stage::Signal => self.when_signal_fires(event),
            Stage::Range => self.when_range_read(event),
            Stage::Unmap => self.when_unmapped(event),
            Stage::Finished => (self, None),
            Stage::Failed => (self, None),
        }
    }

    /// The step of an invocation that has asked for nothing yet.
    fn when_created(self, event: Event) -> (r: (Session, Option<Action>))
        requires
            self@.stage == Stage::Created,
        ensures
            stepped(self@, event@, r.0@, r.1),
    {
        proof {
            use_type_invariant(&self);
        }
        match event {
            Event::Begin => {
                let action = Action::RequestAdapter { backend: self.backend, power: Power::High };
                (Session { stage: Stage::Adapter, ..self }, Some(action))
            },
            _ => (self, None),
        }
    }

    /// The step of an invocation that waits for an adapter.
    fn when_adapter_answers(self, event: Event) -> (r: (Session, Option<Action>))
        requires
            self@.stage == Stage::Adapter,
        ensures
            stepped(self@, event@, r.0@, r.1),
    {
        proof {
            use_type_invariant(&self);
        }
        match event {
            Event::AdapterFound => (
                Session { stage: Stage::Device, ..self },
                Some(Action::RequestDevice),
            ),
            Event::AdapterMissing => self.give_up(Failure::AdapterUnavailable),
            _ => (self, None),
        }
    }

    /// The step of an invocation that waits for a device: with the device there,
    /// the starting value is read and the buffers are planned.
    fn when_device_answers(self, event: Event) -> (r: (Session, Option<Action>))
        requires
            self@.stage == Stage::Device,
        ensures
            stepped(self@, event@, r.0@, r.1),
    {
        proof {
            use_type_invariant(&self);
        }
        match event {
            Event::DeviceFailed => self.give_up(Failure::DeviceRequestFailed),
            Event::DeviceReady => {
                let range = match CandidateRange::from_text(self.start_text.as_str(), self.count) {
                    Ok(range) => range,
                    Err(failure) => { return self.give_up(failure); },
                };
                let action = Action::CreateBuffers {
                    contents: encode_input(&range),
                    input: plan_buffer(BufferRole::Input, self.count),
                    output: plan_buffer(BufferRole::Output, self.count),
                    staging: plan_buffer(BufferRole::Staging, self.count),
                };
                (Session { stage: Stage::Buffers, range: Some(range), ..self }, Some(action))
            },
            _ => (self, None),
        }
    }

    /// The step of an invocation that waits for its buffers.
    fn when_buffers_stand(self, event: Event) -> (r: (Session, Option<Action>))
        requires
            self@.stage == Stage::Buffers,
        ensures
            stepped(self@, event@, r.0@, r.1),
    {
        proof {
            use_type_invariant(&self);
        }
        match event {
            Event::BuffersReady => {
                let action = Action::BuildPipeline {
                    bind_group: BIND_GROUP,
                    input_binding: INPUT_BINDING,
                    output_binding: OUTPUT_BINDING,
                };
                (Session { stage: Stage::Pipeline, ..self }, Some(action))
            },
            _ => (self, None),
        }
    }

    /// The step of an invocation that waits for its pipeline.
    fn when_pipeline_answers(self, event: Event) -> (r: (Session, Option<Action>))
        requires
            self@.stage == Stage::Pipeline,
        ensures
            stepped(self@, event@, r.0@, r.1),
    {
        proof {
            use_type_invariant(&self);
        }
        match event {
            Event::PipelineReady => {
                let action = Action::Submit(plan_dispatch(self.count));
                (Session { stage: Stage::Submission, ..self }, Some(action))
            },
            Event::ShaderRejected => self.give_up(Failure::ShaderCompilationFailed),
            Event::PipelineRejected => self.give_up(Failure::PipelineCreationFailed),
            _ => (self, None),
        }
    }

    /// The step of an invocation that waits for its work to be submitted.
    fn when_submitted(self, event: Event) -> (r: (Session, Option<Action>))
        requires
            self@.stage == Stage::Submission,
        ensures
            stepped(self@, event@, r.0@, r.1),
    {
        proof {
            use_type_invariant(&self);
        }
        match event {
            Event::Submitted => {
                let action = Action::MapStaging {
                    bytes: plan_buffer(BufferRole::Staging, self.count).size,
                };
                (
                    Session {
                        stage: Stage::MapRequest,
                        readback: ReadbackState::MapRequested,
                        ..self
                    },
                    Some(action),
                )
            },
            _ => (self, None),
        }
    }

    /// The step of an invocation that waits for its map request to be registered.
    fn when_map_requested(self, event: Event) -> (r: (Session, Option<Action>))
        requires
            self@.stage == Stage::MapRequest,
        ensures
            stepped(self@, event@, r.0@, r.1),
    {
        proof {
            use_type_invariant(&self);
        }
        match event {
            Event::MapRequested => (
                Session { stage: Stage::Poll, ..self },
                Some(Action::PollDevice),
            ),
            _ => (self, None),
        }
    }

    /// The step of an invocation that waits for the device poll to end.
    fn when_polled(self, event: Event) -> (r: (Session, Option<Action>))
        requires
            self@.stage == Stage::Poll,
        ensures
            stepped(self@, event@, r.0@, r.1),
    {
        proof {
            use_type_invariant(&self);
        }
        match event {
            Event::Polled => (Session { stage: Stage::Signal, ..self }, Some(Action::AwaitSignal)),
            _ => (self, None),
        }
    }

    /// The step of an invocation that waits for the completion signal.
    fn when_signal_fires(self, event: Event) -> (r: (Session, Option<Action>))
        requires
            self@.stage == Stage::Signal,
        ensures
            stepped(self@, event@, r.0@, r.1),
    {
        proof {
            use_type_invariant(&self);
        }
        match event {
            Event::Signal(MapSignal::Ready) => (
                Session { stage: Stage::Range, readback: ReadbackState::Mapped, ..self },
                Some(Action::ReadRange),
            ),
            Event::Signal(signal) => {
                let failure = Failure::MapRequestFailed(
                    match signal {
                        MapSignal::ChannelClosed => MapCause::Channel,
                        _ => MapCause::Device,
                    },
                );
                (
                    Session {
                        stage: Stage::Failed,
                        readback: ReadbackState::MapFailed,
                        failure: Some(failure),
                        ..self
                    },
                    Some(Action::Fail(failure)),
                )
            },
            _ => (self, None),
        }
    }

    /// The step of an invocation that waits for the mapped bytes, which it decodes.
    fn when_range_read(self, event: Event) -> (r: (Session, Option<Action>))
        requires
            self@.stage == Stage::Range,
        ensures
            stepped(self@, event@, r.0@, r.1),
    {
        proof {
            use_type_invariant(&self);
        }
        match event {
            Event::RangeRead(bytes) => {
                let range = match self.range {
                    Some(range) => range,
                    None => { return (self, None); },
                };
                match decode_results(bytes.as_slice(), &range) {
                    Some(results) => (
                        Session { stage: Stage::Unmap, results, ..self },
                        Some(Action::Unmap),
                    ),
                    None => (self, None),
                }
            },
            _ => (self, None),
        }
    }

    /// The step of an invocation that waits for the staging buffer to be unmapped.
    fn when_unmapped(self, event: Event) -> (r: (Session, Option<Action>))
        requires
            self@.stage == Stage::Unmap,
        ensures
            stepped(self@, event@, r.0@, r.1),
    {
        proof {
            use_type_invariant(&self);
        }
        match event {
            Event::Unmapped => {
                let action = Action::Finish(self.results.clone());
                (
                    Session { stage: Stage::Finished, readback: ReadbackState::Unmapped, ..self },
                    Some(action),
                )
            },
            _ => (self, None),
        }
    }

    /// Gives the invocation up for `failure`.
    fn give_up(self, failure: Failure) -> (r: (Session, Option<Action>))
        requires
            stage_rank(self@.stage) <= 5,
        ensures
            Some(Outcome { next: r.0@, action: r.1->Some_0@ }) == given_up(self@, failure),
            r.1 is Some,
            well_formed(r.0@),
    {
        proof {
            use_type_invariant(&self);
        }
        (
            Session { stage: Stage::Failed, failure: Some(failure), ..self },
            Some(Action::Fail(failure)),
        )
    }
}

/// What a step of the invocation does to the staging buffer, if anything.
pub open spec fn readback_event(stage: Stage, event: EventView) -> Option<ReadbackEvent> {
    match (stage, event) {
        (Stage::Submission, EventView::Submitted) => Some(ReadbackEvent::MapRequest),
        (Stage::Signal, EventView::Signal(signal)) => Some(ReadbackEvent::Signal(signal)),
        (Stage::Unmap, EventView::Unmapped) => Some(ReadbackEvent::Unmap),
        _ => None,
    }
}

/// The step that follows `before` on `event`, where `before` was a step.
pub open spec fn and_then(before: Option<Outcome>, event: EventView) -> Option<Outcome> {
    match before {
        Some(outcome) => transition(outcome.next, event),
        None => None,
    }
}

/// The last step of an invocation that starts at `s` and that the device serves
/// without a failure, the mapped range holding `bytes`.
pub open spec fn served(s: SessionView, bytes: Seq<u8>) -> Option<Outcome> {
    let adapter = transition(s, EventView::Begin);
    let device = and_then(adapter, EventView::AdapterFound);
    let buffers = and_then(device, EventView::DeviceReady);
    let pipeline = and_then(buffers, EventView::BuffersReady);
    let submission = and_then(pipeline, EventView::PipelineReady);
    let map_request = and_then(submission, EventView::Submitted);
    let poll = and_then(map_request, EventView::MapRequested);
    let signal = and_then(poll, EventView::Polled);
    let range = and_then(signal, EventView::Signal(MapSignal::Ready));
    let unmap = and_then(range, EventView::RangeRead(bytes));
    and_then(unmap, EventView::Unmapped)
}

/// A new invocation is well formed.
pub proof fn lemma_created_is_well_formed(backend: Backend, start_text: Seq<char>, count: u32)
    ensures
        well_formed(created(backend, start_text, count)),
{
}

/// A step leaves a well-formed invocation well formed.
pub proof fn lemma_step_keeps_well_formed(s: SessionView, event: EventView)
    requires
        well_formed(s),
        transition(s, event) is Some,
    ensures
        well_formed(transition(s, event)->Some_0.next),
{
    let next = transition(s, event)->Some_0.next;
    if next.stage == Stage::Unmap {
        let bytes = event->RangeRead_0;
        assert(next.results == decoded(bytes, start_of(next)->Some_0, next.count));
    } else if next.stage == Stage::Finished {
        let bytes = choose|bytes: Seq<u8>|
            bytes.len() == 32 * s.count && s.results == #[trigger] decoded(
                bytes,
                start_of(s)->Some_0,
                s.count,
            );
        assert(next.results == decoded(bytes, start_of(next)->Some_0, next.count));
    }
}

/// Every step moves the invocation on and leaves what was asked for as it was.
/// So no stage is waited for twice and no request is made twice: the buffers are
/// allocated once, the work is submitted once, and after twelve steps at most
/// nothing more happens.
pub proof fn lemma_step_moves_on(s: SessionView, event: EventView)
    requires
        transition(s, event) is Some,
    ensures
        stage_rank(transition(s, event)->Some_0.next.stage) > stage_rank(s.stage),
        transition(s, event)->Some_0.next.backend == s.backend,
        transition(s, event)->Some_0.next.start_text == s.start_text,
        transition(s, event)->Some_0.next.count == s.count,
{
}

/// An invocation that has handed out its results, or was given up, takes no
/// further step.
pub proof fn lemma_ended_stays_ended(s: SessionView, event: EventView)
    requires
        s.stage == Stage::Finished || s.stage == Stage::Failed,
    ensures
        transition(s, event) is None,
{
}

/// Where the starting value is no number, or the range does not fit, nothing is
/// ever allocated: the invocation asks for an adapter and a device at most, and
/// is given up once the device is there.
pub proof fn lemma_unreadable_start_allocates_nothing(s: SessionView, event: EventView)
    requires
        well_formed(s),
        start_of(s) is None,
        transition(s, event) is Some,
    ensures
        !allocated(s.stage),
        !allocated(transition(s, event)->Some_0.next.stage),
        transition(s, event)->Some_0.action is RequestAdapter || transition(
            s,
            event,
        )->Some_0.action is RequestDevice || transition(s, event)->Some_0.action is Fail,
        s.stage == Stage::Device && event == EventView::DeviceReady ==> transition(
            s,
            event,
        )->Some_0.action == ActionView::Fail(
            if parsed_start(s.start_text) is None {
                Failure::ParseError
            } else {
                Failure::RangeOverflow
            },
        ),
{
}

/// The staging buffer goes through its own states in step with the invocation:
/// a step either leaves it alone or is one event of the readback.
pub proof fn lemma_readback_follows(s: SessionView, event: EventView)
    requires
        well_formed(s),
        transition(s, event) is Some,
    ensures
        match readback_event(s.stage, event) {
            Some(change) => readback_next(s.readback, change) == Some(
                transition(s, event)->Some_0.next.readback,
            ),
            None => transition(s, event)->Some_0.next.readback == s.readback,
        },
        transition(s, event)->Some_0.action is PollDevice || transition(
            s,
            event,
        )->Some_0.action is AwaitSignal ==> s.readback == ReadbackState::MapRequested,
        transition(s, event)->Some_0.action is ReadRange ==> transition(
            s,
            event,
        )->Some_0.next.readback == ReadbackState::Mapped,
        transition(s, event)->Some_0.action is Fail ==> transition(s, event)->Some_0.next.readback
            != ReadbackState::Mapped,
{
}

/// Each request is made in answer to one event only. So the signal is awaited
/// only once the device was polled, the range is read only once the signal
/// reported success, and the results are handed out only once the staging buffer
/// was unmapped.
pub proof fn lemma_requests_in_order(s: SessionView, event: EventView)
    requires
        transition(s, event) is Some,
    ensures
        match transition(s, event)->Some_0.action {
            ActionView::RequestAdapter { .. } => s.stage == Stage::Created && event
                == EventView::Begin,
            ActionView::RequestDevice => s.stage == Stage::Adapter && event
                == EventView::AdapterFound,
            ActionView::CreateBuffers { .. } => s.stage == Stage::Device && event
                == EventView::DeviceReady,
            ActionView::BuildPipeline { .. } => s.stage == Stage::Buffers && event
                == EventView::BuffersReady,
            ActionView::Submit(_) => s.stage == Stage::Pipeline && event
                == EventView::PipelineReady,
            ActionView::MapStaging { .. } => s.stage == Stage::Submission && event
                == EventView::Submitted,
            ActionView::PollDevice => s.stage == Stage::MapRequest && event
                == EventView::MapRequested,
            ActionView::AwaitSignal => s.stage == Stage::Poll && event == EventView::Polled,
            ActionView::ReadRange => s.stage == Stage::Signal && event == EventView::Signal(
                MapSignal::Ready,
            ),
            ActionView::Unmap => s.stage == Stage::Range && event is RangeRead,
            ActionView::Finish(_) => s.stage == Stage::Unmap && event == EventView::Unmapped,
            ActionView::Fail(_) => stage_rank(s.stage) <= 8,
        },
{
}

/// The results that are handed out are one for each candidate, in candidate
/// order, decoded from a mapped range of thirty-two bytes a candidate.
pub proof fn lemma_finish_hands_out_decoded(s: SessionView, event: EventView)
    requires
        well_formed(s),
        transition(s, event) is Some,
        transition(s, event)->Some_0.action is Finish,
    ensures
        start_of(s) is Some,
        exists|bytes: Seq<u8>|
            bytes.len() == 32 * s.count && transition(s, event)->Some_0.action
                == ActionView::Finish(
                #[trigger] decoded(bytes, start_of(s)->Some_0, s.count),
            ),
{
    let bytes = choose|bytes: Seq<u8>|
        bytes.len() == 32 * s.count && s.results == #[trigger] decoded(
            bytes,
            start_of(s)->Some_0,
            s.count,
        );
    assert(transition(s, event)->Some_0.action == ActionView::Finish(
        decoded(bytes, start_of(s)->Some_0, s.count),
    ));
}

/// An invocation that the device serves without a failure hands out exactly what
/// the mapped range holds for its candidates.
pub proof fn lemma_served_hands_out_decoded(
    backend: Backend,
    start_text: Seq<char>,
    count: u32,
    bytes: Seq<u8>,
)
    requires
        start_of(created(backend, start_text, count)) is Some,
        bytes.len() == 32 * count,
    ensures
        served(created(backend, start_text, count), bytes) is Some,
        served(created(backend, start_text, count), bytes)->Some_0.action == ActionView::Finish(
            decoded(bytes, parsed_start(start_text)->Some_0, count),
        ),
        served(created(backend, start_text, count), bytes)->Some_0.next.stage == Stage::Finished,
{
}

/// Two invocations on the same starting value and count whose mapped ranges hold
/// the same bytes hand out the same results, whichever backend each ran on.
pub proof fn lemma_same_request_same_results(
    first: Backend,
    second: Backend,
    start_text: Seq<char>,
    count: u32,
    bytes: Seq<u8>,
)
    ensures
        served(created(first, start_text, count), bytes) is Some <==> served(
            created(second, start_text, count),
            bytes,
        ) is Some,
        served(created(first, start_text, count), bytes) is Some ==> served(
            created(first, start_text, count),
            bytes,
        )->Some_0.action == served(created(second, start_text, count), bytes)->Some_0.action,
{
    if start_of(created(first, start_text, count)) is Some && bytes.len() == 32 * count {
        lemma_served_hands_out_decoded(first, start_text, count, bytes);
        lemma_served_hands_out_decoded(second, start_text, count, bytes);
    }
}

} // verus!
