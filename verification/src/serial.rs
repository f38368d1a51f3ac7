//! Sending a payload to a serial port in chunks.
//!
//! A [`SerialJob`] decides what is done next and what the call returns; a
//! driver performs each [`SerialAction`] and answers it with a
//! [`SerialEvent`]. The job asks for the port to be opened, then for the
//! payload to be written chunk by chunk with a short pause after each chunk,
//! and for a flush after the last one. Small chunks and pauses keep printers
//! with small receive buffers from being overrun. Any failure ends the call
//! with an error.

use crate::error::{
    open_failure, outcome_view, print_task_failure, serial_flush_failure, serial_write_failure,
    unexpected_event_text, ErrorKind, TransportError, TransportErrorView,
};
use vstd::prelude::*;
use vstd::slice::{slice_subrange, slice_to_vec};

verus! {

/// The largest number of bytes written at once.
pub const CHUNK_SIZE: usize = 512;

/// The pause after each chunk, in milliseconds.
pub const CHUNK_PAUSE_MS: u64 = 20;

/// The time allowed for each operation on the port, in milliseconds.
pub const SERIAL_TIMEOUT_MS: u64 = 3000;

/// How far a serial job has come: what it has asked for and waits to hear of.
#[derive(Clone, Copy, Debug, PartialEq, Eq, Structural)]
pub enum SerialPhase {
    Opening,
    Writing,
    Pausing,
    Flushing,
}

/// What a serial job asks its driver to do.
#[derive(Clone, Debug, PartialEq, Eq)]
pub enum SerialAction {
    /// Open the port at the baud rate, with `timeout_ms` milliseconds allowed
    /// for each operation on it.
    Open { port: String, baud_rate: u32, timeout_ms: u64 },
    /// Write all of `chunk` to the port.
    Write { chunk: Vec<u8> },
    /// Wait for `millis` milliseconds.
    Pause { millis: u64 },
    /// Flush the port.
    Flush,
}

/// Mathematical model of a [`SerialAction`].
pub enum SerialActionView {
    Open { port: Seq<char>, baud_rate: u32, timeout_ms: u64 },
    Write { chunk: Seq<u8> },
    Pause { millis: u64 },
    Flush,
}

impl View for SerialAction {
    type V = SerialActionView;

    open spec fn view(&self) -> SerialActionView {
        match self {
            SerialAction::Open { port, baud_rate, timeout_ms } => SerialActionView::Open {
                port: port@,
                baud_rate: *baud_rate,
                timeout_ms: *timeout_ms,
            },
            SerialAction::Write { chunk } => SerialActionView::Write { chunk: chunk@ },
            SerialAction::Pause { millis } => SerialActionView::Pause { millis: *millis },
            SerialAction::Flush => SerialActionView::Flush,
        }
    }
}

/// What the driver reports of the action that it was asked for.
#[derive(Clone, Debug, PartialEq, Eq)]
pub enum SerialEvent {
    Opened,
    OpenFailed { cause: String },
    Written,
    WriteFailed { cause: String },
    Paused,
    Flushed,
    FlushFailed { cause: String },
}

/// Mathematical model of a [`SerialEvent`].
pub enum SerialEventView {
    Opened,
    OpenFailed { cause: Seq<char> },
    Written,
    WriteFailed { cause: Seq<char> },
    Paused,
    Flushed,
    FlushFailed { cause: Seq<char> },
}

impl View for SerialEvent {
    type V = SerialEventView;

    open spec fn view(&self) -> SerialEventView {
        match self {
            SerialEvent::Opened => SerialEventView::Opened,
            SerialEvent::OpenFailed { cause } => SerialEventView::OpenFailed { cause: cause@ },
            SerialEvent::Written => SerialEventView::Written,
            SerialEvent::WriteFailed { cause } => SerialEventView::WriteFailed { cause: cause@ },
            SerialEvent::Paused => SerialEventView::Paused,
            SerialEvent::Flushed => SerialEventView::Flushed,
            SerialEvent::FlushFailed { cause } => SerialEventView::FlushFailed { cause: cause@ },
        }
    }
}

/// A call that sends one payload to one serial port.
#[derive(Debug)]
pub struct SerialJob {
    port: String,
    baud_rate: u32,
    payload: Vec<u8>,
    phase: SerialPhase,
    sent: usize,
}

/// Mathematical model of a [`SerialJob`]. `sent` counts the bytes of the
/// payload that the job has asked to be written.
pub struct SerialJobView {
    pub port: Seq<char>,
    pub baud_rate: u32,
    pub payload: Seq<u8>,
    pub phase: SerialPhase,
    pub sent: nat,
}

impl SerialJobView {
    /// Nothing is sent before the port is open, never more than the payload
    /// holds, whole chunks until the payload ends, and all of it before the
    /// flush.
    pub open spec fn well_formed(self) -> bool {
        &&& self.sent <= self.payload.len()
        &&& self.sent == self.payload.len() || self.sent % (CHUNK_SIZE as nat) == 0
        &&& self.phase is Opening ==> self.sent == 0
        &&& self.phase is Writing ==> self.sent > 0
        &&& self.phase is Pausing ==> self.sent > 0
        &&& self.phase is Flushing ==> self.sent == self.payload.len()
    }

    /// The same job in another phase.
    pub open spec fn at(self, phase: SerialPhase) -> SerialJobView {
        SerialJobView { phase, ..self }
    }

    /// The error that ends the job where an event reaches it that answers
    /// nothing it asked for.
    pub open spec fn unexpected(self) -> TransportErrorView {
        print_task_failure(self.port, unexpected_event_text())
    }
}

impl View for SerialJob {
    type V = SerialJobView;

    closed spec fn view(&self) -> SerialJobView {
        SerialJobView {
            port: self.port@,
            baud_rate: self.baud_rate,
            payload: self.payload@,
            phase: self.phase,
            sent: self.sent as nat,
        }
    }
}

/// A job and the action it asks for, or the outcome of the call.
#[derive(Debug)]
pub enum SerialStep {
    Continue(SerialJob, SerialAction),
    Finished(Result<(), TransportError>),
}

/// Mathematical model of a [`SerialStep`].
pub enum SerialStepView {
    Continue(SerialJobView, SerialActionView),
    Finished(Result<(), TransportErrorView>),
}

impl View for SerialStep {
    type V = SerialStepView;

    open spec fn view(&self) -> SerialStepView {
        match self {
            SerialStep::Continue(job, action) => SerialStepView::Continue(job@, action@),
            SerialStep::Finished(outcome) => SerialStepView::Finished(outcome_view(*outcome)),
        }
    }
}

/// Where the chunk that starts at byte `from` ends, in a payload of `len`
/// bytes: a chunk size further on, or at the end of the payload.
pub open spec fn chunk_end(len: nat, from: nat) -> nat {
    if len - from > CHUNK_SIZE {
        from + CHUNK_SIZE as nat
    } else {
        len
    }
}

/// The chunk of the payload that starts at byte `from`.
pub open spec fn chunk_at(payload: Seq<u8>, from: nat) -> Seq<u8> {
    payload.subrange(from as int, chunk_end(payload.len(), from) as int)
}

/// The job at its start: it has asked for the port to be opened.
pub open spec fn serial_start(port: Seq<char>, baud_rate: u32, payload: Seq<u8>) -> SerialJobView {
    SerialJobView { port, baud_rate, payload, phase: SerialPhase::Opening, sent: 0 }
}

/// The first action of a job.
pub open spec fn serial_first_action(port: Seq<char>, baud_rate: u32) -> SerialActionView {
    SerialActionView::Open { port, baud_rate, timeout_ms: SERIAL_TIMEOUT_MS }
}

/// What follows once the port is open or a pause is over: the next chunk, or
/// the flush where nothing is left to write.
pub open spec fn serial_resume(job: SerialJobView) -> SerialStepView {
    if job.sent < job.payload.len() {
        SerialStepView::Continue(
            SerialJobView {
                phase: SerialPhase::Writing,
                sent: chunk_end(job.payload.len(), job.sent),
                ..job
            },
            SerialActionView::Write { chunk: chunk_at(job.payload, job.sent) },
        )
    } else {
        SerialStepView::Continue(job.at(SerialPhase::Flushing), SerialActionView::Flush)
    }
}

/// What follows when `event` reaches `job`.
pub open spec fn serial_next(job: SerialJobView, event: SerialEventView) -> SerialStepView {
    match (job.phase, event) {
        (SerialPhase::Opening, SerialEventView::Opened) => serial_resume(job),
        (SerialPhase::Opening, SerialEventView::OpenFailed { cause }) => SerialStepView::Finished(
            Err(open_failure(job.port, cause)),
        ),
        (SerialPhase::Writing, SerialEventView::Written) => SerialStepView::Continue(
            job.at(SerialPhase::Pausing),
            SerialActionView::Pause { millis: CHUNK_PAUSE_MS },
        ),
        (SerialPhase::Writing, SerialEventView::WriteFailed { cause }) => SerialStepView::Finished(
            Err(serial_write_failure(job.port, cause)),
        ),
        (SerialPhase::Pausing, SerialEventView::Paused) => serial_resume(job),
        (SerialPhase::Flushing, SerialEventView::Flushed) => SerialStepView::Finished(Ok(())),
        (SerialPhase::Flushing, SerialEventView::FlushFailed { cause }) => SerialStepView::Finished(
            Err(serial_flush_failure(job.port, cause)),
        ),
        _ => SerialStepView::Finished(Err(job.unexpected())),
    }
}

impl SerialJob {
    #[verifier::type_invariant]
    spec fn sent_within_payload(self) -> bool {
        self@.well_formed()
    }

    /// Starts a call that sends `payload` to the serial port `port` at
    /// `baud_rate`, and asks for the port to be opened.
    pub fn begin(port: String, baud_rate: u32, payload: Vec<u8>) -> (start: (
        SerialJob,
        SerialAction,
    ))
        ensures
            start.0@ == serial_start(port@, baud_rate, payload@),
            start.1@ == serial_first_action(port@, baud_rate),
    {
        let action = SerialAction::Open {
            port: port.clone(),
            baud_rate,
            timeout_ms: SERIAL_TIMEOUT_MS,
        };
        (SerialJob { port, baud_rate, payload, phase: SerialPhase::Opening, sent: 0 }, action)
    }

    fn resume(self) -> (step: SerialStep)
        ensures
            step@ == serial_resume(self@),
    {
        proof {
            use_type_invariant(&self);
        }
        let len: usize = self.payload.len();
        if self.sent < len {
            let from: usize = self.sent;
            let end: usize = if len - from > CHUNK_SIZE {
                from + CHUNK_SIZE
            } else {
                len
            };
            let chunk = slice_to_vec(slice_subrange(self.payload.as_slice(), from, end));
            SerialStep::Continue(
                SerialJob {
                    port: self.port,
                    baud_rate: self.baud_rate,
                    payload: self.payload,
                    phase: SerialPhase::Writing,
                    sent: end,
                },
                SerialAction::Write { chunk },
            )
        } else {
            SerialStep::Continue(
                SerialJob {
                    port: self.port,
                    baud_rate: self.baud_rate,
                    payload: self.payload,
                    phase: SerialPhase::Flushing,
                    sent: self.sent,
                },
                SerialAction::Flush,
            )
        }
    }

    fn reject(self) -> (step: SerialStep)
        ensures
            step@ == SerialStepView::Finished(Err(self@.unexpected())),
    {
        SerialStep::Finished(
            Err(TransportError::print_task(self.port.as_str(), "unexpected event")),
        )
    }

    /// Takes the driver's answer to the action that the job asked for and
    /// says what follows: the next action, or the outcome of the call. An
    /// answer to anything else ends the call as a failed task.
    pub fn step(self, event: SerialEvent) -> (step: SerialStep)
        ensures
            step@ == serial_next(self@, event@),
    {
        proof {
            use_type_invariant(&self);
        }
        match self.phase {
            SerialPhase::Opening => match event {
                SerialEvent::Opened => self.resume(),
                SerialEvent::OpenFailed { cause } => SerialStep::Finished(
                    Err(TransportError::open(self.port.as_str(), cause.as_str())),
                ),
                _ => self.reject(),
            },
            SerialPhase::Writing => match event {
                SerialEvent::Written => SerialStep::Continue(
                    SerialJob {
                        port: self.port,
                        baud_rate: self.baud_rate,
                        payload: self.payload,
                        phase: SerialPhase::Pausing,
                        sent: self.sent,
                    },
                    SerialAction::Pause { millis: CHUNK_PAUSE_MS },
                ),
                SerialEvent::WriteFailed { cause } => SerialStep::Finished(
                    Err(TransportError::serial_write(self.port.as_str(), cause.as_str())),
                ),
                _ => self.reject(),
            },
            SerialPhase::Pausing => match event {
                SerialEvent::Paused => self.resume(),
                _ => self.reject(),
            },
            SerialPhase::Flushing => match event {
                SerialEvent::Flushed => SerialStep::Finished(Ok(())),
                SerialEvent::FlushFailed { cause } => SerialStep::Finished(
                    Err(TransportError::serial_flush(self.port.as_str(), cause.as_str())),
                ),
                _ => self.reject(),
            },
        }
    }
}

/// What a driver sees of a job over a sequence of events: the actions that
/// the job asks for in answer to them, and the outcome once the call has
/// ended. Events that come after the end are not looked at.
pub struct SerialRun {
    pub actions: Seq<SerialActionView>,
    pub outcome: Option<Result<(), TransportErrorView>>,
}

/// The run of `job` over `events`.
pub open spec fn serial_run(job: SerialJobView, events: Seq<SerialEventView>) -> SerialRun
    decreases events.len(),
{
    if events.len() == 0 {
        SerialRun { actions: Seq::empty(), outcome: None }
    } else {
        match serial_next(job, events[0]) {
            SerialStepView::Continue(next, action) => {
                let rest = serial_run(next, events.drop_first());
                SerialRun { actions: seq![action] + rest.actions, outcome: rest.outcome }
            },
            SerialStepView::Finished(outcome) => SerialRun {
                actions: Seq::empty(),
                outcome: Some(outcome),
            },
        }
    }
}

/// The number of chunks in which a payload of `len` bytes is sent.
pub open spec fn chunk_count(len: nat) -> nat {
    ((len + CHUNK_SIZE - 1) / (CHUNK_SIZE as int)) as nat
}

/// The chunk at `index`, counted from 0: chunk after chunk of the chunk size,
/// and what is left of the payload as the last one.
pub open spec fn chunk(payload: Seq<u8>, index: nat) -> Seq<u8> {
    chunk_at(payload, index * CHUNK_SIZE as nat)
}

/// All that a job asks for once the port is open, where nothing fails: each
/// chunk of the payload in turn, the pause after each chunk, and the flush.
pub open spec fn serial_plan(payload: Seq<u8>) -> Seq<SerialActionView> {
    let count = chunk_count(payload.len());
    Seq::new(
        2 * count + 1,
        |i: int|
            if i == 2 * count {
                SerialActionView::Flush
            } else if i % 2 == 0 {
                SerialActionView::Write { chunk: chunk(payload, (i / 2) as nat) }
            } else {
                SerialActionView::Pause { millis: CHUNK_PAUSE_MS }
            },
    )
}

/// The events of a call to which nothing fails: the port opens, every chunk
/// is written, every pause passes, and the port is flushed.
pub open spec fn serial_acknowledgements(len: nat) -> Seq<SerialEventView> {
    let count = chunk_count(len);
    Seq::new(
        2 * count + 2,
        |i: int|
            if i == 0 {
                SerialEventView::Opened
            } else if i == 2 * count + 1 {
                SerialEventView::Flushed
            } else if i % 2 == 1 {
                SerialEventView::Written
            } else {
                SerialEventView::Paused
            },
    )
}

/// The bytes that the actions ask to be written, in the order of the actions.
pub open spec fn bytes_written(actions: Seq<SerialActionView>) -> Seq<u8>
    decreases actions.len(),
{
    if actions.len() == 0 {
        Seq::empty()
    } else {
        let rest = bytes_written(actions.drop_first());
        match actions[0] {
            SerialActionView::Write { chunk } => chunk + rest,
            _ => rest,
        }
    }
}

/// How many actions of the plan the job has asked for.
spec fn position(job: SerialJobView) -> int {
    let asked = (job.sent + CHUNK_SIZE - 1) / (CHUNK_SIZE as int);
    match job.phase {
        SerialPhase::Opening => 0,
        SerialPhase::Writing => 2 * asked - 1,
        SerialPhase::Pausing => 2 * asked,
        SerialPhase::Flushing => 2 * (chunk_count(job.payload.len()) as int) + 1,
    }
}

proof fn lemma_run_unfold(job: SerialJobView, event: SerialEventView, later: Seq<SerialEventView>)
    ensures
        serial_run(job, seq![event] + later) == match serial_next(job, event) {
            SerialStepView::Continue(next, action) => SerialRun {
                actions: seq![action] + serial_run(next, later).actions,
                outcome: serial_run(next, later).outcome,
            },
            SerialStepView::Finished(outcome) => SerialRun {
                actions: Seq::empty(),
                outcome: Some(outcome),
            },
        },
{
    assert((seq![event] + later).drop_first() =~= later);
}

/// A step that goes on keeps the job well formed, asks for the next action
/// of the plan and moves one place along it.
proof fn lemma_step_follows_plan(job: SerialJobView, event: SerialEventView)
    requires
        job.well_formed(),
    ensures
        0 <= position(job) <= serial_plan(job.payload).len(),
        match serial_next(job, event) {
            SerialStepView::Continue(next, action) => {
                &&& next.well_formed()
                &&& next.payload == job.payload
                &&& position(job) < serial_plan(job.payload).len()
                &&& action == serial_plan(job.payload)[position(job)]
                &&& position(next) == position(job) + 1
            },
            SerialStepView::Finished(outcome) => outcome is Ok ==> position(job) == serial_plan(
                job.payload,
            ).len(),
        },
{
    let len = job.payload.len();
    let asked = (job.sent + CHUNK_SIZE - 1) / (CHUNK_SIZE as int);
    match serial_next(job, event) {
        SerialStepView::Continue(_, action) => {
            if action is Write {
                assert(job.sent < len);
                assert(job.sent == asked * CHUNK_SIZE);
                assert(action->chunk =~= chunk(job.payload, asked as nat));
            }
        },
        SerialStepView::Finished(_) => {},
    }
}

proof fn lemma_run_from(job: SerialJobView, events: Seq<SerialEventView>)
    requires
        job.well_formed(),
    ensures
        ({
            let run = serial_run(job, events);
            let plan = serial_plan(job.payload);
            let from = position(job);
            &&& 0 <= from
            &&& from + run.actions.len() <= plan.len()
            &&& run.actions == plan.subrange(from, from + run.actions.len())
            &&& run.outcome == Some(Ok::<(), TransportErrorView>(())) ==> from + run.actions.len()
                == plan.len()
            &&& run.outcome is None ==> run.actions.len() == events.len()
        }),
    decreases events.len(),
{
    let run = serial_run(job, events);
    let plan = serial_plan(job.payload);
    let from = position(job);
    if events.len() == 0 {
        lemma_step_follows_plan(job, SerialEventView::Opened);
        assert(run.actions =~= plan.subrange(from, from));
    } else {
        lemma_step_follows_plan(job, events[0]);
        match serial_next(job, events[0]) {
            SerialStepView::Continue(next, _) => {
                lemma_run_from(next, events.drop_first());
                assert(run.actions =~= plan.subrange(from, from + run.actions.len()));
            },
            SerialStepView::Finished(_) => {
                assert(run.actions =~= plan.subrange(from, from));
            },
        }
    }
}

/// Whatever the driver reports, what a job asks for once the port is open is
/// the plan from its start, as far as the call gets: the chunks of the
/// payload in their order, none left out and none twice, the pause after each
/// of them, and the flush last. A call that succeeds has asked for it all,
/// and a call that has not ended has asked for one action with each answer,
/// so that no call outlasts the answers to its plan.
pub proof fn lemma_serial_run_follows_plan(
    port: Seq<char>,
    baud_rate: u32,
    payload: Seq<u8>,
    events: Seq<SerialEventView>,
)
    ensures
        ({
            let run = serial_run(serial_start(port, baud_rate, payload), events);
            let plan = serial_plan(payload);
            &&& run.actions.len() <= plan.len()
            &&& run.actions == plan.take(run.actions.len() as int)
            &&& run.outcome == Some(Ok::<(), TransportErrorView>(())) ==> run.actions == plan
            &&& run.outcome is None ==> run.actions.len() == events.len()
        }),
{
    let job = serial_start(port, baud_rate, payload);
    let run = serial_run(job, events);
    let plan = serial_plan(payload);
    lemma_run_from(job, events);
    assert(plan.subrange(0, run.actions.len() as int) =~= plan.take(run.actions.len() as int));
    if run.actions.len() == plan.len() {
        assert(plan.take(run.actions.len() as int) =~= plan);
    }
}

/// Every chunk but the last holds as many bytes as the chunk size; the last
/// holds what is left, at least one byte.
pub proof fn lemma_chunk_sizes(payload: Seq<u8>, index: nat)
    requires
        index < chunk_count(payload.len()),
    ensures
        1 <= chunk(payload, index).len() <= CHUNK_SIZE,
        index + 1 < chunk_count(payload.len()) ==> chunk(payload, index).len() == CHUNK_SIZE,
        index + 1 == chunk_count(payload.len()) ==> chunk(payload, index).len() == payload.len()
            - index * CHUNK_SIZE,
{
}

proof fn lemma_plan_writes_rest(payload: Seq<u8>, from: int)
    requires
        0 <= from <= serial_plan(payload).len(),
    ensures
        ({
            let start = (from + 1) / 2 * CHUNK_SIZE;
            bytes_written(serial_plan(payload).skip(from)) == payload.skip(
                if start < payload.len() {
                    start
                } else {
                    payload.len() as int
                },
            )
        }),
    decreases serial_plan(payload).len() - from,
{
    let plan = serial_plan(payload);
    let rest = plan.skip(from);
    let start = (from + 1) / 2 * CHUNK_SIZE;
    let begin = if start < payload.len() {
        start
    } else {
        payload.len() as int
    };
    if from == plan.len() {
        assert(bytes_written(rest) =~= payload.skip(begin));
    } else {
        lemma_plan_writes_rest(payload, from + 1);
        assert(rest.drop_first() =~= plan.skip(from + 1));
        assert(rest[0] == plan[from]);
        assert(bytes_written(rest) =~= payload.skip(begin));
    }
}

/// The chunks of the plan, one after the other, are the payload.
pub proof fn lemma_plan_writes_payload(payload: Seq<u8>)
    ensures
        bytes_written(serial_plan(payload)) == payload,
{
    lemma_plan_writes_rest(payload, 0);
    assert(serial_plan(payload).skip(0) =~= serial_plan(payload));
    assert(payload.skip(0) =~= payload);
}

proof fn lemma_acknowledged_from(job: SerialJobView)
    requires
        job.well_formed(),
    ensures
        serial_run(
            job,
            serial_acknowledgements(job.payload.len()).skip(position(job)),
        ).outcome == Some(Ok::<(), TransportErrorView>(())),
    decreases serial_plan(job.payload).len() - position(job),
{
    let events = serial_acknowledgements(job.payload.len());
    let from = position(job);
    lemma_step_follows_plan(job, events[from]);
    let later = events.skip(from + 1);
    assert(events.skip(from) =~= seq![events[from]] + later);
    lemma_run_unfold(job, events[from], later);
    match serial_next(job, events[from]) {
        SerialStepView::Continue(next, _) => {
            lemma_acknowledged_from(next);
        },
        SerialStepView::Finished(_) => {},
    }
}

/// Where the port opens and every write, pause and flush succeeds, the job
/// asks for all of the plan, and the call succeeds.
pub proof fn lemma_serial_succeeds(port: Seq<char>, baud_rate: u32, payload: Seq<u8>)
    ensures
        serial_run(
            serial_start(port, baud_rate, payload),
            serial_acknowledgements(payload.len()),
        ) == (SerialRun { actions: serial_plan(payload), outcome: Some(Ok(())) }),
{
    let job = serial_start(port, baud_rate, payload);
    let events = serial_acknowledgements(payload.len());
    assert(events.skip(0) =~= events);
    lemma_acknowledged_from(job);
    lemma_serial_run_follows_plan(port, baud_rate, payload, events);
}

/// A port that cannot be opened fails the call with an `OpenError` that names
/// the port and the cause. Nothing is written, and nothing that is reported
/// afterwards makes the call succeed.
pub proof fn lemma_open_failure_ends_call(
    port: Seq<char>,
    baud_rate: u32,
    payload: Seq<u8>,
    cause: Seq<char>,
    later: Seq<SerialEventView>,
)
    ensures
        serial_run(
            serial_start(port, baud_rate, payload),
            seq![SerialEventView::OpenFailed { cause }] + later,
        ) == (SerialRun { actions: Seq::empty(), outcome: Some(Err(open_failure(port, cause))) }),
        open_failure(port, cause).kind == ErrorKind::OpenError,
{
    lemma_run_unfold(
        serial_start(port, baud_rate, payload),
        SerialEventView::OpenFailed { cause },
        later,
    );
}

} // verus!
