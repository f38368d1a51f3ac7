//! Sending a payload to a TCP endpoint.
//!
//! A [`TcpJob`] decides what is done next and what the call returns; a driver
//! performs each [`TcpAction`] and answers it with a [`TcpEvent`]. The job
//! asks for the host to be resolved, for a connection to the first address
//! within a fixed time, for the socket to be configured, for one write of the
//! whole payload and for a flush. Any failure but that of the flush ends the
//! call with an error.

use crate::error::{
    connect_failure, outcome_view, print_task_failure, resolution_failure, tcp_write_failure,
    unexpected_event_text, ErrorKind, TransportError, TransportErrorView,
};
use crate::text::{endpoint, endpoint_text};
use vstd::prelude::*;
use vstd::slice::slice_to_vec;

verus! {

/// The time allowed for the connection to be made, in milliseconds.
pub const CONNECT_TIMEOUT_MS: u64 = 3000;

/// The time allowed for a write on the connection, in milliseconds.
pub const WRITE_TIMEOUT_MS: u64 = 3000;

/// How far a TCP job has come: what it has asked for and waits to hear of.
#[derive(Clone, Copy, Debug, PartialEq, Eq, Structural)]
pub enum TcpPhase {
    Resolving,
    Connecting,
    Configuring,
    Writing,
    Flushing,
}

/// What a TCP job asks its driver to do.
#[derive(Clone, Debug, PartialEq, Eq)]
pub enum TcpAction {
    /// Resolve the host and port to socket addresses.
    Resolve { host: String, port: u16 },
    /// Connect to the resolved address at index `candidate`, giving up after
    /// `timeout_ms` milliseconds.
    Connect { candidate: usize, timeout_ms: u64 },
    /// Set the write timeout of the connection and switch Nagle's algorithm
    /// off where `no_delay` is set. A setting that the socket refuses is
    /// passed over.
    Configure { write_timeout_ms: u64, no_delay: bool },
    /// Write all of `payload` to the connection.
    Write { payload: Vec<u8> },
    /// Flush the connection.
    Flush,
}

/// Mathematical model of a [`TcpAction`].
pub enum TcpActionView {
    Resolve { host: Seq<char>, port: u16 },
    Connect { candidate: usize, timeout_ms: u64 },
    Configure { write_timeout_ms: u64, no_delay: bool },
    Write { payload: Seq<u8> },
    Flush,
}

impl View for TcpAction {
    type V = TcpActionView;

    open spec fn view(&self) -> TcpActionView {
        match self {
            TcpAction::Resolve { host, port } => TcpActionView::Resolve { host: host@, port: *port },
            TcpAction::Connect { candidate, timeout_ms } => TcpActionView::Connect {
                candidate: *candidate,
                timeout_ms: *timeout_ms,
            },
            TcpAction::Configure { write_timeout_ms, no_delay } => TcpActionView::Configure {
                write_timeout_ms: *write_timeout_ms,
                no_delay: *no_delay,
            },
            TcpAction::Write { payload } => TcpActionView::Write { payload: payload@ },
            TcpAction::Flush => TcpActionView::Flush,
        }
    }
}

/// What the driver reports of the action that it was asked for.
#[derive(Clone, Debug, PartialEq, Eq)]
pub enum TcpEvent {
    /// The resolver answered with `candidates` addresses.
    Resolved { candidates: usize },
    ResolveFailed { cause: String },
    Connected,
    ConnectFailed { cause: String },
    Configured,
    Written,
    WriteFailed { cause: String },
    Flushed,
    FlushFailed { cause: String },
}

/// Mathematical model of a [`TcpEvent`].
pub enum TcpEventView {
    Resolved { candidates: usize },
    ResolveFailed { cause: Seq<char> },
    Connected,
    ConnectFailed { cause: Seq<char> },
    Configured,
    Written,
    WriteFailed { cause: Seq<char> },
    Flushed,
    FlushFailed { cause: Seq<char> },
}

impl View for TcpEvent {
    type V = TcpEventView;

    open spec fn view(&self) -> TcpEventView {
        match self {
            TcpEvent::Resolved { candidates } => TcpEventView::Resolved { candidates: *candidates },
            TcpEvent::ResolveFailed { cause } => TcpEventView::ResolveFailed { cause: cause@ },
            TcpEvent::Connected => TcpEventView::Connected,
            TcpEvent::ConnectFailed { cause } => TcpEventView::ConnectFailed { cause: cause@ },
            TcpEvent::Configured => TcpEventView::Configured,
            TcpEvent::Written => TcpEventView::Written,
            TcpEvent::WriteFailed { cause } => TcpEventView::WriteFailed { cause: cause@ },
            TcpEvent::Flushed => TcpEventView::Flushed,
            TcpEvent::FlushFailed { cause } => TcpEventView::FlushFailed { cause: cause@ },
        }
    }
}

/// A call that sends one payload to one TCP endpoint.
#[derive(Clone, Debug)]
pub struct TcpJob {
    host: String,
    port: u16,
    payload: Vec<u8>,
    phase: TcpPhase,
}

/// Mathematical model of a [`TcpJob`].
pub struct TcpJobView {
    pub host: Seq<char>,
    pub port: u16,
    pub payload: Seq<u8>,
    pub phase: TcpPhase,
}

impl TcpJobView {
    /// The same job in another phase.
    pub open spec fn at(self, phase: TcpPhase) -> TcpJobView {
        TcpJobView { phase, ..self }
    }

    /// The error that ends the job where an event reaches it that answers
    /// nothing it asked for.
    pub open spec fn unexpected(self) -> TransportErrorView {
        print_task_failure(endpoint_text(self.host, self.port), unexpected_event_text())
    }
}

impl View for TcpJob {
    type V = TcpJobView;

    closed spec fn view(&self) -> TcpJobView {
        TcpJobView { host: self.host@, port: self.port, payload: self.payload@, phase: self.phase }
    }
}

/// A job and the action it asks for, or the outcome of the call.
#[derive(Debug)]
pub enum TcpStep {
    Continue(TcpJob, TcpAction),
    Finished(Result<(), TransportError>),
}

/// Mathematical model of a [`TcpStep`].
pub enum TcpStepView {
    Continue(TcpJobView, TcpActionView),
    Finished(Result<(), TransportErrorView>),
}

impl View for TcpStep {
    type V = TcpStepView;

    open spec fn view(&self) -> TcpStepView {
        match self {
            TcpStep::Continue(job, action) => TcpStepView::Continue(job@, action@),
            TcpStep::Finished(outcome) => TcpStepView::Finished(outcome_view(*outcome)),
        }
    }
}

/// The job at its start: it has asked for the host to be resolved.
pub open spec fn tcp_start(host: Seq<char>, port: u16, payload: Seq<u8>) -> TcpJobView {
    TcpJobView { host, port, payload, phase: TcpPhase::Resolving }
}

/// The first action of a job.
pub open spec fn tcp_first_action(host: Seq<char>, port: u16) -> TcpActionView {
    TcpActionView::Resolve { host, port }
}

/// What follows when `event` reaches `job`.
pub open spec fn tcp_next(job: TcpJobView, event: TcpEventView) -> TcpStepView {
    match (job.phase, event) {
        (TcpPhase::Resolving, TcpEventView::Resolved { candidates }) => if candidates == 0 {
            TcpStepView::Finished(Err(resolution_failure(job.host, job.port, None)))
        } else {
            TcpStepView::Continue(
                job.at(TcpPhase::Connecting),
                TcpActionView::Connect { candidate: 0, timeout_ms: CONNECT_TIMEOUT_MS },
            )
        },
        (TcpPhase::Resolving, TcpEventView::ResolveFailed { cause }) => TcpStepView::Finished(
            Err(resolution_failure(job.host, job.port, Some(cause))),
        ),
        (TcpPhase::Connecting, TcpEventView::Connected) => TcpStepView::Continue(
            job.at(TcpPhase::Configuring),
            TcpActionView::Configure { write_timeout_ms: WRITE_TIMEOUT_MS, no_delay: true },
        ),
        (TcpPhase::Connecting, TcpEventView::ConnectFailed { cause }) => TcpStepView::Finished(
            Err(connect_failure(job.host, job.port, cause)),
        ),
        (TcpPhase::Configuring, TcpEventView::Configured) => TcpStepView::Continue(
            job.at(TcpPhase::Writing),
            TcpActionView::Write { payload: job.payload },
        ),
        (TcpPhase::Writing, TcpEventView::Written) => TcpStepView::Continue(
            job.at(TcpPhase::Flushing),
            TcpActionView::Flush,
        ),
        (TcpPhase::Writing, TcpEventView::WriteFailed { cause }) => TcpStepView::Finished(
            Err(tcp_write_failure(job.host, job.port, cause)),
        ),
        (TcpPhase::Flushing, TcpEventView::Flushed) => TcpStepView::Finished(Ok(())),
        (TcpPhase::Flushing, TcpEventView::FlushFailed { .. }) => TcpStepView::Finished(Ok(())),
        _ => TcpStepView::Finished(Err(job.unexpected())),
    }
}

impl TcpJob {
    /// Starts a call that sends `payload` to `host:port`, and asks for the
    /// host to be resolved.
    pub fn begin(host: String, port: u16, payload: Vec<u8>) -> (start: (TcpJob, TcpAction))
        ensures
            start.0@ == tcp_start(host@, port, payload@),
            start.1@ == tcp_first_action(host@, port),
    {
        let action = TcpAction::Resolve { host: host.clone(), port };
        (TcpJob { host, port, payload, phase: TcpPhase::Resolving }, action)
    }

    fn proceed(self, phase: TcpPhase, action: TcpAction) -> (step: TcpStep)
        ensures
            step@ == TcpStepView::Continue(self@.at(phase), action@),
    {
        TcpStep::Continue(
            TcpJob { host: self.host, port: self.port, payload: self.payload, phase },
            action,
        )
    }

    fn reject(self) -> (step: TcpStep)
        ensures
            step@ == TcpStepView::Finished(Err(self@.unexpected())),
    {
        let target = endpoint(self.host.as_str(), self.port);
        TcpStep::Finished(Err(TransportError::print_task(target.as_str(), "unexpected event")))
    }

    /// Takes the driver's answer to the action that the job asked for and
    /// says what follows: the next action, or the outcome of the call. An
    /// answer to anything else ends the call as a failed task.
    pub fn step(self, event: TcpEvent) -> (step: TcpStep)
        ensures
            step@ == tcp_next(self@, event@),
    {
        match self.phase {
            TcpPhase::Resolving => match event {
                TcpEvent::Resolved { candidates } => {
                    if candidates == 0 {
                        TcpStep::Finished(
                            Err(TransportError::resolution(self.host.as_str(), self.port, None)),
                        )
                    } else {
                        self.proceed(
                            TcpPhase::Connecting,
                            TcpAction::Connect { candidate: 0, timeout_ms: CONNECT_TIMEOUT_MS },
                        )
                    }
                },
                TcpEvent::ResolveFailed { cause } => TcpStep::Finished(
                    Err(
                        TransportError::resolution(
                            self.host.as_str(),
                            self.port,
                            Some(cause.as_str()),
                        ),
                    ),
                ),
                _ => self.reject(),
            },
            TcpPhase::Connecting => match event {
                TcpEvent::Connected => self.proceed(
                    TcpPhase::Configuring,
                    TcpAction::Configure { write_timeout_ms: WRITE_TIMEOUT_MS, no_delay: true },
                ),
                TcpEvent::ConnectFailed { cause } => TcpStep::Finished(
                    Err(TransportError::connect(self.host.as_str(), self.port, cause.as_str())),
                ),
                _ => self.reject(),
            },
            TcpPhase::Configuring => match event {
                TcpEvent::Configured => {
                    let payload = slice_to_vec(self.payload.as_slice());
                    self.proceed(TcpPhase::Writing, TcpAction::Write { payload })
                },
                _ => self.reject(),
            },
            TcpPhase::Writing => match event {
                TcpEvent::Written => self.proceed(TcpPhase::Flushing, TcpAction::Flush),
                TcpEvent::WriteFailed { cause } => TcpStep::Finished(
                    Err(TransportError::tcp_write(self.host.as_str(), self.port, cause.as_str())),
                ),
                _ => self.reject(),
            },
            TcpPhase::Flushing => match event {
                TcpEvent::Flushed => TcpStep::Finished(Ok(())),
                TcpEvent::FlushFailed { .. } => TcpStep::Finished(Ok(())),
                _ => self.reject(),
            },
        }
    }
}

/// What a driver sees of a job over a sequence of events: the actions that
/// the job asks for in answer to them, and the outcome once the call has
/// ended. Events that come after the end are not looked at.
pub struct TcpRun {
    pub actions: Seq<TcpActionView>,
    pub outcome: Option<Result<(), TransportErrorView>>,
}

/// The run of `job` over `events`.
pub open spec fn tcp_run(job: TcpJobView, events: Seq<TcpEventView>) -> TcpRun
    decreases events.len(),
{
    if events.len() == 0 {
        TcpRun { actions: Seq::empty(), outcome: None }
    } else {
        match tcp_next(job, events[0]) {
            TcpStepView::Continue(next, action) => {
                let rest = tcp_run(next, events.drop_first());
                TcpRun { actions: seq![action] + rest.actions, outcome: rest.outcome }
            },
            TcpStepView::Finished(outcome) => TcpRun { actions: Seq::empty(), outcome: Some(outcome) },
        }
    }
}

/// All that a job asks for once the host is resolved, where nothing fails:
/// one connection, to the first address and within the connect timeout; the
/// write timeout set and Nagle's algorithm switched off; one write of the
/// whole payload; and the flush.
pub open spec fn tcp_plan(payload: Seq<u8>) -> Seq<TcpActionView> {
    seq![
        TcpActionView::Connect { candidate: 0, timeout_ms: CONNECT_TIMEOUT_MS },
        TcpActionView::Configure { write_timeout_ms: WRITE_TIMEOUT_MS, no_delay: true },
        TcpActionView::Write { payload },
        TcpActionView::Flush,
    ]
}

/// How many actions of the plan the job has asked for.
spec fn position(job: TcpJobView) -> int {
    match job.phase {
        TcpPhase::Resolving => 0,
        TcpPhase::Connecting => 1,
        TcpPhase::Configuring => 2,
        TcpPhase::Writing => 3,
        TcpPhase::Flushing => 4,
    }
}

proof fn lemma_run_unfold(job: TcpJobView, event: TcpEventView, later: Seq<TcpEventView>)
    ensures
        tcp_run(job, seq![event] + later) == match tcp_next(job, event) {
            TcpStepView::Continue(next, action) => TcpRun {
                actions: seq![action] + tcp_run(next, later).actions,
                outcome: tcp_run(next, later).outcome,
            },
            TcpStepView::Finished(outcome) => TcpRun { actions: Seq::empty(), outcome: Some(outcome) },
        },
{
    assert((seq![event] + later).drop_first() =~= later);
}

proof fn lemma_run_from(job: TcpJobView, events: Seq<TcpEventView>)
    ensures
        ({
            let run = tcp_run(job, events);
            let plan = tcp_plan(job.payload);
            let from = position(job);
            &&& from + run.actions.len() <= plan.len()
            &&& run.actions == plan.subrange(from, from + run.actions.len())
            &&& run.outcome == Some(Ok::<(), TransportErrorView>(())) ==> from + run.actions.len()
                == plan.len()
            &&& run.outcome is None ==> run.actions.len() == events.len()
        }),
    decreases events.len(),
{
    let run = tcp_run(job, events);
    let plan = tcp_plan(job.payload);
    let from = position(job);
    if events.len() == 0 {
        assert(run.actions =~= plan.subrange(from, from));
    } else {
        match tcp_next(job, events[0]) {
            TcpStepView::Continue(next, action) => {
                lemma_run_from(next, events.drop_first());
                assert(action == plan[from]);
                assert(run.actions =~= plan.subrange(from, from + run.actions.len()));
            },
            TcpStepView::Finished(_) => {
                assert(run.actions =~= plan.subrange(from, from));
            },
        }
    }
}

/// Whatever the driver reports, what a job asks for once the host is
/// resolved is the plan from its start, as far as the call gets: never a
/// second connection, never a second write, and no write of anything but the
/// whole payload, byte for byte. A call that succeeds has asked for it all,
/// and a call that has not ended has asked for one action with each answer,
/// so that no call outlasts the answers to its plan.
pub proof fn lemma_tcp_run_follows_plan(
    host: Seq<char>,
    port: u16,
    payload: Seq<u8>,
    events: Seq<TcpEventView>,
)
    ensures
        ({
            let run = tcp_run(tcp_start(host, port, payload), events);
            let plan = tcp_plan(payload);
            &&& run.actions.len() <= plan.len()
            &&& run.actions == plan.take(run.actions.len() as int)
            &&& run.outcome == Some(Ok::<(), TransportErrorView>(())) ==> run.actions == plan
            &&& run.outcome is None ==> run.actions.len() == events.len()
        }),
{
    let job = tcp_start(host, port, payload);
    let run = tcp_run(job, events);
    let plan = tcp_plan(payload);
    lemma_run_from(job, events);
    assert(plan.subrange(0, run.actions.len() as int) =~= plan.take(run.actions.len() as int));
    if run.actions.len() == plan.len() {
        assert(plan.take(run.actions.len() as int) =~= plan);
    }
}

/// Where the host resolves to an address and the connection, the settings
/// and the write succeed, the job asks for all of the plan, and the call
/// succeeds whether or not the flush did.
pub proof fn lemma_tcp_succeeds(
    host: Seq<char>,
    port: u16,
    payload: Seq<u8>,
    candidates: usize,
    flushed: TcpEventView,
)
    requires
        candidates > 0,
        flushed is Flushed || flushed is FlushFailed,
    ensures
        tcp_run(
            tcp_start(host, port, payload),
            seq![
                TcpEventView::Resolved { candidates },
                TcpEventView::Connected,
                TcpEventView::Configured,
                TcpEventView::Written,
                flushed,
            ],
        ) == (TcpRun { actions: tcp_plan(payload), outcome: Some(Ok(())) }),
{
    let job = tcp_start(host, port, payload);
    let e4 = seq![flushed];
    let e3 = seq![TcpEventView::Written] + e4;
    let e2 = seq![TcpEventView::Configured] + e3;
    let e1 = seq![TcpEventView::Connected] + e2;
    let e0 = seq![TcpEventView::Resolved { candidates }] + e1;
    lemma_run_unfold(job, TcpEventView::Resolved { candidates }, e1);
    lemma_run_unfold(job.at(TcpPhase::Connecting), TcpEventView::Connected, e2);
    lemma_run_unfold(job.at(TcpPhase::Configuring), TcpEventView::Configured, e3);
    lemma_run_unfold(job.at(TcpPhase::Writing), TcpEventView::Written, e4);
    lemma_run_unfold(job.at(TcpPhase::Flushing), flushed, Seq::empty());
    assert(e4 =~= seq![flushed] + Seq::empty());
    assert(e0 =~= seq![
        TcpEventView::Resolved { candidates },
        TcpEventView::Connected,
        TcpEventView::Configured,
        TcpEventView::Written,
        flushed,
    ]);
    assert(tcp_run(job, e0).actions =~= tcp_plan(payload));
}

/// A connection that is not made fails the call with a `ConnectError` that
/// names the endpoint and the cause. The one attempt was given the connect
/// timeout of three seconds; no other is made, nothing is written, and
/// nothing that is reported afterwards makes the call succeed.
pub proof fn lemma_connect_failure_ends_call(
    host: Seq<char>,
    port: u16,
    payload: Seq<u8>,
    candidates: usize,
    cause: Seq<char>,
    later: Seq<TcpEventView>,
)
    requires
        candidates > 0,
    ensures
        tcp_run(
            tcp_start(host, port, payload),
            seq![TcpEventView::Resolved { candidates }, TcpEventView::ConnectFailed { cause }]
                + later,
        ) == (TcpRun {
            actions: seq![TcpActionView::Connect { candidate: 0, timeout_ms: 3000 }],
            outcome: Some(Err(connect_failure(host, port, cause))),
        }),
        connect_failure(host, port, cause).kind == ErrorKind::ConnectError,
{
    let job = tcp_start(host, port, payload);
    let e1 = seq![TcpEventView::ConnectFailed { cause }] + later;
    lemma_run_unfold(job, TcpEventView::Resolved { candidates }, e1);
    lemma_run_unfold(job.at(TcpPhase::Connecting), TcpEventView::ConnectFailed { cause }, later);
    assert(seq![TcpEventView::Resolved { candidates }] + e1 =~= seq![
        TcpEventView::Resolved { candidates },
        TcpEventView::ConnectFailed { cause },
    ] + later);
    assert(tcp_run(job, seq![TcpEventView::Resolved { candidates }] + e1).actions =~= seq![
        TcpActionView::Connect { candidate: 0, timeout_ms: 3000 },
    ]);
}

} // verus!
