//! The course of a session: a relay is connected, a channel bound, the
//! configuration asked for, and packets carried, until something ends it.

use vstd::prelude::*;
use crate::client::cause::{
    allocate_code, chain_of, first_stun_code, quota_spec, Cause, ChainModel, ErrorChain,
};
use crate::client::session::{
    allocate_chain, config_step, config_timeout_ms, config_timeout_spec, repairs_streams,
    task_failure, task_failure_spec, tasks_to_stop, three_texts, ConfigAction,
    ConfigDeliveryState, ConfigEvent, ConfigFailure, SessionEnd, TaskEnd, TurnAllocateError,
    CONFIG_RESPONSE_ATTEMPTS, CONNECT_CANCEL_GRACE_MS, SESSION_SHUTDOWN_GRACE_MS,
};
use crate::client::turn_endpoint::optional;
use crate::text::{copy_text, has_text};

verus! {

#[derive(Clone, Copy, Debug, PartialEq, Eq, Structural)]
pub enum SessionStage {
    Connecting,
    /// The client stops while the relay is being connected.
    Cancelling,
    Binding,
    Configuring { attempt: usize },
    Running,
    /// The client stops, and leave is taken of the server.
    Leaving,
    Over,
}

/// What happens to a session.
pub enum SessionEvent {
    /// The client stops.
    Cancelled,
    /// The relay gave an allocation.
    Connected,
    /// It gave none, or not in time.
    NotConnected,
    ChannelBound,
    ChannelRefused,
    /// The configuration could not be asked for.
    NotSent,
    /// The answer could not be read.
    NotReceived,
    Heard(ConfigEvent),
    /// The server wants the stream made anew.
    Repair,
    /// A task ended, well or not.
    Writer { failed: bool },
    Reader { failed: bool },
    /// Leave was taken of the server, or it did not answer.
    Left,
    /// The task of the session is gone, or has not ended within its grace.
    Task { end: TaskEnd },
}

/// What a configuration's answer says, as plain values.
pub enum Answer {
    Timeout,
    PanelRestart,
    Unrelated,
    NoConfig,
    Config(Seq<char>),
    Rejected(Seq<char>),
}

impl View for ConfigEvent {
    type V = Answer;

    open spec fn view(&self) -> Answer {
        match self {
            ConfigEvent::Timeout => Answer::Timeout,
            ConfigEvent::PanelRestart => Answer::PanelRestart,
            ConfigEvent::Unrelated => Answer::Unrelated,
            ConfigEvent::NoConfig => Answer::NoConfig,
            ConfigEvent::Config(value) => Answer::Config(value@),
            ConfigEvent::Rejected(text) => Answer::Rejected(text@),
        }
    }
}

/// An event as plain values.
pub enum EventModel {
    Cancelled,
    Connected,
    NotConnected,
    ChannelBound,
    ChannelRefused,
    NotSent,
    NotReceived,
    Heard(Answer),
    Repair,
    Writer { failed: bool },
    Reader { failed: bool },
    Left,
    Task { end: TaskEnd },
}

impl View for SessionEvent {
    type V = EventModel;

    open spec fn view(&self) -> EventModel {
        match self {
            SessionEvent::Cancelled => EventModel::Cancelled,
            SessionEvent::Connected => EventModel::Connected,
            SessionEvent::NotConnected => EventModel::NotConnected,
            SessionEvent::ChannelBound => EventModel::ChannelBound,
            SessionEvent::ChannelRefused => EventModel::ChannelRefused,
            SessionEvent::NotSent => EventModel::NotSent,
            SessionEvent::NotReceived => EventModel::NotReceived,
            SessionEvent::Heard(event) => EventModel::Heard(event@),
            SessionEvent::Repair => EventModel::Repair,
            SessionEvent::Writer { failed } => EventModel::Writer { failed: *failed },
            SessionEvent::Reader { failed } => EventModel::Reader { failed: *failed },
            SessionEvent::Left => EventModel::Left,
            SessionEvent::Task { end } => EventModel::Task { end: *end },
        }
    }
}

/// Why a session failed.
pub enum SessionFailure {
    /// The relay gave no allocation.
    Allocate,
    ChannelBind,
    ConfigSend,
    ConfigReceive,
    Config(ConfigFailure),
    Repair,
    Writer,
    Reader,
    /// The task is gone; what is said before the error that it left.
    Task(&'static str),
}

/// Why the configuration was not had, as plain values.
pub enum ConfigFailureModel {
    NoAnswer,
    Rejected(Seq<char>),
}

/// A failure as plain values.
pub enum FailureModel {
    Allocate,
    ChannelBind,
    ConfigSend,
    ConfigReceive,
    Config(ConfigFailureModel),
    Repair,
    Writer,
    Reader,
    Task(Seq<char>),
}

impl FailureModel {
    /// What is said of a failure, before the error beneath it or in its place; of
    /// a writer or a reader that failed, nothing but its error.
    pub open spec fn text(self) -> Seq<char> {
        match self {
            FailureModel::Allocate => "TURN Allocate: "@,
            FailureModel::ChannelBind => "TURN ChannelBind обязателен"@,
            FailureModel::ConfigSend => "отправка GETCONF"@,
            FailureModel::ConfigReceive => "GETCONF чтение ответа конфига"@,
            FailureModel::Config(ConfigFailureModel::NoAnswer) =>
                ConfigFailure::NoAnswer.text_spec(),
            FailureModel::Config(ConfigFailureModel::Rejected(text)) => text,
            FailureModel::Repair => "TARGET_REPAIR"@,
            FailureModel::Writer | FailureModel::Reader => Seq::empty(),
            FailureModel::Task(text) => text,
        }
    }
}

impl View for SessionFailure {
    type V = FailureModel;

    open spec fn view(&self) -> FailureModel {
        match self {
            SessionFailure::Allocate => FailureModel::Allocate,
            SessionFailure::ChannelBind => FailureModel::ChannelBind,
            SessionFailure::ConfigSend => FailureModel::ConfigSend,
            SessionFailure::ConfigReceive => FailureModel::ConfigReceive,
            SessionFailure::Config(ConfigFailure::NoAnswer) => FailureModel::Config(
                ConfigFailureModel::NoAnswer,
            ),
            SessionFailure::Config(ConfigFailure::Rejected(text)) => FailureModel::Config(
                ConfigFailureModel::Rejected(text@),
            ),
            SessionFailure::Repair => FailureModel::Repair,
            SessionFailure::Writer => FailureModel::Writer,
            SessionFailure::Reader => FailureModel::Reader,
            SessionFailure::Task(text) => FailureModel::Task(text@),
        }
    }
}

impl SessionFailure {
    /// What is said of a failure, before the error beneath it or in its place.
    pub fn text(&self) -> (r: String)
        ensures
            r@ == self@.text(),
    {
        match self {
            SessionFailure::Allocate => copy_text("TURN Allocate: "),
            SessionFailure::ChannelBind => copy_text("TURN ChannelBind обязателен"),
            SessionFailure::ConfigSend => copy_text("отправка GETCONF"),
            SessionFailure::ConfigReceive => copy_text("GETCONF чтение ответа конфига"),
            SessionFailure::Config(failure) => failure.text(),
            SessionFailure::Repair => copy_text("TARGET_REPAIR"),
            SessionFailure::Writer => String::new(),
            SessionFailure::Reader => String::new(),
            SessionFailure::Task(text) => copy_text(text),
        }
    }
}

/// How a session ended: well, and whether it delivered a configuration, or not.
pub enum SessionOutcome {
    Finished(bool),
    Failed(SessionFailure),
}

pub enum OutcomeModel {
    Finished(bool),
    Failed(FailureModel),
}

impl View for SessionOutcome {
    type V = OutcomeModel;

    open spec fn view(&self) -> OutcomeModel {
        match self {
            SessionOutcome::Finished(delivered) => OutcomeModel::Finished(*delivered),
            SessionOutcome::Failed(failure) => OutcomeModel::Failed(failure@),
        }
    }
}

/// What a session does next.
pub enum SessionAction {
    /// The event means nothing here.
    Ignore,
    /// Wait a little longer for the relay.
    AwaitRelay { grace_ms: u64 },
    /// Wait a little longer for the task of the session.
    AwaitTask { grace_ms: u64 },
    /// Take leave of the server; where a grace is given, it begins now.
    TakeLeave { within_ms: Option<u64> },
    /// Tell that an allocation was had, and bind a channel.
    Bind,
    /// Ask for the configuration, and wait so long for an answer.
    Ask { timeout_ms: u64 },
    KeepWaiting,
    /// Tell that the panel restarts, and wait on.
    ReportRestart,
    /// The stream is ready: hand the configuration on, and carry packets.
    Run { config: Option<String>, stream_repair: bool },
    End(SessionEnding),
}

/// What is done when a session ends.
pub struct SessionEnding {
    /// The writer and the reader are stopped.
    pub stop_writer: bool,
    pub stop_reader: bool,
    /// The allocation is given back.
    pub release: bool,
    /// The name under which the failure is told.
    pub report: Option<&'static str>,
    pub outcome: SessionOutcome,
}

#[verifier::ext_equal]
pub struct EndingModel {
    pub stop_writer: bool,
    pub stop_reader: bool,
    pub release: bool,
    pub report: Option<Seq<char>>,
    pub outcome: OutcomeModel,
}

impl View for SessionEnding {
    type V = EndingModel;

    open spec fn view(&self) -> EndingModel {
        EndingModel {
            stop_writer: self.stop_writer,
            stop_reader: self.stop_reader,
            release: self.release,
            report: optional(self.report),
            outcome: self.outcome@,
        }
    }
}

pub enum ActionModel {
    Ignore,
    AwaitRelay { grace_ms: u64 },
    AwaitTask { grace_ms: u64 },
    TakeLeave { within_ms: Option<u64> },
    Bind,
    Ask { timeout_ms: u64 },
    KeepWaiting,
    ReportRestart,
    Run { config: Option<Seq<char>>, stream_repair: bool },
    End(EndingModel),
}

impl View for SessionAction {
    type V = ActionModel;

    open spec fn view(&self) -> ActionModel {
        match self {
            SessionAction::Ignore => ActionModel::Ignore,
            SessionAction::AwaitRelay { grace_ms } => ActionModel::AwaitRelay {
                grace_ms: *grace_ms,
            },
            SessionAction::AwaitTask { grace_ms } => ActionModel::AwaitTask {
                grace_ms: *grace_ms,
            },
            SessionAction::TakeLeave { within_ms } => ActionModel::TakeLeave {
                within_ms: *within_ms,
            },
            SessionAction::Bind => ActionModel::Bind,
            SessionAction::Ask { timeout_ms } => ActionModel::Ask { timeout_ms: *timeout_ms },
            SessionAction::KeepWaiting => ActionModel::KeepWaiting,
            SessionAction::ReportRestart => ActionModel::ReportRestart,
            SessionAction::Run { config, stream_repair } => ActionModel::Run {
                config: match config {
                    Some(text) => Some(text@),
                    None => None,
                },
                stream_repair: *stream_repair,
            },
            SessionAction::End(ending) => ActionModel::End(ending@),
        }
    }
}

/// A session on its course.
#[derive(Clone, Copy, Debug, PartialEq, Eq, Structural)]
pub struct SessionFlow {
    pub stage: SessionStage,
    /// It asks for the configuration for all.
    pub get_config: bool,
    /// It delivered one.
    pub delivered: bool,
    /// The client stops, and the grace of the session's task runs.
    pub stopping: bool,
}

/// The end of a session that has no tasks yet.
pub open spec fn early_end(release: bool, outcome: OutcomeModel) -> EndingModel {
    EndingModel {
        stop_writer: false,
        stop_reader: false,
        release,
        report: None,
        outcome,
    }
}

/// The end of a session that carried packets.
pub open spec fn late_end(end: SessionEnd, outcome: OutcomeModel) -> EndingModel {
    EndingModel {
        stop_writer: end != SessionEnd::Writer,
        stop_reader: end != SessionEnd::Reader,
        release: true,
        report: None,
        outcome,
    }
}

/// What becomes of a session, of the right to the configuration, and what is
/// done.
pub struct Course {
    pub flow: SessionFlow,
    pub flight: ConfigDeliveryState,
    pub action: ActionModel,
}

impl SessionFlow {
    pub open spec fn wf(self) -> bool {
        self.stage matches SessionStage::Configuring { attempt } ==> attempt
            < CONFIG_RESPONSE_ATTEMPTS
    }

    pub open spec fn to(self, stage: SessionStage) -> SessionFlow {
        SessionFlow { stage, ..self }
    }

    /// The asking is over: who asks for all gives the right to ask back.
    pub open spec fn landed(self, flight: ConfigDeliveryState, delivered: bool) ->
        ConfigDeliveryState {
        if self.get_config {
            ConfigDeliveryState { sent: flight.sent || delivered, in_flight: false }
        } else {
            flight
        }
    }

    pub open spec fn over(self, flight: ConfigDeliveryState, ending: EndingModel) -> Course {
        Course { flow: self.to(SessionStage::Over), flight, action: ActionModel::End(ending) }
    }

    pub open spec fn heard(self, flight: ConfigDeliveryState, attempt: usize, answer: Answer) ->
        Course {
        match answer {
            Answer::Timeout => if attempt + 1 < CONFIG_RESPONSE_ATTEMPTS {
                Course {
                    flow: self.to(SessionStage::Configuring { attempt: (attempt + 1) as usize }),
                    flight,
                    action: ActionModel::Ask { timeout_ms: config_timeout_spec(attempt + 1) },
                }
            } else {
                self.over(
                    self.landed(flight, false),
                    EndingModel {
                        report: if self.get_config {
                            Some("handshake_timeout"@)
                        } else {
                            None
                        },
                        ..early_end(true, OutcomeModel::Failed(FailureModel::Config(ConfigFailureModel::NoAnswer)))
                    },
                )
            },
            Answer::PanelRestart => Course {
                flow: self,
                flight,
                action: ActionModel::ReportRestart,
            },
            Answer::Unrelated => Course { flow: self, flight, action: ActionModel::KeepWaiting },
            Answer::NoConfig => Course {
                flow: SessionFlow { stage: SessionStage::Running, delivered: false, ..self },
                flight: self.landed(flight, false),
                action: ActionModel::Run { config: None, stream_repair: false },
            },
            Answer::Config(value) => Course {
                flow: SessionFlow {
                    stage: SessionStage::Running,
                    delivered: self.get_config,
                    ..self
                },
                flight: self.landed(flight, true),
                action: ActionModel::Run {
                    config: if self.get_config {
                        Some(value)
                    } else {
                        None
                    },
                    stream_repair: repairs_streams(value),
                },
            },
            Answer::Rejected(text) => self.over(
                self.landed(flight, false),
                EndingModel {
                    report: if self.get_config && has_text(text, "FATAL_"@) {
                        Some("handshake_rejected"@)
                    } else {
                        None
                    },
                    ..early_end(
                        true,
                        OutcomeModel::Failed(
                            FailureModel::Config(ConfigFailureModel::Rejected(text)),
                        ),
                    )
                },
            ),
        }
    }

    pub open spec fn course(self, flight: ConfigDeliveryState, event: EventModel) -> Course {
        let stays = Course { flow: self, flight, action: ActionModel::Ignore };
        match (self.stage, event) {
            (SessionStage::Connecting, EventModel::Connected) => Course {
                flow: self.to(SessionStage::Binding),
                flight,
                action: ActionModel::Bind,
            },
            (SessionStage::Connecting, EventModel::NotConnected) => self.over(
                flight,
                early_end(false, OutcomeModel::Failed(FailureModel::Allocate)),
            ),
            (SessionStage::Connecting, EventModel::Cancelled) => Course {
                flow: self.to(SessionStage::Cancelling),
                flight,
                action: ActionModel::AwaitRelay { grace_ms: CONNECT_CANCEL_GRACE_MS },
            },
            (SessionStage::Cancelling, EventModel::Connected) => self.over(
                flight,
                early_end(true, OutcomeModel::Finished(false)),
            ),
            (SessionStage::Cancelling, EventModel::NotConnected) => self.over(
                flight,
                early_end(false, OutcomeModel::Finished(false)),
            ),
            (SessionStage::Binding, EventModel::ChannelBound) => Course {
                flow: self.to(SessionStage::Configuring { attempt: 0 }),
                flight,
                action: ActionModel::Ask { timeout_ms: config_timeout_spec(0) },
            },
            (SessionStage::Binding, EventModel::ChannelRefused) => self.over(
                flight,
                early_end(true, OutcomeModel::Failed(FailureModel::ChannelBind)),
            ),
            (SessionStage::Binding, EventModel::Cancelled) => self.over(
                flight,
                early_end(true, OutcomeModel::Finished(false)),
            ),
            (SessionStage::Configuring { .. }, EventModel::Cancelled) => if self.stopping {
                stays
            } else {
                Course {
                    flow: SessionFlow { stopping: true, ..self },
                    flight,
                    action: ActionModel::AwaitTask { grace_ms: SESSION_SHUTDOWN_GRACE_MS },
                }
            },
            (SessionStage::Configuring { .. }, EventModel::NotSent) => self.over(
                self.landed(flight, false),
                early_end(true, OutcomeModel::Failed(FailureModel::ConfigSend)),
            ),
            (SessionStage::Configuring { .. }, EventModel::NotReceived) => self.over(
                self.landed(flight, false),
                early_end(true, OutcomeModel::Failed(FailureModel::ConfigReceive)),
            ),
            (SessionStage::Configuring { attempt }, EventModel::Heard(answer)) => self.heard(
                flight,
                attempt,
                answer,
            ),
            (SessionStage::Running, EventModel::Cancelled) => Course {
                flow: SessionFlow { stage: SessionStage::Leaving, stopping: true, ..self },
                flight,
                action: ActionModel::TakeLeave {
                    within_ms: if self.stopping {
                        None
                    } else {
                        Some(SESSION_SHUTDOWN_GRACE_MS)
                    },
                },
            },
            (SessionStage::Leaving, EventModel::Left) => self.over(
                flight,
                late_end(SessionEnd::Cancelled, OutcomeModel::Finished(self.delivered)),
            ),
            (SessionStage::Running, EventModel::Repair) => self.over(
                flight,
                late_end(SessionEnd::Repair, OutcomeModel::Failed(FailureModel::Repair)),
            ),
            (SessionStage::Running, EventModel::Writer { failed: bad }) => self.over(
                flight,
                late_end(
                    SessionEnd::Writer,
                    if bad {
                        OutcomeModel::Failed(FailureModel::Writer)
                    } else {
                        OutcomeModel::Finished(self.delivered)
                    },
                ),
            ),
            (SessionStage::Running, EventModel::Reader { failed: bad }) => self.over(
                flight,
                late_end(
                    SessionEnd::Reader,
                    if bad {
                        OutcomeModel::Failed(FailureModel::Reader)
                    } else {
                        OutcomeModel::Finished(self.delivered)
                    },
                ),
            ),
            (
                SessionStage::Configuring { .. } | SessionStage::Running | SessionStage::Leaving,
                EventModel::Task { end },
            ) => match task_failure_spec(self.stopping, end) {
                Some(text) => self.over(
                    flight,
                    early_end(true, OutcomeModel::Failed(FailureModel::Task(text))),
                ),
                None => if self.stopping && end == TaskEnd::Overdue {
                    self.over(flight, early_end(true, OutcomeModel::Finished(false)))
                } else {
                    stays
                },
            },
            _ => stays,
        }
    }

    /// The relay has been chosen and is being connected.
    pub fn start(get_config: bool) -> (r: SessionFlow)
        ensures
            r == (SessionFlow {
                stage: SessionStage::Connecting,
                get_config,
                delivered: false,
                stopping: false,
            }),
            r.wf(),
    {
        SessionFlow {
            stage: SessionStage::Connecting,
            get_config,
            delivered: false,
            stopping: false,
        }
    }

    fn close(&mut self, release: bool, outcome: SessionOutcome) -> (r: SessionAction)
        ensures
            *final(self) == old(self).to(SessionStage::Over),
            r@ == ActionModel::End(early_end(release, outcome@)),
    {
        self.stage = SessionStage::Over;
        SessionAction::End(
            SessionEnding {
                stop_writer: false,
                stop_reader: false,
                        release,
                report: None,
                outcome,
            },
        )
    }

    fn stop(&mut self, end: SessionEnd, outcome: SessionOutcome) -> (r: SessionAction)
        ensures
            *final(self) == old(self).to(SessionStage::Over),
            r@ == ActionModel::End(late_end(end, outcome@)),
    {
        self.stage = SessionStage::Over;
        let (stop_writer, stop_reader) = tasks_to_stop(end);
        SessionAction::End(
            SessionEnding {
                stop_writer,
                stop_reader,
                release: true,
                report: None,
                outcome,
            },
        )
    }

    fn land(&self, flight: &mut ConfigDeliveryState, delivered: bool)
        ensures
            *final(flight) == self.landed(*old(flight), delivered),
    {
        if self.get_config {
            flight.complete(delivered);
        }
    }

    fn hear(&mut self, flight: &mut ConfigDeliveryState, attempt: usize, event: ConfigEvent) -> (r:
        SessionAction)
        requires
            old(self).stage == (SessionStage::Configuring { attempt }),
            attempt < CONFIG_RESPONSE_ATTEMPTS,
        ensures
            (Course { flow: *final(self), flight: *final(flight), action: r@ }) == old(self).heard(
                *old(flight),
                attempt,
                event@,
            ),
    {
        let (action, config) = config_step(attempt, self.get_config, event);
        match action {
            ConfigAction::ReportRestart => SessionAction::ReportRestart,
            ConfigAction::KeepWaiting => SessionAction::KeepWaiting,
            ConfigAction::Retry { timeout_ms } => {
                self.stage = SessionStage::Configuring { attempt: attempt + 1 };
                SessionAction::Ask { timeout_ms }
            },
            ConfigAction::Done { delivered, stream_repair } => {
                self.land(flight, delivered);
                self.stage = SessionStage::Running;
                self.delivered = delivered;
                SessionAction::Run { config, stream_repair }
            },
            ConfigAction::Fail { report, message } => {
                self.land(flight, false);
                self.stage = SessionStage::Over;
                SessionAction::End(
                    SessionEnding {
                        stop_writer: false,
                        stop_reader: false,
                                        release: true,
                        report,
                        outcome: SessionOutcome::Failed(SessionFailure::Config(message)),
                    },
                )
            },
        }
    }

    /// Takes an event in.
    pub fn step(&mut self, flight: &mut ConfigDeliveryState, event: SessionEvent) -> (r:
        SessionAction)
        requires
            old(self).wf(),
        ensures
            final(self).wf(),
            (Course { flow: *final(self), flight: *final(flight), action: r@ }) == old(self).course(
                *old(flight),
                event@,
            ),
    {
        match self.stage {
            SessionStage::Connecting => match event {
                SessionEvent::Connected => {
                    self.stage = SessionStage::Binding;
                    SessionAction::Bind
                },
                SessionEvent::NotConnected => self.close(
                    false,
                    SessionOutcome::Failed(SessionFailure::Allocate),
                ),
                SessionEvent::Cancelled => {
                    self.stage = SessionStage::Cancelling;
                    SessionAction::AwaitRelay { grace_ms: CONNECT_CANCEL_GRACE_MS }
                },
                _ => SessionAction::Ignore,
            },
            SessionStage::Cancelling => match event {
                SessionEvent::Connected => self.close(true, SessionOutcome::Finished(false)),
                SessionEvent::NotConnected => self.close(false, SessionOutcome::Finished(false)),
                _ => SessionAction::Ignore,
            },
            SessionStage::Binding => match event {
                SessionEvent::ChannelBound => {
                    self.stage = SessionStage::Configuring { attempt: 0 };
                    SessionAction::Ask { timeout_ms: config_timeout_ms(0) }
                },
                SessionEvent::ChannelRefused => self.close(
                    true,
                    SessionOutcome::Failed(SessionFailure::ChannelBind),
                ),
                SessionEvent::Cancelled => self.close(true, SessionOutcome::Finished(false)),
                _ => SessionAction::Ignore,
            },
            SessionStage::Configuring { attempt } => match event {
                SessionEvent::Cancelled => {
                    if self.stopping {
                        return SessionAction::Ignore;
                    }
                    self.stopping = true;
                    SessionAction::AwaitTask { grace_ms: SESSION_SHUTDOWN_GRACE_MS }
                },
                SessionEvent::NotSent => {
                    self.land(flight, false);
                    self.close(true, SessionOutcome::Failed(SessionFailure::ConfigSend))
                },
                SessionEvent::NotReceived => {
                    self.land(flight, false);
                    self.close(true, SessionOutcome::Failed(SessionFailure::ConfigReceive))
                },
                SessionEvent::Heard(heard) => self.hear(flight, attempt, heard),
                SessionEvent::Task { end } => self.lose(end),
                _ => SessionAction::Ignore,
            },
            SessionStage::Running => match event {
                SessionEvent::Cancelled => {
                    let within_ms: Option<u64> = if self.stopping {
                        None
                    } else {
                        Some(SESSION_SHUTDOWN_GRACE_MS)
                    };
                    self.stage = SessionStage::Leaving;
                    self.stopping = true;
                    SessionAction::TakeLeave { within_ms }
                },
                SessionEvent::Repair => self.stop(
                    SessionEnd::Repair,
                    SessionOutcome::Failed(SessionFailure::Repair),
                ),
                SessionEvent::Writer { failed } => {
                    let outcome = if failed {
                        SessionOutcome::Failed(SessionFailure::Writer)
                    } else {
                        SessionOutcome::Finished(self.delivered)
                    };
                    self.stop(SessionEnd::Writer, outcome)
                },
                SessionEvent::Reader { failed } => {
                    let outcome = if failed {
                        SessionOutcome::Failed(SessionFailure::Reader)
                    } else {
                        SessionOutcome::Finished(self.delivered)
                    };
                    self.stop(SessionEnd::Reader, outcome)
                },
                SessionEvent::Task { end } => self.lose(end),
                _ => SessionAction::Ignore,
            },
            SessionStage::Leaving => match event {
                SessionEvent::Left => {
                    let delivered = self.delivered;
                    self.stop(SessionEnd::Cancelled, SessionOutcome::Finished(delivered))
                },
                SessionEvent::Task { end } => self.lose(end),
                _ => SessionAction::Ignore,
            },
            SessionStage::Over => SessionAction::Ignore,
        }
    }

    fn lose(&mut self, end: TaskEnd) -> (r: SessionAction)
        ensures
            match task_failure_spec(old(self).stopping, end) {
                Some(text) => {
                    &&& *final(self) == old(self).to(SessionStage::Over)
                    &&& r@ == ActionModel::End(
                        early_end(true, OutcomeModel::Failed(FailureModel::Task(text))),
                    )
                },
                None => if old(self).stopping && end == TaskEnd::Overdue {
                    &&& *final(self) == old(self).to(SessionStage::Over)
                    &&& r@ == ActionModel::End(early_end(true, OutcomeModel::Finished(false)))
                } else {
                    *final(self) == *old(self) && r is Ignore
                },
            },
    {
        match task_failure(self.stopping, end) {
            Some(text) => self.close(true, SessionOutcome::Failed(SessionFailure::Task(text))),
            None => {
                if self.stopping && end == TaskEnd::Overdue {
                    self.close(true, SessionOutcome::Finished(false))
                } else {
                    SessionAction::Ignore
                }
            },
        }
    }
}

// ---------------------------------------------------------------------------
// What a worker is told
// ---------------------------------------------------------------------------

/// A text that no error lies beneath.
pub open spec fn plain_chain(text: Seq<char>) -> ChainModel {
    ChainModel { causes: seq![Cause::Other], message: text, full: text }
}

/// A text said before the error beneath it.
pub open spec fn context_chain(text: Seq<char>, beneath: ChainModel) -> ChainModel {
    ChainModel {
        causes: seq![Cause::Other] + beneath.causes,
        message: text,
        full: text + ": "@ + beneath.full,
    }
}

/// The error that a failure is to the worker, with the one that lies beneath it,
/// if any does.
pub open spec fn failure_chain_spec(failure: FailureModel, beneath: Option<ChainModel>) ->
    ChainModel {
    match beneath {
        None => ChainModel {
            causes: seq![
                if failure is Allocate {
                    Cause::TurnAllocate
                } else {
                    Cause::Other
                },
            ],
            ..plain_chain(failure.text())
        },
        Some(beneath) => match failure {
            FailureModel::Allocate => allocate_chain(beneath),
            FailureModel::ChannelBind | FailureModel::ConfigSend
            | FailureModel::ConfigReceive => context_chain(failure.text(), beneath),
            FailureModel::Config(_) | FailureModel::Repair => plain_chain(failure.text()),
            FailureModel::Writer | FailureModel::Reader => beneath,
            FailureModel::Task(text) => plain_chain(text + beneath.message),
        },
    }
}

fn plain_error(text: String) -> (r: ErrorChain)
    ensures
        r@ == plain_chain(text@),
{
    let mut causes: Vec<Cause> = Vec::new();
    causes.push(Cause::Other);
    let full = copy_text(text.as_str());
    let r = ErrorChain { causes, message: text, full };
    assert(r@ =~= plain_chain(text@));
    r
}

fn context_error(text: String, beneath: ErrorChain) -> (r: ErrorChain)
    ensures
        r@ == context_chain(text@, beneath@),
{
    let mut causes: Vec<Cause> = beneath.causes;
    causes.insert(0, Cause::Other);
    let full = three_texts(text.as_str(), ": ", beneath.full.as_str());
    let r = ErrorChain { causes, message: text, full };
    assert(r@ =~= context_chain(text@, beneath@));
    r
}

/// The error that a failure is to the worker, with the one that lies beneath it,
/// if any does.
pub fn failure_chain(failure: &SessionFailure, beneath: Option<ErrorChain>) -> (r: ErrorChain)
    ensures
        r@ == failure_chain_spec(failure@, chain_of(beneath)),
{
    let beneath = match beneath {
        Some(beneath) => beneath,
        None => {
            let mut alone = plain_error(failure.text());
            if let SessionFailure::Allocate = failure {
                alone.causes = vec![Cause::TurnAllocate];
            }
            assert(alone@ =~= failure_chain_spec(failure@, None));
            return alone;
        },
    };
    match failure {
        SessionFailure::Allocate => TurnAllocateError(beneath).into_chain(),
        SessionFailure::ChannelBind | SessionFailure::ConfigSend
        | SessionFailure::ConfigReceive => context_error(failure.text(), beneath),
        SessionFailure::Config(_) | SessionFailure::Repair => plain_error(failure.text()),
        SessionFailure::Writer | SessionFailure::Reader => beneath,
        SessionFailure::Task(text) => plain_error(
            three_texts(text, "", beneath.message.as_str()),
        ),
    }
}

impl SessionOutcome {
    /// The error that the worker is handed, where the session failed.
    pub fn error(&self, beneath: Option<ErrorChain>) -> (r: Option<ErrorChain>)
        ensures
            chain_of(r) == match self@ {
                OutcomeModel::Finished(_) => None,
                OutcomeModel::Failed(failure) => Some(
                    failure_chain_spec(failure, chain_of(beneath)),
                ),
            },
    {
        match self {
            SessionOutcome::Finished(_) => None,
            SessionOutcome::Failed(failure) => Some(failure_chain(failure, beneath)),
        }
    }
}

pub open spec fn no_allocation(causes: Seq<Cause>) -> bool {
    forall|i: int| 0 <= i < causes.len() ==> #[trigger] causes[i] != Cause::TurnAllocate
}

proof fn lemma_no_allocation(causes: Seq<Cause>)
    requires
        no_allocation(causes),
    ensures
        allocate_code(causes) is None,
    decreases causes.len(),
{
    if causes.len() > 0 {
        assert(causes[0] != Cause::TurnAllocate);
        lemma_no_allocation(causes.skip(1));
    }
}

/// A relay that has no room costs the credentials where it refused the
/// allocation itself, whatever the message says; the same code beneath a writer or
/// a reader that failed is no such refusal by its causes.
pub proof fn law_full_relay_is_known_by_its_kind(beneath: ChainModel, name: Seq<char>)
    requires
        first_stun_code(beneath.causes) == Some(486i32),
    ensures
        quota_spec(failure_chain_spec(FailureModel::Allocate, Some(beneath)).causes, name),
        forall|failure: FailureModel|
            #![trigger failure_chain_spec(failure, Some(beneath))]
            failure != FailureModel::Allocate && no_allocation(beneath.causes) ==> allocate_code(
                failure_chain_spec(failure, Some(beneath)).causes,
            ) is None,
{
    let refused = failure_chain_spec(FailureModel::Allocate, Some(beneath)).causes;
    assert(refused.skip(1) =~= beneath.causes);
    assert forall|failure: FailureModel|
        #![trigger failure_chain_spec(failure, Some(beneath))]
        failure != FailureModel::Allocate && no_allocation(
            beneath.causes,
        ) implies allocate_code(failure_chain_spec(failure, Some(beneath)).causes) is None by {
        let causes = failure_chain_spec(failure, Some(beneath)).causes;
        assert(no_allocation(causes)) by {
            assert forall|i: int| 0 <= i < causes.len() implies #[trigger] causes[i]
                != Cause::TurnAllocate by {
                if causes.len() == beneath.causes.len() + 1 && i > 0 {
                    assert(causes[i] == beneath.causes[i - 1]);
                }
            }
        }
        lemma_no_allocation(causes);
    }
}

/// A session holds an allocation once a relay gave one, until it ends.
pub open spec fn holds_allocation(stage: SessionStage) -> bool {
    stage is Binding || stage is Configuring || stage is Running || stage is Leaving
}

/// A session that ends gives back the allocation that it holds, and no other.
pub proof fn law_allocation_is_given_back(
    flow: SessionFlow,
    flight: ConfigDeliveryState,
    event: EventModel,
)
    ensures
        flow.course(flight, event).action matches ActionModel::End(ending) ==> {
            &&& flow.course(flight, event).flow.stage is Over
            &&& ending.release == (holds_allocation(flow.stage) || (flow.stage is Cancelling
                && event is Connected))
        },
        holds_allocation(flow.stage) && !holds_allocation(flow.course(flight, event).flow.stage)
            ==> flow.course(flight, event).action is End,
{
}

/// A session that the client stops has not failed: one that took its leave tells
/// what it delivered, and one that outlives its grace is given up. Only a task
/// that broke down meanwhile fails.
pub proof fn law_stopped_session_has_not_failed(
    flow: SessionFlow,
    flight: ConfigDeliveryState,
    event: EventModel,
)
    ensures
        flow.course(flight, EventModel::Cancelled).action matches ActionModel::End(ending)
            ==> ending.outcome is Finished,
        flow.stage is Cancelling || (flow.stage is Leaving && (event is Left || event
            == (EventModel::Task { end: TaskEnd::Overdue }))) ==> (flow.course(
            flight,
            event,
        ).action matches ActionModel::End(ending) ==> ending.outcome is Finished),
        flow.stage is Leaving ==> flow.course(flight, EventModel::Left).action == ActionModel::End(
            late_end(SessionEnd::Cancelled, OutcomeModel::Finished(flow.delivered)),
        ),
{
}

/// A session that carries packets takes its leave before it ends for the client's
/// sake, and waits for that no longer than its grace.
pub proof fn law_running_session_takes_leave(flow: SessionFlow, flight: ConfigDeliveryState)
    requires
        flow.stage is Running,
    ensures
        ({
            let after = flow.course(flight, EventModel::Cancelled);
            let overdue = after.flow.course(
                flight,
                EventModel::Task { end: TaskEnd::Overdue },
            );
            &&& after.action is TakeLeave
            &&& after.flow.stage is Leaving && after.flow.stopping
            &&& overdue.action == ActionModel::End(
                early_end(true, OutcomeModel::Finished(false)),
            )
        }),
{
}

/// A session that fails while it asks for the configuration leaves the right to
/// ask to others.
pub proof fn law_failed_asking_frees_the_right(
    flow: SessionFlow,
    flight: ConfigDeliveryState,
    answer: Answer,
)
    requires
        flow.stage is Configuring,
        flow.get_config,
    ensures
        flow.course(flight, EventModel::Heard(answer)).action is End ==> !flow.course(
            flight,
            EventModel::Heard(answer),
        ).flight.in_flight,
        !flow.course(flight, EventModel::NotSent).flight.in_flight,
        !flow.course(flight, EventModel::NotReceived).flight.in_flight,
        flow.course(flight, EventModel::NotSent).flight.sent == flight.sent,
{
}

/// What has ended stays so.
pub proof fn law_ended_session_stays_so(
    flow: SessionFlow,
    flight: ConfigDeliveryState,
    event: EventModel,
)
    requires
        flow.stage is Over,
    ensures
        flow.course(flight, event).flow == flow,
        flow.course(flight, event).flight == flight,
        flow.course(flight, event).action is Ignore,
{
}

} // verus!
