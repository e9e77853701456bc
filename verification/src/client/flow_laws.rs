//! The way of a session and of the worker that runs it, step by step.

use vstd::prelude::*;
use crate::client::credentials::{CacheModel, LeaseModel};
use crate::client::replay::ReplayModel;
use crate::client::session::{ConfigDeliveryState, TaskEnd};
use crate::client::session_flow::{
    ActionModel, Answer, EventModel, FailureModel, OutcomeModel, SessionFlow, SessionStage,
};
use crate::client::worker_flow::{
    LaunchAction, LaunchEventModel, LaunchModel, LaunchStage,
};

verus! {

/// A session that all goes well for: the relay is connected, a channel is bound,
/// the configuration is asked for and had, and packets are carried.
pub proof fn law_session_goes_its_way(
    flow: SessionFlow,
    flight: ConfigDeliveryState,
    attempt: usize,
    value: Seq<char>,
)
    ensures
        flow.stage is Connecting ==> {
            let r = flow.course(flight, EventModel::Connected);
            r.flow.stage is Binding && r.action is Bind && r.flight == flight
        },
        flow.stage is Binding ==> {
            let r = flow.course(flight, EventModel::ChannelBound);
            &&& r.flow.stage == (SessionStage::Configuring { attempt: 0 })
            &&& r.action == (ActionModel::Ask { timeout_ms: 750 })
        },
        flow.stage == (SessionStage::Configuring { attempt }) ==> {
            let r = flow.course(flight, EventModel::Heard(Answer::Config(value)));
            &&& r.flow.stage is Running
            &&& r.flow.delivered == flow.get_config
            &&& r.action matches ActionModel::Run { config, .. }
            &&& flow.get_config ==> config == Some(value) && r.flight.sent && !r.flight.in_flight
            &&& !flow.get_config ==> config is None && r.flight == flight
        },
        flow.stage == (SessionStage::Configuring { attempt }) ==> {
            let r = flow.course(flight, EventModel::Heard(Answer::NoConfig));
            &&& r.flow.stage is Running
            &&& !r.flow.delivered
            &&& r.action == (ActionModel::Run { config: None, stream_repair: false })
            &&& r.flight.sent == flight.sent
        },
{
}

/// Each thing that can go wrong ends the session with its own failure.
pub proof fn law_failures_are_told_apart(
    flow: SessionFlow,
    flight: ConfigDeliveryState,
    attempt: usize,
)
    ensures
        flow.stage is Connecting ==> (flow.course(flight, EventModel::NotConnected).action matches
            ActionModel::End(ending) && ending.outcome == OutcomeModel::Failed(
            FailureModel::Allocate,
        ) && !ending.release),
        flow.stage is Binding ==> (flow.course(flight, EventModel::ChannelRefused).action matches
            ActionModel::End(ending) && ending.outcome == OutcomeModel::Failed(
            FailureModel::ChannelBind,
        ) && ending.release),
        flow.stage is Configuring ==> (flow.course(flight, EventModel::NotSent).action matches
            ActionModel::End(ending) && ending.outcome == OutcomeModel::Failed(
            FailureModel::ConfigSend,
        )),
        flow.stage is Configuring ==> (flow.course(flight, EventModel::NotReceived).action matches
            ActionModel::End(ending) && ending.outcome == OutcomeModel::Failed(
            FailureModel::ConfigReceive,
        )),
        flow.stage is Running ==> (flow.course(flight, EventModel::Repair).action matches
            ActionModel::End(ending) && ending.outcome == OutcomeModel::Failed(FailureModel::Repair)
            && ending.stop_writer && ending.stop_reader),
        flow.stage is Running ==> (flow.course(
            flight,
            EventModel::Writer { failed: true },
        ).action matches ActionModel::End(ending) && ending.outcome == OutcomeModel::Failed(
            FailureModel::Writer,
        ) && !ending.stop_writer && ending.stop_reader),
        flow.stage is Running ==> (flow.course(
            flight,
            EventModel::Reader { failed: true },
        ).action matches ActionModel::End(ending) && ending.outcome == OutcomeModel::Failed(
            FailureModel::Reader,
        ) && ending.stop_writer && !ending.stop_reader),
        flow.stage is Running ==> (flow.course(
            flight,
            EventModel::Reader { failed: false },
        ).action matches ActionModel::End(ending) && ending.outcome == OutcomeModel::Finished(
            flow.delivered,
        )),
        flow.stage == (SessionStage::Configuring { attempt }) && attempt < 2 ==> {
            let r = flow.course(flight, EventModel::Heard(Answer::Timeout));
            &&& r.action is Ask
            &&& r.flow.stage == (SessionStage::Configuring { attempt: (attempt + 1) as usize })
            &&& r.flight == flight
        },
        flow.stage == (SessionStage::Configuring { attempt }) && attempt == 2 ==> flow.course(
            flight,
            EventModel::Heard(Answer::Timeout),
        ).action is End,
{
}

/// A session that is stopped waits for the relay for a second, and for its own task
/// for two; a task that broke down is told.
pub proof fn law_stopping_has_its_grace(
    flow: SessionFlow,
    flight: ConfigDeliveryState,
    end: TaskEnd,
)
    ensures
        flow.stage is Connecting ==> flow.course(flight, EventModel::Cancelled).action == (
        ActionModel::AwaitRelay { grace_ms: 1_000 }),
        flow.stage is Configuring && !flow.stopping ==> flow.course(
            flight,
            EventModel::Cancelled,
        ).action == (ActionModel::AwaitTask { grace_ms: 2_000 }),
        flow.stage is Running && !flow.stopping ==> flow.course(
            flight,
            EventModel::Cancelled,
        ).action == (ActionModel::TakeLeave { within_ms: Some(2_000) }),
        flow.stage is Running && flow.stopping ==> flow.course(
            flight,
            EventModel::Cancelled,
        ).action == (ActionModel::TakeLeave { within_ms: None }),
        (flow.stage is Configuring || flow.stage is Running || flow.stage is Leaving) && (
        end is Panicked || end is Stopped) ==> (flow.course(
            flight,
            EventModel::Task { end },
        ).action matches ActionModel::End(ending) && ending.outcome is Failed && ending.release),
        flow.stage is Running && end is Finished ==> flow.course(
            flight,
            EventModel::Task { end },
        ).action is Ignore,
        flow.stage is Binding ==> (flow.course(
            flight,
            EventModel::Cancelled,
        ).action matches ActionModel::End(ending) && ending.release),
{
}

/// A worker waits while the client is paused, gets its share, waits for its turn and
/// once more for the client, and runs; each session begins its search one relay
/// further than the last.
pub proof fn law_worker_goes_its_way(
    launch: LaunchModel,
    cache: CacheModel,
    cursor: usize,
    flight: ConfigDeliveryState,
    lease: LeaseModel,
    cancelled: bool,
)
    ensures
        launch.stage is Resuming ==> {
            let r = launch.course(
                cache,
                false,
                cursor,
                flight,
                LaunchEventModel::Waited { go_on: true },
            );
            r.action is Ask && r.launch.stage is Asking && r.cache == cache
        },
        launch.stage is Asking ==> {
            let r = launch.course(
                cache,
                false,
                cursor,
                flight,
                LaunchEventModel::Asked { lease: Some(lease), cancelled },
            );
            r.action is AwaitTurn && r.launch.stage is Pacing && r.launch.lease == Some(lease)
        },
        launch.stage is Asking ==> launch.course(
            cache,
            false,
            cursor,
            flight,
            LaunchEventModel::Asked { lease: None, cancelled: false },
        ).action is Ask,
        launch.stage is Asking ==> launch.course(
            cache,
            false,
            cursor,
            flight,
            LaunchEventModel::Asked { lease: None, cancelled: true },
        ).action is Stop,
        launch.stage is Asking ==> launch.course(
            cache,
            true,
            cursor,
            flight,
            LaunchEventModel::Asked { lease: None, cancelled: false },
        ).action is Stop,
        launch.stage is Pacing ==> {
            let r = launch.course(
                cache,
                false,
                cursor,
                flight,
                LaunchEventModel::Waited { go_on: true },
            );
            r.action is AwaitResume && r.launch.stage is Confirming && r.launch.lease
                == launch.lease
        },
        launch.stage is Confirming && cursor < usize::MAX ==> {
            let r = launch.course(
                cache,
                false,
                cursor,
                flight,
                LaunchEventModel::Waited { go_on: true },
            );
            &&& r.action matches LaunchAction::Run { get_config, cursor: at }
            &&& at == cursor
            &&& r.cursor == cursor + 1
            &&& get_config == (!flight.sent && !flight.in_flight)
            &&& r.launch.lease == launch.lease
            &&& r.cache == cache
        },
        launch.stage is Resuming ==> launch.course(
            cache,
            true,
            cursor,
            flight,
            LaunchEventModel::Waited { go_on: true },
        ).action is Stop,
{
}

/// An allocation that was had is taken note of once, with the share that it was had
/// with, and tells that the network works; one that was not changes nothing.
pub proof fn law_allocations_are_noted(
    launch: LaunchModel,
    cache: CacheModel,
    unavailable: bool,
    cursor: usize,
    flight: ConfigDeliveryState,
    get_config: bool,
    started: Option<bool>,
)
    requires
        launch.lease is Some,
        launch.stage == (LaunchStage::Running { get_config, started, allocated: None }),
    ensures
        ({
            let had = launch.course(
                cache,
                unavailable,
                cursor,
                flight,
                LaunchEventModel::Allocated { allocated: true },
            );
            let missed = launch.course(
                cache,
                unavailable,
                cursor,
                flight,
                LaunchEventModel::Allocated { allocated: false },
            );
            &&& had.action is ReportRecovery
            &&& had.cache == cache.record_allocation(launch.lease->0)
            &&& missed.action is Ignore
            &&& missed.cache == cache
            &&& had.launch.course(
                had.cache,
                unavailable,
                cursor,
                flight,
                LaunchEventModel::Allocated { allocated: true },
            ).cache == had.cache
        }),
{
}

/// A packet that is let through or refused leaves the memory of the others as it
/// is: none is taken for seen that was not, and none in the window is forgotten.
pub proof fn law_packets_are_remembered_apart(model: ReplayModel, counter: u64, other: u64)
    requires
        model.wf(),
        other != counter,
    ensures
        model.accept(counter).0.seen.contains(other) ==> model.seen.contains(other),
        model.seen.contains(other) && model.accept(counter).0.highest->0 - other < 16_384
            ==> model.accept(counter).0.seen.contains(other),
        model.accept(counter).1 ==> model.accept(counter).0.seen.contains(counter),
        !model.accept(counter).1 ==> model.accept(counter).0 == model,
{
}

} // verus!
