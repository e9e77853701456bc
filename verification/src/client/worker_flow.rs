//! The way of a worker to its session: it waits while the client is paused, gets
//! a share in the credentials of its cohort, takes its turn, and begins.

use vstd::prelude::*;
use crate::client::credentials::{CacheModel, CredentialCache, CredentialLease, LeaseModel};
use crate::client::pacing::ConfigFlightGuard;
use crate::client::session::ConfigDeliveryState;
use crate::client::worker::WorkerState;

verus! {

#[derive(Clone, Copy, Debug, PartialEq, Eq, Structural)]
pub enum LaunchStage {
    /// Waits while the client is paused.
    Resuming,
    /// Waits for a share in the credentials.
    Asking,
    /// Waits for its turn.
    Pacing,
    /// Waits once more, if the client was paused meanwhile.
    Confirming,
    /// The session runs; whether its allocation was begun and was had, where that
    /// is known.
    Running { get_config: bool, started: Option<bool>, allocated: Option<bool> },
    Stopped,
}

/// What happens to a worker on its way.
pub enum LaunchEvent {
    /// A wait is over: the worker goes on, or the client stops.
    Waited { go_on: bool },
    /// What came of asking for credentials, and whether the client stops.
    Asked { lease: Option<CredentialLease>, cancelled: bool },
    /// Whether the session begins to allocate, or ends without.
    AllocationStarted { started: bool },
    /// Whether the relay gave an allocation, or the session ends without.
    Allocated { allocated: bool },
}

pub enum LaunchEventModel {
    Waited { go_on: bool },
    Asked { lease: Option<LeaseModel>, cancelled: bool },
    AllocationStarted { started: bool },
    Allocated { allocated: bool },
}

pub open spec fn lease_model(lease: Option<CredentialLease>) -> Option<LeaseModel> {
    match lease {
        Some(lease) => Some(lease@),
        None => None,
    }
}

impl View for LaunchEvent {
    type V = LaunchEventModel;

    open spec fn view(&self) -> LaunchEventModel {
        match self {
            LaunchEvent::Waited { go_on } => LaunchEventModel::Waited { go_on: *go_on },
            LaunchEvent::Asked { lease, cancelled } => LaunchEventModel::Asked {
                lease: lease_model(*lease),
                cancelled: *cancelled,
            },
            LaunchEvent::AllocationStarted { started } => LaunchEventModel::AllocationStarted {
                started: *started,
            },
            LaunchEvent::Allocated { allocated } => LaunchEventModel::Allocated {
                allocated: *allocated,
            },
        }
    }
}

/// What a worker does next.
#[derive(Clone, Copy, Debug, PartialEq, Eq, Structural)]
pub enum LaunchAction {
    /// The event means nothing here.
    Ignore,
    /// Ask the cohort for credentials.
    Ask,
    AwaitTurn,
    AwaitResume,
    /// Run a session, which asks for the configuration for all or not, and begins
    /// its search for a relay at the given place.
    Run { get_config: bool, cursor: usize },
    /// Tell that the network works.
    ReportRecovery,
    Stop,
}

/// A worker on its way to a session, with the share that it holds.
pub struct WorkerLaunch {
    pub stage: LaunchStage,
    pub lease: Option<CredentialLease>,
}

#[verifier::ext_equal]
pub struct LaunchModel {
    pub stage: LaunchStage,
    pub lease: Option<LeaseModel>,
}

impl View for WorkerLaunch {
    type V = LaunchModel;

    open spec fn view(&self) -> LaunchModel {
        LaunchModel { stage: self.stage, lease: lease_model(self.lease) }
    }
}

/// What a step makes of a worker and of what it shares with others.
#[verifier::ext_equal]
pub struct LaunchCourse {
    pub launch: LaunchModel,
    pub cache: CacheModel,
    pub cursor: usize,
    pub flight: ConfigDeliveryState,
    pub action: LaunchAction,
}

pub open spec fn next_cursor(cursor: usize) -> usize {
    if cursor == usize::MAX {
        0
    } else {
        (cursor + 1) as usize
    }
}

impl LaunchModel {
    /// A worker has a share from the moment that it got one until its session is
    /// over.
    pub open spec fn wf(self) -> bool {
        (self.stage is Pacing || self.stage is Confirming || self.stage is Running)
            == self.lease is Some
    }

    pub open spec fn to(self, stage: LaunchStage) -> LaunchModel {
        LaunchModel { stage, ..self }
    }

    pub open spec fn stopped(self) -> LaunchModel {
        LaunchModel { stage: LaunchStage::Stopped, lease: None }
    }

    pub open spec fn course(
        self,
        cache: CacheModel,
        unavailable: bool,
        cursor: usize,
        flight: ConfigDeliveryState,
        event: LaunchEventModel,
    ) -> LaunchCourse {
        let stays = LaunchCourse {
            launch: self,
            cache,
            cursor,
            flight,
            action: LaunchAction::Ignore,
        };
        match (self.stage, event) {
            (LaunchStage::Resuming, LaunchEventModel::Waited { go_on }) => if go_on
                && !unavailable {
                LaunchCourse {
                    launch: self.to(LaunchStage::Asking),
                    action: LaunchAction::Ask,
                    ..stays
                }
            } else {
                LaunchCourse { launch: self.stopped(), action: LaunchAction::Stop, ..stays }
            },
            (LaunchStage::Asking, LaunchEventModel::Asked { lease, cancelled }) => match lease {
                Some(lease) => LaunchCourse {
                    launch: LaunchModel { stage: LaunchStage::Pacing, lease: Some(lease) },
                    action: LaunchAction::AwaitTurn,
                    ..stays
                },
                None => if cancelled || unavailable {
                    LaunchCourse { launch: self.stopped(), action: LaunchAction::Stop, ..stays }
                } else {
                    LaunchCourse { action: LaunchAction::Ask, ..stays }
                },
            },
            (LaunchStage::Pacing, LaunchEventModel::Waited { go_on }) => if go_on {
                LaunchCourse {
                    launch: self.to(LaunchStage::Confirming),
                    action: LaunchAction::AwaitResume,
                    ..stays
                }
            } else {
                LaunchCourse {
                    launch: self.stopped(),
                    cache: cache.release(self.lease->0),
                    action: LaunchAction::Stop,
                    ..stays
                }
            },
            (LaunchStage::Confirming, LaunchEventModel::Waited { go_on }) => if go_on {
                let get_config = !flight.sent && !flight.in_flight;
                LaunchCourse {
                    launch: self.to(
                        LaunchStage::Running { get_config, started: None, allocated: None },
                    ),
                    cursor: next_cursor(cursor),
                    flight: ConfigDeliveryState {
                        in_flight: flight.in_flight || get_config,
                        ..flight
                    },
                    action: LaunchAction::Run { get_config, cursor },
                    ..stays
                }
            } else {
                LaunchCourse {
                    launch: self.stopped(),
                    cache: cache.release(self.lease->0),
                    action: LaunchAction::Stop,
                    ..stays
                }
            },
            (
                LaunchStage::Running { get_config, started: None, allocated },
                LaunchEventModel::AllocationStarted { started },
            ) => LaunchCourse {
                launch: self.to(
                    LaunchStage::Running { get_config, started: Some(started), allocated },
                ),
                ..stays
            },
            (
                LaunchStage::Running { get_config, started, allocated: None },
                LaunchEventModel::Allocated { allocated },
            ) => LaunchCourse {
                launch: self.to(
                    LaunchStage::Running { get_config, started, allocated: Some(allocated) },
                ),
                cache: if allocated {
                    cache.record_allocation(self.lease->0)
                } else {
                    cache
                },
                action: if allocated {
                    LaunchAction::ReportRecovery
                } else {
                    LaunchAction::Ignore
                },
                ..stays
            },
            _ => stays,
        }
    }
}

impl WorkerLaunch {
    /// A worker that waits while the client is paused.
    pub fn new() -> (r: WorkerLaunch)
        ensures
            r@ == (LaunchModel { stage: LaunchStage::Resuming, lease: None }),
            r@.wf(),
    {
        WorkerLaunch { stage: LaunchStage::Resuming, lease: None }
    }

    /// Whether the session began to allocate, as far as the worker knows.
    pub fn allocation_started(&self) -> (r: bool)
        ensures
            r == (self.stage matches LaunchStage::Running { started: Some(true), .. }),
    {
        match self.stage {
            LaunchStage::Running { started: Some(started), .. } => started,
            _ => false,
        }
    }

    fn give_up(&mut self, cache: &mut CredentialCache) -> (r: LaunchAction)
        requires
            old(cache).wf(),
            old(self).lease is Some,
        ensures
            final(cache).wf(),
            final(cache)@ == old(cache)@.release(old(self)@.lease->0),
            final(self)@ == old(self)@.stopped(),
            r == LaunchAction::Stop,
    {
        if let Some(lease) = self.lease.take() {
            cache.release(&lease);
        }
        self.stage = LaunchStage::Stopped;
        LaunchAction::Stop
    }

    /// Takes an event in; a cohort is unavailable once its hash is of no use.
    pub fn step(
        &mut self,
        cache: &mut CredentialCache,
        unavailable: bool,
        state: &mut WorkerState,
        flight: &mut ConfigDeliveryState,
        event: LaunchEvent,
    ) -> (r: LaunchAction)
        requires
            old(self)@.wf(),
            old(cache).wf(),
        ensures
            final(self)@.wf(),
            final(cache).wf(),
            final(state).attempt == old(state).attempt,
            (LaunchCourse {
                launch: final(self)@,
                cache: final(cache)@,
                cursor: final(state).endpoint_cursor,
                flight: *final(flight),
                action: r,
            }) == old(self)@.course(
                old(cache)@,
                unavailable,
                old(state).endpoint_cursor,
                *old(flight),
                event@,
            ),
    {
        match self.stage {
            LaunchStage::Resuming => match event {
                LaunchEvent::Waited { go_on } => {
                    if go_on && !unavailable {
                        self.stage = LaunchStage::Asking;
                        LaunchAction::Ask
                    } else {
                        self.stage = LaunchStage::Stopped;
                        LaunchAction::Stop
                    }
                },
                _ => LaunchAction::Ignore,
            },
            LaunchStage::Asking => match event {
                LaunchEvent::Asked { lease, cancelled } => match lease {
                    Some(lease) => {
                        self.stage = LaunchStage::Pacing;
                        self.lease = Some(lease);
                        LaunchAction::AwaitTurn
                    },
                    None => {
                        if cancelled || unavailable {
                            self.stage = LaunchStage::Stopped;
                            LaunchAction::Stop
                        } else {
                            LaunchAction::Ask
                        }
                    },
                },
                _ => LaunchAction::Ignore,
            },
            LaunchStage::Pacing => match event {
                LaunchEvent::Waited { go_on } => {
                    if go_on {
                        self.stage = LaunchStage::Confirming;
                        LaunchAction::AwaitResume
                    } else {
                        self.give_up(cache)
                    }
                },
                _ => LaunchAction::Ignore,
            },
            LaunchStage::Confirming => match event {
                LaunchEvent::Waited { go_on } => {
                    if go_on {
                        let get_config = ConfigFlightGuard::acquire(flight).acquired;
                        let cursor: usize = state.next_endpoint();
                        self.stage =
                        LaunchStage::Running { get_config, started: None, allocated: None };
                        LaunchAction::Run { get_config, cursor }
                    } else {
                        self.give_up(cache)
                    }
                },
                _ => LaunchAction::Ignore,
            },
            LaunchStage::Running { get_config, started, allocated } => match event {
                LaunchEvent::AllocationStarted { started: begun } => {
                    if started.is_none() {
                        self.stage =
                        LaunchStage::Running { get_config, started: Some(begun), allocated };
                    }
                    LaunchAction::Ignore
                },
                LaunchEvent::Allocated { allocated: had } => {
                    if allocated.is_some() {
                        return LaunchAction::Ignore;
                    }
                    self.stage =
                    LaunchStage::Running { get_config, started, allocated: Some(had) };
                    if had {
                        if let Some(lease) = &self.lease {
                            cache.record_allocation(lease);
                        }
                        LaunchAction::ReportRecovery
                    } else {
                        LaunchAction::Ignore
                    }
                },
                _ => LaunchAction::Ignore,
            },
            LaunchStage::Stopped => LaunchAction::Ignore,
        }
    }
}

/// A worker that stops before its session leaves the credentials of its cohort
/// as it found them.
pub proof fn law_unused_share_is_given_back(
    cache: CacheModel,
    launch: LaunchModel,
    unavailable: bool,
    cursor: usize,
    flight: ConfigDeliveryState,
)
    requires
        launch.stage is Pacing || launch.stage is Confirming,
        launch.lease is Some,
        cache.reserve().1 == launch.lease,
    ensures
        ({
            let end = launch.course(
                cache.reserve().0,
                unavailable,
                cursor,
                flight,
                LaunchEventModel::Waited { go_on: false },
            );
            end.cache == cache && end.launch.lease is None && end.action == LaunchAction::Stop
                && end.flight == flight
        }),
{
    let reserved = cache.reserve().0;
    assert(reserved.release(launch.lease->0) =~= cache);
}

/// No more than one worker at a time has the right to ask for the configuration.
pub proof fn law_one_asks_for_the_configuration(
    launch: LaunchModel,
    cache: CacheModel,
    unavailable: bool,
    cursor: usize,
    flight: ConfigDeliveryState,
    event: LaunchEventModel,
)
    ensures
        ({
            let after = launch.course(cache, unavailable, cursor, flight, event);
            after.action matches LaunchAction::Run { get_config: true, .. }
                ==> !flight.in_flight && !flight.sent && after.flight.in_flight
        }),
        flight.in_flight ==> launch.course(
            cache,
            unavailable,
            cursor,
            flight,
            event,
        ).flight.in_flight,
{
}

/// A worker begins a session only with a share in credentials, and only where the
/// client went on after each wait.
pub proof fn law_session_begins_with_a_share(
    launch: LaunchModel,
    cache: CacheModel,
    unavailable: bool,
    cursor: usize,
    flight: ConfigDeliveryState,
    event: LaunchEventModel,
)
    requires
        launch.wf(),
    ensures
        ({
            let after = launch.course(cache, unavailable, cursor, flight, event);
            &&& after.launch.wf()
            &&& after.action is Run ==> after.launch.lease is Some && event
                == (LaunchEventModel::Waited { go_on: true })
        }),
{
}

} // verus!
