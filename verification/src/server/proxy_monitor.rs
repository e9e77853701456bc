//! Keeps the route through a local proxy up while the proxy answers, and traffic
//! on the direct route while it does not.

use vstd::prelude::*;
use crate::text::{copy_text, decimal, decimal_u64, join_texts, joined, string_of_vec, views};

verus! {

/// Waits, in milliseconds.
pub const FIRST_WAIT: u64 = 2_000;
pub const PORT_CHECK: u64 = 3_000;
pub const HEALTH_INTERVAL: u64 = 10_000;
pub const IDLE_INTERVAL: u64 = 5_000;
pub const STALE_WAIT: u64 = 100;

/// Failed looks at the port before a longer pause.
pub const STRIKES_BEFORE_PAUSE: u32 = 5;

/// Failed probes before the route is removed.
pub const FAILURES_BEFORE_REMOVAL: u8 = 2;

/// The pauses, each longer than the one before, up to a limit.
pub open spec fn pause_spec(round: u32) -> u64 {
    if round == 0 {
        30_000
    } else if round == 1 {
        90_000
    } else {
        120_000
    }
}

pub fn pause_length(round: u32) -> (r: u64)
    ensures
        r == pause_spec(round),
{
    if round == 0 {
        30_000
    } else if round == 1 {
        90_000
    } else {
        120_000
    }
}

/// How grave a line of the log is.
#[derive(Clone, Copy, Debug, PartialEq, Eq, Structural)]
pub enum LogLevel {
    Info,
    Warning,
    Error,
}

impl LogLevel {
    pub fn as_str(self) -> (r: &'static str)
        ensures
            r@ == match self {
                LogLevel::Info => "INFO"@,
                LogLevel::Warning => "WARNING"@,
                LogLevel::Error => "ERROR"@,
            },
    {
        match self {
            LogLevel::Info => "INFO",
            LogLevel::Warning => "WARNING",
            LogLevel::Error => "ERROR",
        }
    }
}

/// What is logged of the proxy.
pub enum ProxyLog {
    Disabled,
    PortGone(u16),
    ProbeFailed(u8, String),
    Removed,
    PortDown(u16),
    Connecting(u16),
    Active(u16),
    NotReady(String),
}

impl ProxyLog {
    pub fn level(&self) -> (r: LogLevel)
        ensures
            r == match self {
                ProxyLog::Disabled | ProxyLog::Connecting(_) | ProxyLog::Active(_) => {
                    LogLevel::Info
                },
                ProxyLog::NotReady(_) => LogLevel::Error,
                _ => LogLevel::Warning,
            },
    {
        match self {
            ProxyLog::Disabled => LogLevel::Info,
            ProxyLog::Connecting(_) => LogLevel::Info,
            ProxyLog::Active(_) => LogLevel::Info,
            ProxyLog::NotReady(_) => LogLevel::Error,
            ProxyLog::PortGone(_) => LogLevel::Warning,
            ProxyLog::ProbeFailed(_, _) => LogLevel::Warning,
            ProxyLog::Removed => LogLevel::Warning,
            ProxyLog::PortDown(_) => LogLevel::Warning,
        }
    }

    pub open spec fn text_spec(self) -> Seq<char> {
        match self {
            ProxyLog::Disabled => "Local SOCKS5 routing disabled; direct VPS route restored"@,
            ProxyLog::PortGone(port) => joined(
                seq![
                    "SOCKS5 port "@,
                    decimal(port as nat),
                    " is no longer listening; clients switched to the direct route"@,
                ],
            ),
            ProxyLog::ProbeFailed(failures, error) => joined(
                seq![
                    "Local SOCKS5 health check failed ("@,
                    decimal(failures as nat),
                    "/2): "@,
                    error@,
                ],
            ),
            ProxyLog::Removed => "SOCKS5 route removed; clients continue through the main VPS"@,
            ProxyLog::PortDown(port) => joined(
                seq![
                    "SOCKS5 port "@,
                    decimal(port as nat),
                    " is not listening; traffic goes direct, port re-check every 3s"@,
                ],
            ),
            ProxyLog::Connecting(port) => joined(
                seq![
                    "Connecting SOCKS5 forwarder to local SOCKS5 127.0.0.1:"@,
                    decimal(port as nat),
                    "..."@,
                ],
            ),
            ProxyLog::Active(port) => joined(
                seq![
                    "Local SOCKS5 route 127.0.0.1:"@,
                    decimal(port as nat),
                    " is active (TCP and UDP)"@,
                ],
            ),
            ProxyLog::NotReady(error) => joined(
                seq![
                    "Local SOCKS5 is not ready: "@,
                    error@,
                    ". Direct VPS route is active; retry in 3s"@,
                ],
            ),
        }
    }

    pub fn text(&self) -> (r: String)
        ensures
            r@ == self.text_spec(),
    {
        match self {
            ProxyLog::Disabled => copy_text(
                "Local SOCKS5 routing disabled; direct VPS route restored",
            ),
            ProxyLog::PortGone(port) => framed(
                "SOCKS5 port ",
                number(*port as u64).as_str(),
                " is no longer listening; clients switched to the direct route",
            ),
            ProxyLog::ProbeFailed(failures, error) => {
                let count = number(*failures as u64);
                let parts: [&str; 4] = [
                    "Local SOCKS5 health check failed (",
                    count.as_str(),
                    "/2): ",
                    error.as_str(),
                ];
                assert(views(parts@) =~= seq![
                    "Local SOCKS5 health check failed ("@,
                    decimal(*failures as nat),
                    "/2): "@,
                    error@,
                ]);
                join_texts(parts.as_slice())
            },
            ProxyLog::Removed => copy_text(
                "SOCKS5 route removed; clients continue through the main VPS",
            ),
            ProxyLog::PortDown(port) => framed(
                "SOCKS5 port ",
                number(*port as u64).as_str(),
                " is not listening; traffic goes direct, port re-check every 3s",
            ),
            ProxyLog::Connecting(port) => framed(
                "Connecting SOCKS5 forwarder to local SOCKS5 127.0.0.1:",
                number(*port as u64).as_str(),
                "...",
            ),
            ProxyLog::Active(port) => framed(
                "Local SOCKS5 route 127.0.0.1:",
                number(*port as u64).as_str(),
                " is active (TCP and UDP)",
            ),
            ProxyLog::NotReady(error) => framed(
                "Local SOCKS5 is not ready: ",
                error.as_str(),
                ". Direct VPS route is active; retry in 3s",
            ),
        }
    }
}

fn number(n: u64) -> (r: String)
    ensures
        r@ == decimal(n as nat),
{
    let digits = decimal_u64(n);
    string_of_vec(&digits)
}

fn framed(before: &str, middle: &str, after: &str) -> (r: String)
    ensures
        r@ == joined(seq![before@, middle@, after@]),
{
    let parts: [&str; 3] = [before, middle, after];
    assert(views(parts@) =~= seq![before@, middle@, after@]);
    join_texts(parts.as_slice())
}

/// What is shown of the health of the proxy.
pub enum HealthNote {
    Clear,
    PortSilent(u16),
    Error(String),
}

impl HealthNote {
    pub open spec fn text_spec(self) -> Option<Seq<char>> {
        match self {
            HealthNote::Clear => None,
            HealthNote::PortSilent(port) => Some(
                joined(seq!["Порт "@, decimal(port as nat), " не отвечает"@]),
            ),
            HealthNote::Error(error) => Some(error@),
        }
    }

    pub fn text(&self) -> (r: Option<String>)
        ensures
            match r {
                Some(text) => self.text_spec() == Some(text@),
                None => self.text_spec() is None,
            },
    {
        match self {
            HealthNote::Clear => None,
            HealthNote::PortSilent(port) => Some(
                framed("Порт ", number(*port as u64).as_str(), " не отвечает"),
            ),
            HealthNote::Error(error) => Some(copy_text(error.as_str())),
        }
    }
}

/// The route through the proxy as it stands: none, one that is alive and fits
/// the profile in use, or another.
#[derive(Clone, Copy, Debug, PartialEq, Eq, Structural)]
pub enum RouteState {
    Absent,
    Current,
    Stale,
}

/// What is done next.
pub enum ProxyAction {
    /// Nothing is asked for: the route goes, or what an earlier one left.
    Disable { remove_route: bool },
    /// The route is of no use.
    RemoveStale,
    /// Look whether the port listens.
    CheckPort,
    /// The port of a route that was up is silent.
    RemoveSilent(u16),
    /// Ask the proxy for something.
    Probe,
    /// The port is silent; whether that is new.
    ReportSilent { port: u16, first: bool },
    /// Bring the route up.
    Connect(u16),
}

/// The counts behind the decisions, and how long to wait for the next look.
#[derive(Clone, Copy, Debug, PartialEq, Eq, Structural)]
pub struct ProxyMonitor {
    pub port_failures: u32,
    pub pause_round: u32,
    pub health_failures: u8,
    pub wait_ms: u64,
}

impl ProxyMonitor {
    pub fn new() -> (r: ProxyMonitor)
        ensures
            r == (ProxyMonitor {
                port_failures: 0,
                pause_round: 0,
                health_failures: 0,
                wait_ms: FIRST_WAIT,
            }),
    {
        ProxyMonitor { port_failures: 0, pause_round: 0, health_failures: 0, wait_ms: FIRST_WAIT }
    }

    pub open spec fn reset(self, wait_ms: u64) -> ProxyMonitor {
        ProxyMonitor { port_failures: 0, pause_round: 0, health_failures: 0, wait_ms }
    }

    /// The settings changed: all counts start anew.
    pub fn triggered(&mut self)
        ensures
            *final(self) == old(self).reset(old(self).wait_ms),
    {
        self.port_failures = 0;
        self.pause_round = 0;
        self.health_failures = 0;
    }

    pub open spec fn observed(self, wanted: bool, route: RouteState) -> (ProxyMonitor, ProxyAction) {
        if !wanted {
            (
                self.reset(IDLE_INTERVAL),
                ProxyAction::Disable { remove_route: !(route is Absent) },
            )
        } else {
            match route {
                RouteState::Stale => (
                    ProxyMonitor { wait_ms: STALE_WAIT, ..self },
                    ProxyAction::RemoveStale,
                ),
                RouteState::Absent | RouteState::Current => (self, ProxyAction::CheckPort),
            }
        }
    }

    /// Looks at what is asked for and what is there.
    pub fn observe(&mut self, wanted: bool, route: RouteState) -> (r: ProxyAction)
        ensures
            (*final(self), r) == old(self).observed(wanted, route),
    {
        if !wanted {
            self.port_failures = 0;
            self.pause_round = 0;
            self.health_failures = 0;
            self.wait_ms = IDLE_INTERVAL;
            let remove_route = match route {
                RouteState::Absent => false,
                RouteState::Current => true,
                RouteState::Stale => true,
            };
            return ProxyAction::Disable { remove_route };
        }
        match route {
            RouteState::Stale => {
                self.wait_ms = STALE_WAIT;
                ProxyAction::RemoveStale
            },
            RouteState::Absent => ProxyAction::CheckPort,
            RouteState::Current => ProxyAction::CheckPort,
        }
    }

    pub open spec fn checked(self, port: u16, route_up: bool, listening: bool) -> (
        ProxyMonitor,
        ProxyAction,
    ) {
        if route_up {
            if listening {
                (self, ProxyAction::Probe)
            } else {
                (
                    ProxyMonitor {
                        port_failures: 1,
                        pause_round: 0,
                        health_failures: 0,
                        wait_ms: PORT_CHECK,
                    },
                    ProxyAction::RemoveSilent(port),
                )
            }
        } else if listening {
            (self.reset(self.wait_ms), ProxyAction::Connect(port))
        } else {
            let failures = if self.port_failures < u32::MAX {
                (self.port_failures + 1) as u32
            } else {
                u32::MAX
            };
            let action = ProxyAction::ReportSilent { port, first: self.port_failures == 0 };
            if failures >= STRIKES_BEFORE_PAUSE {
                (
                    ProxyMonitor {
                        port_failures: 0,
                        pause_round: if self.pause_round < u32::MAX {
                            (self.pause_round + 1) as u32
                        } else {
                            u32::MAX
                        },
                        wait_ms: pause_spec(self.pause_round),
                        ..self
                    },
                    action,
                )
            } else {
                (
                    ProxyMonitor { port_failures: failures, wait_ms: PORT_CHECK, ..self },
                    action,
                )
            }
        }
    }

    /// The port was looked at. A port that stays silent is looked at less and
    /// less often.
    pub fn port_checked(&mut self, port: u16, route_up: bool, listening: bool) -> (r: ProxyAction)
        ensures
            (*final(self), r) == old(self).checked(port, route_up, listening),
    {
        if route_up {
            if listening {
                return ProxyAction::Probe;
            }
            self.port_failures = 1;
            self.pause_round = 0;
            self.health_failures = 0;
            self.wait_ms = PORT_CHECK;
            return ProxyAction::RemoveSilent(port);
        }
        if listening {
            self.port_failures = 0;
            self.pause_round = 0;
            self.health_failures = 0;
            return ProxyAction::Connect(port);
        }
        let first = self.port_failures == 0;
        if self.port_failures < u32::MAX {
            self.port_failures = self.port_failures + 1;
        }
        if self.port_failures >= STRIKES_BEFORE_PAUSE {
            self.port_failures = 0;
            self.wait_ms = pause_length(self.pause_round);
            if self.pause_round < u32::MAX {
                self.pause_round = self.pause_round + 1;
            }
        } else {
            self.wait_ms = PORT_CHECK;
        }
        ProxyAction::ReportSilent { port, first }
    }

    /// The count of failed probes, and whether the route is removed.
    pub open spec fn probe_failed_spec(self) -> (ProxyMonitor, u8, bool) {
        let failures = if self.health_failures < u8::MAX {
            (self.health_failures + 1) as u8
        } else {
            u8::MAX
        };
        let remove = failures >= FAILURES_BEFORE_REMOVAL;
        (
            ProxyMonitor {
                health_failures: if remove {
                    0
                } else {
                    failures
                },
                wait_ms: PORT_CHECK,
                ..self
            },
            failures,
            remove,
        )
    }

    /// The proxy answered a probe.
    pub fn probe_answered(&mut self)
        ensures
            *final(self) == old(self).reset(HEALTH_INTERVAL),
    {
        self.port_failures = 0;
        self.pause_round = 0;
        self.health_failures = 0;
        self.wait_ms = HEALTH_INTERVAL;
    }

    /// A probe failed: which one in a row it was, and whether the route is
    /// removed for it.
    pub fn probe_failed(&mut self) -> (r: (u8, bool))
        ensures
            (*final(self), r.0, r.1) == old(self).probe_failed_spec(),
    {
        if self.health_failures < u8::MAX {
            self.health_failures = self.health_failures + 1;
        }
        let failures: u8 = self.health_failures;
        let remove = failures >= FAILURES_BEFORE_REMOVAL;
        if remove {
            self.health_failures = 0;
        }
        self.wait_ms = PORT_CHECK;
        (failures, remove)
    }

    /// The route was brought up, or not.
    pub fn connected(&mut self, up: bool)
        ensures
            *final(self) == (ProxyMonitor {
                wait_ms: if up {
                    HEALTH_INTERVAL
                } else {
                    PORT_CHECK
                },
                ..*old(self)
            }),
    {
        self.wait_ms = if up {
            HEALTH_INTERVAL
        } else {
            PORT_CHECK
        };
    }
}

/// The monitor after so many looks at a port that stays silent.
pub open spec fn after_silence(monitor: ProxyMonitor, port: u16, looks: nat) -> ProxyMonitor
    decreases looks,
{
    if looks == 0 {
        monitor
    } else {
        after_silence(monitor, port, (looks - 1) as nat).checked(port, false, false).0
    }
}

/// A port that stays silent is looked at four times in short order, and after
/// every fifth look there is a pause, which grows up to two minutes.
pub proof fn law_silent_port_is_left_alone(monitor: ProxyMonitor, port: u16)
    requires
        monitor.port_failures == 0,
        monitor.pause_round < u32::MAX,
    ensures
        forall|n: nat|
            1 <= n < STRIKES_BEFORE_PAUSE ==> (#[trigger] after_silence(monitor, port, n)).wait_ms
                == PORT_CHECK,
        after_silence(monitor, port, STRIKES_BEFORE_PAUSE as nat).wait_ms == pause_spec(
            monitor.pause_round,
        ),
        after_silence(monitor, port, STRIKES_BEFORE_PAUSE as nat).port_failures == 0,
        after_silence(monitor, port, STRIKES_BEFORE_PAUSE as nat).pause_round
            == monitor.pause_round + 1,
        30_000 <= pause_spec(monitor.pause_round) <= 120_000,
{
    reveal_with_fuel(after_silence, 6);
    assert forall|n: nat| 1 <= n < STRIKES_BEFORE_PAUSE implies (#[trigger] after_silence(
        monitor,
        port,
        n,
    )).wait_ms == PORT_CHECK by {
        if n == 1 {
        } else if n == 2 {
        } else if n == 3 {
        } else {
        }
    }
}

/// One failed probe leaves the route up, a second in a row removes it, and an
/// answer in between starts the count anew.
pub proof fn law_second_failed_probe_removes_the_route(monitor: ProxyMonitor)
    requires
        monitor.health_failures == 0,
    ensures
        !monitor.probe_failed_spec().2,
        monitor.probe_failed_spec().0.probe_failed_spec().2,
        monitor.probe_failed_spec().0.probe_failed_spec().0.health_failures == 0,
        !monitor.probe_failed_spec().0.reset(HEALTH_INTERVAL).probe_failed_spec().2,
{
}

} // verus!
