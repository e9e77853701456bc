//! The TURN client as a state machine: what each request, response and timer
//! does to its state.

use vstd::prelude::*;
use crate::client::stun::{
    class_spec, decode_spec, fingerprint_spec, md5_of, method_spec, transaction_spec, value_spec,
    AttributeSpan, Class, ATTR_CHANNEL_NUMBER, ATTR_LIFETIME, ATTR_NONCE, ATTR_REALM,
    ATTR_REQUESTED_ADDRESS_FAMILY, ATTR_REQUESTED_TRANSPORT, ATTR_USERNAME,
    ATTR_XOR_PEER_ADDRESS, ATTR_XOR_RELAYED_ADDRESS,
};
use crate::client::stun_build::{
    attr_bytes, attribute_u32_spec, decode_xor_spec, error_code_spec, finish_authenticated_spec,
    finish_spec, fingerprinted_mismatch_spec, integrity_spec, requires_integrity_spec, start_spec,
    xor_address_spec, zeros,
};
use crate::net::{IpAddress, SocketAddress};
use crate::wire::be_bytes;

verus! {

pub const RESULT_EMPTY: i32 = -1;
pub const RESULT_BUFFER_TOO_SMALL: i32 = -2;
pub const RESULT_INVALID_ARGUMENT: i32 = -3;
pub const RESULT_CLOSED: i32 = -4;
pub const RESULT_NOT_CONTROL: i32 = -5;
pub const RESULT_TIMEOUT: i32 = -6;
pub const RESULT_AUTHENTICATION: i32 = -7;
pub const RESULT_PROTOCOL: i32 = -8;

pub const EVENT_STATE: u32 = 1;
pub const EVENT_REQUEST_COMPLETE: u32 = 2;
pub const EVENT_CHANNEL_BOUND: u32 = 3;
pub const EVENT_RELAY_ADDRESS: u32 = 4;
pub const EVENT_CONTROL_OVERFLOW: u32 = 5;
pub const EVENT_DATA_REJECTED: u32 = 6;
pub const EVENT_FORCED_DESTROY: u32 = 7;
pub const EVENT_EVENT_OVERFLOW: u32 = 8;
pub const EVENT_STUN_RESPONSE_ERROR: u32 = 9;
pub const EVENT_CHANNEL_REBIND_EXHAUSTED: u32 = 10;

pub const METHOD_ALLOCATE: u32 = 3;
pub const METHOD_REFRESH: u32 = 4;
pub const METHOD_CREATE_PERMISSION: u32 = 8;
pub const METHOD_CHANNEL_BIND: u32 = 9;

pub const STATE_NULL: u32 = 0;
pub const STATE_ALLOCATING: u32 = 3;
pub const STATE_READY: u32 = 4;
pub const STATE_DEALLOCATING: u32 = 5;
pub const STATE_DEALLOCATED: u32 = 6;
pub const STATE_DESTROYING: u32 = 7;

pub const AF_IPV4: u8 = 4;
pub const AF_IPV6: u8 = 6;

pub const CONTROL_CAPACITY: usize = 16;
pub const EVENT_CAPACITY: usize = 64;

/// Times are nanoseconds of a monotonic clock, and so are durations.
pub const MILLISECOND: u64 = 1_000_000;
pub const SECOND: u64 = 1_000_000_000;
/// The latest time that deadlines are computed from.
pub const CLOCK_LIMIT: u64 = 0x7fff_ffff_ffff_ffff;
/// The longest duration that is added to a time: the seconds of a `u32`.
pub const LONGEST_DELAY: u64 = 4_294_967_295_000_000_000;

pub const INITIAL_RTO: u64 = 200_000_000;
pub const MAX_RTO: u64 = 1_600_000_000;
pub const MAX_TRANSMISSIONS: u8 = 7;
pub const STREAM_TRANSACTION_TIMEOUT: u64 = 12_000_000_000;
pub const REQUESTED_ALLOCATION_LIFETIME_SECS: u32 = 600;
pub const ALLOCATION_REFRESH: u64 = 300_000_000_000;
pub const MAINTENANCE_REFRESH: u64 = 175_000_000_000;
pub const KEEPALIVE_INTERVAL: u64 = 10_000_000_000;
pub const MAINTENANCE_RETRY_BASE: u64 = 1_000_000_000;
pub const MAINTENANCE_RETRY_MAX: u64 = 30_000_000_000;
pub const MAX_CHANNEL_MAINTENANCE_FAILURES: u8 = 4;
pub const MAX_NONCE_RETRIES: u8 = 3;
pub const CHANNEL_NUMBER: u16 = 0x4000;

#[derive(Clone, Copy, Debug, PartialEq, Eq, Structural)]
pub enum TurnControlTransport {
    Datagram,
    Stream,
}

#[derive(Clone, Copy, Debug, PartialEq, Eq, Structural)]
pub struct CsqttTurnProfile {
    pub allocation_refresh: u64,
    pub maintenance_refresh: u64,
    pub keepalive_interval: u64,
    pub max_nonce_retries: u8,
}

impl CsqttTurnProfile {
    pub open spec fn wf(self) -> bool {
        &&& self.allocation_refresh <= LONGEST_DELAY
        &&& self.maintenance_refresh <= LONGEST_DELAY
        &&& self.keepalive_interval <= LONGEST_DELAY
    }

    /// The profile that the client runs with.
    pub fn pjnath_compat() -> (r: CsqttTurnProfile)
        ensures
            r == (CsqttTurnProfile {
                allocation_refresh: ALLOCATION_REFRESH,
                maintenance_refresh: MAINTENANCE_REFRESH,
                keepalive_interval: KEEPALIVE_INTERVAL,
                max_nonce_retries: MAX_NONCE_RETRIES,
            }),
            r.wf(),
    {
        CsqttTurnProfile {
            allocation_refresh: ALLOCATION_REFRESH,
            maintenance_refresh: MAINTENANCE_REFRESH,
            keepalive_interval: KEEPALIVE_INTERVAL,
            max_nonce_retries: MAX_NONCE_RETRIES,
        }
    }
}

/// The call that a refusal answers.
#[derive(Clone, Copy, Debug, PartialEq, Eq, Structural)]
pub enum CoreCall {
    Create,
    Allocate,
    ChannelBind,
    CreatePermission,
    ControlDequeue,
}

/// Why a call on the core is refused.
#[derive(Clone, Copy, Debug, PartialEq, Eq, Structural)]
pub enum CoreError {
    /// The call is refused with a status.
    Status { call: CoreCall, status: i32 },
    /// No realm, nonce and key to sign a request with.
    AuthenticationIncomplete,
    /// A request does not fit a message.
    MessageTooLarge,
    /// There is no allocation.
    RelayUnavailable,
}

#[derive(Clone, Copy, Debug, PartialEq, Eq, Structural)]
pub enum Operation {
    Allocate,
    Refresh,
    Deallocate,
    Permission,
    Channel,
}

impl Operation {
    pub open spec fn method_spec(self) -> u32 {
        match self {
            Operation::Allocate => METHOD_ALLOCATE,
            Operation::Refresh | Operation::Deallocate => METHOD_REFRESH,
            Operation::Permission => METHOD_CREATE_PERMISSION,
            Operation::Channel => METHOD_CHANNEL_BIND,
        }
    }

    pub fn method(self) -> (r: u32)
        ensures
            r == self.method_spec(),
    {
        match self {
            Operation::Allocate => METHOD_ALLOCATE,
            Operation::Refresh | Operation::Deallocate => METHOD_REFRESH,
            Operation::Permission => METHOD_CREATE_PERMISSION,
            Operation::Channel => METHOD_CHANNEL_BIND,
        }
    }
}

/// An address in an event: family, port and octets, the rest zero.
#[verifier::ext_equal]
pub struct AddressModel {
    pub family: u8,
    pub reserved: u8,
    pub port: u16,
    pub ip: Seq<u8>,
}

pub open spec fn blank_address() -> AddressModel {
    AddressModel { family: 0, reserved: 0, port: 0, ip: zeros(16) }
}

pub open spec fn address_model(address: SocketAddress) -> AddressModel {
    match address.ip {
        IpAddress::V4(ip) => AddressModel {
            family: AF_IPV4,
            reserved: 0,
            port: address.port,
            ip: be_bytes(ip as nat, 4) + zeros(12),
        },
        IpAddress::V6(ip) => AddressModel {
            family: AF_IPV6,
            reserved: 0,
            port: address.port,
            ip: be_bytes(ip as nat, 16),
        },
    }
}

pub open spec fn relay_model(relay: Option<SocketAddress>) -> AddressModel {
    match relay {
        Some(address) => address_model(address),
        None => blank_address(),
    }
}

/// An event for the owner of the core.
#[verifier::ext_equal]
pub struct EventModel {
    pub kind: u32,
    pub method: u32,
    pub status: i32,
    pub stun_code: i32,
    pub state: u32,
    pub previous_state: u32,
    pub dropped: u32,
    pub channel: u16,
    pub reserved: u16,
    pub address: AddressModel,
}

pub open spec fn blank_event() -> EventModel {
    EventModel {
        kind: 0,
        method: 0,
        status: 0,
        stun_code: 0,
        state: 0,
        previous_state: 0,
        dropped: 0,
        channel: 0,
        reserved: 0,
        address: blank_address(),
    }
}

/// An error response, with its code, reported in a state.
pub open spec fn error_event(method: u32, status: i32, code: int, state: u32) -> EventModel {
    EventModel {
        kind: EVENT_STUN_RESPONSE_ERROR,
        method,
        status,
        stun_code: code as i32,
        state,
        ..blank_event()
    }
}

/// A request in flight.
#[verifier::ext_equal]
pub struct PendingModel {
    pub operation: Operation,
    pub transaction: Seq<u8>,
    pub packet: Seq<u8>,
    pub next_attempt: u64,
    pub rto: u64,
    pub transmissions: u8,
    pub nonce_retries: u8,
    pub authenticated: bool,
}

/// A packet for the server.
#[verifier::ext_equal]
pub struct ControlModel {
    pub packet: Seq<u8>,
    pub destination: SocketAddress,
}

/// The state of the core.
#[verifier::ext_equal]
pub struct CoreModel {
    pub server: SocketAddress,
    pub peer: SocketAddress,
    pub username: Seq<u8>,
    pub password: Seq<u8>,
    pub realm: Option<Seq<u8>>,
    pub nonce: Option<Seq<u8>>,
    pub key: Option<Seq<u8>>,
    pub state: u32,
    pub relay: Option<SocketAddress>,
    pub channel: Option<u16>,
    pub controls: Seq<ControlModel>,
    pub events: Seq<EventModel>,
    pub pending: Seq<PendingModel>,
    pub allocation_refresh: Option<u64>,
    pub allocation_expires_at: Option<u64>,
    pub maintenance_refresh: Option<u64>,
    pub permission_retry: Option<u64>,
    pub channel_retry: Option<u64>,
    pub refresh_failures: u8,
    pub permission_failures: u8,
    pub channel_failures: u8,
    pub keepalive: Option<u64>,
    pub shutting_down: bool,
    pub destroyed: bool,
    pub profile: CsqttTurnProfile,
    pub transport: TurnControlTransport,
}

/// A deadline that has been reached.
pub open spec fn due(deadline: Option<u64>, now: u64) -> bool {
    deadline matches Some(d) && now >= d
}

pub open spec fn after(now: u64, delay: u64) -> Option<u64> {
    Some((now + delay) as u64)
}

/// The index of the first request for an operation, or the number of requests.
pub open spec fn first_operation(pending: Seq<PendingModel>, operation: Operation) -> int
    decreases pending.len(),
{
    if pending.len() == 0 || pending[0].operation == operation {
        0
    } else {
        1 + first_operation(pending.skip(1), operation)
    }
}

/// A request that a response answers.
pub open spec fn answers(p: PendingModel, transaction: Seq<u8>, method: nat) -> bool {
    p.transaction == transaction && p.operation.method_spec() == method
}

/// The index of the first request that a response answers, or their number.
pub open spec fn first_answered(
    pending: Seq<PendingModel>,
    transaction: Seq<u8>,
    method: nat,
) -> int
    decreases pending.len(),
{
    if pending.len() == 0 || answers(pending[0], transaction, method) {
        0
    } else {
        1 + first_answered(pending.skip(1), transaction, method)
    }
}

/// A packet that carries a transaction.
pub open spec fn carries(packet: Seq<u8>, transaction: Seq<u8>) -> bool {
    packet.len() >= 20 && packet.subrange(8, 20) == transaction
}

/// The packets that do not carry a transaction, in order.
pub open spec fn without_transaction(
    controls: Seq<ControlModel>,
    transaction: Seq<u8>,
) -> Seq<ControlModel>
    decreases controls.len(),
{
    if controls.len() == 0 {
        controls
    } else {
        let rest = without_transaction(controls.drop_last(), transaction);
        if carries(controls.last().packet, transaction) {
            rest
        } else {
            rest.push(controls.last())
        }
    }
}

/// The earlier of two deadlines.
pub open spec fn earlier(a: Option<u64>, b: Option<u64>) -> Option<u64> {
    match (a, b) {
        (Some(x), Some(y)) => if y < x {
            b
        } else {
            a
        },
        (Some(_), None) => a,
        (None, _) => b,
    }
}

pub open spec fn earliest_attempt(pending: Seq<PendingModel>) -> Option<u64>
    decreases pending.len(),
{
    if pending.len() == 0 {
        None
    } else {
        earlier(earliest_attempt(pending.drop_last()), Some(pending.last().next_attempt))
    }
}

/// When an allocation is refreshed: after the interval or half its lifetime,
/// whichever is less, but not before half a second.
pub open spec fn refresh_delay(lifetime: Option<u32>, interval: u64) -> int {
    let seconds = match lifetime {
        Some(s) => s as int,
        None => REQUESTED_ALLOCATION_LIFETIME_SECS as int,
    };
    let half = seconds * 1_000_000_000 / 2;
    let least = if half < interval {
        half
    } else {
        interval as int
    };
    if least < 500_000_000 {
        500_000_000
    } else {
        least
    }
}

/// The delay after a number of failures in a row: one second, doubled with each
/// failure after the first, at most thirty.
pub open spec fn maintenance_delay(failures: u8) -> u64 {
    if failures <= 1 {
        1_000_000_000
    } else if failures == 2 {
        2_000_000_000
    } else if failures == 3 {
        4_000_000_000
    } else if failures == 4 {
        8_000_000_000
    } else if failures == 5 {
        16_000_000_000
    } else {
        30_000_000_000
    }
}

pub open spec fn one_more(n: u8) -> u8 {
    if n == 255 {
        255
    } else {
        (n + 1) as u8
    }
}

pub open spec fn or_default(v: Option<Seq<u8>>) -> Seq<u8> {
    match v {
        Some(s) => s,
        None => Seq::empty(),
    }
}

/// Errors that mean that the server no longer has the allocation.
pub open spec fn recreate_spec(operation: Operation, code: u16) -> bool {
    code == 437 || (operation == Operation::Channel && code == 400)
}

impl CoreModel {
    /// What every state keeps: bounded queues, one request per operation, and a
    /// bounded number of transmissions of each.
    pub open spec fn wf(self) -> bool {
        &&& self.profile.wf()
        &&& self.events.len() <= EVENT_CAPACITY
        &&& self.controls.len() <= CONTROL_CAPACITY
        &&& forall|i: int|
            0 <= i < self.pending.len() ==> (#[trigger] self.pending[i]).rto <= MAX_RTO
                && self.pending[i].transmissions <= MAX_TRANSMISSIONS
                && self.pending[i].transaction.len() == 12
        &&& forall|i: int, j: int|
            0 <= i < j < self.pending.len() ==> (#[trigger] self.pending[i]).operation != (
            #[trigger] self.pending[j]).operation
    }

    pub open spec fn push_event(self, event: EventModel) -> CoreModel {
        if self.events.len() == EVENT_CAPACITY {
            CoreModel {
                events: self.events.skip(1).push(
                    EventModel {
                        kind: EVENT_EVENT_OVERFLOW,
                        status: RESULT_BUFFER_TOO_SMALL,
                        dropped: 1,
                        ..blank_event()
                    },
                ),
                ..self
            }
        } else {
            CoreModel { events: self.events.push(event), ..self }
        }
    }

    pub open spec fn set_state(self, state: u32) -> CoreModel {
        if self.state == state {
            self
        } else {
            (CoreModel { state, ..self }).push_event(
                EventModel {
                    kind: EVENT_STATE,
                    state,
                    previous_state: self.state,
                    ..blank_event()
                },
            )
        }
    }

    pub open spec fn complete(self, operation: Operation, status: i32, code: int) -> CoreModel {
        self.push_event(
            EventModel {
                kind: EVENT_REQUEST_COMPLETE,
                method: operation.method_spec(),
                status,
                stun_code: code as i32,
                state: self.state,
                channel: match self.channel {
                    Some(channel) => channel,
                    None => 0,
                },
                address: relay_model(self.relay),
                ..blank_event()
            },
        )
    }

    pub open spec fn queue_packet(self, packet: Seq<u8>) -> CoreModel {
        let control = ControlModel { packet, destination: self.server };
        if self.controls.len() == CONTROL_CAPACITY {
            (CoreModel { controls: self.controls.skip(1).push(control), ..self }).push_event(
                EventModel {
                    kind: EVENT_CONTROL_OVERFLOW,
                    status: RESULT_BUFFER_TOO_SMALL,
                    dropped: 1,
                    ..blank_event()
                },
            )
        } else {
            CoreModel { controls: self.controls.push(control), ..self }
        }
    }

    /// A channel message of one byte keeps the path open.
    pub open spec fn queue_keepalive(self) -> CoreModel {
        match self.channel {
            Some(channel) => self.queue_packet(
                be_bytes(channel as nat, 2) + seq![0u8, 1u8, 0xffu8, 0u8, 0u8, 0u8],
            ),
            None => self,
        }
    }

    pub open spec fn remove_queued(self, transaction: Seq<u8>) -> CoreModel {
        CoreModel { controls: without_transaction(self.controls, transaction), ..self }
    }

    pub open spec fn has_operation(self, operation: Operation) -> bool {
        first_operation(self.pending, operation) < self.pending.len()
    }

    pub open spec fn set_auth(self, realm: Seq<u8>, nonce: Seq<u8>) -> CoreModel {
        CoreModel {
            key: Some(
                md5_of(self.username + seq![58u8] + realm + seq![58u8] + self.password),
            ),
            realm: Some(realm),
            nonce: Some(nonce),
            ..self
        }
    }

    /// The bytes of a request before it is closed.
    pub open spec fn request_body(
        self,
        operation: Operation,
        transaction: Seq<u8>,
        authenticated: bool,
    ) -> Seq<u8> {
        let start = start_spec(operation.method_spec() as u16, transaction);
        let peer = attr_bytes(ATTR_XOR_PEER_ADDRESS, xor_address_spec(self.peer, transaction));
        let lifetime = attr_bytes(
            ATTR_LIFETIME,
            be_bytes(REQUESTED_ALLOCATION_LIFETIME_SECS as nat, 4),
        );
        let family: u8 = if self.peer.ip is V4 {
            1
        } else {
            2
        };
        let body = match operation {
            Operation::Allocate => start + attr_bytes(
                ATTR_REQUESTED_TRANSPORT,
                seq![17u8, 0u8, 0u8, 0u8],
            ) + attr_bytes(ATTR_REQUESTED_ADDRESS_FAMILY, seq![family, 0u8, 0u8, 0u8]) + lifetime,
            Operation::Refresh => start + lifetime,
            Operation::Deallocate => start + attr_bytes(ATTR_LIFETIME, be_bytes(0, 4)),
            Operation::Permission => start + peer,
            Operation::Channel => start + attr_bytes(
                ATTR_CHANNEL_NUMBER,
                seq![0x40u8, 0u8, 0u8, 0u8],
            ) + peer,
        };
        if authenticated {
            body + attr_bytes(ATTR_USERNAME, self.username) + attr_bytes(
                ATTR_REALM,
                or_default(self.realm),
            ) + attr_bytes(ATTR_NONCE, or_default(self.nonce))
        } else {
            body
        }
    }

    /// A request on the wire, if it fits a message.
    #[verifier::opaque]
    pub open spec fn request(
        self,
        operation: Operation,
        transaction: Seq<u8>,
        authenticated: bool,
    ) -> Option<Seq<u8>> {
        let body = self.request_body(operation, transaction, authenticated);
        if authenticated {
            finish_authenticated_spec(body, or_default(self.key))
        } else {
            finish_spec(body)
        }
    }

    pub open spec fn transaction_timeout(self) -> u64 {
        match self.transport {
            TurnControlTransport::Datagram => INITIAL_RTO,
            TurnControlTransport::Stream => STREAM_TRANSACTION_TIMEOUT,
        }
    }

    /// Sends a request for an operation, unless one is in flight. A channel
    /// binding in flight is sent again.
    pub open spec fn start_operation(
        self,
        operation: Operation,
        authenticated: bool,
        nonce_retries: u8,
        now: u64,
        transaction: Seq<u8>,
    ) -> (CoreModel, Result<(), CoreError>) {
        if self.has_operation(operation) {
            if operation == Operation::Channel {
                (
                    self.queue_packet(
                        self.pending[first_operation(self.pending, operation)].packet,
                    ),
                    Ok(()),
                )
            } else {
                (self, Ok(()))
            }
        } else if authenticated && (self.realm is None || self.nonce is None || self.key is None) {
            (self, Err(CoreError::AuthenticationIncomplete))
        } else {
            match self.request(operation, transaction, authenticated) {
                None => (self, Err(CoreError::MessageTooLarge)),
                Some(packet) => {
                    let sent = self.queue_packet(packet);
                    (
                        CoreModel {
                            pending: sent.pending.push(
                                PendingModel {
                                    operation,
                                    transaction,
                                    packet,
                                    next_attempt: (now + self.transaction_timeout()) as u64,
                                    rto: INITIAL_RTO,
                                    transmissions: 1,
                                    nonce_retries,
                                    authenticated,
                                },
                            ),
                            ..sent
                        },
                        Ok(()),
                    )
                },
            }
        }
    }

    /// Drops an allocation with everything that belongs to it.
    pub open spec fn destroy_allocation(
        self,
        operation: Operation,
        status: i32,
        code: int,
    ) -> CoreModel {
        let cleared = CoreModel {
            controls: Seq::empty(),
            pending: Seq::empty(),
            channel: None,
            allocation_refresh: None,
            allocation_expires_at: None,
            maintenance_refresh: None,
            permission_retry: None,
            channel_retry: None,
            keepalive: None,
            relay: None,
            ..self.complete(operation, status, code)
        };
        if operation == Operation::Deallocate {
            cleared.set_state(STATE_DEALLOCATED)
        } else {
            cleared.set_state(STATE_DESTROYING)
        }
    }

    /// Gives a channel up, but keeps the allocation to be released.
    pub open spec fn exhaust_channel(self) -> CoreModel {
        (CoreModel {
            controls: Seq::empty(),
            pending: Seq::empty(),
            channel: None,
            maintenance_refresh: None,
            permission_retry: None,
            channel_retry: None,
            keepalive: None,
            ..self
        }).push_event(
            EventModel {
                kind: EVENT_CHANNEL_REBIND_EXHAUSTED,
                status: RESULT_TIMEOUT,
                state: STATE_DESTROYING,
                ..blank_event()
            },
        ).set_state(STATE_DESTROYING)
    }

    /// Counts a failed upkeep request and sets its next try; false once a
    /// channel has failed too often.
    pub open spec fn schedule_retry(self, operation: Operation, now: u64) -> (CoreModel, bool) {
        match operation {
            Operation::Refresh => {
                let failures = one_more(self.refresh_failures);
                (
                    CoreModel {
                        refresh_failures: failures,
                        allocation_refresh: after(now, maintenance_delay(failures)),
                        ..self
                    },
                    true,
                )
            },
            Operation::Permission => {
                let failures = one_more(self.permission_failures);
                (
                    CoreModel {
                        permission_failures: failures,
                        permission_retry: after(now, maintenance_delay(failures)),
                        ..self
                    },
                    true,
                )
            },
            Operation::Channel => {
                let failures = one_more(self.channel_failures);
                let counted = CoreModel { channel_failures: failures, ..self };
                if failures >= MAX_CHANNEL_MAINTENANCE_FAILURES {
                    (counted, false)
                } else {
                    (
                        CoreModel {
                            channel_retry: after(now, maintenance_delay(failures)),
                            ..counted
                        },
                        true,
                    )
                }
            },
            Operation::Allocate | Operation::Deallocate => (self, true),
        }
    }

    pub open spec fn upkeep(self, operation: Operation, now: u64) -> bool {
        &&& operation == Operation::Refresh || operation == Operation::Permission || operation
            == Operation::Channel
        &&& self.state == STATE_READY
        &&& self.allocation_expires_at matches Some(deadline) && now < deadline
    }

    /// A request has failed: upkeep of a live allocation is tried again, any
    /// other failure ends the allocation.
    pub open spec fn complete_failure(
        self,
        operation: Operation,
        status: i32,
        code: int,
        now: u64,
    ) -> CoreModel {
        if self.upkeep(operation, now) {
            let (core, again) = self.complete(operation, status, code).schedule_retry(
                operation,
                now,
            );
            if again {
                core
            } else {
                core.exhaust_channel()
            }
        } else {
            self.destroy_allocation(operation, status, code)
        }
    }

    /// A signed success response; false where it does not say what it must.
    pub open spec fn complete_success(
        self,
        operation: Operation,
        packet: Seq<u8>,
        spans: Seq<AttributeSpan>,
        now: u64,
        transaction: Seq<u8>,
    ) -> (CoreModel, bool) {
        let returned = attribute_u32_spec(packet, spans, ATTR_LIFETIME);
        let lifetime = match returned {
            Some(s) => s,
            None => REQUESTED_ALLOCATION_LIFETIME_SECS,
        };
        let refresh = Some((now + refresh_delay(returned, self.profile.allocation_refresh)) as u64);
        let expires = Some((now + lifetime * 1_000_000_000) as u64);
        match operation {
            Operation::Allocate => match value_spec(packet, spans, ATTR_XOR_RELAYED_ADDRESS) {
                None => (self, false),
                Some(value) => match decode_xor_spec(value, transaction_spec(packet)) {
                    Err(_) => (self, false),
                    Ok(relay) => if (relay.ip is V4) != (self.peer.ip is V4) || relay.port == 0
                        || lifetime == 0 {
                        (self, false)
                    } else {
                        let allocated = (CoreModel {
                            relay: Some(relay),
                            allocation_refresh: refresh,
                            allocation_expires_at: expires,
                            refresh_failures: 0,
                            maintenance_refresh: after(now, self.profile.maintenance_refresh),
                            keepalive: after(now, self.profile.keepalive_interval),
                            ..self
                        }).push_event(
                            EventModel {
                                kind: EVENT_RELAY_ADDRESS,
                                address: address_model(relay),
                                ..blank_event()
                            },
                        );
                        if self.shutting_down {
                            let (core, r) = allocated.set_state(
                                STATE_DEALLOCATING,
                            ).start_operation(Operation::Deallocate, true, 0, now, transaction);
                            (core, r is Ok)
                        } else {
                            (allocated.set_state(STATE_READY).complete(operation, 0, 0), true)
                        }
                    },
                },
            },
            Operation::Refresh => if lifetime == 0 {
                (self, false)
            } else {
                (
                    (CoreModel {
                        allocation_refresh: refresh,
                        allocation_expires_at: expires,
                        refresh_failures: 0,
                        ..self
                    }).complete(operation, 0, 0),
                    true,
                )
            },
            Operation::Deallocate => if returned matches Some(s) && s != 0 {
                (self, false)
            } else {
                (
                    (CoreModel {
                        relay: None,
                        allocation_refresh: None,
                        allocation_expires_at: None,
                        ..self
                    }).complete(operation, 0, 0).set_state(STATE_DEALLOCATED),
                    true,
                )
            },
            Operation::Permission => (
                (CoreModel { permission_failures: 0, ..self }).complete(operation, 0, 0),
                true,
            ),
            Operation::Channel => (
                (CoreModel {
                    channel: Some(CHANNEL_NUMBER),
                    channel_failures: 0,
                    ..self
                }).push_event(
                    EventModel {
                        kind: EVENT_CHANNEL_BOUND,
                        channel: CHANNEL_NUMBER,
                        address: address_model(self.peer),
                        ..blank_event()
                    },
                ).complete(operation, 0, 0),
                true,
            ),
        }
    }

    /// An error response to a request that has been taken out.
    pub open spec fn complete_error(
        self,
        request: PendingModel,
        packet: Seq<u8>,
        spans: Seq<AttributeSpan>,
        now: u64,
        transaction: Seq<u8>,
    ) -> CoreModel {
        let operation = request.operation;
        let method = operation.method_spec();
        let code = match error_code_spec(packet, spans) {
            Some(code) => code,
            None => 0,
        };
        if code == 0 {
            self.push_event(error_event(method, RESULT_PROTOCOL, 0, self.state)).complete_failure(
                operation,
                RESULT_PROTOCOL,
                0,
                now,
            )
        } else if recreate_spec(operation, code) {
            self.push_event(error_event(method, 0, code as int, self.state)).destroy_allocation(
                operation,
                RESULT_PROTOCOL,
                code as int,
            )
        } else {
            let realm = match value_spec(packet, spans, ATTR_REALM) {
                Some(realm) => Some(realm),
                None => if code == 438 {
                    self.realm
                } else {
                    None
                },
            };
            let nonce = value_spec(packet, spans, ATTR_NONCE);
            if (code == 401 || code == 438) && request.nonce_retries
                < self.profile.max_nonce_retries && realm is Some && nonce is Some {
                let keyed = self.set_auth(realm->0, nonce->0);
                let (core, r) = keyed.start_operation(
                    operation,
                    true,
                    (request.nonce_retries + 1) as u8,
                    now,
                    transaction,
                );
                if r is Ok {
                    core
                } else {
                    core.push_event(
                        error_event(method, 0, code as int, self.state),
                    ).complete_failure(operation, RESULT_PROTOCOL, code as int, now)
                }
            } else {
                self.push_event(error_event(method, 0, code as int, self.state)).complete_failure(
                    operation,
                    RESULT_PROTOCOL,
                    code as int,
                    now,
                )
            }
        }
    }

    /// A response that is not signed as it must be: it changes nothing but that
    /// an error code is reported.
    pub open spec fn refuse_unsigned(
        self,
        method: u32,
        packet: Seq<u8>,
        spans: Seq<AttributeSpan>,
    ) -> CoreModel {
        match error_code_spec(packet, spans) {
            Some(code) => if class_spec(packet) == Class::Error {
                self.push_event(
                    error_event(method, RESULT_AUTHENTICATION, code as int, self.state),
                )
            } else {
                self
            },
            None => self,
        }
    }

    /// The response to the request at an index, taken in.
    pub open spec fn accept(
        self,
        index: int,
        packet: Seq<u8>,
        spans: Seq<AttributeSpan>,
        now: u64,
        transaction: Seq<u8>,
    ) -> (CoreModel, i32) {
        let request = self.pending[index];
        let taken = (CoreModel { pending: self.pending.remove(index), ..self }).remove_queued(
            transaction_spec(packet),
        );
        if class_spec(packet) == Class::Success && !request.authenticated {
            (
                taken.complete_failure(request.operation, RESULT_AUTHENTICATION, 0, now),
                RESULT_AUTHENTICATION,
            )
        } else if class_spec(packet) == Class::Error {
            (taken.complete_error(request, packet, spans, now, transaction), 0)
        } else {
            let (core, done) = taken.complete_success(
                request.operation,
                packet,
                spans,
                now,
                transaction,
            );
            if done {
                (core, 0)
            } else {
                (core.complete_failure(request.operation, RESULT_PROTOCOL, 0, now), RESULT_PROTOCOL)
            }
        }
    }

    /// A packet from the server. `transaction` names the request that it may
    /// bring about.
    pub open spec fn input_stun(
        self,
        packet: Seq<u8>,
        now: u64,
        transaction: Seq<u8>,
    ) -> (CoreModel, i32) {
        match decode_spec(packet) {
            Err(_) => (self, RESULT_INVALID_ARGUMENT),
            Ok(spans) => {
                let class = class_spec(packet);
                let index = first_answered(
                    self.pending,
                    transaction_spec(packet),
                    method_spec(packet),
                );
                if class != Class::Success && class != Class::Error {
                    (self, RESULT_NOT_CONTROL)
                } else if fingerprint_spec(packet, spans) == Some(false) {
                    (self, RESULT_INVALID_ARGUMENT)
                } else if index >= self.pending.len() {
                    (self, RESULT_NOT_CONTROL)
                } else if self.pending[index].authenticated && requires_integrity_spec(
                    packet,
                    spans,
                ) && !integrity_spec(packet, spans, self.key) && !fingerprinted_mismatch_spec(
                    packet,
                    spans,
                ) {
                    (
                        self.refuse_unsigned(method_spec(packet) as u32, packet, spans),
                        RESULT_AUTHENTICATION,
                    )
                } else {
                    self.accept(index, packet, spans, now, transaction)
                }
            },
        }
    }

    /// A request whose time is up has been sent often enough, or once over a
    /// stream.
    pub open spec fn gives_up(self, index: int) -> bool {
        self.pending[index].transmissions >= MAX_TRANSMISSIONS || self.transport
            == TurnControlTransport::Stream
    }

    pub open spec fn time_out(self, index: int, now: u64) -> CoreModel {
        let request = self.pending[index];
        (CoreModel { pending: self.pending.remove(index), ..self }).remove_queued(
            request.transaction,
        ).complete_failure(request.operation, RESULT_TIMEOUT, 0, now)
    }

    pub open spec fn retransmit(self, index: int, now: u64) -> CoreModel {
        let request = self.pending[index];
        let rto = if request.rto * 2 < MAX_RTO {
            (request.rto * 2) as u64
        } else {
            MAX_RTO
        };
        let sent = self.queue_packet(request.packet);
        CoreModel {
            pending: sent.pending.update(
                index,
                PendingModel {
                    transmissions: (request.transmissions + 1) as u8,
                    rto,
                    next_attempt: (now + rto) as u64,
                    ..request
                },
            ),
            ..sent
        }
    }

    pub open spec fn left_from(self, index: int) -> nat {
        if index < self.pending.len() {
            (self.pending.len() - index) as nat
        } else {
            0
        }
    }

    /// Every request from an index on whose time is up is sent again or given
    /// up.
    pub open spec fn expire_from(self, index: int, now: u64) -> CoreModel
        decreases self.left_from(index),
    {
        if index < 0 || index >= self.pending.len() {
            self
        } else if now < self.pending[index].next_attempt {
            self.expire_from(index + 1, now)
        } else if self.gives_up(index) {
            self.time_out(index, now).expire_from(index, now)
        } else {
            self.retransmit(index, now).expire_from(index + 1, now)
        }
    }

    pub open spec fn next_deadline(self) -> Option<u64> {
        earlier(
            earlier(
                earlier(
                    earlier(
                        earlier(earliest_attempt(self.pending), self.allocation_refresh),
                        self.maintenance_refresh,
                    ),
                    self.permission_retry,
                ),
                self.channel_retry,
            ),
            self.keepalive,
        )
    }

    /// How long the owner may wait: until the next deadline, but at least a
    /// millisecond.
    pub open spec fn next_wait(self, now: u64) -> Option<u64> {
        match self.next_deadline() {
            Some(deadline) => Some(
                if deadline >= now + MILLISECOND {
                    (deadline - now) as u64
                } else {
                    MILLISECOND
                },
            ),
            None => None,
        }
    }

    /// The refresh of the allocation, where it is due; whether a request was
    /// started.
    pub open spec fn poll_refresh(self, now: u64, transaction: Seq<u8>) -> (
        CoreModel,
        bool,
        Result<(), CoreError>,
    ) {
        if due(self.allocation_refresh, now) && !self.has_operation(Operation::Refresh) {
            let (core, r) = (CoreModel { allocation_refresh: None, ..self }).start_operation(
                Operation::Refresh,
                true,
                0,
                now,
                transaction,
            );
            (core, true, r)
        } else {
            (self, false, Ok(()))
        }
    }

    pub open spec fn poll_permission(self, wanted: bool, now: u64, transaction: Seq<u8>) -> (
        CoreModel,
        bool,
        Result<(), CoreError>,
    ) {
        if wanted && !self.has_operation(Operation::Permission) {
            let (core, r) = (CoreModel { permission_retry: None, ..self }).start_operation(
                Operation::Permission,
                true,
                0,
                now,
                transaction,
            );
            (core, true, r)
        } else {
            (self, false, Ok(()))
        }
    }

    pub open spec fn poll_channel(self, wanted: bool, now: u64, transaction: Seq<u8>) -> (
        CoreModel,
        bool,
        Result<(), CoreError>,
    ) {
        if wanted && !self.has_operation(Operation::Channel) {
            let (core, r) = (CoreModel { channel_retry: None, ..self }).start_operation(
                Operation::Channel,
                true,
                0,
                now,
                transaction,
            );
            (core, true, r)
        } else {
            (self, false, Ok(()))
        }
    }

    pub open spec fn poll_keepalive(self, quiet: bool, now: u64) -> CoreModel {
        if due(self.keepalive, now) {
            let next = CoreModel {
                keepalive: after(now, self.profile.keepalive_interval),
                ..self
            };
            if quiet {
                next.queue_keepalive()
            } else {
                next
            }
        } else {
            self
        }
    }

    /// The timers of a live allocation. The first request that cannot be built
    /// ends the round.
    pub open spec fn poll_ready(self, now: u64, ids: (Seq<u8>, Seq<u8>, Seq<u8>)) -> (
        CoreModel,
        Result<(), CoreError>,
    ) {
        let maintenance = due(self.maintenance_refresh, now);
        let permission = maintenance || due(self.permission_retry, now);
        let channel = maintenance || due(self.channel_retry, now);
        let (a, a_started, a_result) = self.poll_refresh(now, ids.0);
        if a_result is Err {
            (a, a_result)
        } else {
            let m = if maintenance {
                CoreModel {
                    maintenance_refresh: after(now, a.profile.maintenance_refresh),
                    ..a
                }
            } else {
                a
            };
            let (b, b_started, b_result) = m.poll_permission(permission, now, ids.1);
            if b_result is Err {
                (b, b_result)
            } else {
                let (c, c_started, c_result) = b.poll_channel(channel, now, ids.2);
                if c_result is Err {
                    (c, c_result)
                } else {
                    (c.poll_keepalive(!a_started && !b_started && !c_started, now), Ok(()))
                }
            }
        }
    }

    /// The state when every request has been looked at and an allocation that
    /// has run out is gone.
    pub open spec fn poll_expired(self, now: u64) -> CoreModel {
        let core = self.expire_from(0, now);
        if !core.shutting_down && core.state == STATE_READY && due(
            core.allocation_expires_at,
            now,
        ) {
            core.destroy_allocation(Operation::Refresh, RESULT_TIMEOUT, 0)
        } else {
            core
        }
    }

    pub open spec fn poll(self, now: u64, ids: (Seq<u8>, Seq<u8>, Seq<u8>)) -> (
        CoreModel,
        Result<Option<u64>, CoreError>,
    ) {
        if self.destroyed {
            (self, Ok(None))
        } else {
            let core = self.poll_expired(now);
            if !core.shutting_down && core.state == STATE_READY {
                let (done, r) = core.poll_ready(now, ids);
                match r {
                    Ok(_) => (done, Ok(done.next_wait(now))),
                    Err(e) => (done, Err(e)),
                }
            } else {
                (core, Ok(core.next_wait(now)))
            }
        }
    }

    pub open spec fn graceful_shutdown(self, now: u64, transaction: Seq<u8>) -> (
        CoreModel,
        Result<(), CoreError>,
    ) {
        if self.destroyed || self.shutting_down {
            (self, Ok(()))
        } else {
            let closing = CoreModel {
                shutting_down: true,
                channel: None,
                maintenance_refresh: None,
                permission_retry: None,
                channel_retry: None,
                keepalive: None,
                controls: Seq::empty(),
                ..self
            };
            if self.state == STATE_READY || (self.state == STATE_DESTROYING
                && self.allocation_expires_at is Some) {
                (CoreModel { pending: Seq::empty(), ..closing }).set_state(
                    STATE_DEALLOCATING,
                ).start_operation(Operation::Deallocate, true, 0, now, transaction)
            } else if self.state != STATE_ALLOCATING {
                (CoreModel { pending: Seq::empty(), ..closing }, Ok(()))
            } else {
                (closing, Ok(()))
            }
        }
    }

    pub open spec fn force_destroy(self, status: i32) -> CoreModel {
        if self.destroyed {
            self
        } else {
            (CoreModel {
                destroyed: true,
                controls: Seq::empty(),
                pending: Seq::empty(),
                ..self
            }).set_state(STATE_DESTROYING).push_event(
                EventModel {
                    kind: EVENT_FORCED_DESTROY,
                    status,
                    state: STATE_DESTROYING,
                    ..blank_event()
                },
            )
        }
    }

    /// Asks for an allocation, once, on an open core.
    pub open spec fn start_allocation(self, now: u64, transaction: Seq<u8>) -> (
        CoreModel,
        Result<(), CoreError>,
    ) {
        if self.destroyed || self.shutting_down {
            (self, Err(CoreError::Status { call: CoreCall::Allocate, status: RESULT_CLOSED }))
        } else if self.state != STATE_NULL {
            (
                self,
                Err(
                    CoreError::Status {
                        call: CoreCall::Allocate,
                        status: RESULT_INVALID_ARGUMENT,
                    },
                ),
            )
        } else {
            self.set_state(STATE_ALLOCATING).start_operation(
                Operation::Allocate,
                false,
                0,
                now,
                transaction,
            )
        }
    }

    /// Asks for something that needs an allocation.
    pub open spec fn start_ready(
        self,
        call: CoreCall,
        operation: Operation,
        now: u64,
        transaction: Seq<u8>,
    ) -> (CoreModel, Result<(), CoreError>) {
        if self.destroyed || self.shutting_down {
            (self, Err(CoreError::Status { call, status: RESULT_CLOSED }))
        } else if self.state != STATE_READY {
            (self, Err(CoreError::Status { call, status: RESULT_INVALID_ARGUMENT }))
        } else {
            self.start_operation(operation, true, 0, now, transaction)
        }
    }
}

} // verus!
