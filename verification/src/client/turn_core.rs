//! The TURN client core: it holds the state of one allocation, takes packets and
//! times in, and hands packets and events out.

use vstd::prelude::*;
use std::collections::VecDeque;
use vstd::utf8::encode_utf8;
use crate::client::stun::{
    md5_digest, Class, Message, ATTR_CHANNEL_NUMBER, ATTR_LIFETIME, ATTR_NONCE, ATTR_REALM,
    ATTR_REQUESTED_ADDRESS_FAMILY, ATTR_REQUESTED_TRANSPORT, ATTR_USERNAME, ATTR_XOR_PEER_ADDRESS,
    ATTR_XOR_RELAYED_ADDRESS,
};
use crate::client::stun_build::{
    attribute_u32, decode_xor_address, error_code, is_fingerprinted_allocation_mismatch, key_view,
    response_requires_integrity, verify_integrity, zeros, MessageBuilder,
};
use crate::client::turn_model::{
    AF_IPV4, AF_IPV6, ALLOCATION_REFRESH, AddressModel, CHANNEL_NUMBER, CLOCK_LIMIT,
    CONTROL_CAPACITY, ControlModel, CoreCall, CoreError, CoreModel, CsqttTurnProfile,
    EVENT_CAPACITY, EVENT_CHANNEL_BOUND, EVENT_CHANNEL_REBIND_EXHAUSTED, EVENT_CONTROL_OVERFLOW,
    EVENT_EVENT_OVERFLOW, EVENT_FORCED_DESTROY, EVENT_RELAY_ADDRESS, EVENT_REQUEST_COMPLETE,
    EVENT_STATE, EVENT_STUN_RESPONSE_ERROR, EventModel, INITIAL_RTO, KEEPALIVE_INTERVAL,
    LONGEST_DELAY, MAINTENANCE_REFRESH, MAINTENANCE_RETRY_BASE, MAINTENANCE_RETRY_MAX,
    MAX_CHANNEL_MAINTENANCE_FAILURES, MAX_NONCE_RETRIES, MAX_RTO, MAX_TRANSMISSIONS,
    MILLISECOND, Operation, PendingModel, REQUESTED_ALLOCATION_LIFETIME_SECS,
    RESULT_AUTHENTICATION, RESULT_BUFFER_TOO_SMALL, RESULT_CLOSED, RESULT_EMPTY,
    RESULT_INVALID_ARGUMENT, RESULT_NOT_CONTROL, RESULT_PROTOCOL, RESULT_TIMEOUT, SECOND,
    STATE_ALLOCATING, STATE_DEALLOCATED, STATE_DEALLOCATING, STATE_DESTROYING, STATE_NULL,
    STATE_READY, STREAM_TRANSACTION_TIMEOUT, TurnControlTransport, address_model, after,
    blank_address, blank_event, carries, due, earlier, earliest_attempt, first_answered,
    first_operation, maintenance_delay, recreate_spec, refresh_delay, without_transaction,
};
use crate::net::{IpAddress, SocketAddress};
use crate::text::{decimal_i64, push_chars, push_text, signed_decimal, string_of};
use crate::wire::{
    be_bytes, be_value, copy_bytes, law_be_round_trip, lemma_be_len, lemma_range_values, push_all,
    push_u128, push_u16, push_u32, read_u128, read_u32, same_bytes,
};

verus! {

/// An address in an event.
#[derive(Clone, Copy)]
pub struct NativeAddress {
    pub family: u8,
    pub reserved: u8,
    pub port: u16,
    pub ip: [u8; 16],
}

impl View for NativeAddress {
    type V = AddressModel;

    open spec fn view(&self) -> AddressModel {
        AddressModel {
            family: self.family,
            reserved: self.reserved,
            port: self.port,
            ip: self.ip@,
        }
    }
}

impl Default for NativeAddress {
    fn default() -> (r: NativeAddress)
        ensures
            r@ == blank_address(),
    {
        let r = NativeAddress { family: 0, reserved: 0, port: 0, ip: [0; 16] };
        assert(r.ip@ =~= zeros(16));
        r
    }
}

impl NativeAddress {
    pub fn from_socket_addr(address: SocketAddress) -> (r: NativeAddress)
        ensures
            r@ == address_model(address),
    {
        let mut octets: Vec<u8> = Vec::new();
        let family: u8 = match address.ip {
            IpAddress::V4(ip) => {
                push_u32(&mut octets, ip);
                proof {
                    lemma_be_len(ip as nat, 4);
                }
                AF_IPV4
            },
            IpAddress::V6(ip) => {
                push_u128(&mut octets, ip);
                proof {
                    lemma_be_len(ip as nat, 16);
                }
                AF_IPV6
            },
        };
        let mut ip: [u8; 16] = [0; 16];
        let mut i: usize = 0;
        while i < octets.len()
            invariant
                i <= octets.len() <= 16,
                forall|k: int| 0 <= k < i ==> ip@[k] == octets@[k],
                forall|k: int| i <= k < 16 ==> ip@[k] == 0,
            decreases octets.len() - i,
        {
            ip[i] = octets[i];
            i = i + 1;
        }
        let r = NativeAddress { family, reserved: 0, port: address.port, ip };
        assert(r@.ip =~= address_model(address).ip);
        r
    }

    /// The address, unless the family is neither of the two: that family.
    pub fn to_socket_addr(self) -> (r: Result<SocketAddress, u8>)
        ensures
            r == self@.socket_address(),
    {
        if self.family == AF_IPV4 {
            assert(self.ip@.subrange(0, 4) =~= self.ip@.take(4));
            Ok(SocketAddress::new(IpAddress::V4(read_u32(self.ip.as_slice(), 0)), self.port))
        } else if self.family == AF_IPV6 {
            assert(self.ip@.subrange(0, 16) =~= self.ip@);
            Ok(SocketAddress::new(IpAddress::V6(read_u128(self.ip.as_slice(), 0)), self.port))
        } else {
            Err(self.family)
        }
    }
}

impl AddressModel {
    pub open spec fn socket_address(self) -> Result<SocketAddress, u8> {
        if self.family == AF_IPV4 {
            Ok(SocketAddress::plain(IpAddress::V4(be_value(self.ip.take(4)) as u32), self.port))
        } else if self.family == AF_IPV6 {
            Ok(SocketAddress::plain(IpAddress::V6(be_value(self.ip) as u128), self.port))
        } else {
            Err(self.family)
        }
    }
}

/// An address reads back from the event that it was put into, without flow and
/// scope.
pub proof fn law_event_address_round_trip(address: SocketAddress)
    ensures
        address_model(address).socket_address() == Ok::<SocketAddress, u8>(
            SocketAddress::plain(address.ip, address.port),
        ),
{
    lemma_range_values();
    match address.ip {
        IpAddress::V4(ip) => {
            law_be_round_trip(ip as nat, 4);
            assert(address_model(address).ip.take(4) =~= be_bytes(ip as nat, 4));
        },
        IpAddress::V6(ip) => {
            law_be_round_trip(ip as nat, 16);
        },
    }
}

/// An event for the owner of the core.
#[derive(Clone, Copy)]
pub struct NativeEvent {
    pub kind: u32,
    pub method: u32,
    pub status: i32,
    pub stun_code: i32,
    pub state: u32,
    pub previous_state: u32,
    pub dropped: u32,
    pub channel: u16,
    pub reserved: u16,
    pub address: NativeAddress,
}

impl View for NativeEvent {
    type V = EventModel;

    open spec fn view(&self) -> EventModel {
        EventModel {
            kind: self.kind,
            method: self.method,
            status: self.status,
            stun_code: self.stun_code,
            state: self.state,
            previous_state: self.previous_state,
            dropped: self.dropped,
            channel: self.channel,
            reserved: self.reserved,
            address: self.address@,
        }
    }
}

impl Default for NativeEvent {
    fn default() -> (r: NativeEvent)
        ensures
            r@ == blank_event(),
    {
        NativeEvent {
            kind: 0,
            method: 0,
            status: 0,
            stun_code: 0,
            state: 0,
            previous_state: 0,
            dropped: 0,
            channel: 0,
            reserved: 0,
            address: NativeAddress::default(),
        }
    }
}

/// A request in flight.
pub struct Pending {
    pub operation: Operation,
    pub transaction: [u8; 12],
    pub packet: Vec<u8>,
    pub next_attempt: u64,
    pub rto: u64,
    pub transmissions: u8,
    pub nonce_retries: u8,
    pub authenticated: bool,
}

impl View for Pending {
    type V = PendingModel;

    open spec fn view(&self) -> PendingModel {
        PendingModel {
            operation: self.operation,
            transaction: self.transaction@,
            packet: self.packet@,
            next_attempt: self.next_attempt,
            rto: self.rto,
            transmissions: self.transmissions,
            nonce_retries: self.nonce_retries,
            authenticated: self.authenticated,
        }
    }
}

/// A packet for the server.
pub struct Control {
    pub packet: Vec<u8>,
    pub destination: SocketAddress,
}

impl View for Control {
    type V = ControlModel;

    open spec fn view(&self) -> ControlModel {
        ControlModel { packet: self.packet@, destination: self.destination }
    }
}

pub open spec fn bytes_view(v: Option<Vec<u8>>) -> Option<Seq<u8>> {
    match v {
        Some(bytes) => Some(bytes@),
        None => None,
    }
}

pub open spec fn pending_view(v: Seq<Pending>) -> Seq<PendingModel> {
    v.map_values(|p: Pending| p@)
}

pub open spec fn controls_view(v: Seq<Control>) -> Seq<ControlModel> {
    v.map_values(|c: Control| c@)
}

pub open spec fn events_view(v: Seq<NativeEvent>) -> Seq<EventModel> {
    v.map_values(|e: NativeEvent| e@)
}

/// The client of one TURN allocation. Times are nanoseconds of a monotonic
/// clock.
pub struct NativeCore {
    pub server: SocketAddress,
    pub peer: SocketAddress,
    pub username: Vec<u8>,
    pub password: Vec<u8>,
    pub realm: Option<Vec<u8>>,
    pub nonce: Option<Vec<u8>>,
    pub key: Option<[u8; 16]>,
    pub state: u32,
    pub relay: Option<SocketAddress>,
    pub channel: Option<u16>,
    pub controls: VecDeque<Control>,
    pub events: VecDeque<NativeEvent>,
    pub pending: Vec<Pending>,
    pub allocation_refresh: Option<u64>,
    pub allocation_expires_at: Option<u64>,
    pub maintenance_refresh: Option<u64>,
    pub permission_retry: Option<u64>,
    pub channel_retry: Option<u64>,
    pub refresh_failures: u8,
    pub permission_failures: u8,
    pub channel_failures: u8,
    pub keepalive: Option<u64>,
    pub shutting_down: bool,
    pub destroyed: bool,
    pub profile: CsqttTurnProfile,
    pub transport: TurnControlTransport,
}

impl View for NativeCore {
    type V = CoreModel;

    open spec fn view(&self) -> CoreModel {
        CoreModel {
            server: self.server,
            peer: self.peer,
            username: self.username@,
            password: self.password@,
            realm: bytes_view(self.realm),
            nonce: bytes_view(self.nonce),
            key: key_view(self.key),
            state: self.state,
            relay: self.relay,
            channel: self.channel,
            controls: controls_view(self.controls@),
            events: events_view(self.events@),
            pending: pending_view(self.pending@),
            allocation_refresh: self.allocation_refresh,
            allocation_expires_at: self.allocation_expires_at,
            maintenance_refresh: self.maintenance_refresh,
            permission_retry: self.permission_retry,
            channel_retry: self.channel_retry,
            refresh_failures: self.refresh_failures,
            permission_failures: self.permission_failures,
            channel_failures: self.channel_failures,
            keepalive: self.keepalive,
            shutting_down: self.shutting_down,
            destroyed: self.destroyed,
            profile: self.profile,
            transport: self.transport,
        }
    }
}

/// Three transactions, for the requests that one round of timers may start.
pub struct Transactions(pub [u8; 12], pub [u8; 12], pub [u8; 12]);

impl Transactions {
    pub open spec fn ids(&self) -> (Seq<u8>, Seq<u8>, Seq<u8>) {
        (self.0@, self.1@, self.2@)
    }
}

/// Calls `rand::random`: twelve random bytes, of which nothing is promised.
#[verifier::external_body]
pub(crate) fn random_transaction() -> (r: [u8; 12]) {
    rand::random::<[u8; 12]>()
}

/// Every argument that a core is made from is usable.
pub open spec fn creatable(
    server: SocketAddress,
    username: Seq<u8>,
    password: Seq<u8>,
    peer: SocketAddress,
) -> bool {
    &&& server.port != 0
    &&& peer.port != 0
    &&& 0 < username.len() <= 512
    &&& 0 < password.len() <= 512
}

/// The state of a new core.
pub open spec fn new_core(
    server: SocketAddress,
    username: Seq<u8>,
    password: Seq<u8>,
    peer: SocketAddress,
    profile: CsqttTurnProfile,
    transport: TurnControlTransport,
) -> CoreModel {
    CoreModel {
        server,
        peer,
        username,
        password,
        realm: None,
        nonce: None,
        key: None,
        state: STATE_NULL,
        relay: None,
        channel: None,
        controls: Seq::empty(),
        events: Seq::empty(),
        pending: Seq::empty(),
        allocation_refresh: None,
        allocation_expires_at: None,
        maintenance_refresh: None,
        permission_retry: None,
        channel_retry: None,
        refresh_failures: 0,
        permission_failures: 0,
        channel_failures: 0,
        keepalive: None,
        shutting_down: false,
        destroyed: false,
        profile,
        transport,
    }
}

pub open spec fn refused(call: CoreCall, status: i32) -> CoreError {
    CoreError::Status { call, status }
}

pub open spec fn default_profile() -> CsqttTurnProfile {
    CsqttTurnProfile {
        allocation_refresh: ALLOCATION_REFRESH,
        maintenance_refresh: MAINTENANCE_REFRESH,
        keepalive_interval: KEEPALIVE_INTERVAL,
        max_nonce_retries: MAX_NONCE_RETRIES,
    }
}

/// What creating a core gives.
pub open spec fn created(
    r: Result<NativeCore, CoreError>,
    server: SocketAddress,
    username: Seq<u8>,
    password: Seq<u8>,
    peer: SocketAddress,
    profile: CsqttTurnProfile,
    transport: TurnControlTransport,
) -> bool {
    match r {
        Ok(core) => {
            &&& creatable(server, username, password, peer)
            &&& core@ == new_core(server, username, password, peer, profile, transport)
            &&& core.wf()
        },
        Err(e) => !creatable(server, username, password, peer) && e == refused(
            CoreCall::Create,
            RESULT_INVALID_ARGUMENT,
        ),
    }
}

impl NativeCore {
    pub open spec fn wf(&self) -> bool {
        self@.wf()
    }

    pub fn create(
        server: SocketAddress,
        username: &str,
        password: &str,
        peer: SocketAddress,
    ) -> (r: Result<NativeCore, CoreError>)
        ensures
            created(
                r,
                server,
                encode_utf8(username@),
                encode_utf8(password@),
                peer,
                default_profile(),
                TurnControlTransport::Datagram,
            ),
    {
        NativeCore::create_with_profile(
            server,
            username,
            password,
            peer,
            CsqttTurnProfile::pjnath_compat(),
        )
    }

    pub fn create_with_profile(
        server: SocketAddress,
        username: &str,
        password: &str,
        peer: SocketAddress,
        profile: CsqttTurnProfile,
    ) -> (r: Result<NativeCore, CoreError>)
        requires
            profile.wf(),
        ensures
            created(
                r,
                server,
                encode_utf8(username@),
                encode_utf8(password@),
                peer,
                profile,
                TurnControlTransport::Datagram,
            ),
    {
        NativeCore::create_with_profile_and_transport(
            server,
            username,
            password,
            peer,
            profile,
            TurnControlTransport::Datagram,
        )
    }

    pub fn create_with_transport(
        server: SocketAddress,
        username: &str,
        password: &str,
        peer: SocketAddress,
        transport: TurnControlTransport,
    ) -> (r: Result<NativeCore, CoreError>)
        ensures
            created(
                r,
                server,
                encode_utf8(username@),
                encode_utf8(password@),
                peer,
                default_profile(),
                transport,
            ),
    {
        NativeCore::create_with_profile_and_transport(
            server,
            username,
            password,
            peer,
            CsqttTurnProfile::pjnath_compat(),
            transport,
        )
    }

    pub fn create_with_profile_and_transport(
        server: SocketAddress,
        username: &str,
        password: &str,
        peer: SocketAddress,
        profile: CsqttTurnProfile,
        transport: TurnControlTransport,
    ) -> (r: Result<NativeCore, CoreError>)
        requires
            profile.wf(),
        ensures
            created(
                r,
                server,
                encode_utf8(username@),
                encode_utf8(password@),
                peer,
                profile,
                transport,
            ),
    {
        if server.port == 0 || peer.port == 0 {
            return Err(
                CoreError::Status { call: CoreCall::Create, status: RESULT_INVALID_ARGUMENT },
            );
        }
        let user = username.as_bytes();
        let pass = password.as_bytes();
        if user.len() == 0 || user.len() > 512 || pass.len() == 0 || pass.len() > 512 {
            return Err(
                CoreError::Status { call: CoreCall::Create, status: RESULT_INVALID_ARGUMENT },
            );
        }
        let core = NativeCore {
            server,
            peer,
            username: copy_bytes(user),
            password: copy_bytes(pass),
            realm: None,
            nonce: None,
            key: None,
            state: STATE_NULL,
            relay: None,
            channel: None,
            controls: VecDeque::new(),
            events: VecDeque::new(),
            pending: Vec::new(),
            allocation_refresh: None,
            allocation_expires_at: None,
            maintenance_refresh: None,
            permission_retry: None,
            channel_retry: None,
            refresh_failures: 0,
            permission_failures: 0,
            channel_failures: 0,
            keepalive: None,
            shutting_down: false,
            destroyed: false,
            profile,
            transport,
        };
        assert(core@ =~= new_core(
            server,
            encode_utf8(username@),
            encode_utf8(password@),
            peer,
            profile,
            transport,
        ));
        Ok(core)
    }

    fn push_event(&mut self, event: NativeEvent)
        requires
            old(self).events@.len() <= EVENT_CAPACITY,
        ensures
            final(self)@ == old(self)@.push_event(event@),
            final(self).events@.len() <= EVENT_CAPACITY,
    {
        let ghost before = self@;
        if self.events.len() == EVENT_CAPACITY {
            let _ = self.events.pop_front();
            let mut overflow = NativeEvent::default();
            overflow.kind = EVENT_EVENT_OVERFLOW;
            overflow.status = RESULT_BUFFER_TOO_SMALL;
            overflow.dropped = 1;
            self.events.push_back(overflow);
            assert(self@ =~= before.push_event(event@));
            return;
        }
        self.events.push_back(event);
        assert(self@ =~= before.push_event(event@));
    }

    fn set_state(&mut self, state: u32)
        requires
            old(self).events@.len() <= EVENT_CAPACITY,
        ensures
            final(self)@ == old(self)@.set_state(state),
            final(self).events@.len() <= EVENT_CAPACITY,
    {
        if self.state == state {
            return;
        }
        let mut event = NativeEvent::default();
        event.kind = EVENT_STATE;
        event.state = state;
        event.previous_state = self.state;
        let ghost before = self@;
        self.state = state;
        assert(self@ =~= (CoreModel { state, ..before }));
        self.push_event(event);
    }

    fn complete(&mut self, operation: Operation, status: i32, stun_code: i32)
        requires
            old(self).events@.len() <= EVENT_CAPACITY,
        ensures
            final(self)@ == old(self)@.complete(operation, status, stun_code as int),
            final(self).events@.len() <= EVENT_CAPACITY,
    {
        let mut event = NativeEvent::default();
        event.kind = EVENT_REQUEST_COMPLETE;
        event.method = operation.method();
        event.status = status;
        event.stun_code = stun_code;
        event.state = self.state;
        event.channel = match self.channel {
            Some(channel) => channel,
            None => 0,
        };
        event.address = match self.relay {
            Some(address) => NativeAddress::from_socket_addr(address),
            None => NativeAddress::default(),
        };
        self.push_event(event);
    }

    fn queue_packet(&mut self, packet: Vec<u8>)
        requires
            old(self).wf(),
        ensures
            final(self)@ == old(self)@.queue_packet(packet@),
            final(self).wf(),
    {
        let control = Control { packet, destination: self.server };
        let ghost before = self@;
        let ghost c = control@;
        if self.controls.len() == CONTROL_CAPACITY {
            let _ = self.controls.pop_front();
            self.controls.push_back(control);
            assert(self@ =~= (CoreModel { controls: before.controls.skip(1).push(c), ..before }));
            let mut event = NativeEvent::default();
            event.kind = EVENT_CONTROL_OVERFLOW;
            event.status = RESULT_BUFFER_TOO_SMALL;
            event.dropped = 1;
            self.push_event(event);
            return;
        }
        self.controls.push_back(control);
        assert(self@ =~= before.queue_packet(packet@));
    }

    fn queue_keepalive(&mut self)
        requires
            old(self).wf(),
        ensures
            final(self)@ == old(self)@.queue_keepalive(),
            final(self).wf(),
    {
        match self.channel {
            Some(channel) => {
                let mut packet: Vec<u8> = Vec::new();
                push_u16(&mut packet, channel);
                packet.push(0);
                packet.push(1);
                packet.push(0xff);
                packet.push(0);
                packet.push(0);
                packet.push(0);
                assert(packet@ =~= be_bytes(channel as nat, 2) + seq![
                    0u8,
                    1u8,
                    0xffu8,
                    0u8,
                    0u8,
                    0u8,
                ]);
                self.queue_packet(packet);
            },
            None => {},
        }
    }

    fn remove_queued_transaction(&mut self, transaction: &[u8])
        requires
            old(self).wf(),
        ensures
            final(self)@ == old(self)@.remove_queued(transaction@),
            final(self).wf(),
    {
        let ghost before = self@;
        let ghost controls = self.controls@;
        let mut kept: VecDeque<Control> = VecDeque::new();
        let mut taken: usize = 0;
        let total: usize = self.controls.len();
        while taken < total
            invariant
                taken <= total == controls.len(),
                total <= CONTROL_CAPACITY,
                self.controls@ == controls.skip(taken as int),
                self@ == (CoreModel { controls: controls_view(self.controls@), ..before }),
                controls_view(kept@) == without_transaction(
                    controls_view(controls).take(taken as int),
                    transaction@,
                ),
                kept@.len() <= taken,
            decreases total - taken,
        {
            let ghost prefix = controls_view(controls).take(taken + 1);
            assert(prefix.drop_last() =~= controls_view(controls).take(taken as int));
            let ghost kept_before = kept@;
            match self.controls.pop_front() {
                Some(control) => {
                    assert(control == controls[taken as int]);
                    assert(prefix.last() == control@);
                    let carried = if control.packet.len() < 20 {
                        false
                    } else {
                        same_bytes(
                            vstd::slice::slice_subrange(control.packet.as_slice(), 8, 20),
                            transaction,
                        )
                    };
                    assert(carried == carries(control@.packet, transaction@));
                    let ghost seen = control@;
                    if !carried {
                        kept.push_back(control);
                        assert(controls_view(kept@) =~= controls_view(kept_before).push(seen));
                    }
                },
                None => {},
            }
            assert(self.controls@ =~= controls.skip(taken + 1));
            taken = taken + 1;
        }
        assert(controls_view(controls).take(taken as int) =~= controls_view(controls));
        self.controls = kept;
        assert(self@ =~= before.remove_queued(transaction@));
    }

    fn find_operation(&self, operation: Operation) -> (r: Option<usize>)
        ensures
            match r {
                Some(i) => i == first_operation(self@.pending, operation) && i
                    < self.pending@.len(),
                None => !self@.has_operation(operation),
            },
    {
        let mut i: usize = 0;
        assert(self@.pending.skip(0) =~= self@.pending);
        while i < self.pending.len()
            invariant
                i <= self.pending.len(),
                first_operation(self@.pending, operation) == i + first_operation(
                    self@.pending.skip(i as int),
                    operation,
                ),
            decreases self.pending.len() - i,
        {
            assert(self@.pending.skip(i as int)[0] == self.pending@[i as int]@);
            if self.pending[i].operation == operation {
                return Some(i);
            }
            assert(self@.pending.skip(i as int).skip(1) =~= self@.pending.skip(i + 1));
            i = i + 1;
        }
        None
    }

    fn has_operation(&self, operation: Operation) -> (r: bool)
        ensures
            r == self@.has_operation(operation),
    {
        match self.find_operation(operation) {
            Some(_) => true,
            None => false,
        }
    }

    fn set_auth(&mut self, realm: Vec<u8>, nonce: Vec<u8>)
        requires
            old(self).wf(),
        ensures
            final(self)@ == old(self)@.set_auth(realm@, nonce@),
            final(self).wf(),
    {
        let mut text: Vec<u8> = copy_bytes(self.username.as_slice());
        text.push(58);
        push_all(&mut text, realm.as_slice());
        text.push(58);
        push_all(&mut text, self.password.as_slice());
        assert(text@ =~= self.username@ + seq![58u8] + realm@ + seq![58u8] + self.password@);
        let ghost before = self@;
        self.key = Some(md5_digest(text.as_slice()));
        self.realm = Some(realm);
        self.nonce = Some(nonce);
        assert(self@ =~= before.set_auth(realm@, nonce@));
    }

    fn transaction_timeout(&self) -> (r: u64)
        ensures
            r == self@.transaction_timeout(),
    {
        match self.transport {
            TurnControlTransport::Datagram => INITIAL_RTO,
            TurnControlTransport::Stream => STREAM_TRANSACTION_TIMEOUT,
        }
    }

    /// A request on the wire.
    pub fn build_request(
        &self,
        operation: Operation,
        transaction: [u8; 12],
        authenticated: bool,
    ) -> (r: Option<Vec<u8>>)
        requires
            authenticated ==> self.key is Some && self.realm is Some && self.nonce is Some,
        ensures
            match r {
                Some(packet) => self@.request(operation, transaction@, authenticated) == Some(
                    packet@,
                ),
                None => self@.request(operation, transaction@, authenticated) is None,
            },
    {
        reveal(CoreModel::request);
        let mut builder = MessageBuilder::with_transaction(operation.method() as u16, transaction);
        let mut lifetime: Vec<u8> = Vec::new();
        push_u32(&mut lifetime, REQUESTED_ALLOCATION_LIFETIME_SECS);
        assert(lifetime@ =~= be_bytes(REQUESTED_ALLOCATION_LIFETIME_SECS as nat, 4));
        match operation {
            Operation::Allocate => {
                let family: u8 = if self.peer.is_ipv4() {
                    1
                } else {
                    2
                };
                let transport: [u8; 4] = [17, 0, 0, 0];
                let families: [u8; 4] = [family, 0, 0, 0];
                assert(transport@ =~= seq![17u8, 0u8, 0u8, 0u8]);
                assert(families@ =~= seq![family, 0u8, 0u8, 0u8]);
                builder = builder.attribute(ATTR_REQUESTED_TRANSPORT, transport.as_slice());
                builder = builder.attribute(ATTR_REQUESTED_ADDRESS_FAMILY, families.as_slice());
                builder = builder.attribute(ATTR_LIFETIME, lifetime.as_slice());
            },
            Operation::Refresh => {
                builder = builder.attribute(ATTR_LIFETIME, lifetime.as_slice());
            },
            Operation::Deallocate => {
                let mut none: Vec<u8> = Vec::new();
                push_u32(&mut none, 0);
                assert(none@ =~= be_bytes(0, 4));
                builder = builder.attribute(ATTR_LIFETIME, none.as_slice());
            },
            Operation::Permission => {
                builder = builder.xor_address(ATTR_XOR_PEER_ADDRESS, self.peer);
            },
            Operation::Channel => {
                let number: [u8; 4] = [0x40, 0, 0, 0];
                assert(number@ =~= seq![0x40u8, 0u8, 0u8, 0u8]);
                builder = builder.attribute(ATTR_CHANNEL_NUMBER, number.as_slice());
                builder = builder.xor_address(ATTR_XOR_PEER_ADDRESS, self.peer);
            },
        }
        if authenticated {
            builder = builder.attribute(ATTR_USERNAME, self.username.as_slice());
            match (&self.realm, &self.nonce, &self.key) {
                (Some(realm), Some(nonce), Some(key)) => {
                    builder = builder.attribute(ATTR_REALM, realm.as_slice());
                    builder = builder.attribute(ATTR_NONCE, nonce.as_slice());
                    assert(builder.bytes@ == self@.request_body(operation, transaction@, true));
                    match builder.finish_authenticated(key) {
                        Ok(packet) => Some(packet),
                        Err(_) => None,
                    }
                },
                _ => None,
            }
        } else {
            assert(builder.bytes@ == self@.request_body(operation, transaction@, false));
            match builder.finish() {
                Ok(packet) => Some(packet),
                Err(_) => None,
            }
        }
    }

    /// Sends a request for an operation under a transaction.
    pub fn start_operation_with(
        &mut self,
        operation: Operation,
        authenticated: bool,
        nonce_retries: u8,
        now: u64,
        transaction: [u8; 12],
    ) -> (r: Result<(), CoreError>)
        requires
            old(self).wf(),
            now <= CLOCK_LIMIT,
        ensures
            (final(self)@, r) == old(self)@.start_operation(
                operation,
                authenticated,
                nonce_retries,
                now,
                transaction@,
            ),
            final(self).wf(),
    {
        match self.find_operation(operation) {
            Some(index) => {
                if operation == Operation::Channel {
                    let packet = copy_bytes(self.pending[index].packet.as_slice());
                    self.queue_packet(packet);
                }
                return Ok(());
            },
            None => {},
        }
        if authenticated && (self.realm.is_none() || self.nonce.is_none() || self.key.is_none()) {
            return Err(CoreError::AuthenticationIncomplete);
        }
        let packet = match self.build_request(operation, transaction, authenticated) {
            Some(packet) => packet,
            None => {
                return Err(CoreError::MessageTooLarge);
            },
        };
        let ghost before = self@;
        let timeout: u64 = self.transaction_timeout();
        self.queue_packet(copy_bytes(packet.as_slice()));
        let ghost sent = self@;
        let pending = Pending {
            operation,
            transaction,
            packet,
            next_attempt: now + timeout,
            rto: INITIAL_RTO,
            transmissions: 1,
            nonce_retries,
            authenticated,
        };
        let ghost p = pending@;
        self.pending.push(pending);
        assert(self@ =~= (CoreModel { pending: sent.pending.push(p), ..sent }));
        proof {
            lemma_no_operation(before.pending, operation);
            assert(sent.pending == before.pending);
            lemma_push_keeps_wf(sent, p);
        }
        Ok(())
    }

    /// Sends a request for an operation under a random transaction.
    pub fn start_operation(
        &mut self,
        operation: Operation,
        authenticated: bool,
        nonce_retries: u8,
        now: u64,
    ) -> (r: Result<(), CoreError>)
        requires
            old(self).wf(),
            now <= CLOCK_LIMIT,
        ensures
            exists|transaction: Seq<u8>|
                transaction.len() == 12 && (final(self)@, r) == #[trigger] old(
                    self,
                )@.start_operation(operation, authenticated, nonce_retries, now, transaction),
            final(self).wf(),
    {
        let transaction = random_transaction();
        self.start_operation_with(operation, authenticated, nonce_retries, now, transaction)
    }

    fn destroy_allocation(&mut self, operation: Operation, status: i32, stun_code: i32)
        requires
            old(self).wf(),
        ensures
            final(self)@ == old(self)@.destroy_allocation(operation, status, stun_code as int),
            final(self).wf(),
    {
        self.complete(operation, status, stun_code);
        let ghost told = self@;
        self.controls.clear();
        self.pending.clear();
        self.channel = None;
        self.allocation_refresh = None;
        self.allocation_expires_at = None;
        self.maintenance_refresh = None;
        self.permission_retry = None;
        self.channel_retry = None;
        self.keepalive = None;
        self.relay = None;
        assert(self@ =~= (CoreModel {
            controls: Seq::empty(),
            pending: Seq::empty(),
            channel: None,
            allocation_refresh: None,
            allocation_expires_at: None,
            maintenance_refresh: None,
            permission_retry: None,
            channel_retry: None,
            keepalive: None,
            relay: None,
            ..told
        }));
        if operation == Operation::Deallocate {
            self.set_state(STATE_DEALLOCATED);
        } else {
            self.set_state(STATE_DESTROYING);
        }
    }

    fn destroy_after_channel_rebind_exhausted(&mut self)
        requires
            old(self).wf(),
        ensures
            final(self)@ == old(self)@.exhaust_channel(),
            final(self).wf(),
    {
        let ghost before = self@;
        self.controls.clear();
        self.pending.clear();
        self.channel = None;
        self.maintenance_refresh = None;
        self.permission_retry = None;
        self.channel_retry = None;
        self.keepalive = None;
        assert(self@ =~= (CoreModel {
            controls: Seq::empty(),
            pending: Seq::empty(),
            channel: None,
            maintenance_refresh: None,
            permission_retry: None,
            channel_retry: None,
            keepalive: None,
            ..before
        }));
        let mut event = NativeEvent::default();
        event.kind = EVENT_CHANNEL_REBIND_EXHAUSTED;
        event.status = RESULT_TIMEOUT;
        event.state = STATE_DESTROYING;
        self.push_event(event);
        self.set_state(STATE_DESTROYING);
    }

    fn schedule_maintenance_retry(&mut self, operation: Operation, now: u64) -> (r: bool)
        requires
            old(self).wf(),
            now <= CLOCK_LIMIT,
        ensures
            (final(self)@, r) == old(self)@.schedule_retry(operation, now),
            final(self).wf(),
    {
        let ghost before = self@;
        let failures: u8 = match operation {
            Operation::Refresh => {
                self.refresh_failures = self.refresh_failures.saturating_add(1);
                self.refresh_failures
            },
            Operation::Permission => {
                self.permission_failures = self.permission_failures.saturating_add(1);
                self.permission_failures
            },
            Operation::Channel => {
                self.channel_failures = self.channel_failures.saturating_add(1);
                self.channel_failures
            },
            Operation::Allocate | Operation::Deallocate => {
                return true;
            },
        };
        if operation == Operation::Channel && failures >= MAX_CHANNEL_MAINTENANCE_FAILURES {
            assert(self@ =~= before.schedule_retry(operation, now).0);
            return false;
        }
        let delay: u64 = retry_delay(failures);
        match operation {
            Operation::Refresh => {
                self.allocation_refresh = Some(now + delay);
            },
            Operation::Permission => {
                self.permission_retry = Some(now + delay);
            },
            Operation::Channel => {
                self.channel_retry = Some(now + delay);
            },
            Operation::Allocate | Operation::Deallocate => {},
        }
        assert(self@ =~= before.schedule_retry(operation, now).0);
        true
    }

    fn complete_failure(&mut self, operation: Operation, status: i32, stun_code: i32, now: u64)
        requires
            old(self).wf(),
            now <= CLOCK_LIMIT,
        ensures
            final(self)@ == old(self)@.complete_failure(operation, status, stun_code as int, now),
            final(self).wf(),
    {
        let kept = match operation {
            Operation::Refresh | Operation::Permission | Operation::Channel => true,
            _ => false,
        };
        let live = match self.allocation_expires_at {
            Some(deadline) => now < deadline,
            None => false,
        };
        if kept && self.state == STATE_READY && live {
            self.complete(operation, status, stun_code);
            if self.schedule_maintenance_retry(operation, now) {
                return;
            }
            self.destroy_after_channel_rebind_exhausted();
            return;
        }
        self.destroy_allocation(operation, status, stun_code);
    }

    #[verifier::rlimit(60)]
    #[verifier::spinoff_prover]
    fn complete_success(
        &mut self,
        operation: Operation,
        message: &Message,
        now: u64,
        transaction: [u8; 12],
    ) -> (r: bool)
        requires
            old(self).wf(),
            message.wf(),
            now <= CLOCK_LIMIT,
        ensures
            (final(self)@, r) == old(self)@.complete_success(
                operation,
                message.packet@,
                message.spans@,
                now,
                transaction@,
            ),
            final(self).wf(),
    {
        let ghost before = self@;
        let returned: Option<u32> = attribute_u32(message, ATTR_LIFETIME);
        let lifetime: u32 = match returned {
            Some(s) => s,
            None => REQUESTED_ALLOCATION_LIFETIME_SECS,
        };
        match operation {
            Operation::Allocate => {
                let value = match message.attribute(ATTR_XOR_RELAYED_ADDRESS) {
                    Some(value) => value,
                    None => {
                        return false;
                    },
                };
                let asked = message.transaction();
                let relay = match decode_xor_address(value, &asked) {
                    Ok(relay) => relay,
                    Err(_) => {
                        return false;
                    },
                };
                if relay.is_ipv4() != self.peer.is_ipv4() || relay.port == 0 {
                    return false;
                }
                if lifetime == 0 {
                    return false;
                }
                self.relay = Some(relay);
                self.allocation_refresh = Some(
                    allocation_refresh_deadline(now, returned, self.profile.allocation_refresh),
                );
                self.allocation_expires_at = Some(now + lifetime as u64 * SECOND);
                self.refresh_failures = 0;
                self.maintenance_refresh = Some(now + self.profile.maintenance_refresh);
                self.keepalive = Some(now + self.profile.keepalive_interval);
                assert(self@ =~= (CoreModel {
                    relay: Some(relay),
                    allocation_refresh: self.allocation_refresh,
                    allocation_expires_at: self.allocation_expires_at,
                    refresh_failures: 0,
                    maintenance_refresh: self.maintenance_refresh,
                    keepalive: self.keepalive,
                    ..before
                }));
                let mut event = NativeEvent::default();
                event.kind = EVENT_RELAY_ADDRESS;
                event.address = NativeAddress::from_socket_addr(relay);
                self.push_event(event);
                if self.shutting_down {
                    self.set_state(STATE_DEALLOCATING);
                    let started = self.start_operation_with(
                        Operation::Deallocate,
                        true,
                        0,
                        now,
                        transaction,
                    );
                    return started.is_ok();
                }
                self.set_state(STATE_READY);
                self.complete(operation, 0, 0);
                true
            },
            Operation::Refresh => {
                if lifetime == 0 {
                    return false;
                }
                self.allocation_refresh = Some(
                    allocation_refresh_deadline(now, returned, self.profile.allocation_refresh),
                );
                self.allocation_expires_at = Some(now + lifetime as u64 * SECOND);
                self.refresh_failures = 0;
                assert(self@ =~= (CoreModel {
                    allocation_refresh: self.allocation_refresh,
                    allocation_expires_at: self.allocation_expires_at,
                    refresh_failures: 0,
                    ..before
                }));
                self.complete(operation, 0, 0);
                true
            },
            Operation::Deallocate => {
                match returned {
                    Some(s) => {
                        if s != 0 {
                            return false;
                        }
                    },
                    None => {},
                }
                self.relay = None;
                self.allocation_refresh = None;
                self.allocation_expires_at = None;
                assert(self@ =~= (CoreModel {
                    relay: None,
                    allocation_refresh: None,
                    allocation_expires_at: None,
                    ..before
                }));
                self.complete(operation, 0, 0);
                self.set_state(STATE_DEALLOCATED);
                true
            },
            Operation::Permission => {
                self.permission_failures = 0;
                assert(self@ =~= (CoreModel { permission_failures: 0, ..before }));
                self.complete(operation, 0, 0);
                true
            },
            Operation::Channel => {
                self.channel = Some(CHANNEL_NUMBER);
                self.channel_failures = 0;
                assert(self@ =~= (CoreModel {
                    channel: Some(CHANNEL_NUMBER),
                    channel_failures: 0,
                    ..before
                }));
                let mut event = NativeEvent::default();
                event.kind = EVENT_CHANNEL_BOUND;
                event.channel = CHANNEL_NUMBER;
                event.address = NativeAddress::from_socket_addr(self.peer);
                self.push_event(event);
                self.complete(operation, 0, 0);
                true
            },
        }
    }
}

impl NativeCore {
    fn take_pending(&mut self, index: usize) -> (r: Pending)
        requires
            old(self).wf(),
            index < old(self).pending@.len(),
        ensures
            r@ == old(self)@.pending[index as int],
            final(self)@ == (CoreModel {
                pending: old(self)@.pending.remove(index as int),
                ..old(self)@
            }),
            final(self).wf(),
    {
        let ghost before = self@;
        let r = self.pending.remove(index);
        assert(self@ =~= (CoreModel { pending: before.pending.remove(index as int), ..before }));
        proof {
            lemma_remove_keeps_wf(before, index as int);
        }
        r
    }

    fn complete_error(
        &mut self,
        request: Pending,
        message: &Message,
        now: u64,
        transaction: [u8; 12],
    )
        requires
            old(self).wf(),
            message.wf(),
            now <= CLOCK_LIMIT,
        ensures
            final(self)@ == old(self)@.complete_error(
                request@,
                message.packet@,
                message.spans@,
                now,
                transaction@,
            ),
            final(self).wf(),
    {
        let operation = request.operation;
        let method: u32 = operation.method();
        let code: u16 = match error_code(message) {
            Some(code) => code,
            None => 0,
        };
        let state: u32 = self.state;
        let mut event = NativeEvent::default();
        event.kind = EVENT_STUN_RESPONSE_ERROR;
        event.method = method;
        event.stun_code = code as i32;
        event.state = state;
        if code == 0 {
            event.status = RESULT_PROTOCOL;
            self.push_event(event);
            self.complete_failure(operation, RESULT_PROTOCOL, 0, now);
            return;
        }
        if requires_allocation_recreate(operation, code) {
            self.push_event(event);
            self.destroy_allocation(operation, RESULT_PROTOCOL, code as i32);
            return;
        }
        let realm: Option<Vec<u8>> = match message.attribute(ATTR_REALM) {
            Some(value) => Some(copy_bytes(value)),
            None => {
                if code == 438 {
                    match &self.realm {
                        Some(realm) => Some(copy_bytes(realm.as_slice())),
                        None => None,
                    }
                } else {
                    None
                }
            },
        };
        let nonce: Option<Vec<u8>> = match message.attribute(ATTR_NONCE) {
            Some(value) => Some(copy_bytes(value)),
            None => None,
        };
        if (code == 401 || code == 438) && request.nonce_retries < self.profile.max_nonce_retries {
            match (realm, nonce) {
                (Some(realm), Some(nonce)) => {
                    self.set_auth(realm, nonce);
                    let started = self.start_operation_with(
                        operation,
                        true,
                        request.nonce_retries + 1,
                        now,
                        transaction,
                    );
                    if started.is_ok() {
                        return;
                    }
                },
                _ => {},
            }
        }
        self.push_event(event);
        self.complete_failure(operation, RESULT_PROTOCOL, code as i32, now);
    }

    fn accept(
        &mut self,
        index: usize,
        message: &Message,
        now: u64,
        transaction: [u8; 12],
    ) -> (r: i32)
        requires
            old(self).wf(),
            message.wf(),
            index < old(self).pending@.len(),
            now <= CLOCK_LIMIT,
        ensures
            (final(self)@, r) == old(self)@.accept(
                index as int,
                message.packet@,
                message.spans@,
                now,
                transaction@,
            ),
            final(self).wf(),
    {
        let asked = message.transaction();
        let class = message.class();
        let request = self.take_pending(index);
        self.remove_queued_transaction(asked.as_slice());
        let operation = request.operation;
        if class == Class::Success && !request.authenticated {
            self.complete_failure(operation, RESULT_AUTHENTICATION, 0, now);
            return RESULT_AUTHENTICATION;
        }
        if class == Class::Error {
            self.complete_error(request, message, now, transaction);
            return 0;
        }
        if self.complete_success(operation, message, now, transaction) {
            0
        } else {
            self.complete_failure(operation, RESULT_PROTOCOL, 0, now);
            RESULT_PROTOCOL
        }
    }

    fn find_answered(&self, transaction: &[u8; 12], method: u16) -> (r: Option<usize>)
        ensures
            match r {
                Some(i) => i == first_answered(self@.pending, transaction@, method as nat) && i
                    < self.pending@.len(),
                None => first_answered(self@.pending, transaction@, method as nat)
                    >= self@.pending.len(),
            },
    {
        let mut i: usize = 0;
        assert(self@.pending.skip(0) =~= self@.pending);
        while i < self.pending.len()
            invariant
                i <= self.pending.len(),
                first_answered(self@.pending, transaction@, method as nat) == i + first_answered(
                    self@.pending.skip(i as int),
                    transaction@,
                    method as nat,
                ),
            decreases self.pending.len() - i,
        {
            assert(self@.pending.skip(i as int)[0] == self.pending@[i as int]@);
            if self.pending[i].operation.method() == method as u32 && same_bytes(
                self.pending[i].transaction.as_slice(),
                transaction.as_slice(),
            ) {
                return Some(i);
            }
            assert(self@.pending.skip(i as int).skip(1) =~= self@.pending.skip(i + 1));
            i = i + 1;
        }
        None
    }

    /// A packet from the server; `transaction` names the request that it may
    /// bring about.
    pub fn input_stun_with(&mut self, packet: &[u8], now: u64, transaction: [u8; 12]) -> (r: i32)
        requires
            old(self).wf(),
            now <= CLOCK_LIMIT,
        ensures
            (final(self)@, r) == old(self)@.input_stun(packet@, now, transaction@),
            final(self).wf(),
    {
        let message = match Message::decode(packet) {
            Ok(message) => message,
            Err(_) => {
                return RESULT_INVALID_ARGUMENT;
            },
        };
        let class = message.class();
        if class != Class::Success && class != Class::Error {
            return RESULT_NOT_CONTROL;
        }
        match message.fingerprint_valid() {
            Some(valid) => {
                if !valid {
                    return RESULT_INVALID_ARGUMENT;
                }
            },
            None => {},
        }
        let asked = message.transaction();
        let method: u16 = message.method();
        let index: usize = match self.find_answered(&asked, method) {
            Some(index) => index,
            None => {
                return RESULT_NOT_CONTROL;
            },
        };
        if self.pending[index].authenticated && response_requires_integrity(&message)
            && !verify_integrity(&message, &self.key) && !is_fingerprinted_allocation_mismatch(
            &message,
        ) {
            if class == Class::Error {
                match error_code(&message) {
                    Some(code) => {
                        let mut event = NativeEvent::default();
                        event.kind = EVENT_STUN_RESPONSE_ERROR;
                        event.method = method as u32;
                        event.status = RESULT_AUTHENTICATION;
                        event.stun_code = code as i32;
                        event.state = self.state;
                        self.push_event(event);
                    },
                    None => {},
                }
            }
            return RESULT_AUTHENTICATION;
        }
        self.accept(index, &message, now, transaction)
    }

    /// A packet from the server.
    pub fn input_stun(&mut self, packet: &[u8], now: u64) -> (r: i32)
        requires
            old(self).wf(),
            now <= CLOCK_LIMIT,
        ensures
            exists|transaction: Seq<u8>|
                transaction.len() == 12 && (final(self)@, r) == #[trigger] old(self)@.input_stun(
                    packet@,
                    now,
                    transaction,
                ),
            final(self).wf(),
    {
        let transaction = random_transaction();
        self.input_stun_with(packet, now, transaction)
    }

    fn time_out(&mut self, index: usize, now: u64)
        requires
            old(self).wf(),
            index < old(self).pending@.len(),
            now <= CLOCK_LIMIT,
        ensures
            final(self)@ == old(self)@.time_out(index as int, now),
            final(self).wf(),
    {
        let request = self.take_pending(index);
        self.remove_queued_transaction(request.transaction.as_slice());
        self.complete_failure(request.operation, RESULT_TIMEOUT, 0, now);
    }

    fn retransmit(&mut self, index: usize, now: u64)
        requires
            old(self).wf(),
            index < old(self).pending@.len(),
            old(self).pending@[index as int].transmissions < MAX_TRANSMISSIONS,
            now <= CLOCK_LIMIT,
        ensures
            final(self)@ == old(self)@.retransmit(index as int, now),
            final(self).wf(),
    {
        let ghost before = self@;
        let packet = copy_bytes(self.pending[index].packet.as_slice());
        assert(self@.pending[index as int] == self.pending@[index as int]@);
        self.queue_packet(packet);
        let ghost sent = self@;
        let ghost request = sent.pending[index as int];
        assert(self.pending@[index as int]@ == request);
        let mut p = self.pending.remove(index);
        let doubled: u64 = p.rto * 2;
        let rto: u64 = if doubled < MAX_RTO {
            doubled
        } else {
            MAX_RTO
        };
        p.transmissions = p.transmissions + 1;
        p.rto = rto;
        p.next_attempt = now + rto;
        let ghost renewed = p@;
        self.pending.insert(index, p);
        assert(self@ =~= (CoreModel {
            pending: sent.pending.update(index as int, renewed),
            ..sent
        }));
        assert(self@ == before.retransmit(index as int, now));
    }

    /// Sends every request whose time is up again, or gives it up.
    pub fn expire_transactions(&mut self, now: u64)
        requires
            old(self).wf(),
            now <= CLOCK_LIMIT,
        ensures
            final(self)@ == old(self)@.expire_from(0, now),
            final(self).wf(),
    {
        let ghost start = self@;
        let mut index: usize = 0;
        while index < self.pending.len()
            invariant
                self.wf(),
                now <= CLOCK_LIMIT,
                self@.expire_from(index as int, now) == start.expire_from(0, now),
            decreases self@.left_from(index as int),
        {
            let ghost before = self@;
            assert(self@.pending[index as int] == self.pending@[index as int]@);
            if now < self.pending[index].next_attempt {
                index = index + 1;
                continue;
            }
            if self.pending[index].transmissions >= MAX_TRANSMISSIONS || self.transport
                == TurnControlTransport::Stream {
                proof {
                    lemma_time_out_shrinks(before, index as int, now);
                }
                self.time_out(index, now);
                continue;
            }
            self.retransmit(index, now);
            index = index + 1;
        }
    }

    fn poll_expired(&mut self, now: u64)
        requires
            old(self).wf(),
            now <= CLOCK_LIMIT,
        ensures
            final(self)@ == old(self)@.poll_expired(now),
            final(self).wf(),
    {
        self.expire_transactions(now);
        if !self.shutting_down && self.state == STATE_READY && reached(
            self.allocation_expires_at,
            now,
        ) {
            self.destroy_allocation(Operation::Refresh, RESULT_TIMEOUT, 0);
        }
    }

    fn poll_refresh(&mut self, now: u64, transaction: [u8; 12]) -> (r: (
        bool,
        Result<(), CoreError>,
    ))
        requires
            old(self).wf(),
            now <= CLOCK_LIMIT,
        ensures
            (final(self)@, r.0, r.1) == old(self)@.poll_refresh(now, transaction@),
            final(self).wf(),
    {
        if reached(self.allocation_refresh, now) && !self.has_operation(Operation::Refresh) {
            let ghost before = self@;
            self.allocation_refresh = None;
            assert(self@ =~= (CoreModel { allocation_refresh: None, ..before }));
            (true, self.start_operation_with(Operation::Refresh, true, 0, now, transaction))
        } else {
            (false, Ok(()))
        }
    }

    fn poll_permission(&mut self, wanted: bool, now: u64, transaction: [u8; 12]) -> (r: (
        bool,
        Result<(), CoreError>,
    ))
        requires
            old(self).wf(),
            now <= CLOCK_LIMIT,
        ensures
            (final(self)@, r.0, r.1) == old(self)@.poll_permission(wanted, now, transaction@),
            final(self).wf(),
    {
        if wanted && !self.has_operation(Operation::Permission) {
            let ghost before = self@;
            self.permission_retry = None;
            assert(self@ =~= (CoreModel { permission_retry: None, ..before }));
            (true, self.start_operation_with(Operation::Permission, true, 0, now, transaction))
        } else {
            (false, Ok(()))
        }
    }

    fn poll_channel(&mut self, wanted: bool, now: u64, transaction: [u8; 12]) -> (r: (
        bool,
        Result<(), CoreError>,
    ))
        requires
            old(self).wf(),
            now <= CLOCK_LIMIT,
        ensures
            (final(self)@, r.0, r.1) == old(self)@.poll_channel(wanted, now, transaction@),
            final(self).wf(),
    {
        if wanted && !self.has_operation(Operation::Channel) {
            let ghost before = self@;
            self.channel_retry = None;
            assert(self@ =~= (CoreModel { channel_retry: None, ..before }));
            (true, self.start_operation_with(Operation::Channel, true, 0, now, transaction))
        } else {
            (false, Ok(()))
        }
    }

    fn poll_keepalive(&mut self, quiet: bool, now: u64)
        requires
            old(self).wf(),
            now <= CLOCK_LIMIT,
        ensures
            final(self)@ == old(self)@.poll_keepalive(quiet, now),
            final(self).wf(),
    {
        if reached(self.keepalive, now) {
            let ghost before = self@;
            self.keepalive = Some(now + self.profile.keepalive_interval);
            assert(self@ =~= (CoreModel {
                keepalive: after(now, before.profile.keepalive_interval),
                ..before
            }));
            if quiet {
                self.queue_keepalive();
            }
        }
    }

    fn poll_ready(&mut self, now: u64, ids: Transactions) -> (r: Result<(), CoreError>)
        requires
            old(self).wf(),
            now <= CLOCK_LIMIT,
        ensures
            (final(self)@, r) == old(self)@.poll_ready(now, ids.ids()),
            final(self).wf(),
    {
        let maintenance = reached(self.maintenance_refresh, now);
        let permission = maintenance || reached(self.permission_retry, now);
        let channel = maintenance || reached(self.channel_retry, now);
        let (a_started, a) = self.poll_refresh(now, ids.0);
        if a.is_err() {
            return a;
        }
        if maintenance {
            let ghost before = self@;
            self.maintenance_refresh = Some(now + self.profile.maintenance_refresh);
            assert(self@ =~= (CoreModel {
                maintenance_refresh: after(now, before.profile.maintenance_refresh),
                ..before
            }));
        }
        let (b_started, b) = self.poll_permission(permission, now, ids.1);
        if b.is_err() {
            return b;
        }
        let (c_started, c) = self.poll_channel(channel, now, ids.2);
        if c.is_err() {
            return c;
        }
        self.poll_keepalive(!a_started && !b_started && !c_started, now);
        Ok(())
    }

    fn next_deadline(&self) -> (r: Option<u64>)
        ensures
            r == self@.next_deadline(),
    {
        let mut r: Option<u64> = None;
        let mut i: usize = 0;
        assert(self@.pending.take(0) =~= Seq::empty());
        while i < self.pending.len()
            invariant
                i <= self.pending.len(),
                r == earliest_attempt(self@.pending.take(i as int)),
            decreases self.pending.len() - i,
        {
            assert(self@.pending.take(i + 1).drop_last() =~= self@.pending.take(i as int));
            assert(self@.pending.take(i + 1).last() == self.pending@[i as int]@);
            r = earlier_of(r, Some(self.pending[i].next_attempt));
            i = i + 1;
        }
        assert(self@.pending.take(i as int) =~= self@.pending);
        r = earlier_of(r, self.allocation_refresh);
        r = earlier_of(r, self.maintenance_refresh);
        r = earlier_of(r, self.permission_retry);
        r = earlier_of(r, self.channel_retry);
        earlier_of(r, self.keepalive)
    }

    fn next_wait(&self, now: u64) -> (r: Option<u64>)
        ensures
            r == self@.next_wait(now),
    {
        match self.next_deadline() {
            Some(deadline) => {
                if deadline > now && deadline - now >= MILLISECOND {
                    Some(deadline - now)
                } else {
                    Some(MILLISECOND)
                }
            },
            None => None,
        }
    }

    /// Runs the timers with given transactions; how long the owner may wait
    /// before it must run them again.
    pub fn poll_with(&mut self, now: u64, ids: Transactions) -> (r: Result<Option<u64>, CoreError>)
        requires
            old(self).wf(),
            now <= CLOCK_LIMIT,
        ensures
            (final(self)@, r) == old(self)@.poll(now, ids.ids()),
            final(self).wf(),
    {
        if self.destroyed {
            return Ok(None);
        }
        self.poll_expired(now);
        if !self.shutting_down && self.state == STATE_READY {
            match self.poll_ready(now, ids) {
                Ok(()) => {},
                Err(e) => {
                    return Err(e);
                },
            }
        }
        Ok(self.next_wait(now))
    }

    /// Runs the timers; how long the owner may wait before it must run them
    /// again.
    pub fn poll(&mut self, now: u64) -> (r: Result<Option<u64>, CoreError>)
        requires
            old(self).wf(),
            now <= CLOCK_LIMIT,
        ensures
            exists|ids: (Seq<u8>, Seq<u8>, Seq<u8>)|
                (final(self)@, r) == #[trigger] old(self)@.poll(now, ids),
            final(self).wf(),
    {
        let ids = Transactions(random_transaction(), random_transaction(), random_transaction());
        self.poll_with(now, ids)
    }

    /// The next packet for the server, copied into the buffer.
    pub fn pull_control(&mut self, buffer: &mut [u8; 1024]) -> (r: Result<
        Option<(usize, SocketAddress)>,
        CoreError,
    >)
        requires
            old(self).wf(),
        ensures
            final(self).wf(),
            old(self)@.controls.len() == 0 ==> r == Ok::<
                Option<(usize, SocketAddress)>,
                CoreError,
            >(None) && final(self)@ == old(self)@ && final(buffer)@ == old(buffer)@,
            old(self)@.controls.len() > 0 ==> {
                let first = old(self)@.controls[0];
                &&& final(self)@ == (CoreModel {
                    controls: old(self)@.controls.skip(1),
                    ..old(self)@
                })
                &&& first.packet.len() <= 1024 ==> r == Ok::<
                    Option<(usize, SocketAddress)>,
                    CoreError,
                >(Some((first.packet.len() as usize, first.destination))) && final(buffer)@
                    == first.packet + old(buffer)@.skip(first.packet.len() as int)
                &&& first.packet.len() > 1024 ==> r == Err::<
                    Option<(usize, SocketAddress)>,
                    CoreError,
                >(refused(CoreCall::ControlDequeue, RESULT_BUFFER_TOO_SMALL)) && final(buffer)@
                    == old(buffer)@
            },
    {
        let ghost before = self@;
        let ghost empty = buffer@;
        let control = match self.controls.pop_front() {
            Some(control) => control,
            None => {
                assert(self@ =~= before);
                return Ok(None);
            },
        };
        assert(self@ =~= (CoreModel { controls: before.controls.skip(1), ..before }));
        if control.packet.len() > 1024 {
            return Err(
                CoreError::Status {
                    call: CoreCall::ControlDequeue,
                    status: RESULT_BUFFER_TOO_SMALL,
                },
            );
        }
        let mut i: usize = 0;
        while i < control.packet.len()
            invariant
                i <= control.packet.len() <= 1024,
                buffer@.len() == 1024 == empty.len(),
                forall|k: int| 0 <= k < i ==> buffer@[k] == control.packet@[k],
                forall|k: int| i <= k < 1024 ==> buffer@[k] == empty[k],
            decreases control.packet.len() - i,
        {
            buffer[i] = control.packet[i];
            i = i + 1;
        }
        assert(buffer@ =~= control.packet@ + empty.skip(control.packet@.len() as int));
        Ok(Some((control.packet.len(), control.destination)))
    }

    /// The next event for the owner.
    pub fn pull_event(&mut self) -> (r: Option<NativeEvent>)
        requires
            old(self).wf(),
        ensures
            final(self).wf(),
            match r {
                Some(event) => {
                    &&& old(self)@.events.len() > 0
                    &&& event@ == old(self)@.events[0]
                    &&& final(self)@ == (CoreModel {
                        events: old(self)@.events.skip(1),
                        ..old(self)@
                    })
                },
                None => old(self)@.events.len() == 0 && final(self)@ == old(self)@,
            },
    {
        let ghost before = self@;
        let event = self.events.pop_front();
        if event.is_some() {
            assert(self@ =~= (CoreModel { events: before.events.skip(1), ..before }));
        } else {
            assert(self@ =~= before);
        }
        event
    }

    pub fn relay_address(&self) -> (r: Result<SocketAddress, CoreError>)
        ensures
            r == match self@.relay {
                Some(relay) => Ok::<SocketAddress, CoreError>(relay),
                None => Err(CoreError::RelayUnavailable),
            },
    {
        match self.relay {
            Some(relay) => Ok(relay),
            None => Err(CoreError::RelayUnavailable),
        }
    }

    pub fn start_allocation_with(&mut self, now: u64, transaction: [u8; 12]) -> (r: Result<
        (),
        CoreError,
    >)
        requires
            old(self).wf(),
            now <= CLOCK_LIMIT,
        ensures
            (final(self)@, r) == old(self)@.start_allocation(now, transaction@),
            final(self).wf(),
    {
        if self.destroyed || self.shutting_down {
            return Err(CoreError::Status { call: CoreCall::Allocate, status: RESULT_CLOSED });
        }
        if self.state != STATE_NULL {
            return Err(
                CoreError::Status { call: CoreCall::Allocate, status: RESULT_INVALID_ARGUMENT },
            );
        }
        self.set_state(STATE_ALLOCATING);
        self.start_operation_with(Operation::Allocate, false, 0, now, transaction)
    }

    pub fn start_allocation(&mut self, now: u64) -> (r: Result<(), CoreError>)
        requires
            old(self).wf(),
            now <= CLOCK_LIMIT,
        ensures
            exists|transaction: Seq<u8>|
                transaction.len() == 12 && (final(self)@, r) == #[trigger] old(
                    self,
                )@.start_allocation(now, transaction),
            final(self).wf(),
    {
        let transaction = random_transaction();
        self.start_allocation_with(now, transaction)
    }

    pub fn start_ready_with(
        &mut self,
        call: CoreCall,
        operation: Operation,
        now: u64,
        transaction: [u8; 12],
    ) -> (r: Result<(), CoreError>)
        requires
            old(self).wf(),
            now <= CLOCK_LIMIT,
        ensures
            (final(self)@, r) == old(self)@.start_ready(call, operation, now, transaction@),
            final(self).wf(),
    {
        if self.destroyed || self.shutting_down {
            return Err(CoreError::Status { call, status: RESULT_CLOSED });
        }
        if self.state != STATE_READY {
            return Err(CoreError::Status { call, status: RESULT_INVALID_ARGUMENT });
        }
        self.start_operation_with(operation, true, 0, now, transaction)
    }

    pub fn start_channel(&mut self, now: u64) -> (r: Result<(), CoreError>)
        requires
            old(self).wf(),
            now <= CLOCK_LIMIT,
        ensures
            exists|transaction: Seq<u8>|
                transaction.len() == 12 && (final(self)@, r) == #[trigger] old(self)@.start_ready(
                    CoreCall::ChannelBind,
                    Operation::Channel,
                    now,
                    transaction,
                ),
            final(self).wf(),
    {
        let transaction = random_transaction();
        self.start_ready_with(CoreCall::ChannelBind, Operation::Channel, now, transaction)
    }

    pub fn start_permission(&mut self, now: u64) -> (r: Result<(), CoreError>)
        requires
            old(self).wf(),
            now <= CLOCK_LIMIT,
        ensures
            exists|transaction: Seq<u8>|
                transaction.len() == 12 && (final(self)@, r) == #[trigger] old(self)@.start_ready(
                    CoreCall::CreatePermission,
                    Operation::Permission,
                    now,
                    transaction,
                ),
            final(self).wf(),
    {
        let transaction = random_transaction();
        self.start_ready_with(CoreCall::CreatePermission, Operation::Permission, now, transaction)
    }

    pub fn graceful_shutdown_with(&mut self, now: u64, transaction: [u8; 12]) -> (r: Result<
        (),
        CoreError,
    >)
        requires
            old(self).wf(),
            now <= CLOCK_LIMIT,
        ensures
            (final(self)@, r) == old(self)@.graceful_shutdown(now, transaction@),
            final(self).wf(),
    {
        if self.destroyed || self.shutting_down {
            return Ok(());
        }
        let ghost before = self@;
        self.shutting_down = true;
        self.channel = None;
        self.maintenance_refresh = None;
        self.permission_retry = None;
        self.channel_retry = None;
        self.keepalive = None;
        self.controls.clear();
        let ghost closing = CoreModel {
            shutting_down: true,
            channel: None,
            maintenance_refresh: None,
            permission_retry: None,
            channel_retry: None,
            keepalive: None,
            controls: Seq::empty(),
            ..before
        };
        assert(self@ =~= closing);
        if self.state == STATE_READY || (self.state == STATE_DESTROYING
            && self.allocation_expires_at.is_some()) {
            self.pending.clear();
            assert(self@ =~= (CoreModel { pending: Seq::empty(), ..closing }));
            self.set_state(STATE_DEALLOCATING);
            return self.start_operation_with(Operation::Deallocate, true, 0, now, transaction);
        }
        if self.state != STATE_ALLOCATING {
            self.pending.clear();
            assert(self@ =~= (CoreModel { pending: Seq::empty(), ..closing }));
        }
        Ok(())
    }

    pub fn graceful_shutdown(&mut self, now: u64) -> (r: Result<(), CoreError>)
        requires
            old(self).wf(),
            now <= CLOCK_LIMIT,
        ensures
            exists|transaction: Seq<u8>|
                transaction.len() == 12 && (final(self)@, r) == #[trigger] old(
                    self,
                )@.graceful_shutdown(now, transaction),
            final(self).wf(),
    {
        let transaction = random_transaction();
        self.graceful_shutdown_with(now, transaction)
    }

    pub fn force_destroy(&mut self, status: i32)
        requires
            old(self).wf(),
        ensures
            final(self)@ == old(self)@.force_destroy(status),
            final(self).wf(),
    {
        if self.destroyed {
            return;
        }
        let ghost before = self@;
        self.destroyed = true;
        self.controls.clear();
        self.pending.clear();
        assert(self@ =~= (CoreModel {
            destroyed: true,
            controls: Seq::empty(),
            pending: Seq::empty(),
            ..before
        }));
        self.set_state(STATE_DESTROYING);
        let mut event = NativeEvent::default();
        event.kind = EVENT_FORCED_DESTROY;
        event.status = status;
        event.state = STATE_DESTROYING;
        self.push_event(event);
    }
}

fn reached(deadline: Option<u64>, now: u64) -> (r: bool)
    ensures
        r == due(deadline, now),
{
    match deadline {
        Some(d) => now >= d,
        None => false,
    }
}

fn earlier_of(a: Option<u64>, b: Option<u64>) -> (r: Option<u64>)
    ensures
        r == earlier(a, b),
{
    match (a, b) {
        (Some(x), Some(y)) => if y < x {
            b
        } else {
            a
        },
        (Some(_), None) => a,
        (None, _) => b,
    }
}

proof fn lemma_remove_keeps_wf(core: CoreModel, index: int)
    requires
        core.wf(),
        0 <= index < core.pending.len(),
    ensures
        (CoreModel { pending: core.pending.remove(index), ..core }).wf(),
{
    let rest = core.pending.remove(index);
    assert forall|i: int| 0 <= i < rest.len() implies (#[trigger] rest[i]).rto <= MAX_RTO
        && rest[i].transmissions <= MAX_TRANSMISSIONS && rest[i].transaction.len() == 12 by {
        let k = if i < index {
            i
        } else {
            i + 1
        };
        assert(rest[i] == core.pending[k]);
    }
    assert forall|i: int, j: int| 0 <= i < j < rest.len() implies (#[trigger] rest[i]).operation
        != (#[trigger] rest[j]).operation by {
        let a = if i < index {
            i
        } else {
            i + 1
        };
        let b = if j < index {
            j
        } else {
            j + 1
        };
        assert(rest[i] == core.pending[a]);
        assert(rest[j] == core.pending[b]);
    }
}

proof fn lemma_time_out_shrinks(core: CoreModel, index: int, now: u64)
    requires
        0 <= index < core.pending.len(),
    ensures
        core.time_out(index, now).pending.len() < core.pending.len(),
{
}

/// The delay after a number of failures in a row.
pub fn retry_delay(failures: u8) -> (r: u64)
    ensures
        r == maintenance_delay(failures),
{
    let steps: u8 = if failures == 0 {
        0
    } else {
        failures - 1
    };
    let factor: u64 = match steps {
        0 => 1,
        1 => 2,
        2 => 4,
        3 => 8,
        4 => 16,
        _ => 32,
    };
    let delay: u64 = MAINTENANCE_RETRY_BASE * factor;
    if delay < MAINTENANCE_RETRY_MAX {
        delay
    } else {
        MAINTENANCE_RETRY_MAX
    }
}

/// When an allocation with a lifetime in seconds is refreshed.
pub fn allocation_refresh_deadline(now: u64, lifetime: Option<u32>, interval: u64) -> (r: u64)
    requires
        now <= CLOCK_LIMIT,
        interval <= LONGEST_DELAY,
    ensures
        r == now + refresh_delay(lifetime, interval),
{
    let seconds: u32 = match lifetime {
        Some(s) => s,
        None => REQUESTED_ALLOCATION_LIFETIME_SECS,
    };
    let half: u64 = seconds as u64 * SECOND / 2;
    let least: u64 = if half < interval {
        half
    } else {
        interval
    };
    let delay: u64 = if least < 500_000_000 {
        500_000_000
    } else {
        least
    };
    now + delay
}

/// Errors that mean that the server no longer has the allocation.
pub fn requires_allocation_recreate(operation: Operation, code: u16) -> (r: bool)
    ensures
        r == recreate_spec(operation, code),
{
    code == 437 || (operation == Operation::Channel && code == 400)
}

proof fn lemma_push_keeps_wf(core: CoreModel, p: PendingModel)
    requires
        core.wf(),
        p.rto <= MAX_RTO,
        p.transmissions <= MAX_TRANSMISSIONS,
        p.transaction.len() == 12,
        forall|i: int|
            0 <= i < core.pending.len() ==> (#[trigger] core.pending[i]).operation != p.operation,
    ensures
        (CoreModel { pending: core.pending.push(p), ..core }).wf(),
{
}

pub proof fn lemma_no_operation(pending: Seq<PendingModel>, operation: Operation)
    requires
        first_operation(pending, operation) >= pending.len(),
    ensures
        forall|i: int| 0 <= i < pending.len() ==> (#[trigger] pending[i]).operation != operation,
    decreases pending.len(),
{
    if pending.len() > 0 {
        lemma_no_operation(pending.skip(1), operation);
        assert forall|i: int| 0 <= i < pending.len() implies (#[trigger] pending[i]).operation
            != operation by {
            if i > 0 {
                assert(pending[i] == pending.skip(1)[i - 1]);
            }
        }
    }
}

/// The words for a status of the core, without its number.
pub open spec fn status_words(status: i32) -> Option<Seq<char>> {
    if status == 0 {
        Some("success"@)
    } else if status == RESULT_EMPTY {
        Some("empty"@)
    } else if status == RESULT_BUFFER_TOO_SMALL {
        Some("buffer too small"@)
    } else if status == RESULT_INVALID_ARGUMENT {
        Some("invalid argument"@)
    } else if status == RESULT_CLOSED {
        Some("closed"@)
    } else if status == RESULT_NOT_CONTROL {
        Some("not a TURN control response"@)
    } else if status == RESULT_TIMEOUT {
        Some("request timeout"@)
    } else if status == RESULT_AUTHENTICATION {
        Some("response authentication failed"@)
    } else if status == RESULT_PROTOCOL {
        Some("TURN protocol error"@)
    } else {
        None
    }
}

pub open spec fn status_text(status: i32) -> Seq<char> {
    match status_words(status) {
        Some(words) => words + " ("@ + signed_decimal(status as int) + ")"@,
        None => "TURN status "@ + signed_decimal(status as int),
    }
}

fn words_for(status: i32) -> (r: Option<&'static str>)
    ensures
        match r {
            Some(words) => status_words(status) == Some(words@),
            None => status_words(status) is None,
        },
{
    if status == 0 {
        Some("success")
    } else if status == RESULT_EMPTY {
        Some("empty")
    } else if status == RESULT_BUFFER_TOO_SMALL {
        Some("buffer too small")
    } else if status == RESULT_INVALID_ARGUMENT {
        Some("invalid argument")
    } else if status == RESULT_CLOSED {
        Some("closed")
    } else if status == RESULT_NOT_CONTROL {
        Some("not a TURN control response")
    } else if status == RESULT_TIMEOUT {
        Some("request timeout")
    } else if status == RESULT_AUTHENTICATION {
        Some("response authentication failed")
    } else if status == RESULT_PROTOCOL {
        Some("TURN protocol error")
    } else {
        None
    }
}

/// A status in words.
pub fn native_status_text(status: i32) -> (r: String)
    ensures
        r@ == status_text(status),
{
    let number = decimal_i64(status as i64);
    let mut out: Vec<char> = Vec::new();
    match words_for(status) {
        Some(words) => {
            push_text(&mut out, words);
            push_text(&mut out, " (");
            push_chars(&mut out, number.as_slice());
            push_text(&mut out, ")");
        },
        None => {
            push_text(&mut out, "TURN status ");
            push_chars(&mut out, number.as_slice());
        },
    }
    assert(out@ =~= status_text(status));
    string_of(out.as_slice())
}

impl CoreCall {
    pub open spec fn label_spec(self) -> Seq<char> {
        match self {
            CoreCall::Create => "TURN core create"@,
            CoreCall::Allocate => "TURN Allocate start"@,
            CoreCall::ChannelBind => "TURN ChannelBind start"@,
            CoreCall::CreatePermission => "TURN CreatePermission start"@,
            CoreCall::ControlDequeue => "TURN control dequeue"@,
        }
    }

    pub fn label(self) -> (r: &'static str)
        ensures
            r@ == self.label_spec(),
    {
        match self {
            CoreCall::Create => "TURN core create",
            CoreCall::Allocate => "TURN Allocate start",
            CoreCall::ChannelBind => "TURN ChannelBind start",
            CoreCall::CreatePermission => "TURN CreatePermission start",
            CoreCall::ControlDequeue => "TURN control dequeue",
        }
    }
}

impl CoreError {
    pub open spec fn text_spec(self) -> Seq<char> {
        match self {
            CoreError::Status { call, status } => call.label_spec() + ": "@ + status_text(status),
            CoreError::AuthenticationIncomplete => "TURN authentication state is incomplete"@,
            CoreError::MessageTooLarge => "STUN message too large for u16 length"@,
            CoreError::RelayUnavailable => "TURN relay address: unavailable"@,
        }
    }

    /// The refusal in words.
    pub fn text(self) -> (r: String)
        ensures
            r@ == self.text_spec(),
    {
        let mut out: Vec<char> = Vec::new();
        match self {
            CoreError::Status { call, status } => {
                push_text(&mut out, call.label());
                push_text(&mut out, ": ");
                push_text(&mut out, native_status_text(status).as_str());
            },
            CoreError::AuthenticationIncomplete => {
                push_text(&mut out, "TURN authentication state is incomplete");
            },
            CoreError::MessageTooLarge => {
                push_text(&mut out, "STUN message too large for u16 length");
            },
            CoreError::RelayUnavailable => {
                push_text(&mut out, "TURN relay address: unavailable");
            },
        }
        assert(out@ =~= self.text_spec());
        string_of(out.as_slice())
    }
}

} // verus!
