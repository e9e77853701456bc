//! What the client begins with, and small rules along its way.

use vstd::prelude::*;
use crate::client::auth_flow::{legacy_rest, rest_between, LegacyStep};
use crate::client::auth::TurnCredentials;
use crate::client::credentials::same_turn_credentials;
use crate::client::dns::{target_of, SocketTarget};
use crate::client::pacing::should_refresh_configuration_after_full_outage;
use crate::client::packet::packet_pool_size_spec;
use crate::client::replay::{extend, ReplayModel};
use crate::client::session::{allocate_chain, task_failure_spec, TaskEnd};
use crate::client::cause::{Cause, ChainModel};
use crate::client::shutdown::{
    by_activity, ids, law_most_recent_first, marked, ControlStream, ShutdownModel,
};
use crate::client::turn_core::{created, default_profile, NativeCore};
use crate::client::turn_model::{
    recreate_spec, CoreError, CsqttTurnProfile, Operation, TurnControlTransport,
};
use crate::client::worker::{
    credential_cohort_index, credential_stream_id, group_hash_index, worker_restart, WorkerTaskEnd,
};
use crate::net::SocketAddress;
use crate::shared::striped_scheduler::PacketClass;

verus! {

/// A core is made of a server and a peer with ports and of a name and a password of
/// one to 512 bytes; it then knows them, and has and asks for nothing.
pub proof fn law_core_begins_with_nothing(
    r: Result<NativeCore, CoreError>,
    server: SocketAddress,
    username: Seq<u8>,
    password: Seq<u8>,
    peer: SocketAddress,
    profile: CsqttTurnProfile,
    transport: TurnControlTransport,
)
    requires
        created(r, server, username, password, peer, profile, transport),
    ensures
        r is Ok <==> server.port > 0 && peer.port > 0 && 1 <= username.len() <= 512 && 1
            <= password.len() <= 512,
        r matches Ok(core) ==> {
            &&& core@.server == server
            &&& core@.peer == peer
            &&& core@.username == username
            &&& core@.password == password
            &&& core@.transport == transport
            &&& core@.profile == profile
            &&& core@.state == 0
            &&& core@.key is None && core@.realm is None && core@.nonce is None
            &&& core@.relay is None && core@.channel is None
            &&& core@.pending.len() == 0 && core@.controls.len() == 0 && core@.events.len() == 0
            &&& core@.allocation_expires_at is None
            &&& !core@.destroyed && !core@.shutting_down
        },
{
}

/// By itself a core refreshes after five minutes, renews after 175 seconds, keeps a
/// channel open every ten seconds, and answers three challenges.
pub proof fn law_usual_profile()
    ensures
        default_profile().allocation_refresh == 300_000_000_000,
        default_profile().maintenance_refresh == 175_000_000_000,
        default_profile().keepalive_interval == 10_000_000_000,
        default_profile().max_nonce_retries == 3,
{
}

/// An allocation is gone by one code, and by another where a channel was asked for.
pub proof fn law_gone_allocations_are_known(operation: Operation, code: u16)
    ensures
        recreate_spec(operation, 437),
        recreate_spec(Operation::Channel, 400),
        operation != Operation::Channel ==> !recreate_spec(operation, 400),
        code != 437 && code != 400 ==> !recreate_spec(operation, code),
{
}

/// A rest is between its limits, and every one of them can be had.
pub proof fn law_rests_are_spread(least: u64, most: u64, random: u64, r: u64, next: u64)
    requires
        least <= most < u64::MAX,
        random < most - least,
        call_ensures(rest_between, (least, most, random), r),
        call_ensures(rest_between, (least, most, (random + 1) as u64), next),
    ensures
        least <= r <= most,
        r == least + random,
        next == r + 1,
{
    vstd::arithmetic::div_mod::lemma_small_mod(random as nat, (most - least + 1) as nat);
    vstd::arithmetic::div_mod::lemma_small_mod((random + 1) as nat, (most - least + 1) as nat);
}

/// After a preview the older way rests longest, and after the last step not at all.
pub proof fn law_older_way_rests(step: LegacyStep, r: (u64, u64))
    requires
        call_ensures(legacy_rest, (step,), r),
    ensures
        step is Join ==> r == (0u64, 0u64),
        step is Preview ==> r == (200u64, 400u64),
        !(step is Join) && !(step is Preview) ==> r == (100u64, 150u64),
{
}

/// Credentials are the same where their name, password and addresses are.
pub proof fn law_same_credentials(left: &TurnCredentials, right: &TurnCredentials, r: bool)
    requires
        call_ensures(same_turn_credentials, (left, right), r),
    ensures
        r ==> left@.username == right@.username && left@.password == right@.password
            && left@.server_addresses == right@.server_addresses,
        left@.username != right@.username ==> !r,
        left@.password != right@.password ==> !r,
        left@.server_addresses != right@.server_addresses ==> !r,
        left@ == right@ ==> r,
{
}

/// A target needs a host and a port, and what is missing is told.
pub proof fn law_targets_need_host_and_port(parts: Option<(Option<String>, Option<u16>)>, r: SocketTarget)
    requires
        call_ensures(target_of, (parts,), r),
    ensures
        parts is None <==> r is Unreadable,
        r is Host ==> parts is Some,
        parts matches Some((host, port)) ==> {
            &&& host is None ==> r is NoHost
            &&& host is Some && port is None ==> r is NoPort
            &&& host is Some && port is Some ==> r == (SocketTarget::Host {
                host: host->0,
                port: port->0,
            })
        },
{
}

/// The configuration is asked for again only after a failure that took the last
/// working path, and not when the client stops.
pub proof fn law_full_outage(ready: bool, failed: bool, active: i32, cancelled: bool, r: bool)
    requires
        call_ensures(
            should_refresh_configuration_after_full_outage,
            (ready, failed, active, cancelled),
            r,
        ),
    ensures
        r ==> ready && failed && active == 0 && !cancelled,
        ready && failed && active == 0 && !cancelled ==> r,
{
}

/// Each worker has 256 buffers, and all of them share 512 more.
pub proof fn law_buffers_per_worker(workers: int)
    requires
        0 <= workers <= 1_000_000,
    ensures
        packet_pool_size_spec(0) == 512,
        packet_pool_size_spec(workers + 1) == packet_pool_size_spec(workers) + 256,
{
}

/// The first number of a stream stands for itself, and a later one for the counter
/// that it is nearest to.
pub proof fn law_numbers_stand_for_counters(model: ReplayModel, sequence: u16)
    ensures
        model.highest is None ==> model.accept_rtp(sequence) == model.accept(sequence as u64),
        model.highest matches Some(highest) ==> model.accept_rtp(sequence) == model.accept(
            extend(highest, sequence),
        ),
        model.highest == Some(0xffffu64) && sequence == 0 ==> model.accept_rtp(sequence)
            == model.accept(0x1_0000),
        model.highest == Some(0x1_0000u64) && sequence == 0xffff ==> model.accept_rtp(sequence)
            == model.accept(0xffff),
{
}

/// Credentials are asked for under numbers a hundred apart, groups go round the
/// hashes, and two groups of one hash in a row share credentials.
pub proof fn law_groups_are_numbered(
    id: usize,
    stream: usize,
    index: usize,
    count: usize,
    hash: usize,
    cohort: usize,
)
    requires
        id * 100 <= usize::MAX,
        0 < count,
        call_ensures(credential_stream_id, (id,), stream),
        call_ensures(group_hash_index, (index, count), hash),
        call_ensures(credential_cohort_index, (index,), cohort),
    ensures
        stream == 100 * id,
        index < count ==> hash == index,
        hash < count,
        2 * cohort == index || 2 * cohort + 1 == index,
{
    vstd::arithmetic::div_mod::lemma_mod_bound(index as int, count as int);
    if index < count {
        vstd::arithmetic::div_mod::lemma_small_mod(index as nat, count as nat);
    }
}

/// Only a worker that broke down is started again, after a second, and not when the
/// client stops.
pub proof fn law_broken_workers_are_restarted(end: WorkerTaskEnd, cancelled: bool, r: Option<u64>)
    requires
        call_ensures(worker_restart, (end, cancelled), r),
    ensures
        end == WorkerTaskEnd::Panicked && !cancelled ==> r == Some(1_000u64),
        end != WorkerTaskEnd::Panicked || cancelled ==> r is None,
{
}

/// A refused allocation is told as such before what lies beneath it.
pub proof fn law_refused_allocation_is_told_first(beneath: ChainModel)
    ensures
        allocate_chain(beneath).causes.len() == beneath.causes.len() + 1,
        allocate_chain(beneath).causes[0] == Cause::TurnAllocate,
        allocate_chain(beneath).causes.skip(1) == beneath.causes,
        allocate_chain(beneath).message == "TURN Allocate: "@ + beneath.full,
        allocate_chain(beneath).full == "TURN Allocate: "@ + beneath.full + ": "@ + beneath.full,
{
    assert(allocate_chain(beneath).causes.skip(1) =~= beneath.causes);
}

/// A task that ended by itself, or that was given up, is no failure; one that broke
/// down or was stopped is.
pub proof fn law_broken_tasks_are_told(stopping: bool, end: TaskEnd)
    ensures
        task_failure_spec(stopping, end) is Some <==> end is Panicked || end is Stopped,
        task_failure_spec(true, TaskEnd::Panicked) == Some(
            "session panicked during graceful shutdown: "@,
        ),
        task_failure_spec(true, TaskEnd::Stopped) == Some(
            "session stopped during graceful shutdown: "@,
        ),
{
}

/// A stream that was active last is spoken over first, and no other stream changes.
pub proof fn law_activity_brings_to_the_front(model: ShutdownModel, at: int)
    requires
        0 <= at < model.streams.len(),
        model.next_activity > 0,
        forall|i: int|
            0 <= i < model.streams.len() ==> (#[trigger] model.streams[i]).activity
                < model.next_activity,
        forall|i: int|
            0 <= i < model.streams.len() && i != at ==> (
            #[trigger] model.streams[i]).incarnation_id != model.streams[at].incarnation_id,
    ensures
        model.mark_activity(model.streams[at].incarnation_id).control_streams()[0]
            == model.streams[at].incarnation_id,
        model.mark_activity(model.streams[at].incarnation_id).streams.len() == model.streams.len(),
        forall|i: int|
            0 <= i < model.streams.len() && i != at ==> #[trigger] model.mark_activity(
                model.streams[at].incarnation_id,
            ).streams[i] == model.streams[i],
{
    let id = model.streams[at].incarnation_id;
    let all = marked(model.streams, id, model.next_activity);
    let stream = ControlStream { incarnation_id: id, activity: model.next_activity };
    assert(all[at] == stream);
    law_most_recent_first(all);
    let ordered = by_activity(all);
    broadcast use vstd::seq_lib::group_to_multiset_ensures;

    assert(all.to_multiset().count(stream) > 0);
    assert(ordered.to_multiset().count(stream) > 0);
    assert(ordered.contains(stream));
    let k = choose|k: int| 0 <= k < ordered.len() && ordered[k] == stream;
    assert(ordered.to_multiset().count(ordered[0]) > 0);
    assert(all.to_multiset().count(ordered[0]) > 0);
    assert(all.contains(ordered[0]));
    let j = choose|j: int| 0 <= j < all.len() && all[j] == ordered[0];
    if j != at {
        assert(all[j] == model.streams[j]);
        assert(k > 0);
        assert(!crate::client::shutdown::precedes(ordered[k], ordered[0]));
    }
    assert(ids(ordered)[0] == id);
}

/// A batch of datagrams holds sixteen small ones, sixty-four medium ones or a
/// hundred and twenty-eight large ones.
pub proof fn law_batches_by_class()
    ensures
        PacketClass::Small.batch_spec() == 16,
        PacketClass::Medium.batch_spec() == 64,
        PacketClass::Bulk.batch_spec() == 128,
{
}

/// Streams are spoken over by their activity, the latest first, and of two that were
/// active at once the younger one.
pub proof fn law_younger_streams_break_ties(streams: Seq<ControlStream>, i: int, j: int)
    requires
        0 <= i < j < streams.len(),
    ensures
        by_activity(streams)[i].activity >= by_activity(streams)[j].activity,
        by_activity(streams)[i].activity == by_activity(streams)[j].activity ==> by_activity(
            streams,
        )[i].incarnation_id >= by_activity(streams)[j].incarnation_id,
{
    law_most_recent_first(streams);
    assert(!crate::client::shutdown::precedes(by_activity(streams)[j], by_activity(streams)[i]));
}

} // verus!
