//! What workers make of failures, and how they are shared out.

use vstd::prelude::*;
use crate::client::cause::{
    invalid_credentials_spec, mismatch_spec, network_down_spec, quota_spec, stream_reset_spec,
    transport_timeout_spec, Cause, IoKind,
};
use crate::client::credentials::{CacheModel, LeaseModel};
use crate::client::pacing::ConfigFlightGuard;
use crate::client::session::ConfigDeliveryState;
use crate::client::worker::{
    aftermath_spec, credential_of, distinct_hashes, group_worker_ids, hash_of, hash_spec,
    recovery_spec, retry_spec, tcp_delay_spec, Recovery, SessionReport, WorkerAction, WorkerLog,
};
use crate::text::{
    has_prefix, has_text, is_white_space, lower_char, lower_spec, occurs_at, trim_spec,
    CharClass,
};

verus! {

/// Groups take the workers in turn, nine each, beginning with the first.
pub proof fn law_groups_take_nine_workers(
    group: usize,
    ids: std::ops::Range<usize>,
    next: std::ops::Range<usize>,
)
    requires
        1 <= group,
        group < usize::MAX / 10 - 1,
        call_ensures(group_worker_ids, (group,), ids),
        call_ensures(group_worker_ids, ((group + 1) as usize,), next),
    ensures
        ids.end == ids.start + 9,
        next.start == ids.end,
        group == 1 ==> ids.start == 1,
{
}

/// Groups go round the hashes, and the groups of two rounds share credentials, which
/// are numbered from one in the order in which they are needed.
pub proof fn law_two_rounds_share_credentials(pair: int, hash: int, hash_count: int)
    requires
        0 <= pair,
        0 <= hash < hash_count,
    ensures
        hash_of(2 * pair * hash_count + hash, hash_count) == hash,
        hash_of((2 * pair + 1) * hash_count + hash, hash_count) == hash,
        credential_of(2 * pair * hash_count + hash, hash_count) == pair * hash_count + hash + 1,
        credential_of((2 * pair + 1) * hash_count + hash, hash_count) == pair * hash_count + hash
            + 1,
{
    let a = 2 * pair * hash_count + hash;
    let b = (2 * pair + 1) * hash_count + hash;
    vstd::arithmetic::div_mod::lemma_fundamental_div_mod_converse(a, hash_count, 2 * pair, hash);
    vstd::arithmetic::div_mod::lemma_fundamental_div_mod_converse(
        b,
        hash_count,
        2 * pair + 1,
        hash,
    );
    assert((2 * pair) / 2 == pair);
    assert((2 * pair + 1) / 2 == pair);
}

// ---------------------------------------------------------------------------
// Failures
// ---------------------------------------------------------------------------

proof fn lemma_absent(needle: Seq<char>)
    requires
        needle.len() > 0,
    ensures
        !has_text(Seq::<char>::empty(), needle),
        lower_spec(Seq::<char>::empty()) == Seq::<char>::empty(),
{
    assert(lower_spec(Seq::<char>::empty()) =~= Seq::<char>::empty());
    assert forall|i: int| !occurs_at(Seq::<char>::empty(), needle, i) by {}
}

proof fn lemma_nothing_said()
    ensures
        lower_spec(Seq::<char>::empty()) == Seq::<char>::empty(),
        forall|needle: Seq<char>|
            needle.len() > 0 ==> !#[trigger] has_text(Seq::<char>::empty(), needle),
        "target_repair"@.len() > 0,
        "turn channel rebind retry exhausted"@.len() > 0,
        "turn allocate"@.len() > 0,
        "stun error 437"@.len() > 0,
        "stun error 400"@.len() > 0,
        "channelbind"@.len() > 0,
        "turn "@.len() > 0,
        "connection reset by peer"@.len() > 0,
        "connection aborted"@.len() > 0,
        "broken pipe"@.len() > 0,
        "network is unreachable"@.len() > 0,
        "network is down"@.len() > 0,
        "no route to host"@.len() > 0,
        "no route to network"@.len() > 0,
        "enetunreach"@.len() > 0,
        "enetdown"@.len() > 0,
        "ehostunreach"@.len() > 0,
        "os error "@.len() > 0,
        "error 29"@.len() > 0,
        "cannot create socket"@.len() > 0,
        "getconf"@.len() > 0,
        "wrap_auth_timeout"@.len() > 0,
        "FATAL_AUTH"@.len() > 0,
        "FATAL_PROTOCOL"@.len() > 0,
        "FATAL_HANDSHAKE"@.len() > 0,
        "хеш мёртв"@.len() > 0,
        "transaction timeout"@.len() > 0,
        "request timeout"@.len() > 0,
        "i/o timeout"@.len() > 0,
        "timed out"@.len() > 0,
        "deadline has elapsed"@.len() > 0,
{
    assert forall|needle: Seq<char>| needle.len() > 0 implies !#[trigger] has_text(
        Seq::<char>::empty(),
        needle,
    ) by {
        lemma_absent(needle);
    }
    assert(lower_spec(Seq::<char>::empty()) =~= Seq::<char>::empty());
    reveal_strlit("target_repair");
    reveal_strlit("turn channel rebind retry exhausted");
    reveal_strlit("turn allocate");
    reveal_strlit("stun error 437");
    reveal_strlit("stun error 400");
    reveal_strlit("channelbind");
    reveal_strlit("turn ");
    reveal_strlit("connection reset by peer");
    reveal_strlit("connection aborted");
    reveal_strlit("broken pipe");
    reveal_strlit("network is unreachable");
    reveal_strlit("network is down");
    reveal_strlit("no route to host");
    reveal_strlit("no route to network");
    reveal_strlit("enetunreach");
    reveal_strlit("enetdown");
    reveal_strlit("ehostunreach");
    reveal_strlit("os error ");
    reveal_strlit("error 29");
    reveal_strlit("cannot create socket");
    reveal_strlit("getconf");
    reveal_strlit("wrap_auth_timeout");
    reveal_strlit("FATAL_AUTH");
    reveal_strlit("FATAL_PROTOCOL");
    reveal_strlit("FATAL_HANDSHAKE");
    reveal_strlit("хеш мёртв");
    reveal_strlit("transaction timeout");
    reveal_strlit("request timeout");
    reveal_strlit("i/o timeout");
    reveal_strlit("timed out");
    reveal_strlit("deadline has elapsed");
}

/// What comes of a failure that has causes but no words.
pub open spec fn silent_recovery(
    cache: CacheModel,
    attempt: usize,
    lease: LeaseModel,
    causes: Seq<Cause>,
    tcp: bool,
    random: u64,
) -> Recovery {
    recovery_spec(
        cache,
        attempt,
        lease,
        causes,
        Seq::empty(),
        Seq::empty(),
        tcp,
        false,
        random,
    )
}

/// A relay without room for another allocation costs the credentials and keeps
/// them out for good until others came; the worker begins anew.
pub proof fn law_full_relay_rotates_the_credentials(
    cache: CacheModel,
    attempt: usize,
    lease: LeaseModel,
    tcp: bool,
    random: u64,
)
    requires
        cache.holds(lease),
    ensures
        ({
            let causes = seq![Cause::TurnAllocate, Cause::TurnRequest { stun_code: 486 }];
            let r = silent_recovery(cache, attempt, lease, causes, tcp, random);
            &&& r.cache.current is None
            &&& !r.cache.store(lease.value).1
            &&& r.cache.quota_retries == cache.quota_retries + 1 || cache.quota_retries
                == usize::MAX
            &&& r.attempt == 0
            &&& cache.quota_retries == 0 ==> r.delay_ms == 100
            &&& cache.quota_retries == 1 ==> r.delay_ms == 300
            &&& cache.quota_retries >= 4 ==> r.delay_ms == 1_500
            &&& r.log == WorkerLog::QuotaRotated
            &&& !r.network_timeout
        }),
{
    lemma_nothing_said();
    let causes = seq![Cause::TurnAllocate, Cause::TurnRequest { stun_code: 486 }];
    let rest = causes.skip(1);
    assert(rest =~= seq![Cause::TurnRequest { stun_code: 486 }]);
    reveal_with_fuel(crate::client::cause::first_stun_code, 3);
    reveal_with_fuel(crate::client::cause::allocate_code, 3);
}

/// A relay that does not accept the credentials costs them at once, and no other
/// refusal does: a relay that has forgotten an allocation gives them a second
/// chance, and any other code leaves them alone.
pub proof fn law_refused_credentials_are_given_up(
    cache: CacheModel,
    attempt: usize,
    lease: LeaseModel,
    code: i32,
    tcp: bool,
    random: u64,
)
    requires
        cache.holds(lease),
    ensures
        ({
            let r = silent_recovery(
                cache,
                attempt,
                lease,
                seq![Cause::TurnRequest { stun_code: code }],
                tcp,
                random,
            );
            if code == 401 || code == 438 || code == 441 {
                &&& r.cache.current is None
                &&& r.cache.quota_blocked == cache.quota_blocked
                &&& r.attempt == 0
                &&& 100 <= r.delay_ms <= 150
                &&& r.log == WorkerLog::CredentialsRefused
            } else if code == 437 {
                &&& cache.current->0.allocation_mismatches == 0 ==> r.cache.holds(lease)
                    && r.cache.current->0.allocation_mismatches == 1 && 50 <= r.delay_ms <= 100
                &&& cache.current->0.allocation_mismatches > 0 ==> r.cache.current is None && 100
                    <= r.delay_ms <= 150
                &&& r.attempt == 0
            } else {
                &&& r.cache == cache
                &&& r.attempt == attempt + 1 || attempt == usize::MAX
                &&& 250 <= r.delay_ms <= 4_250
                &&& !r.network_timeout
            }
        }),
{
    lemma_nothing_said();
    let causes = seq![Cause::TurnRequest { stun_code: code }];
    assert(causes.skip(1) =~= Seq::<Cause>::empty());
    reveal_with_fuel(crate::client::cause::first_stun_code, 3);
    reveal_with_fuel(crate::client::cause::allocate_code, 3);
    assert(crate::client::cause::allocate_code(causes) is None);
    lemma_no_os_error();
}

proof fn lemma_no_os_error()
    ensures
        forall|code: i32|
            !#[trigger] crate::client::cause::names_os_error(Seq::<char>::empty(), code),
{
    reveal_strlit("os error ");
    assert forall|code: i32|
        !#[trigger] crate::client::cause::names_os_error(Seq::<char>::empty(), code) by {
        let text = crate::client::cause::os_error_text(code);
        assert(text.len() >= 9);
        assert forall|i: int| !#[trigger] occurs_at(Seq::<char>::empty(), text, i) by {}
    }
}

/// Without a way to the network the credentials stay, the worker counts another
/// attempt and waits from a quarter of a second to a second, and the network is
/// told to be at fault; a stream that the other side closed is waited for by its
/// own schedule.
pub proof fn law_system_failures_keep_the_credentials(
    cache: CacheModel,
    attempt: usize,
    lease: LeaseModel,
    code: Option<i32>,
    kind: IoKind,
    tcp: bool,
    random: u64,
)
    requires
        attempt < usize::MAX,
    ensures
        ({
            let r = silent_recovery(
                cache,
                attempt,
                lease,
                seq![Cause::Io { code, kind }],
                tcp,
                random,
            );
            &&& r.cache == cache
            &&& r.attempt == attempt + 1
            &&& if tcp && kind != IoKind::Other {
                r.log == WorkerLog::StreamClosed && r.delay_ms == tcp_delay_spec(attempt + 1)
                    && !r.network_timeout
            } else if code == Some(100i32) || code == Some(101i32) || code == Some(113i32) || code
                == Some(10_050i32) || code == Some(10_051i32) || code == Some(10_065i32) {
                r.log == WorkerLog::NetworkDown && r.network_timeout && 250 <= r.delay_ms <= 1_000
            } else {
                r.log == WorkerLog::Failure && !r.network_timeout && r.delay_ms == retry_spec(
                    attempt + 1,
                    (random % 251) as u64,
                )
            }
        }),
{
    lemma_nothing_said();
    lemma_no_os_error();
    let cause = Cause::Io { code, kind };
    let causes = seq![cause];
    assert(causes.skip(1) =~= Seq::<Cause>::empty());
    reveal_with_fuel(crate::client::cause::first_stun_code, 3);
    reveal_with_fuel(crate::client::cause::allocate_code, 3);
    assert(causes[0] == cause);
    if crate::client::cause::is_reset_kind(kind) {
        assert(crate::client::cause::has_reset_cause(causes));
    } else {
        assert(!crate::client::cause::has_reset_cause(causes));
    }
    if code matches Some(c) && crate::client::cause::is_network_code(c) {
        assert(crate::client::cause::has_network_cause(causes));
    } else {
        assert(!crate::client::cause::has_network_cause(causes));
    }
}

/// The waits between attempts: a quarter of a second, then twice as long each time
/// up to four seconds, and a jitter of at most a quarter of a second above; after
/// a stream was closed a tenth of a second, and then up to a second and a half.
pub proof fn law_waits_double(attempt: int, jitter_ms: u64)
    requires
        1 <= attempt,
    ensures
        retry_spec(1, 0) == 250,
        retry_spec(attempt + 1, 0) == if 2 * retry_spec(attempt, 0) < 4_000 {
            2 * retry_spec(attempt, 0)
        } else {
            4_000
        },
        retry_spec(attempt, jitter_ms) == retry_spec(attempt, 0) + if jitter_ms <= 250 {
            jitter_ms as int
        } else {
            250
        },
        (tcp_delay_spec(1), tcp_delay_spec(2), tcp_delay_spec(3)) == (100u64, 300u64, 500u64),
        tcp_delay_spec(4) == 800,
        attempt >= 5 ==> tcp_delay_spec(attempt) == 1_500,
{
}

/// A session that never began to allocate gives its share back, one that was ready
/// forgets failed attempts, and one that leaves nobody connected makes the
/// configuration be asked for again, if it had been sent.
pub proof fn law_session_leaves_things_in_order(
    cache: CacheModel,
    attempt: usize,
    flight: ConfigDeliveryState,
    guard: ConfigFlightGuard,
    lease: LeaseModel,
    report: SessionReport,
    random: u64,
)
    ensures
        ({
            let r = aftermath_spec(
                cache,
                attempt,
                flight,
                guard,
                lease,
                report,
                None,
                random,
            );
            &&& report.allocation_started ==> r.cache == cache
            &&& !report.allocation_started ==> r.cache == cache.release(lease)
            &&& report.was_ready ==> r.attempt == 0
            &&& !report.was_ready ==> r.attempt == attempt
            &&& guard.acquired ==> !r.flight.in_flight
            &&& !guard.acquired ==> r.flight.in_flight == flight.in_flight
            &&& r.flight.sent == flight.sent
            &&& !r.verdict.refresh
            &&& report.cancelled || report.unavailable ==> r.verdict.action == WorkerAction::Stop
            &&& !report.cancelled && !report.unavailable && report.paused ==> r.verdict.action
                == WorkerAction::Again
            &&& !report.cancelled && !report.unavailable && !report.paused
                ==> (r.verdict.action matches WorkerAction::Sleep { delay_ms } && 250 <= delay_ms
                <= 4_250)
        }),
{
}

/// A failure that leaves nobody connected makes the configuration be asked for
/// again; one that leaves others connected, or that follows a cancellation, does
/// not.
pub proof fn law_outage_reopens_the_configuration(
    cache: CacheModel,
    attempt: usize,
    flight: ConfigDeliveryState,
    guard: ConfigFlightGuard,
    lease: LeaseModel,
    report: SessionReport,
    error: crate::client::cause::ErrorChain,
    random: u64,
)
    ensures
        ({
            let r = aftermath_spec(
                cache,
                attempt,
                flight,
                guard,
                lease,
                report,
                Some(error),
                random,
            );
            if report.was_ready && report.active_connections == 0 && !report.cancelled {
                !r.flight.sent && r.verdict.refresh == flight.sent
            } else {
                r.flight.sent == flight.sent && !r.verdict.refresh
            }
        }),
{
}

// ---------------------------------------------------------------------------
// Hashes
// ---------------------------------------------------------------------------

/// A hash as it can be typed: nothing at its edges or in it that is not its own.
pub open spec fn is_plain_hash(hash: Seq<char>) -> bool {
    &&& hash.len() > 0
    &&& !hash.contains('/') && !hash.contains('?') && !hash.contains('#')
    &&& !is_white_space(hash[0]) && !is_white_space(hash.last())
    &&& !CharClass::Quote.holds(hash[0]) && !CharClass::Quote.holds(hash.last())
}

proof fn lemma_untrimmed(s: Seq<char>, class: CharClass)
    requires
        s.len() == 0 || (!class.holds(s[0]) && !class.holds(s.last())),
    ensures
        trim_spec(s, class) == s,
{
    let none = Seq::<char>::empty();
    crate::text::law_trimming_takes_the_edges(none, s, none, class);
    assert(none + s + none =~= s);
}

/// A hash alone stands for itself.
pub proof fn law_hash_stands_for_itself(hash: Seq<char>)
    requires
        is_plain_hash(hash),
    ensures
        hash_spec(hash) == Some(hash),
{
    lemma_untrimmed(hash, CharClass::WhiteSpace);
    lemma_untrimmed(hash, CharClass::Quote);
    assert forall|k: int| 0 <= k < hash.len() implies hash[k] != '/' && hash[k] != '?' && hash[k]
        != '#' by {
        assert(hash.contains(hash[k]));
    }
    lemma_untrimmed(hash, CharClass::Is('/'));
    let name = lower_spec(hash);
    reveal_strlit("/call/join/");
    reveal_strlit("http://");
    reveal_strlit("https://");
    assert forall|i: int| !occurs_at(name, "/call/join/"@, i) by {
        if occurs_at(name, "/call/join/"@, i) {
            assert(name.subrange(i, i + 11)[0] == '/');
            assert(name[i] == lower_char(hash[i]));
        }
    }
    crate::text::lemma_first_text(name, "/call/join/"@);
    if has_prefix(name, "http://"@) {
        assert(name.subrange(0, 7)[5] == '/');
        assert(name[5] == lower_char(hash[5]));
    }
    if has_prefix(name, "https://"@) {
        assert(name.subrange(0, 8)[6] == '/');
        assert(name[6] == lower_char(hash[6]));
    }
    crate::text::lemma_first_in_is(hash, CharClass::PathEnd, hash.len() as int);
    assert(hash.take(hash.len() as int) =~= hash);
}

/// The link to a call stands for the hash at its end, whatever follows it as a
/// path, a query or a fragment; any other link stands for nothing.
pub proof fn law_link_stands_for_its_hash(prefix: Seq<char>, hash: Seq<char>, tail: Seq<char>)
    requires
        lower_spec(prefix) == "https://vk.com/call/join/"@,
        is_plain_hash(hash),
        tail.len() == 0 || (CharClass::PathEnd.holds(tail[0]) && !is_white_space(tail.last())
            && !CharClass::Quote.holds(tail.last())),
    ensures
        hash_spec(prefix + hash + tail) == Some(hash),
{
    reveal_strlit("/call/join/");
    reveal_strlit("https://vk.com/call/join/");
    let item = prefix + hash + tail;
    let full = "https://vk.com/call/join/"@;
    assert(lower_spec(prefix).len() == prefix.len());
    assert(full.len() == 25);
    assert(item[0] == prefix[0]);
    assert(lower_spec(prefix)[0] == lower_char(prefix[0]));
    assert(full[0] == 'h');
    assert(item.last() == if tail.len() > 0 {
        tail.last()
    } else {
        hash.last()
    });
    lemma_untrimmed(item, CharClass::WhiteSpace);
    lemma_untrimmed(item, CharClass::Quote);
    let name = lower_spec(item);
    let needle = "/call/join/"@;
    assert forall|k: int| 0 <= k < 25 implies name[k] == full[k] by {
        assert(item[k] == prefix[k]);
        assert(lower_spec(prefix)[k] == lower_char(prefix[k]));
    }
    assert(name.subrange(14, 25) =~= needle);
    assert(occurs_at(name, needle, 14));
    assert forall|i: int| 0 <= i < 14 implies !occurs_at(name, needle, i) by {
        if occurs_at(name, needle, i) {
            assert(name.subrange(i, i + 11)[0] == '/');
            assert(name.subrange(i, i + 11)[1] == 'c');
            assert(name[i] == full[i] && name[i + 1] == full[i + 1]);
        }
    }
    crate::text::lemma_first_text(name, needle);
    let i = crate::text::first_text(name, needle)->0;
    assert(i == 14) by {
        if i > 14 {
            assert(!occurs_at(name, needle, 14));
        }
    }
    let path = item.skip(25);
    assert(path =~= hash + tail);
    assert forall|k: int| 0 <= k < hash.len() implies !CharClass::PathEnd.holds(path[k]) by {
        assert(path[k] == hash[k]);
        assert(hash.contains(hash[k]));
    }
    if tail.len() > 0 {
        assert(path[hash.len() as int] == tail[0]);
    }
    crate::text::lemma_first_in_is(path, CharClass::PathEnd, hash.len() as int);
    assert(path.take(hash.len() as int) =~= hash);
    lemma_untrimmed(hash, CharClass::WhiteSpace);
    assert(hash.contains(hash[0]) && hash.contains(hash.last()));
    lemma_untrimmed(hash, CharClass::Is('/'));
}

/// A list gives the hash of every item that has one, and no other.
pub proof fn law_every_hash_is_listed(items: Seq<Seq<char>>, hash: Seq<char>)
    ensures
        distinct_hashes(items).contains(hash) <==> exists|i: int|
            0 <= i < items.len() && hash_spec(#[trigger] items[i]) == Some(hash),
    decreases items.len(),
{
    let list = distinct_hashes(items);
    if items.len() > 0 {
        let before = items.drop_last();
        law_every_hash_is_listed(before, hash);
        let n = items.len() - 1;
        let earlier = distinct_hashes(before);
        assert(items.last() == items[n]);
        assert(list.contains(hash) <==> earlier.contains(hash) || hash_spec(items[n]) == Some(
            hash,
        )) by {
            if earlier.contains(hash) {
                let k = choose|k: int| 0 <= k < earlier.len() && earlier[k] == hash;
                assert(list[k] == hash);
            }
            if hash_spec(items[n]) == Some(hash) && !earlier.contains(hash) {
                assert(list[earlier.len() as int] == hash);
            }
            if list.contains(hash) && hash_spec(items[n]) != Some(hash) {
                let k = choose|k: int| 0 <= k < list.len() && list[k] == hash;
                assert(k < earlier.len());
                assert(earlier[k] == hash);
            }
        }
        if earlier.contains(hash) {
            let i = choose|i: int|
                0 <= i < before.len() && hash_spec(#[trigger] before[i]) == Some(hash);
            assert(items[i] == before[i]);
        }
        if exists|i: int| 0 <= i < items.len() && hash_spec(#[trigger] items[i]) == Some(hash) {
            let i = choose|i: int|
                0 <= i < items.len() && hash_spec(#[trigger] items[i]) == Some(hash);
            if i < n {
                assert(before[i] == items[i]);
            }
        }
    }
}

// ---------------------------------------------------------------------------
// Words
// ---------------------------------------------------------------------------

proof fn lemma_within(before: Seq<char>, word: Seq<char>, after: Seq<char>)
    ensures
        has_text(before + word + after, word),
{
    let text = before + word + after;
    let n = before.len() as int;
    assert(text.subrange(n, n + word.len()) =~= word);
    assert(occurs_at(text, word, n));
}

/// A failure is known by its words, wherever they stand in what is said.
pub proof fn law_failures_are_known_by_words(before: Seq<char>, after: Seq<char>, causes: Seq<Cause>)
    ensures
        transport_timeout_spec(before + "transaction timeout"@ + after),
        transport_timeout_spec(before + "request timeout"@ + after),
        transport_timeout_spec(before + "i/o timeout"@ + after),
        transport_timeout_spec(before + "timed out"@ + after),
        transport_timeout_spec(before + "deadline has elapsed"@ + after),
        stream_reset_spec(causes, before + "connection reset by peer"@ + after),
        stream_reset_spec(causes, before + "connection aborted"@ + after),
        stream_reset_spec(causes, before + "broken pipe"@ + after),
        !transport_timeout_spec(Seq::empty()),
{
    lemma_nothing_said();
    lemma_within(before, "transaction timeout"@, after);
    lemma_within(before, "request timeout"@, after);
    lemma_within(before, "i/o timeout"@, after);
    lemma_within(before, "timed out"@, after);
    lemma_within(before, "deadline has elapsed"@, after);
    lemma_within(before, "connection reset by peer"@, after);
    lemma_within(before, "connection aborted"@, after);
    lemma_within(before, "broken pipe"@, after);
}

/// A network that is down is known by the words of the system, whether they are
/// written in small letters or not.
pub proof fn law_dead_network_is_known_by_words(full: Seq<char>, before: Seq<char>, after: Seq<char>)
    ensures
        lower_spec(full) == before + "network is unreachable"@ + after ==> network_down_spec(
            Seq::empty(),
            full,
        ),
        lower_spec(full) == before + "network is down"@ + after ==> network_down_spec(
            Seq::empty(),
            full,
        ),
        lower_spec(full) == before + "no route to host"@ + after ==> network_down_spec(
            Seq::empty(),
            full,
        ),
        lower_spec(full) == before + "enetunreach"@ + after ==> network_down_spec(
            Seq::empty(),
            full,
        ),
        lower_spec(full) == before + "ehostunreach"@ + after ==> network_down_spec(
            Seq::empty(),
            full,
        ),
        !network_down_spec(Seq::empty(), Seq::empty()),
{
    lemma_nothing_said();
    lemma_no_os_error();
    lemma_within(before, "network is unreachable"@, after);
    lemma_within(before, "network is down"@, after);
    lemma_within(before, "no route to host"@, after);
    lemma_within(before, "enetunreach"@, after);
    lemma_within(before, "ehostunreach"@, after);
}

/// A relay that refuses is known by what it says, where its answer was not kept.
pub proof fn law_refusals_are_known_by_words(
    a: Seq<char>,
    b: Seq<char>,
    c: Seq<char>,
    message: Seq<char>,
)
    ensures
        message == a + "turn allocate"@ + b + "stun error 486"@ + c ==> quota_spec(
            Seq::empty(),
            message,
        ),
        message == a + "turn allocate"@ + b + "quota reached"@ + c ==> quota_spec(
            Seq::empty(),
            message,
        ),
        message == a + "stun error 437"@ + c ==> mismatch_spec(Seq::empty(), message),
        message == a + "stun error 400"@ + b + "channelbind"@ + c ==> mismatch_spec(
            Seq::empty(),
            message,
        ),
        message == a + "turn "@ + b + "unauthorized"@ + c ==> invalid_credentials_spec(
            Seq::empty(),
            message,
        ),
        message == a + "turn "@ + b + "stun error 401"@ + c ==> invalid_credentials_spec(
            Seq::empty(),
            message,
        ),
        !quota_spec(Seq::empty(), Seq::empty()),
        !mismatch_spec(Seq::empty(), Seq::empty()),
        !invalid_credentials_spec(Seq::empty(), Seq::empty()),
{
    lemma_nothing_said();
    lemma_two_words(a, "turn allocate"@, b, "stun error 486"@, c);
    lemma_two_words(a, "turn allocate"@, b, "quota reached"@, c);
    lemma_within(a, "stun error 437"@, c);
    lemma_two_words(a, "stun error 400"@, b, "channelbind"@, c);
    lemma_two_words(a, "turn "@, b, "unauthorized"@, c);
    lemma_two_words(a, "turn "@, b, "stun error 401"@, c);
}

proof fn lemma_two_words(
    a: Seq<char>,
    first: Seq<char>,
    b: Seq<char>,
    second: Seq<char>,
    c: Seq<char>,
)
    ensures
        has_text(a + first + b + second + c, first),
        has_text(a + first + b + second + c, second),
{
    let text = a + first + b + second + c;
    lemma_within(a, first, b + second + c);
    assert(a + first + (b + second + c) =~= text);
    lemma_within(a + first + b, second, c);
}

/// Hashes keep the order in which they are first named.
pub proof fn law_hashes_keep_their_order(items: Seq<Seq<char>>, item: Seq<char>, hash: Seq<char>)
    ensures
        hash_spec(item) == Some(hash) && !distinct_hashes(items).contains(hash)
            ==> distinct_hashes(items.push(item)) == distinct_hashes(items).push(hash),
        hash_spec(item) == Some(hash) && distinct_hashes(items).contains(hash) ==> distinct_hashes(
            items.push(item),
        ) == distinct_hashes(items),
        hash_spec(item) is None ==> distinct_hashes(items.push(item)) == distinct_hashes(items),
        distinct_hashes(Seq::empty()).len() == 0,
{
    assert(items.push(item).drop_last() =~= items);
}

} // verus!
