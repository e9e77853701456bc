//! The workers of a client: how they are grouped, what they do when a session
//! ends, and how long they wait before the next.

use vstd::arithmetic::power2::{lemma2_to64, pow2};
use vstd::prelude::*;
use crate::client::auth::{texts, TurnCredentials};
use crate::client::cause::{
    invalid_credentials_spec, is_local_network_down, is_remote_tcp_stream_reset,
    is_transport_timeout, is_turn_allocation_mismatch, is_turn_allocation_quota, mismatch_spec,
    network_down_spec, quota_spec, should_invalidate_turn_credentials, stream_reset_spec,
    transport_timeout_spec, Cause, ErrorChain,
};
use crate::client::credentials::{
    quota_delay_spec, quota_rotation_delay, raised, AllocationMismatch, CacheModel, CredentialCache,
    CredentialLease, LeaseModel, QuotaRotation, GROUPS_PER_CREDENTIAL, WORKERS_PER_GROUP,
};
use crate::client::pacing::{
    should_refresh_configuration_after_full_outage, ConfigFlightGuard, HashAvailability,
};
use crate::client::session::ConfigDeliveryState;
use crate::client::turn_core::random_transaction;
use crate::client::turn_endpoint::TurnTransportMode;
use crate::text::{
    chars_of, contains, find_in, first_in, first_text, has_prefix, has_text, lower, lower_spec,
    pieces, same_chars, split, split_at_text, split_spec, starts_with, string_of_vec, trim,
    trim_class, trim_spec, trimmed, CharClass,
};
use crate::wire::read_u32;

verus! {

/// How long new credentials rest before they are used, in milliseconds.
pub const CREDENTIAL_POST_DELAY_MS: u64 = 100;
/// How long a worker that broke down rests, in milliseconds.
pub const WORKER_RESTART_DELAY_MS: u64 = 1_000;

// ---------------------------------------------------------------------------
// Groups
// ---------------------------------------------------------------------------

/// The numbers of the workers of a group.
pub fn group_worker_ids(group_id: usize) -> (r: std::ops::Range<usize>)
    requires
        1 <= group_id,
        group_id * WORKERS_PER_GROUP + 1 <= usize::MAX,
    ensures
        r.start == (group_id - 1) * WORKERS_PER_GROUP + 1,
        r.end == group_id * WORKERS_PER_GROUP + 1,
{
    let first: usize = (group_id - 1) * WORKERS_PER_GROUP + 1;
    first..first + WORKERS_PER_GROUP
}

/// The number under which credentials are asked for.
pub fn credential_stream_id(credential_id: usize) -> (r: usize)
    requires
        credential_id * 100 <= usize::MAX,
    ensures
        r == credential_id * 100,
{
    credential_id * 100
}

/// The hash whose calls a group joins.
pub fn group_hash_index(group_index: usize, hash_count: usize) -> (r: usize)
    requires
        hash_count > 0,
    ensures
        r == group_index as int % hash_count as int,
{
    group_index % hash_count
}

/// Which credentials of its hash a group shares.
pub fn credential_cohort_index(group_index_for_hash: usize) -> (r: usize)
    ensures
        r == group_index_for_hash / GROUPS_PER_CREDENTIAL,
{
    group_index_for_hash / GROUPS_PER_CREDENTIAL
}

/// What a group works with: its hash, and the number of its credentials.
#[derive(Clone, Copy, Debug, PartialEq, Eq, Structural)]
pub struct GroupAssignment {
    pub hash_index: usize,
    pub credential_id: usize,
}

/// Groups go round the hashes, and two in a row of one hash share credentials;
/// credentials are numbered in the order in which groups need them.
pub open spec fn hash_of(group: int, hash_count: int) -> int {
    group % hash_count
}

pub open spec fn credential_of(group: int, hash_count: int) -> int {
    (group / hash_count / GROUPS_PER_CREDENTIAL as int) * hash_count + group % hash_count + 1
}

proof fn lemma_credential_bound(group: int, hash_count: int)
    requires
        0 <= group,
        0 < hash_count,
    ensures
        0 <= group / hash_count / 2 <= group / hash_count,
        0 <= (group / hash_count / 2) * hash_count <= group - group % hash_count,
        0 <= group % hash_count < hash_count,
        credential_of(group, hash_count) <= group + 1,
{
    vstd::arithmetic::div_mod::lemma_fundamental_div_mod(group, hash_count);
    vstd::arithmetic::div_mod::lemma_div_pos_is_pos(group, hash_count);
    vstd::arithmetic::div_mod::lemma_mod_bound(group, hash_count);
    let q = group / hash_count;
    assert((q / 2) * hash_count <= q * hash_count) by (nonlinear_arith)
        requires
            0 <= q / 2 <= q,
            0 < hash_count,
    ;
    assert(0 <= (q / 2) * hash_count) by (nonlinear_arith)
        requires
            0 <= q / 2,
            0 < hash_count,
    ;
    assert(hash_count * q == q * hash_count) by (nonlinear_arith);
}

/// What each group works with; nothing, where there is no hash.
pub fn assign_groups(groups: usize, hash_count: usize) -> (r: Vec<GroupAssignment>)
    requires
        groups < usize::MAX,
    ensures
        hash_count == 0 ==> r@.len() == 0,
        hash_count > 0 ==> {
            &&& r@.len() == groups
            &&& forall|g: int|
                0 <= g < groups ==> {
                    &&& (#[trigger] r@[g]).hash_index == hash_of(g, hash_count as int)
                    &&& r@[g].credential_id == credential_of(g, hash_count as int)
                }
        },
{
    let mut r: Vec<GroupAssignment> = Vec::new();
    if hash_count == 0 {
        return r;
    }
    let mut group: usize = 0;
    while group < groups
        invariant
            group <= groups < usize::MAX,
            hash_count > 0,
            r@.len() == group,
            forall|g: int|
                0 <= g < group ==> {
                    &&& (#[trigger] r@[g]).hash_index == hash_of(g, hash_count as int)
                    &&& r@[g].credential_id == credential_of(g, hash_count as int)
                },
        decreases groups - group,
    {
        proof {
            lemma_credential_bound(group as int, hash_count as int);
        }
        let hash_index: usize = group_hash_index(group, hash_count);
        let cohort: usize = credential_cohort_index(group / hash_count);
        let before: usize = cohort * hash_count;
        r.push(GroupAssignment { hash_index, credential_id: before + hash_index + 1 });
        group = group + 1;
    }
    r
}

/// No more than two groups share credentials, so no more workers than the
/// credentials are good for.
pub proof fn law_cohorts_are_bounded(a: int, b: int, c: int, hash_count: int)
    requires
        0 <= a < b < c,
        0 < hash_count,
    ensures
        credential_of(a, hash_count) != credential_of(b, hash_count) || credential_of(
            b,
            hash_count,
        ) != credential_of(c, hash_count),
{
    if credential_of(a, hash_count) == credential_of(b, hash_count) && credential_of(
        b,
        hash_count,
    ) == credential_of(c, hash_count) {
        lemma_same_cohort(a, b, hash_count);
        lemma_same_cohort(b, c, hash_count);
        lemma_later_round(a, b, hash_count);
        lemma_later_round(b, c, hash_count);
        assert(a / hash_count / 2 == c / hash_count / 2);
    }
}

proof fn lemma_later_round(a: int, b: int, hash_count: int)
    requires
        0 <= a < b,
        0 < hash_count,
        a % hash_count == b % hash_count,
    ensures
        a / hash_count < b / hash_count,
{
    vstd::arithmetic::div_mod::lemma_fundamental_div_mod(a, hash_count);
    vstd::arithmetic::div_mod::lemma_fundamental_div_mod(b, hash_count);
    let x = a / hash_count;
    let y = b / hash_count;
    assert(x < y) by (nonlinear_arith)
        requires
            hash_count * x < hash_count * y,
            0 < hash_count,
    ;
}

proof fn lemma_same_cohort(a: int, b: int, hash_count: int)
    requires
        0 <= a,
        0 <= b,
        0 < hash_count,
        credential_of(a, hash_count) == credential_of(b, hash_count),
    ensures
        a % hash_count == b % hash_count,
        a / hash_count / 2 == b / hash_count / 2,
{
    lemma_credential_bound(a, hash_count);
    lemma_credential_bound(b, hash_count);
    let x = a / hash_count / 2;
    let y = b / hash_count / 2;
    let p = a % hash_count;
    let q = b % hash_count;
    assert(x * hash_count + p == y * hash_count + q);
    vstd::arithmetic::div_mod::lemma_fundamental_div_mod_converse(
        x * hash_count + p,
        hash_count,
        x,
        p,
    );
    vstd::arithmetic::div_mod::lemma_fundamental_div_mod_converse(
        y * hash_count + q,
        hash_count,
        y,
        q,
    );
}

/// The groups that join the calls of one hash, among so many.
pub open spec fn groups_of(hash: int, groups: int, hash_count: int) -> nat
    decreases groups,
{
    if groups <= 0 {
        0
    } else {
        groups_of(hash, groups - 1, hash_count) + if hash_of(groups - 1, hash_count) == hash {
            1nat
        } else {
            0
        }
    }
}

proof fn lemma_groups_of(hash: int, groups: int, hash_count: int)
    requires
        0 <= hash < hash_count,
        0 <= groups,
    ensures
        groups_of(hash, groups, hash_count) == groups / hash_count + if hash < groups
            % hash_count {
            1int
        } else {
            0
        },
    decreases groups,
{
    if groups == 0 {
        vstd::arithmetic::div_mod::lemma_small_mod(0, hash_count as nat);
        vstd::arithmetic::div_mod::lemma_basic_div(0, hash_count);
    } else {
        lemma_groups_of(hash, groups - 1, hash_count);
        let q = (groups - 1) / hash_count;
        let m = (groups - 1) % hash_count;
        vstd::arithmetic::div_mod::lemma_fundamental_div_mod(groups - 1, hash_count);
        vstd::arithmetic::div_mod::lemma_mod_bound(groups - 1, hash_count);
        if m + 1 < hash_count {
            assert(groups == q * hash_count + (m + 1)) by (nonlinear_arith)
                requires
                    groups - 1 == hash_count * q + m,
            ;
            vstd::arithmetic::div_mod::lemma_fundamental_div_mod_converse(
                groups,
                hash_count,
                q,
                m + 1,
            );
        } else {
            assert(groups == (q + 1) * hash_count) by (nonlinear_arith)
                requires
                    groups - 1 == hash_count * q + m,
                    m + 1 == hash_count,
            ;
            vstd::arithmetic::div_mod::lemma_fundamental_div_mod_converse(
                groups,
                hash_count,
                q + 1,
                0,
            );
        }
    }
}

/// Groups are spread evenly: no two hashes differ by more than one group.
pub proof fn law_groups_are_spread_evenly(a: int, b: int, groups: int, hash_count: int)
    requires
        0 <= a < hash_count,
        0 <= b < hash_count,
        0 <= groups,
    ensures
        groups_of(a, groups, hash_count) <= groups_of(b, groups, hash_count) + 1,
{
    lemma_groups_of(a, groups, hash_count);
    lemma_groups_of(b, groups, hash_count);
}

// ---------------------------------------------------------------------------
// Hashes
// ---------------------------------------------------------------------------

pub open spec fn hash_path(value: Seq<char>) -> Option<Seq<char>> {
    let name = lower_spec(value);
    match first_text(name, "/call/join/"@) {
        Some(i) => Some(value.skip(i + "/call/join/"@.len())),
        None => if has_prefix(name, "http://"@) || has_prefix(name, "https://"@) {
            None
        } else {
            Some(value)
        },
    }
}

/// The hash that an item of a list stands for: itself, or the end of a link to a
/// call; other links stand for none.
pub open spec fn hash_spec(item: Seq<char>) -> Option<Seq<char>> {
    let value = trim_spec(trimmed(item), CharClass::Quote);
    if value.len() == 0 {
        None
    } else {
        match hash_path(value) {
            None => None,
            Some(path) => {
                let cut = path.take(first_in(path, CharClass::PathEnd));
                let hash = trim_spec(trimmed(cut), CharClass::Is('/'));
                if hash.len() > 0 {
                    Some(hash)
                } else {
                    None
                }
            },
        }
    }
}

/// The hashes of items, each once, in the order in which they first stand.
pub open spec fn distinct_hashes(items: Seq<Seq<char>>) -> Seq<Seq<char>>
    decreases items.len(),
{
    if items.len() == 0 {
        Seq::empty()
    } else {
        let before = distinct_hashes(items.drop_last());
        match hash_spec(items.last()) {
            Some(hash) => if before.contains(hash) {
                before
            } else {
                before.push(hash)
            },
            None => before,
        }
    }
}

fn normalize_hash(item: &[char]) -> (r: Option<Vec<char>>)
    ensures
        match r {
            Some(hash) => hash_spec(item@) == Some(hash@),
            None => hash_spec(item@) is None,
        },
{
    let value = trim_class(trim(item), CharClass::Quote);
    if value.len() == 0 {
        return None;
    }
    let name = lower(value);
    proof {
        reveal_strlit("/call/join/");
        crate::text::lemma_first_text(name@, "/call/join/"@);
    }
    let path: &[char] = match split_at_text(name.as_slice(), "/call/join/") {
        Some((before, after)) => {
            let from: usize = before.len() + 11;
            assert(name@.len() == value@.len());
            vstd::slice::slice_subrange(value, from, value.len())
        },
        None => {
            if starts_with(name.as_slice(), "http://") || starts_with(
                name.as_slice(),
                "https://",
            ) {
                return None;
            }
            value
        },
    };
    assert(hash_path(value@) is Some);
    assert(path@ =~= hash_path(value@)->0);
    let end: usize = find_in(path, CharClass::PathEnd);
    let cut = vstd::slice::slice_subrange(path, 0, end);
    assert(cut@ =~= path@.take(end as int));
    let hash = trim_class(trim(cut), CharClass::Is('/'));
    if hash.len() == 0 {
        return None;
    }
    Some(vstd::slice::slice_to_vec(hash))
}

fn contains_hash(list: &Vec<Vec<char>>, hash: &Vec<char>) -> (r: bool)
    ensures
        r == pieces(list@).contains(hash@),
{
    let mut i: usize = 0;
    while i < list.len()
        invariant
            i <= list@.len(),
            forall|k: int| 0 <= k < i ==> #[trigger] pieces(list@)[k] != hash@,
        decreases list@.len() - i,
    {
        assert(pieces(list@)[i as int] == list@[i as int]@);
        if same_chars(list[i].as_slice(), hash.as_slice()) {
            return true;
        }
        i = i + 1;
    }
    false
}

/// The hashes that a text lists.
pub fn parse_hashes(raw: &str) -> (r: Vec<String>)
    ensures
        texts(r@) == hashes_of(raw@),
{
    let all = chars_of(raw);
    let items = split(all.as_slice(), CharClass::Separator);
    let ghost parts = pieces(items@);
    let mut seen: Vec<Vec<char>> = Vec::new();
    let mut i: usize = 0;
    assert(pieces(seen@) =~= distinct_hashes(parts.take(0)));
    while i < items.len()
        invariant
            i <= items@.len(),
            parts == pieces(items@),
            pieces(seen@) == distinct_hashes(parts.take(i as int)),
        decreases items@.len() - i,
    {
        assert(parts.take(i + 1).drop_last() =~= parts.take(i as int));
        assert(parts.take(i + 1).last() == items@[i as int]@);
        if let Some(hash) = normalize_hash(items[i].as_slice()) {
            if !contains_hash(&seen, &hash) {
                let ghost before = seen@;
                seen.push(hash);
                assert(pieces(seen@) =~= pieces(before).push(hash@));
            }
        }
        i = i + 1;
    }
    assert(parts.take(i as int) =~= parts);
    let mut r: Vec<String> = Vec::new();
    let mut k: usize = 0;
    while k < seen.len()
        invariant
            k <= seen@.len(),
            texts(r@) == pieces(seen@).take(k as int),
        decreases seen@.len() - k,
    {
        let ghost before = r@;
        r.push(string_of_vec(&seen[k]));
        assert(texts(r@) =~= texts(before).push(seen@[k as int]@));
        k = k + 1;
        assert(texts(r@) =~= pieces(seen@).take(k as int));
    }
    assert(texts(r@) =~= pieces(seen@));
    r
}

/// No hash is listed twice, and none is empty.
pub proof fn law_hashes_are_distinct(items: Seq<Seq<char>>)
    ensures
        distinct_hashes(items).no_duplicates(),
        forall|i: int|
            0 <= i < distinct_hashes(items).len() ==> (#[trigger] distinct_hashes(items)[i]).len()
                > 0,
    decreases items.len(),
{
    if items.len() > 0 {
        law_hashes_are_distinct(items.drop_last());
        let before = distinct_hashes(items.drop_last());
        let all = distinct_hashes(items);
        assert forall|i: int| 0 <= i < all.len() implies (#[trigger] all[i]).len() > 0 by {
            if i < before.len() {
                assert(all[i] == before[i]);
            }
        }
        assert forall|i: int, j: int|
            0 <= i < all.len() && 0 <= j < all.len() && i != j implies all[i] != all[j] by {
            if i < before.len() && j < before.len() {
                assert(all[i] == before[i] && all[j] == before[j]);
            } else if i < before.len() {
                assert(all[i] == before[i]);
                assert(before.contains(all[i]));
            } else {
                assert(all[j] == before[j]);
                assert(before.contains(all[j]));
            }
        }
    }
}

/// What of a list is not in another.
pub open spec fn others(list: Seq<Seq<char>>, before: Seq<Seq<char>>) -> Seq<Seq<char>>
    decreases list.len(),
{
    if list.len() == 0 {
        Seq::empty()
    } else if before.contains(list.last()) {
        others(list.drop_last(), before)
    } else {
        others(list.drop_last(), before).push(list.last())
    }
}

proof fn lemma_others(list: Seq<Seq<char>>, before: Seq<Seq<char>>, hash: Seq<char>)
    ensures
        others(list, before).contains(hash) == (list.contains(hash) && !before.contains(hash)),
    decreases list.len(),
{
    if list.len() > 0 {
        let rest = list.drop_last();
        let left = others(rest, before);
        lemma_others(rest, before, hash);
        assert(list =~= rest.push(list.last()));
        if list.contains(hash) && list.last() != hash {
            let k = choose|k: int| 0 <= k < list.len() && list[k] == hash;
            assert(rest[k] == hash);
        }
        if rest.contains(hash) {
            let k = choose|k: int| 0 <= k < rest.len() && rest[k] == hash;
            assert(list[k] == hash);
        }
        let all = others(list, before);
        if left.contains(hash) {
            let k = choose|k: int| 0 <= k < left.len() && left[k] == hash;
            assert(all[k] == hash);
        }
        if !before.contains(list.last()) {
            assert(all.last() == list.last());
            assert(list[list.len() - 1] == list.last());
            if all.contains(hash) && hash != list.last() {
                let k = choose|k: int| 0 <= k < all.len() && all[k] == hash;
                assert(left[k] == hash);
            }
        }
    }
}

proof fn lemma_distinct_joined(a: Seq<Seq<char>>, b: Seq<Seq<char>>)
    ensures
        distinct_hashes(a + b) == distinct_hashes(a) + others(
            distinct_hashes(b),
            distinct_hashes(a),
        ),
    decreases b.len(),
{
    let first = distinct_hashes(a);
    if b.len() == 0 {
        assert(a + b =~= a);
        assert(first + others(distinct_hashes(b), first) =~= first);
    } else {
        let early = b.drop_last();
        lemma_distinct_joined(a, early);
        assert((a + b).drop_last() =~= a + early);
        let second = distinct_hashes(early);
        let so_far = first + others(second, first);
        if let Some(hash) = hash_spec(b.last()) {
            lemma_others(second, first, hash);
            assert(so_far.contains(hash) == (first.contains(hash) || others(
                second,
                first,
            ).contains(hash))) by {
                if first.contains(hash) {
                    let k = choose|k: int| 0 <= k < first.len() && first[k] == hash;
                    assert(so_far[k] == hash);
                }
                if others(second, first).contains(hash) {
                    let k = choose|k: int|
                        0 <= k < others(second, first).len() && others(second, first)[k] == hash;
                    assert(so_far[first.len() + k] == hash);
                }
                if so_far.contains(hash) {
                    let k = choose|k: int| 0 <= k < so_far.len() && so_far[k] == hash;
                    if k < first.len() {
                        assert(first[k] == hash);
                    } else {
                        assert(others(second, first)[k - first.len()] == hash);
                    }
                }
            }
            if !second.contains(hash) {
                assert(second.push(hash).drop_last() =~= second);
                assert(distinct_hashes(a + b) =~= first + others(second.push(hash), first));
            }
        }
    }
}

/// A hash holds nothing that a list or a link is taken apart at.
pub open spec fn is_plain_hash(hash: Seq<char>) -> bool {
    &&& hash.len() > 0
    &&& forall|k: int|
        0 <= k < hash.len() ==> !CharClass::Separator.holds(#[trigger] hash[k])
            && !CharClass::PathEnd.holds(hash[k])
}

proof fn lemma_hash_is_plain(item: Seq<char>)
    requires
        forall|k: int| 0 <= k < item.len() ==> !CharClass::Separator.holds(#[trigger] item[k]),
        hash_spec(item) is Some,
    ensures
        is_plain_hash(hash_spec(item)->0),
{
    let bare = trimmed(item);
    let value = trim_spec(bare, CharClass::Quote);
    let path = hash_path(value)->0;
    let end = first_in(path, CharClass::PathEnd);
    let cut = path.take(end);
    let inner = trimmed(cut);
    let hash = trim_spec(inner, CharClass::Is('/'));
    crate::text::lemma_first_in(path, CharClass::PathEnd);
    crate::text::lemma_first_text(lower_spec(value), "/call/join/"@);
    assert forall|k: int| 0 <= k < hash.len() implies !CharClass::Separator.holds(
        #[trigger] hash[k],
    ) && !CharClass::PathEnd.holds(hash[k]) by {
        let c = hash[k];
        assert(hash.contains(c));
        crate::text::lemma_trim_within(inner, CharClass::Is('/'), c);
        crate::text::lemma_trim_within(cut, CharClass::WhiteSpace, c);
        let i = choose|i: int| 0 <= i < cut.len() && cut[i] == c;
        assert(path[i] == c);
        assert(!CharClass::PathEnd.holds(path[i]));
        assert(value.contains(c)) by {
            let from = value.len() - path.len();
            assert(value[from + i] == c);
        }
        crate::text::lemma_trim_within(bare, CharClass::Quote, c);
        crate::text::lemma_trim_within(item, CharClass::WhiteSpace, c);
        let j = choose|j: int| 0 <= j < item.len() && item[j] == c;
        assert(!CharClass::Separator.holds(item[j]));
    }
}

proof fn lemma_hashes_are_plain(items: Seq<Seq<char>>)
    requires
        forall|i: int, k: int|
            0 <= i < items.len() && 0 <= k < items[i].len() ==> !CharClass::Separator.holds(
                #[trigger] items[i][k],
            ),
    ensures
        forall|i: int|
            0 <= i < distinct_hashes(items).len() ==> is_plain_hash(
                #[trigger] distinct_hashes(items)[i],
            ),
    decreases items.len(),
{
    if items.len() > 0 {
        let early = items.drop_last();
        assert forall|i: int, k: int|
            0 <= i < early.len() && 0 <= k < early[i].len() implies !CharClass::Separator.holds(
            #[trigger] early[i][k],
        ) by {
            assert(early[i][k] == items[i][k]);
        }
        lemma_hashes_are_plain(early);
        let last = items.last();
        assert forall|k: int| 0 <= k < last.len() implies !CharClass::Separator.holds(
            #[trigger] last[k],
        ) by {
            assert(last[k] == items[items.len() - 1][k]);
        }
        if hash_spec(last) is Some {
            lemma_hash_is_plain(last);
        }
        let before = distinct_hashes(early);
        let all = distinct_hashes(items);
        assert forall|i: int| 0 <= i < all.len() implies is_plain_hash(#[trigger] all[i]) by {
            if i < before.len() {
                assert(all[i] == before[i]);
            }
        }
    }
}

/// The hashes that a text lists.
pub open spec fn hashes_of(raw: Seq<char>) -> Seq<Seq<char>> {
    distinct_hashes(split_spec(raw, CharClass::Separator))
}

/// Two lists with a comma between them list the hashes of the first, and after
/// them those of the second that the first does not list, in their order. No hash
/// is listed twice, and none is empty or holds a separator or what ends a link.
pub proof fn law_lists_of_hashes_join(a: Seq<char>, b: Seq<char>)
    ensures
        hashes_of(a + ","@ + b) == hashes_of(a) + others(hashes_of(b), hashes_of(a)),
        hashes_of(a).no_duplicates(),
        forall|i: int| 0 <= i < hashes_of(a).len() ==> is_plain_hash(#[trigger] hashes_of(a)[i]),
        forall|hash: Seq<char>|
            others(hashes_of(b), hashes_of(a)).contains(hash) == (hashes_of(b).contains(hash)
                && !hashes_of(a).contains(hash)),
{
    reveal_strlit(",");
    assert(a + ","@ + b =~= a.push(',') + b);
    crate::text::lemma_split_joined(a, ',', b, CharClass::Separator);
    let first = split_spec(a, CharClass::Separator);
    lemma_distinct_joined(first, split_spec(b, CharClass::Separator));
    law_hashes_are_distinct(first);
    crate::text::lemma_pieces_are_plain(a, CharClass::Separator);
    lemma_hashes_are_plain(first);
    assert forall|hash: Seq<char>|
        others(hashes_of(b), hashes_of(a)).contains(hash) == (hashes_of(b).contains(hash)
            && !hashes_of(a).contains(hash)) by {
        lemma_others(hashes_of(b), hashes_of(a), hash);
    }
}

// ---------------------------------------------------------------------------
// Waits
// ---------------------------------------------------------------------------

/// The wait before an attempt without its jitter, in milliseconds.
pub open spec fn retry_base(attempt: int) -> u64 {
    if attempt <= 1 {
        250
    } else if attempt == 2 {
        500
    } else if attempt == 3 {
        1_000
    } else if attempt == 4 {
        2_000
    } else {
        4_000
    }
}

pub open spec fn retry_spec(attempt: int, jitter_ms: u64) -> u64 {
    (retry_base(attempt) + if jitter_ms < 250 {
        jitter_ms as int
    } else {
        250
    }) as u64
}

/// How long a worker waits before an attempt, in milliseconds.
pub fn worker_retry_delay_with_jitter(attempt: usize, jitter_ms: u64) -> (r: u64)
    ensures
        r == retry_spec(attempt as int, jitter_ms),
{
    let base: u64 = match attempt {
        0 => 250,
        1 => 250,
        2 => 500,
        3 => 1_000,
        4 => 2_000,
        _ => 4_000,
    };
    base + if jitter_ms < 250 {
        jitter_ms
    } else {
        250
    }
}

pub open spec fn tcp_delay_spec(attempt: int) -> u64 {
    quota_delay_spec(
        if attempt > 0 {
            attempt - 1
        } else {
            0
        },
    )
}

/// How long a worker waits after its stream was closed, in milliseconds.
pub fn tcp_stream_retry_delay(attempt: usize) -> (r: u64)
    ensures
        r == tcp_delay_spec(attempt as int),
{
    quota_rotation_delay(attempt.saturating_sub(1))
}

/// Waits do not shrink as attempts go on, and have a limit.
pub proof fn law_waits_grow_to_a_limit(attempt: int, jitter_ms: u64)
    ensures
        retry_spec(attempt, jitter_ms) <= retry_spec(attempt + 1, jitter_ms) <= 4_250,
        250 <= retry_spec(attempt, jitter_ms),
{
}

fn random_number() -> (r: u64) {
    let bytes = random_transaction();
    let high: u32 = read_u32(bytes.as_slice(), 0);
    let low: u32 = read_u32(bytes.as_slice(), 4);
    high as u64 * 0x1_0000_0000 + low as u64
}

// ---------------------------------------------------------------------------
// After a failure
// ---------------------------------------------------------------------------

/// What is worth saying of a failure.
#[derive(Clone, Copy, Debug, PartialEq, Eq, Structural)]
pub enum WorkerLog {
    Nothing,
    Repair,
    QuotaRotated,
    MismatchRotated,
    CredentialsRefused,
    StreamClosed,
    NetworkDown,
    Critical,
    WrapTimeout,
    ConfigTimeout,
    TransactionTimeout,
    TurnRetry,
    Failure,
}

/// The part of its life in which an allocation over TCP ended.
#[derive(Clone, Copy, Debug, PartialEq, Eq, Structural)]
pub enum TcpPhase {
    Creating,
    Active,
}

/// What a worker makes of a failure: its credentials, its count of attempts, how
/// long it waits, whether the network seems at fault, and what it says; besides
/// that, whether it says that a socket could not be had for now.
#[verifier::ext_equal]
pub struct Recovery {
    pub cache: CacheModel,
    pub attempt: usize,
    pub delay_ms: u64,
    pub network_timeout: bool,
    pub log: WorkerLog,
    pub socket_retry: bool,
}

/// The failure is one that no attempt will soon get over.
pub open spec fn is_critical(message: Seq<char>) -> bool {
    ||| has_text(message, "FATAL_AUTH"@)
    ||| has_text(message, "FATAL_PROTOCOL"@)
    ||| has_text(message, "FATAL_HANDSHAKE"@)
    ||| has_text(message, "хеш мёртв"@)
}

pub open spec fn is_socket_failure(name: Seq<char>) -> bool {
    has_text(name, "error 29"@) || has_text(name, "cannot create socket"@)
}

/// What is said of a failure of no known kind.
pub open spec fn plain_log(message: Seq<char>) -> WorkerLog {
    let name = lower_spec(message);
    if is_critical(message) {
        WorkerLog::Critical
    } else if has_text(name, "wrap_auth_timeout"@) {
        WorkerLog::WrapTimeout
    } else if has_text(name, "getconf"@) && has_text(name, "timeout"@) {
        WorkerLog::ConfigTimeout
    } else if has_text(name, "turn "@) && has_text(name, "transaction timeout"@) {
        WorkerLog::TransactionTimeout
    } else if has_text(name, "turn "@) {
        WorkerLog::TurnRetry
    } else {
        WorkerLog::Failure
    }
}

/// How long a worker waits after a failure of no known kind.
pub open spec fn plain_delay(message: Seq<char>, attempt: usize, random: u64) -> u64 {
    let name = lower_spec(message);
    let step = retry_spec(attempt as int, (random % 251) as u64);
    if is_socket_failure(name) {
        ((2 + random % 3) * 1_000) as u64
    } else if has_text(name, "getconf"@) {
        if step < 1_000 {
            step
        } else {
            1_000
        }
    } else if is_critical(message) {
        ((5 + random % 6) * 1_000) as u64
    } else {
        step
    }
}

pub open spec fn recovery_spec(
    cache: CacheModel,
    attempt: usize,
    lease: LeaseModel,
    causes: Seq<Cause>,
    message: Seq<char>,
    full: Seq<char>,
    tcp: bool,
    renewed: bool,
    random: u64,
) -> Recovery {
    let name = lower_spec(message);
    let next = raised(attempt);
    let refused = invalid_credentials_spec(causes, name);
    let left = if refused {
        cache.invalidate(lease)
    } else {
        cache
    };
    let quiet = Recovery {
        cache: left,
        attempt: 0,
        delay_ms: 0,
        network_timeout: false,
        log: WorkerLog::Nothing,
        socket_retry: false,
    };
    if has_text(name, "target_repair"@) {
        Recovery {
            cache: if renewed {
                cache.invalidate(lease)
            } else {
                cache
            },
            delay_ms: (50 + random % 151) as u64,
            log: WorkerLog::Repair,
            ..quiet
        }
    } else if has_text(name, "turn channel rebind retry exhausted"@) {
        Recovery { cache, delay_ms: (50 + random % 151) as u64, ..quiet }
    } else if quota_spec(causes, name) {
        let (rotated, outcome) = left.rotate_after_quota(lease);
        match outcome {
            QuotaRotation::Rotated(delay_ms) => Recovery {
                cache: rotated,
                delay_ms,
                log: WorkerLog::QuotaRotated,
                ..quiet
            },
            QuotaRotation::Replaced => Recovery {
                cache: rotated,
                delay_ms: (50 + random % 151) as u64,
                ..quiet
            },
        }
    } else if mismatch_spec(causes, name) {
        let (rotated, outcome) = left.retry_after_mismatch(lease);
        match outcome {
            AllocationMismatch::Rotated => Recovery {
                cache: rotated,
                delay_ms: (100 + random % 51) as u64,
                log: WorkerLog::MismatchRotated,
                ..quiet
            },
            _ => Recovery { cache: rotated, delay_ms: (50 + random % 51) as u64, ..quiet },
        }
    } else if refused {
        Recovery {
            delay_ms: (100 + random % 51) as u64,
            log: WorkerLog::CredentialsRefused,
            ..quiet
        }
    } else if tcp && stream_reset_spec(causes, name) {
        Recovery {
            attempt: next,
            delay_ms: tcp_delay_spec(next as int),
            log: WorkerLog::StreamClosed,
            ..quiet
        }
    } else if network_down_spec(causes, full) {
        Recovery {
            attempt: next,
            delay_ms: (250 + random % 751) as u64,
            network_timeout: true,
            log: WorkerLog::NetworkDown,
            ..quiet
        }
    } else {
        Recovery {
            attempt: next,
            delay_ms: plain_delay(message, next, random),
            network_timeout: transport_timeout_spec(name),
            log: plain_log(message),
            socket_retry: is_socket_failure(name),
            ..quiet
        }
    }
}

/// What a worker does next.
#[derive(Clone, Copy, Debug, PartialEq, Eq, Structural)]
pub enum WorkerAction {
    Stop,
    /// Begin anew at once, which waits while the client is paused.
    Again,
    Sleep { delay_ms: u64 },
}

#[derive(Clone, Copy, Debug, PartialEq, Eq, Structural)]
pub struct WorkerVerdict {
    pub action: WorkerAction,
    pub network_timeout: bool,
    pub log: WorkerLog,
    /// The configuration will be asked for again.
    pub refresh: bool,
    /// Say that a socket could not be had for now.
    pub socket_retry: bool,
    /// Say in which part of its life an allocation over TCP ended.
    pub tcp_phase: Option<TcpPhase>,
}

/// What a worker knows when a session has ended.
#[derive(Clone, Copy, Debug, PartialEq, Eq, Structural)]
pub struct SessionReport {
    pub allocation_started: bool,
    pub was_ready: bool,
    pub active_connections: i32,
    pub cancelled: bool,
    pub unavailable: bool,
    pub paused: bool,
    pub transport: TurnTransportMode,
    /// The server asked for new credentials since the session began.
    pub renewed: bool,
}

/// A worker between two sessions.
pub struct WorkerState {
    pub attempt: usize,
    pub endpoint_cursor: usize,
}

impl WorkerState {
    pub fn new() -> (r: WorkerState)
        ensures
            r.attempt == 0,
            r.endpoint_cursor == 0,
    {
        WorkerState { attempt: 0, endpoint_cursor: 0 }
    }

    /// Where the next session begins its search for a relay.
    pub fn next_endpoint(&mut self) -> (r: usize)
        ensures
            r == old(self).endpoint_cursor,
            final(self).attempt == old(self).attempt,
            final(self).endpoint_cursor == if old(self).endpoint_cursor == usize::MAX {
                0
            } else {
                old(self).endpoint_cursor + 1
            },
    {
        let cursor: usize = self.endpoint_cursor;
        self.endpoint_cursor = cursor.wrapping_add(1);
        cursor
    }
}

pub open spec fn verdict(action: WorkerAction, refresh: bool) -> WorkerVerdict {
    WorkerVerdict {
        action,
        network_timeout: false,
        log: WorkerLog::Nothing,
        refresh,
        socket_retry: false,
        tcp_phase: None,
    }
}

/// The state of a worker after a session: what is left of its credentials, its
/// attempts, the right to the configuration, and what it does.
#[verifier::ext_equal]
pub struct Aftermath {
    pub cache: CacheModel,
    pub attempt: usize,
    pub flight: ConfigDeliveryState,
    pub verdict: WorkerVerdict,
}

/// An allocation over TCP that ended is told of, unless the other side closed the
/// stream.
pub open spec fn tcp_phase_spec(chain: ErrorChain, report: SessionReport) -> Option<TcpPhase> {
    if report.transport == TurnTransportMode::TcpTls && !stream_reset_spec(
        chain.causes@,
        lower_spec(chain.message@),
    ) {
        Some(
            if report.was_ready {
                TcpPhase::Active
            } else {
                TcpPhase::Creating
            },
        )
    } else {
        None
    }
}

pub open spec fn aftermath_spec(
    cache: CacheModel,
    attempt: usize,
    flight: ConfigDeliveryState,
    guard: ConfigFlightGuard,
    lease: LeaseModel,
    report: SessionReport,
    error: Option<ErrorChain>,
    random: u64,
) -> Aftermath {
    let kept = if report.allocation_started {
        cache
    } else {
        cache.release(lease)
    };
    let counted = if report.was_ready {
        0
    } else {
        attempt
    };
    let landed = ConfigDeliveryState { in_flight: flight.in_flight && !guard.acquired, ..flight };
    let outage = report.was_ready && error is Some && report.active_connections == 0
        && !report.cancelled;
    let reopened = if outage {
        ConfigDeliveryState { sent: false, ..landed }
    } else {
        landed
    };
    let refresh = outage && flight.sent;
    let calm = Aftermath {
        cache: kept,
        attempt: counted,
        flight: reopened,
        verdict: verdict(WorkerAction::Stop, refresh),
    };
    if report.cancelled || report.unavailable {
        calm
    } else if report.paused {
        Aftermath { verdict: verdict(WorkerAction::Again, refresh), ..calm }
    } else {
        match error {
            None => Aftermath {
                verdict: verdict(
                    WorkerAction::Sleep {
                        delay_ms: retry_spec(
                            if counted > 1 {
                                counted as int
                            } else {
                                1
                            },
                            (random % 251) as u64,
                        ),
                    },
                    refresh,
                ),
                ..calm
            },
            Some(chain) => {
                let recovery = recovery_spec(
                    kept,
                    counted,
                    lease,
                    chain.causes@,
                    chain.message@,
                    chain.full@,
                    report.transport == TurnTransportMode::TcpTls,
                    report.renewed,
                    random,
                );
                Aftermath {
                    cache: recovery.cache,
                    attempt: recovery.attempt,
                    flight: reopened,
                    verdict: WorkerVerdict {
                        action: WorkerAction::Sleep { delay_ms: recovery.delay_ms },
                        network_timeout: recovery.network_timeout,
                        log: recovery.log,
                        refresh,
                        socket_retry: recovery.socket_retry,
                        tcp_phase: tcp_phase_spec(chain, report),
                    },
                }
            },
        }
    }
}

struct Outcome {
    attempt: usize,
    delay_ms: u64,
    network_timeout: bool,
    log: WorkerLog,
    socket_retry: bool,
}

fn critical(message: &[char]) -> (r: bool)
    ensures
        r == is_critical(message@),
{
    contains(message, "FATAL_AUTH") || contains(message, "FATAL_PROTOCOL") || contains(
        message,
        "FATAL_HANDSHAKE",
    ) || contains(message, "хеш мёртв")
}

fn plain_outcome(message: &[char], attempt: usize, random: u64) -> (r: Outcome)
    ensures
        r.attempt == attempt,
        r.delay_ms == plain_delay(message@, attempt, random),
        r.network_timeout == transport_timeout_spec(lower_spec(message@)),
        r.log == plain_log(message@),
        r.socket_retry == is_socket_failure(lower_spec(message@)),
{
    let low = lower(message);
    let name = low.as_slice();
    let fatal = critical(message);
    let log = if fatal {
        WorkerLog::Critical
    } else if contains(name, "wrap_auth_timeout") {
        WorkerLog::WrapTimeout
    } else if contains(name, "getconf") && contains(name, "timeout") {
        WorkerLog::ConfigTimeout
    } else if contains(name, "turn ") && contains(name, "transaction timeout") {
        WorkerLog::TransactionTimeout
    } else if contains(name, "turn ") {
        WorkerLog::TurnRetry
    } else {
        WorkerLog::Failure
    };
    let step: u64 = worker_retry_delay_with_jitter(attempt, random % 251);
    let socket_retry = contains(name, "error 29") || contains(name, "cannot create socket");
    let delay_ms: u64 = if socket_retry {
        (2 + random % 3) * 1_000
    } else if contains(name, "getconf") {
        if step < 1_000 {
            step
        } else {
            1_000
        }
    } else if fatal {
        (5 + random % 6) * 1_000
    } else {
        step
    };
    let network_timeout = is_transport_timeout(string_of_vec(&low).as_str());
    Outcome { attempt, delay_ms, network_timeout, log, socket_retry }
}

fn recover(
    cache: &mut CredentialCache,
    attempt: usize,
    lease: &CredentialLease,
    error: &ErrorChain,
    tcp: bool,
    renewed: bool,
    random: u64,
) -> (r: Outcome)
    requires
        old(cache).wf(),
    ensures
        final(cache).wf(),
        ({
            let wanted = recovery_spec(
                old(cache)@,
                attempt,
                lease@,
                error.causes@,
                error.message@,
                error.full@,
                tcp,
                renewed,
                random,
            );
            &&& final(cache)@ == wanted.cache
            &&& r.attempt == wanted.attempt
            &&& r.delay_ms == wanted.delay_ms
            &&& r.network_timeout == wanted.network_timeout
            &&& r.log == wanted.log
            &&& r.socket_retry == wanted.socket_retry
        }),
{
    let message = chars_of(error.message.as_str());
    let low = lower(message.as_slice());
    let text = string_of_vec(&low);
    let name = text.as_str();
    if contains(low.as_slice(), "target_repair") {
        if renewed {
            let _ = cache.invalidate(lease);
        }
        return Outcome {
            attempt: 0,
            delay_ms: 50 + random % 151,
            network_timeout: false,
            log: WorkerLog::Repair,
            socket_retry: false,
        };
    }
    if contains(low.as_slice(), "turn channel rebind retry exhausted") {
        return Outcome {
            attempt: 0,
            delay_ms: 50 + random % 151,
            network_timeout: false,
            log: WorkerLog::Nothing,
            socket_retry: false,
        };
    }
    let next: usize = attempt.saturating_add(1);
    let refused = should_invalidate_turn_credentials(error, name);
    if refused {
        let _ = cache.invalidate(lease);
    }
    if is_turn_allocation_quota(error, name) {
        return match cache.rotate_after_quota(lease) {
            QuotaRotation::Rotated(delay_ms) => Outcome {
                attempt: 0,
                delay_ms,
                network_timeout: false,
                log: WorkerLog::QuotaRotated,
                socket_retry: false,
            },
            QuotaRotation::Replaced => Outcome {
                attempt: 0,
                delay_ms: 50 + random % 151,
                network_timeout: false,
                log: WorkerLog::Nothing,
                socket_retry: false,
            },
        };
    }
    if is_turn_allocation_mismatch(error, name) {
        return match cache.retry_after_mismatch(lease) {
            AllocationMismatch::Rotated => Outcome {
                attempt: 0,
                delay_ms: 100 + random % 51,
                network_timeout: false,
                log: WorkerLog::MismatchRotated,
                socket_retry: false,
            },
            AllocationMismatch::RetryCurrent | AllocationMismatch::Replaced => Outcome {
                attempt: 0,
                delay_ms: 50 + random % 51,
                network_timeout: false,
                log: WorkerLog::Nothing,
                socket_retry: false,
            },
        };
    }
    if refused {
        return Outcome {
            attempt: 0,
            delay_ms: 100 + random % 51,
            network_timeout: false,
            log: WorkerLog::CredentialsRefused,
            socket_retry: false,
        };
    }
    if tcp && is_remote_tcp_stream_reset(error, name) {
        return Outcome {
            attempt: next,
            delay_ms: tcp_stream_retry_delay(next),
            network_timeout: false,
            log: WorkerLog::StreamClosed,
            socket_retry: false,
        };
    }
    if is_local_network_down(error) {
        return Outcome {
            attempt: next,
            delay_ms: 250 + random % 751,
            network_timeout: true,
            log: WorkerLog::NetworkDown,
            socket_retry: false,
        };
    }
    plain_outcome(message.as_slice(), next, random)
}

fn closed_by_other_side(error: &ErrorChain) -> (r: bool)
    ensures
        r == stream_reset_spec(error.causes@, lower_spec(error.message@)),
{
    let low = lower(chars_of(error.message.as_str()).as_slice());
    is_remote_tcp_stream_reset(error, string_of_vec(&low).as_str())
}

impl WorkerState {
    /// What a worker does when a session has ended, for a given random number.
    pub fn after_session_with(
        &mut self,
        cache: &mut CredentialCache,
        flight: &mut ConfigDeliveryState,
        guard: ConfigFlightGuard,
        lease: &CredentialLease,
        report: SessionReport,
        error: &Option<ErrorChain>,
        random: u64,
    ) -> (r: WorkerVerdict)
        requires
            old(cache).wf(),
        ensures
            final(cache).wf(),
            final(self).endpoint_cursor == old(self).endpoint_cursor,
            (Aftermath {
                cache: final(cache)@,
                attempt: final(self).attempt,
                flight: *final(flight),
                verdict: r,
            }) == aftermath_spec(
                old(cache)@,
                old(self).attempt,
                *old(flight),
                guard,
                lease@,
                report,
                *error,
                random,
            ),
    {
        if !report.allocation_started {
            cache.release(lease);
        }
        if report.was_ready {
            self.attempt = 0;
        }
        guard.release(flight);
        let failed = error.is_some();
        let mut refresh = false;
        if should_refresh_configuration_after_full_outage(
            report.was_ready,
            failed,
            report.active_connections,
            report.cancelled,
        ) {
            refresh = flight.sent;
            flight.sent = false;
        }
        if report.cancelled || report.unavailable {
            return WorkerVerdict {
                action: WorkerAction::Stop,
                network_timeout: false,
                log: WorkerLog::Nothing,
                refresh,
                socket_retry: false,
                tcp_phase: None,
            };
        }
        if report.paused {
            return WorkerVerdict {
                action: WorkerAction::Again,
                network_timeout: false,
                log: WorkerLog::Nothing,
                refresh,
                socket_retry: false,
                tcp_phase: None,
            };
        }
        match error {
            None => {
                let attempt: usize = if self.attempt > 1 {
                    self.attempt
                } else {
                    1
                };
                WorkerVerdict {
                    action: WorkerAction::Sleep {
                        delay_ms: worker_retry_delay_with_jitter(attempt, random % 251),
                    },
                    network_timeout: false,
                    log: WorkerLog::Nothing,
                    refresh,
                    socket_retry: false,
                    tcp_phase: None,
                }
            },
            Some(chain) => {
                let tcp = report.transport == TurnTransportMode::TcpTls;
                let tcp_phase = if tcp && !closed_by_other_side(chain) {
                    Some(
                        if report.was_ready {
                            TcpPhase::Active
                        } else {
                            TcpPhase::Creating
                        },
                    )
                } else {
                    None
                };
                let outcome = recover(
                    cache,
                    self.attempt,
                    lease,
                    chain,
                    tcp,
                    report.renewed,
                    random,
                );
                self.attempt = outcome.attempt;
                WorkerVerdict {
                    action: WorkerAction::Sleep { delay_ms: outcome.delay_ms },
                    network_timeout: outcome.network_timeout,
                    log: outcome.log,
                    refresh,
                    socket_retry: outcome.socket_retry,
                    tcp_phase,
                }
            },
        }
    }

    /// What a worker does when a session has ended; its waits are drawn from a
    /// range by chance.
    pub fn after_session(
        &mut self,
        cache: &mut CredentialCache,
        flight: &mut ConfigDeliveryState,
        guard: ConfigFlightGuard,
        lease: &CredentialLease,
        report: SessionReport,
        error: &Option<ErrorChain>,
    ) -> (r: WorkerVerdict)
        requires
            old(cache).wf(),
        ensures
            final(cache).wf(),
            final(self).endpoint_cursor == old(self).endpoint_cursor,
            exists|random: u64|
                (Aftermath {
                    cache: final(cache)@,
                    attempt: final(self).attempt,
                    flight: *final(flight),
                    verdict: r,
                }) == #[trigger] aftermath_spec(
                    old(cache)@,
                    old(self).attempt,
                    *old(flight),
                    guard,
                    lease@,
                    report,
                    *error,
                    random,
                ),
    {
        let random: u64 = random_number();
        self.after_session_with(cache, flight, guard, lease, report, error, random)
    }
}

// ---------------------------------------------------------------------------
// Fetching credentials
// ---------------------------------------------------------------------------

/// What came of asking for credentials.
pub enum Fetched {
    Credentials(TurnCredentials),
    /// The call cannot be joined, with the code that said so.
    CallUnavailable(i64),
    Failed,
}

#[derive(Clone, Copy, Debug, PartialEq, Eq, Structural)]
pub enum FetchStep {
    /// Rest, and take a share.
    Use { delay_ms: u64 },
    /// The same credentials came again; rest, and try anew.
    Repeated { delay_ms: u64 },
    /// The workers of the hash stop.
    Unavailable { code: i64 },
    Failed { delay_ms: u64 },
}

/// The wait after so many failures in a row, without its jitter: a tenth of a
/// second, doubled with each of the first five of them, and three seconds at most.
pub open spec fn fetch_base(failures: int) -> int {
    let doubled = 100 * pow2(
        if failures < 5 {
            failures as nat
        } else {
            5
        },
    );
    if doubled < 3_000 {
        doubled as int
    } else {
        3_000
    }
}

#[verifier::ext_equal]
pub struct FetchModel {
    pub cache: CacheModel,
    pub failures: usize,
    pub unavailable: bool,
    pub step: FetchStep,
}

pub open spec fn fetch_spec(
    cache: CacheModel,
    failures: usize,
    unavailable: bool,
    fetched: Fetched,
    random: u64,
) -> FetchModel {
    match fetched {
        Fetched::Credentials(value) => if cache.store(value@).1 {
            FetchModel {
                cache: cache.store(value@).0,
                failures: 0,
                unavailable,
                step: FetchStep::Use { delay_ms: CREDENTIAL_POST_DELAY_MS },
            }
        } else {
            FetchModel {
                cache: cache.next_quota_delay().0,
                failures,
                unavailable,
                step: FetchStep::Repeated { delay_ms: cache.next_quota_delay().1 },
            }
        },
        Fetched::CallUnavailable(code) => FetchModel {
            cache,
            failures,
            unavailable: true,
            step: FetchStep::Unavailable { code },
        },
        Fetched::Failed => FetchModel {
            cache,
            failures: if failures == usize::MAX {
                0
            } else {
                (failures + 1) as usize
            },
            unavailable,
            step: FetchStep::Failed {
                delay_ms: (fetch_base(failures as int) + random % 100) as u64,
            },
        },
    }
}

/// The credentials of a cohort of workers.
pub struct GroupCredentials {
    pub credential_id: usize,
    pub hash: String,
    pub cache: CredentialCache,
    pub failures: usize,
    pub availability: HashAvailability,
}

impl GroupCredentials {
    pub fn is_unavailable(&self) -> (r: bool)
        ensures
            r == self.availability.unavailable,
    {
        self.availability.unavailable
    }

    /// A share in what the cohort has, if the hash can be used at all.
    pub fn try_get(&mut self) -> (r: Option<CredentialLease>)
        requires
            old(self).cache.wf(),
        ensures
            final(self).cache.wf(),
            final(self).availability == old(self).availability,
            final(self).failures == old(self).failures,
            final(self).credential_id == old(self).credential_id,
            final(self).hash == old(self).hash,
            if old(self).availability.unavailable {
                r is None && final(self).cache@ == old(self).cache@
            } else {
                &&& final(self).cache@ == old(self).cache@.reserve().0
                &&& match r {
                    Some(lease) => old(self).cache@.reserve().1 == Some(lease@),
                    None => old(self).cache@.reserve().1 is None,
                }
            },
    {
        if self.availability.unavailable {
            return None;
        }
        self.cache.reserve()
    }

    /// What to do with what came of asking for credentials, for a given random
    /// number.
    pub fn fetched_with(&mut self, fetched: Fetched, random: u64) -> (r: FetchStep)
        requires
            old(self).cache.wf(),
        ensures
            final(self).cache.wf(),
            final(self).credential_id == old(self).credential_id,
            final(self).hash == old(self).hash,
            (FetchModel {
                cache: final(self).cache@,
                failures: final(self).failures,
                unavailable: final(self).availability.unavailable,
                step: r,
            }) == fetch_spec(
                old(self).cache@,
                old(self).failures,
                old(self).availability.unavailable,
                fetched,
                random,
            ),
    {
        match fetched {
            Fetched::Credentials(value) => {
                if self.cache.store(value) {
                    self.failures = 0;
                    FetchStep::Use { delay_ms: CREDENTIAL_POST_DELAY_MS }
                } else {
                    FetchStep::Repeated { delay_ms: self.cache.next_quota_delay() }
                }
            },
            Fetched::CallUnavailable(code) => {
                self.availability.mark_unavailable();
                FetchStep::Unavailable { code }
            },
            Fetched::Failed => {
                proof {
                    lemma2_to64();
                }
                let base: u64 = match self.failures {
                    0 => 100,
                    1 => 200,
                    2 => 400,
                    3 => 800,
                    4 => 1_600,
                    _ => 3_000,
                };
                self.failures = self.failures.wrapping_add(1);
                FetchStep::Failed { delay_ms: base + random % 100 }
            },
        }
    }

    /// What to do with what came of asking for credentials; the wait after a
    /// failure has a part that is drawn by chance.
    pub fn fetched(&mut self, fetched: Fetched) -> (r: FetchStep)
        requires
            old(self).cache.wf(),
        ensures
            final(self).cache.wf(),
            final(self).credential_id == old(self).credential_id,
            final(self).hash == old(self).hash,
            exists|random: u64|
                (FetchModel {
                    cache: final(self).cache@,
                    failures: final(self).failures,
                    unavailable: final(self).availability.unavailable,
                    step: r,
                }) == #[trigger] fetch_spec(
                    old(self).cache@,
                    old(self).failures,
                    old(self).availability.unavailable,
                    fetched,
                    random,
                ),
    {
        let random: u64 = random_number();
        self.fetched_with(fetched, random)
    }
}

/// How a worker's task ended.
#[derive(Clone, Copy, Debug, PartialEq, Eq, Structural)]
pub enum WorkerTaskEnd {
    Finished,
    Panicked,
    Cancelled,
}

/// The rest before a worker that broke down begins anew; nothing where it does
/// not.
pub fn worker_restart(end: WorkerTaskEnd, cancelled: bool) -> (r: Option<u64>)
    ensures
        r == if end == WorkerTaskEnd::Panicked && !cancelled {
            Some(WORKER_RESTART_DELAY_MS)
        } else {
            None
        },
{
    if end == WorkerTaskEnd::Panicked && !cancelled {
        Some(WORKER_RESTART_DELAY_MS)
    } else {
        None
    }
}

/// A worker never gives up on its own: while the client goes on and its hash can
/// be used, it begins anew after a wait that has a limit.
pub proof fn law_workers_go_on(
    cache: CacheModel,
    attempt: usize,
    flight: ConfigDeliveryState,
    guard: ConfigFlightGuard,
    lease: LeaseModel,
    report: SessionReport,
    error: Option<ErrorChain>,
    random: u64,
)
    requires
        !report.cancelled,
        !report.unavailable,
    ensures
        match aftermath_spec(
            cache,
            attempt,
            flight,
            guard,
            lease,
            report,
            error,
            random,
        ).verdict.action {
            WorkerAction::Stop => false,
            WorkerAction::Again => report.paused,
            WorkerAction::Sleep { delay_ms } => 50 <= delay_ms <= 10_000,
        },
{
}

/// Credentials are given up only where the relay refused them or had no room, or
/// the server asked for new ones: a timeout alone costs none.
pub proof fn law_timeouts_keep_credentials(
    cache: CacheModel,
    attempt: usize,
    lease: LeaseModel,
    causes: Seq<Cause>,
    message: Seq<char>,
    full: Seq<char>,
    tcp: bool,
    random: u64,
)
    requires
        !invalid_credentials_spec(causes, lower_spec(message)),
        !quota_spec(causes, lower_spec(message)),
        !mismatch_spec(causes, lower_spec(message)),
    ensures
        recovery_spec(cache, attempt, lease, causes, message, full, tcp, false, random).cache
            == cache,
{
}

/// A run of failures to get credentials, for the random numbers of each: the
/// count of failures after it.
pub open spec fn failed_fetches(
    cache: CacheModel,
    failures: usize,
    unavailable: bool,
    randoms: Seq<u64>,
) -> usize
    decreases randoms.len(),
{
    if randoms.len() == 0 {
        failures
    } else {
        fetch_spec(
            cache,
            failed_fetches(cache, failures, unavailable, randoms.drop_last()),
            unavailable,
            Fetched::Failed,
            randoms.last(),
        ).failures
    }
}

/// The wait for credentials doubles with each failure in a row, from a tenth of a
/// second up to three seconds, and is drawn from less than a tenth of a second
/// above that. Failures change nothing else.
pub proof fn law_fetches_back_off(
    cache: CacheModel,
    failures: usize,
    unavailable: bool,
    random: u64,
)
    ensures
        ({
            let after = fetch_spec(cache, failures, unavailable, Fetched::Failed, random);
            let base = fetch_base(failures as int);
            &&& after.cache == cache
            &&& after.unavailable == unavailable
            &&& after.step matches FetchStep::Failed { delay_ms } && base <= delay_ms <= base + 99
        }),
        fetch_base(0) == 100,
        fetch_base(failures + 1) == if 2 * fetch_base(failures as int) < 3_000 {
            2 * fetch_base(failures as int)
        } else {
            3_000
        },
{
    lemma2_to64();
}

proof fn lemma_failed_fetches(
    cache: CacheModel,
    failures: usize,
    unavailable: bool,
    randoms: Seq<u64>,
)
    requires
        failures + randoms.len() <= usize::MAX,
    ensures
        failed_fetches(cache, failures, unavailable, randoms) == failures + randoms.len(),
    decreases randoms.len(),
{
    if randoms.len() > 0 {
        lemma_failed_fetches(cache, failures, unavailable, randoms.drop_last());
    }
}

/// Credentials that are taken set the wait back: after them and `k` failures, the
/// next failure waits at least the lesser of `100 * 2^min(k, 5)` and `3000`
/// milliseconds, and less than a hundred more, whatever came before.
pub proof fn law_taken_credentials_reset_the_wait(
    cache: CacheModel,
    failures: usize,
    unavailable: bool,
    value: TurnCredentials,
    randoms: Seq<u64>,
    random: u64,
)
    requires
        cache.store(value@).1,
        randoms.len() <= usize::MAX,
    ensures
        ({
            let taken = fetch_spec(
                cache,
                failures,
                unavailable,
                Fetched::Credentials(value),
                random,
            );
            let count = failed_fetches(
                taken.cache,
                taken.failures,
                taken.unavailable,
                randoms,
            );
            let base = fetch_base(randoms.len() as int);
            &&& taken.failures == 0
            &&& taken.step == (FetchStep::Use { delay_ms: CREDENTIAL_POST_DELAY_MS })
            &&& count == randoms.len()
            &&& fetch_spec(
                taken.cache,
                count,
                taken.unavailable,
                Fetched::Failed,
                random,
            ).step matches FetchStep::Failed { delay_ms } && base <= delay_ms <= base + 99
                && delay_ms == base + random % 100
        }),
{
    lemma2_to64();
    let taken = fetch_spec(cache, failures, unavailable, Fetched::Credentials(value), random);
    lemma_failed_fetches(taken.cache, taken.failures, taken.unavailable, randoms);
}

} // verus!
