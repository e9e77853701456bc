//! The credentials that a cohort of workers shares: how many take part in them,
//! and when they are given up.

use vstd::prelude::*;
use crate::client::auth::{CredentialsModel, TurnCredentials};

verus! {

pub const WORKERS_PER_GROUP: usize = 9;
pub const GROUPS_PER_CREDENTIAL: usize = 2;
pub const WORKERS_PER_CREDENTIAL: usize = 18;

/// Whether two credentials are the same, the secret included.
pub fn same_turn_credentials(left: &TurnCredentials, right: &TurnCredentials) -> (r: bool)
    ensures
        r == (left@ == right@),
{
    if !crate::text::same_text(left.username.as_str(), right.username.as_str()) {
        return false;
    }
    if !crate::text::same_text(left.password.as_str(), right.password.as_str()) {
        return false;
    }
    let a = &left.server_addresses;
    let b = &right.server_addresses;
    if a.len() != b.len() {
        assert(left@.server_addresses.len() != right@.server_addresses.len());
        return false;
    }
    let mut i: usize = 0;
    while i < a.len()
        invariant
            i <= a@.len(),
            a@.len() == b@.len(),
            *a == left.server_addresses,
            *b == right.server_addresses,
            forall|k: int| 0 <= k < i ==> (#[trigger] a@[k])@ == b@[k]@,
        decreases a@.len() - i,
    {
        if !crate::text::same_text(a[i].as_str(), b[i].as_str()) {
            assert(left@.server_addresses[i as int] != right@.server_addresses[i as int]);
            return false;
        }
        i = i + 1;
    }
    assert(left@.server_addresses =~= right@.server_addresses);
    true
}

pub open spec fn quota_delay_spec(attempt: int) -> u64 {
    if attempt == 0 {
        100
    } else if attempt == 1 {
        300
    } else if attempt == 2 {
        500
    } else if attempt == 3 {
        800
    } else {
        1_500
    }
}

/// How long to wait before new credentials are asked for, in milliseconds.
pub fn quota_rotation_delay(attempt: usize) -> (r: u64)
    ensures
        r == quota_delay_spec(attempt as int),
{
    match attempt {
        0 => 100,
        1 => 300,
        2 => 500,
        3 => 800,
        _ => 1_500,
    }
}

#[verifier::ext_equal]
pub struct CachedModel {
    pub value: CredentialsModel,
    pub generation: u64,
    pub allocation_attempts: nat,
    pub allocation_mismatches: nat,
}

#[verifier::ext_equal]
pub struct LeaseModel {
    pub value: CredentialsModel,
    pub generation: u64,
}

#[verifier::ext_equal]
pub struct CacheModel {
    pub current: Option<CachedModel>,
    pub quota_blocked: Option<CredentialsModel>,
    pub next_generation: u64,
    pub quota_retries: usize,
}

pub open spec fn raised(n: usize) -> usize {
    if n == usize::MAX {
        n
    } else {
        (n + 1) as usize
    }
}

impl CacheModel {
    pub open spec fn empty() -> CacheModel {
        CacheModel {
            current: None,
            quota_blocked: None,
            next_generation: 0,
            quota_retries: 0,
        }
    }

    /// No more workers take part in credentials than they are good for.
    pub open spec fn wf(self) -> bool {
        match self.current {
            Some(cached) => cached.allocation_attempts <= WORKERS_PER_CREDENTIAL
                && cached.allocation_mismatches <= 1,
            None => true,
        }
    }

    /// The lease is one of the current credentials.
    pub open spec fn holds(self, lease: LeaseModel) -> bool {
        match self.current {
            Some(cached) => cached.generation == lease.generation && cached.value == lease.value,
            None => false,
        }
    }

    pub open spec fn reserve(self) -> (CacheModel, Option<LeaseModel>) {
        match self.current {
            Some(cached) => if cached.allocation_attempts >= WORKERS_PER_CREDENTIAL {
                (CacheModel { current: None, ..self }, None)
            } else {
                (
                    CacheModel {
                        current: Some(
                            CachedModel {
                                allocation_attempts: cached.allocation_attempts + 1,
                                ..cached
                            },
                        ),
                        ..self
                    },
                    Some(LeaseModel { value: cached.value, generation: cached.generation }),
                )
            },
            None => (self, None),
        }
    }

    /// New credentials are taken, unless they are those that a relay has just
    /// refused.
    pub open spec fn store(self, value: CredentialsModel) -> (CacheModel, bool) {
        if self.quota_blocked == Some(value) {
            (self, false)
        } else {
            let generation = if self.next_generation == u64::MAX {
                u64::MAX
            } else {
                (self.next_generation + 1) as u64
            };
            (
                CacheModel {
                    current: Some(
                        CachedModel {
                            value,
                            generation,
                            allocation_attempts: 0,
                            allocation_mismatches: 0,
                        },
                    ),
                    quota_blocked: None,
                    next_generation: generation,
                    ..self
                },
                true,
            )
        }
    }

    pub open spec fn record_allocation(self, lease: LeaseModel) -> CacheModel {
        if self.holds(lease) {
            CacheModel {
                current: Some(CachedModel { allocation_mismatches: 0, ..self.current->0 }),
                quota_retries: 0,
                ..self
            }
        } else {
            self
        }
    }

    pub open spec fn release(self, lease: LeaseModel) -> CacheModel {
        if self.holds(lease) {
            let cached = self.current->0;
            CacheModel {
                current: Some(
                    CachedModel {
                        allocation_attempts: if cached.allocation_attempts > 0 {
                            (cached.allocation_attempts - 1) as nat
                        } else {
                            0
                        },
                        ..cached
                    },
                ),
                ..self
            }
        } else {
            self
        }
    }

    pub open spec fn invalidate(self, lease: LeaseModel) -> CacheModel {
        if self.holds(lease) {
            CacheModel { current: None, ..self }
        } else {
            self
        }
    }

    pub open spec fn next_quota_delay(self) -> (CacheModel, u64) {
        (
            CacheModel { quota_retries: raised(self.quota_retries), ..self },
            quota_delay_spec(self.quota_retries as int),
        )
    }

    /// The credentials have no room left: they are given up and remembered.
    pub open spec fn rotate_after_quota(self, lease: LeaseModel) -> (CacheModel, QuotaRotation) {
        if self.holds(lease) {
            (
                CacheModel {
                    current: None,
                    quota_blocked: Some(lease.value),
                    quota_retries: raised(self.quota_retries),
                    ..self
                },
                QuotaRotation::Rotated(quota_delay_spec(self.quota_retries as int)),
            )
        } else {
            (self, QuotaRotation::Replaced)
        }
    }

    /// The credentials get a second chance, and no third.
    pub open spec fn retry_after_mismatch(self, lease: LeaseModel) -> (
        CacheModel,
        AllocationMismatch,
    ) {
        if !self.holds(lease) {
            (self, AllocationMismatch::Replaced)
        } else if (self.current->0).allocation_mismatches == 0 {
            (
                CacheModel {
                    current: Some(CachedModel { allocation_mismatches: 1, ..self.current->0 }),
                    ..self
                },
                AllocationMismatch::RetryCurrent,
            )
        } else {
            (CacheModel { current: None, ..self }, AllocationMismatch::Rotated)
        }
    }
}

struct CachedCredentials {
    value: TurnCredentials,
    generation: u64,
    allocation_attempts: usize,
    allocation_mismatches: usize,
}

impl CachedCredentials {
    spec fn model(&self) -> CachedModel {
        CachedModel {
            value: self.value@,
            generation: self.generation,
            allocation_attempts: self.allocation_attempts as nat,
            allocation_mismatches: self.allocation_mismatches as nat,
        }
    }
}

/// A share in credentials.
pub struct CredentialLease {
    pub value: TurnCredentials,
    pub generation: u64,
}

impl View for CredentialLease {
    type V = LeaseModel;

    open spec fn view(&self) -> LeaseModel {
        LeaseModel { value: self.value@, generation: self.generation }
    }
}

/// What became of credentials without room; a delay is in milliseconds.
#[derive(Clone, Copy, Debug, PartialEq, Eq, Structural)]
pub enum QuotaRotation {
    Rotated(u64),
    Replaced,
}

#[derive(Clone, Copy, Debug, PartialEq, Eq, Structural)]
pub enum AllocationMismatch {
    RetryCurrent,
    Rotated,
    Replaced,
}

pub struct CredentialCache {
    current: Option<CachedCredentials>,
    quota_blocked: Option<TurnCredentials>,
    next_generation: u64,
    quota_retries: usize,
}

impl View for CredentialCache {
    type V = CacheModel;

    closed spec fn view(&self) -> CacheModel {
        CacheModel {
            current: match self.current {
                Some(cached) => Some(cached.model()),
                None => None,
            },
            quota_blocked: match self.quota_blocked {
                Some(value) => Some(value@),
                None => None,
            },
            next_generation: self.next_generation,
            quota_retries: self.quota_retries,
        }
    }
}

impl Default for CredentialCache {
    fn default() -> (r: CredentialCache)
        ensures
            r@ == CacheModel::empty(),
    {
        CredentialCache {
            current: None,
            quota_blocked: None,
            next_generation: 0,
            quota_retries: 0,
        }
    }
}

impl CredentialCache {
    pub open spec fn wf(&self) -> bool {
        self@.wf()
    }

    fn is_current(&self, lease: &CredentialLease) -> (r: bool)
        ensures
            r == self@.holds(lease@),
    {
        match &self.current {
            Some(cached) => cached.generation == lease.generation && same_turn_credentials(
                &cached.value,
                &lease.value,
            ),
            None => false,
        }
    }

    pub fn has_current(&self) -> (r: bool)
        ensures
            r == (self@.current is Some),
    {
        self.current.is_some()
    }

    /// A share in the current credentials, while they have one left.
    pub fn reserve(&mut self) -> (r: Option<CredentialLease>)
        requires
            old(self).wf(),
        ensures
            final(self).wf(),
            final(self)@ == old(self)@.reserve().0,
            match r {
                Some(lease) => old(self)@.reserve().1 == Some(lease@),
                None => old(self)@.reserve().1 is None,
            },
    {
        let ghost before = self@;
        match self.current.take() {
            Some(mut cached) => {
                if cached.allocation_attempts >= WORKERS_PER_CREDENTIAL {
                    assert(self@ =~= before.reserve().0);
                    return None;
                }
                cached.allocation_attempts = cached.allocation_attempts + 1;
                let lease = CredentialLease {
                    value: cached.value.clone(),
                    generation: cached.generation,
                };
                self.current = Some(cached);
                assert(self@ =~= before.reserve().0);
                Some(lease)
            },
            None => None,
        }
    }

    pub fn store(&mut self, credentials: TurnCredentials) -> (r: bool)
        ensures
            (final(self)@, r) == old(self)@.store(credentials@),
            old(self).wf() ==> final(self).wf(),
    {
        let ghost before = self@;
        if let Some(blocked) = &self.quota_blocked {
            if same_turn_credentials(blocked, &credentials) {
                return false;
            }
        }
        self.quota_blocked = None;
        self.next_generation = self.next_generation.saturating_add(1);
        self.current = Some(
            CachedCredentials {
                value: credentials,
                generation: self.next_generation,
                allocation_attempts: 0,
                allocation_mismatches: 0,
            },
        );
        assert(self@ =~= before.store(credentials@).0);
        true
    }

    /// A relay gave an allocation: the credentials are good again.
    pub fn record_allocation(&mut self, lease: &CredentialLease)
        ensures
            final(self)@ == old(self)@.record_allocation(lease@),
            old(self).wf() ==> final(self).wf(),
    {
        let ghost before = self@;
        if self.is_current(lease) {
            if let Some(mut cached) = self.current.take() {
                cached.allocation_mismatches = 0;
                self.current = Some(cached);
            }
            self.quota_retries = 0;
        }
        assert(self@ =~= before.record_allocation(lease@));
    }

    /// A share was not used.
    pub fn release(&mut self, lease: &CredentialLease)
        ensures
            final(self)@ == old(self)@.release(lease@),
            old(self).wf() ==> final(self).wf(),
    {
        let ghost before = self@;
        if self.is_current(lease) {
            if let Some(mut cached) = self.current.take() {
                cached.allocation_attempts = cached.allocation_attempts.saturating_sub(1);
                self.current = Some(cached);
            }
        }
        assert(self@ =~= before.release(lease@));
    }

    /// The credentials are refused.
    pub fn invalidate(&mut self, lease: &CredentialLease) -> (r: bool)
        ensures
            r == old(self)@.holds(lease@),
            final(self)@ == old(self)@.invalidate(lease@),
            old(self).wf() ==> final(self).wf(),
    {
        let ghost before = self@;
        let held = self.is_current(lease);
        if held {
            self.current = None;
        }
        assert(self@ =~= before.invalidate(lease@));
        held
    }

    pub fn rotate_after_quota(&mut self, lease: &CredentialLease) -> (r: QuotaRotation)
        ensures
            (final(self)@, r) == old(self)@.rotate_after_quota(lease@),
            old(self).wf() ==> final(self).wf(),
    {
        let ghost before = self@;
        if !self.is_current(lease) {
            return QuotaRotation::Replaced;
        }
        if let Some(cached) = self.current.take() {
            self.quota_blocked = Some(cached.value);
        }
        let delay: u64 = self.next_quota_delay();
        assert(self@ =~= before.rotate_after_quota(lease@).0);
        QuotaRotation::Rotated(delay)
    }

    pub fn next_quota_delay(&mut self) -> (r: u64)
        ensures
            (final(self)@, r) == old(self)@.next_quota_delay(),
            old(self).wf() ==> final(self).wf(),
    {
        let ghost before = self@;
        let delay: u64 = quota_rotation_delay(self.quota_retries);
        self.quota_retries = self.quota_retries.saturating_add(1);
        assert(self@ =~= before.next_quota_delay().0);
        delay
    }

    pub fn retry_after_mismatch(&mut self, lease: &CredentialLease) -> (r: AllocationMismatch)
        ensures
            (final(self)@, r) == old(self)@.retry_after_mismatch(lease@),
            old(self).wf() ==> final(self).wf(),
    {
        let ghost before = self@;
        if !self.is_current(lease) {
            return AllocationMismatch::Replaced;
        }
        match self.current.take() {
            Some(mut cached) => {
                if cached.allocation_mismatches == 0 {
                    cached.allocation_mismatches = 1;
                    self.current = Some(cached);
                    assert(self@ =~= before.retry_after_mismatch(lease@).0);
                    return AllocationMismatch::RetryCurrent;
                }
                assert(self@ =~= before.retry_after_mismatch(lease@).0);
                AllocationMismatch::Rotated
            },
            None => AllocationMismatch::Replaced,
        }
    }
}

/// So many shares taken in a row, from credentials that were just stored.
pub open spec fn reserved(cache: CacheModel, count: nat) -> CacheModel
    decreases count,
{
    if count == 0 {
        cache
    } else {
        reserved(cache, (count - 1) as nat).reserve().0
    }
}

/// Stored credentials have a share for every worker of a cohort, and none after
/// that: they are then given up.
pub proof fn law_shares_are_counted(cache: CacheModel, value: CredentialsModel, count: nat)
    requires
        cache.quota_blocked != Some(value),
        count <= WORKERS_PER_CREDENTIAL,
    ensures
        ({
            let fresh = cache.store(value).0;
            let used = reserved(fresh, count);
            &&& used.current is Some
            &&& (used.current->0).allocation_attempts == count
            &&& (used.current->0).value == value
            &&& (used.reserve().1 is Some) == (count < WORKERS_PER_CREDENTIAL)
            &&& count == WORKERS_PER_CREDENTIAL ==> used.reserve().0.current is None
        }),
    decreases count,
{
    if count > 0 {
        law_shares_are_counted(cache, value, (count - 1) as nat);
    }
}

/// Credentials that a relay had no room for are not taken again next, and others
/// are.
pub proof fn law_refused_credentials_are_not_taken_next(
    cache: CacheModel,
    lease: LeaseModel,
    other: CredentialsModel,
)
    requires
        cache.holds(lease),
    ensures
        ({
            let rotated = cache.rotate_after_quota(lease).0;
            &&& rotated.current is None
            &&& rotated.store(lease.value) == (rotated, false)
            &&& other != lease.value ==> rotated.store(other).1
        }),
{
}

/// A lease of credentials that are gone changes nothing.
pub proof fn law_stale_lease_changes_nothing(cache: CacheModel, lease: LeaseModel)
    requires
        !cache.holds(lease),
    ensures
        cache.record_allocation(lease) == cache,
        cache.release(lease) == cache,
        cache.invalidate(lease) == cache,
        cache.rotate_after_quota(lease) == (cache, QuotaRotation::Replaced),
        cache.retry_after_mismatch(lease) == (cache, AllocationMismatch::Replaced),
{
}

/// A lost allocation costs the credentials at its second time in a row, and a
/// granted one makes it the first again.
pub proof fn law_second_mismatch_rotates(cache: CacheModel, lease: LeaseModel)
    requires
        cache.holds(lease),
        (cache.current->0).allocation_mismatches == 0,
    ensures
        ({
            let once = cache.retry_after_mismatch(lease);
            &&& once.1 == AllocationMismatch::RetryCurrent
            &&& once.0.retry_after_mismatch(lease).1 == AllocationMismatch::Rotated
            &&& once.0.retry_after_mismatch(lease).0.current is None
            &&& once.0.record_allocation(lease).retry_after_mismatch(lease).1
                == AllocationMismatch::RetryCurrent
        }),
{
}

/// The waits for new credentials grow to their limit, and begin again after a
/// granted allocation.
pub proof fn law_quota_waits_are_bounded(cache: CacheModel, lease: LeaseModel, attempt: nat)
    ensures
        quota_delay_spec(attempt as int) <= quota_delay_spec(attempt + 1int) <= 1_500,
        cache.holds(lease) ==> cache.record_allocation(lease).next_quota_delay().1 == 100,
{
}

/// A share is one in what was stored, and giving it back undoes taking it.
pub proof fn law_share_is_of_what_was_stored(cache: CacheModel, value: CredentialsModel)
    ensures
        cache.store(value).1 ==> {
            let (next, lease) = cache.store(value).0.reserve();
            &&& lease matches Some(share) && share.value == value && next.holds(share)
            &&& next.release(lease->0) == cache.store(value).0
        },
        cache.reserve().1 matches Some(share) ==> cache.reserve().0.release(share) == cache,
        cache.store(value).1 == (cache.quota_blocked != Some(value)),
        !cache.store(value).1 ==> cache.store(value).0 == cache,
{
    if cache.store(value).1 {
        let stored = cache.store(value).0;
        assert(stored.reserve().0.release(stored.reserve().1->0) =~= stored);
    }
    if let Some(share) = cache.reserve().1 {
        assert(cache.reserve().0.release(share) =~= cache);
    }
}

/// Credentials that are given up are gone for everybody: nobody gets a share in
/// them any more, and the shares that others hold are stale.
pub proof fn law_given_up_credentials_are_gone(
    cache: CacheModel,
    lease: LeaseModel,
    other: LeaseModel,
    value: CredentialsModel,
)
    requires
        cache.holds(lease),
    ensures
        cache.invalidate(lease).reserve().1 is None,
        !cache.invalidate(lease).holds(other),
        cache.rotate_after_quota(lease).0.reserve().1 is None,
        !cache.rotate_after_quota(lease).0.holds(other),
        cache.rotate_after_quota(lease).1 is Rotated,
        !cache.rotate_after_quota(lease).0.store(lease.value).1,
        value != lease.value ==> cache.rotate_after_quota(lease).0.store(value).1,
        cache.invalidate(lease).store(lease.value).1 || cache.quota_blocked == Some(lease.value),
        cache.next_generation < u64::MAX && other.generation <= cache.next_generation
            ==> !cache.store(value).0.holds(other) || !cache.store(value).1,
{
}

/// The waits of credentials without room, one after another, until a relay gives
/// an allocation: after that they begin anew.
pub proof fn law_waits_begin_anew(cache: CacheModel, lease: LeaseModel)
    requires
        cache.quota_retries == 0,
    ensures
        ({
            let (a, first) = cache.next_quota_delay();
            let (b, second) = a.next_quota_delay();
            let (c, third) = b.next_quota_delay();
            let (d, fourth) = c.next_quota_delay();
            let (e, fifth) = d.next_quota_delay();
            let (f, sixth) = e.next_quota_delay();
            &&& (first, second, third) == (100u64, 300u64, 500u64)
            &&& (fourth, fifth, sixth) == (800u64, 1_500u64, 1_500u64)
            &&& f.holds(lease) ==> f.record_allocation(lease).next_quota_delay().1 == 100
            &&& f.current == cache.current
            &&& f.quota_blocked == cache.quota_blocked
        }),
        cache.holds(lease) ==> cache.rotate_after_quota(lease).1 == QuotaRotation::Rotated(100),
{
}

/// An allocation forgives a mismatch: after it the credentials have their second
/// chance again.
pub proof fn law_allocation_forgives_a_mismatch(cache: CacheModel, lease: LeaseModel)
    requires
        cache.holds(lease),
    ensures
        cache.record_allocation(lease).retry_after_mismatch(lease).1
            == AllocationMismatch::RetryCurrent,
        cache.record_allocation(lease).retry_after_mismatch(lease).0.retry_after_mismatch(lease).1
            == AllocationMismatch::Rotated,
        cache.record_allocation(lease).holds(lease),
        cache.record_allocation(lease).current->0.allocation_attempts
            == cache.current->0.allocation_attempts,
{
}

} // verus!
