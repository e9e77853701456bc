//! How the sessions of a client take leave of the server together: one of them
//! leads, and speaks over the control streams that were active last.

use vstd::prelude::*;
use vstd::utf8::encode_utf8;
use crate::shared::selective_fec::{ascii, begins, begins_with, is_text};
use crate::text::{push_text, utf8_of};

verus! {

pub const DISCONNECT_CONTROL_ATTEMPTS: usize = 2;
/// How long a request may take to be handed over, in milliseconds.
pub const DISCONNECT_SEND_TIMEOUT_MS: u64 = 300;
/// How long its answer is waited for, in milliseconds.
pub const DISCONNECT_ACK_TIMEOUT_MS: u64 = 350;
/// How long the other sessions wait for the leader, in milliseconds.
pub const DISCONNECT_FOLLOW_TIMEOUT_MS: u64 = 2_000;

#[derive(Clone, Copy, Debug, PartialEq, Eq, Structural)]
pub struct ControlStream {
    pub incarnation_id: u64,
    pub activity: u64,
}

/// The stream was active after another, or is the later one of the two.
pub open spec fn precedes(a: ControlStream, b: ControlStream) -> bool {
    a.activity > b.activity || (a.activity == b.activity && a.incarnation_id > b.incarnation_id)
}

/// A stream put in its place among ordered ones.
pub open spec fn placed(ordered: Seq<ControlStream>, stream: ControlStream) -> Seq<ControlStream>
    decreases ordered.len(),
{
    if ordered.len() == 0 {
        seq![stream]
    } else if precedes(stream, ordered[0]) {
        seq![stream] + ordered
    } else {
        seq![ordered[0]] + placed(ordered.skip(1), stream)
    }
}

/// The streams, the most recently active one first.
pub open spec fn by_activity(streams: Seq<ControlStream>) -> Seq<ControlStream>
    decreases streams.len(),
{
    if streams.len() == 0 {
        Seq::empty()
    } else {
        placed(by_activity(streams.drop_last()), streams.last())
    }
}

pub open spec fn ids(streams: Seq<ControlStream>) -> Seq<u64> {
    Seq::new(streams.len(), |i: int| streams[i].incarnation_id)
}

pub open spec fn without(streams: Seq<ControlStream>, incarnation_id: u64) -> Seq<ControlStream>
    decreases streams.len(),
{
    if streams.len() == 0 {
        Seq::empty()
    } else if streams.last().incarnation_id == incarnation_id {
        without(streams.drop_last(), incarnation_id)
    } else {
        without(streams.drop_last(), incarnation_id).push(streams.last())
    }
}

pub open spec fn marked(
    streams: Seq<ControlStream>,
    incarnation_id: u64,
    activity: u64,
) -> Seq<ControlStream> {
    Seq::new(
        streams.len(),
        |i: int|
            if streams[i].incarnation_id == incarnation_id {
                ControlStream { activity, ..streams[i] }
            } else {
                streams[i]
            },
    )
}

/// The answer that ends the leave-taking.
pub open spec fn is_farewell(response: Seq<u8>) -> bool {
    response == ascii("OK:disconnected"@) || begins(response, "DENIED:"@)
}

#[verifier::ext_equal]
pub struct ShutdownModel {
    pub active: bool,
    pub completed: bool,
    pub streams: Seq<ControlStream>,
    pub next_activity: u64,
}

impl ShutdownModel {
    /// The number that the next activity gets.
    pub open spec fn issued(self) -> u64 {
        if self.next_activity == 0 {
            1
        } else {
            self.next_activity
        }
    }

    pub open spec fn advanced(self) -> ShutdownModel {
        ShutdownModel {
            next_activity: if self.next_activity == u64::MAX {
                0
            } else {
                (self.next_activity + 1) as u64
            },
            ..self
        }
    }

    pub open spec fn register(self, incarnation_id: u64) -> ShutdownModel {
        let next = self.advanced();
        if self.active {
            next
        } else {
            ShutdownModel {
                streams: self.streams.push(
                    ControlStream { incarnation_id, activity: self.issued() },
                ),
                ..next
            }
        }
    }

    pub open spec fn mark_activity(self, incarnation_id: u64) -> ShutdownModel {
        ShutdownModel {
            streams: marked(self.streams, incarnation_id, self.issued()),
            ..self.advanced()
        }
    }

    /// The first to ask leads.
    pub open spec fn begin(self) -> (ShutdownModel, bool) {
        if self.active {
            (self, false)
        } else {
            (ShutdownModel { active: true, completed: false, ..self }, true)
        }
    }

    pub open spec fn observe(self, response: Seq<u8>) -> (ShutdownModel, bool) {
        if is_farewell(response) && self.active && !self.completed {
            (ShutdownModel { completed: true, ..self }, true)
        } else {
            (self, false)
        }
    }

    pub open spec fn complete(self) -> ShutdownModel {
        ShutdownModel { completed: true, ..self }
    }

    pub open spec fn unregister(self, incarnation_id: u64) -> ShutdownModel {
        ShutdownModel { streams: without(self.streams, incarnation_id), ..self }
    }

    pub open spec fn control_streams(self) -> Seq<u64> {
        ids(by_activity(self.streams))
    }

    /// The streams that the request goes out on.
    pub open spec fn targets(self) -> Seq<u64> {
        let all = self.control_streams();
        if all.len() < DISCONNECT_CONTROL_ATTEMPTS {
            all
        } else {
            all.take(DISCONNECT_CONTROL_ATTEMPTS as int)
        }
    }
}

pub struct ShutdownCoordinator {
    active: bool,
    completed: bool,
    streams: Vec<ControlStream>,
    next_activity: u64,
}

impl View for ShutdownCoordinator {
    type V = ShutdownModel;

    closed spec fn view(&self) -> ShutdownModel {
        ShutdownModel {
            active: self.active,
            completed: self.completed,
            streams: self.streams@,
            next_activity: self.next_activity,
        }
    }
}

impl ShutdownCoordinator {
    pub fn new() -> (r: ShutdownCoordinator)
        ensures
            r@ == (ShutdownModel {
                active: false,
                completed: false,
                streams: Seq::empty(),
                next_activity: 1,
            }),
    {
        ShutdownCoordinator {
            active: false,
            completed: false,
            streams: Vec::new(),
            next_activity: 1,
        }
    }

    fn next_activity(&mut self) -> (r: u64)
        ensures
            r == old(self)@.issued(),
            final(self)@ == old(self)@.advanced(),
    {
        let n: u64 = self.next_activity;
        self.next_activity = n.wrapping_add(1);
        if n == 0 {
            1
        } else {
            n
        }
    }

    /// A session's control stream is there to be used, unless leave is being
    /// taken already.
    pub fn register(&mut self, incarnation_id: u64)
        ensures
            final(self)@ == old(self)@.register(incarnation_id),
    {
        let activity: u64 = self.next_activity();
        if !self.active {
            self.streams.push(ControlStream { incarnation_id, activity });
        }
    }

    /// A session sent something.
    pub fn mark_activity(&mut self, incarnation_id: u64)
        ensures
            final(self)@ == old(self)@.mark_activity(incarnation_id),
    {
        let ghost before = self@;
        let activity: u64 = self.next_activity();
        let ghost wanted = marked(before.streams, incarnation_id, activity);
        let mut i: usize = 0;
        while i < self.streams.len()
            invariant
                i <= self.streams@.len(),
                self.streams@.len() == before.streams.len(),
                activity == before.issued(),
                wanted == marked(before.streams, incarnation_id, activity),
                self.active == before.active,
                self.completed == before.completed,
                self.next_activity == before.advanced().next_activity,
                forall|k: int| 0 <= k < i ==> self.streams@[k] == #[trigger] wanted[k],
                forall|k: int|
                    i <= k < self.streams@.len() ==> self.streams@[k]
                        == #[trigger] before.streams[k],
            decreases self.streams@.len() - i,
        {
            let stream = self.streams[i];
            assert(stream == before.streams[i as int]);
            assert(wanted[i as int] == wanted[i as int]);
            if stream.incarnation_id == incarnation_id {
                self.streams[i] = ControlStream { incarnation_id, activity };
            }
            i = i + 1;
        }
        assert(self@ =~= before.mark_activity(incarnation_id));
    }

    /// Whether the caller leads.
    pub fn begin_disconnect(&mut self) -> (r: bool)
        ensures
            (final(self)@, r) == old(self)@.begin(),
    {
        if self.active {
            false
        } else {
            self.active = true;
            self.completed = false;
            true
        }
    }

    /// The streams to try, in order.
    pub fn disconnect_targets(&self) -> (r: Vec<u64>)
        ensures
            r@ == self@.targets(),
    {
        let mut all = self.control_streams();
        if all.len() > DISCONNECT_CONTROL_ATTEMPTS {
            all.truncate(DISCONNECT_CONTROL_ATTEMPTS);
        }
        assert(all@ =~= self@.targets());
        all
    }

    /// The next stream to try after some were, unless the answer has come.
    pub fn next_target(&self, targets: &Vec<u64>, tried: usize) -> (r: Option<u64>)
        ensures
            r == if self@.completed || tried >= targets@.len() {
                None::<u64>
            } else {
                Some(targets@[tried as int])
            },
            r is Some ==> tried < usize::MAX,
    {
        if self.completed || tried >= targets.len() {
            None
        } else {
            Some(targets[tried])
        }
    }

    /// Whether a packet is the answer that is waited for.
    pub fn observe_control_response(&mut self, response: &[u8]) -> (r: bool)
        ensures
            (final(self)@, r) == old(self)@.observe(response@),
    {
        proof {
            reveal_strlit("OK:disconnected");
            reveal_strlit("DENIED:");
        }
        if !is_text(response, "OK:disconnected") && !begins_with(response, "DENIED:") {
            return false;
        }
        if !self.active || self.completed {
            return false;
        }
        self.completed = true;
        true
    }

    pub fn control_streams(&self) -> (r: Vec<u64>)
        ensures
            r@ == self@.control_streams(),
    {
        let mut ordered: Vec<ControlStream> = Vec::new();
        let mut i: usize = 0;
        while i < self.streams.len()
            invariant
                i <= self.streams@.len(),
                ordered@ == by_activity(self.streams@.take(i as int)),
            decreases self.streams@.len() - i,
        {
            assert(self.streams@.take(i + 1).drop_last() =~= self.streams@.take(i as int));
            place(&mut ordered, self.streams[i]);
            i = i + 1;
        }
        assert(self.streams@.take(i as int) =~= self.streams@);
        let mut r: Vec<u64> = Vec::new();
        let mut k: usize = 0;
        while k < ordered.len()
            invariant
                k <= ordered@.len(),
                r@ == ids(ordered@).take(k as int),
            decreases ordered@.len() - k,
        {
            r.push(ordered[k].incarnation_id);
            k = k + 1;
            assert(r@ =~= ids(ordered@).take(k as int));
        }
        assert(r@ =~= ids(ordered@));
        r
    }

    pub fn complete(&mut self)
        ensures
            final(self)@ == old(self)@.complete(),
    {
        self.completed = true;
    }

    pub fn is_completed(&self) -> (r: bool)
        ensures
            r == self@.completed,
    {
        self.completed
    }

    /// A session has ended.
    pub fn unregister(&mut self, incarnation_id: u64)
        ensures
            final(self)@ == old(self)@.unregister(incarnation_id),
    {
        let mut kept: Vec<ControlStream> = Vec::new();
        let mut i: usize = 0;
        while i < self.streams.len()
            invariant
                i <= self.streams@.len(),
                kept@ == without(self.streams@.take(i as int), incarnation_id),
            decreases self.streams@.len() - i,
        {
            assert(self.streams@.take(i + 1).drop_last() =~= self.streams@.take(i as int));
            if self.streams[i].incarnation_id != incarnation_id {
                kept.push(self.streams[i]);
            }
            i = i + 1;
        }
        assert(self.streams@.take(i as int) =~= self.streams@);
        self.streams = kept;
    }
}

proof fn lemma_placed_at(ordered: Seq<ControlStream>, stream: ControlStream, at: int)
    requires
        0 <= at <= ordered.len(),
        forall|k: int| 0 <= k < at ==> !precedes(stream, #[trigger] ordered[k]),
        at < ordered.len() ==> precedes(stream, ordered[at]),
    ensures
        placed(ordered, stream) == ordered.insert(at, stream),
    decreases ordered.len(),
{
    if at == 0 {
        assert(placed(ordered, stream) =~= ordered.insert(at, stream));
    } else {
        let rest = ordered.skip(1);
        assert forall|k: int| 0 <= k < at - 1 implies !precedes(stream, #[trigger] rest[k]) by {
            assert(rest[k] == ordered[k + 1]);
        }
        lemma_placed_at(rest, stream, at - 1);
        assert(!precedes(stream, ordered[0]));
        assert(placed(ordered, stream) =~= ordered.insert(at, stream));
    }
}

fn place(ordered: &mut Vec<ControlStream>, stream: ControlStream)
    ensures
        final(ordered)@ == placed(old(ordered)@, stream),
{
    let ghost before = ordered@;
    let mut at: usize = 0;
    while at < ordered.len()
        invariant_except_break
            at <= ordered@.len(),
            ordered@ == before,
            forall|k: int| 0 <= k < at ==> !precedes(stream, #[trigger] before[k]),
        ensures
            at <= ordered@.len(),
            ordered@ == before,
            forall|k: int| 0 <= k < at ==> !precedes(stream, #[trigger] before[k]),
            at < before.len() ==> precedes(stream, before[at as int]),
        decreases ordered@.len() - at,
    {
        let other = ordered[at];
        if stream.activity > other.activity || (stream.activity == other.activity
            && stream.incarnation_id > other.incarnation_id) {
            break;
        }
        at = at + 1;
    }
    ordered.insert(at, stream);
    proof {
        lemma_placed_at(before, stream, at as int);
    }
}

/// What asks the server to let a device go.
pub open spec fn disconnect_text(device_id: Seq<char>, salt: Seq<char>) -> Seq<char> {
    "DISCONNECT:"@ + device_id + "|"@ + salt
}

pub fn disconnect_request(device_id: &str, salt: &str) -> (r: Vec<u8>)
    ensures
        r@ == encode_utf8(disconnect_text(device_id@, salt@)),
{
    let mut out: Vec<char> = Vec::new();
    push_text(&mut out, "DISCONNECT:");
    push_text(&mut out, device_id);
    push_text(&mut out, "|");
    push_text(&mut out, salt);
    assert(out@ =~= disconnect_text(device_id@, salt@));
    utf8_of(&out)
}

proof fn lemma_placed_sorted(ordered: Seq<ControlStream>, stream: ControlStream)
    requires
        forall|i: int, j: int|
            0 <= i < j < ordered.len() ==> !precedes(#[trigger] ordered[j], #[trigger] ordered[i]),
    ensures
        placed(ordered, stream).to_multiset() == ordered.to_multiset().insert(stream),
        placed(ordered, stream).len() == ordered.len() + 1,
        forall|i: int, j: int|
            0 <= i < j < placed(ordered, stream).len() ==> !precedes(
                #[trigger] placed(ordered, stream)[j],
                #[trigger] placed(ordered, stream)[i],
            ),
    decreases ordered.len(),
{
    broadcast use vstd::seq_lib::group_to_multiset_ensures;

    let at = choose_place(ordered, stream);
    lemma_placed_at(ordered, stream, at);
    let all = ordered.insert(at, stream);
    assert forall|i: int, j: int| 0 <= i < j < all.len() implies !precedes(
        #[trigger] all[j],
        #[trigger] all[i],
    ) by {
        if i < at && at < j {
            assert(all[i] == ordered[i]);
            assert(all[j] == ordered[j - 1]);
        } else if j < at {
            assert(all[i] == ordered[i]);
            assert(all[j] == ordered[j]);
        } else if j == at {
            assert(all[i] == ordered[i]);
        } else if i == at {
            assert(all[j] == ordered[j - 1]);
            if j - 1 > at {
                assert(!precedes(ordered[j - 1], ordered[at]));
            }
        } else {
            assert(all[i] == ordered[i - 1]);
            assert(all[j] == ordered[j - 1]);
        }
    }
    assert(all.to_multiset() =~= ordered.to_multiset().insert(stream)) by {
        assert(all.remove(at) =~= ordered);
        assert(all[at] == stream);
        assert(all.contains(stream));
        vstd::seq_lib::to_multiset_remove(all, at);
    }
}

proof fn choose_place(ordered: Seq<ControlStream>, stream: ControlStream) -> (at: int)
    ensures
        0 <= at <= ordered.len(),
        forall|k: int| 0 <= k < at ==> !precedes(stream, #[trigger] ordered[k]),
        at < ordered.len() ==> precedes(stream, ordered[at]),
    decreases ordered.len(),
{
    if ordered.len() == 0 || precedes(stream, ordered[0]) {
        0
    } else {
        let rest = ordered.skip(1);
        let at = choose_place(rest, stream);
        assert forall|k: int| 0 <= k < at + 1 implies !precedes(stream, #[trigger] ordered[k]) by {
            if k > 0 {
                assert(ordered[k] == rest[k - 1]);
            }
        }
        at + 1
    }
}

/// The order of the streams is one by activity, and no stream is lost or gained
/// by it.
pub proof fn law_most_recent_first(streams: Seq<ControlStream>)
    ensures
        by_activity(streams).to_multiset() == streams.to_multiset(),
        by_activity(streams).len() == streams.len(),
        forall|i: int, j: int|
            0 <= i < j < streams.len() ==> !precedes(
                #[trigger] by_activity(streams)[j],
                #[trigger] by_activity(streams)[i],
            ),
    decreases streams.len(),
{
    broadcast use vstd::seq_lib::group_to_multiset_ensures;

    if streams.len() == 0 {
        assert(by_activity(streams) =~= streams);
    } else {
        law_most_recent_first(streams.drop_last());
        lemma_placed_sorted(by_activity(streams.drop_last()), streams.last());
        assert(streams =~= streams.drop_last().push(streams.last()));
    }
}

/// There is one leader, however many sessions ask.
pub proof fn law_one_leader(model: ShutdownModel)
    ensures
        model.begin().0.active,
        !model.begin().0.begin().1,
        model.begin().0.begin().0 == model.begin().0,
        model.begin().1 == !model.active,
{
}

/// The farewell counts once, and only while leave is being taken.
pub proof fn law_farewell_counts_once(model: ShutdownModel, first: Seq<u8>, second: Seq<u8>)
    ensures
        model.observe(first).1 ==> model.active && !model.observe(first).0.observe(second).1,
        model.observe(first).1 ==> model.observe(first).0.completed,
        !model.observe(first).1 ==> model.observe(first).0 == model,
{
}

proof fn lemma_without(streams: Seq<ControlStream>, incarnation_id: u64)
    ensures
        forall|i: int|
            0 <= i < without(streams, incarnation_id).len() ==> (#[trigger] without(
                streams,
                incarnation_id,
            )[i]).incarnation_id != incarnation_id,
    decreases streams.len(),
{
    if streams.len() > 0 {
        let rest = without(streams.drop_last(), incarnation_id);
        let all = without(streams, incarnation_id);
        lemma_without(streams.drop_last(), incarnation_id);
        assert forall|i: int| 0 <= i < all.len() implies (#[trigger] all[i]).incarnation_id
            != incarnation_id by {
            if i < rest.len() {
                assert(all[i] == rest[i]);
            }
        }
    }
}

/// A session that has ended is not spoken through.
pub proof fn law_ended_session_is_not_used(model: ShutdownModel, incarnation_id: u64)
    ensures
        !model.unregister(incarnation_id).control_streams().contains(incarnation_id),
        !model.unregister(incarnation_id).targets().contains(incarnation_id),
{
    let left = without(model.streams, incarnation_id);
    lemma_without(model.streams, incarnation_id);
    law_most_recent_first(left);
    let ordered = by_activity(left);
    assert forall|i: int| 0 <= i < ordered.len() implies (#[trigger] ids(ordered)[i])
        != incarnation_id by {
        broadcast use vstd::seq_lib::group_to_multiset_ensures;

        assert(ordered.to_multiset().count(ordered[i]) > 0);
        assert(left.to_multiset().count(ordered[i]) > 0);
        assert(left.contains(ordered[i]));
    }
}

// ---------------------------------------------------------------------------
// Taking leave
// ---------------------------------------------------------------------------

#[derive(Clone, Copy, Debug, PartialEq, Eq, Structural)]
pub enum LeaveStage {
    /// Another session leads.
    Following,
    /// The request is being handed to a stream.
    Sending,
    /// Its answer is waited for.
    Awaiting,
    Over,
}

/// What happens to a session that takes its leave.
#[derive(Clone, Copy, Debug, PartialEq, Eq, Structural)]
pub enum LeaveEvent {
    /// The request was handed over within its time, or not.
    Sent { delivered: bool },
    /// The wait is over, by the answer or by its time.
    Waited,
}

/// What it does next.
#[derive(Clone, Copy, Debug, PartialEq, Eq, Structural)]
pub enum LeaveStep {
    /// The event means nothing here.
    Ignore,
    /// Wait for the leader.
    Follow { timeout_ms: u64 },
    /// Send the request over a stream.
    Send { stream: u64, timeout_ms: u64 },
    /// Wait for the answer.
    AwaitAnswer { timeout_ms: u64 },
    Done,
}

/// A session that takes its leave: the streams that it speaks over, and how many
/// of them it has tried.
pub struct LeaveTaking {
    pub stage: LeaveStage,
    pub targets: Vec<u64>,
    pub tried: usize,
}

#[verifier::ext_equal]
pub struct LeaveModel {
    pub stage: LeaveStage,
    pub targets: Seq<u64>,
    pub tried: nat,
}

impl View for LeaveTaking {
    type V = LeaveModel;

    open spec fn view(&self) -> LeaveModel {
        LeaveModel { stage: self.stage, targets: self.targets@, tried: self.tried as nat }
    }
}

/// What a step makes of a session that takes its leave, and of what it shares
/// with the others.
#[verifier::ext_equal]
pub struct LeaveCourse {
    pub leave: LeaveModel,
    pub shared: ShutdownModel,
    pub step: LeaveStep,
}

impl LeaveModel {
    pub open spec fn wf(self) -> bool {
        self.tried <= self.targets.len()
    }

    /// The next stream is spoken over; where the answer has come or none is left,
    /// leave is taken.
    pub open spec fn go_on(self, shared: ShutdownModel) -> LeaveCourse {
        if shared.completed || self.tried >= self.targets.len() {
            LeaveCourse {
                leave: LeaveModel { stage: LeaveStage::Over, ..self },
                shared: shared.complete(),
                step: LeaveStep::Done,
            }
        } else {
            LeaveCourse {
                leave: LeaveModel {
                    stage: LeaveStage::Sending,
                    tried: self.tried + 1,
                    ..self
                },
                shared,
                step: LeaveStep::Send {
                    stream: self.targets[self.tried as int],
                    timeout_ms: DISCONNECT_SEND_TIMEOUT_MS,
                },
            }
        }
    }

    /// The first session to ask leads, the others follow.
    pub open spec fn begun(shared: ShutdownModel) -> LeaveCourse {
        let (next, leads) = shared.begin();
        if leads {
            (LeaveModel {
                stage: LeaveStage::Sending,
                targets: next.targets(),
                tried: 0,
            }).go_on(next)
        } else {
            LeaveCourse {
                leave: LeaveModel {
                    stage: LeaveStage::Following,
                    targets: Seq::empty(),
                    tried: 0,
                },
                shared: next,
                step: LeaveStep::Follow { timeout_ms: DISCONNECT_FOLLOW_TIMEOUT_MS },
            }
        }
    }

    /// A request that was not handed over, or not answered, goes out over the next
    /// stream.
    pub open spec fn course(self, shared: ShutdownModel, event: LeaveEvent) -> LeaveCourse {
        match (self.stage, event) {
            (LeaveStage::Following, LeaveEvent::Waited) => LeaveCourse {
                leave: LeaveModel { stage: LeaveStage::Over, ..self },
                shared,
                step: LeaveStep::Done,
            },
            (LeaveStage::Sending, LeaveEvent::Sent { delivered }) => if delivered {
                LeaveCourse {
                    leave: LeaveModel { stage: LeaveStage::Awaiting, ..self },
                    shared,
                    step: LeaveStep::AwaitAnswer { timeout_ms: DISCONNECT_ACK_TIMEOUT_MS },
                }
            } else {
                self.go_on(shared)
            },
            (LeaveStage::Awaiting, LeaveEvent::Waited) => self.go_on(shared),
            _ => LeaveCourse { leave: self, shared, step: LeaveStep::Ignore },
        }
    }

    /// What a leader may still have to do.
    pub open spec fn ahead(self) -> nat {
        match self.stage {
            LeaveStage::Over => 0,
            LeaveStage::Following | LeaveStage::Awaiting => (1 + 2 * (self.targets.len()
                - self.tried)) as nat,
            LeaveStage::Sending => (2 + 2 * (self.targets.len() - self.tried)) as nat,
        }
    }
}

impl LeaveTaking {
    fn go_on(&mut self, shared: &mut ShutdownCoordinator) -> (r: LeaveStep)
        requires
            old(self)@.wf(),
        ensures
            final(self)@.wf(),
            (LeaveCourse { leave: final(self)@, shared: final(shared)@, step: r }) == old(
                self,
            )@.go_on(old(shared)@),
    {
        match shared.next_target(&self.targets, self.tried) {
            Some(stream) => {
                self.stage = LeaveStage::Sending;
                self.tried = self.tried + 1;
                LeaveStep::Send { stream, timeout_ms: DISCONNECT_SEND_TIMEOUT_MS }
            },
            None => {
                self.stage = LeaveStage::Over;
                shared.complete();
                LeaveStep::Done
            },
        }
    }

    /// A session begins to take its leave.
    pub fn begin(shared: &mut ShutdownCoordinator) -> (r: (LeaveTaking, LeaveStep))
        ensures
            r.0@.wf(),
            (LeaveCourse { leave: r.0@, shared: final(shared)@, step: r.1 }) == LeaveModel::begun(
                old(shared)@,
            ),
    {
        if shared.begin_disconnect() {
            let targets = shared.disconnect_targets();
            let mut leave = LeaveTaking { stage: LeaveStage::Sending, targets, tried: 0 };
            let step = leave.go_on(shared);
            (leave, step)
        } else {
            let leave = LeaveTaking {
                stage: LeaveStage::Following,
                targets: Vec::new(),
                tried: 0,
            };
            assert(leave@.targets =~= Seq::empty());
            (leave, LeaveStep::Follow { timeout_ms: DISCONNECT_FOLLOW_TIMEOUT_MS })
        }
    }

    /// Takes an event in.
    pub fn step(&mut self, shared: &mut ShutdownCoordinator, event: LeaveEvent) -> (r: LeaveStep)
        requires
            old(self)@.wf(),
        ensures
            final(self)@.wf(),
            (LeaveCourse { leave: final(self)@, shared: final(shared)@, step: r }) == old(
                self,
            )@.course(old(shared)@, event),
    {
        match (self.stage, event) {
            (LeaveStage::Following, LeaveEvent::Waited) => {
                self.stage = LeaveStage::Over;
                LeaveStep::Done
            },
            (LeaveStage::Sending, LeaveEvent::Sent { delivered }) => {
                if delivered {
                    self.stage = LeaveStage::Awaiting;
                    LeaveStep::AwaitAnswer { timeout_ms: DISCONNECT_ACK_TIMEOUT_MS }
                } else {
                    self.go_on(shared)
                }
            },
            (LeaveStage::Awaiting, LeaveEvent::Waited) => self.go_on(shared),
            _ => LeaveStep::Ignore,
        }
    }
}

/// Leave-taking ends: each event that a leader waited for leaves it less to do,
/// and when it is done the leave is taken, for the sessions that follow it too.
pub proof fn law_leave_taking_ends(leave: LeaveModel, shared: ShutdownModel, event: LeaveEvent)
    requires
        leave.wf(),
        leave.stage is Sending || leave.stage is Awaiting,
    ensures
        ({
            let after = leave.course(shared, event);
            &&& after.leave.wf()
            &&& after.step is Ignore || after.leave.ahead() < leave.ahead()
            &&& after.step is Done ==> after.leave.stage is Over && after.shared.completed
            &&& after.step is Done || after.shared == shared
        }),
{
}

/// A stream that did not take the request, or over which no answer came in time,
/// is followed by the next one, and no stream is spoken over once the answer has
/// come. No more than two streams are spoken over.
pub proof fn law_next_stream_is_tried(leave: LeaveModel, shared: ShutdownModel)
    requires
        leave.wf(),
        leave.stage is Sending || leave.stage is Awaiting,
    ensures
        ({
            let event = if leave.stage is Sending {
                LeaveEvent::Sent { delivered: false }
            } else {
                LeaveEvent::Waited
            };
            let after = leave.course(shared, event);
            if shared.completed || leave.tried == leave.targets.len() {
                after.step is Done
            } else {
                after.step == (LeaveStep::Send {
                    stream: leave.targets[leave.tried as int],
                    timeout_ms: DISCONNECT_SEND_TIMEOUT_MS,
                })
            }
        }),
        shared.targets().len() <= DISCONNECT_CONTROL_ATTEMPTS,
        LeaveModel::begun(shared).leave.targets.len() <= DISCONNECT_CONTROL_ATTEMPTS,
{
}

} // verus!
