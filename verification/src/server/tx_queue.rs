//! Packets that wait to be sent, in a fixed number of slots: the most urgent
//! class goes first, and in each class what came first.

use vstd::prelude::*;
use std::collections::VecDeque;
use crate::shared::striped_scheduler::PacketClass;

verus! {

/// The free slots, and what waits in each class, the oldest first.
#[verifier::ext_equal]
pub struct TxModel<T> {
    pub free: nat,
    pub latency: Seq<T>,
    pub priority: Seq<T>,
    pub bulk: Seq<T>,
}

impl<T> TxModel<T> {
    pub open spec fn lane(self, class: PacketClass) -> Seq<T> {
        match class {
            PacketClass::Small => self.latency,
            PacketClass::Medium => self.priority,
            PacketClass::Bulk => self.bulk,
        }
    }

    pub open spec fn with_lane(self, class: PacketClass, lane: Seq<T>) -> TxModel<T> {
        match class {
            PacketClass::Small => TxModel { latency: lane, ..self },
            PacketClass::Medium => TxModel { priority: lane, ..self },
            PacketClass::Bulk => TxModel { bulk: lane, ..self },
        }
    }

    pub open spec fn pending(self) -> nat {
        self.latency.len() + self.priority.len() + self.bulk.len()
    }

    /// The slots there are.
    pub open spec fn capacity(self) -> nat {
        self.free + self.pending()
    }

    /// The class whose turn it is.
    pub open spec fn urgent(self) -> PacketClass {
        if self.latency.len() > 0 {
            PacketClass::Small
        } else if self.priority.len() > 0 {
            PacketClass::Medium
        } else {
            PacketClass::Bulk
        }
    }

    /// What is sent next.
    pub open spec fn next(self) -> Option<T> {
        if self.lane(self.urgent()).len() > 0 {
            Some(self.lane(self.urgent())[0])
        } else {
            None
        }
    }

    pub open spec fn offer(self, item: T, class: PacketClass) -> TxModel<T> {
        if self.free == 0 {
            self
        } else {
            TxModel { free: (self.free - 1) as nat, ..self }.with_lane(
                class,
                self.lane(class).push(item),
            )
        }
    }

    pub open spec fn pop(self) -> TxModel<T> {
        if self.next() is None {
            self
        } else {
            TxModel { free: self.free + 1, ..self }.with_lane(
                self.urgent(),
                self.lane(self.urgent()).skip(1),
            )
        }
    }

    /// What is sent in one go: packets of the class whose turn it is.
    pub open spec fn batch_len(self, limit: nat) -> nat {
        let lane = self.lane(self.urgent());
        if lane.len() < limit {
            lane.len()
        } else {
            limit
        }
    }
}

pub struct TxQueue<T> {
    slots: Vec<Option<T>>,
    free: VecDeque<usize>,
    latency: VecDeque<usize>,
    priority: VecDeque<usize>,
    bulk: VecDeque<usize>,
}

spec fn items<T>(slots: Seq<Option<T>>, ids: Seq<usize>) -> Seq<T> {
    Seq::new(ids.len(), |i: int| slots[ids[i] as int]->0)
}

spec fn filled<T>(slots: Seq<Option<T>>, ids: Seq<usize>) -> bool {
    forall|i: int| 0 <= i < ids.len() ==> slots[#[trigger] ids[i] as int] is Some
}

proof fn lemma_move_back(x: usize, middle: Seq<usize>, rest: Seq<usize>)
    requires
        (seq![x] + middle + rest).no_duplicates(),
    ensures
        (middle + seq![x] + rest).no_duplicates(),
{
    let before = seq![x] + middle + rest;
    let after = middle + seq![x] + rest;
    let m = middle.len() as int;
    assert forall|i: int, j: int|
        0 <= i < after.len() && 0 <= j < after.len() && i != j implies after[i] != after[j] by {
        let a = if i < m {
            i + 1
        } else if i == m {
            0
        } else {
            i
        };
        let b = if j < m {
            j + 1
        } else if j == m {
            0
        } else {
            j
        };
        assert(after[i] == before[a]);
        assert(after[j] == before[b]);
    }
}

impl<T> View for TxQueue<T> {
    type V = TxModel<T>;

    closed spec fn view(&self) -> TxModel<T> {
        TxModel {
            free: self.free@.len(),
            latency: items(self.slots@, self.latency@),
            priority: items(self.slots@, self.priority@),
            bulk: items(self.slots@, self.bulk@),
        }
    }
}

impl<T> TxQueue<T> {
    spec fn ids(&self) -> Seq<usize> {
        self.free@ + self.latency@ + self.priority@ + self.bulk@
    }

    /// Every slot is in exactly one place, and those that wait are filled.
    pub closed spec fn wf(&self) -> bool {
        &&& self.ids().no_duplicates()
        &&& self.ids().len() == self.slots@.len()
        &&& forall|i: int| 0 <= i < self.ids().len() ==> #[trigger] self.ids()[i] < self.slots@.len()
        &&& filled(self.slots@, self.latency@)
        &&& filled(self.slots@, self.priority@)
        &&& filled(self.slots@, self.bulk@)
    }

    pub fn new(capacity: usize) -> (r: TxQueue<T>)
        ensures
            r.wf(),
            r@.free == capacity,
            r@.pending() == 0,
    {
        let mut slots: Vec<Option<T>> = Vec::new();
        let mut free: VecDeque<usize> = VecDeque::new();
        let mut i: usize = 0;
        while i < capacity
            invariant
                i <= capacity,
                slots@.len() == i,
                free@.len() == i,
                forall|k: int| 0 <= k < i ==> #[trigger] free@[k] == k,
            decreases capacity - i,
        {
            slots.push(None);
            free.push_back(i);
            i = i + 1;
        }
        let r = TxQueue {
            slots,
            free,
            latency: VecDeque::new(),
            priority: VecDeque::new(),
            bulk: VecDeque::new(),
        };
        assert(r.ids() =~= r.free@);
        r
    }

    pub fn has_free(&self) -> (r: bool)
        ensures
            r == (self@.free > 0),
    {
        self.free.len() > 0
    }

    pub fn free_len(&self) -> (r: usize)
        ensures
            r == self@.free,
    {
        self.free.len()
    }

    pub fn pending_len(&self) -> (r: usize)
        requires
            self.wf(),
        ensures
            r == self@.pending(),
    {
        let size: usize = self.slots.len();
        assert(self.ids().len() == size);
        self.latency.len() + self.priority.len() + self.bulk.len()
    }

    /// Takes a packet into a free slot, or gives it back.
    pub fn offer(&mut self, item: T, class: PacketClass) -> (r: Result<(), T>)
        requires
            old(self).wf(),
        ensures
            final(self).wf(),
            final(self)@ == old(self)@.offer(item, class),
            match r {
                Ok(()) => old(self)@.free > 0,
                Err(back) => old(self)@.free == 0 && back == item,
            },
    {
        let ghost before = *self;
        let id: usize = match self.free.pop_front() {
            Some(id) => id,
            None => {
                return Err(item);
            },
        };
        let ghost rest = before.free@.skip(1);
        let ghost f = before.free@.len() as int;
        let ghost l = before.latency@.len() as int;
        let ghost p = before.priority@.len() as int;
        assert(before.ids()[0] == id);
        assert forall|i: int| 0 <= i < before.latency@.len() implies
            #[trigger] before.latency@[i] != id && before.latency@[i] < before.slots@.len() by {
            assert(before.ids()[f + i] == before.latency@[i]);
        }
        assert forall|i: int| 0 <= i < before.priority@.len() implies
            #[trigger] before.priority@[i] != id && before.priority@[i] < before.slots@.len() by {
            assert(before.ids()[f + l + i] == before.priority@[i]);
        }
        assert forall|i: int| 0 <= i < before.bulk@.len() implies
            #[trigger] before.bulk@[i] != id && before.bulk@[i] < before.slots@.len() by {
            assert(before.ids()[f + l + p + i] == before.bulk@[i]);
        }
        self.slots[id] = Some(item);
        match class {
            PacketClass::Small => self.latency.push_back(id),
            PacketClass::Medium => self.priority.push_back(id),
            PacketClass::Bulk => self.bulk.push_back(id),
        }
        proof {
            let (middle, last) = match class {
                PacketClass::Small => (
                    rest + before.latency@,
                    before.priority@ + before.bulk@,
                ),
                PacketClass::Medium => (
                    rest + before.latency@ + before.priority@,
                    before.bulk@,
                ),
                PacketClass::Bulk => (
                    rest + before.latency@ + before.priority@ + before.bulk@,
                    Seq::<usize>::empty(),
                ),
            };
            assert(before.ids() =~= seq![id] + middle + last);
            lemma_move_back(id, middle, last);
            assert(self.ids() =~= middle + seq![id] + last);
            assert forall|i: int| 0 <= i < self.ids().len() implies #[trigger] self.ids()[i]
                < self.slots@.len() by {
                let m = middle.len() as int;
                if i < m {
                    assert(self.ids()[i] == before.ids()[i + 1]);
                } else if i == m {
                    assert(self.ids()[i] == before.ids()[0]);
                } else {
                    assert(self.ids()[i] == before.ids()[i]);
                }
            }
        }
        assert(self@ =~= before@.offer(item, class));
        Ok(())
    }

    fn front_id(&self) -> (r: Option<usize>)
        requires
            self.wf(),
        ensures
            match r {
                Some(id) => {
                    &&& id < self.slots@.len()
                    &&& self.ids()[self.free@.len() as int] == id
                    &&& self.slots@[id as int] is Some
                    &&& self@.next() == Some(self.slots@[id as int]->0)
                },
                None => self@.next() is None,
            },
    {
        let ghost f = self.free@.len() as int;
        if self.latency.len() > 0 {
            assert(self.ids()[f] == self.latency@[0]);
            return Some(self.latency[0]);
        }
        if self.priority.len() > 0 {
            assert(self.ids()[f] == self.priority@[0]);
            return Some(self.priority[0]);
        }
        if self.bulk.len() > 0 {
            assert(self.ids()[f] == self.bulk@[0]);
            return Some(self.bulk[0]);
        }
        None
    }

    /// What is sent next.
    pub fn front(&self) -> (r: Option<&T>)
        requires
            self.wf(),
        ensures
            match r {
                Some(item) => self@.next() == Some(*item),
                None => self@.next() is None,
            },
    {
        match self.front_id() {
            Some(id) => self.slots[id].as_ref(),
            None => None,
        }
    }

    /// What is sent at the given place of the next batch.
    pub fn peek(&self, index: usize) -> (r: Option<&T>)
        requires
            self.wf(),
        ensures
            match r {
                Some(item) => {
                    &&& index < self@.lane(self@.urgent()).len()
                    &&& *item == self@.lane(self@.urgent())[index as int]
                },
                None => index >= self@.lane(self@.urgent()).len(),
            },
    {
        let ghost f = self.free@.len() as int;
        if self.latency.len() > 0 {
            if index >= self.latency.len() {
                return None;
            }
            assert(self.ids()[f + index] == self.latency@[index as int]);
            return self.slots[self.latency[index]].as_ref();
        }
        if self.priority.len() > 0 {
            if index >= self.priority.len() {
                return None;
            }
            assert(self.ids()[f + index] == self.priority@[index as int]);
            return self.slots[self.priority[index]].as_ref();
        }
        if index >= self.bulk.len() {
            return None;
        }
        assert(self.ids()[f + index] == self.bulk@[index as int]);
        self.slots[self.bulk[index]].as_ref()
    }

    /// How much is sent in one go.
    pub fn batch_len(&self, limit: usize) -> (r: usize)
        ensures
            r == self@.batch_len(limit as nat),
    {
        let waiting: usize = if self.latency.len() > 0 {
            self.latency.len()
        } else if self.priority.len() > 0 {
            self.priority.len()
        } else {
            self.bulk.len()
        };
        if waiting < limit {
            waiting
        } else {
            limit
        }
    }

    /// The class whose turn it is.
    pub fn urgent(&self) -> (r: PacketClass)
        ensures
            r == self@.urgent(),
    {
        if self.latency.len() > 0 {
            PacketClass::Small
        } else if self.priority.len() > 0 {
            PacketClass::Medium
        } else {
            PacketClass::Bulk
        }
    }

    /// Takes out what was sent, or cannot be.
    pub fn pop(&mut self) -> (r: Option<T>)
        requires
            old(self).wf(),
        ensures
            final(self).wf(),
            r == old(self)@.next(),
            final(self)@ == old(self)@.pop(),
    {
        let ghost before = *self;
        let id: usize = match self.front_id() {
            Some(id) => id,
            None => {
                return None;
            },
        };
        if self.latency.len() > 0 {
            let _ = self.latency.pop_front();
        } else if self.priority.len() > 0 {
            let _ = self.priority.pop_front();
        } else {
            let _ = self.bulk.pop_front();
        }
        self.free.push_back(id);
        let item = self.slots[id].take();
        proof {
            let f = before.free@.len() as int;
            let l = self.latency@.len() as int;
            let p = self.priority@.len() as int;
            assert(self.ids() =~= before.ids());
            assert forall|i: int| 0 <= i < self.latency@.len() implies
            #[trigger] self.latency@[i] != id && self.latency@[i] < self.slots@.len() by {
                assert(self.ids()[f + 1 + i] == self.latency@[i]);
            }
            assert forall|i: int| 0 <= i < self.priority@.len() implies
            #[trigger] self.priority@[i] != id && self.priority@[i] < self.slots@.len() by {
                assert(self.ids()[f + 1 + l + i] == self.priority@[i]);
            }
            assert forall|i: int| 0 <= i < self.bulk@.len() implies
            #[trigger] self.bulk@[i] != id && self.bulk@[i] < self.slots@.len() by {
                assert(self.ids()[f + 1 + l + p + i] == self.bulk@[i]);
            }
        }
        assert(self@ =~= before@.pop());
        item
    }
}

/// No slot is ever lost or gained.
pub proof fn law_slots_are_conserved<T>(queue: TxModel<T>, item: T, class: PacketClass)
    ensures
        queue.offer(item, class).capacity() == queue.capacity(),
        queue.pop().capacity() == queue.capacity(),
        queue.free > 0 ==> queue.offer(item, class).pending() == queue.pending() + 1,
        queue.next() is None <==> queue.pending() == 0,
{
}

/// In its class a packet keeps its place: what is taken in goes behind what
/// waits, and what leaves is what came first.
pub proof fn law_class_keeps_its_order<T>(queue: TxModel<T>, item: T, class: PacketClass)
    requires
        queue.free > 0,
    ensures
        queue.offer(item, class).lane(class) == queue.lane(class).push(item),
        queue.pending() > 0 ==> queue.pop().lane(queue.urgent()) == queue.lane(
            queue.urgent(),
        ).skip(1),
        forall|other: PacketClass|
            other != queue.urgent() ==> #[trigger] queue.pop().lane(other) == queue.lane(other),
{
}

} // verus!
