//! The window that lets every packet counter through once.

use vstd::prelude::*;

verus! {

/// The number of counters that the window reaches back, the highest included.
pub const WINDOW: u64 = 16384;

/// What a window knows: the highest counter that it let through, and which of
/// the counters in reach it let through.
#[verifier::ext_equal]
pub struct ReplayModel {
    pub highest: Option<u64>,
    pub seen: Set<u64>,
}

impl ReplayModel {
    /// A counter is let through unless it lies too far back or was let through
    /// before; a counter above the highest moves the window.
    pub open spec fn accept(self, counter: u64) -> (ReplayModel, bool) {
        match self.highest {
            None => (
                ReplayModel { highest: Some(counter), seen: set![counter] },
                true,
            ),
            Some(highest) => if counter > highest {
                (
                    ReplayModel {
                        highest: Some(counter),
                        seen: self.seen.filter(|c: u64| counter - c < WINDOW).insert(counter),
                    },
                    true,
                )
            } else if highest - counter >= WINDOW || self.seen.contains(counter) {
                (self, false)
            } else {
                (ReplayModel { seen: self.seen.insert(counter), ..self }, true)
            },
        }
    }

    /// The counters that a sequence number of sixteen bits stands for.
    pub open spec fn accept_rtp(self, sequence: u16) -> (ReplayModel, bool) {
        match self.highest {
            None => self.accept(sequence as u64),
            Some(highest) => self.accept(extend(highest, sequence)),
        }
    }

    /// Everything seen lies in the window.
    pub open spec fn wf(self) -> bool {
        &&& self.highest is None ==> self.seen == Set::<u64>::empty()
        &&& forall|c: u64|
            self.seen.contains(c) ==> self.highest is Some && c <= self.highest->0
                && self.highest->0 - c < WINDOW
    }
}

pub open spec fn capped_sum(a: int, b: int) -> int {
    if a + b > u64::MAX {
        u64::MAX as int
    } else {
        a + b
    }
}

/// The counter that a sequence number stands for next to the highest counter:
/// the one with these low sixteen bits in the same block of 65536, or the one a
/// block later or earlier where that is nearer.
pub open spec fn extend(highest: u64, sequence: u16) -> u64 {
    let current = highest - highest % 0x1_0000 + sequence;
    if capped_sum(current, 0x8000) < highest {
        capped_sum(current, 0x1_0000) as u64
    } else if current > capped_sum(highest as int, 0x8000) && current >= 0x1_0000 {
        (current - 0x1_0000) as u64
    } else {
        current as u64
    }
}

/// Bit `counter % WINDOW` of the words.
pub open spec fn bit_of(words: Seq<u64>, counter: int) -> bool {
    words[counter % 16384 / 64] & (1u64 << ((counter % 16384 % 64) as u64)) != 0
}

/// The window, one bit per counter.
pub struct ReplayWindow {
    pub highest: Option<u64>,
    pub seen: Box<[u64; 256]>,
}

impl View for ReplayWindow {
    type V = ReplayModel;

    open spec fn view(&self) -> ReplayModel {
        ReplayModel {
            highest: self.highest,
            seen: Set::new(
                |c: u64|
                    self.highest is Some && c <= self.highest->0 && self.highest->0 - c < WINDOW
                        && bit_of(self.seen@, c as int),
            ),
        }
    }
}

impl Default for ReplayWindow {
    fn default() -> (r: ReplayWindow)
        ensures
            r.wf(),
            r@ == (ReplayModel { highest: None, seen: Set::<u64>::empty() }),
    {
        let r = ReplayWindow { highest: None, seen: Box::new([0; 256]) };
        assert(r@.seen =~= Set::<u64>::empty());
        r
    }
}

proof fn lemma_set_bit(w: u64, b: u64, c: u64)
    requires
        b < 64,
        c < 64,
    ensures
        ((w | (1u64 << b)) & (1u64 << c) != 0) == (b == c || w & (1u64 << c) != 0),
{
    assert(((w | (1u64 << b)) & (1u64 << c) != 0) == (b == c || w & (1u64 << c) != 0))
        by (bit_vector)
        requires
            b < 64,
            c < 64,
    ;
}

proof fn lemma_clear_bit(w: u64, b: u64, c: u64)
    requires
        b < 64,
        c < 64,
    ensures
        ((w & !(1u64 << b)) & (1u64 << c) != 0) == (b != c && w & (1u64 << c) != 0),
{
    assert(((w & !(1u64 << b)) & (1u64 << c) != 0) == (b != c && w & (1u64 << c) != 0))
        by (bit_vector)
        requires
            b < 64,
            c < 64,
    ;
}

proof fn lemma_zero_word(c: u64)
    ensures
        0u64 & (1u64 << c) == 0,
{
    assert(0u64 & (1u64 << c) == 0) by (bit_vector);
}

/// No bit is set in words of zero.
proof fn lemma_no_bits(words: Seq<u64>)
    requires
        words.len() == 256,
        forall|i: int| 0 <= i < 256 ==> words[i] == 0,
    ensures
        forall|c: int| !#[trigger] bit_of(words, c),
{
    assert forall|c: int| !#[trigger] bit_of(words, c) by {
        lemma_zero_word((c % 16384 % 64) as u64);
    }
}

impl ReplayWindow {
    /// Nothing is set before the first counter.
    pub open spec fn wf(&self) -> bool {
        self.highest is None ==> forall|i: int| 0 <= i < 256 ==> self.seen@[i] == 0
    }

    fn set_bit(&mut self, counter: u64)
        ensures
            final(self).highest == old(self).highest,
            forall|c: int|
                #[trigger] bit_of(final(self).seen@, c) == (c % 16384 == counter % 16384
                    || bit_of(old(self).seen@, c)),
    {
        let idx: usize = (counter % 16384) as usize;
        let ghost before = self.seen@;
        let w: u64 = self.seen[idx / 64];
        let b: u64 = (idx % 64) as u64;
        self.seen[idx / 64] = w | (1u64 << b);
        assert forall|c: int|
            #[trigger] bit_of(self.seen@, c) == (c % 16384 == counter % 16384 || bit_of(
                before,
                c,
            )) by {
            lemma_set_bit(w, b, (c % 16384 % 64) as u64);
        }
    }

    fn clear_bit(&mut self, counter: u64)
        ensures
            final(self).highest == old(self).highest,
            forall|c: int|
                #[trigger] bit_of(final(self).seen@, c) == (c % 16384 != counter % 16384
                    && bit_of(old(self).seen@, c)),
    {
        let idx: usize = (counter % 16384) as usize;
        let ghost before = self.seen@;
        let w: u64 = self.seen[idx / 64];
        let b: u64 = (idx % 64) as u64;
        self.seen[idx / 64] = w & !(1u64 << b);
        assert forall|c: int|
            #[trigger] bit_of(self.seen@, c) == (c % 16384 != counter % 16384 && bit_of(
                before,
                c,
            )) by {
            lemma_clear_bit(w, b, (c % 16384 % 64) as u64);
        }
    }

    fn test_bit(&self, counter: u64) -> (r: bool)
        ensures
            r == bit_of(self.seen@, counter as int),
    {
        let idx: usize = (counter % 16384) as usize;
        self.seen[idx / 64] & (1u64 << ((idx % 64) as u64)) != 0
    }

    /// Lets a counter through, or not.
    pub fn accept(&mut self, counter: u64) -> (r: bool)
        requires
            old(self).wf(),
        ensures
            (final(self)@, r) == old(self)@.accept(counter),
            final(self).wf(),
    {
        let ghost before = self@;
        let highest: u64 = match self.highest {
            Some(highest) => highest,
            None => {
                proof {
                    lemma_no_bits(self.seen@);
                }
                self.highest = Some(counter);
                self.set_bit(counter);
                assert(self@.seen =~= set![counter]) by {
                    assert forall|c: u64| self@.seen.contains(c) == set![counter].contains(c) by {
                        lemma_near(c, counter);
                    }
                }
                return true;
            },
        };
        if counter > highest {
            let shift: u64 = counter - highest;
            if shift >= 16384 {
                self.seen = Box::new([0; 256]);
                proof {
                    lemma_no_bits(self.seen@);
                }
                self.highest = Some(counter);
                self.set_bit(counter);
                assert(self@.seen =~= before.accept(counter).0.seen) by {
                    assert forall|c: u64|
                        self@.seen.contains(c) == before.accept(counter).0.seen.contains(c) by {
                        lemma_near(c, counter);
                    }
                }
                return true;
            }
            let ghost words = self.seen@;
            let mut i: u64 = 1;
            while i <= shift
                invariant
                    1 <= i <= shift + 1,
                    shift < 16384,
                    shift == counter - highest,
                    counter > highest,
                    self.highest == Some(highest),
                    forall|c: int|
                        counter - 16384 < c <= counter ==> #[trigger] bit_of(self.seen@, c) == (
                        !(highest < c < highest + i) && bit_of(words, c)),
                decreases shift + 1 - i,
            {
                let ghost mid = self.seen@;
                self.clear_bit(highest + i);
                assert forall|c: int| counter - 16384 < c <= counter implies #[trigger] bit_of(
                    self.seen@,
                    c,
                ) == (!(highest < c < highest + i + 1) && bit_of(words, c)) by {
                    lemma_span(c, highest + i, counter as int);
                    assert(bit_of(mid, c) == (!(highest < c < highest + i) && bit_of(words, c)));
                }
                i = i + 1;
            }
            self.highest = Some(counter);
            let ghost cleared = self.seen@;
            self.set_bit(counter);
            assert(self@.seen =~= before.accept(counter).0.seen) by {
                assert forall|c: u64|
                    self@.seen.contains(c) == before.accept(counter).0.seen.contains(c) by {
                    if c <= counter && counter - c < 16384 {
                        lemma_span(c as int, counter as int, counter as int);
                        assert(bit_of(cleared, c as int) == (!(highest < c < highest + i)
                            && bit_of(words, c as int)));
                    }
                }
            }
            return true;
        }
        let age: u64 = highest - counter;
        if age >= 16384 {
            return false;
        }
        if self.test_bit(counter) {
            return false;
        }
        self.set_bit(counter);
        assert(self@.seen =~= before.seen.insert(counter)) by {
            assert forall|c: u64|
                self@.seen.contains(c) == before.seen.insert(counter).contains(c) by {
                if c <= highest && highest - c < 16384 {
                    lemma_span(c as int, counter as int, highest as int);
                }
            }
        }
        true
    }

    /// Lets the counter of a sequence number through, or not.
    pub fn accept_rtp(&mut self, sequence: u16) -> (r: bool)
        requires
            old(self).wf(),
        ensures
            (final(self)@, r) == old(self)@.accept_rtp(sequence),
            final(self).wf(),
    {
        let highest: u64 = match self.highest {
            Some(highest) => highest,
            None => {
                return self.accept(sequence as u64);
            },
        };
        let current: u64 = highest - highest % 0x1_0000 + sequence as u64;
        let mut extended: u64 = current;
        if current.saturating_add(0x8000) < highest {
            extended = current.saturating_add(0x1_0000);
        } else if current > highest.saturating_add(0x8000) && current >= 0x1_0000 {
            extended = current - 0x1_0000;
        }
        self.accept(extended)
    }
}

proof fn lemma_near(c: u64, counter: u64)
    ensures
        c <= counter && counter - c < 16384 && c % 16384 == counter % 16384 ==> c == counter,
{
}

/// In a span of one window two counters share a bit only if they are equal.
proof fn lemma_span(a: int, b: int, top: int)
    requires
        top - 16384 < a <= top,
        top - 16384 < b <= top,
    ensures
        a % 16384 == b % 16384 <==> a == b,
{
}

/// A counter that was let through is not let through again, as long as nothing
/// else moved the window: and, once let through, it never is.
pub proof fn law_accepted_once(model: ReplayModel, counter: u64)
    requires
        model.wf(),
        model.accept(counter).1,
    ensures
        !model.accept(counter).0.accept(counter).1,
        model.accept(counter).0.wf(),
{
}

/// The windows that a run of counters leads to.
pub open spec fn after_all(model: ReplayModel, counters: Seq<u64>) -> ReplayModel
    decreases counters.len(),
{
    if counters.len() == 0 {
        model
    } else {
        after_all(model, counters.drop_last()).accept(counters.last()).0
    }
}

/// Whatever comes between, a counter that was let through once is refused ever
/// after.
pub proof fn law_never_replayed(model: ReplayModel, counter: u64, between: Seq<u64>)
    requires
        model.wf(),
        model.accept(counter).1,
    ensures
        !after_all(model.accept(counter).0, between).accept(counter).1,
{
    lemma_stays_seen(model.accept(counter).0, counter, between);
}

proof fn lemma_stays_seen(model: ReplayModel, counter: u64, between: Seq<u64>)
    requires
        model.wf(),
        model.highest is Some,
        counter <= model.highest->0,
        model.highest->0 - counter >= WINDOW || model.seen.contains(counter),
    ensures
        ({
            let last = after_all(model, between);
            &&& last.wf()
            &&& last.highest is Some
            &&& counter <= last.highest->0
            &&& last.highest->0 - counter >= WINDOW || last.seen.contains(counter)
        }),
    decreases between.len(),
{
    if between.len() > 0 {
        lemma_stays_seen(model, counter, between.drop_last());
    }
}

/// The highest counter never falls, and a counter in reach that was not let
/// through yet is let through.
pub proof fn law_window_moves_forward(model: ReplayModel, counter: u64)
    requires
        model.wf(),
        model.highest is Some,
    ensures
        model.accept(counter).0.highest is Some,
        model.accept(counter).0.highest->0 >= model.highest->0,
        counter > model.highest->0 ==> model.accept(counter).1,
        counter <= model.highest->0 && model.highest->0 - counter < WINDOW && !model.seen.contains(
            counter,
        ) ==> model.accept(counter).1,
        counter <= model.highest->0 && model.highest->0 - counter >= WINDOW ==> !model.accept(
            counter,
        ).1,
{
}

/// The counter of a sequence number has its low sixteen bits, and lies within
/// half a block of the highest, away from the ends of the number range.
pub proof fn law_extension_is_nearest(highest: u64, sequence: u16)
    requires
        0x1_0000 <= highest <= u64::MAX - 0x2_0000,
    ensures
        extend(highest, sequence) % 0x1_0000 == sequence,
        -0x8000 <= extend(highest, sequence) - highest <= 0x8000,
{
}

/// The protection of one session against replayed packets.
pub struct ReplayProtection {
    pub rtp: ReplayWindow,
}

impl Default for ReplayProtection {
    fn default() -> (r: ReplayProtection)
        ensures
            r.rtp.wf(),
            r.rtp@ == (ReplayModel { highest: None, seen: Set::<u64>::empty() }),
    {
        ReplayProtection { rtp: ReplayWindow::default() }
    }
}

impl ReplayProtection {
    /// Whether an inbound packet is genuine: it decrypted, to the given sequence
    /// number, and was not seen before. A packet that is not an RTP packet, or
    /// that does not decrypt, gives no number and leaves the window as it was.
    pub fn authenticate_inbound(&mut self, sequence: Option<u16>) -> (r: bool)
        requires
            old(self).rtp.wf(),
        ensures
            final(self).rtp.wf(),
            match sequence {
                Some(s) => (final(self).rtp@, r) == old(self).rtp@.accept_rtp(s),
                None => !r && final(self).rtp@ == old(self).rtp@,
            },
    {
        match sequence {
            Some(s) => self.rtp.accept_rtp(s),
            None => false,
        }
    }
}

} // verus!
