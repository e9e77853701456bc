//! Which packets are sent twice, and how often.

use vstd::prelude::*;
use crate::shared::flow_frame::{law_frame_round_trip, payload, payload_spec, FrameHeader};
use crate::shared::internet::{
    ipv4_header_len, ipv6_transport, ipv6_transport_spec, is_ipv4, is_ipv6,
};
use crate::shared::striped_scheduler::{carries, lemma_carried, no_dns_port};
use crate::wire::{be16, law_network_order, read_u16, same_bytes};

verus! {

pub const MAX_SMALL_UDP_PAYLOAD: usize = 256;
pub const DUPLICATES_PER_SECOND: u32 = 50;
pub const DUPLICATE_BURST: u32 = 10;
/// The nanoseconds in which one more duplicate becomes available.
pub const REFILL_INTERVAL: u64 = 20_000_000;

/// A budget of duplicates: a bucket of tokens that refills with time. Times are
/// nanoseconds of a monotonic clock.
pub struct Budget {
    pub tokens: u32,
    pub updated: u64,
}

/// The tokens that have become available since a time.
pub open spec fn refill_spec(updated: u64, now: u64) -> int {
    let elapsed = if now > updated {
        now - updated
    } else {
        0
    };
    let refill = elapsed / REFILL_INTERVAL as int;
    if refill > u32::MAX {
        u32::MAX as int
    } else {
        refill
    }
}

impl Budget {
    pub open spec fn wf(&self) -> bool {
        self.tokens <= DUPLICATE_BURST
    }

    /// The tokens after the refill that is due.
    pub open spec fn tokens_at(&self, now: u64) -> int {
        let sum = self.tokens + refill_spec(self.updated, now);
        if sum > DUPLICATE_BURST {
            DUPLICATE_BURST as int
        } else {
            sum
        }
    }

    /// The budget after it was asked at a time, and whether it gave a token.
    pub open spec fn asked(self, now: u64) -> (Budget, bool) {
        let tokens = self.tokens_at(now);
        (
            Budget {
                tokens: if tokens > 0 {
                    (tokens - 1) as u32
                } else {
                    0
                },
                updated: (self.updated + refill_spec(self.updated, now) * REFILL_INTERVAL) as u64,
            },
            tokens > 0,
        )
    }

    /// The budget after it was asked at each of some times.
    pub open spec fn after(self, times: Seq<u64>) -> Budget
        decreases times.len(),
    {
        if times.len() == 0 {
            self
        } else {
            self.after(times.drop_last()).asked(times.last()).0
        }
    }

    /// How many tokens it gave at those times.
    pub open spec fn given(self, times: Seq<u64>) -> nat
        decreases times.len(),
    {
        if times.len() == 0 {
            0
        } else {
            self.given(times.drop_last()) + if self.after(times.drop_last()).asked(
                times.last(),
            ).1 {
                1nat
            } else {
                0
            }
        }
    }

    pub fn new(now: u64) -> (r: Budget)
        ensures
            r.tokens == DUPLICATE_BURST,
            r.updated == now,
            r.wf(),
    {
        Budget { tokens: DUPLICATE_BURST, updated: now }
    }

    /// Takes a token, if there is one.
    pub fn allow(&mut self, now: u64) -> (r: bool)
        requires
            old(self).wf(),
        ensures
            final(self).wf(),
            (*final(self), r) == old(self).asked(now),
            final(self).updated == old(self).updated + refill_spec(old(self).updated, now)
                * REFILL_INTERVAL,
            r == (old(self).tokens_at(now) > 0),
            final(self).tokens == old(self).tokens_at(now) - (if r {
                1int
            } else {
                0
            }),
    {
        let elapsed: u64 = now.saturating_sub(self.updated);
        let mut refill: u64 = elapsed / REFILL_INTERVAL;
        if refill != 0 {
            if refill > u32::MAX as u64 {
                refill = u32::MAX as u64;
            }
            let sum: u64 = self.tokens as u64 + refill;
            self.tokens = if sum > DUPLICATE_BURST as u64 {
                DUPLICATE_BURST
            } else {
                sum as u32
            };
            assert(refill * REFILL_INTERVAL <= elapsed);
            self.updated = self.updated + refill * REFILL_INTERVAL;
        }
        if self.tokens == 0 {
            false
        } else {
            self.tokens = self.tokens - 1;
            true
        }
    }
}

/// However often a budget is asked, it gives no more than its tokens and one for
/// every refill interval that has passed: in a second, at most its burst and
/// fifty.
pub proof fn law_budget_is_bounded(budget: Budget, times: Seq<u64>, last: u64)
    requires
        budget.wf(),
        budget.updated <= last,
        forall|i: int| 0 <= i < times.len() ==> #[trigger] times[i] <= last,
    ensures
        budget.given(times) <= budget.tokens + (last - budget.updated) / REFILL_INTERVAL as int,
        budget.given(times) <= DUPLICATE_BURST + (last - budget.updated) / REFILL_INTERVAL as int,
{
    lemma_given(budget, times, last);
    let after = budget.after(times);
    assert((after.updated - budget.updated) / REFILL_INTERVAL as int <= (last - budget.updated)
        / REFILL_INTERVAL as int);
}

proof fn lemma_given(budget: Budget, times: Seq<u64>, last: u64)
    requires
        budget.wf(),
        budget.updated <= last,
        forall|i: int| 0 <= i < times.len() ==> #[trigger] times[i] <= last,
    ensures
        ({
            let after = budget.after(times);
            &&& after.wf()
            &&& budget.updated <= after.updated <= last
            &&& (after.updated - budget.updated) % REFILL_INTERVAL as int == 0
            &&& budget.given(times) + after.tokens <= budget.tokens + (after.updated
                - budget.updated) / REFILL_INTERVAL as int
        }),
    decreases times.len(),
{
    if times.len() > 0 {
        lemma_given(budget, times.drop_last(), last);
        let before = budget.after(times.drop_last());
        let now = times.last();
        assert(times[times.len() - 1] <= last);
        let refill = refill_spec(before.updated, now);
        assert(refill * REFILL_INTERVAL <= if now > before.updated {
            now - before.updated
        } else {
            0
        });
    }
}

/// A budget gives as often as it has tokens, whenever it is asked: a new one its
/// whole burst. In less than a refill interval it gives no more than that.
pub proof fn law_burst_is_given(budget: Budget, times: Seq<u64>)
    requires
        budget.wf(),
    ensures
        times.len() <= budget.tokens ==> budget.given(times) == times.len(),
        (forall|i: int|
            0 <= i < times.len() ==> #[trigger] times[i] < budget.updated + REFILL_INTERVAL)
            && times.len() > budget.tokens ==> !budget.after(times.drop_last()).asked(
            times.last(),
        ).1,
        (forall|i: int|
            0 <= i < times.len() ==> #[trigger] times[i] < budget.updated + REFILL_INTERVAL)
            ==> {
            let after = budget.after(times);
            &&& after.updated == budget.updated
            &&& after.tokens == if times.len() < budget.tokens {
                budget.tokens - times.len()
            } else {
                0
            }
        },
    decreases times.len(),
{
    if times.len() > 0 {
        let early = times.drop_last();
        law_burst_is_given(budget, early);
        lemma_tokens_left(budget, early);
        if forall|i: int|
            0 <= i < times.len() ==> #[trigger] times[i] < budget.updated + REFILL_INTERVAL {
            assert forall|i: int| 0 <= i < early.len() implies #[trigger] early[i] < budget.updated
                + REFILL_INTERVAL by {
                assert(early[i] == times[i]);
            }
            assert(times[times.len() - 1] < budget.updated + REFILL_INTERVAL);
            assert(refill_spec(budget.updated, times.last()) == 0);
        }
    }
}

proof fn lemma_tokens_left(budget: Budget, times: Seq<u64>)
    requires
        budget.wf(),
    ensures
        budget.after(times).wf(),
        budget.after(times).tokens + times.len() >= budget.tokens,
    decreases times.len(),
{
    if times.len() > 0 {
        lemma_tokens_left(budget, times.drop_last());
        assert(refill_spec(budget.after(times.drop_last()).updated, times.last()) >= 0);
    }
}

/// However long a budget was idle, up to as many refill intervals as are counted
/// at once, it gives no more than its burst at one instant.
pub proof fn law_idle_budget_gives_its_burst(budget: Budget, now: u64, count: nat)
    requires
        budget.wf(),
        now <= budget.updated || (now - budget.updated) / REFILL_INTERVAL as int <= u32::MAX,
    ensures
        ({
            let times = Seq::new(count, |i: int| now);
            let full = budget.tokens_at(now);
            &&& 0 <= full <= DUPLICATE_BURST
            &&& budget.given(times) == if count < full {
                count as int
            } else {
                full
            }
            &&& count > 0 ==> budget.after(times).tokens == if count < full {
                full - count
            } else {
                0
            }
            &&& count > 0 ==> refill_spec(budget.after(times).updated, now) == 0
        }),
    decreases count,
{
    let times = Seq::new(count, |i: int| now);
    if count > 0 {
        law_idle_budget_gives_its_burst(budget, now, (count - 1) as nat);
        let early = Seq::new((count - 1) as nat, |i: int| now);
        assert(times.drop_last() =~= early);
        assert(times.last() == now);
        let before = budget.after(early);
        if count == 1 {
            assert(early =~= Seq::<u64>::empty());
            assert(before == budget);
            let refill = refill_spec(budget.updated, now);
            if now > budget.updated {
                let elapsed = now - budget.updated;
                assert(refill == elapsed / REFILL_INTERVAL as int);
                assert(elapsed - refill * REFILL_INTERVAL < REFILL_INTERVAL);
                assert(refill * REFILL_INTERVAL <= elapsed);
            }
        }
    }
}

// ---------------------------------------------------------------------------
// Classification
// ---------------------------------------------------------------------------

/// A transport header that calls for a duplicate: DNS, a TCP connection request,
/// or UDP with a small payload.
pub open spec fn transport_spec(protocol: u8, bytes: Seq<u8>) -> bool {
    if protocol == 6 && bytes.len() >= 14 {
        be16(bytes, 0) == 53 || be16(bytes, 2) == 53 || bytes[13] / 2 % 2 == 1
    } else if protocol == 17 && bytes.len() >= 8 {
        be16(bytes, 0) == 53 || be16(bytes, 2) == 53 || bytes.len() - 8 <= MAX_SMALL_UDP_PAYLOAD
    } else {
        false
    }
}

fn classify_transport(protocol: u8, bytes: &[u8]) -> (r: bool)
    ensures
        r == transport_spec(protocol, bytes@),
{
    if protocol == 6 && bytes.len() >= 14 {
        read_u16(bytes, 0) == 53 || read_u16(bytes, 2) == 53 || bytes[13] / 2 % 2 == 1
    } else if protocol == 17 && bytes.len() >= 8 {
        read_u16(bytes, 0) == 53 || read_u16(bytes, 2) == 53 || bytes.len() - 8
            <= MAX_SMALL_UDP_PAYLOAD
    } else {
        false
    }
}

/// ASCII text as bytes.
pub open spec fn ascii(s: Seq<char>) -> Seq<u8> {
    s.map_values(|c: char| c as u8)
}

pub open spec fn begins(packet: Seq<u8>, text: Seq<char>) -> bool {
    packet.len() >= text.len() && packet.take(text.len() as int) == ascii(text)
}

/// The texts that the two ends control the tunnel with.
pub open spec fn control_spec(packet: Seq<u8>) -> bool {
    ||| begins(packet, "GETCONF:"@)
    ||| begins(packet, "TUNCONF:"@)
    ||| packet == ascii("READY"@)
    ||| packet == ascii("READY_OK"@)
    ||| begins(packet, "DENIED:"@)
    ||| begins(packet, "DISCONNECT:"@)
}

/// The bytes of ASCII text.
pub fn ascii_bytes(s: &str) -> (r: Vec<u8>)
    requires
        s.is_ascii(),
    ensures
        r@ == ascii(s@),
{
    let bytes = s.as_bytes();
    let r = vstd::slice::slice_to_vec(bytes);
    assert(r@ =~= ascii(s@));
    r
}

/// Whether a packet begins with ASCII text.
pub fn begins_with(packet: &[u8], text: &str) -> (r: bool)
    requires
        text.is_ascii(),
    ensures
        r == begins(packet@, text@),
{
    let t = ascii_bytes(text);
    if packet.len() < t.len() {
        return false;
    }
    let head = vstd::slice::slice_subrange(packet, 0, t.len());
    assert(head@ =~= packet@.take(t@.len() as int));
    same_bytes(head, t.as_slice())
}

/// Whether a packet is ASCII text.
pub fn is_text(packet: &[u8], text: &str) -> (r: bool)
    requires
        text.is_ascii(),
    ensures
        r == (packet@ == ascii(text@)),
{
    let t = ascii_bytes(text);
    same_bytes(packet, t.as_slice())
}

fn is_control(packet: &[u8]) -> (r: bool)
    ensures
        r == control_spec(packet@),
{
    proof {
        reveal_strlit("GETCONF:");
        reveal_strlit("TUNCONF:");
        reveal_strlit("READY");
        reveal_strlit("READY_OK");
        reveal_strlit("DENIED:");
        reveal_strlit("DISCONNECT:");
    }
    begins_with(packet, "GETCONF:") || begins_with(packet, "TUNCONF:") || is_text(packet, "READY")
        || is_text(packet, "READY_OK") || begins_with(packet, "DENIED:") || begins_with(
        packet,
        "DISCONNECT:",
    )
}

/// An IPv4 packet calls for a duplicate by its transport, unless it is a later
/// fragment.
pub open spec fn ipv4_duplicate(packet: Seq<u8>) -> bool {
    is_ipv4(packet) && be16(packet, 6) % 0x2000 == 0 && transport_spec(
        packet[9],
        packet.skip(ipv4_header_len(packet)),
    )
}

pub open spec fn ipv6_duplicate(packet: Seq<u8>) -> bool {
    is_ipv6(packet) && match ipv6_transport_spec(packet) {
        Some((protocol, offset)) => transport_spec(protocol, packet.skip(offset)),
        None => false,
    }
}

pub open spec fn should_duplicate_spec(packet: Seq<u8>) -> bool {
    let inner = payload_spec(packet);
    control_spec(inner) || ipv4_duplicate(inner) || ipv6_duplicate(inner)
}

fn ipv4_wants_duplicate(packet: &[u8]) -> (r: bool)
    ensures
        r == ipv4_duplicate(packet@),
{
    if packet.len() < 20 || packet[0] / 16 != 4 {
        return false;
    }
    let header_len: usize = (packet[0] % 16) as usize * 4;
    if header_len < 20 || packet.len() < header_len {
        return false;
    }
    if read_u16(packet, 6) % 0x2000 != 0 {
        return false;
    }
    let rest = vstd::slice::slice_subrange(packet, header_len, packet.len());
    assert(rest@ =~= packet@.skip(header_len as int));
    classify_transport(packet[9], rest)
}

fn ipv6_wants_duplicate(packet: &[u8]) -> (r: bool)
    ensures
        r == ipv6_duplicate(packet@),
{
    if packet.len() < 40 || packet[0] / 16 != 6 {
        return false;
    }
    match ipv6_transport(packet) {
        Some((protocol, offset)) => {
            let rest = vstd::slice::slice_subrange(packet, offset, packet.len());
            assert(rest@ =~= packet@.skip(offset as int));
            classify_transport(protocol, rest)
        },
        None => false,
    }
}

/// Whether a packet is worth sending twice.
pub fn should_duplicate(packet: &[u8]) -> (r: bool)
    ensures
        r == should_duplicate_spec(packet@),
{
    let packet = payload(packet);
    is_control(packet) || ipv4_wants_duplicate(packet) || ipv6_wants_duplicate(packet)
}

// ---------------------------------------------------------------------------
// What is worth sending twice
// ---------------------------------------------------------------------------

/// An internet packet whose transport can be seen: whole, or the first fragment,
/// and not a text that only looks like one.
pub open spec fn shows(packet: Seq<u8>, chain: Seq<(u8, int)>, protocol: u8, at: int) -> bool {
    &&& carries(packet, chain, protocol, at)
    &&& packet[0] / 16 == 4 ==> packet[6] % 32 == 0 && packet[7] == 0
    &&& packet[0] != 0x47 || packet[1] != 0x45
}

proof fn lemma_no_text(packet: Seq<u8>)
    requires
        packet.len() >= 20,
        packet[0] / 16 == 4 || packet[0] / 16 == 6,
        packet[0] / 16 == 4 ==> packet[0] % 16 >= 5,
        packet[0] != 0x47 || packet[1] != 0x45,
    ensures
        !control_spec(packet),
{
    reveal_strlit("GETCONF:");
    reveal_strlit("TUNCONF:");
    reveal_strlit("READY");
    reveal_strlit("READY_OK");
    reveal_strlit("DENIED:");
    reveal_strlit("DISCONNECT:");
    if begins(packet, "GETCONF:"@) {
        assert(packet.take(8)[0] == packet[0] && packet.take(8)[1] == packet[1]);
        assert(ascii("GETCONF:"@)[0] == 0x47 && ascii("GETCONF:"@)[1] == 0x45);
    }
    if begins(packet, "TUNCONF:"@) {
        assert(packet.take(8)[0] == packet[0]);
        assert(ascii("TUNCONF:"@)[0] == 0x54);
    }
    if begins(packet, "DENIED:"@) {
        assert(packet.take(7)[0] == packet[0]);
        assert(ascii("DENIED:"@)[0] == 0x44);
    }
    if begins(packet, "DISCONNECT:"@) {
        assert(packet.take(11)[0] == packet[0]);
        assert(ascii("DISCONNECT:"@)[0] == 0x44);
    }
    assert(ascii("READY"@).len() == 5 && ascii("READY_OK"@).len() == 8);
}

proof fn lemma_shown(packet: Seq<u8>, chain: Seq<(u8, int)>, protocol: u8, at: int)
    requires
        shows(packet, chain, protocol, at),
    ensures
        20 <= at <= packet.len(),
        should_duplicate_spec(packet) == transport_spec(protocol, packet.skip(at)),
{
    lemma_carried(packet, chain, protocol, at);
    lemma_no_text(packet);
    if packet[0] / 16 == 4 {
        law_network_order(packet, 6);
        let a = packet[6] as int;
        let b = packet[7] as int;
        assert((a * 256 + b) % 0x2000 == (a % 32) * 256 + b) by (nonlinear_arith)
            requires
                0 <= b < 256,
                0 <= a < 256,
        ;
    }
}

/// The first data of a connection is worth a second packet: a question or an
/// answer of DNS, the opening of a TCP connection, and a datagram that carries no
/// more than 256 bytes.
pub proof fn law_openings_are_sent_twice(
    packet: Seq<u8>,
    chain: Seq<(u8, int)>,
    protocol: u8,
    at: int,
)
    requires
        shows(packet, chain, protocol, at),
        protocol == 6 && at + 14 <= packet.len() && (packet[at + 13] / 2 % 2 == 1 || !no_dns_port(
            packet,
            at,
        )) || protocol == 17 && at + 8 <= packet.len() && (packet.len() <= at + 8 + 256
            || !no_dns_port(packet, at)),
    ensures
        should_duplicate_spec(packet),
{
    lemma_shown(packet, chain, protocol, at);
    let rest = packet.skip(at);
    law_network_order(rest, 0);
    law_network_order(rest, 2);
}

/// The rest of a stream, large datagrams and other transports are sent once.
pub proof fn law_the_rest_is_sent_once(
    packet: Seq<u8>,
    chain: Seq<(u8, int)>,
    protocol: u8,
    at: int,
)
    requires
        shows(packet, chain, protocol, at),
        protocol == 6 ==> at + 14 > packet.len() || (packet[at + 13] / 2 % 2 == 0 && no_dns_port(
            packet,
            at,
        )),
        protocol == 17 ==> at + 8 > packet.len() || (packet.len() > at + 8 + 256 && no_dns_port(
            packet,
            at,
        )),
    ensures
        !should_duplicate_spec(packet),
{
    lemma_shown(packet, chain, protocol, at);
    let rest = packet.skip(at);
    if rest.len() >= 4 {
        law_network_order(rest, 0);
        law_network_order(rest, 2);
    }
}

/// A later fragment of an IPv4 packet is sent once, whatever it seems to carry.
pub proof fn law_later_fragments_are_sent_once(packet: Seq<u8>)
    requires
        packet.len() >= 20,
        packet[0] / 16 == 4,
        packet[0] % 16 >= 5,
        packet[6] % 32 != 0 || packet[7] != 0,
        packet[0] != 0x47 || packet[1] != 0x45,
    ensures
        !should_duplicate_spec(packet),
{
    law_network_order(packet, 0);
    lemma_no_text(packet);
    law_network_order(packet, 6);
    let a = packet[6] as int;
    let b = packet[7] as int;
    assert((a * 256 + b) % 0x2000 == (a % 32) * 256 + b) by (nonlinear_arith)
        requires
            0 <= b < 256,
            0 <= a < 256,
    ;
}

/// The texts that control the tunnel are sent twice, those with an argument
/// whatever it is, and those without one only as they are.
pub proof fn law_control_is_sent_twice(rest: Seq<u8>)
    ensures
        should_duplicate_spec(ascii("GETCONF:"@) + rest),
        should_duplicate_spec(ascii("TUNCONF:"@) + rest),
        should_duplicate_spec(ascii("DENIED:"@) + rest),
        should_duplicate_spec(ascii("DISCONNECT:"@) + rest),
        should_duplicate_spec(ascii("READY"@)),
        should_duplicate_spec(ascii("READY_OK"@)),
        rest.len() > 0 && ascii("READY"@) + rest != ascii("READY_OK"@) ==> !should_duplicate_spec(
            ascii("READY"@) + rest,
        ),
{
    reveal_strlit("GETCONF:");
    reveal_strlit("TUNCONF:");
    reveal_strlit("READY");
    reveal_strlit("READY_OK");
    reveal_strlit("DENIED:");
    reveal_strlit("DISCONNECT:");
    lemma_text_is_plain(ascii("GETCONF:"@), rest);
    lemma_text_is_plain(ascii("TUNCONF:"@), rest);
    lemma_text_is_plain(ascii("DENIED:"@), rest);
    lemma_text_is_plain(ascii("DISCONNECT:"@), rest);
    lemma_text_is_plain(ascii("READY"@), Seq::empty());
    lemma_text_is_plain(ascii("READY_OK"@), Seq::empty());
    lemma_text_is_plain(ascii("READY"@), rest);
    assert(ascii("READY"@) + Seq::<u8>::empty() =~= ascii("READY"@));
    assert(ascii("READY_OK"@) + Seq::<u8>::empty() =~= ascii("READY_OK"@));
    if rest.len() > 0 && ascii("READY"@) + rest != ascii("READY_OK"@) {
        let packet = ascii("READY"@) + rest;
        assert(packet[0] == 0x52);
        assert(packet.len() > 5);
        if begins(packet, "GETCONF:"@) {
            assert(packet.take(8)[0] == packet[0]);
            assert(ascii("GETCONF:"@)[0] == 0x47);
        }
        if begins(packet, "TUNCONF:"@) {
            assert(packet.take(8)[0] == packet[0]);
            assert(ascii("TUNCONF:"@)[0] == 0x54);
        }
        if begins(packet, "DENIED:"@) {
            assert(packet.take(7)[0] == packet[0]);
            assert(ascii("DENIED:"@)[0] == 0x44);
        }
        if begins(packet, "DISCONNECT:"@) {
            assert(packet.take(11)[0] == packet[0]);
            assert(ascii("DISCONNECT:"@)[0] == 0x44);
        }
    }
}

/// Text is not taken for a frame.
proof fn lemma_text_is_plain(text: Seq<u8>, rest: Seq<u8>)
    requires
        text.len() > 1,
        text[0] != 0xc5,
    ensures
        payload_spec(text + rest) == text + rest,
        (text + rest).take(text.len() as int) == text,
{
    law_network_order(text + rest, 0);
    assert((text + rest).take(text.len() as int) =~= text);
}

/// A frame does not change whether the packet in it is sent twice.
pub proof fn law_frame_keeps_the_choice(header: FrameHeader, packet: Seq<u8>)
    requires
        packet.len() < 2 || packet[0] != 0xc5 || packet[1] != 0x46,
    ensures
        should_duplicate_spec(header.bytes() + packet) == should_duplicate_spec(packet),
{
    law_frame_round_trip(header, packet);
    if packet.len() >= 2 {
        law_network_order(packet, 0);
    }
}

} // verus!
