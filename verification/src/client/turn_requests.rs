//! What the requests of a TURN client say on the wire.

use vstd::prelude::*;
use crate::client::stun::{
    decode_spec, fingerprint_spec, hmac_sha1_of, value_spec, MAGIC_COOKIE,
};
use crate::client::stun_build::{
    attr_bytes, attrs_bytes, finish_authenticated_spec, integrity_spec, law_signed_message_says,
    law_signed_message_verifies, lemma_attrs_push, start_spec, xor_address_spec, xor_mask,
};
use crate::client::turn_model::{CoreModel, Operation};
use crate::client::turn_upkeep::grants;
use crate::net::IpAddress;
use crate::wire::{be_bytes, law_network_order, lemma_be_len};

verus! {

/// The attributes of a request before those that sign it.
pub open spec fn own_attributes(core: CoreModel, operation: Operation, transaction: Seq<u8>) -> Seq<
    (u16, Seq<u8>),
> {
    let peer = xor_address_spec(core.peer, transaction);
    match operation {
        Operation::Allocate => seq![
            (0x0019u16, seq![17u8, 0u8, 0u8, 0u8]),
            (
                0x0017u16,
                seq![
                    if core.peer.ip is V4 {
                        1u8
                    } else {
                        2u8
                    },
                    0u8,
                    0u8,
                    0u8,
                ],
            ),
            (0x000du16, seq![0u8, 0u8, 2u8, 88u8]),
        ],
        Operation::Refresh => seq![(0x000du16, seq![0u8, 0u8, 2u8, 88u8])],
        Operation::Deallocate => seq![(0x000du16, seq![0u8, 0u8, 0u8, 0u8])],
        Operation::Permission => seq![(0x0012u16, peer)],
        Operation::Channel => seq![(0x000cu16, seq![0x40u8, 0u8, 0u8, 0u8]), (0x0012u16, peer)],
    }
}

/// The attributes that say who asks.
pub open spec fn signing_attributes(username: Seq<u8>, realm: Seq<u8>, nonce: Seq<u8>) -> Seq<
    (u16, Seq<u8>),
> {
    seq![(0x0006u16, username), (0x0014u16, realm), (0x0015u16, nonce)]
}

proof fn lemma_attrs_add(a: Seq<(u16, Seq<u8>)>, b: Seq<(u16, Seq<u8>)>)
    ensures
        attrs_bytes(a + b) == attrs_bytes(a) + attrs_bytes(b),
    decreases a.len(),
{
    if a.len() == 0 {
        assert(a + b =~= b);
        assert(attrs_bytes(a) + attrs_bytes(b) =~= attrs_bytes(b));
    } else {
        assert((a + b).skip(1) =~= a.skip(1) + b);
        assert((a + b)[0] == a[0]);
        lemma_attrs_add(a.skip(1), b);
        assert(attrs_bytes(a + b) =~= attrs_bytes(a) + attrs_bytes(b));
    }
}

proof fn lemma_attrs_three(a: (u16, Seq<u8>), b: (u16, Seq<u8>), c: (u16, Seq<u8>))
    ensures
        attrs_bytes(seq![a]) == attr_bytes(a.0, a.1),
        attrs_bytes(seq![a, b]) == attr_bytes(a.0, a.1) + attr_bytes(b.0, b.1),
        attrs_bytes(seq![a, b, c]) == attr_bytes(a.0, a.1) + attr_bytes(b.0, b.1) + attr_bytes(
            c.0,
            c.1,
        ),
{
    let none = Seq::<(u16, Seq<u8>)>::empty();
    lemma_attrs_push(none, a);
    assert(none.push(a) =~= seq![a]);
    assert(attrs_bytes(none) + attr_bytes(a.0, a.1) =~= attr_bytes(a.0, a.1));
    lemma_attrs_push(seq![a], b);
    assert(seq![a].push(b) =~= seq![a, b]);
    lemma_attrs_push(seq![a, b], c);
    assert(seq![a, b].push(c) =~= seq![a, b, c]);
}

proof fn lemma_request_body(core: CoreModel, operation: Operation, transaction: Seq<u8>)
    requires
        core.realm is Some && core.nonce is Some,
    ensures
        core.request_body(operation, transaction, true) == start_spec(
            operation.method_spec() as u16,
            transaction,
        ) + attrs_bytes(
            own_attributes(core, operation, transaction) + signing_attributes(
                core.username,
                core.realm->0,
                core.nonce->0,
            ),
        ),
{
    let own = own_attributes(core, operation, transaction);
    let signing = signing_attributes(core.username, core.realm->0, core.nonce->0);
    let start = start_spec(operation.method_spec() as u16, transaction);
    lemma_lifetimes();
    lemma_attrs_three(signing[0], signing[1], signing[2]);
    lemma_attrs_add(own, signing);
    let body = start + attrs_bytes(own);
    match operation {
        Operation::Allocate => {
            lemma_attrs_three(own[0], own[1], own[2]);
            assert(own =~= seq![own[0], own[1], own[2]]);
            lemma_four(
                start,
                attr_bytes(own[0].0, own[0].1),
                attr_bytes(own[1].0, own[1].1),
                attr_bytes(own[2].0, own[2].1),
            );
        },
        Operation::Channel => {
            lemma_attrs_three(own[0], own[1], own[0]);
            assert(own =~= seq![own[0], own[1]]);
            lemma_three(start, attr_bytes(own[0].0, own[0].1), attr_bytes(own[1].0, own[1].1));
        },
        _ => {
            lemma_attrs_three(own[0], own[0], own[0]);
            assert(own =~= seq![own[0]]);
        },
    }
    lemma_four(
        body,
        attr_bytes(signing[0].0, signing[0].1),
        attr_bytes(signing[1].0, signing[1].1),
        attr_bytes(signing[2].0, signing[2].1),
    );
    lemma_three(start, attrs_bytes(own), attrs_bytes(signing));
}

proof fn lemma_three(a: Seq<u8>, b: Seq<u8>, c: Seq<u8>)
    ensures
        a + b + c == a + (b + c),
{
    assert(a + b + c =~= a + (b + c));
}

proof fn lemma_four(a: Seq<u8>, b: Seq<u8>, c: Seq<u8>, d: Seq<u8>)
    ensures
        a + b + c + d == a + (b + c + d),
{
    assert(a + b + c + d =~= a + (b + c + d));
}

proof fn lemma_lifetimes()
    ensures
        be_bytes(600, 4) == seq![0u8, 0u8, 2u8, 88u8],
        be_bytes(0, 4) == seq![0u8, 0u8, 0u8, 0u8],
{
    reveal_with_fuel(be_bytes, 5);
    assert(be_bytes(600, 4) =~= seq![0u8, 0u8, 2u8, 88u8]);
    assert(be_bytes(0, 4) =~= seq![0u8, 0u8, 0u8, 0u8]);
}

/// The attributes of a request have different numbers, none of them that of the
/// tag or the fingerprint, and fit.
proof fn lemma_own_kinds(core: CoreModel, operation: Operation, transaction: Seq<u8>)
    requires
        transaction.len() == 12,
        core.realm is Some && core.nonce is Some,
        core.username.len() <= 0xffff,
        core.realm->0.len() <= 0xffff,
        core.nonce->0.len() <= 0xffff,
    ensures
        ({
            let own = own_attributes(core, operation, transaction);
            let signing = signing_attributes(core.username, core.realm->0, core.nonce->0);
            let list = own + signing;
            &&& forall|i: int|
                0 <= i < list.len() ==> (#[trigger] list[i]).1.len() <= 0xffff && list[i].0
                    != 0x8028 && list[i].0 != 0x0008
            &&& forall|i: int, k: int|
                0 <= k < i < list.len() ==> (#[trigger] list[k]).0 != (#[trigger] list[i]).0
        }),
{
    let own = own_attributes(core, operation, transaction);
    let signing = signing_attributes(core.username, core.realm->0, core.nonce->0);
    let list = own + signing;
    assert(xor_address_spec(core.peer, transaction).len() <= 0xffff) by {
        lemma_be_len((core.peer.port ^ 0x2112u16) as nat, 2);
        match core.peer.ip {
            IpAddress::V4(ip) => {
                lemma_be_len((ip ^ MAGIC_COOKIE) as nat, 4);
            },
            IpAddress::V6(ip) => {
                lemma_be_len((ip ^ xor_mask(transaction)) as nat, 16);
            },
        }
    }
    assert forall|i: int| 0 <= i < list.len() implies (#[trigger] list[i]).1.len() <= 0xffff
        && list[i].0 != 0x8028 && list[i].0 != 0x0008 by {
        if i < own.len() {
            assert(list[i] == own[i]);
        } else {
            assert(list[i] == signing[i - own.len()]);
        }
    }
    assert forall|i: int, k: int| 0 <= k < i < list.len() implies (#[trigger] list[k]).0 != (
    #[trigger] list[i]).0 by {
        if i < own.len() {
            assert(list[i] == own[i] && list[k] == own[k]);
        } else if k < own.len() {
            assert(list[i] == signing[i - own.len()] && list[k] == own[k]);
        } else {
            assert(list[i] == signing[i - own.len()] && list[k] == signing[k - own.len()]);
        }
    }
}

/// Each attribute of a request is found in it.
proof fn lemma_request_says(
    core: CoreModel,
    operation: Operation,
    transaction: Seq<u8>,
    packet: Seq<u8>,
)
    requires
        core.request(operation, transaction, true) == Some(packet),
        transaction.len() == 12,
        core.realm is Some && core.nonce is Some && core.key is Some,
        core.username.len() <= 0xffff,
        core.realm->0.len() <= 0xffff,
        core.nonce->0.len() <= 0xffff,
        forall|data: Seq<u8>| (#[trigger] hmac_sha1_of(core.key->0, data)).len() == 20,
    ensures
        packet.len() >= 20,
        packet[0] * 256 + packet[1] == operation.method_spec(),
        packet.subrange(8, 20) == transaction,
        decode_spec(packet) is Ok,
        integrity_spec(packet, decode_spec(packet)->Ok_0, core.key),
        fingerprint_spec(packet, decode_spec(packet)->Ok_0) == Some(true),
        ({
            let list = own_attributes(core, operation, transaction) + signing_attributes(
                core.username,
                core.realm->0,
                core.nonce->0,
            );
            forall|i: int|
                #![trigger list[i]]
                0 <= i < list.len() ==> value_spec(packet, decode_spec(packet)->Ok_0, list[i].0)
                    == Some(list[i].1)
        }),
{
    let own = own_attributes(core, operation, transaction);
    let signing = signing_attributes(core.username, core.realm->0, core.nonce->0);
    let list = own + signing;
    let kind = operation.method_spec() as u16;
    let key = core.key->0;
    assert(finish_authenticated_spec(
        core.request_body(operation, transaction, true),
        key,
    ) == Some(packet)) by {
        reveal(CoreModel::request);
    }
    lemma_request_body(core, operation, transaction);
    lemma_own_kinds(core, operation, transaction);
    law_signed_message_verifies(kind, transaction, list, key, packet);
    law_signed_message_says(kind, transaction, list, key, packet);
    law_network_order(packet, 0);
}

/// A request says on the wire what it is for. It is of the type of its operation,
/// it carries the name, the realm and the nonce, and it is signed. An allocation
/// is asked for UDP, in the family of the peer and for ten minutes, a refresh for
/// ten minutes more and a release for none; a permission names the peer, and a
/// channel the peer and its number.
pub proof fn law_request_says_what_it_is_for(
    core: CoreModel,
    operation: Operation,
    transaction: Seq<u8>,
    packet: Seq<u8>,
)
    requires
        core.request(operation, transaction, true) == Some(packet),
        transaction.len() == 12,
        core.realm is Some && core.nonce is Some && core.key is Some,
        core.username.len() <= 0xffff,
        core.realm->0.len() <= 0xffff,
        core.nonce->0.len() <= 0xffff,
        forall|data: Seq<u8>| (#[trigger] hmac_sha1_of(core.key->0, data)).len() == 20,
    ensures
        packet.len() >= 20,
        packet[0] == 0,
        packet[1] == match operation {
            Operation::Allocate => 3,
            Operation::Refresh | Operation::Deallocate => 4,
            Operation::Permission => 8,
            Operation::Channel => 9int,
        },
        packet.subrange(8, 20) == transaction,
        decode_spec(packet) matches Ok(spans) && {
            &&& integrity_spec(packet, spans, core.key)
            &&& fingerprint_spec(packet, spans) == Some(true)
            &&& value_spec(packet, spans, 0x0006) == Some(core.username)
            &&& value_spec(packet, spans, 0x0014) == core.realm
            &&& value_spec(packet, spans, 0x0015) == core.nonce
            &&& operation == Operation::Allocate ==> {
                &&& value_spec(packet, spans, 0x0019) == Some(seq![17u8, 0u8, 0u8, 0u8])
                &&& value_spec(packet, spans, 0x0017) == Some(
                    seq![
                        if core.peer.ip is V4 {
                            1u8
                        } else {
                            2u8
                        },
                        0u8,
                        0u8,
                        0u8,
                    ],
                )
            }
            &&& operation == Operation::Allocate || operation == Operation::Refresh ==> grants(
                packet,
                spans,
                600,
            ) && value_spec(packet, spans, 0x000d) is Some
            &&& operation == Operation::Deallocate ==> grants(packet, spans, 0)
            &&& operation == Operation::Permission || operation == Operation::Channel
                ==> value_spec(packet, spans, 0x0012) == Some(
                xor_address_spec(core.peer, transaction),
            )
            &&& operation == Operation::Channel ==> value_spec(packet, spans, 0x000c) == Some(
                seq![0x40u8, 0u8, 0u8, 0u8],
            )
        },
{
    let own = own_attributes(core, operation, transaction);
    let signing = signing_attributes(core.username, core.realm->0, core.nonce->0);
    let list = own + signing;
    lemma_request_says(core, operation, transaction, packet);
    let n = own.len() as int;
    assert(list[n] == signing[0]);
    assert(list[n + 1] == signing[1]);
    assert(list[n + 2] == signing[2]);
    assert(list[0] == own[0]);
    match operation {
        Operation::Allocate => {
            assert(list[1] == own[1]);
            assert(list[2] == own[2]);
        },
        Operation::Channel => {
            assert(list[1] == own[1]);
        },
        _ => {},
    }
}

} // verus!
