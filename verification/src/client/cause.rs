//! Why something failed, as a chain of causes, and what that says of how to go
//! on.

use vstd::prelude::*;
use crate::text::{
    chars_of, contains, has_text, is_digit, lower, lower_spec, occurs_at, push_chars, push_text,
    signed_decimal, test_at,
};

verus! {

/// What a failed system call was about.
#[derive(Clone, Copy, Debug, PartialEq, Eq, Structural)]
pub enum IoKind {
    ConnectionReset,
    ConnectionAborted,
    BrokenPipe,
    Other,
}

/// One cause of a failure.
#[derive(Clone, Copy, Debug, PartialEq, Eq, Structural)]
pub enum Cause {
    /// A relay answered a request with a code.
    TurnRequest { stun_code: i32 },
    /// An allocation failed, for the causes that follow.
    TurnAllocate,
    /// The system refused something; with its number, if it gave one.
    Io { code: Option<i32>, kind: IoKind },
    /// Anything else.
    Other,
}

/// A failure: its causes, the outermost first, what is said of it, and what is
/// said of all its causes.
pub struct ErrorChain {
    pub causes: Vec<Cause>,
    pub message: String,
    pub full: String,
}

/// An error as plain values.
#[verifier::ext_equal]
pub struct ChainModel {
    pub causes: Seq<Cause>,
    pub message: Seq<char>,
    pub full: Seq<char>,
}

impl View for ErrorChain {
    type V = ChainModel;

    open spec fn view(&self) -> ChainModel {
        ChainModel { causes: self.causes@, message: self.message@, full: self.full@ }
    }
}

pub open spec fn chain_of(error: Option<ErrorChain>) -> Option<ChainModel> {
    match error {
        Some(chain) => Some(chain@),
        None => None,
    }
}

pub open spec fn first_stun_code(causes: Seq<Cause>) -> Option<i32>
    decreases causes.len(),
{
    if causes.len() == 0 {
        None
    } else {
        match causes[0] {
            Cause::TurnRequest { stun_code } => Some(stun_code),
            _ => first_stun_code(causes.skip(1)),
        }
    }
}

/// The code that an allocation was refused with.
pub open spec fn allocate_code(causes: Seq<Cause>) -> Option<i32>
    decreases causes.len(),
{
    if causes.len() == 0 {
        None
    } else if causes[0] is TurnAllocate && first_stun_code(causes.skip(1)) is Some {
        first_stun_code(causes.skip(1))
    } else {
        allocate_code(causes.skip(1))
    }
}

fn stun_code_from(causes: &Vec<Cause>, from: usize) -> (r: Option<i32>)
    requires
        from <= causes@.len(),
    ensures
        r == first_stun_code(causes@.skip(from as int)),
{
    let ghost rest = causes@.skip(from as int);
    let mut i: usize = from;
    while i < causes.len()
        invariant
            i <= causes@.len(),
            rest == causes@.skip(from as int),
            first_stun_code(causes@.skip(i as int)) == first_stun_code(rest),
        decreases causes@.len() - i,
    {
        assert(causes@.skip(i as int).skip(1) =~= causes@.skip(i + 1));
        if let Cause::TurnRequest { stun_code } = causes[i] {
            return Some(stun_code);
        }
        i = i + 1;
    }
    None
}

impl ErrorChain {
    pub open spec fn stun_code_spec(self) -> Option<i32> {
        first_stun_code(self.causes@)
    }

    /// The code of the first cause that is an answer of a relay.
    pub fn stun_code(&self) -> (r: Option<i32>)
        ensures
            r == self.stun_code_spec(),
    {
        assert(self.causes@.skip(0) =~= self.causes@);
        stun_code_from(&self.causes, 0)
    }
}

pub fn turn_stun_code(error: &ErrorChain) -> (r: Option<i32>)
    ensures
        r == first_stun_code(error.causes@),
{
    error.stun_code()
}

pub fn turn_allocate_stun_code(error: &ErrorChain) -> (r: Option<i32>)
    ensures
        r == allocate_code(error.causes@),
{
    let mut i: usize = 0;
    assert(error.causes@.skip(0) =~= error.causes@);
    while i < error.causes.len()
        invariant
            i <= error.causes@.len(),
            allocate_code(error.causes@.skip(i as int)) == allocate_code(error.causes@),
        decreases error.causes@.len() - i,
    {
        assert(error.causes@.skip(i as int).skip(1) =~= error.causes@.skip(i + 1));
        if let Cause::TurnAllocate = error.causes[i] {
            let code = stun_code_from(&error.causes, i + 1);
            if code.is_some() {
                return code;
            }
        }
        i = i + 1;
    }
    None
}

/// A relay has no room for another allocation with these credentials.
pub open spec fn quota_spec(causes: Seq<Cause>, message: Seq<char>) -> bool {
    allocate_code(causes) == Some(486i32) || (has_text(message, "turn allocate"@) && (has_text(
        message,
        "stun error 486"@,
    ) || has_text(message, "allocation quota reached"@) || has_text(message, "quota reached"@)))
}

pub fn is_turn_allocation_quota(error: &ErrorChain, message: &str) -> (r: bool)
    ensures
        r == quota_spec(error.causes@, message@),
{
    if turn_allocate_stun_code(error) == Some(486) {
        return true;
    }
    let all = chars_of(message);
    let m = all.as_slice();
    contains(m, "turn allocate") && (contains(m, "stun error 486") || contains(
        m,
        "allocation quota reached",
    ) || contains(m, "quota reached"))
}

/// A relay does not know the allocation any more.
pub open spec fn mismatch_spec(causes: Seq<Cause>, message: Seq<char>) -> bool {
    match first_stun_code(causes) {
        Some(437) => true,
        Some(400) => has_text(message, "channelbind"@),
        _ => has_text(message, "stun error 437"@) || (has_text(message, "stun error 400"@)
            && has_text(message, "channelbind"@)),
    }
}

pub fn is_turn_allocation_mismatch(error: &ErrorChain, message: &str) -> (r: bool)
    ensures
        r == mismatch_spec(error.causes@, message@),
{
    let all = chars_of(message);
    let m = all.as_slice();
    match turn_stun_code(error) {
        Some(437) => true,
        Some(400) => contains(m, "channelbind"),
        _ => contains(m, "stun error 437") || (contains(m, "stun error 400") && contains(
            m,
            "channelbind",
        )),
    }
}

/// A relay does not accept the credentials.
pub open spec fn invalid_credentials_spec(causes: Seq<Cause>, message: Seq<char>) -> bool {
    match first_stun_code(causes) {
        Some(code) => code == 401 || code == 438 || code == 441,
        None => has_text(message, "turn "@) && (has_text(message, "stun error 401"@) || has_text(
            message,
            "stun error 438"@,
        ) || has_text(message, "stun error 441"@) || has_text(message, "unauthorized"@)
            || has_text(message, "wrong credential"@) || has_text(
            message,
            "authentication failed"@,
        )),
    }
}

pub fn should_invalidate_turn_credentials(error: &ErrorChain, message: &str) -> (r: bool)
    ensures
        r == invalid_credentials_spec(error.causes@, message@),
{
    if let Some(code) = turn_stun_code(error) {
        return code == 401 || code == 438 || code == 441;
    }
    let all = chars_of(message);
    let m = all.as_slice();
    contains(m, "turn ") && (contains(m, "stun error 401") || contains(m, "stun error 438")
        || contains(m, "stun error 441") || contains(m, "unauthorized") || contains(
        m,
        "wrong credential",
    ) || contains(m, "authentication failed"))
}

/// The numbers by which systems say that there is no way to the network.
pub open spec fn is_network_code(code: i32) -> bool {
    code == 100 || code == 101 || code == 113 || code == 10_050 || code == 10_051 || code
        == 10_065
}

fn network_code(code: i32) -> (r: bool)
    ensures
        r == is_network_code(code),
{
    code == 100 || code == 101 || code == 113 || code == 10_050 || code == 10_051 || code
        == 10_065
}

pub open spec fn has_network_cause(causes: Seq<Cause>) -> bool {
    exists|i: int|
        0 <= i < causes.len() && match #[trigger] causes[i] {
            Cause::Io { code: Some(code), .. } => is_network_code(code),
            _ => false,
        }
}

pub open spec fn os_error_text(code: i32) -> Seq<char> {
    "os error "@ + signed_decimal(code as int)
}

/// The number stands in a message as that of a system error, and is not the
/// start of a longer one.
pub open spec fn names_os_error(message: Seq<char>, code: i32) -> bool {
    exists|i: int|
        {
            let end = i + os_error_text(code).len();
            #[trigger] occurs_at(message, os_error_text(code), i) && (end == message.len()
                || !is_digit(message[end]))
        }
}

pub fn contains_os_error_code(message: &[char], code: i32) -> (r: bool)
    ensures
        r == names_os_error(message@, code),
{
    let mut needle: Vec<char> = Vec::new();
    push_text(&mut needle, "os error ");
    push_chars(&mut needle, crate::text::decimal_i64(code as i64).as_slice());
    assert(needle@ =~= os_error_text(code));
    let size: usize = message.len();
    let mut i: usize = 0;
    while i < size
        invariant
            i <= size == message@.len(),
            needle@ == os_error_text(code),
            forall|k: int|
                0 <= k < i && #[trigger] occurs_at(message@, needle@, k) ==> k + needle@.len()
                    < message@.len() && is_digit(message@[k + needle@.len()]),
        decreases size - i,
    {
        if test_at(message, needle.as_slice(), i) {
            let end: usize = i + needle.len();
            if end == size {
                assert(occurs_at(message@, os_error_text(code), i as int));
                return true;
            }
            let c: char = message[end];
            if c < '0' || '9' < c {
                assert(occurs_at(message@, os_error_text(code), i as int));
                return true;
            }
        }
        i = i + 1;
    }
    proof {
        reveal_strlit("os error ");
        assert forall|k: int| #[trigger] occurs_at(
            message@,
            os_error_text(code),
            k,
        ) implies k + os_error_text(code).len() < message@.len() && is_digit(
            message@[k + os_error_text(code).len()],
        ) by {
            assert(os_error_text(code).len() >= 9);
            assert(k < size);
            assert(occurs_at(message@, needle@, k));
        }
    }
    false
}

/// There is no way to the network from here.
pub open spec fn network_down_spec(causes: Seq<Cause>, full: Seq<char>) -> bool {
    let m = lower_spec(full);
    ||| has_network_cause(causes)
    ||| has_text(m, "network is unreachable"@)
    ||| has_text(m, "network is down"@)
    ||| has_text(m, "no route to host"@)
    ||| has_text(m, "no route to network"@)
    ||| has_text(m, "enetunreach"@)
    ||| has_text(m, "enetdown"@)
    ||| has_text(m, "ehostunreach"@)
    ||| names_os_error(m, 100)
    ||| names_os_error(m, 101)
    ||| names_os_error(m, 113)
    ||| names_os_error(m, 10_050)
    ||| names_os_error(m, 10_051)
    ||| names_os_error(m, 10_065)
}

pub fn is_local_network_down(error: &ErrorChain) -> (r: bool)
    ensures
        r == network_down_spec(error.causes@, error.full@),
{
    let mut i: usize = 0;
    while i < error.causes.len()
        invariant
            i <= error.causes@.len(),
            forall|k: int|
                0 <= k < i ==> match #[trigger] error.causes@[k] {
                    Cause::Io { code: Some(code), .. } => !is_network_code(code),
                    _ => true,
                },
        decreases error.causes@.len() - i,
    {
        if let Cause::Io { code: Some(code), .. } = error.causes[i] {
            if network_code(code) {
                assert(error.causes@[i as int] is Io);
                return true;
            }
        }
        i = i + 1;
    }
    let low = lower(chars_of(error.full.as_str()).as_slice());
    let m = low.as_slice();
    contains(m, "network is unreachable") || contains(m, "network is down") || contains(
        m,
        "no route to host",
    ) || contains(m, "no route to network") || contains(m, "enetunreach") || contains(
        m,
        "enetdown",
    ) || contains(m, "ehostunreach") || contains_os_error_code(m, 100) || contains_os_error_code(
        m,
        101,
    ) || contains_os_error_code(m, 113) || contains_os_error_code(m, 10_050)
        || contains_os_error_code(m, 10_051) || contains_os_error_code(m, 10_065)
}

pub open spec fn is_reset_kind(kind: IoKind) -> bool {
    kind == IoKind::ConnectionReset || kind == IoKind::ConnectionAborted || kind
        == IoKind::BrokenPipe
}

pub open spec fn has_reset_cause(causes: Seq<Cause>) -> bool {
    exists|i: int|
        0 <= i < causes.len() && match #[trigger] causes[i] {
            Cause::Io { kind, .. } => is_reset_kind(kind),
            _ => false,
        }
}

/// The other side closed the stream.
pub open spec fn stream_reset_spec(causes: Seq<Cause>, message: Seq<char>) -> bool {
    ||| has_reset_cause(causes)
    ||| has_text(message, "connection reset by peer"@)
    ||| has_text(message, "connection aborted"@)
    ||| has_text(message, "broken pipe"@)
}

pub fn is_remote_tcp_stream_reset(error: &ErrorChain, message: &str) -> (r: bool)
    ensures
        r == stream_reset_spec(error.causes@, message@),
{
    let mut i: usize = 0;
    while i < error.causes.len()
        invariant
            i <= error.causes@.len(),
            forall|k: int|
                0 <= k < i ==> match #[trigger] error.causes@[k] {
                    Cause::Io { kind, .. } => !is_reset_kind(kind),
                    _ => true,
                },
        decreases error.causes@.len() - i,
    {
        if let Cause::Io { kind, .. } = error.causes[i] {
            if kind == IoKind::ConnectionReset || kind == IoKind::ConnectionAborted || kind
                == IoKind::BrokenPipe {
                assert(error.causes@[i as int] is Io);
                return true;
            }
        }
        i = i + 1;
    }
    let all = chars_of(message);
    let m = all.as_slice();
    contains(m, "connection reset by peer") || contains(m, "connection aborted") || contains(
        m,
        "broken pipe",
    )
}

pub open spec fn transport_timeout_spec(message: Seq<char>) -> bool {
    ||| has_text(message, "transaction timeout"@)
    ||| has_text(message, "request timeout"@)
    ||| has_text(message, "i/o timeout"@)
    ||| has_text(message, "timed out"@)
    ||| has_text(message, "deadline has elapsed"@)
}

pub fn is_transport_timeout(message: &str) -> (r: bool)
    ensures
        r == transport_timeout_spec(message@),
{
    let all = chars_of(message);
    let m = all.as_slice();
    contains(m, "transaction timeout") || contains(m, "request timeout") || contains(
        m,
        "i/o timeout",
    ) || contains(m, "timed out") || contains(m, "deadline has elapsed")
}

/// Where a relay gave a code, the code decides, and not what is said beside it:
/// a quota that is used up never costs the credentials.
pub proof fn law_codes_decide(causes: Seq<Cause>, message: Seq<char>)
    requires
        first_stun_code(causes) == Some(486i32),
    ensures
        !invalid_credentials_spec(causes, message),
        allocate_code(causes) is Some && allocate_code(causes) == first_stun_code(causes)
            ==> quota_spec(causes, message),
{
}

} // verus!
