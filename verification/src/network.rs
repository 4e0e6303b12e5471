//! The decisions of peer synchronisation. The node's driver dials, sends
//! and receives; these functions say what it has to do next.

use crate::encoding::decimal;
use crate::encoding::push_decimal;
use crate::string_map::texts;
use vstd::prelude::*;
use vstd::string::StringExecFns;

verus! {

/// The text that asks a peer for its ledger.
pub open spec fn request_text() -> Seq<char> {
    "request_blockchain"@
}

/// The text that asks a peer for its ledger.
pub fn request_token() -> (token: &'static str)
    ensures
        token@ == request_text(),
{
    "request_blockchain"
}

/// The fields of `text` between its commas. Text without a comma is one
/// field, and so is empty text; a comma at either end borders an empty
/// field.
pub open spec fn comma_fields(text: Seq<char>) -> Seq<Seq<char>>
    decreases text.len(),
{
    if text.len() == 0 {
        seq![Seq::empty()]
    } else {
        let before = comma_fields(text.drop_last());
        if text.last() == ',' {
            before.push(Seq::empty())
        } else {
            before.drop_last().push(before.last().push(text.last()))
        }
    }
}

/// The peer addresses that a list with commas between them names.
pub fn parse_peer_addresses(list: &str) -> (addresses: Vec<String>)
    ensures
        texts(addresses@) == comma_fields(list@),
{
    let mut addresses: Vec<String> = Vec::new();
    let mut current = String::new();
    for c in it: list.chars()
        invariant
            it.seq() == list@,
            comma_fields(list@.take(it.index() as int)) == texts(addresses@).push(current@),
    {
        let ghost i = it.index() as int;
        let ghost done = texts(addresses@);
        let ghost field = current@;
        assert(list@.take(i + 1).drop_last() =~= list@.take(i));
        assert(list@.take(i + 1).last() == c);
        if c == ',' {
            addresses.push(current);
            current = String::new();
            assert(texts(addresses@) =~= done.push(field));
        } else {
            current.push(c);
            assert(done.push(field).drop_last().push(done.push(field).last().push(c))
                =~= done.push(current@));
        }
    }
    assert(list@.take(list@.len() as int) =~= list@);
    let ghost done = texts(addresses@);
    let ghost field = current@;
    addresses.push(current);
    assert(texts(addresses@) =~= done.push(field));
    addresses
}

/// How often a peer is dialled, and how long the driver waits before it
/// dials again.
#[derive(Clone, Copy, Debug, PartialEq, Eq, Structural)]
pub struct RetryPolicy {
    /// The number of contact attempts after which the peer is given up.
    pub max_attempts: u32,
    /// The pause before every attempt but the first, in milliseconds.
    pub backoff_millis: u64,
}

impl RetryPolicy {
    /// Three attempts, without a pause between them.
    pub fn standard() -> (policy: RetryPolicy)
        ensures
            policy == (RetryPolicy { max_attempts: 3, backoff_millis: 0 }),
    {
        RetryPolicy { max_attempts: 3, backoff_millis: 0 }
    }
}

/// Why synchronisation failed.
#[derive(Clone, Copy, Debug, PartialEq, Eq, Structural)]
pub enum SyncError {
    /// No connection could be made in the given number of attempts.
    Unreachable { attempts: u32 },
    /// The last attempt made a connection, but the request could not be
    /// sent.
    RequestFailed,
    /// The last attempt sent the request, but no ledger could be read from
    /// the answer.
    BadResponse,
    /// None of the peers was synchronised with.
    NoPeerSynchronized,
}

/// The description of an error that arose with the peer at `peer_address`.
pub open spec fn error_text(error: SyncError, peer_address: Seq<char>) -> Seq<char> {
    match error {
        SyncError::Unreachable { attempts } => "Failed to connect to peer at "@ + peer_address
            + " after "@ + decimal(attempts as nat) + " attempts"@,
        SyncError::RequestFailed => "Failed to connect to peer at "@ + peer_address,
        SyncError::BadResponse => "Failed to read the ledger of peer at "@ + peer_address,
        SyncError::NoPeerSynchronized => "Failed to synchronize with any peers."@,
    }
}

impl SyncError {
    /// A description of the error, which arose with the peer at
    /// `peer_address`.
    pub fn message(&self, peer_address: &str) -> (text: String)
        ensures
            text@ == error_text(*self, peer_address@),
    {
        match self {
            SyncError::Unreachable { attempts } => {
                let mut text = "Failed to connect to peer at ".to_owned();
                text.append(peer_address);
                text.append(" after ");
                push_decimal(&mut text, *attempts as u128);
                text.append(" attempts");
                text
            },
            SyncError::RequestFailed => {
                let mut text = "Failed to connect to peer at ".to_owned();
                text.append(peer_address);
                text
            },
            SyncError::BadResponse => {
                let mut text = "Failed to read the ledger of peer at ".to_owned();
                text.append(peer_address);
                text
            },
            SyncError::NoPeerSynchronized => "Failed to synchronize with any peers.".to_owned(),
        }
    }
}

/// Where the contact with one peer stands. Attempts are counted from 1.
#[derive(Clone, Copy, Debug, PartialEq, Eq, Structural)]
pub enum SyncState {
    /// A connection is to be made.
    Connecting { attempt: u32 },
    /// The connection stands; the request is to be sent.
    Requesting { attempt: u32 },
    /// The request is sent; the peer's ledger is to be read.
    AwaitingResponse { attempt: u32 },
    /// The peer's ledger was received.
    Synchronized,
    /// The peer was given up.
    Failed(SyncError),
}

/// What the driver reports of the step it was told to take.
#[derive(Clone, Copy, Debug, PartialEq, Eq, Structural)]
pub enum SyncEvent {
    /// The connection was made.
    Connected,
    /// The connection could not be made.
    ConnectFailed,
    /// The request was sent.
    RequestSent,
    /// The request could not be sent.
    RequestFailed,
    /// The peer's ledger was read.
    ResponseReceived,
    /// No ledger could be read from the peer's answer.
    ResponseFailed,
}

/// What the driver has to do next.
#[derive(Clone, Copy, Debug, PartialEq, Eq, Structural)]
pub enum SyncAction {
    /// Wait for the given time, then dial the peer.
    Connect { delay_millis: u64 },
    /// Send the request text over the connection.
    SendRequest,
    /// Read the peer's ledger from the connection.
    ReadResponse,
    /// Merge the ledger that was read; the contact is over.
    Merge,
    /// Report the error; the contact is over.
    GiveUp(SyncError),
}

/// Whether the contact is over.
pub open spec fn is_terminal(state: SyncState) -> bool {
    state is Synchronized || state is Failed
}

/// The state after a failed attempt: the next attempt where one is left,
/// else the failure `error`.
pub open spec fn after_failure(policy: RetryPolicy, attempt: u32, error: SyncError) -> SyncState {
    if attempt < policy.max_attempts {
        SyncState::Connecting { attempt: (attempt + 1) as u32 }
    } else {
        SyncState::Failed(error)
    }
}

/// The state that follows `state` on `event`. An event that does not
/// answer the step of `state` changes nothing.
pub open spec fn next_state(policy: RetryPolicy, state: SyncState, event: SyncEvent) -> SyncState {
    match (state, event) {
        (SyncState::Connecting { attempt }, SyncEvent::Connected) => SyncState::Requesting {
            attempt,
        },
        (SyncState::Connecting { attempt }, SyncEvent::ConnectFailed) => after_failure(
            policy,
            attempt,
            SyncError::Unreachable { attempts: policy.max_attempts },
        ),
        (SyncState::Requesting { attempt }, SyncEvent::RequestSent) => SyncState::AwaitingResponse {
            attempt,
        },
        (SyncState::Requesting { attempt }, SyncEvent::RequestFailed) => after_failure(
            policy,
            attempt,
            SyncError::RequestFailed,
        ),
        (SyncState::AwaitingResponse { .. }, SyncEvent::ResponseReceived) => {
            SyncState::Synchronized
        },
        (SyncState::AwaitingResponse { attempt }, SyncEvent::ResponseFailed) => after_failure(
            policy,
            attempt,
            SyncError::BadResponse,
        ),
        _ => state,
    }
}

/// Whether `event` answers the step of `state`.
pub open spec fn answers(state: SyncState, event: SyncEvent) -> bool {
    match state {
        SyncState::Connecting { .. } => event is Connected || event is ConnectFailed,
        SyncState::Requesting { .. } => event is RequestSent || event is RequestFailed,
        SyncState::AwaitingResponse { .. } => event is ResponseReceived || event is ResponseFailed,
        _ => false,
    }
}

/// What the driver has to do in `state`.
pub open spec fn action_of(policy: RetryPolicy, state: SyncState) -> SyncAction {
    match state {
        SyncState::Connecting { attempt } => SyncAction::Connect {
            delay_millis: if attempt <= 1 {
                0
            } else {
                policy.backoff_millis
            },
        },
        SyncState::Requesting { .. } => SyncAction::SendRequest,
        SyncState::AwaitingResponse { .. } => SyncAction::ReadResponse,
        SyncState::Synchronized => SyncAction::Merge,
        SyncState::Failed(error) => SyncAction::GiveUp(error),
    }
}

/// A bound on the number of steps that the contact can still take.
pub open spec fn steps_left(policy: RetryPolicy, state: SyncState) -> int {
    match state {
        SyncState::Connecting { attempt } => 3 * attempts_left(policy, attempt) + 3,
        SyncState::Requesting { attempt } => 3 * attempts_left(policy, attempt) + 2,
        SyncState::AwaitingResponse { attempt } => 3 * attempts_left(policy, attempt) + 1,
        _ => 0,
    }
}

/// The number of attempts that may follow attempt `attempt`.
pub open spec fn attempts_left(policy: RetryPolicy, attempt: u32) -> int {
    if attempt < policy.max_attempts {
        policy.max_attempts - attempt
    } else {
        0
    }
}

impl SyncState {
    /// The state in which the contact with a peer begins.
    pub fn start() -> (state: SyncState)
        ensures
            state == (SyncState::Connecting { attempt: 1 }),
    {
        SyncState::Connecting { attempt: 1 }
    }

    /// What the driver has to do in this state.
    pub fn action(&self, policy: &RetryPolicy) -> (action: SyncAction)
        ensures
            action == action_of(*policy, *self),
    {
        match self {
            SyncState::Connecting { attempt } => SyncAction::Connect {
                delay_millis: if *attempt <= 1 {
                    0
                } else {
                    policy.backoff_millis
                },
            },
            SyncState::Requesting { .. } => SyncAction::SendRequest,
            SyncState::AwaitingResponse { .. } => SyncAction::ReadResponse,
            SyncState::Synchronized => SyncAction::Merge,
            SyncState::Failed(error) => SyncAction::GiveUp(*error),
        }
    }

    /// The state that follows this one on `event`. Every event that answers
    /// the step of a state brings the contact nearer to its end.
    pub fn step(self, policy: &RetryPolicy, event: SyncEvent) -> (next: SyncState)
        ensures
            next == next_state(*policy, self, event),
            is_terminal(self) ==> next == self,
            answers(self, event) ==> steps_left(*policy, next) < steps_left(*policy, self),
    {
        match (self, event) {
            (SyncState::Connecting { attempt }, SyncEvent::Connected) => SyncState::Requesting {
                attempt,
            },
            (SyncState::Connecting { attempt }, SyncEvent::ConnectFailed) => retry_or_fail(
                policy,
                attempt,
                SyncError::Unreachable { attempts: policy.max_attempts },
            ),
            (SyncState::Requesting { attempt }, SyncEvent::RequestSent) => {
                SyncState::AwaitingResponse { attempt }
            },
            (SyncState::Requesting { attempt }, SyncEvent::RequestFailed) => retry_or_fail(
                policy,
                attempt,
                SyncError::RequestFailed,
            ),
            (SyncState::AwaitingResponse { .. }, SyncEvent::ResponseReceived) => {
                SyncState::Synchronized
            },
            (SyncState::AwaitingResponse { attempt }, SyncEvent::ResponseFailed) => retry_or_fail(
                policy,
                attempt,
                SyncError::BadResponse,
            ),
            (state, _) => state,
        }
    }
}

/// The state after attempt `attempt` has failed with `error`.
fn retry_or_fail(policy: &RetryPolicy, attempt: u32, error: SyncError) -> (state: SyncState)
    ensures
        state == after_failure(*policy, attempt, error),
{
    if attempt < policy.max_attempts {
        SyncState::Connecting { attempt: attempt + 1 }
    } else {
        SyncState::Failed(error)
    }
}

/// How the contact with one peer ended.
#[derive(Clone, Copy, Debug, PartialEq, Eq, Structural)]
pub enum PeerOutcome {
    /// The peer's ledger was received and merged.
    Synchronized,
    /// The peer was given up.
    Failed(SyncError),
}

/// How a round over all peers treats a peer that fails.
#[derive(Clone, Copy, Debug, PartialEq, Eq, Structural)]
pub enum SyncMode {
    /// The first peer that fails ends the round with its error.
    AllPeers,
    /// Every peer is contacted; the round fails where none was
    /// synchronised with.
    AnyPeer,
}

/// What the driver of a round has to do next.
#[derive(Clone, Copy, Debug, PartialEq, Eq, Structural)]
pub enum RoundAction {
    /// Contact the peer with this index.
    Contact(usize),
    /// End the round with success.
    Succeed,
    /// End the round with this error.
    Fail(SyncError),
}

/// Whether outcome `i` is the first failure among `outcomes`.
pub open spec fn is_first_failure(outcomes: Seq<PeerOutcome>, i: int) -> bool {
    &&& 0 <= i < outcomes.len()
    &&& outcomes[i] is Failed
    &&& forall|j: int| 0 <= j < i ==> #[trigger] outcomes[j] is Synchronized
}

/// Whether a round over `peer_count` peers, of which the first
/// `outcomes.len()` were contacted with these outcomes, goes on as `action`
/// says.
pub open spec fn round_goes_on(
    mode: SyncMode,
    peer_count: int,
    outcomes: Seq<PeerOutcome>,
    action: RoundAction,
) -> bool {
    let all_synchronized = forall|i: int|
        0 <= i < outcomes.len() ==> #[trigger] outcomes[i] is Synchronized;
    let any_synchronized = exists|i: int|
        0 <= i < outcomes.len() && #[trigger] outcomes[i] is Synchronized;
    match mode {
        SyncMode::AllPeers => match action {
            RoundAction::Contact(next) => all_synchronized && next == outcomes.len()
                && outcomes.len() < peer_count,
            RoundAction::Succeed => all_synchronized && outcomes.len() >= peer_count,
            RoundAction::Fail(error) => exists|i: int|
                is_first_failure(outcomes, i) && outcomes[i] == PeerOutcome::Failed(error),
        },
        SyncMode::AnyPeer => match action {
            RoundAction::Contact(next) => next == outcomes.len() && outcomes.len() < peer_count,
            RoundAction::Succeed => any_synchronized && outcomes.len() >= peer_count,
            RoundAction::Fail(error) => !any_synchronized && outcomes.len() >= peer_count
                && error == SyncError::NoPeerSynchronized,
        },
    }
}

/// What the driver of a round has to do next, after the first
/// `outcomes.len()` of `peer_count` peers were contacted with these
/// outcomes.
pub fn next_in_round(mode: SyncMode, peer_count: usize, outcomes: &Vec<PeerOutcome>) -> (action:
    RoundAction)
    ensures
        round_goes_on(mode, peer_count as int, outcomes@, action),
{
    let mut any_synchronized = false;
    let mut first_failure: Option<SyncError> = None;
    let mut i: usize = 0;
    while i < outcomes.len()
        invariant
            i <= outcomes.len(),
            any_synchronized == exists|k: int|
                0 <= k < i && #[trigger] outcomes@[k] is Synchronized,
            (match first_failure {
                None => forall|k: int| 0 <= k < i ==> #[trigger] outcomes@[k] is Synchronized,
                Some(error) => exists|k: int|
                    0 <= k < i && is_first_failure(outcomes@, k) && outcomes@[k]
                        == PeerOutcome::Failed(error),
            }),
        decreases outcomes.len() - i,
    {
        match outcomes[i] {
            PeerOutcome::Synchronized => {
                any_synchronized = true;
            },
            PeerOutcome::Failed(error) => {
                if first_failure.is_none() {
                    assert(is_first_failure(outcomes@, i as int));
                    first_failure = Some(error);
                }
            },
        }
        i = i + 1;
    }
    match mode {
        SyncMode::AllPeers => match first_failure {
            Some(error) => RoundAction::Fail(error),
            None => if outcomes.len() < peer_count {
                RoundAction::Contact(outcomes.len())
            } else {
                RoundAction::Succeed
            },
        },
        SyncMode::AnyPeer => if outcomes.len() < peer_count {
            RoundAction::Contact(outcomes.len())
        } else if any_synchronized {
            RoundAction::Succeed
        } else {
            RoundAction::Fail(SyncError::NoPeerSynchronized)
        },
    }
}

} // verus!
