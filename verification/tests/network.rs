use cognichain::miner::Miner;
use cognichain::network::next_in_round;
use cognichain::network::parse_peer_addresses;
use cognichain::network::request_token;
use cognichain::network::PeerOutcome;
use cognichain::network::RetryPolicy;
use cognichain::network::RoundAction;
use cognichain::network::SyncAction;
use cognichain::network::SyncError;
use cognichain::network::SyncEvent;
use cognichain::network::SyncMode;
use cognichain::network::SyncState;
use cognichain::server::reply_to;
use cognichain::server::ServerReply;

const EVENTS: [SyncEvent; 6] = [
    SyncEvent::Connected,
    SyncEvent::ConnectFailed,
    SyncEvent::RequestSent,
    SyncEvent::RequestFailed,
    SyncEvent::ResponseReceived,
    SyncEvent::ResponseFailed,
];

fn run(policy: &RetryPolicy, events: &[SyncEvent]) -> SyncState {
    let mut state = SyncState::start();
    for event in events {
        state = state.step(policy, *event);
    }
    state
}

#[test]
fn standard_policy_is_three_attempts_without_a_pause() {
    assert_eq!(RetryPolicy::standard(), RetryPolicy { max_attempts: 3, backoff_millis: 0 });
}

#[test]
fn contact_begins_with_the_first_attempt() {
    assert_eq!(SyncState::start(), SyncState::Connecting { attempt: 1 });
}

#[test]
fn contact_that_goes_well_ends_synchronized() {
    let policy = RetryPolicy::standard();
    let mut state = SyncState::start();
    assert_eq!(state.action(&policy), SyncAction::Connect { delay_millis: 0 });
    state = state.step(&policy, SyncEvent::Connected);
    assert_eq!(state, SyncState::Requesting { attempt: 1 });
    assert_eq!(state.action(&policy), SyncAction::SendRequest);
    state = state.step(&policy, SyncEvent::RequestSent);
    assert_eq!(state, SyncState::AwaitingResponse { attempt: 1 });
    assert_eq!(state.action(&policy), SyncAction::ReadResponse);
    state = state.step(&policy, SyncEvent::ResponseReceived);
    assert_eq!(state, SyncState::Synchronized);
    assert_eq!(state.action(&policy), SyncAction::Merge);
}

#[test]
fn peer_is_given_up_after_three_failed_connections() {
    let policy = RetryPolicy::standard();
    let failed = SyncEvent::ConnectFailed;
    assert_eq!(run(&policy, &[failed]), SyncState::Connecting { attempt: 2 });
    assert_eq!(run(&policy, &[failed, failed]), SyncState::Connecting { attempt: 3 });
    let end = run(&policy, &[failed, failed, failed]);
    assert_eq!(end, SyncState::Failed(SyncError::Unreachable { attempts: 3 }));
    assert_eq!(end.action(&policy), SyncAction::GiveUp(SyncError::Unreachable { attempts: 3 }));
}

#[test]
fn failed_request_counts_as_a_failed_attempt() {
    let policy = RetryPolicy::standard();
    let state = run(&policy, &[SyncEvent::Connected, SyncEvent::RequestFailed]);
    assert_eq!(state, SyncState::Connecting { attempt: 2 });
    let state = run(
        &policy,
        &[
            SyncEvent::ConnectFailed,
            SyncEvent::ConnectFailed,
            SyncEvent::Connected,
            SyncEvent::RequestFailed,
        ],
    );
    assert_eq!(state, SyncState::Failed(SyncError::RequestFailed));
}

#[test]
fn unreadable_answer_counts_as_a_failed_attempt() {
    let policy = RetryPolicy::standard();
    let attempt = [SyncEvent::Connected, SyncEvent::RequestSent, SyncEvent::ResponseFailed];
    assert_eq!(run(&policy, &attempt), SyncState::Connecting { attempt: 2 });
    let thrice: Vec<SyncEvent> = attempt.iter().cycle().take(9).copied().collect();
    assert_eq!(run(&policy, &thrice), SyncState::Failed(SyncError::BadResponse));
    let mut recovered: Vec<SyncEvent> = attempt.to_vec();
    recovered.extend([SyncEvent::Connected, SyncEvent::RequestSent, SyncEvent::ResponseReceived]);
    assert_eq!(run(&policy, &recovered), SyncState::Synchronized);
}

#[test]
fn pause_comes_before_every_attempt_but_the_first() {
    let policy = RetryPolicy { max_attempts: 5, backoff_millis: 250 };
    let mut state = SyncState::start();
    assert_eq!(state.action(&policy), SyncAction::Connect { delay_millis: 0 });
    for attempt in 2..=5 {
        state = state.step(&policy, SyncEvent::ConnectFailed);
        assert_eq!(state, SyncState::Connecting { attempt });
        assert_eq!(state.action(&policy), SyncAction::Connect { delay_millis: 250 });
    }
    state = state.step(&policy, SyncEvent::ConnectFailed);
    assert_eq!(state, SyncState::Failed(SyncError::Unreachable { attempts: 5 }));
}

#[test]
fn policy_without_attempts_gives_up_at_the_first_failure() {
    let policy = RetryPolicy { max_attempts: 0, backoff_millis: 0 };
    assert_eq!(
        run(&policy, &[SyncEvent::ConnectFailed]),
        SyncState::Failed(SyncError::Unreachable { attempts: 0 })
    );
    let policy = RetryPolicy { max_attempts: 1, backoff_millis: 0 };
    assert_eq!(
        run(&policy, &[SyncEvent::ConnectFailed]),
        SyncState::Failed(SyncError::Unreachable { attempts: 1 })
    );
    let policy = RetryPolicy { max_attempts: u32::MAX, backoff_millis: 0 };
    let last = SyncState::Connecting { attempt: u32::MAX };
    assert_eq!(
        last.step(&policy, SyncEvent::ConnectFailed),
        SyncState::Failed(SyncError::Unreachable { attempts: u32::MAX })
    );
}

#[test]
fn events_that_do_not_answer_the_step_change_nothing() {
    let policy = RetryPolicy::standard();
    let states = [
        (SyncState::Connecting { attempt: 2 }, [0usize, 1]),
        (SyncState::Requesting { attempt: 2 }, [2, 3]),
        (SyncState::AwaitingResponse { attempt: 2 }, [4, 5]),
    ];
    for (state, answering) in states {
        for (i, event) in EVENTS.iter().enumerate() {
            let next = state.step(&policy, *event);
            assert_eq!(next != state, answering.contains(&i));
        }
    }
}

#[test]
fn finished_contact_stays_as_it_is() {
    let policy = RetryPolicy::standard();
    for state in [
        SyncState::Synchronized,
        SyncState::Failed(SyncError::RequestFailed),
        SyncState::Failed(SyncError::Unreachable { attempts: 3 }),
    ] {
        for event in EVENTS {
            assert_eq!(state.step(&policy, event), state);
        }
    }
}

#[test]
fn every_contact_ends_within_nine_steps() {
    let policy = RetryPolicy::standard();
    let mut states = vec![SyncState::start()];
    for _ in 0..9 {
        let mut next = Vec::new();
        for state in &states {
            let answers: [SyncEvent; 2] = match state {
                SyncState::Connecting { .. } => [SyncEvent::Connected, SyncEvent::ConnectFailed],
                SyncState::Requesting { .. } => [SyncEvent::RequestSent, SyncEvent::RequestFailed],
                SyncState::AwaitingResponse { .. } => {
                    [SyncEvent::ResponseReceived, SyncEvent::ResponseFailed]
                }
                _ => continue,
            };
            for event in answers {
                next.push(state.step(&policy, event));
            }
        }
        states = next;
    }
    assert!(states
        .iter()
        .all(|state| matches!(state, SyncState::Synchronized | SyncState::Failed(_))));
}

#[test]
fn sync_errors_describe_themselves() {
    assert_eq!(
        SyncError::Unreachable { attempts: 3 }.message("127.0.0.1:6398"),
        "Failed to connect to peer at 127.0.0.1:6398 after 3 attempts"
    );
    assert_eq!(
        SyncError::RequestFailed.message("127.0.0.1:6398"),
        "Failed to connect to peer at 127.0.0.1:6398"
    );
    assert_eq!(
        SyncError::BadResponse.message("peer"),
        "Failed to read the ledger of peer at peer"
    );
    assert_eq!(
        SyncError::NoPeerSynchronized.message("ignored"),
        "Failed to synchronize with any peers."
    );
    assert_eq!(
        SyncError::Unreachable { attempts: 12 }.message(""),
        "Failed to connect to peer at  after 12 attempts"
    );
}

#[test]
fn round_over_all_peers_stops_at_the_first_failure() {
    let failure = SyncError::Unreachable { attempts: 3 };
    let ok = PeerOutcome::Synchronized;
    let failed = PeerOutcome::Failed(failure);
    let mode = SyncMode::AllPeers;
    assert_eq!(next_in_round(mode, 3, &vec![]), RoundAction::Contact(0));
    assert_eq!(next_in_round(mode, 3, &vec![ok]), RoundAction::Contact(1));
    assert_eq!(next_in_round(mode, 3, &vec![ok, ok]), RoundAction::Contact(2));
    assert_eq!(next_in_round(mode, 3, &vec![ok, ok, ok]), RoundAction::Succeed);
    assert_eq!(next_in_round(mode, 3, &vec![failed]), RoundAction::Fail(failure));
    assert_eq!(next_in_round(mode, 3, &vec![ok, failed]), RoundAction::Fail(failure));
    assert_eq!(
        next_in_round(mode, 3, &vec![ok, PeerOutcome::Failed(SyncError::RequestFailed), failed]),
        RoundAction::Fail(SyncError::RequestFailed)
    );
    assert_eq!(next_in_round(mode, 0, &vec![]), RoundAction::Succeed);
}

#[test]
fn round_for_any_peer_visits_all_and_needs_one_success() {
    let ok = PeerOutcome::Synchronized;
    let failed = PeerOutcome::Failed(SyncError::Unreachable { attempts: 3 });
    let mode = SyncMode::AnyPeer;
    assert_eq!(next_in_round(mode, 3, &vec![]), RoundAction::Contact(0));
    assert_eq!(next_in_round(mode, 3, &vec![failed]), RoundAction::Contact(1));
    assert_eq!(next_in_round(mode, 3, &vec![failed, ok]), RoundAction::Contact(2));
    assert_eq!(next_in_round(mode, 3, &vec![failed, ok, failed]), RoundAction::Succeed);
    assert_eq!(next_in_round(mode, 3, &vec![ok, failed, failed]), RoundAction::Succeed);
    assert_eq!(next_in_round(mode, 3, &vec![failed, failed, ok]), RoundAction::Succeed);
    assert_eq!(
        next_in_round(mode, 3, &vec![failed, failed, failed]),
        RoundAction::Fail(SyncError::NoPeerSynchronized)
    );
    assert_eq!(next_in_round(mode, 0, &vec![]), RoundAction::Fail(SyncError::NoPeerSynchronized));
}

#[test]
fn peer_addresses_stand_between_commas() {
    assert_eq!(
        parse_peer_addresses("127.0.0.1:6398,127.0.0.1:6399"),
        vec!["127.0.0.1:6398", "127.0.0.1:6399"]
    );
    assert_eq!(parse_peer_addresses("one"), vec!["one"]);
    assert_eq!(parse_peer_addresses(""), vec![""]);
    assert_eq!(parse_peer_addresses(","), vec!["", ""]);
    assert_eq!(parse_peer_addresses("a,,b,"), vec!["a", "", "b", ""]);
    assert_eq!(parse_peer_addresses(" a , b"), vec![" a ", " b"]);
}

#[test]
fn peer_addresses_agree_with_the_standard_split() {
    let alphabet = ['a', ',', '\u{e9}'];
    let mut lists = vec![String::new()];
    for _ in 0..6 {
        let mut longer = Vec::new();
        for list in &lists {
            for c in alphabet {
                let mut next = list.clone();
                next.push(c);
                longer.push(next);
            }
        }
        for list in &longer {
            let expected: Vec<String> = list.split(',').map(String::from).collect();
            assert_eq!(parse_peer_addresses(list), expected, "{:?}", list);
        }
        lists = longer;
    }
}

#[test]
fn request_text_is_fixed() {
    assert_eq!(request_token(), "request_blockchain");
}

#[test]
fn server_answers_the_request_text_only() {
    assert_eq!(reply_to(b"request_blockchain"), ServerReply::Ledger);
    for other in [
        &b""[..],
        b"request_blockchai",
        b"request_blockchain ",
        b"request_blockchain\n",
        b" request_blockchain",
        b"REQUEST_BLOCKCHAIN",
        b"request_blockchain\xff",
        b"\xffequest_blockchain",
        b"request-blockchain",
    ] {
        assert_eq!(reply_to(other), ServerReply::Nothing);
    }
}

#[test]
fn miner_gets_a_random_identifier_and_the_current_time() {
    let first = Miner::new(String::from("02ab"), String::from("3070 RTX"), 64);
    let second = Miner::new(String::from("02ab"), String::from("3070 RTX"), 64);
    assert_ne!(first.id, second.id);
    // The version of a random UUID is 4.
    assert_eq!((first.id >> 76) & 0xf, 4);
    assert!(first.registration_time > 1_600_000_000_000);
    assert!(second.registration_time >= first.registration_time);
    assert_eq!(first.public_key, "02ab");
    assert_eq!(first.gpu_model, "3070 RTX");
    assert_eq!(first.ram_capacity_gb, 64);
}

#[test]
fn miner_is_made_of_what_is_given() {
    let miner = Miner::registered(7, 1700000000000, String::from("k"), String::from("g"), 8);
    assert_eq!(miner.id, 7);
    assert_eq!(miner.registration_time, 1700000000000);
    assert_eq!(miner.public_key, "k");
    assert_eq!(miner.gpu_model, "g");
    assert_eq!(miner.ram_capacity_gb, 8);
    let copy = miner.clone();
    assert_eq!(copy.id, 7);
    assert_eq!(copy.gpu_model, "g");
}
