use fcross::chain::{StdFailure, StoredItem};
use fcross::coordinator2::contract::{check_ready_vote, instantiate, Response};
use fcross::coordinator2::error::ContractError;
use fcross::coordinator2::ibc::{ibc_channel_close, ChannelError};
use fcross::coordinator2::msg::{
    ExecuteMsg, InstantiateMsg, Instruction, StatusInstruction, StatusVote, ValidityInstruction, ValidityVote, Vote,
};
use fcross::coordinator2::state::ContractState;

const NOW: u64 = 7;

fn coordinator(chain_num: u16) -> ContractState {
    let (mut state, _) = instantiate(InstantiateMsg { chain_num });
    state.ibc_channel_open("connection-1".to_string(), "channel-1".to_string()).unwrap();
    state.ibc_channel_open("connection-0".to_string(), "channel-0".to_string()).unwrap();
    state
}

fn status(state: &mut ContractState, tx_id: u32, chain_id: u16, ok: bool) -> Result<Response, ContractError> {
    state.execute(NOW, &ExecuteMsg::AddStatusVote { vote: StatusVote { tx_id, chain_id, status: ok } })
}

fn validity(state: &mut ContractState, tx_id: u32, chain_id: u16, deps: Vec<u32>) -> Result<Response, ContractError> {
    state.execute(NOW, &ExecuteMsg::AddValidityVote { vote: ValidityVote { tx_id, chain_id, dependencies: deps } })
}

fn attrs(list: &[(&str, &str)]) -> Vec<(String, String)> {
    list.iter().map(|(k, v)| (k.to_string(), v.to_string())).collect()
}

#[test]
fn channels_are_kept_by_connection_in_ascending_order() {
    let state = coordinator(2);
    let keys: Vec<&str> = state.my_channels.iter().map(|(k, _)| k.as_str()).collect();
    assert_eq!(keys, vec!["connection-0", "connection-1"]);
}

#[test]
fn channel_handshake_errors() {
    let mut state = coordinator(2);
    assert_eq!(
        state.ibc_channel_open("connection-0".to_string(), "channel-9".to_string()),
        Err(ChannelError::ConnectionAlreadyExists)
    );
    assert_eq!(
        state.ibc_channel_connect(&"connection-5".to_string(), &"channel-0".to_string()).err(),
        Some(ChannelError::ChannelNotFound)
    );
    assert_eq!(
        state.ibc_channel_connect(&"connection-0".to_string(), &"channel-1".to_string()).err(),
        Some(ChannelError::InconsistentChannelId)
    );
    let a = state.ibc_channel_connect(&"connection-0".to_string(), &"channel-0".to_string()).unwrap();
    assert_eq!(a, attrs(&[("established_connection_id", "connection-0")]));
    assert!(state.my_channels[0].1.finalized);
    assert_eq!(
        state.ibc_channel_connect(&"connection-0".to_string(), &"channel-0".to_string()).err(),
        Some(ChannelError::ChannelAlreadyEstablished)
    );
    assert_eq!(ibc_channel_close(), Err(ChannelError::ClosingNotAllowed));
}

#[test]
fn status_round_advances_when_all_chains_agree() {
    let mut state = coordinator(2);
    assert!(status(&mut state, 1, 1, true).unwrap().messages.is_empty());
    let r = status(&mut state, 1, 2, true).unwrap();
    assert_eq!(r.attributes, attrs(&[("new_vote", "1-2"), ("instruction", "committed")]));
    assert_eq!(r.messages.len(), 2);
    assert_eq!(r.messages[0].channel_id, "channel-0");
    assert_eq!(r.messages[0].data, Instruction::Status(StatusInstruction { tx_id: 1, advancement: true }));
    assert_eq!(state.closed_votes().votes, vec![(1, true)]);
}

#[test]
fn status_votes_after_the_decision_are_ignored() {
    let mut state = coordinator(2);
    status(&mut state, 1, 1, false).unwrap();
    let r = status(&mut state, 1, 2, true).unwrap();
    assert_eq!(r.attributes, attrs(&[("new_vote", "1-2")]));
    assert!(r.messages.is_empty());
    assert_eq!(state.closed_votes().votes, vec![(1, false)]);
}

#[test]
fn status_vote_twice_is_refused() {
    let mut state = coordinator(3);
    status(&mut state, 1, 1, true).unwrap();
    assert_eq!(status(&mut state, 1, 1, true).err(), Some(ContractError::AlreadyVoted { tx_id: 1, chain_id: 1 }));
}

#[test]
fn validity_votes_need_an_advanced_status_round() {
    let mut state = coordinator(1);
    assert_eq!(validity(&mut state, 3, 1, vec![]).err(), Some(ContractError::StatusVoteUnfinished(3)));
    status(&mut state, 3, 1, false).unwrap();
    assert_eq!(validity(&mut state, 3, 1, vec![]).err(), Some(ContractError::ValidityVoteNotAllowed(3)));
}

#[test]
fn validity_round_commits_when_dependencies_advanced() {
    let mut state = coordinator(2);
    for tx in [1u32, 2] {
        status(&mut state, tx, 1, true).unwrap();
        status(&mut state, tx, 2, true).unwrap();
    }
    let r = validity(&mut state, 2, 1, vec![1, 1]).unwrap();
    assert_eq!(r.attributes, attrs(&[("new_vote", "2-1")]));
    assert!(r.messages.is_empty());
    assert_eq!(state.opening_votes().r2_votes, vec![(2, (vec![1, 1], vec![1]))]);
    let r = validity(&mut state, 2, 2, vec![1, 2]).unwrap();
    assert_eq!(r.attributes, attrs(&[("new_vote", "2-2")]));
    assert_eq!(r.messages.len(), 2);
    assert_eq!(r.messages[1].channel_id, "channel-1");
    assert_eq!(r.messages[1].data, Instruction::Validity(ValidityInstruction { tx_id: 2, commitment: true }));
    assert_eq!(state.all_closed_votes().r2_votes, vec![(2, true)]);
    assert!(state.ready_txs.is_empty());
    assert_eq!(validity(&mut state, 2, 3, vec![]).err(), Some(ContractError::TxClosed(2)));
}

#[test]
fn validity_round_waits_for_undecided_dependencies() {
    let mut state = coordinator(1);
    status(&mut state, 1, 1, true).unwrap();
    // transaction 5's status round is still open (chain 1 has not voted on it)
    let r = validity(&mut state, 1, 1, vec![5]).unwrap();
    assert!(r.messages.is_empty());
    assert_eq!(state.ready_txs, vec![1]);
    assert!(state.all_closed_votes().r2_votes.is_empty());
    // the status round of 5 aborts; a later full validity round re-checks the ready list
    status(&mut state, 5, 1, false).unwrap();
    status(&mut state, 6, 1, true).unwrap();
    let r = validity(&mut state, 6, 1, vec![]).unwrap();
    assert_eq!(r.messages.len(), 4);
    assert_eq!(r.messages[0].data, Instruction::Validity(ValidityInstruction { tx_id: 1, commitment: false }));
    assert_eq!(r.messages[2].data, Instruction::Validity(ValidityInstruction { tx_id: 6, commitment: true }));
    assert_eq!(state.all_closed_votes().r2_votes, vec![(1, false), (6, true)]);
    assert!(state.ready_txs.is_empty());
}

#[test]
fn validity_vote_twice_is_refused() {
    let mut state = coordinator(2);
    status(&mut state, 1, 1, true).unwrap();
    status(&mut state, 1, 2, true).unwrap();
    validity(&mut state, 1, 1, vec![]).unwrap();
    assert_eq!(validity(&mut state, 1, 1, vec![]).err(), Some(ContractError::AlreadyVoted { tx_id: 1, chain_id: 1 }));
}

#[test]
fn a_ready_transaction_without_open_votes_fails_the_check() {
    let (mut state, _) = instantiate(InstantiateMsg { chain_num: 1 });
    state.ready_txs.push(4);
    match check_ready_vote(state, NOW) {
        fcross::chain::Outcome::Failed((_, e)) => {
            assert_eq!(e, ContractError::StdError(StdFailure::NotFound(StoredItem::ValidityVotes(4))))
        },
        _ => panic!("the check must fail"),
    }
}

#[test]
fn packets_are_acknowledged_even_when_the_vote_fails() {
    let mut state = coordinator(1);
    let rc = state.ibc_packet_receive(NOW, &Vote::Validity(ValidityVote { tx_id: 1, chain_id: 1, dependencies: vec![] })).unwrap();
    assert_eq!(rc.ack, "coordinator_force_success");
    assert_eq!(rc.failure, Some(ContractError::StatusVoteUnfinished(1)));
    assert!(rc.attributes.is_empty());
    assert_eq!(state.my_logs().logs, "start:\nStatusVoteUnfinished(1)");
    let rc = state.ibc_packet_receive(NOW, &Vote::Status(StatusVote { tx_id: 1, chain_id: 1, status: true })).unwrap();
    assert_eq!(rc.ack, "coordinator_success");
    assert_eq!(rc.failure, None);
    assert_eq!(rc.attributes, attrs(&[("new_vote", "1-1"), ("instruction", "committed")]));
    assert_eq!(rc.messages.len(), 2);
}

#[test]
fn a_failed_packet_keeps_what_it_wrote() {
    let (mut state, _) = instantiate(InstantiateMsg { chain_num: 1 });
    state.closed_r1_votes.insert(2, true);
    state.closed_r1_votes.insert(3, true);
    // a stale ready entry: checking it fails after transaction 3 has been recorded
    state.ready_txs.push(9);
    let rc = state
        .ibc_packet_receive(NOW, &Vote::Validity(ValidityVote { tx_id: 3, chain_id: 1, dependencies: vec![] }))
        .unwrap();
    assert_eq!(rc.failure, Some(ContractError::StdError(StdFailure::NotFound(StoredItem::ValidityVotes(9)))));
    assert_eq!(state.opening_votes().r2_votes, vec![(3, (vec![], vec![1]))]);
    assert_eq!(state.ready_txs, vec![9, 3]);
    assert_eq!(
        state.my_logs().logs,
        "start:\nStdError(NotFound { kind: \"type: (alloc::vec::Vec<u32>, alloc::vec::Vec<u16>); key: \
         [00, 10, 6F, 70, 65, 6E, 69, 6E, 67, 5F, 72, 32, 5F, 76, 6F, 74, 65, 73, 00, 00, 00, 09]\" })"
    );
    // the same request through `execute` changes nothing
    let (mut fresh, _) = instantiate(InstantiateMsg { chain_num: 1 });
    fresh.closed_r1_votes.insert(3, true);
    fresh.ready_txs.push(9);
    assert!(validity(&mut fresh, 3, 1, vec![]).is_err());
    assert!(fresh.opening_votes().r2_votes.is_empty());
    assert_eq!(fresh.ready_txs, vec![9]);
}

#[test]
fn error_texts_of_the_coordinator() {
    assert_eq!(ContractError::AlreadyVoted { tx_id: 4, chain_id: 2 }.debug_text(), "AlreadyVoted { tx_id: 4, chain_id: 2 }");
    assert_eq!(ContractError::ValidityVoteNotAllowed(8).debug_text(), "ValidityVoteNotAllowed(8)");
    assert_eq!(ContractError::TxClosed(10).debug_text(), "TxClosed(10)");
}
