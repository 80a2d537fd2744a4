use fcross::coordinator1::contract::{create_instruction, instantiate};
use fcross::coordinator1::error::ContractError;
use fcross::coordinator1::msg::{ExecuteMsg, InstantiateMsg, Instruction, Vote};
use fcross::coordinator1::state::{ChannelInfo, ContractState};

const NOW: u64 = 5_000;
const TIMEOUT: u64 = 3_600_000_000_005_000;

fn channel(conn: &str, chan: &str) -> (String, ChannelInfo) {
    (conn.to_string(), ChannelInfo { channel_id: chan.to_string(), finalized: true })
}

fn coordinator(chain_num: u16) -> ContractState {
    let (mut state, _) = instantiate(InstantiateMsg { chain_num });
    state.my_channels.push(channel("connection-0", "channel-0"));
    state.my_channels.push(channel("connection-1", "channel-7"));
    state
}

fn vote(state: &mut ContractState, tx_id: u32, chain_id: u16, success: bool) -> Result<fcross::coordinator1::contract::Response, ContractError> {
    state.execute(NOW, &ExecuteMsg::AddVote { vote: Vote { tx_id, chain_id, success } })
}

fn attrs(list: &[(&str, &str)]) -> Vec<(String, String)> {
    list.iter().map(|(k, v)| (k.to_string(), v.to_string())).collect()
}

#[test]
fn instantiate_records_the_chain_count() {
    let (state, attributes) = instantiate(InstantiateMsg { chain_num: 3 });
    assert_eq!(attributes, attrs(&[("method", "instantiate"), ("chain_num", "3")]));
    assert_eq!(state.chain_num, 3);
    assert_eq!(state.my_logs().logs, "start:");
    assert!(state.opening_votes().votes.is_empty());
    assert!(state.closed_votes().votes.is_empty());
}

#[test]
fn all_votes_in_favour_commit() {
    let mut state = coordinator(2);
    let first = vote(&mut state, 1, 1, true).unwrap();
    assert_eq!(first.attributes, attrs(&[("new_vote", "1-1")]));
    assert!(first.messages.is_empty());
    assert_eq!(state.opening_votes().votes, vec![(1, vec![1])]);

    let second = vote(&mut state, 1, 2, true).unwrap();
    assert_eq!(second.attributes, attrs(&[("new_vote", "1-2"), ("instruction", "committed")]));
    assert_eq!(second.messages.len(), 2);
    assert_eq!(second.messages[0].channel_id, "channel-0");
    assert_eq!(second.messages[1].channel_id, "channel-7");
    for p in &second.messages {
        assert_eq!(p.data, Instruction { tx_id: 1, commitment: true });
        assert_eq!(p.timeout, TIMEOUT);
    }
    assert!(state.opening_votes().votes.is_empty());
    assert_eq!(state.closed_votes().votes, vec![(1, true)]);
}

#[test]
fn one_vote_against_aborts() {
    let mut state = coordinator(3);
    vote(&mut state, 4, 1, true).unwrap();
    let r = vote(&mut state, 4, 2, false).unwrap();
    assert_eq!(r.attributes, attrs(&[("new_vote", "4-2"), ("instruction", "aborted")]));
    assert_eq!(r.messages.len(), 2);
    assert_eq!(r.messages[1].data, Instruction { tx_id: 4, commitment: false });
    assert_eq!(state.closed_votes().votes, vec![(4, false)]);
    assert!(state.opening_votes().votes.is_empty());
}

#[test]
fn a_decided_transaction_refuses_votes() {
    let mut state = coordinator(1);
    vote(&mut state, 9, 1, false).unwrap();
    assert_eq!(vote(&mut state, 9, 2, true).err(), Some(ContractError::AlreadyClosed { tx_id: 9 }));
    assert_eq!(state.closed_votes().votes, vec![(9, false)]);
}

#[test]
fn a_chain_votes_once() {
    let mut state = coordinator(3);
    vote(&mut state, 2, 5, true).unwrap();
    assert_eq!(vote(&mut state, 2, 5, false).err(), Some(ContractError::AlreadyVoted { tx_id: 2, chain_id: 5 }));
    assert_eq!(state.opening_votes().votes, vec![(2, vec![5])]);
}

#[test]
fn open_votes_are_listed_by_transaction() {
    let mut state = coordinator(3);
    vote(&mut state, 8, 1, true).unwrap();
    vote(&mut state, 3, 2, true).unwrap();
    vote(&mut state, 8, 2, true).unwrap();
    assert_eq!(state.opening_votes().votes, vec![(3, vec![2]), (8, vec![1, 2])]);
}

#[test]
fn instructions_go_to_every_channel_in_order() {
    let channels = vec![channel("connection-0", "channel-3"), channel("connection-2", "channel-1")];
    let packets = create_instruction(6, false, &channels, NOW);
    assert_eq!(packets.len(), 2);
    assert_eq!(packets[0].channel_id, "channel-3");
    assert_eq!(packets[1].channel_id, "channel-1");
    assert_eq!(packets[0].timeout, TIMEOUT);
    assert!(create_instruction(6, true, &Vec::new(), u64::MAX).is_empty());
}

#[test]
fn a_decision_whose_timeout_overflows_is_refused() {
    let mut state = coordinator(1);
    let r = state.try_execute(u64::MAX, &ExecuteMsg::AddVote { vote: Vote { tx_id: 1, chain_id: 1, success: true } });
    assert!(r.is_none());
    assert!(state.closed_votes().votes.is_empty());
    // without channels no packet is built, so the vote goes through
    let (mut bare, _) = instantiate(InstantiateMsg { chain_num: 1 });
    let r = bare.try_execute(u64::MAX, &ExecuteMsg::AddVote { vote: Vote { tx_id: 1, chain_id: 1, success: true } });
    assert!(matches!(r, Some(Ok(_))));
    assert_eq!(bare.closed_votes().votes, vec![(1, true)]);
}
