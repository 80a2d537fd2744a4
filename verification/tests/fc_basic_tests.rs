use fcross::chain::{Action, StdFailure, StoredItem};
use fcross::fc_basic::contract::{check_execution_stautus, instantiate, tx_debug_string, ExecutionStatus, Response};
use fcross::fc_basic::msg::{ExecuteMsg, FcrossTx, InstantiateMsg, Instruction, Operation, Vote};
use fcross::fc_basic::state::ContractState;
use fcross::fc_stor::error::ContractError;
use fcross::fc_stor::state::ChannelInfo;

const NOW: u64 = 50;

fn attrs(list: &[(&str, &str)]) -> Vec<(String, String)> {
    list.iter().map(|(k, v)| (k.to_string(), v.to_string())).collect()
}

fn chain() -> ContractState {
    let (mut state, attributes) = instantiate(InstantiateMsg { chain_id: 3, original_value: 10 });
    assert_eq!(attributes, attrs(&[("method", "instantiate"), ("initiated_chain", "3"), ("original_value", "10")]));
    state.my_channel = Some(ChannelInfo { channel_id: "channel-4".to_string(), finalized: true });
    state
}

fn tx(tx_id: u32, operation: Operation) -> FcrossTx {
    FcrossTx { tx_id, operation }
}

fn run(state: &mut ContractState, t: FcrossTx) -> Result<Response, ContractError> {
    state.execute(NOW, &ExecuteMsg::ExecuteTxs { fcross_txs: vec![t] })
}

fn sent_votes(r: &Response) -> Vec<Vote> {
    r.messages
        .iter()
        .filter_map(|m| match m {
            Action::Send(p) => Some(p.data),
            Action::Call(_) => None,
        })
        .collect()
}

#[test]
fn status_of_values_with_and_without_inherited_half() {
    let values = vec![Some(1), None];
    assert_eq!(check_execution_stautus(&values, false), ExecutionStatus::Uncertainty);
    assert_eq!(check_execution_stautus(&values, true), ExecutionStatus::Failure);
    assert_eq!(check_execution_stautus(&vec![Some(0)], false), ExecutionStatus::Success);
}

#[test]
fn debug_text_of_a_transaction() {
    assert_eq!(
        tx_debug_string(tx(13, Operation::CreditBalance { amount: 1 })),
        "FcrossTx { tx_id: 13, operation: CreditBalance { amount: 1 } }"
    );
    assert_eq!(
        tx_debug_string(tx(2, Operation::DebitBalance { amount: -4 })),
        "FcrossTx { tx_id: 2, operation: DebitBalance { amount: -4 } }"
    );
}

#[test]
fn execution_and_finalization() {
    let mut state = chain();
    let r = run(&mut state, tx(1, Operation::CreditBalance { amount: 5 })).unwrap();
    assert_eq!(r.attributes, attrs(&[("voted", "true"), ("executed_tx", "1"), ("new_mf_1_len", "2")]));
    assert_eq!(sent_votes(&r), vec![Vote { tx_id: 1, chain_id: 3, success: true }]);
    let r = run(&mut state, tx(2, Operation::DebitBalance { amount: 12 })).unwrap();
    assert_eq!(r.attributes, attrs(&[("voted", "false"), ("executed_tx", "2"), ("new_mf_2_len", "4")]));
    assert!(r.messages.is_empty());
    assert_eq!(state.multifuture(2).unwrap().futures, vec!["10", "15", "None", "3"]);

    let r = state.execute(80, &ExecuteMsg::FinalizeTx { instruction: Instruction { tx_id: 1, commitment: true } }).unwrap();
    assert_eq!(
        r.attributes,
        attrs(&[
            ("updated_mf_1", "len_2_to_1"),
            ("updated_mf_2", "len_4_to_2"),
            ("newly_voted_tx_2", "success"),
            ("finalized_tx", "1"),
            ("committed", "true"),
        ])
    );
    assert_eq!(sent_votes(&r), vec![Vote { tx_id: 2, chain_id: 3, success: true }]);
    assert_eq!(state.multifuture(2).unwrap().futures, vec!["15", "3"]);
    assert_eq!(state.pending, vec![2]);
    let all = state.all_mfs().unwrap().mfs;
    assert_eq!(all, vec![(0, "10".to_string()), (1, "15".to_string()), (2, "15,3".to_string())]);
    assert_eq!(state.my_time_logs().logs, vec!["1,50,80", "2,50,None"]);
}

#[test]
fn errors_of_the_multifuture_chain() {
    let mut state = chain();
    run(&mut state, tx(1, Operation::CreditBalance { amount: 5 })).unwrap();
    assert_eq!(
        run(&mut state, tx(1, Operation::CreditBalance { amount: 5 })).err(),
        Some(ContractError::ExecutionTxIdAlreadyExist { sent_id: 1 })
    );
    let r = state.execute(80, &ExecuteMsg::FinalizeTx { instruction: Instruction { tx_id: 9, commitment: true } });
    assert_eq!(r.err(), Some(ContractError::FinalizationTxNotFound { sent_id: 9, expected_id: vec![1] }));
    assert_eq!(state.multifuture(9).err(), Some(StdFailure::NotFound(StoredItem::Multifuture(9))));
}

#[test]
fn a_full_pending_list_caches_transactions() {
    let mut state = chain();
    for id in 1..=12u32 {
        run(&mut state, tx(id, Operation::CreditBalance { amount: 1 })).unwrap();
    }
    let r = run(&mut state, tx(13, Operation::CreditBalance { amount: 1 })).unwrap();
    assert_eq!(
        r.attributes,
        attrs(&[("lenth_overflow", "12"), ("cached_tx", "FcrossTx { tx_id: 13, operation: CreditBalance { amount: 1 } }")])
    );
    assert_eq!(state.waiting, vec![tx(13, Operation::CreditBalance { amount: 1 })]);
    assert_eq!(state.pending.len(), 12);
}

#[test]
fn a_failed_instruction_packet_is_still_acknowledged() {
    let mut state = chain();
    let rc = state.ibc_packet_receive(NOW, Instruction { tx_id: 4, commitment: true }).unwrap();
    assert_eq!(rc.ack, "mf_force_success");
    assert_eq!(rc.failure, Some(ContractError::FinalizationTxNotFound { sent_id: 4, expected_id: vec![] }));
    assert_eq!(state.err_logs, "start:\nFinalizationTxNotFound { sent_id: 4, expected_id: [] }");
    state.log_failure("oops");
    assert!(state.err_logs.ends_with("\noops"));
}

#[test]
fn keeping_branches_by_bit() {
    let mf: Vec<Option<i64>> = (0..8).map(Some).collect();
    assert_eq!(fcross::fc_basic::contract::keep_bits_exec(&mf, 1, 1), vec![Some(2), Some(3), Some(6), Some(7)]);
    assert_eq!(fcross::fc_basic::contract::keep_bits_exec(&mf, 2, 0), vec![Some(0), Some(1), Some(2), Some(3)]);
    assert_eq!(fcross::fc_basic::contract::keep_bits_exec(&mf, 0, 1), vec![Some(1), Some(3), Some(5), Some(7)]);
}

fn with_a_lost_vote_flag() -> ContractState {
    let mut state = chain();
    run(&mut state, tx(1, Operation::CreditBalance { amount: 5 })).unwrap();
    run(&mut state, tx(2, Operation::DebitBalance { amount: 12 })).unwrap();
    state.mf_vote_map.remove(&2);
    state
}

#[test]
fn a_failed_packet_keeps_what_it_wrote_but_a_failed_request_does_not() {
    let before = with_a_lost_vote_flag();
    let mut refused = with_a_lost_vote_flag();
    let r = refused.execute(80, &ExecuteMsg::FinalizeTx { instruction: Instruction { tx_id: 1, commitment: true } });
    assert_eq!(r.err(), Some(ContractError::StdError(StdFailure::NotFound(StoredItem::VoteFlag(2)))));
    assert_eq!(refused.mf_map, before.mf_map);
    assert_eq!(refused.time_logs, before.time_logs);

    let mut state = with_a_lost_vote_flag();
    let rc = state.ibc_packet_receive(80, Instruction { tx_id: 1, commitment: true }).unwrap();
    assert_eq!(rc.ack, "mf_force_success");
    assert_eq!(rc.failure, Some(ContractError::StdError(StdFailure::NotFound(StoredItem::VoteFlag(2)))));
    assert!(rc.attributes.is_empty());
    assert_eq!(state.multifuture(1).unwrap().futures, vec!["15"]);
    assert_eq!(state.multifuture(2).unwrap().futures, vec!["15", "3"]);
    assert_eq!(state.my_time_logs().logs, vec!["1,50,80", "2,50,None"]);
    assert_eq!(state.pending, vec![1, 2]);
    assert_eq!(
        state.err_logs,
        "start:\nStdError(NotFound { kind: \"type: bool; key: \
         [00, 0C, 6D, 66, 5F, 76, 6F, 74, 65, 5F, 6D, 61, 70, 73, 00, 00, 00, 02]\" })"
    );
    assert_eq!(refused.err_logs, "start:");
}

#[test]
fn the_latest_multifuture_has_a_branch_per_pending_outcome() {
    let mut state = chain();
    for id in 1..=3u32 {
        run(&mut state, tx(id, Operation::CreditBalance { amount: 1 })).unwrap();
        assert_eq!(state.mf_map[&id].len(), 1 << state.pending.len());
    }
    state.execute(80, &ExecuteMsg::FinalizeTx { instruction: Instruction { tx_id: 2, commitment: false } }).unwrap();
    assert_eq!(state.pending, vec![1, 3]);
    assert_eq!(state.mf_map[&3].len(), 4);
}

#[test]
fn error_texts_as_the_log_records_them() {
    let e = ContractError::FinalizationTxNotFound { sent_id: 9, expected_id: vec![1, 20, 3] };
    assert_eq!(e.debug_text(), "FinalizationTxNotFound { sent_id: 9, expected_id: [1, 20, 3] }");
    assert_eq!(ContractError::ExecutionTxIdAlreadyExist { sent_id: 7 }.debug_text(), "ExecutionTxIdAlreadyExist { sent_id: 7 }");
    assert_eq!(ContractError::UpperBound { max_length: 12 }.debug_text(), "UpperBound { max_length: 12 }");
    assert_eq!(
        ContractError::StdError(StdFailure::NotFound(StoredItem::TimeInfo(5))).debug_text(),
        "StdError(NotFound { kind: \"type: fc_stor::state::TimeInfo; key: [00, 09, 74, 69, 6D, 65, 5F, 6C, 6F, 67, 73, 00, 00, 00, 05]\" })"
    );
    assert_eq!(
        ContractError::StdError(StdFailure::NotFound(StoredItem::ChannelInfo)).debug_text(),
        "StdError(NotFound { kind: \"type: fc_stor::state::ChannelInfo; key: [6D, 79, 5F, 63, 68, 61, 6E, 6E, 65, 6C]\" })"
    );
    assert_eq!(
        ContractError::StdError(StdFailure::NotFound(StoredItem::Multifuture(0x0102_0AFF))).debug_text(),
        "StdError(NotFound { kind: \"type: alloc::vec::Vec<core::option::Option<i64>>; key: [00, 07, 6D, 66, 5F, 6D, 61, 70, 73, 01, 02, 0A, FF]\" })"
    );
}
