use fcross::fc_exec::contract::{
    check_execution_stautus, execute_app_logic, format_mf, get_mfs_scope, instantiate, scope_execute_app_logic,
    ExecutionStatus,
};
use fcross::fc_exec::error::ContractError;
use fcross::fc_exec::msg::{ExecuteMsg, FcrossTx, InstantiateMsg, Instruction, Operation, Vote};
use fcross::fc_exec::state::{ChannelInfo, ContractState};

const NOW: u64 = 100;

fn credit(amount: i64) -> Operation {
    Operation::CreditBalance { amount }
}

fn debit(amount: i64) -> Operation {
    Operation::DebitBalance { amount }
}

fn attrs(list: &[(&str, &str)]) -> Vec<(String, String)> {
    list.iter().map(|(k, v)| (k.to_string(), v.to_string())).collect()
}

fn chain(original_value: i64) -> ContractState {
    let (mut state, _) = instantiate(InstantiateMsg { chain_id: 2, original_value });
    state.my_channel = Some(ChannelInfo { channel_id: "channel-0".to_string(), finalized: true });
    state
}

fn run(state: &mut ContractState, txs: Vec<FcrossTx>) -> fcross::fc_exec::contract::Response {
    state.execute(NOW, &ExecuteMsg::ExecuteTxs { fcross_txs: txs }).unwrap()
}

#[test]
fn app_logic_applies_to_every_branch() {
    let mf = vec![Some(10), None, Some(3)];
    assert_eq!(execute_app_logic(&mf, &debit(5)), vec![Some(5), None, None]);
    assert_eq!(execute_app_logic(&mf, &credit(5)), vec![Some(15), None, Some(8)]);
}

#[test]
fn status_reads_the_newest_branches() {
    let mf = vec![Some(1), Some(2), None, None];
    assert_eq!(check_execution_stautus(&mf, 0), ExecutionStatus::Success);
    assert_eq!(check_execution_stautus(&mf, 1), ExecutionStatus::Failure);
    let mixed = vec![Some(1), Some(2), Some(3), None];
    assert_eq!(check_execution_stautus(&mixed, 1), ExecutionStatus::Uncertainty);
}

#[test]
fn scope_of_a_multifuture() {
    assert_eq!(get_mfs_scope(&vec![Some(5), None, Some(-3)]), (-3, 5));
    assert_eq!(get_mfs_scope(&vec![None]), (100000, -100000));
}

#[test]
fn scope_execution() {
    assert_eq!(scope_execute_app_logic((10, 20), &debit(5)), ((5, 20), ExecutionStatus::Success));
    assert_eq!(scope_execute_app_logic((3, 10), &debit(5)), ((0, 10), ExecutionStatus::Uncertainty));
    assert_eq!(scope_execute_app_logic((1, 2), &debit(5)), ((1, 2), ExecutionStatus::Failure));
    assert_eq!(scope_execute_app_logic((1, 2), &credit(5)), ((1, 7), ExecutionStatus::Success));
}

#[test]
fn multifuture_text() {
    assert_eq!(format_mf(&vec![Some(1), None, Some(-2)]), "1,None,-2");
    assert_eq!(format_mf(&vec![]), "");
}

#[test]
fn executing_doubles_the_multifuture_and_votes_when_certain() {
    let mut state = chain(10);
    let r = run(&mut state, vec![FcrossTx { tx_id: 1, operation: credit(5) }]);
    assert_eq!(r.attributes, attrs(&[("vote_1", "true"), ("executed_tx", "1"), ("new_mf_1_len", "2")]));
    assert_eq!(r.messages.len(), 1);
    assert_eq!(r.messages[0].channel_id, "channel-0");
    assert_eq!(r.messages[0].data, Vote { tx_id: 1, chain_id: 2, success: true });
    assert_eq!(r.messages[0].timeout, 3_600_000_000_000_100);
    assert_eq!(state.multifuture().futures, vec!["10", "15"]);

    let r = run(&mut state, vec![FcrossTx { tx_id: 2, operation: debit(12) }]);
    assert_eq!(r.attributes, attrs(&[("executed_tx", "2"), ("new_mf_2_len", "4")]));
    assert!(r.messages.is_empty());
    assert_eq!(state.multifuture().futures, vec!["10", "15", "None", "3"]);
    assert_eq!(state.pending, vec![(1, true), (2, false)]);
    assert_eq!(state.my_time_logs().logs, vec!["1,100,None", "2,100,None"]);
}

#[test]
fn finalizing_keeps_the_branches_of_the_decision() {
    let mut state = chain(10);
    run(&mut state, vec![FcrossTx { tx_id: 1, operation: credit(5) }]);
    run(&mut state, vec![FcrossTx { tx_id: 2, operation: debit(12) }]);
    let r = state.execute(200, &ExecuteMsg::FinalizeTx { instruction: Instruction { tx_id: 1, commitment: true } }).unwrap();
    assert_eq!(&r.attributes[0..2], &attrs(&[("finalized_tx", "1"), ("committed", "true")])[..]);
    assert!(r.attributes.contains(&("vote_1".to_string(), "true".to_string())));
    assert_eq!(r.messages.len(), 1);
    assert_eq!(r.messages[0].data, Vote { tx_id: 2, chain_id: 2, success: true });
    assert_eq!(state.multifuture().futures, vec!["15", "3"]);
    assert_eq!(state.pending, vec![(2, true)]);
    assert_eq!(state.my_time_logs().logs, vec!["1,100,200", "2,100,None"]);
}

#[test]
fn aborting_keeps_the_other_branches() {
    let mut state = chain(10);
    run(&mut state, vec![FcrossTx { tx_id: 1, operation: credit(5) }]);
    run(&mut state, vec![FcrossTx { tx_id: 2, operation: debit(12) }]);
    state.execute(200, &ExecuteMsg::FinalizeTx { instruction: Instruction { tx_id: 1, commitment: false } }).unwrap();
    assert_eq!(state.multifuture().futures, vec!["10", "None"]);
}

#[test]
fn finalizing_an_unknown_transaction_fails() {
    let mut state = chain(10);
    let r = state.execute(200, &ExecuteMsg::FinalizeTx { instruction: Instruction { tx_id: 7, commitment: true } });
    assert_eq!(r.err(), Some(ContractError::TxNotFound(7)));
}

#[test]
fn an_operation_acts_on_each_part_and_on_picked_branches() {
    let a = vec![Some(5), None];
    let b = vec![Some(1), Some(9)];
    let op = Operation::DebitBalance { amount: 4 };
    let both: Vec<Option<i64>> = [a.clone(), b.clone()].concat();
    assert_eq!(execute_app_logic(&both, &op), [execute_app_logic(&a, &op), execute_app_logic(&b, &op)].concat());
    let picked: Vec<Option<i64>> = vec![both[1], both[3]];
    let all = execute_app_logic(&both, &op);
    assert_eq!(execute_app_logic(&picked, &op), vec![all[1], all[3]]);
}

#[test]
fn a_debit_undoes_a_credit_of_the_same_amount() {
    let vals = vec![Some(0), None, Some(17)];
    let up = execute_app_logic(&vals, &Operation::CreditBalance { amount: 6 });
    assert_eq!(up, vec![Some(6), None, Some(23)]);
    assert_eq!(execute_app_logic(&up, &Operation::DebitBalance { amount: 6 }), vals);
}

#[test]
fn the_range_ignores_order_and_failed_branches() {
    let a = vec![Some(4), None, Some(-2)];
    let b = vec![Some(10), Some(3)];
    let (sa, sb) = (get_mfs_scope(&a), get_mfs_scope(&b));
    let ab: Vec<Option<i64>> = [a.clone(), b.clone()].concat();
    let ba: Vec<Option<i64>> = [b.clone(), a.clone()].concat();
    assert_eq!(get_mfs_scope(&ab), (sa.0.min(sb.0), sa.1.max(sb.1)));
    assert_eq!(get_mfs_scope(&ab), (-2, 10));
    assert_eq!(get_mfs_scope(&ba), get_mfs_scope(&ab));
    let with_none: Vec<Option<i64>> = [a.clone(), vec![None], b.clone()].concat();
    assert_eq!(get_mfs_scope(&with_none), get_mfs_scope(&ab));
}

#[test]
fn the_text_of_a_multifuture_reads_back() {
    let mf = vec![Some(-15), None, Some(0), Some(230)];
    let text = format_mf(&mf);
    let back: Vec<Option<i64>> =
        text.split(',').map(|s| if s == "None" { None } else { Some(s.parse::<i64>().unwrap()) }).collect();
    assert_eq!(back, mf);
}
