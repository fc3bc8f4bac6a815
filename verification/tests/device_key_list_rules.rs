use did_contracts::device_key_list::{
    dispatch, verify_create_device_key_list, verify_destroy_device_key_list, verify_key_list_lock_arg,
    verify_key_list_update, verify_update_device_key_list, DeviceKey, ErrorCode, Rule,
};
use did_contracts::types::Script;

fn key() -> DeviceKey {
    DeviceKey { main_alg_id: 8, sub_alg_id: 1, pubkey: vec![0x11; 10], cid: vec![0x22; 10] }
}

fn lock_arg() -> Vec<u8> {
    let mut half = vec![8u8, 1];
    half.extend_from_slice(&[0x11; 10]);
    half.extend_from_slice(&[0x22; 10]);
    let mut arg = half.clone();
    arg.extend_from_slice(&half);
    arg
}

#[test]
fn lock_arg_is_the_first_key_twice() {
    assert_eq!(verify_key_list_lock_arg(&lock_arg(), &key()), Ok(()));
    assert_eq!(verify_key_list_lock_arg(&lock_arg()[..43], &key()), Err(ErrorCode::LockArgLengthIncorrect));
    let mut bad = lock_arg();
    bad[30] = 0;
    assert_eq!(verify_key_list_lock_arg(&bad, &key()), Err(ErrorCode::InvalidLock));
    let mut other = key();
    other.sub_alg_id = 2;
    assert_eq!(verify_key_list_lock_arg(&lock_arg(), &other), Err(ErrorCode::InvalidLock));
}

#[test]
fn key_list_grows_by_appending_one_new_key() {
    let inp = vec![vec![1u8], vec![2u8]];
    assert_eq!(verify_key_list_update(&inp, &vec![vec![1], vec![2], vec![3]]), Ok(()));
    assert_eq!(verify_key_list_update(&inp, &vec![vec![1], vec![2], vec![2]]), Err(ErrorCode::DuplicatedKeys));
    assert_eq!(verify_key_list_update(&inp, &vec![vec![2], vec![1], vec![3]]), Err(ErrorCode::UpdateParamsInvalid));
}

#[test]
fn key_list_shrinks_by_removing_one_key() {
    let inp = vec![vec![1u8], vec![2u8], vec![3u8]];
    assert_eq!(verify_key_list_update(&inp, &vec![vec![3], vec![1]]), Ok(()));
    assert_eq!(verify_key_list_update(&inp, &vec![vec![1], vec![4]]), Err(ErrorCode::UpdateParamsInvalid));
    assert_eq!(verify_key_list_update(&inp, &vec![vec![1], vec![1]]), Err(ErrorCode::UpdateParamsInvalid));
}

#[test]
fn key_list_size_is_bounded() {
    let inp = vec![vec![1u8]];
    assert_eq!(verify_key_list_update(&inp, &vec![]), Err(ErrorCode::UpdateParamsInvalid));
    assert_eq!(verify_key_list_update(&inp, &vec![vec![1]]), Err(ErrorCode::KeyListNumberIncorrect));
    let ten: Vec<Vec<u8>> = (0..10u8).map(|i| vec![i]).collect();
    let eleven: Vec<Vec<u8>> = (0..11u8).map(|i| vec![i]).collect();
    assert_eq!(verify_key_list_update(&ten, &eleven), Err(ErrorCode::UpdateParamsInvalid));
    assert_eq!(verify_key_list_update(&ten[..9].to_vec(), &ten), Ok(()));
}

fn das_code_hash() -> Vec<u8> {
    vec![0xda; 32]
}

#[test]
fn creating_a_key_list_cell() {
    let lock = Script { code_hash: das_code_hash(), hash_type: 1, args: lock_arg() };
    let refund = vec![5u8; 32];
    let ok = verify_create_device_key_list(
        &vec![],
        &vec![0],
        &vec![key()],
        &lock,
        &das_code_hash(),
        16_100_000_001,
        &vec![refund.clone()],
        &vec![refund.clone()],
        &refund,
    );
    assert_eq!(ok, Ok(()));
    let r = verify_create_device_key_list(&vec![0], &vec![0], &vec![key()], &lock, &das_code_hash(), 16_100_000_001, &vec![], &vec![], &refund);
    assert_eq!(r, Err(ErrorCode::InvalidTransactionStructure));
    let r = verify_create_device_key_list(&vec![], &vec![0], &vec![], &lock, &das_code_hash(), 16_100_000_001, &vec![], &vec![], &refund);
    assert_eq!(r, Err(ErrorCode::WitnessArgsInvalid));
    let other = Script { code_hash: vec![1; 32], hash_type: 1, args: lock_arg() };
    let r = verify_create_device_key_list(&vec![], &vec![0], &vec![key()], &other, &das_code_hash(), 16_100_000_001, &vec![], &vec![], &refund);
    assert_eq!(r, Err(ErrorCode::MustUseDasLock));
    let r = verify_create_device_key_list(&vec![], &vec![0], &vec![key()], &lock, &das_code_hash(), 16_100_000_000, &vec![], &vec![], &refund);
    assert_eq!(r, Err(ErrorCode::CapacityNotEnough));
    let r = verify_create_device_key_list(
        &vec![],
        &vec![0],
        &vec![key()],
        &lock,
        &das_code_hash(),
        16_100_000_001,
        &vec![vec![6u8; 32]],
        &vec![],
        &refund,
    );
    assert_eq!(r, Err(ErrorCode::InconsistentBalanceCellLocks));
}

#[test]
fn updating_a_key_list_cell() {
    let inp = vec![vec![1u8]];
    let out = vec![vec![1u8], vec![2u8]];
    assert_eq!(verify_update_device_key_list(&vec![0], &vec![0], 20_000, 10_001, &[1], &[1], &inp, &out), Ok(()));
    assert_eq!(
        verify_update_device_key_list(&vec![0], &vec![0], 20_000, 10_000, &[1], &[1], &inp, &out),
        Err(ErrorCode::CapacityReduceTooMuch)
    );
    assert_eq!(
        verify_update_device_key_list(&vec![0], &vec![0], 20_000, 30_000, &[1], &[2], &inp, &out),
        Err(ErrorCode::InvalidLock)
    );
    assert_eq!(
        verify_update_device_key_list(&vec![0], &vec![], 20_000, 20_000, &[1], &[1], &inp, &out),
        Err(ErrorCode::InvalidTransactionStructure)
    );
}

#[test]
fn destroying_a_key_list_cell_refunds_its_owner() {
    assert_eq!(verify_destroy_device_key_list(&vec![0], &vec![], &vec![vec![5], vec![5]], &[5]), Ok(()));
    assert_eq!(
        verify_destroy_device_key_list(&vec![0], &vec![], &vec![vec![5], vec![6]], &[5]),
        Err(ErrorCode::InconsistentBalanceCellLocks)
    );
    assert_eq!(
        verify_destroy_device_key_list(&vec![0], &vec![0], &vec![], &[5]),
        Err(ErrorCode::InvalidTransactionStructure)
    );
}

#[test]
fn dispatch_takes_actions_from_the_back() {
    let mut registered = vec![b"create".to_vec(), b"update".to_vec(), b"destroy".to_vec()];
    assert_eq!(dispatch(&mut registered, b"update"), Some(b"update".to_vec()));
    assert_eq!(registered, vec![b"create".to_vec()]);
    assert_eq!(dispatch(&mut registered, b"destroy"), None);
    assert!(registered.is_empty());
}

#[test]
fn key_list_errors_have_their_numbers() {
    assert_eq!(ErrorCode::FoundKeyListInInput.to_i8(), 50);
    assert_eq!(ErrorCode::DuplicatedKeys.to_i8(), 64);
    assert_eq!(ErrorCode::Encoding.to_i8(), 4);
    let listed = [
        ErrorCode::FoundKeyListInInput,
        ErrorCode::WitnessArgsInvalid,
        ErrorCode::NoKeyListInOutput,
        ErrorCode::LockArgLengthIncorrect,
        ErrorCode::InvalidLock,
        ErrorCode::KeyListParseError,
        ErrorCode::InvalidTransactionStructure,
        ErrorCode::KeyListNumberIncorrect,
        ErrorCode::UpdateParamsInvalid,
        ErrorCode::DestroyParamsInvalid,
        ErrorCode::CapacityNotEnough,
        ErrorCode::MustUseDasLock,
        ErrorCode::InconsistentBalanceCellLocks,
        ErrorCode::CapacityReduceTooMuch,
        ErrorCode::DuplicatedKeys,
    ];
    for (i, e) in listed.iter().enumerate() {
        assert_eq!(e.to_i8(), 50 + i as i8);
    }
}

#[test]
fn rule_runs_its_check() {
    let rule = Rule::new(String::from("capacity must grow"), |c: (u64, u64)| -> Result<(), ErrorCode> {
        if c.1 > c.0 {
            Ok(())
        } else {
            Err(ErrorCode::CapacityNotEnough)
        }
    });
    assert_eq!(rule.desc(), "capacity must grow");
    assert_eq!(rule.verify((1, 2)), Ok(()));
    assert_eq!(rule.verify((2, 1)), Err(ErrorCode::CapacityNotEnough));
}
