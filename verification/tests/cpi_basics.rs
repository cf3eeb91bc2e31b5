use borsh::BorshDeserialize;
use solana_program::pubkey::Pubkey;
use solana_tutorial::address::Address;
use solana_tutorial::cpi_basics::error::TransferError;
use solana_tutorial::cpi_basics::instruction::TransferInstruction;
use solana_tutorial::cpi_basics::state::TransferRecord;
use solana_tutorial::cpi_basics::{
    begin_transfer_from_pda, begin_transfer_with_record, finish_transfer, plan_transfer_from_pda,
};
use solana_tutorial::runtime::{system_program_id, AccountView, ProgramError, TransferRequest};

fn addr(k: &Pubkey) -> Address {
    Address::new(k.to_bytes())
}

fn account(key: Address, owner: Address, is_signer: bool, lamports: u64, data: Vec<u8>) -> AccountView {
    AccountView { key, owner, is_signer, is_writable: true, lamports, data }
}

/// Does what the system program does for a transfer: checks that the sender
/// signed, or that the seeds give its address, then moves the lamports.
fn transfer(accounts: &mut Vec<AccountView>, request: &TransferRequest, program_id: &Pubkey) {
    if request.signer_seeds.is_empty() {
        assert!(accounts[request.from].is_signer);
    } else {
        let seeds: Vec<&[u8]> = request.signer_seeds.iter().map(|s| s.as_slice()).collect();
        let derived = Pubkey::create_program_address(&seeds, program_id).unwrap();
        assert_eq!(addr(&derived), accounts[request.from].key);
    }
    accounts[request.from].lamports -= request.lamports;
    accounts[request.to].lamports += request.lamports;
}

fn setup(program_id: &Pubkey, sender: Address, sender_signs: bool, sender_lamports: u64) -> Vec<AccountView> {
    vec![
        account(sender, system_program_id(), sender_signs, sender_lamports, Vec::new()),
        account(addr(&Pubkey::new_unique()), system_program_id(), false, 1_000_000, Vec::new()),
        account(addr(&Pubkey::new_unique()), addr(program_id), false, 10_000_000, vec![0; TransferRecord::space()]),
        account(system_program_id(), Address::new([9; 32]), false, 1, Vec::new()),
    ]
}

#[test]
fn test_transfer_with_record() {
    let program_id = Pubkey::new_unique();
    let payer = addr(&Pubkey::new_unique());
    let mut accounts = setup(&program_id, payer, true, 1_000_000_000);
    let transfer_amount = 1_000_000u64;

    let request = begin_transfer_with_record(&addr(&program_id), &accounts, transfer_amount).unwrap();
    transfer(&mut accounts, &request, &program_id);
    let slot = 42;
    finish_transfer(&mut accounts, transfer_amount, slot).unwrap();

    assert_eq!(accounts[1].lamports, 1_000_000 + transfer_amount);
    let transfer_record = TransferRecord::try_from_slice(&accounts[2].data).unwrap();
    assert!(transfer_record.is_initialized);
    assert_eq!(transfer_record.from, payer);
    assert_eq!(transfer_record.to, accounts[1].key);
    assert_eq!(transfer_record.amount, transfer_amount);
    assert_eq!(transfer_record.timestamp, slot);
}

#[test]
fn test_transfer_from_pda() {
    let program_id = Pubkey::new_unique();
    let (pda, bump) = Pubkey::find_program_address(&[b"transfer_vault"], &program_id);
    let mut accounts = setup(&program_id, addr(&pda), false, 10_000_000);
    let transfer_amount = 2_000_000u64;

    let request = begin_transfer_from_pda(&addr(&program_id), &accounts, transfer_amount, bump)
        .unwrap()
        .unwrap();
    transfer(&mut accounts, &request, &program_id);
    finish_transfer(&mut accounts, transfer_amount, 7).unwrap();

    assert_eq!(accounts[1].lamports, 1_000_000 + transfer_amount);
    assert_eq!(accounts[0].lamports, 10_000_000 - transfer_amount);
    let transfer_record = TransferRecord::try_from_slice(&accounts[2].data).unwrap();
    assert!(transfer_record.is_initialized);
    assert_eq!(transfer_record.from, addr(&pda));
    assert_eq!(transfer_record.to, accounts[1].key);
    assert_eq!(transfer_record.amount, transfer_amount);
}

#[test]
fn transfer_checks() {
    let program_id = Pubkey::new_unique();
    let pid = addr(&program_id);
    let payer = addr(&Pubkey::new_unique());
    let accounts = setup(&program_id, payer, true, 1_000);
    assert_eq!(
        begin_transfer_with_record(&pid, &accounts, 0).unwrap_err(),
        ProgramError::from(TransferError::InvalidAmount)
    );
    assert_eq!(begin_transfer_with_record(&pid, &accounts, 0).unwrap_err(), ProgramError::Custom(2));
    let mut unsigned = accounts.clone();
    unsigned[0].is_signer = false;
    assert_eq!(
        begin_transfer_with_record(&pid, &unsigned, 5).unwrap_err(),
        ProgramError::MissingRequiredSignature
    );
    let mut foreign = accounts.clone();
    foreign[2].owner = addr(&Pubkey::new_unique());
    assert_eq!(begin_transfer_with_record(&pid, &foreign, 5).unwrap_err(), ProgramError::IncorrectProgramId);
    assert_eq!(
        begin_transfer_with_record(&pid, &accounts[..3].to_vec(), 5).unwrap_err(),
        ProgramError::NotEnoughAccountKeys
    );
    let request = begin_transfer_with_record(&pid, &accounts, 5).unwrap();
    assert_eq!((request.from, request.to, request.lamports), (0, 1, 5));
    assert!(request.signer_seeds.is_empty());
}

#[test]
fn vault_checks() {
    let program_id = Pubkey::new_unique();
    let pid = addr(&program_id);
    let (pda, bump) = Pubkey::find_program_address(&[b"transfer_vault"], &program_id);
    let accounts = setup(&program_id, addr(&pda), false, 1_000);
    assert_eq!(
        begin_transfer_from_pda(&pid, &accounts, 0, bump).unwrap().unwrap_err(),
        ProgramError::Custom(2)
    );
    assert_eq!(
        begin_transfer_from_pda(&pid, &accounts, 5, bump.wrapping_sub(1)).unwrap().unwrap_err(),
        ProgramError::InvalidSeeds
    );
    let not_vault = setup(&program_id, addr(&Pubkey::new_unique()), false, 1_000);
    assert_eq!(
        begin_transfer_from_pda(&pid, &not_vault, 5, bump).unwrap().unwrap_err(),
        ProgramError::InvalidSeeds
    );
    let mut foreign = accounts.clone();
    foreign[2].owner = addr(&Pubkey::new_unique());
    assert_eq!(
        begin_transfer_from_pda(&pid, &foreign, 5, bump).unwrap().unwrap_err(),
        ProgramError::IncorrectProgramId
    );
    assert!(plan_transfer_from_pda(&pid, &accounts, 5, bump, None).is_none());
    let request = plan_transfer_from_pda(&pid, &accounts, 5, bump, Some((addr(&pda), bump)))
        .unwrap()
        .unwrap();
    assert_eq!(request.signer_seeds, vec![b"transfer_vault".to_vec(), vec![bump]]);
}

#[test]
fn record_write_needs_room() {
    let program_id = Pubkey::new_unique();
    let payer = addr(&Pubkey::new_unique());
    let mut accounts = setup(&program_id, payer, true, 1_000);
    accounts[2].data = vec![0; 80];
    assert!(finish_transfer(&mut accounts, 5, 1).is_err());
    assert_eq!(accounts[2].data, vec![0; 80]);
    accounts[2].data = vec![0xff; 100];
    finish_transfer(&mut accounts, 5, 1).unwrap();
    assert_eq!(&accounts[2].data[81..], &[0xffu8; 19][..]);
    let (init, from, to, amount, timestamp) =
        <(bool, [u8; 32], [u8; 32], u64, u64)>::try_from_slice(&accounts[2].data[..81]).unwrap();
    assert!(init);
    assert_eq!(from, payer.to_bytes());
    assert_eq!(to, accounts[1].key.to_bytes());
    assert_eq!((amount, timestamp), (5, 1));
}

#[test]
fn transfer_instruction_encoding() {
    let ix = TransferInstruction::TransferFromPDA { amount: 2_000_000, bump: 253 };
    let bytes = ix.try_to_vec();
    let mut expected = vec![1u8];
    expected.extend_from_slice(&2_000_000u64.to_le_bytes());
    expected.push(253);
    assert_eq!(bytes, expected);
    assert_eq!(TransferInstruction::try_from_slice(&bytes).unwrap(), ix);
    assert_eq!(
        TransferInstruction::TransferWithRecord { amount: 1 }.try_to_vec(),
        vec![0, 1, 0, 0, 0, 0, 0, 0, 0]
    );
    assert!(TransferInstruction::try_from_slice(&[0, 1]).is_err());
}
