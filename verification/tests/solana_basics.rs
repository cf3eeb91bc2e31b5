use solana_program::pubkey::Pubkey;
use solana_tutorial::address::Address;
use solana_tutorial::runtime::system_program_id;
use solana_tutorial::solana_basics::{Account, Lamports, SolanaError, Transaction};

fn unique_address() -> Address {
    Address::new(Pubkey::new_unique().to_bytes())
}

/// SOL to lamports, as `from_sol` computes it.
fn from_sol(sol: f64) -> Lamports {
    Lamports::new((sol * 1_000_000_000.0) as u64)
}

#[test]
fn test_lamports_basic() {
    let lamports = from_sol(1.0);
    assert_eq!(lamports.as_lamports(), 1_000_000_000);
}

#[test]
fn test_account_basic() {
    let owner = unique_address();
    let account = Account::new(owner, 1000);
    assert_eq!(account.lamports(), 1000);
}

#[test]
fn test_account_creation() {
    let owner = unique_address();
    let account = Account::new(owner, 1000);

    assert_eq!(account.owner(), &owner);
    assert_eq!(account.lamports(), 1000);
    assert!(account.data().is_empty());
    assert!(!account.is_executable());
}

#[test]
fn test_lamports_conversion() {
    let one_sol = from_sol(1.0);
    assert_eq!(one_sol.as_lamports(), 1_000_000_000);

    let half_sol = from_sol(0.5);
    assert_eq!(half_sol.as_lamports(), 500_000_000);

    let total = one_sol.add(half_sol);
    assert_eq!(total.as_lamports(), 1_500_000_000);

    let remaining = one_sol.sub(half_sol).unwrap();
    assert_eq!(remaining.as_lamports(), 500_000_000);
}

#[test]
fn test_transaction_creation() {
    let payer = unique_address();
    let recipient = unique_address();

    let tx = Transaction::new_transfer(payer, recipient, 1000);

    assert_eq!(tx.payer(), &payer);
    assert_eq!(tx.instructions().len(), 1);
    assert!(!tx.is_signed());
}

#[test]
fn test_account_data_storage() {
    let owner = unique_address();
    let mut account = Account::new(owner, 5000);

    let data = vec![1, 2, 3, 4, 5];
    account.set_data(data.clone());

    assert_eq!(account.data(), &data[..]);
    assert_eq!(account.data().len(), 5);
}

#[test]
fn test_lamports_insufficient_funds() {
    let small = from_sol(0.1);
    let large = from_sol(1.0);

    let result = small.sub(large);
    assert!(result.is_err());
}

#[test]
fn insufficient_funds_names_both_amounts() {
    let result = Lamports::new(100_000_000).sub(Lamports::new(1_000_000_000));
    match result {
        Err(SolanaError::InsufficientFunds { required, available }) => {
            assert_eq!(required, 1_000_000_000);
            assert_eq!(available, 100_000_000);
        }
        _ => panic!("expected InsufficientFunds"),
    }
}

#[test]
fn subtracting_everything_leaves_zero() {
    let a = Lamports::new(42);
    assert_eq!(a.sub(a).unwrap().as_lamports(), 0);
}

#[test]
fn add_then_sub_gives_back_the_amount() {
    let a = Lamports::new(1_234_567);
    let b = Lamports::new(7_654_321);
    assert_eq!(a.add(b).as_lamports(), b.add(a).as_lamports());
    assert_eq!(a.add(b).sub(b).unwrap(), a);
}

#[test]
fn transfer_instruction_goes_to_the_system_program() {
    let payer = unique_address();
    let recipient = unique_address();
    let mut tx = Transaction::new_transfer(payer, recipient, 1000);
    let ix = &tx.instructions()[0];
    assert_eq!(ix.program_id(), &system_program_id());
    assert_eq!(ix.program_id().to_bytes(), [0u8; 32]);
    assert_eq!(ix.accounts(), &[payer, recipient][..]);
    assert_eq!(ix.data(), &1000u64.to_le_bytes()[..]);
    tx.sign();
    assert!(tx.is_signed());
}

#[test]
fn system_program_id_matches_the_sdk() {
    assert_eq!(
        system_program_id().to_bytes(),
        solana_sdk::system_program::id().to_bytes()
    );
}

#[test]
fn account_data_is_replaced_not_appended() {
    let mut account = Account::new(unique_address(), 1);
    account.set_data(vec![9, 9, 9]);
    account.set_data(vec![1]);
    assert_eq!(account.data(), &[1u8][..]);
    assert_eq!(account.lamports(), 1);
}
