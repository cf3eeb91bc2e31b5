use borsh::{BorshDeserialize, BorshSerialize};
use solana_program::pubkey::Pubkey;
use solana_tutorial::address::Address;
use solana_tutorial::pda_basics::error::VoteError;
use solana_tutorial::pda_basics::instruction::VoteInstruction;
use solana_tutorial::pda_basics::state::{UserVote, VoteTopic};
use solana_tutorial::pda_basics::{
    begin_create_topic, begin_vote, finish_create_topic, finish_vote, plan_create_topic, plan_vote,
};
use solana_tutorial::runtime::{system_program_id, AccountView, CreateAccountRequest, ProgramError};

fn addr(k: &Pubkey) -> Address {
    Address::new(k.to_bytes())
}

fn account(key: Address, owner: Address, is_signer: bool, data: Vec<u8>) -> AccountView {
    AccountView { key, owner, is_signer, is_writable: true, lamports: 1_000_000_000, data }
}

/// Does what the system program does for a create-account request signed by
/// the program: checks the seeds give the new account's address, then hands
/// the account to the program with zeroed data.
fn create_account(accounts: &mut Vec<AccountView>, request: &CreateAccountRequest, program_id: &Pubkey) {
    let seeds: Vec<&[u8]> = request.signer_seeds.iter().map(|s| s.as_slice()).collect();
    let derived = Pubkey::create_program_address(&seeds, program_id).unwrap();
    assert_eq!(addr(&derived), accounts[request.new_account].key);
    assert_eq!(request.owner, addr(program_id));
    let account = &mut accounts[request.new_account];
    account.owner = request.owner;
    account.data = vec![0; request.space as usize];
    accounts[request.payer].lamports -= 1_000_000;
}

struct Topic {
    program_id: Pubkey,
    payer: Pubkey,
    topic_pda: Pubkey,
    accounts: Vec<AccountView>,
}

fn create_topic(description: &str) -> Topic {
    let program_id = Pubkey::new_unique();
    let payer = Pubkey::new_unique();
    let (topic_pda, bump) = Pubkey::find_program_address(&[b"vote_topic", payer.as_ref()], &program_id);
    let mut accounts = vec![
        account(addr(&payer), system_program_id(), true, Vec::new()),
        account(addr(&topic_pda), system_program_id(), false, Vec::new()),
        account(system_program_id(), Address::new([9; 32]), false, Vec::new()),
    ];
    let description = description.to_string();
    let request = begin_create_topic(&addr(&program_id), &accounts, &description, bump).unwrap().unwrap();
    assert_eq!(request.space as usize, VoteTopic::space(description.len()));
    create_account(&mut accounts, &request, &program_id);
    finish_create_topic(&mut accounts, description, bump).unwrap();
    Topic { program_id, payer, topic_pda, accounts }
}

fn vote_accounts(topic: &Topic, voter: &Pubkey) -> (Vec<AccountView>, u8) {
    let (user_vote_pda, bump) = Pubkey::find_program_address(
        &[b"user_vote", topic.topic_pda.as_ref(), voter.as_ref()],
        &topic.program_id,
    );
    let accounts = vec![
        account(addr(voter), system_program_id(), true, Vec::new()),
        topic.accounts[1].clone(),
        account(addr(&user_vote_pda), system_program_id(), false, Vec::new()),
        account(system_program_id(), Address::new([9; 32]), false, Vec::new()),
    ];
    (accounts, bump)
}

fn vote(topic: &mut Topic, voter: &Pubkey, option: u8) -> Result<Vec<AccountView>, ProgramError> {
    let (mut accounts, bump) = vote_accounts(topic, voter);
    let plan = begin_vote(&addr(&topic.program_id), &accounts, option, bump).unwrap()?;
    if let Some(request) = &plan.create_record {
        create_account(&mut accounts, request, &topic.program_id);
    }
    finish_vote(&mut accounts, plan.topic, option, bump)?;
    topic.accounts[1] = accounts[1].clone();
    Ok(accounts)
}

#[test]
fn test_create_vote_topic() {
    let description = "你喜欢Solana吗？".to_string();
    let topic = create_topic(&description);
    let (_, bump) = Pubkey::find_program_address(&[b"vote_topic", topic.payer.as_ref()], &topic.program_id);

    let vote_topic = VoteTopic::try_from_slice(&topic.accounts[1].data).unwrap();
    assert!(vote_topic.is_initialized);
    assert_eq!(vote_topic.creator, addr(&topic.payer));
    assert_eq!(vote_topic.description, description);
    assert_eq!(vote_topic.option_a_votes, 0);
    assert_eq!(vote_topic.option_b_votes, 0);
    assert_eq!(vote_topic.bump, bump);
}

#[test]
fn test_vote() {
    let mut topic = create_topic("你喜欢Solana吗？");
    let payer = topic.payer;
    let (user_vote_pda, user_vote_bump) = Pubkey::find_program_address(
        &[b"user_vote", topic.topic_pda.as_ref(), payer.as_ref()],
        &topic.program_id,
    );
    let accounts = vote(&mut topic, &payer, 0).unwrap();

    let vote_topic = VoteTopic::try_from_slice(&accounts[1].data).unwrap();
    assert_eq!(vote_topic.option_a_votes, 1);
    assert_eq!(vote_topic.option_b_votes, 0);

    let user_vote = UserVote::try_from_slice(&accounts[2].data).unwrap();
    assert!(user_vote.is_initialized);
    assert_eq!(user_vote.topic, addr(&topic.topic_pda));
    assert_eq!(user_vote.voter, addr(&payer));
    assert_eq!(user_vote.vote_option, 0);
    assert_eq!(user_vote.bump, user_vote_bump);
    assert_eq!(accounts[2].key, addr(&user_vote_pda));
}

#[test]
fn test_cannot_vote_twice() {
    let mut topic = create_topic("测试重复投票");
    let payer = topic.payer;
    let mut accounts = vote(&mut topic, &payer, 0).unwrap();
    let (_, bump) = vote_accounts(&topic, &payer);
    accounts[1] = topic.accounts[1].clone();
    let result = begin_vote(&addr(&topic.program_id), &accounts, 0, bump).unwrap();
    assert!(result.is_err());
    assert_eq!(result.err(), Some(ProgramError::from(VoteError::AlreadyVoted)));
    let result = begin_vote(&addr(&topic.program_id), &accounts, 1, bump).unwrap();
    assert_eq!(result.err(), Some(ProgramError::Custom(4)));
}

#[test]
fn votes_from_different_voters_add_up() {
    let mut topic = create_topic("A or B");
    for (i, option) in [0u8, 1, 1, 0, 1].iter().enumerate() {
        let voter = Pubkey::new_unique();
        vote(&mut topic, &voter, *option).unwrap();
        let t = VoteTopic::try_from_slice(&topic.accounts[1].data).unwrap();
        assert_eq!(t.option_a_votes + t.option_b_votes, i as u64 + 1);
    }
    let t = VoteTopic::try_from_slice(&topic.accounts[1].data).unwrap();
    assert_eq!((t.option_a_votes, t.option_b_votes), (2, 3));
    assert_eq!(t.description, "A or B");
}

#[test]
fn create_topic_checks() {
    let program_id = Pubkey::new_unique();
    let payer = Pubkey::new_unique();
    let (topic_pda, bump) = Pubkey::find_program_address(&[b"vote_topic", payer.as_ref()], &program_id);
    let pid = addr(&program_id);
    let accounts = vec![
        account(addr(&payer), system_program_id(), true, Vec::new()),
        account(addr(&topic_pda), system_program_id(), false, Vec::new()),
        account(system_program_id(), Address::new([9; 32]), false, Vec::new()),
    ];
    let ok = "d".repeat(200);
    assert!(begin_create_topic(&pid, &accounts, &ok, bump).unwrap().is_ok());
    assert_eq!(
        begin_create_topic(&pid, &accounts, &"d".repeat(201), bump).unwrap().err(),
        Some(ProgramError::InvalidArgument)
    );
    assert_eq!(
        begin_create_topic(&pid, &accounts, &ok, bump.wrapping_sub(1)).unwrap().err(),
        Some(ProgramError::Custom(3))
    );
    let mut wrong = accounts.clone();
    wrong[1].key = addr(&Pubkey::new_unique());
    assert_eq!(begin_create_topic(&pid, &wrong, &ok, bump).unwrap().err(), Some(ProgramError::Custom(3)));
    let mut unsigned = accounts.clone();
    unsigned[0].is_signer = false;
    assert_eq!(
        begin_create_topic(&pid, &unsigned, &ok, bump).unwrap().err(),
        Some(ProgramError::MissingRequiredSignature)
    );
    assert_eq!(
        begin_create_topic(&pid, &accounts[..2].to_vec(), &ok, bump).unwrap().err(),
        Some(ProgramError::NotEnoughAccountKeys)
    );
    // No address found: the checks before the derivation still decide.
    assert!(plan_create_topic(&pid, &accounts, &ok, bump, None).is_none());
    assert_eq!(
        plan_create_topic(&pid, &unsigned, &ok, bump, None).unwrap().err(),
        Some(ProgramError::MissingRequiredSignature)
    );
    // The derivation result is the one `find_program_address` gives.
    let request = plan_create_topic(&pid, &accounts, &ok, bump, Some((addr(&topic_pda), bump))).unwrap().unwrap();
    assert_eq!(request.space, 254);
    assert_eq!(request.signer_seeds, vec![b"vote_topic".to_vec(), payer.to_bytes().to_vec(), vec![bump]]);
}

#[test]
fn vote_checks() {
    let topic = create_topic("q");
    let voter = Pubkey::new_unique();
    let pid = addr(&topic.program_id);
    let (accounts, bump) = vote_accounts(&topic, &voter);
    assert_eq!(begin_vote(&pid, &accounts, 2, bump).unwrap().err(), Some(ProgramError::Custom(5)));
    assert_eq!(
        begin_vote(&pid, &accounts, 0, bump.wrapping_add(1)).unwrap().err(),
        Some(ProgramError::Custom(3))
    );
    let mut foreign = accounts.clone();
    foreign[1].owner = addr(&Pubkey::new_unique());
    assert_eq!(begin_vote(&pid, &foreign, 0, bump).unwrap().err(), Some(ProgramError::IncorrectProgramId));
    let mut blank = accounts.clone();
    blank[1].data = vec![0; blank[1].data.len()];
    assert_eq!(begin_vote(&pid, &blank, 0, bump).unwrap().err(), Some(ProgramError::Custom(1)));
    let mut unsigned = accounts.clone();
    unsigned[0].is_signer = false;
    assert_eq!(begin_vote(&pid, &unsigned, 0, bump).unwrap().err(), Some(ProgramError::MissingRequiredSignature));
    assert_eq!(
        begin_vote(&pid, &accounts[..3].to_vec(), 0, bump).unwrap().err(),
        Some(ProgramError::NotEnoughAccountKeys)
    );
    assert!(plan_vote(&pid, &accounts, 0, bump, None).is_none());
    let plan = plan_vote(&pid, &accounts, 1, bump, Some((accounts[2].key, bump))).unwrap().unwrap();
    let request = plan.create_record.unwrap();
    assert_eq!(request.space as usize, UserVote::space());
    assert_eq!(request.new_account, 2);
    assert_eq!(request.payer, 0);
}

#[test]
fn vote_encodings_match_borsh() {
    let ix = VoteInstruction::CreateTopic { description: "话题".to_string(), bump: 254 };
    let bytes = ix.try_to_vec().unwrap();
    assert_eq!(bytes, (0u8, "话题".to_string(), 254u8).try_to_vec().unwrap());
    let back = VoteInstruction::try_from_slice(&bytes).unwrap();
    match back {
        VoteInstruction::CreateTopic { description, bump } => {
            assert_eq!(description, "话题");
            assert_eq!(bump, 254);
        }
        _ => panic!("wrong variant"),
    }
    assert_eq!(VoteInstruction::Vote { option: 1, bump: 7 }.try_to_vec().unwrap(), vec![1, 1, 7]);
    assert!(VoteInstruction::try_from_slice(&[2, 0, 0]).is_err());

    let topic = create_topic("abc");
    let data = &topic.accounts[1].data;
    let (init, creator, description, a, b, bump) =
        <(bool, [u8; 32], String, u64, u64, u8)>::try_from_slice(data).unwrap();
    assert!(init);
    assert_eq!(creator, topic.payer.to_bytes());
    assert_eq!(description, "abc");
    assert_eq!((a, b), (0, 0));
    assert_eq!(data.len(), VoteTopic::space(3));
    let _ = bump;
}
