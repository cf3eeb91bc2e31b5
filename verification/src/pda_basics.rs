//! A voting program whose accounts live at program-derived addresses.
pub mod error;
pub mod instruction;
pub mod state;

use vstd::prelude::*;
use vstd::utf8::encode_utf8;

use crate::address::Address;
use crate::runtime::{
    find_program_address, key_seed, keys_shaped, models, outcome, pda_view, program_address,
    put_data, store_account_data, AccountModel, AccountView, CreateAccountModel,
    CreateAccountRequest, ProgramError,
};
use crate::wire::{exactly, WireError};
use error::{vote_err, VoteError};
use state::{
    lemma_parse_topic_encodable, lemma_topic_roundtrip, lemma_user_vote_roundtrip, parse_topic,
    parse_user_vote, topic_bytes, topic_encodable, topic_encoding, user_vote_bytes, UserVote,
    UserVoteModel, VoteTopic, VoteTopicModel,
};

verus! {

// ----- derived addresses -----------------------------------------------------

/// The bytes of "vote_topic", the first seed of a topic's address.
pub open spec fn vote_topic_seed() -> Seq<u8> {
    seq![118u8, 111u8, 116u8, 101u8, 95u8, 116u8, 111u8, 112u8, 105u8, 99u8]
}

/// The bytes of "user_vote", the first seed of a vote record's address.
pub open spec fn user_vote_seed() -> Seq<u8> {
    seq![117u8, 115u8, 101u8, 114u8, 95u8, 118u8, 111u8, 116u8, 101u8]
}

/// A topic's address is derived from these seeds: "vote_topic" and the
/// creator's key.
pub open spec fn topic_seeds(creator: Seq<u8>) -> Seq<Seq<u8>> {
    seq![vote_topic_seed(), creator]
}

/// A vote record's address is derived from these seeds: "user_vote", the
/// topic's key and the voter's key.
pub open spec fn record_seeds(topic: Seq<u8>, voter: Seq<u8>) -> Seq<Seq<u8>> {
    seq![user_vote_seed(), topic, voter]
}

fn vote_topic_seed_vec() -> (r: Vec<u8>)
    ensures
        r@ == vote_topic_seed(),
{
    let v: Vec<u8> = vec![118u8, 111u8, 116u8, 101u8, 95u8, 116u8, 111u8, 112u8, 105u8, 99u8];
    assert(v@ =~= vote_topic_seed());
    v
}

fn user_vote_seed_vec() -> (r: Vec<u8>)
    ensures
        r@ == user_vote_seed(),
{
    let v: Vec<u8> = vec![117u8, 115u8, 101u8, 114u8, 95u8, 118u8, 111u8, 116u8, 101u8];
    assert(v@ =~= user_vote_seed());
    v
}

// ----- CreateTopic -----------------------------------------------------------

/// The topic CreateTopic writes: initialized, created by the signer, with no
/// votes yet.
pub open spec fn new_topic(creator: Seq<u8>, description: Seq<char>, bump: u8) -> VoteTopicModel {
    VoteTopicModel {
        is_initialized: true,
        creator,
        description,
        option_a_votes: 0,
        option_b_votes: 0,
        bump,
    }
}

/// The checks CreateTopic makes before it asks for the topic account, given
/// what the address derivation from `topic_seeds(creator)` found (`None` when
/// no bump seed gives an address, where the program cannot go on): three
/// accounts, a signing creator, a description of at most 200 bytes, and the
/// topic account at the derived address with the derived bump seed. The
/// request is for a topic-sized account paid by the creator and signed for
/// with the topic's seeds and bump.
pub open spec fn create_topic_plan(
    program_id: Seq<u8>,
    accounts: Seq<AccountModel>,
    description: Seq<char>,
    bump: u8,
    derived: Option<(Seq<u8>, u8)>,
) -> Option<Result<CreateAccountModel, ProgramError>> {
    if accounts.len() < 3 {
        Some(Err(ProgramError::NotEnoughAccountKeys))
    } else if !accounts[0].is_signer {
        Some(Err(ProgramError::MissingRequiredSignature))
    } else if encode_utf8(description).len() > VoteTopic::MAX_DESCRIPTION_LEN {
        Some(Err(ProgramError::InvalidArgument))
    } else {
        match derived {
            None => None,
            Some((key, expected_bump)) => if accounts[1].key != key || bump != expected_bump {
                Some(Err(vote_err(VoteError::InvalidPDA)))
            } else {
                Some(
                    Ok(
                        CreateAccountModel {
                            payer: 0,
                            new_account: 1,
                            space: (encode_utf8(description).len() + 54) as u64,
                            owner: program_id,
                            signer_seeds: topic_seeds(accounts[0].key).push(seq![bump]),
                        },
                    ),
                )
            },
        }
    }
}

pub open spec fn create_request_view(r: Option<Result<CreateAccountRequest, ProgramError>>) -> Option<
    Result<CreateAccountModel, ProgramError>,
> {
    match r {
        None => None,
        Some(Err(e)) => Some(Err(e)),
        Some(Ok(q)) => Some(Ok(q@)),
    }
}

/// Writing a topic into account `i`.
pub open spec fn store_topic(accounts: Seq<AccountModel>, i: int, t: VoteTopicModel) -> Result<
    Seq<AccountModel>,
    ProgramError,
> {
    match topic_encoding(t) {
        Err(e) => Err(ProgramError::BorshIoError(e)),
        Ok(b) => put_data(accounts, i, b),
    }
}

/// What CreateTopic does once the runtime has created the topic account: the
/// new topic is written into it.
pub open spec fn create_topic_finish(accounts: Seq<AccountModel>, description: Seq<char>, bump: u8) -> Result<
    Seq<AccountModel>,
    ProgramError,
> {
    store_topic(accounts, 1, new_topic(accounts[0].key, description, bump))
}

/// Makes CreateTopic's checks with the derivation result given, and returns
/// the account creation to ask the runtime for.
pub fn plan_create_topic(
    program_id: &Address,
    accounts: &Vec<AccountView>,
    description: &String,
    bump: u8,
    derived: Option<(Address, u8)>,
) -> (r: Option<Result<CreateAccountRequest, ProgramError>>)
    ensures
        create_request_view(r) == create_topic_plan(
            program_id@,
            models(accounts@),
            description@,
            bump,
            pda_view(derived),
        ),
{
    if accounts.len() < 3 {
        return Some(Err(ProgramError::NotEnoughAccountKeys));
    }
    if !accounts[0].is_signer {
        return Some(Err(ProgramError::MissingRequiredSignature));
    }
    let description_len = description.as_str().as_bytes().len();
    if description_len > VoteTopic::MAX_DESCRIPTION_LEN {
        return Some(Err(ProgramError::InvalidArgument));
    }
    let (expected_pda, expected_bump) = match derived {
        None => return None,
        Some(d) => d,
    };
    if !accounts[1].key.equals(&expected_pda) || bump != expected_bump {
        return Some(Err(ProgramError::from(VoteError::InvalidPDA)));
    }
    let space = VoteTopic::space(description_len);
    let mut signer_seeds: Vec<Vec<u8>> = Vec::new();
    signer_seeds.push(vote_topic_seed_vec());
    signer_seeds.push(key_seed(&accounts[0].key));
    let bump_seed: Vec<u8> = vec![bump];
    assert(bump_seed@ =~= seq![bump]);
    signer_seeds.push(bump_seed);
    let request = CreateAccountRequest {
        payer: 0,
        new_account: 1,
        space: space as u64,
        owner: *program_id,
        signer_seeds,
    };
    assert(request@.signer_seeds =~= topic_seeds(accounts@[0].key@).push(seq![bump])) by {
        assert(signer_seeds@[0]@ == vote_topic_seed());
        assert(signer_seeds@[1]@ == accounts@[0].key@);
        assert(signer_seeds@[2]@ == seq![bump]);
    }
    Some(Ok(request))
}

/// CreateTopic up to the account creation: derives the topic's address from
/// `["vote_topic", creator]` and makes the checks. `None` when the derivation
/// finds no address (where the program cannot go on); otherwise the error to
/// return, or the account creation to ask the runtime for before
/// `finish_create_topic`.
pub fn begin_create_topic(
    program_id: &Address,
    accounts: &Vec<AccountView>,
    description: &String,
    bump: u8,
) -> (r: Option<Result<CreateAccountRequest, ProgramError>>)
    ensures
        create_request_view(r) == create_topic_plan(
            program_id@,
            models(accounts@),
            description@,
            bump,
            program_address(topic_seeds(accounts@[0].key@), program_id@),
        ),
{
    if accounts.len() < 3 {
        return Some(Err(ProgramError::NotEnoughAccountKeys));
    }
    let mut seeds: Vec<Vec<u8>> = Vec::new();
    seeds.push(vote_topic_seed_vec());
    seeds.push(key_seed(&accounts[0].key));
    let derived = find_program_address(&seeds, program_id);
    proof {
        assert(crate::runtime::seeds_view(seeds@) =~= topic_seeds(accounts@[0].key@));
    }
    plan_create_topic(program_id, accounts, description, bump, derived)
}

/// CreateTopic after the runtime created the topic account: writes the new
/// topic (created by account 0, no votes) into account 1.
pub fn finish_create_topic(accounts: &mut Vec<AccountView>, description: String, bump: u8) -> (r: Result<
    (),
    ProgramError,
>)
    requires
        old(accounts)@.len() >= 2,
    ensures
        outcome(
            r,
            models(old(accounts)@),
            models(final(accounts)@),
            create_topic_finish(models(old(accounts)@), description@, bump),
        ),
{
    let vote_topic = VoteTopic {
        is_initialized: true,
        creator: accounts[0].key,
        description,
        option_a_votes: 0,
        option_b_votes: 0,
        bump,
    };
    let enc = match vote_topic.try_to_vec() {
        Err(e) => return Err(ProgramError::BorshIoError(e)),
        Ok(v) => v,
    };
    store_account_data(accounts, 1, &enc)
}

// ----- Vote ------------------------------------------------------------------

/// What Vote found before it asks the runtime for anything: the topic it read,
/// and the vote record account to create, when that account has no data yet.
#[derive(Debug)]
pub struct VotePlan {
    pub topic: VoteTopic,
    pub create_record: Option<CreateAccountRequest>,
}

/// The value of a [`VotePlan`].
pub struct VotePlanModel {
    pub topic: VoteTopicModel,
    pub create_record: Option<CreateAccountModel>,
}

impl View for VotePlan {
    type V = VotePlanModel;

    open spec fn view(&self) -> VotePlanModel {
        VotePlanModel {
            topic: self.topic@,
            create_record: match self.create_record {
                None => None,
                Some(q) => Some(q@),
            },
        }
    }
}

pub open spec fn vote_plan_view(r: Option<Result<VotePlan, ProgramError>>) -> Option<
    Result<VotePlanModel, ProgramError>,
> {
    match r {
        None => None,
        Some(Err(e)) => Some(Err(e)),
        Some(Ok(p)) => Some(Ok(p@)),
    }
}

/// The checks Vote makes, given what the address derivation from
/// `record_seeds(topic, voter)` found (`None` when no bump seed gives an
/// address, where the program cannot go on): four accounts, a signing voter,
/// an option of 0 or 1, a topic account that belongs to the program and reads
/// as an initialized topic, the record account at the derived address with the
/// derived bump seed, and no record the program already owns with data in it
/// (a vote already cast). A record account without data is to be created,
/// paid by the voter and signed for with the record's seeds and bump.
pub open spec fn vote_plan(
    program_id: Seq<u8>,
    accounts: Seq<AccountModel>,
    option: u8,
    bump: u8,
    derived: Option<(Seq<u8>, u8)>,
) -> Option<Result<VotePlanModel, ProgramError>> {
    if accounts.len() < 4 {
        Some(Err(ProgramError::NotEnoughAccountKeys))
    } else if !accounts[0].is_signer {
        Some(Err(ProgramError::MissingRequiredSignature))
    } else if option > 1 {
        Some(Err(vote_err(VoteError::InvalidVoteOption)))
    } else if accounts[1].owner != program_id {
        Some(Err(ProgramError::IncorrectProgramId))
    } else {
        match parse_topic(accounts[1].data, 0) {
            Err(e) => Some(Err(ProgramError::BorshIoError(e))),
            Ok((topic, _)) => if !topic.is_initialized {
                Some(Err(vote_err(VoteError::UninitializedAccount)))
            } else {
                match derived {
                    None => None,
                    Some((key, expected_bump)) => if accounts[2].key != key || bump
                        != expected_bump {
                        Some(Err(vote_err(VoteError::InvalidPDA)))
                    } else if accounts[2].owner == program_id && accounts[2].data.len() > 0 {
                        Some(Err(vote_err(VoteError::AlreadyVoted)))
                    } else {
                        Some(
                            Ok(
                                VotePlanModel {
                                    topic,
                                    create_record: if accounts[2].data.len() == 0 {
                                        Some(
                                            CreateAccountModel {
                                                payer: 0,
                                                new_account: 2,
                                                space: 67,
                                                owner: program_id,
                                                signer_seeds: record_seeds(
                                                    accounts[1].key,
                                                    accounts[0].key,
                                                ).push(seq![bump]),
                                            },
                                        )
                                    } else {
                                        None
                                    },
                                },
                            ),
                        )
                    },
                }
            },
        }
    }
}

/// `n + 1`, wrapping to 0 past `u64::MAX` as the program's release build
/// does.
pub open spec fn votes_after(n: u64) -> u64 {
    if n == u64::MAX {
        0
    } else {
        (n + 1) as u64
    }
}

/// The topic with one more vote for the option (0 is A, anything else B).
pub open spec fn counted_topic(t: VoteTopicModel, option: u8) -> VoteTopicModel {
    if option == 0 {
        VoteTopicModel { option_a_votes: votes_after(t.option_a_votes), ..t }
    } else {
        VoteTopicModel { option_b_votes: votes_after(t.option_b_votes), ..t }
    }
}

/// The record Vote writes for the voter (account 0) on the topic (account 1).
pub open spec fn new_record(accounts: Seq<AccountModel>, option: u8, bump: u8) -> UserVoteModel {
    UserVoteModel {
        is_initialized: true,
        topic: accounts[1].key,
        voter: accounts[0].key,
        vote_option: option,
        bump,
    }
}

/// What Vote does once the record account exists: the record is written into
/// account 2, then the topic with the vote counted into account 1.
pub open spec fn vote_finish(accounts: Seq<AccountModel>, topic: VoteTopicModel, option: u8, bump: u8) -> Result<
    Seq<AccountModel>,
    ProgramError,
> {
    match put_data(accounts, 2, user_vote_bytes(new_record(accounts, option, bump))) {
        Err(e) => Err(e),
        Ok(a) => store_topic(a, 1, counted_topic(topic, option)),
    }
}

/// Makes Vote's checks with the derivation result given.
pub fn plan_vote(
    program_id: &Address,
    accounts: &Vec<AccountView>,
    option: u8,
    bump: u8,
    derived: Option<(Address, u8)>,
) -> (r: Option<Result<VotePlan, ProgramError>>)
    ensures
        vote_plan_view(r) == vote_plan(
            program_id@,
            models(accounts@),
            option,
            bump,
            pda_view(derived),
        ),
{
    if accounts.len() < 4 {
        return Some(Err(ProgramError::NotEnoughAccountKeys));
    }
    if !accounts[0].is_signer {
        return Some(Err(ProgramError::MissingRequiredSignature));
    }
    if option > 1 {
        return Some(Err(ProgramError::from(VoteError::InvalidVoteOption)));
    }
    if !accounts[1].owner.equals(program_id) {
        return Some(Err(ProgramError::IncorrectProgramId));
    }
    let vote_topic = match VoteTopic::deserialize(accounts[1].data.as_slice(), 0) {
        Err(e) => return Some(Err(ProgramError::BorshIoError(e))),
        Ok((t, _)) => t,
    };
    if !vote_topic.is_initialized {
        return Some(Err(ProgramError::from(VoteError::UninitializedAccount)));
    }
    let (expected_pda, expected_bump) = match derived {
        None => return None,
        Some(d) => d,
    };
    if !accounts[2].key.equals(&expected_pda) || bump != expected_bump {
        return Some(Err(ProgramError::from(VoteError::InvalidPDA)));
    }
    if accounts[2].owner.equals(program_id) && accounts[2].data.len() > 0 {
        return Some(Err(ProgramError::from(VoteError::AlreadyVoted)));
    }
    let create_record = if accounts[2].data.len() == 0 {
        let mut signer_seeds: Vec<Vec<u8>> = Vec::new();
        signer_seeds.push(user_vote_seed_vec());
        signer_seeds.push(key_seed(&accounts[1].key));
        signer_seeds.push(key_seed(&accounts[0].key));
        let bump_seed: Vec<u8> = vec![bump];
        assert(bump_seed@ =~= seq![bump]);
        signer_seeds.push(bump_seed);
        let request = CreateAccountRequest {
            payer: 0,
            new_account: 2,
            space: UserVote::space() as u64,
            owner: *program_id,
            signer_seeds,
        };
        assert(request@.signer_seeds =~= record_seeds(accounts@[1].key@, accounts@[0].key@).push(
            seq![bump],
        )) by {
            assert(signer_seeds@[0]@ == user_vote_seed());
            assert(signer_seeds@[1]@ == accounts@[1].key@);
            assert(signer_seeds@[2]@ == accounts@[0].key@);
            assert(signer_seeds@[3]@ == seq![bump]);
        }
        Some(request)
    } else {
        None
    };
    Some(Ok(VotePlan { topic: vote_topic, create_record }))
}

/// Vote up to the record account's creation: derives the record's address
/// from `["user_vote", topic, voter]` and makes the checks. `None` when the
/// derivation finds no address (where the program cannot go on); otherwise
/// the error to return, or the topic read and the account creation (if any)
/// to ask the runtime for before `finish_vote`.
pub fn begin_vote(program_id: &Address, accounts: &Vec<AccountView>, option: u8, bump: u8) -> (r: Option<
    Result<VotePlan, ProgramError>,
>)
    ensures
        vote_plan_view(r) == vote_plan(
            program_id@,
            models(accounts@),
            option,
            bump,
            program_address(record_seeds(accounts@[1].key@, accounts@[0].key@), program_id@),
        ),
{
    if accounts.len() < 4 {
        return Some(Err(ProgramError::NotEnoughAccountKeys));
    }
    let mut seeds: Vec<Vec<u8>> = Vec::new();
    seeds.push(user_vote_seed_vec());
    seeds.push(key_seed(&accounts[1].key));
    seeds.push(key_seed(&accounts[0].key));
    let derived = find_program_address(&seeds, program_id);
    proof {
        assert(crate::runtime::seeds_view(seeds@) =~= record_seeds(
            accounts@[1].key@,
            accounts@[0].key@,
        ));
    }
    plan_vote(program_id, accounts, option, bump, derived)
}

/// Vote once the record account exists: writes the voter's record into
/// account 2 and the topic, with the vote counted, into account 1.
pub fn finish_vote(accounts: &mut Vec<AccountView>, topic: VoteTopic, option: u8, bump: u8) -> (r: Result<
    (),
    ProgramError,
>)
    requires
        old(accounts)@.len() >= 3,
    ensures
        outcome(
            r,
            models(old(accounts)@),
            models(final(accounts)@),
            vote_finish(models(old(accounts)@), topic@, option, bump),
        ),
{
    let user_vote = UserVote {
        is_initialized: true,
        topic: accounts[1].key,
        voter: accounts[0].key,
        vote_option: option,
        bump,
    };
    let vote_enc = user_vote.try_to_vec();
    if vote_enc.len() > accounts[2].data.len() {
        return Err(ProgramError::BorshIoError(WireError::WriteZero));
    }
    let mut vote_topic = topic;
    if option == 0 {
        vote_topic.option_a_votes = if vote_topic.option_a_votes == u64::MAX {
            0
        } else {
            vote_topic.option_a_votes + 1
        };
    } else {
        vote_topic.option_b_votes = if vote_topic.option_b_votes == u64::MAX {
            0
        } else {
            vote_topic.option_b_votes + 1
        };
    }
    assert(vote_topic@ == counted_topic(topic@, option));
    let topic_enc = match vote_topic.try_to_vec() {
        Err(e) => return Err(ProgramError::BorshIoError(e)),
        Ok(v) => v,
    };
    if topic_enc.len() > accounts[1].data.len() {
        return Err(ProgramError::BorshIoError(WireError::WriteZero));
    }
    let ghost before = models(accounts@);
    let r1 = store_account_data(accounts, 2, &vote_enc);
    assert(r1 is Ok);
    let ghost middle = models(accounts@);
    assert(middle[1] == before[1]);
    store_account_data(accounts, 1, &topic_enc)
}

// ----- laws ------------------------------------------------------------------

/// The account CreateTopic asks for is exactly a topic's size: once the
/// runtime has created it (`created`: the creator unchanged, the topic
/// account holding `space` bytes), writing the topic succeeds, fills the
/// account, and the account reads back as the new topic: initialized, created
/// by the signer, with the description and bump given and no votes.
pub proof fn lemma_create_topic_fills_account(
    program_id: Seq<u8>,
    accounts: Seq<AccountModel>,
    description: Seq<char>,
    bump: u8,
    derived: Option<(Seq<u8>, u8)>,
    created: Seq<AccountModel>,
)
    requires
        keys_shaped(accounts),
        create_topic_plan(program_id, accounts, description, bump, derived) is Some,
        create_topic_plan(program_id, accounts, description, bump, derived)->Some_0 is Ok,
        created.len() == accounts.len(),
        created[0].key == accounts[0].key,
        created[1].data.len() == create_topic_plan(
            program_id,
            accounts,
            description,
            bump,
            derived,
        )->Some_0->Ok_0.space,
    ensures
        ({
            let t = new_topic(accounts[0].key, description, bump);
            let after = create_topic_finish(created, description, bump);
            &&& after is Ok
            &&& after->Ok_0.len() == created.len()
            &&& after->Ok_0[1].data == topic_bytes(t)
            &&& exactly(parse_topic(after->Ok_0[1].data, 0), after->Ok_0[1].data.len() as int)
                == Ok::<VoteTopicModel, WireError>(t)
            &&& forall|i: int| 0 <= i < created.len() && i != 1 ==> after->Ok_0[i] == created[i]
        }),
{
    let t = new_topic(accounts[0].key, description, bump);
    assert(topic_encodable(t));
    lemma_topic_roundtrip(t, Seq::empty());
    assert(topic_bytes(t) + Seq::<u8>::empty() =~= topic_bytes(t));
    let d = created[1].data;
    assert(topic_bytes(t) + d.skip(topic_bytes(t).len() as int) =~= topic_bytes(t));
}

/// After CreateTopic's write the topic account reads back as the new topic,
/// whatever else its data holds after it; no other account changes.
pub proof fn lemma_create_topic_reads_back(
    accounts: Seq<AccountModel>,
    description: Seq<char>,
    bump: u8,
)
    requires
        keys_shaped(accounts),
        accounts.len() >= 2,
        create_topic_finish(accounts, description, bump) is Ok,
    ensures
        ({
            let after = create_topic_finish(accounts, description, bump)->Ok_0;
            let t = new_topic(accounts[0].key, description, bump);
            &&& parse_topic(after[1].data, 0) == Ok::<(VoteTopicModel, int), WireError>(
                (t, topic_bytes(t).len() as int),
            )
            &&& t == VoteTopicModel {
                is_initialized: true,
                creator: accounts[0].key,
                description: description,
                option_a_votes: 0,
                option_b_votes: 0,
                bump: bump,
            }
            &&& after.len() == accounts.len()
            &&& after[1].key == accounts[1].key
            &&& after[1].owner == accounts[1].owner
            &&& forall|i: int| 0 <= i < accounts.len() && i != 1 ==> after[i] == accounts[i]
        }),
{
    let t = new_topic(accounts[0].key, description, bump);
    let d = accounts[1].data;
    lemma_topic_roundtrip(t, d.skip(topic_bytes(t).len() as int));
}

/// A vote counts exactly once: after Vote's checks passed and its writes
/// succeeded (on `created`, the accounts once the runtime made the record
/// account, with the voter and the topic account as they were), the topic
/// account reads back as the topic that was there with one more vote for the
/// chosen option and the other count unchanged, and the record account reads
/// back as the voter's record of that option.
pub proof fn lemma_vote_counts_once(
    program_id: Seq<u8>,
    accounts: Seq<AccountModel>,
    option: u8,
    bump: u8,
    derived: Option<(Seq<u8>, u8)>,
    created: Seq<AccountModel>,
)
    requires
        keys_shaped(accounts),
        vote_plan(program_id, accounts, option, bump, derived) is Some,
        vote_plan(program_id, accounts, option, bump, derived)->Some_0 is Ok,
        created.len() == accounts.len(),
        created[0] == accounts[0],
        created[1] == accounts[1],
        vote_finish(
            created,
            vote_plan(program_id, accounts, option, bump, derived)->Some_0->Ok_0.topic,
            option,
            bump,
        ) is Ok,
    ensures
        ({
            let before = parse_topic(accounts[1].data, 0)->Ok_0.0;
            let plan = vote_plan(program_id, accounts, option, bump, derived)->Some_0->Ok_0;
            let after = vote_finish(created, plan.topic, option, bump)->Ok_0;
            let t = parse_topic(after[1].data, 0)->Ok_0.0;
            &&& plan.topic == before
            &&& parse_topic(after[1].data, 0) is Ok
            &&& t == counted_topic(before, option)
            &&& option == 0 ==> t.option_a_votes == votes_after(before.option_a_votes)
                && t.option_b_votes == before.option_b_votes
            &&& option == 1 ==> t.option_b_votes == votes_after(before.option_b_votes)
                && t.option_a_votes == before.option_a_votes
            &&& t.description == before.description
            &&& t.creator == before.creator
            &&& parse_user_vote(after[2].data, 0) == Ok::<(UserVoteModel, int), WireError>(
                (
                    UserVoteModel {
                        is_initialized: true,
                        topic: accounts[1].key,
                        voter: accounts[0].key,
                        vote_option: option,
                        bump: bump,
                    },
                    67,
                ),
            )
            &&& option == 0 && before.option_a_votes < u64::MAX ==> t.option_a_votes
                == before.option_a_votes + 1
            &&& option == 1 && before.option_b_votes < u64::MAX ==> t.option_b_votes
                == before.option_b_votes + 1
            &&& t.is_initialized
            &&& t.bump == before.bump
            &&& after[0] == accounts[0]
        }),
{
    let before = parse_topic(accounts[1].data, 0)->Ok_0.0;
    lemma_parse_topic_encodable(accounts[1].data, 0);
    let c = counted_topic(before, option);
    let rec = new_record(created, option, bump);
    let a1 = put_data(created, 2, user_vote_bytes(rec))->Ok_0;
    lemma_user_vote_roundtrip(rec, created[2].data.skip(67));
    lemma_topic_roundtrip(c, a1[1].data.skip(topic_bytes(c).len() as int));
}

/// A voter cannot vote twice: once a vote's writes succeeded on a record
/// account that the program owns and that holds data (as the runtime leaves it
/// after creating it), Vote's checks on the resulting accounts fail with
/// `AlreadyVoted`, whichever valid option is chosen.
pub proof fn lemma_cannot_vote_twice(
    program_id: Seq<u8>,
    accounts: Seq<AccountModel>,
    option: u8,
    bump: u8,
    derived: Option<(Seq<u8>, u8)>,
    created: Seq<AccountModel>,
    second_option: u8,
)
    requires
        keys_shaped(accounts),
        vote_plan(program_id, accounts, option, bump, derived) is Some,
        vote_plan(program_id, accounts, option, bump, derived)->Some_0 is Ok,
        created.len() == accounts.len(),
        created[0] == accounts[0],
        created[1] == accounts[1],
        created[2].key == accounts[2].key,
        created[2].owner == program_id,
        created[2].data.len() > 0,
        vote_finish(
            created,
            vote_plan(program_id, accounts, option, bump, derived)->Some_0->Ok_0.topic,
            option,
            bump,
        ) is Ok,
        second_option <= 1,
    ensures
        vote_plan(
            program_id,
            vote_finish(
                created,
                vote_plan(program_id, accounts, option, bump, derived)->Some_0->Ok_0.topic,
                option,
                bump,
            )->Ok_0,
            second_option,
            bump,
            derived,
        ) == Some(Err::<VotePlanModel, ProgramError>(vote_err(VoteError::AlreadyVoted))),
{
    lemma_vote_counts_once(program_id, accounts, option, bump, derived, created);
}


/// The program acts only on accounts at their derived addresses: whenever
/// CreateTopic's checks pass, the topic account is the one derived from
/// `["vote_topic", creator]` with the bump given, and the program signs its
/// creation, for an account of its own, with exactly those seeds and bump; whenever Vote's checks pass,
/// the record account is the one derived from `["user_vote", topic, voter]`
/// with the bump given, and a record account to create is signed for with
/// exactly those seeds and bump.
pub proof fn lemma_accounts_at_derived_addresses(
    program_id: Seq<u8>,
    accounts: Seq<AccountModel>,
    description: Seq<char>,
    option: u8,
    bump: u8,
    topic_derived: Option<(Seq<u8>, u8)>,
    record_derived: Option<(Seq<u8>, u8)>,
)
    ensures
        create_topic_plan(program_id, accounts, description, bump, topic_derived) matches Some(Ok(q))
            ==> topic_derived == Some((accounts[1].key, bump)) && q.signer_seeds == topic_seeds(
            accounts[0].key,
        ).push(seq![bump]) && q.new_account == 1 && q.payer == 0 && q.owner == program_id,
        vote_plan(program_id, accounts, option, bump, record_derived) matches Some(Ok(p))
            ==> record_derived == Some((accounts[2].key, bump)) && (p.create_record matches Some(
            q,
        ) ==> q.signer_seeds == record_seeds(accounts[1].key, accounts[0].key).push(seq![bump])
            && q.new_account == 2 && q.payer == 0 && q.space == 67 && q.owner == program_id),
{
}

} // verus!
