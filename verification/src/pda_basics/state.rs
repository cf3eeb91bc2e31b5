//! The voting program's accounts: a topic with its two vote counts, and one
//! record per voter and topic.
use vstd::prelude::*;
use vstd::utf8::encode_utf8;

use crate::address::Address;
use crate::wire::{agrees, bool_bytes, exactly, lemma_parse_bool_at, lemma_parse_bytes_at, lemma_parse_string_at, lemma_parse_string_encodable, lemma_parse_u64_at, lemma_parse_u8_at, lemma_string_bytes_len, lemma_u64_value, parse_bool, parse_bytes, parse_string, parse_u64, parse_u8, read_address, read_bool, read_string, read_u64, read_u8, string_bytes, string_encodable, u64_bytes, write_address, write_bool, write_string, write_u64, WireError};

verus! {

/// A voting topic.
#[derive(Debug, Clone)]
pub struct VoteTopic {
    pub is_initialized: bool,
    /// Who created the topic; its address is derived from this key.
    pub creator: Address,
    pub description: String,
    pub option_a_votes: u64,
    pub option_b_votes: u64,
    /// The bump seed of the topic's derived address.
    pub bump: u8,
}

/// The value of a [`VoteTopic`].
pub struct VoteTopicModel {
    pub is_initialized: bool,
    pub creator: Seq<u8>,
    pub description: Seq<char>,
    pub option_a_votes: u64,
    pub option_b_votes: u64,
    pub bump: u8,
}

impl View for VoteTopic {
    type V = VoteTopicModel;

    open spec fn view(&self) -> VoteTopicModel {
        VoteTopicModel {
            is_initialized: self.is_initialized,
            creator: self.creator@,
            description: self.description@,
            option_a_votes: self.option_a_votes,
            option_b_votes: self.option_b_votes,
            bump: self.bump,
        }
    }
}

/// One voter's vote on one topic.
#[derive(Debug, Clone, Copy)]
pub struct UserVote {
    pub is_initialized: bool,
    pub topic: Address,
    pub voter: Address,
    /// 0 for option A, 1 for option B.
    pub vote_option: u8,
    /// The bump seed of the record's derived address.
    pub bump: u8,
}

/// The value of a [`UserVote`].
pub struct UserVoteModel {
    pub is_initialized: bool,
    pub topic: Seq<u8>,
    pub voter: Seq<u8>,
    pub vote_option: u8,
    pub bump: u8,
}

impl View for UserVote {
    type V = UserVoteModel;

    open spec fn view(&self) -> UserVoteModel {
        UserVoteModel {
            is_initialized: self.is_initialized,
            topic: self.topic@,
            voter: self.voter@,
            vote_option: self.vote_option,
            bump: self.bump,
        }
    }
}

// ----- encoding --------------------------------------------------------------

/// The topic fits the format: a 32-byte creator and a description whose
/// length fits the `u32` prefix.
pub open spec fn topic_encodable(t: VoteTopicModel) -> bool {
    t.creator.len() == 32 && string_encodable(t.description)
}

pub open spec fn topic_bytes(t: VoteTopicModel) -> Seq<u8> {
    bool_bytes(t.is_initialized) + t.creator + string_bytes(t.description) + u64_bytes(
        t.option_a_votes,
    ) + u64_bytes(t.option_b_votes) + seq![t.bump]
}

/// The topic's encoding, or `LengthOverflow` when the description does not
/// fit its length prefix.
pub open spec fn topic_encoding(t: VoteTopicModel) -> Result<Seq<u8>, WireError> {
    if string_encodable(t.description) {
        Ok(topic_bytes(t))
    } else {
        Err(WireError::LengthOverflow)
    }
}

pub open spec fn parse_topic(b: Seq<u8>, p: int) -> Result<(VoteTopicModel, int), WireError> {
    match parse_bool(b, p) {
        Err(e) => Err(e),
        Ok((is_initialized, p1)) => match parse_bytes(b, p1, 32) {
            Err(e) => Err(e),
            Ok((creator, p2)) => match parse_string(b, p2) {
                Err(e) => Err(e),
                Ok((description, p3)) => match parse_u64(b, p3) {
                    Err(e) => Err(e),
                    Ok((option_a_votes, p4)) => match parse_u64(b, p4) {
                        Err(e) => Err(e),
                        Ok((option_b_votes, p5)) => match parse_u8(b, p5) {
                            Err(e) => Err(e),
                            Ok((bump, p6)) => Ok(
                                (
                                    VoteTopicModel {
                                        is_initialized,
                                        creator,
                                        description,
                                        option_a_votes,
                                        option_b_votes,
                                        bump,
                                    },
                                    p6,
                                ),
                            ),
                        },
                    },
                },
            },
        },
    }
}

pub open spec fn user_vote_bytes(v: UserVoteModel) -> Seq<u8> {
    bool_bytes(v.is_initialized) + v.topic + v.voter + seq![v.vote_option, v.bump]
}

pub open spec fn parse_user_vote(b: Seq<u8>, p: int) -> Result<(UserVoteModel, int), WireError> {
    match parse_bool(b, p) {
        Err(e) => Err(e),
        Ok((is_initialized, p1)) => match parse_bytes(b, p1, 32) {
            Err(e) => Err(e),
            Ok((topic, p2)) => match parse_bytes(b, p2, 32) {
                Err(e) => Err(e),
                Ok((voter, p3)) => match parse_u8(b, p3) {
                    Err(e) => Err(e),
                    Ok((vote_option, p4)) => match parse_u8(b, p4) {
                        Err(e) => Err(e),
                        Ok((bump, p5)) => Ok(
                            (UserVoteModel { is_initialized, topic, voter, vote_option, bump }, p5),
                        ),
                    },
                },
            },
        },
    }
}

// ----- codec -----------------------------------------------------------------

impl VoteTopic {
    /// The longest description, in bytes.
    pub const MAX_DESCRIPTION_LEN: usize = 200;

    /// The size of a topic account whose description is `description_len`
    /// bytes long: 54 bytes plus the description.
    pub fn space(description_len: usize) -> (r: usize)
        requires
            description_len + 54 <= usize::MAX,
        ensures
            r == description_len + 54,
    {
        1 + 32 + 4 + description_len + 8 + 8 + 1
    }

    /// Reads a topic at `pos`.
    pub fn deserialize(buf: &[u8], pos: usize) -> (r: Result<(VoteTopic, usize), WireError>)
        ensures
            agrees(r, parse_topic(buf@, pos as int)),
    {
        let (is_initialized, p1) = read_bool(buf, pos)?;
        let (creator, p2) = read_address(buf, p1)?;
        let (description, p3) = read_string(buf, p2)?;
        let (option_a_votes, p4) = read_u64(buf, p3)?;
        let (option_b_votes, p5) = read_u64(buf, p4)?;
        let (bump, p6) = read_u8(buf, p5)?;
        Ok(
            (
                VoteTopic {
                    is_initialized,
                    creator,
                    description,
                    option_a_votes,
                    option_b_votes,
                    bump,
                },
                p6,
            ),
        )
    }

    /// Reads a topic that fills the whole buffer.
    pub fn try_from_slice(buf: &[u8]) -> (r: Result<VoteTopic, WireError>)
        ensures
            match exactly(parse_topic(buf@, 0), buf@.len() as int) {
                Ok(m) => r matches Ok(t) && t@ == m,
                Err(e) => r matches Err(x) && x == e,
            },
    {
        let (t, end) = VoteTopic::deserialize(buf, 0)?;
        if end == buf.len() {
            Ok(t)
        } else {
            Err(WireError::NotAllBytesRead)
        }
    }

    /// The encoding of the topic, or `LengthOverflow` when the description is
    /// too long for its length prefix.
    pub fn try_to_vec(&self) -> (r: Result<Vec<u8>, WireError>)
        ensures
            match topic_encoding(self@) {
                Ok(b) => r matches Ok(v) && v@ == b,
                Err(e) => r matches Err(x) && x == e,
            },
    {
        let mut out: Vec<u8> = Vec::new();
        write_bool(&mut out, self.is_initialized);
        write_address(&mut out, &self.creator);
        write_string(&mut out, &self.description)?;
        write_u64(&mut out, self.option_a_votes);
        write_u64(&mut out, self.option_b_votes);
        out.push(self.bump);
        assert(out@ =~= topic_bytes(self@));
        Ok(out)
    }
}

impl UserVote {
    /// The size of a vote record account: 67 bytes.
    pub fn space() -> (r: usize)
        ensures
            r == 67,
    {
        1 + 32 + 32 + 1 + 1
    }

    /// Reads a vote record at `pos`.
    pub fn deserialize(buf: &[u8], pos: usize) -> (r: Result<(UserVote, usize), WireError>)
        ensures
            agrees(r, parse_user_vote(buf@, pos as int)),
    {
        let (is_initialized, p1) = read_bool(buf, pos)?;
        let (topic, p2) = read_address(buf, p1)?;
        let (voter, p3) = read_address(buf, p2)?;
        let (vote_option, p4) = read_u8(buf, p3)?;
        let (bump, p5) = read_u8(buf, p4)?;
        Ok((UserVote { is_initialized, topic, voter, vote_option, bump }, p5))
    }

    /// Reads a vote record that fills the whole buffer.
    pub fn try_from_slice(buf: &[u8]) -> (r: Result<UserVote, WireError>)
        ensures
            match exactly(parse_user_vote(buf@, 0), buf@.len() as int) {
                Ok(m) => r matches Ok(v) && v@ == m,
                Err(e) => r matches Err(x) && x == e,
            },
    {
        let (v, end) = UserVote::deserialize(buf, 0)?;
        if end == buf.len() {
            Ok(v)
        } else {
            Err(WireError::NotAllBytesRead)
        }
    }

    /// The encoding of the vote record.
    pub fn try_to_vec(&self) -> (r: Vec<u8>)
        ensures
            r@ == user_vote_bytes(self@),
    {
        let mut out: Vec<u8> = Vec::new();
        write_bool(&mut out, self.is_initialized);
        write_address(&mut out, &self.topic);
        write_address(&mut out, &self.voter);
        out.push(self.vote_option);
        out.push(self.bump);
        assert(out@ =~= user_vote_bytes(self@));
        out
    }
}

// ----- laws of the encoding --------------------------------------------------

/// An encodable topic's encoding is `VoteTopic::space` of its description's
/// length, and reads back, followed by anything, as the same topic.
pub proof fn lemma_topic_roundtrip(t: VoteTopicModel, rest: Seq<u8>)
    requires
        topic_encodable(t),
    ensures
        topic_bytes(t).len() == encode_utf8(t.description).len() + 54,
        parse_topic(topic_bytes(t) + rest, 0) == Ok::<(VoteTopicModel, int), WireError>(
            (t, topic_bytes(t).len() as int),
        ),
{
    let b = topic_bytes(t) + rest;
    let d = string_bytes(t.description);
    let dl = d.len() as int;
    lemma_string_bytes_len(t.description);
    lemma_u64_value(t.option_a_votes);
    lemma_u64_value(t.option_b_votes);
    assert(b.subrange(0, 1) =~= bool_bytes(t.is_initialized));
    lemma_parse_bool_at(b, 0, t.is_initialized);
    assert(b.subrange(1, 33) =~= t.creator);
    lemma_parse_bytes_at(b, 1, t.creator);
    assert(b.subrange(33, 33 + dl) =~= d);
    lemma_parse_string_at(b, 33, t.description);
    assert(b.subrange(33 + dl, 41 + dl) =~= u64_bytes(t.option_a_votes));
    lemma_parse_u64_at(b, 33 + dl, t.option_a_votes);
    assert(b.subrange(41 + dl, 49 + dl) =~= u64_bytes(t.option_b_votes));
    lemma_parse_u64_at(b, 41 + dl, t.option_b_votes);
    lemma_parse_u8_at(b, 49 + dl, t.bump);
}

/// A topic read from bytes fits the format again.
pub proof fn lemma_parse_topic_encodable(b: Seq<u8>, p: int)
    requires
        parse_topic(b, p) is Ok,
    ensures
        topic_encodable(parse_topic(b, p)->Ok_0.0),
{
    lemma_parse_string_encodable(b, p + 33);
}

/// A vote record with 32-byte keys is `UserVote::space` bytes long and reads
/// back, followed by anything, as the same record.
pub proof fn lemma_user_vote_roundtrip(v: UserVoteModel, rest: Seq<u8>)
    requires
        v.topic.len() == 32,
        v.voter.len() == 32,
    ensures
        user_vote_bytes(v).len() == 67,
        parse_user_vote(user_vote_bytes(v) + rest, 0) == Ok::<(UserVoteModel, int), WireError>(
            (v, 67),
        ),
{
    let b = user_vote_bytes(v) + rest;
    assert(b.subrange(0, 1) =~= bool_bytes(v.is_initialized));
    lemma_parse_bool_at(b, 0, v.is_initialized);
    assert(b.subrange(1, 33) =~= v.topic);
    lemma_parse_bytes_at(b, 1, v.topic);
    assert(b.subrange(33, 65) =~= v.voter);
    lemma_parse_bytes_at(b, 33, v.voter);
    lemma_parse_u8_at(b, 65, v.vote_option);
    lemma_parse_u8_at(b, 66, v.bump);
}

} // verus!
