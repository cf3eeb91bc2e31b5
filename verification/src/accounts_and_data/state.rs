//! The user profile stored in a profile account.
use vstd::prelude::*;
use vstd::utf8::{decode_utf8, encode_utf8, valid_utf8};

use crate::address::Address;
use crate::wire::{
    agrees, bool_bytes, exactly, has, lemma_parse_bool_at, lemma_parse_bytes_at,
    lemma_parse_u8_at, parse_bool, parse_bytes, parse_u8, read_address, read_bool, read_u8,
    string_from_utf8_lossy, utf8_lossy, write_address, write_bool, write_bytes, WireError,
};

verus! {

broadcast use vstd::array::group_array_axioms;

/// A user profile: its owner, a name of up to 32 bytes and an email of up to
/// 64 bytes (each kept in a fixed zero-padded array with its length), and an
/// age.
#[derive(Debug, Clone, Copy)]
pub struct UserProfile {
    pub is_initialized: bool,
    pub owner: Address,
    pub name: [u8; 32],
    pub name_len: u8,
    pub age: u8,
    pub email: [u8; 64],
    pub email_len: u8,
}

/// The value of a [`UserProfile`].
pub struct UserProfileModel {
    pub is_initialized: bool,
    pub owner: Seq<u8>,
    pub name: Seq<u8>,
    pub name_len: u8,
    pub age: u8,
    pub email: Seq<u8>,
    pub email_len: u8,
}

impl View for UserProfile {
    type V = UserProfileModel;

    open spec fn view(&self) -> UserProfileModel {
        UserProfileModel {
            is_initialized: self.is_initialized,
            owner: self.owner@,
            name: self.name@,
            name_len: self.name_len,
            age: self.age,
            email: self.email@,
            email_len: self.email_len,
        }
    }
}

/// A model that a `UserProfile` can hold: the key and arrays have their sizes.
pub open spec fn profile_shaped(p: UserProfileModel) -> bool {
    p.owner.len() == 32 && p.name.len() == 32 && p.email.len() == 64
}

pub open spec fn profile_bytes(p: UserProfileModel) -> Seq<u8> {
    bool_bytes(p.is_initialized) + p.owner + p.name + seq![p.name_len, p.age] + p.email + seq![
        p.email_len,
    ]
}

pub open spec fn parse_profile(b: Seq<u8>, p: int) -> Result<(UserProfileModel, int), WireError> {
    match parse_bool(b, p) {
        Err(e) => Err(e),
        Ok((is_initialized, p1)) => match parse_bytes(b, p1, 32) {
            Err(e) => Err(e),
            Ok((owner, p2)) => match parse_bytes(b, p2, 32) {
                Err(e) => Err(e),
                Ok((name, p3)) => match parse_u8(b, p3) {
                    Err(e) => Err(e),
                    Ok((name_len, p4)) => match parse_u8(b, p4) {
                        Err(e) => Err(e),
                        Ok((age, p5)) => match parse_bytes(b, p5, 64) {
                            Err(e) => Err(e),
                            Ok((email, p6)) => match parse_u8(b, p6) {
                                Err(e) => Err(e),
                                Ok((email_len, p7)) => Ok(
                                    (
                                        UserProfileModel {
                                            is_initialized,
                                            owner,
                                            name,
                                            name_len,
                                            age,
                                            email,
                                            email_len,
                                        },
                                        p7,
                                    ),
                                ),
                            },
                        },
                    },
                },
            },
        },
    }
}

/// `bytes` padded with zeros (or cut) to `n` bytes.
pub open spec fn padded(bytes: Seq<u8>, n: nat) -> Seq<u8> {
    Seq::new(n, |i: int| if i < bytes.len() { bytes[i] } else { 0u8 })
}

/// A name is acceptable when its UTF-8 form has 1 to 32 bytes.
pub open spec fn name_ok(name: Seq<char>) -> bool {
    0 < encode_utf8(name).len() <= UserProfile::MAX_NAME_LEN
}

/// An email is acceptable when its UTF-8 form has 1 to 64 bytes.
pub open spec fn email_ok(email: Seq<char>) -> bool {
    0 < encode_utf8(email).len() <= UserProfile::MAX_EMAIL_LEN
}

/// The profile `UserProfile::new` makes of acceptable fields.
pub open spec fn new_profile(owner: Seq<u8>, name: Seq<char>, age: u8, email: Seq<char>) -> UserProfileModel {
    UserProfileModel {
        is_initialized: true,
        owner: owner,
        name: padded(encode_utf8(name), 32),
        name_len: encode_utf8(name).len() as u8,
        age: age,
        email: padded(encode_utf8(email), 64),
        email_len: encode_utf8(email).len() as u8,
    }
}

pub open spec fn with_name(p: UserProfileModel, name: Seq<char>) -> UserProfileModel {
    UserProfileModel {
        name: padded(encode_utf8(name), 32),
        name_len: encode_utf8(name).len() as u8,
        ..p
    }
}

pub open spec fn with_email(p: UserProfileModel, email: Seq<char>) -> UserProfileModel {
    UserProfileModel {
        email: padded(encode_utf8(email), 64),
        email_len: encode_utf8(email).len() as u8,
        ..p
    }
}

/// The error message `UserProfile::new` gives for the fields, when it refuses
/// them.
pub open spec fn new_profile_error(name: Seq<char>, email: Seq<char>) -> Option<Seq<char>> {
    if encode_utf8(name).len() > UserProfile::MAX_NAME_LEN {
        Some("名字长度超过限制"@)
    } else if encode_utf8(email).len() > UserProfile::MAX_EMAIL_LEN {
        Some("邮箱长度超过限制"@)
    } else if name.len() == 0 {
        Some("名字不能为空"@)
    } else if email.len() == 0 {
        Some("邮箱不能为空"@)
    } else {
        None
    }
}

/// The error message `set_name` gives, when it refuses the name.
pub open spec fn name_error(name: Seq<char>) -> Option<Seq<char>> {
    if encode_utf8(name).len() > UserProfile::MAX_NAME_LEN {
        Some("名字长度超过限制"@)
    } else if name.len() == 0 {
        Some("名字不能为空"@)
    } else {
        None
    }
}

/// The error message `set_email` gives, when it refuses the email.
pub open spec fn email_error(email: Seq<char>) -> Option<Seq<char>> {
    if encode_utf8(email).len() > UserProfile::MAX_EMAIL_LEN {
        Some("邮箱长度超过限制"@)
    } else if email.len() == 0 {
        Some("邮箱不能为空"@)
    } else {
        None
    }
}

pub proof fn lemma_empty_chars(s: Seq<char>)
    ensures
        (s.len() == 0) <==> (encode_utf8(s).len() == 0),
{
    if s.len() > 0 {
        let e = encode_utf8(s);
        assert(e == vstd::utf8::encode_scalar(s[0] as u32) + encode_utf8(s.drop_first()));
    }
}

/// Copies `bytes` into a zero array of 32 bytes.
fn fill_name(bytes: &[u8]) -> (r: [u8; 32])
    requires
        bytes@.len() <= 32,
    ensures
        r@ == padded(bytes@, 32),
{
    let mut a = [0u8; 32];
    let mut i: usize = 0;
    while i < bytes.len()
        invariant
            i <= bytes@.len() <= 32,
            forall|j: int| 0 <= j < i ==> a@[j] == bytes@[j],
            forall|j: int| i <= j < 32 ==> a@[j] == 0u8,
        decreases bytes@.len() - i,
    {
        a[i] = bytes[i];
        i = i + 1;
    }
    assert(a@ =~= padded(bytes@, 32));
    a
}

/// Copies `bytes` into a zero array of 64 bytes.
fn fill_email(bytes: &[u8]) -> (r: [u8; 64])
    requires
        bytes@.len() <= 64,
    ensures
        r@ == padded(bytes@, 64),
{
    let mut a = [0u8; 64];
    let mut i: usize = 0;
    while i < bytes.len()
        invariant
            i <= bytes@.len() <= 64,
            forall|j: int| 0 <= j < i ==> a@[j] == bytes@[j],
            forall|j: int| i <= j < 64 ==> a@[j] == 0u8,
        decreases bytes@.len() - i,
    {
        a[i] = bytes[i];
        i = i + 1;
    }
    assert(a@ =~= padded(bytes@, 64));
    a
}

/// Reads a 64-byte array.
fn read_array64(buf: &[u8], pos: usize) -> (r: Result<([u8; 64], usize), WireError>)
    ensures
        match r {
            Ok((a, q)) => parse_bytes(buf@, pos as int, 64) == Ok::<(Seq<u8>, int), WireError>(
                (a@, q as int),
            ),
            Err(e) => parse_bytes(buf@, pos as int, 64) == Err::<(Seq<u8>, int), WireError>(e),
        },
{
    if pos > buf.len() || buf.len() - pos < 64 {
        return Err(WireError::UnexpectedLength);
    }
    let mut a = [0u8; 64];
    let len = buf.len();
    let mut i: usize = 0;
    while i < 64
        invariant
            0 <= i <= 64,
            len == buf@.len(),
            pos + 64 <= buf@.len(),
            forall|j: int| 0 <= j < i ==> a@[j] == buf@[pos + j],
        decreases 64 - i,
    {
        a[i] = buf[pos + i];
        i = i + 1;
    }
    assert(a@ =~= buf@.subrange(pos as int, pos + 64));
    Ok((a, pos + 64))
}

/// The first `n` bytes of an array, as a vector.
fn prefix_of(a: &[u8], n: usize) -> (r: Vec<u8>)
    requires
        n <= a@.len(),
    ensures
        r@ == a@.subrange(0, n as int),
{
    let mut out: Vec<u8> = Vec::new();
    let mut i: usize = 0;
    while i < n
        invariant
            i <= n <= a@.len(),
            out@ == a@.subrange(0, i as int),
        decreases n - i,
    {
        out.push(a[i]);
        i = i + 1;
        assert(out@ =~= a@.subrange(0, i as int));
    }
    out
}

impl UserProfile {
    /// The longest name, in bytes.
    pub const MAX_NAME_LEN: usize = 32;

    /// The longest email, in bytes.
    pub const MAX_EMAIL_LEN: usize = 64;

    /// The size of an encoded profile: 1 + 32 + 32 + 1 + 1 + 64 + 1 bytes.
    pub fn space() -> (r: usize)
        ensures
            r == 132,
    {
        1 + 32 + 32 + 1 + 1 + 64 + 1
    }

    /// A profile of `owner` with the given fields, or the reason they are
    /// refused: a name over 32 bytes, an email over 64 bytes, an empty name or
    /// an empty email (checked in that order).
    pub fn new(owner: Address, name: String, age: u8, email: String) -> (r: Result<Self, &'static str>)
        ensures
            match new_profile_error(name@, email@) {
                Some(m) => r matches Err(e) && e@ == m,
                None => r matches Ok(p) && p@ == new_profile(owner@, name@, age, email@),
            },
    {
        let name_data = name.as_str().as_bytes();
        let email_data = email.as_str().as_bytes();
        if name_data.len() > Self::MAX_NAME_LEN {
            return Err("名字长度超过限制");
        }
        if email_data.len() > Self::MAX_EMAIL_LEN {
            return Err("邮箱长度超过限制");
        }
        proof {
            lemma_empty_chars(name@);
            lemma_empty_chars(email@);
        }
        if name.as_str().is_empty() {
            return Err("名字不能为空");
        }
        if email.as_str().is_empty() {
            return Err("邮箱不能为空");
        }
        let name_bytes = fill_name(name_data);
        let email_bytes = fill_email(email_data);
        Ok(UserProfile {
            is_initialized: true,
            owner,
            name: name_bytes,
            name_len: name_data.len() as u8,
            age,
            email: email_bytes,
            email_len: email_data.len() as u8,
        })
    }

    /// The name as a string (invalid UTF-8 replaced as `from_utf8_lossy` does).
    pub fn get_name(&self) -> (r: String)
        requires
            self.name_len <= 32,
        ensures
            r@ == utf8_lossy(self@.name.subrange(0, self.name_len as int)),
            valid_utf8(self@.name.subrange(0, self.name_len as int)) ==> r@ == decode_utf8(
                self@.name.subrange(0, self.name_len as int),
            ),
    {
        let bytes = prefix_of(self.name.as_slice(), self.name_len as usize);
        string_from_utf8_lossy(bytes.as_slice())
    }

    /// The email as a string (invalid UTF-8 replaced as `from_utf8_lossy`
    /// does).
    pub fn get_email(&self) -> (r: String)
        requires
            self.email_len <= 64,
        ensures
            r@ == utf8_lossy(self@.email.subrange(0, self.email_len as int)),
            valid_utf8(self@.email.subrange(0, self.email_len as int)) ==> r@ == decode_utf8(
                self@.email.subrange(0, self.email_len as int),
            ),
    {
        let bytes = prefix_of(self.email.as_slice(), self.email_len as usize);
        string_from_utf8_lossy(bytes.as_slice())
    }

    /// Replaces the name, or refuses one over 32 bytes or empty (leaving the
    /// profile as it was).
    pub fn set_name(&mut self, name: String) -> (r: Result<(), &'static str>)
        ensures
            match name_error(name@) {
                Some(m) => (r matches Err(e) && e@ == m) && final(self)@ == old(self)@,
                None => r is Ok && final(self)@ == with_name(old(self)@, name@),
            },
    {
        let name_data = name.as_str().as_bytes();
        if name_data.len() > Self::MAX_NAME_LEN {
            return Err("名字长度超过限制");
        }
        proof {
            lemma_empty_chars(name@);
        }
        if name.as_str().is_empty() {
            return Err("名字不能为空");
        }
        self.name = fill_name(name_data);
        self.name_len = name_data.len() as u8;
        Ok(())
    }

    /// Replaces the email, or refuses one over 64 bytes or empty (leaving the
    /// profile as it was).
    pub fn set_email(&mut self, email: String) -> (r: Result<(), &'static str>)
        ensures
            match email_error(email@) {
                Some(m) => (r matches Err(e) && e@ == m) && final(self)@ == old(self)@,
                None => r is Ok && final(self)@ == with_email(old(self)@, email@),
            },
    {
        let email_data = email.as_str().as_bytes();
        if email_data.len() > Self::MAX_EMAIL_LEN {
            return Err("邮箱长度超过限制");
        }
        proof {
            lemma_empty_chars(email@);
        }
        if email.as_str().is_empty() {
            return Err("邮箱不能为空");
        }
        self.email = fill_email(email_data);
        self.email_len = email_data.len() as u8;
        Ok(())
    }

    /// Reads a profile at `pos`.
    pub fn deserialize(buf: &[u8], pos: usize) -> (r: Result<(UserProfile, usize), WireError>)
        ensures
            agrees(r, parse_profile(buf@, pos as int)),
    {
        let (is_initialized, p1) = read_bool(buf, pos)?;
        let (owner, p2) = read_address(buf, p1)?;
        let (name, p3) = read_address(buf, p2)?;
        let (name_len, p4) = read_u8(buf, p3)?;
        let (age, p5) = read_u8(buf, p4)?;
        let (email, p6) = read_array64(buf, p5)?;
        let (email_len, p7) = read_u8(buf, p6)?;
        Ok((
            UserProfile {
                is_initialized,
                owner,
                name: name.bytes,
                name_len,
                age,
                email,
                email_len,
            },
            p7,
        ))
    }

    /// Reads a profile that fills the whole buffer.
    pub fn try_from_slice(buf: &[u8]) -> (r: Result<UserProfile, WireError>)
        ensures
            match exactly(parse_profile(buf@, 0), buf@.len() as int) {
                Ok(m) => r matches Ok(p) && p@ == m,
                Err(e) => r == Err::<UserProfile, WireError>(e),
            },
    {
        let (p, end) = UserProfile::deserialize(buf, 0)?;
        if end == buf.len() {
            Ok(p)
        } else {
            Err(WireError::NotAllBytesRead)
        }
    }

    /// The encoding of the profile.
    pub fn try_to_vec(&self) -> (r: Vec<u8>)
        ensures
            r@ == profile_bytes(self@),
    {
        let mut out: Vec<u8> = Vec::new();
        write_bool(&mut out, self.is_initialized);
        write_address(&mut out, &self.owner);
        write_bytes(&mut out, self.name.as_slice());
        out.push(self.name_len);
        out.push(self.age);
        write_bytes(&mut out, self.email.as_slice());
        out.push(self.email_len);
        assert(out@ =~= profile_bytes(self@));
        out
    }
}

/// An encoded profile is 132 bytes and reads back as the same profile.
pub proof fn lemma_profile_roundtrip(p: UserProfileModel, rest: Seq<u8>)
    requires
        profile_shaped(p),
    ensures
        profile_bytes(p).len() == 132,
        parse_profile(profile_bytes(p) + rest, 0) == Ok::<(UserProfileModel, int), WireError>(
            (p, 132),
        ),
{
    let b = profile_bytes(p) + rest;
    assert(b.subrange(0, 1) =~= bool_bytes(p.is_initialized));
    lemma_parse_bool_at(b, 0, p.is_initialized);
    assert(b.subrange(1, 33) =~= p.owner);
    lemma_parse_bytes_at(b, 1, p.owner);
    assert(b.subrange(33, 65) =~= p.name);
    lemma_parse_bytes_at(b, 33, p.name);
    lemma_parse_u8_at(b, 65, p.name_len);
    lemma_parse_u8_at(b, 66, p.age);
    assert(b.subrange(67, 131) =~= p.email);
    lemma_parse_bytes_at(b, 67, p.email);
    lemma_parse_u8_at(b, 131, p.email_len);
}

/// A buffer that reads as a whole profile is that profile's encoding.
pub proof fn lemma_profile_canonical(b: Seq<u8>)
    requires
        exactly(parse_profile(b, 0), b.len() as int) is Ok,
    ensures
        b == profile_bytes(exactly(parse_profile(b, 0), b.len() as int)->Ok_0),
        profile_shaped(exactly(parse_profile(b, 0), b.len() as int)->Ok_0),
        b.len() == 132,
{
    let p = exactly(parse_profile(b, 0), b.len() as int)->Ok_0;
    assert(b[0] == 0 || b[0] == 1);
    assert(b =~= profile_bytes(p));
}

/// The name and email stored by `new` read back as the strings given.
pub proof fn lemma_new_profile_reads_back(owner: Seq<u8>, name: Seq<char>, age: u8, email: Seq<char>)
    requires
        name_ok(name),
        email_ok(email),
    ensures
        ({
            let p = new_profile(owner, name, age, email);
            &&& p.name.subrange(0, p.name_len as int) == encode_utf8(name)
            &&& p.email.subrange(0, p.email_len as int) == encode_utf8(email)
            &&& valid_utf8(p.name.subrange(0, p.name_len as int))
            &&& decode_utf8(p.name.subrange(0, p.name_len as int)) == name
            &&& valid_utf8(p.email.subrange(0, p.email_len as int))
            &&& decode_utf8(p.email.subrange(0, p.email_len as int)) == email
        }),
{
    let p = new_profile(owner, name, age, email);
    assert(p.name.subrange(0, p.name_len as int) =~= encode_utf8(name));
    assert(p.email.subrange(0, p.email_len as int) =~= encode_utf8(email));
    vstd::utf8::encode_utf8_valid_utf8(name);
    vstd::utf8::encode_utf8_decode_utf8(name);
    vstd::utf8::encode_utf8_valid_utf8(email);
    vstd::utf8::encode_utf8_decode_utf8(email);
}

} // verus!
