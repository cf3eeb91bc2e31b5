use borsh::{BorshDeserialize, BorshSerialize};
use solana_program::pubkey::Pubkey;
use solana_tutorial::address::Address;
use solana_tutorial::runtime::{find_program_address, key_seed};
use solana_tutorial::wire::{
    read_bool, read_option_string, read_option_u8, read_string, read_u32, read_u64,
    string_from_utf8, string_from_utf8_lossy, store_into, write_option_string, write_option_u8,
    write_string, write_u32, WireError,
};

#[test]
fn derived_addresses_match_the_sdk() {
    let program_id = Pubkey::new_unique();
    let user = Pubkey::new_unique();
    let seeds = vec![b"user_vote".to_vec(), user.to_bytes().to_vec()];
    let (key, bump) = find_program_address(&seeds, &Address::new(program_id.to_bytes())).unwrap();
    let (expected, expected_bump) = Pubkey::find_program_address(&[b"user_vote", user.as_ref()], &program_id);
    assert_eq!(key.to_bytes(), expected.to_bytes());
    assert_eq!(bump, expected_bump);
    assert_ne!(key.to_bytes(), program_id.to_bytes());
}

#[test]
fn key_seed_is_the_key_bytes() {
    let k = Address::new([3; 32]);
    assert_eq!(key_seed(&k), vec![3u8; 32]);
}

#[test]
fn utf8_through_std() {
    assert_eq!(string_from_utf8("héllo".as_bytes().to_vec()), Some("héllo".to_string()));
    assert_eq!(string_from_utf8(vec![0xff, 0x41]), None);
    assert_eq!(string_from_utf8_lossy("名字".as_bytes()), "名字");
    assert_eq!(string_from_utf8_lossy(&[0x41, 0xff]), "A\u{fffd}");
}

#[test]
fn strings_match_borsh() {
    let s = "你好, borsh".to_string();
    let mut out = Vec::new();
    write_string(&mut out, &s).unwrap();
    assert_eq!(out, s.try_to_vec().unwrap());
    let (back, end) = read_string(&out, 0).unwrap();
    assert_eq!(back, s);
    assert_eq!(end, out.len());
    assert_eq!(String::try_from_slice(&out).unwrap(), s);
    assert_eq!(read_string(&out[..out.len() - 1], 0), Err(WireError::UnexpectedLength));
    let bad = vec![2, 0, 0, 0, 0xc3, 0x28];
    assert_eq!(read_string(&bad, 0), Err(WireError::InvalidUtf8));
    assert!(String::try_from_slice(&bad).is_err());
}

#[test]
fn options_match_borsh() {
    for v in [None, Some(0u8), Some(200u8)] {
        let mut out = Vec::new();
        write_option_u8(&mut out, v);
        assert_eq!(out, v.try_to_vec().unwrap());
        assert_eq!(read_option_u8(&out, 0), Ok((v, out.len())));
    }
    for v in [None, Some("x".to_string())] {
        let mut out = Vec::new();
        write_option_string(&mut out, &v).unwrap();
        assert_eq!(out, v.try_to_vec().unwrap());
        assert_eq!(read_option_string(&out, 0), Ok((v.clone(), out.len())));
    }
    assert_eq!(read_option_u8(&[2, 0], 0), Err(WireError::InvalidOption(2)));
}

#[test]
fn integers_and_bools() {
    let mut out = Vec::new();
    write_u32(&mut out, 0xdead_beef);
    assert_eq!(out, 0xdead_beefu32.try_to_vec().unwrap());
    assert_eq!(read_u32(&out, 0), Ok((0xdead_beef, 4)));
    assert_eq!(read_u64(&7u64.to_le_bytes(), 0), Ok((7, 8)));
    assert_eq!(read_u64(&[1, 2, 3], 0), Err(WireError::UnexpectedLength));
    assert_eq!(read_bool(&[1], 0), Ok((true, 1)));
    assert_eq!(read_bool(&[0], 0), Ok((false, 1)));
    assert_eq!(read_bool(&[5], 0), Err(WireError::InvalidBool(5)));
    assert!(bool::try_from_slice(&[5]).is_err());
}

#[test]
fn store_writes_over_the_front() {
    let mut data = vec![9u8; 6];
    store_into(&mut data, &vec![1, 2, 3]).unwrap();
    assert_eq!(data, vec![1, 2, 3, 9, 9, 9]);
    assert_eq!(store_into(&mut data, &vec![0; 7]), Err(WireError::WriteZero));
    assert_eq!(data, vec![1, 2, 3, 9, 9, 9]);
}
