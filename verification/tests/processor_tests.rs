use membership::accessor::{load_member, load_membership};
use membership::codec::encode_instruction;
use membership::processor::{
    process_initialize, process_instruction, process_register_member, process_update_voting_power,
    AccountHandle,
};
use membership::types::{MembershipError, MembershipInstruction};

fn identity(byte: u8) -> Vec<u8> {
    vec![byte; 32]
}

fn account(id_byte: u8, is_signer: bool, capacity: usize) -> AccountHandle {
    AccountHandle { identity: identity(id_byte), is_signer, data: vec![0u8; capacity] }
}

fn initialize_bytes() -> Vec<u8> {
    encode_instruction(&MembershipInstruction::Initialize)
}

fn register_bytes(name: &[u8], is_ai: bool, voting_power: u64) -> Vec<u8> {
    encode_instruction(&MembershipInstruction::RegisterMember {
        name: name.to_vec(),
        is_ai,
        voting_power,
    })
}

fn update_bytes(voting_power: u64) -> Vec<u8> {
    encode_instruction(&MembershipInstruction::UpdateVotingPower { voting_power })
}

/// Runs Initialize with authority byte 0xA0 and returns the account list
/// [registry, member buffer, authority] ready for a register call.
fn initialized_accounts(member_capacity: usize) -> Vec<AccountHandle> {
    let mut accounts = vec![account(0x01, false, 40), account(0xA0, true, 0)];
    let program_id = identity(0xFF);
    assert_eq!(process_instruction(&program_id, &mut accounts, &initialize_bytes()), Ok(()));
    let registry = accounts.remove(0);
    vec![registry, account(0xB0, false, member_capacity), account(0xA0, true, 0)]
}

#[test]
fn scenario_initialize() {
    let mut accounts = vec![account(0x01, false, 40), account(0xA0, true, 0)];
    let program_id = identity(0xFF);
    assert_eq!(process_instruction(&program_id, &mut accounts, &initialize_bytes()), Ok(()));
    let registry = load_membership(&accounts[0].data).expect("registry must decode");
    assert_eq!(registry.member_count, 0);
    assert_eq!(registry.authority, identity(0xA0));
}

#[test]
fn scenario_register_member() {
    let mut accounts = initialized_accounts(56);
    let program_id = identity(0xFF);
    let blob = register_bytes(b"Ada", false, 100);
    assert_eq!(process_instruction(&program_id, &mut accounts, &blob), Ok(()));
    let member = load_member(&accounts[1].data).expect("member must decode");
    assert_eq!(member.id, 0);
    assert_eq!(member.name, b"Ada".to_vec());
    assert!(!member.is_ai);
    assert_eq!(member.voting_power, 100);
    assert_eq!(member.pubkey, identity(0xB0));
    let registry = load_membership(&accounts[0].data).expect("registry must decode");
    assert_eq!(registry.member_count, 1);
    assert_eq!(registry.authority, identity(0xA0));
}

#[test]
fn scenario_register_rejects_wrong_authority() {
    let mut accounts = initialized_accounts(56);
    let blob = register_bytes(b"Ada", false, 100);
    let program_id = identity(0xFF);
    assert_eq!(process_instruction(&program_id, &mut accounts, &blob), Ok(()));

    // a signer whose identity is not the stored authority
    accounts[2] = account(0xA1, true, 0);
    let registry_before = accounts[0].data.clone();
    let member_before = accounts[1].data.clone();
    let blob = register_bytes(b"Eve", false, 9999);
    assert_eq!(
        process_instruction(&program_id, &mut accounts, &blob),
        Err(MembershipError::NotAuthorized)
    );
    assert_eq!(accounts[0].data, registry_before);
    assert_eq!(accounts[1].data, member_before);
}

#[test]
fn scenario_update_voting_power() {
    let mut accounts = initialized_accounts(56);
    let program_id = identity(0xFF);
    let blob = register_bytes(b"Ada", false, 100);
    assert_eq!(process_instruction(&program_id, &mut accounts, &blob), Ok(()));

    let blob = update_bytes(250);
    assert_eq!(process_instruction(&program_id, &mut accounts, &blob), Ok(()));
    let member = load_member(&accounts[1].data).expect("member must decode");
    assert_eq!(member.voting_power, 250);
    assert_eq!(member.id, 0);
    assert_eq!(member.name, b"Ada".to_vec());
    assert!(!member.is_ai);
    assert_eq!(member.pubkey, identity(0xB0));
}

#[test]
fn initialize_requires_signer() {
    let mut accounts = vec![account(0x01, false, 40), account(0xA0, false, 0)];
    let before = accounts[0].data.clone();
    let program_id = identity(0xFF);
    assert_eq!(
        process_instruction(&program_id, &mut accounts, &initialize_bytes()),
        Err(MembershipError::NotAuthorized)
    );
    assert_eq!(accounts[0].data, before);
}

#[test]
fn update_requires_signer() {
    let mut accounts = initialized_accounts(56);
    let program_id = identity(0xFF);
    let blob = register_bytes(b"Ada", false, 100);
    assert_eq!(process_instruction(&program_id, &mut accounts, &blob), Ok(()));

    // right identity, but it did not sign
    accounts[2] = account(0xA0, false, 0);
    let member_before = accounts[1].data.clone();
    assert_eq!(
        process_instruction(&program_id, &mut accounts, &update_bytes(1)),
        Err(MembershipError::NotAuthorized)
    );
    assert_eq!(accounts[1].data, member_before);
}

#[test]
fn oversized_name_leaves_count_unchanged() {
    // the member buffer holds 56 bytes; a 4-byte name needs 57
    let mut accounts = initialized_accounts(56);
    let program_id = identity(0xFF);
    let blob = register_bytes(b"Adas", false, 100);
    assert_eq!(
        process_instruction(&program_id, &mut accounts, &blob),
        Err(MembershipError::BufferTooSmall)
    );
    let registry = load_membership(&accounts[0].data).expect("registry must decode");
    assert_eq!(registry.member_count, 0);
    assert!(load_member(&accounts[1].data).is_err());
}

#[test]
fn counts_and_ids_grow_contiguously() {
    let mut accounts = initialized_accounts(54);
    let program_id = identity(0xFF);
    let mut issued: Vec<u64> = Vec::new();
    for round in 0..3u8 {
        accounts[1] = account(0xC0 + round, false, 54);
        let blob = register_bytes(&[b'a' + round], false, 10);
        assert_eq!(process_instruction(&program_id, &mut accounts, &blob), Ok(()));
        issued.push(load_member(&accounts[1].data).expect("member must decode").id);
    }
    assert_eq!(issued, vec![0, 1, 2]);
    let registry = load_membership(&accounts[0].data).expect("registry must decode");
    assert_eq!(registry.member_count, 3);
}

#[test]
fn reinitialize_resets_count_silently() {
    let mut accounts = initialized_accounts(56);
    let program_id = identity(0xFF);
    let blob = register_bytes(b"Ada", false, 100);
    assert_eq!(process_instruction(&program_id, &mut accounts, &blob), Ok(()));
    assert_eq!(load_membership(&accounts[0].data).unwrap().member_count, 1);

    // a second Initialize is not rejected: it resets the counter
    let registry = accounts.remove(0);
    let mut accounts = vec![registry, account(0xA0, true, 0)];
    assert_eq!(process_instruction(&program_id, &mut accounts, &initialize_bytes()), Ok(()));
    assert_eq!(load_membership(&accounts[0].data).unwrap().member_count, 0);
}

#[test]
fn register_on_corrupt_registry_fails() {
    let mut accounts =
        vec![account(0x01, false, 41), account(0xB0, false, 56), account(0xA0, true, 0)];
    let program_id = identity(0xFF);
    let blob = register_bytes(b"Ada", false, 100);
    assert_eq!(
        process_instruction(&program_id, &mut accounts, &blob),
        Err(MembershipError::CorruptState)
    );
}

#[test]
fn update_on_unregistered_member_fails() {
    let mut accounts = initialized_accounts(52);
    let program_id = identity(0xFF);
    // accounts[1] was never written: 52 zero bytes do not decode
    assert_eq!(
        process_instruction(&program_id, &mut accounts, &update_bytes(5)),
        Err(MembershipError::CorruptState)
    );
}

#[test]
fn malformed_instruction_is_rejected() {
    let mut accounts = vec![account(0x01, false, 40), account(0xA0, true, 0)];
    let program_id = identity(0xFF);
    assert_eq!(
        process_instruction(&program_id, &mut accounts, &vec![9u8]),
        Err(MembershipError::MalformedInstruction)
    );
    assert_eq!(
        process_instruction(&program_id, &mut accounts, &Vec::new()),
        Err(MembershipError::MalformedInstruction)
    );
}

#[test]
fn missing_accounts_are_rejected() {
    let program_id = identity(0xFF);
    let mut accounts = vec![account(0x01, false, 40)];
    assert_eq!(
        process_instruction(&program_id, &mut accounts, &initialize_bytes()),
        Err(MembershipError::MissingAccount)
    );
    let mut accounts = vec![account(0x01, false, 40), account(0xA0, true, 0)];
    assert_eq!(
        process_instruction(&program_id, &mut accounts, &register_bytes(b"Ada", false, 1)),
        Err(MembershipError::MissingAccount)
    );
    assert_eq!(
        process_instruction(&program_id, &mut accounts, &update_bytes(1)),
        Err(MembershipError::MissingAccount)
    );
}

#[test]
fn operations_callable_directly() {
    // the per-operation entry points behave as the dispatcher does
    let mut registry = account(0x01, false, 40);
    let authority = account(0xA0, true, 0);
    assert_eq!(process_initialize(&mut registry, &authority), Ok(()));
    assert_eq!(load_membership(&registry.data).unwrap().member_count, 0);

    let mut member = account(0xB0, false, 56);
    assert_eq!(
        process_register_member(&mut registry, &mut member, &authority, b"Ada".to_vec(), true, 7),
        Ok(())
    );
    assert_eq!(load_membership(&registry.data).unwrap().member_count, 1);
    let stored = load_member(&member.data).unwrap();
    assert!(stored.is_ai);
    assert_eq!(stored.voting_power, 7);

    assert_eq!(process_update_voting_power(&registry, &mut member, &authority, 8), Ok(()));
    assert_eq!(load_member(&member.data).unwrap().voting_power, 8);
}

#[test]
fn register_accepts_empty_name() {
    let mut accounts = initialized_accounts(53);
    let program_id = identity(0xFF);
    let blob = register_bytes(b"", false, 1);
    assert_eq!(process_instruction(&program_id, &mut accounts, &blob), Ok(()));
    let member = load_member(&accounts[1].data).unwrap();
    assert_eq!(member.name, Vec::<u8>::new());
    assert_eq!(member.id, 0);
}

#[test]
fn register_blob_with_bad_boolean_is_malformed() {
    let mut accounts = initialized_accounts(56);
    let program_id = identity(0xFF);
    let mut blob = register_bytes(b"Ada", false, 100);
    blob[8] = 2; // the flag byte of a three-byte name
    assert_eq!(
        process_instruction(&program_id, &mut accounts, &blob),
        Err(MembershipError::MalformedInstruction)
    );
}

#[test]
fn update_leaves_registry_bytes_unchanged() {
    let mut accounts = initialized_accounts(56);
    let program_id = identity(0xFF);
    let blob = register_bytes(b"Ada", false, 100);
    assert_eq!(process_instruction(&program_id, &mut accounts, &blob), Ok(()));
    let registry_before = accounts[0].data.clone();
    assert_eq!(process_instruction(&program_id, &mut accounts, &update_bytes(250)), Ok(()));
    assert_eq!(accounts[0].data, registry_before);
}

#[test]
fn register_is_ai_flag_is_stored() {
    let mut accounts = initialized_accounts(56);
    let program_id = identity(0xFF);
    let blob = register_bytes(b"Hal", true, 1);
    assert_eq!(process_instruction(&program_id, &mut accounts, &blob), Ok(()));
    assert!(load_member(&accounts[1].data).unwrap().is_ai);
}
