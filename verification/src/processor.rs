//! The instruction processor: authorization and the membership state
//! machine.
//!
//! Each invocation is one atomic transition over caller-owned buffers:
//! every check runs and every derived record is staged before any buffer is
//! written, so a failed invocation leaves every buffer byte-for-byte
//! unchanged.

use vstd::assert_seqs_equal;
use vstd::prelude::*;

use crate::accessor::load_member;
use crate::accessor::load_membership;
use crate::accessor::store_member;
use crate::accessor::store_membership;
use crate::codec::MEMBERSHIP_RECORD_LEN;
use crate::codec::MEMBER_RECORD_OVERHEAD;
use crate::codec::decode_instruction;
use crate::codec::member_bytes;
use crate::codec::membership_bytes;
use crate::codec::parse_member;
use crate::codec::parse_membership;
use crate::codec::parse_instruction;
use crate::types::IDENTITY_LEN;
use crate::types::InstructionModel;
use crate::types::Member;
use crate::types::MemberModel;
use crate::types::Membership;
use crate::types::MembershipError;
use crate::types::MembershipInstruction;
use crate::types::MembershipModel;

verus! {

/// One account handle as the host supplies it: a fixed-capacity byte
/// buffer, the 32-byte identity associated with it, and whether that
/// identity co-signed the current invocation.
#[derive(Debug, PartialEq, Eq)]
pub struct AccountHandle {
    /// The 32-byte identity bound to this account.
    pub identity: Vec<u8>,
    /// Whether this identity co-signed the invocation.
    pub is_signer: bool,
    /// The persistent buffer; its length is its fixed capacity.
    pub data: Vec<u8>,
}

/// Mathematical model of an account handle.
#[verifier::ext_equal]
pub ghost struct AccountModel {
    pub identity: Seq<u8>,
    pub is_signer: bool,
    pub data: Seq<u8>,
}

impl View for AccountHandle {
    type V = AccountModel;

    open spec fn view(&self) -> AccountModel {
        AccountModel { identity: self.identity@, is_signer: self.is_signer, data: self.data@ }
    }
}

/// An account handle is well formed when its identity is a full 32-byte
/// value.
pub open spec fn account_wf(a: AccountModel) -> bool {
    a.identity.len() == IDENTITY_LEN
}

/// The identity and signer flag of an account never change; only its
/// buffer's bytes may, and never the buffer's length.
pub open spec fn account_frame(pre: AccountModel, post: AccountModel) -> bool {
    &&& post.identity == pre.identity
    &&& post.is_signer == pre.is_signer
    &&& post.data.len() == pre.data.len()
}

/// Everything the initialize operation promises, relating the registry
/// account before and after to the result.
pub open spec fn initialize_post(
    pre_reg: AccountModel,
    auth: AccountModel,
    post_reg: AccountModel,
    r: Result<(), MembershipError>,
) -> bool {
    &&& account_frame(pre_reg, post_reg)
    &&& (!auth.is_signer ==> r == Err::<(), MembershipError>(MembershipError::NotAuthorized)
        && post_reg == pre_reg)
    &&& (auth.is_signer && pre_reg.data.len() < MEMBERSHIP_RECORD_LEN ==> r == Err::<
        (),
        MembershipError,
    >(MembershipError::BufferTooSmall) && post_reg == pre_reg)
    &&& (auth.is_signer && pre_reg.data.len() >= MEMBERSHIP_RECORD_LEN ==> r == Ok::<
        (),
        MembershipError,
    >(()) && post_reg.data == membership_bytes(
        MembershipModel { member_count: 0, authority: auth.identity },
    ) + pre_reg.data.skip(MEMBERSHIP_RECORD_LEN as int))
}

/// Everything the register operation promises, relating the registry and
/// member accounts before and after to the result.
pub open spec fn register_post(
    pre_reg: AccountModel,
    pre_mem: AccountModel,
    auth: AccountModel,
    name: Seq<u8>,
    is_ai: bool,
    voting_power: u64,
    post_reg: AccountModel,
    post_mem: AccountModel,
    r: Result<(), MembershipError>,
) -> bool {
    &&& account_frame(pre_reg, post_reg)
    &&& account_frame(pre_mem, post_mem)
    &&& match parse_membership(pre_reg.data) {
        None => r == Err::<(), MembershipError>(MembershipError::CorruptState) && post_reg
            == pre_reg && post_mem == pre_mem,
        Some(st) => {
            if !auth.is_signer || auth.identity != st.authority {
                r == Err::<(), MembershipError>(MembershipError::NotAuthorized) && post_reg
                    == pre_reg && post_mem == pre_mem
            } else if pre_mem.data.len() < MEMBER_RECORD_OVERHEAD + name.len() {
                r == Err::<(), MembershipError>(MembershipError::BufferTooSmall) && post_reg
                    == pre_reg && post_mem == pre_mem
            } else {
                r == Ok::<(), MembershipError>(()) && post_mem.data == member_bytes(
                    MemberModel {
                        id: st.member_count,
                        name: name,
                        is_ai: is_ai,
                        voting_power: voting_power,
                        pubkey: pre_mem.identity,
                    },
                ) + pre_mem.data.skip(MEMBER_RECORD_OVERHEAD + name.len() as int)
                    && post_reg.data == membership_bytes(
                    MembershipModel {
                        member_count: (st.member_count + 1) as u64,
                        authority: st.authority,
                    },
                )
            }
        },
    }
}

/// Everything the voting-power update promises, relating the member
/// account before and after to the result. The registry account is only
/// read.
pub open spec fn update_post(
    reg: AccountModel,
    pre_mem: AccountModel,
    auth: AccountModel,
    voting_power: u64,
    post_mem: AccountModel,
    r: Result<(), MembershipError>,
) -> bool {
    &&& account_frame(pre_mem, post_mem)
    &&& match parse_membership(reg.data) {
        None => r == Err::<(), MembershipError>(MembershipError::CorruptState) && post_mem
            == pre_mem,
        Some(st) => {
            if !auth.is_signer || auth.identity != st.authority {
                r == Err::<(), MembershipError>(MembershipError::NotAuthorized) && post_mem
                    == pre_mem
            } else {
                match parse_member(pre_mem.data) {
                    None => r == Err::<(), MembershipError>(MembershipError::CorruptState)
                        && post_mem == pre_mem,
                    Some(mem) => r == Ok::<(), MembershipError>(()) && post_mem.data
                        == member_bytes(
                        MemberModel {
                            id: mem.id,
                            name: mem.name,
                            is_ai: mem.is_ai,
                            voting_power: voting_power,
                            pubkey: mem.pubkey,
                        },
                    ),
                }
            }
        },
    }
}

/// Copies a byte vector.
fn copy_bytes(src: &Vec<u8>) -> (r: Vec<u8>)
    ensures
        r@ == src@,
{
    vstd::slice::slice_to_vec(src.as_slice())
}

/// Compares two byte vectors.
fn bytes_eq(a: &Vec<u8>, b: &Vec<u8>) -> (r: bool)
    ensures
        r == (a@ == b@),
{
    if a.len() != b.len() {
        proof {
            assert(a@.len() != b@.len());
        }
        return false;
    }
    let mut i: usize = 0;
    while i < a.len()
        invariant
            i <= a@.len() == b@.len(),
            forall|j: int| 0 <= j < i ==> a@[j] == b@[j],
        decreases a@.len() - i,
    {
        if a[i] != b[i] {
            return false;
        }
        i = i + 1;
    }
    proof {
        assert_seqs_equal!(a@ == b@);
    }
    true
}

/// Handles the initialize operation: writes a fresh registry record with
/// count zero and the signing authority's identity.
///
/// Fails with `NotAuthorized` when the authority did not sign, and with
/// `BufferTooSmall` when the registry buffer cannot hold the 40-byte
/// record; on any failure the registry buffer is untouched. Succeeds on
/// every other input, overwriting whatever the buffer held before.
pub fn process_initialize(
    membership_account: &mut AccountHandle,
    authority_account: &AccountHandle,
) -> (r: Result<(), MembershipError>)
    requires
        account_wf(authority_account@),
    ensures
        initialize_post(old(membership_account)@, authority_account@, final(membership_account)@, r),
{
    if !authority_account.is_signer {
        return Err(MembershipError::NotAuthorized);
    }
    let membership = Membership { member_count: 0, authority: copy_bytes(&authority_account.identity) };
    store_membership(&mut membership_account.data, &membership)
}

/// Handles the register operation: issues the next identifier, writes the
/// new member record, and advances the registry's count — both writes or
/// neither.
///
/// Fails with `CorruptState` when the registry buffer does not decode, with
/// `NotAuthorized` when the authority did not sign or does not match the
/// registry's stored authority, and with `BufferTooSmall` when the member
/// record does not fit its buffer — in which case the registry's count is
/// left unchanged. Succeeds on every other input.
///
/// The caller must rule out a registry whose counter is already saturated:
/// issuing past the largest 64-bit count has no defined behaviour.
pub fn process_register_member(
    membership_account: &mut AccountHandle,
    member_account: &mut AccountHandle,
    authority_account: &AccountHandle,
    name: Vec<u8>,
    is_ai: bool,
    voting_power: u64,
) -> (r: Result<(), MembershipError>)
    requires
        account_wf(old(member_account)@),
        name@.len() <= u32::MAX,
        (match parse_membership(old(membership_account)@.data) {
            Some(st) => st.member_count < u64::MAX,
            None => true,
        }),
    ensures
        register_post(
            old(membership_account)@,
            old(member_account)@,
            authority_account@,
            name@,
            is_ai,
            voting_power,
            final(membership_account)@,
            final(member_account)@,
            r,
        ),
{
    let mut membership = match load_membership(&membership_account.data) {
        Ok(m) => m,
        Err(e) => { return Err(e) },
    };
    if !authority_account.is_signer || !bytes_eq(&authority_account.identity, &membership.authority)
    {
        return Err(MembershipError::NotAuthorized);
    }
    let member = Member {
        id: membership.member_count,
        name,
        is_ai,
        voting_power,
        pubkey: copy_bytes(&member_account.identity),
    };
    membership.member_count = membership.member_count + 1;
    proof {
        crate::codec::lemma_parse_membership_complete(old(membership_account)@.data);
    }
    let member_write = store_member(&mut member_account.data, &member);
    if member_write.is_err() {
        return Err(MembershipError::BufferTooSmall);
    }
    let registry_write = store_membership(&mut membership_account.data, &membership);
    proof {
        assert(registry_write is Ok);
        assert_seqs_equal!(membership_account@.data == membership_bytes(membership@));
    }
    Ok(())
}

/// Handles the voting-power update: rewrites one member record with a new
/// voting power and every other field exactly as it was.
///
/// Fails with `CorruptState` when the registry or the member buffer does
/// not decode, and with `NotAuthorized` when the authority did not sign or
/// does not match the registry's stored authority; on any failure the
/// member buffer is untouched. Succeeds on every other input.
pub fn process_update_voting_power(
    membership_account: &AccountHandle,
    member_account: &mut AccountHandle,
    authority_account: &AccountHandle,
    voting_power: u64,
) -> (r: Result<(), MembershipError>)
    ensures
        update_post(
            membership_account@,
            old(member_account)@,
            authority_account@,
            voting_power,
            final(member_account)@,
            r,
        ),
{
    let membership = match load_membership(&membership_account.data) {
        Ok(m) => m,
        Err(e) => { return Err(e) },
    };
    if !authority_account.is_signer || !bytes_eq(&authority_account.identity, &membership.authority)
    {
        return Err(MembershipError::NotAuthorized);
    }
    let mut member = match load_member(&member_account.data) {
        Ok(m) => m,
        Err(e) => { return Err(e) },
    };
    member.voting_power = voting_power;
    proof {
        crate::codec::lemma_parse_member_complete(old(member_account)@.data);
    }
    let write = store_member(&mut member_account.data, &member);
    proof {
        assert(write is Ok);
        assert_seqs_equal!(member_account@.data == member_bytes(member@));
    }
    Ok(())
}

/// No account changed: same handles, same signer flags, same buffer bytes.
pub open spec fn accounts_unchanged(pre: Seq<AccountHandle>, post: Seq<AccountHandle>) -> bool {
    &&& post.len() == pre.len()
    &&& forall|i: int| 0 <= i < pre.len() ==> #[trigger] post[i]@ == pre[i]@
}

/// The single public entry point: decodes the instruction blob, consumes
/// the account list positionally, and performs one atomic operation.
///
/// Fails with `MalformedInstruction` when the blob does not decode and with
/// `MissingAccount` when the list is shorter than the instruction requires;
/// every failure leaves every account byte-for-byte unchanged. The program
/// identity is part of the host's calling convention and is not consulted.
///
/// The caller supplies full 32-byte identities and, for a register
/// instruction, a registry whose counter is not already saturated.
pub fn process_instruction(
    _program_id: &Vec<u8>,
    accounts: &mut Vec<AccountHandle>,
    instruction_data: &Vec<u8>,
) -> (r: Result<(), MembershipError>)
    requires
        forall|i: int| 0 <= i < old(accounts)@.len() ==> account_wf(#[trigger] old(accounts)@[i]@),
        (match parse_instruction(instruction_data@) {
            Some(InstructionModel::RegisterMember { .. }) => old(accounts)@.len() >= 1 ==> (
            match parse_membership(old(accounts)@[0]@.data) {
                Some(st) => st.member_count < u64::MAX,
                None => true,
            }),
            _ => true,
        }),
    ensures
        final(accounts)@.len() == old(accounts)@.len(),
        match parse_instruction(instruction_data@) {
            None => r == Err::<(), MembershipError>(MembershipError::MalformedInstruction)
                && accounts_unchanged(old(accounts)@, final(accounts)@),
            Some(InstructionModel::Initialize) => {
                if old(accounts)@.len() < 2 {
                    r == Err::<(), MembershipError>(MembershipError::MissingAccount)
                        && accounts_unchanged(old(accounts)@, final(accounts)@)
                } else {
                    &&& initialize_post(
                        old(accounts)@[0]@,
                        old(accounts)@[1]@,
                        final(accounts)@[0]@,
                        r,
                    )
                    &&& forall|i: int|
                        1 <= i < old(accounts)@.len() ==> #[trigger] final(accounts)@[i]@ == old(
                            accounts,
                        )@[i]@
                }
            },
            Some(InstructionModel::RegisterMember { name, is_ai, voting_power }) => {
                if old(accounts)@.len() < 3 {
                    r == Err::<(), MembershipError>(MembershipError::MissingAccount)
                        && accounts_unchanged(old(accounts)@, final(accounts)@)
                } else {
                    &&& register_post(
                        old(accounts)@[0]@,
                        old(accounts)@[1]@,
                        old(accounts)@[2]@,
                        name,
                        is_ai,
                        voting_power,
                        final(accounts)@[0]@,
                        final(accounts)@[1]@,
                        r,
                    )
                    &&& forall|i: int|
                        2 <= i < old(accounts)@.len() ==> #[trigger] final(accounts)@[i]@ == old(
                            accounts,
                        )@[i]@
                }
            },
            Some(InstructionModel::UpdateVotingPower { voting_power }) => {
                if old(accounts)@.len() < 3 {
                    r == Err::<(), MembershipError>(MembershipError::MissingAccount)
                        && accounts_unchanged(old(accounts)@, final(accounts)@)
                } else {
                    &&& update_post(
                        old(accounts)@[0]@,
                        old(accounts)@[1]@,
                        old(accounts)@[2]@,
                        voting_power,
                        final(accounts)@[1]@,
                        r,
                    )
                    &&& final(accounts)@[0]@ == old(accounts)@[0]@
                    &&& forall|i: int|
                        2 <= i < old(accounts)@.len() ==> #[trigger] final(accounts)@[i]@ == old(
                            accounts,
                        )@[i]@
                }
            },
        },
{
    let instruction = match decode_instruction(instruction_data) {
        Some(i) => i,
        None => { return Err(MembershipError::MalformedInstruction) },
    };
    match instruction {
        MembershipInstruction::Initialize => {
            if accounts.len() < 2 {
                return Err(MembershipError::MissingAccount);
            }
            let mut membership_account = accounts.remove(0);
            let authority_account = accounts.remove(0);
            let r = process_initialize(&mut membership_account, &authority_account);
            accounts.insert(0, authority_account);
            accounts.insert(0, membership_account);
            proof {
                assert(accounts@.len() == old(accounts)@.len());
                assert(accounts@[0] == membership_account);
                assert(forall|i: int|
                    1 <= i < accounts@.len() ==> #[trigger] accounts@[i] == old(accounts)@[i]);
            }
            r
        },
        MembershipInstruction::RegisterMember { name, is_ai, voting_power } => {
            if accounts.len() < 3 {
                return Err(MembershipError::MissingAccount);
            }
            let mut membership_account = accounts.remove(0);
            let mut member_account = accounts.remove(0);
            let authority_account = accounts.remove(0);
            let r = process_register_member(
                &mut membership_account,
                &mut member_account,
                &authority_account,
                name,
                is_ai,
                voting_power,
            );
            accounts.insert(0, authority_account);
            accounts.insert(0, member_account);
            accounts.insert(0, membership_account);
            proof {
                assert(accounts@.len() == old(accounts)@.len());
                assert(accounts@[0] == membership_account);
                assert(accounts@[1] == member_account);
                assert(accounts@[2] == authority_account);
                assert(forall|i: int|
                    3 <= i < accounts@.len() ==> #[trigger] accounts@[i] == old(accounts)@[i]);
            }
            r
        },
        MembershipInstruction::UpdateVotingPower { voting_power } => {
            if accounts.len() < 3 {
                return Err(MembershipError::MissingAccount);
            }
            let membership_account = accounts.remove(0);
            let mut member_account = accounts.remove(0);
            let authority_account = accounts.remove(0);
            let r = process_update_voting_power(
                &membership_account,
                &mut member_account,
                &authority_account,
                voting_power,
            );
            accounts.insert(0, authority_account);
            accounts.insert(0, member_account);
            accounts.insert(0, membership_account);
            proof {
                assert(accounts@.len() == old(accounts)@.len());
                assert(accounts@[0] == membership_account);
                assert(accounts@[1] == member_account);
                assert(accounts@[2] == authority_account);
                assert(forall|i: int|
                    3 <= i < accounts@.len() ==> #[trigger] accounts@[i] == old(accounts)@[i]);
            }
            r
        },
    }
}

/// One successful registration as seen by the registry buffer alone: both
/// states decode, the issued identifier is the old count, the count grew
/// by exactly one, and the authority is untouched.
pub open spec fn register_transition(pre: Seq<u8>, post: Seq<u8>, issued_id: u64) -> bool {
    match (parse_membership(pre), parse_membership(post)) {
        (Some(st0), Some(st1)) => {
            &&& st0.member_count < u64::MAX
            &&& issued_id == st0.member_count
            &&& st1.member_count == st0.member_count + 1
            &&& st1.authority == st0.authority
        },
        _ => false,
    }
}

/// A successful register operation is a registry transition issuing the
/// old count as the new member's identifier; when the member buffer is
/// exactly the record's size, it decodes to the registered member.
pub proof fn lemma_register_success_transition(
    pre_reg: AccountModel,
    pre_mem: AccountModel,
    auth: AccountModel,
    name: Seq<u8>,
    is_ai: bool,
    voting_power: u64,
    post_reg: AccountModel,
    post_mem: AccountModel,
    r: Result<(), MembershipError>,
)
    requires
        register_post(pre_reg, pre_mem, auth, name, is_ai, voting_power, post_reg, post_mem, r),
        r is Ok,
        (match parse_membership(pre_reg.data) {
            Some(st) => st.member_count < u64::MAX,
            None => true,
        }),
        account_wf(pre_mem),
        name.len() <= u32::MAX,
    ensures
        parse_membership(pre_reg.data) is Some,
        register_transition(
            pre_reg.data,
            post_reg.data,
            parse_membership(pre_reg.data).unwrap().member_count,
        ),
        pre_mem.data.len() == MEMBER_RECORD_OVERHEAD + name.len() ==> parse_member(post_mem.data)
            == Some(
            MemberModel {
                id: parse_membership(pre_reg.data).unwrap().member_count,
                name: name,
                is_ai: is_ai,
                voting_power: voting_power,
                pubkey: pre_mem.identity,
            },
        ),
{
    let st = parse_membership(pre_reg.data).unwrap();
    crate::codec::lemma_parse_membership_complete(pre_reg.data);
    let advanced = MembershipModel {
        member_count: (st.member_count + 1) as u64,
        authority: st.authority,
    };
    crate::codec::lemma_membership_round_trip(advanced);
    if pre_mem.data.len() == MEMBER_RECORD_OVERHEAD + name.len() {
        let issued = MemberModel {
            id: st.member_count,
            name: name,
            is_ai: is_ai,
            voting_power: voting_power,
            pubkey: pre_mem.identity,
        };
        crate::codec::lemma_member_round_trip(issued);
        assert_seqs_equal!(post_mem.data == member_bytes(issued));
    }
}

/// Monotonicity of registration: along any chain of successful
/// registrations that starts from a freshly initialized registry, the
/// final count equals the number of registrations made, and the issued
/// identifiers are exactly 0, 1, ..., n-1, with no repeats.
pub proof fn lemma_issued_ids_contiguous(states: Seq<Seq<u8>>, ids: Seq<u64>)
    requires
        states.len() == ids.len() + 1,
        parse_membership(states[0]) is Some,
        parse_membership(states[0]).unwrap().member_count == 0,
        forall|i: int|
            0 <= i < ids.len() ==> register_transition(states[i], #[trigger] states[i + 1], ids[i]),
    ensures
        parse_membership(states[states.len() - 1]) is Some,
        parse_membership(states[states.len() - 1]).unwrap().member_count == ids.len(),
        forall|i: int| 0 <= i < ids.len() ==> ids[i] == i,
        forall|i: int, j: int| 0 <= i < j < ids.len() ==> ids[i] != ids[j],
    decreases ids.len(),
{
    if ids.len() > 0 {
        let n = ids.len() as int;
        let sub_states = states.take(n);
        let sub_ids = ids.take(n - 1);
        assert forall|i: int|
            0 <= i < sub_ids.len() implies register_transition(
            sub_states[i],
            #[trigger] sub_states[i + 1],
            sub_ids[i],
        ) by {
            assert(sub_states[i] == states[i]);
            assert(sub_states[i + 1] == states[i + 1]);
            assert(register_transition(states[i], states[i + 1], ids[i]));
        }
        assert(sub_states[0] == states[0]);
        lemma_issued_ids_contiguous(sub_states, sub_ids);
        assert(sub_states[sub_states.len() - 1] == states[n - 1]);
        assert(register_transition(states[n - 1], states[n], ids[n - 1]));
        assert forall|i: int| 0 <= i < n implies ids[i] == i by {
            if i < n - 1 {
                assert(sub_ids[i] == ids[i]);
            }
        }
    }
}

/// Field immutability: after a successful voting-power update, the member
/// buffer decodes to a record agreeing with the old one on every field but
/// the voting power, which is the requested one.
pub proof fn lemma_update_preserves_fields(
    reg: AccountModel,
    pre_mem: AccountModel,
    auth: AccountModel,
    voting_power: u64,
    post_mem: AccountModel,
    r: Result<(), MembershipError>,
)
    requires
        update_post(reg, pre_mem, auth, voting_power, post_mem, r),
        r is Ok,
    ensures
        parse_member(pre_mem.data) is Some,
        parse_member(post_mem.data) is Some,
        ({
            let before = parse_member(pre_mem.data).unwrap();
            let after = parse_member(post_mem.data).unwrap();
            &&& after.id == before.id
            &&& after.name == before.name
            &&& after.is_ai == before.is_ai
            &&& after.pubkey == before.pubkey
            &&& after.voting_power == voting_power
        }),
{
    let mem = parse_member(pre_mem.data).unwrap();
    crate::codec::lemma_parse_member_complete(pre_mem.data);
    let updated = MemberModel {
        id: mem.id,
        name: mem.name,
        is_ai: mem.is_ai,
        voting_power,
        pubkey: mem.pubkey,
    };
    crate::codec::lemma_member_round_trip(updated);
}

} // verus!
