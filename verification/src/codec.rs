//! The wire codec: a fixed, versionless, tag-then-fields binary scheme.
//!
//! Integers are fixed-width little-endian, booleans are one byte (0 or 1),
//! byte strings carry a 32-bit length prefix, and each instruction variant
//! is selected by a one-byte discriminant. Decoding is all-or-nothing: a
//! buffer decodes only when every field is present and no byte is left over.
//!
//! The spec-level `*_bytes` functions define the canonical encoding and the
//! `parse_*` functions the decoding; the executable functions are proved
//! against them, and the round-trip lemmas tie the two directions together.

use vstd::assert_seqs_equal;
use vstd::bytes::lemma_auto_spec_u32_to_from_le_bytes;
use vstd::bytes::lemma_auto_spec_u64_to_from_le_bytes;
use vstd::bytes::spec_u32_from_le_bytes;
use vstd::bytes::spec_u32_to_le_bytes;
use vstd::bytes::spec_u64_from_le_bytes;
use vstd::bytes::spec_u64_to_le_bytes;
use vstd::bytes::u32_from_le_bytes;
use vstd::bytes::u32_to_le_bytes;
use vstd::bytes::u64_from_le_bytes;
use vstd::bytes::u64_to_le_bytes;
use vstd::prelude::*;
use vstd::slice::slice_subrange;
use vstd::slice::slice_to_vec;

use crate::types::InstructionModel;
use crate::types::Member;
use crate::types::MemberModel;
use crate::types::Membership;
use crate::types::MembershipInstruction;
use crate::types::MembershipModel;
use crate::types::instruction_model_wf;
use crate::types::member_model_wf;
use crate::types::membership_model_wf;

verus! {

/// Encoded length of a registry record: 8-byte count plus 32-byte authority.
pub const MEMBERSHIP_RECORD_LEN: usize = 40;

/// Encoded length of a member record beyond its name: 8-byte id, 4-byte
/// name length, 1-byte flag, 8-byte voting power, 32-byte public key.
pub const MEMBER_RECORD_OVERHEAD: usize = 53;

/// Encoded length of a register instruction beyond its name: 1-byte tag,
/// 4-byte name length, 1-byte flag, 8-byte voting power.
pub const REGISTER_INSTRUCTION_OVERHEAD: usize = 14;

/// The wire byte standing for a boolean.
pub open spec fn bool_byte(b: bool) -> u8 {
    if b {
        1
    } else {
        0
    }
}

/// Canonical encoding of a registry record.
pub open spec fn membership_bytes(m: MembershipModel) -> Seq<u8> {
    spec_u64_to_le_bytes(m.member_count) + m.authority
}

/// Canonical encoding of a member record.
pub open spec fn member_bytes(m: MemberModel) -> Seq<u8> {
    spec_u64_to_le_bytes(m.id) + spec_u32_to_le_bytes(m.name.len() as u32) + m.name
        + seq![bool_byte(m.is_ai)] + spec_u64_to_le_bytes(m.voting_power) + m.pubkey
}

/// Canonical encoding of an instruction.
pub open spec fn instruction_bytes(i: InstructionModel) -> Seq<u8> {
    match i {
        InstructionModel::Initialize => seq![0u8],
        InstructionModel::RegisterMember { name, is_ai, voting_power } => {
            seq![1u8] + spec_u32_to_le_bytes(name.len() as u32) + name + seq![bool_byte(is_ai)]
                + spec_u64_to_le_bytes(voting_power)
        },
        InstructionModel::UpdateVotingPower { voting_power } => {
            seq![2u8] + spec_u64_to_le_bytes(voting_power)
        },
    }
}

/// Decoding of a registry record: exactly 40 bytes, count then authority.
pub open spec fn parse_membership(b: Seq<u8>) -> Option<MembershipModel> {
    if b.len() == MEMBERSHIP_RECORD_LEN {
        Some(
            MembershipModel {
                member_count: spec_u64_from_le_bytes(b.subrange(0, 8)),
                authority: b.subrange(8, 40),
            },
        )
    } else {
        None
    }
}

/// Decoding of a member record: id, length-prefixed name, flag byte (0 or
/// 1), voting power, public key, with no byte left over.
pub open spec fn parse_member(b: Seq<u8>) -> Option<MemberModel> {
    if b.len() < 12 {
        None
    } else {
        let n = spec_u32_from_le_bytes(b.subrange(8, 12)) as int;
        if b.len() == MEMBER_RECORD_OVERHEAD + n && (b[12 + n] == 0 || b[12 + n] == 1) {
            Some(
                MemberModel {
                    id: spec_u64_from_le_bytes(b.subrange(0, 8)),
                    name: b.subrange(12, 12 + n),
                    is_ai: b[12 + n] == 1,
                    voting_power: spec_u64_from_le_bytes(b.subrange(13 + n, 21 + n)),
                    pubkey: b.subrange(21 + n, 53 + n),
                },
            )
        } else {
            None
        }
    }
}

/// Decoding of an instruction: a discriminant byte selects the variant,
/// whose fields must fill the rest of the blob exactly.
pub open spec fn parse_instruction(b: Seq<u8>) -> Option<InstructionModel> {
    if b.len() < 1 {
        None
    } else if b[0] == 0 {
        if b.len() == 1 {
            Some(InstructionModel::Initialize)
        } else {
            None
        }
    } else if b[0] == 1 {
        if b.len() < 5 {
            None
        } else {
            let n = spec_u32_from_le_bytes(b.subrange(1, 5)) as int;
            if b.len() == REGISTER_INSTRUCTION_OVERHEAD + n && (b[5 + n] == 0 || b[5 + n] == 1) {
                Some(
                    InstructionModel::RegisterMember {
                        name: b.subrange(5, 5 + n),
                        is_ai: b[5 + n] == 1,
                        voting_power: spec_u64_from_le_bytes(b.subrange(6 + n, 14 + n)),
                    },
                )
            } else {
                None
            }
        }
    } else if b[0] == 2 {
        if b.len() == 9 {
            Some(
                InstructionModel::UpdateVotingPower {
                    voting_power: spec_u64_from_le_bytes(b.subrange(1, 9)),
                },
            )
        } else {
            None
        }
    } else {
        None
    }
}

/// Appends the little-endian bytes of a 64-bit integer.
fn push_u64_le(out: &mut Vec<u8>, x: u64)
    ensures
        final(out)@ == old(out)@ + spec_u64_to_le_bytes(x),
{
    let mut b = u64_to_le_bytes(x);
    out.append(&mut b);
}

/// Appends the little-endian bytes of a 32-bit integer.
fn push_u32_le(out: &mut Vec<u8>, x: u32)
    ensures
        final(out)@ == old(out)@ + spec_u32_to_le_bytes(x),
{
    let mut b = u32_to_le_bytes(x);
    out.append(&mut b);
}

/// Appends a copy of the given bytes.
fn push_bytes(out: &mut Vec<u8>, src: &Vec<u8>)
    ensures
        final(out)@ == old(out)@ + src@,
{
    let ghost start = out@;
    let mut i: usize = 0;
    while i < src.len()
        invariant
            i <= src@.len(),
            out@ == start + src@.take(i as int),
        decreases src@.len() - i,
    {
        out.push(src[i]);
        i = i + 1;
        proof {
            assert_seqs_equal!(out@ == start + src@.take(i as int));
        }
    }
    proof {
        assert_seqs_equal!(out@ == start + src@);
    }
}

/// Reads the 64-bit little-endian integer at the given offset.
fn read_u64_at(b: &Vec<u8>, off: usize) -> (x: u64)
    requires
        off + 8 <= b@.len(),
    ensures
        x == spec_u64_from_le_bytes(b@.subrange(off as int, off as int + 8)),
{
    let len = b.len();
    assert(off + 8 <= len);
    let s = slice_subrange(b.as_slice(), off, off + 8);
    u64_from_le_bytes(s)
}

/// Reads the 32-bit little-endian integer at the given offset.
fn read_u32_at(b: &Vec<u8>, off: usize) -> (x: u32)
    requires
        off + 4 <= b@.len(),
    ensures
        x == spec_u32_from_le_bytes(b@.subrange(off as int, off as int + 4)),
{
    let len = b.len();
    assert(off + 4 <= len);
    let s = slice_subrange(b.as_slice(), off, off + 4);
    u32_from_le_bytes(s)
}

/// Copies the bytes in the given range into a fresh vector.
fn read_range(b: &Vec<u8>, start: usize, end: usize) -> (r: Vec<u8>)
    requires
        start <= end <= b@.len(),
    ensures
        r@ == b@.subrange(start as int, end as int),
{
    let s = slice_subrange(b.as_slice(), start, end);
    slice_to_vec(s)
}

/// Encodes a registry record into its canonical bytes.
pub fn encode_membership(m: &Membership) -> (r: Vec<u8>)
    ensures
        r@ == membership_bytes(m@),
{
    let mut out: Vec<u8> = Vec::new();
    push_u64_le(&mut out, m.member_count);
    push_bytes(&mut out, &m.authority);
    proof {
        assert_seqs_equal!(out@ == membership_bytes(m@));
    }
    out
}

/// Encodes a member record into its canonical bytes.
pub fn encode_member(m: &Member) -> (r: Vec<u8>)
    requires
        m@.name.len() <= u32::MAX,
    ensures
        r@ == member_bytes(m@),
{
    let mut out: Vec<u8> = Vec::new();
    push_u64_le(&mut out, m.id);
    push_u32_le(&mut out, m.name.len() as u32);
    push_bytes(&mut out, &m.name);
    out.push(if m.is_ai { 1 } else { 0 });
    push_u64_le(&mut out, m.voting_power);
    push_bytes(&mut out, &m.pubkey);
    proof {
        assert_seqs_equal!(out@ == member_bytes(m@));
    }
    out
}

/// Encodes an instruction into its canonical bytes.
pub fn encode_instruction(i: &MembershipInstruction) -> (r: Vec<u8>)
    requires
        instruction_model_wf(i@),
    ensures
        r@ == instruction_bytes(i@),
{
    let mut out: Vec<u8> = Vec::new();
    match i {
        MembershipInstruction::Initialize => {
            out.push(0);
            proof {
                assert_seqs_equal!(out@ == instruction_bytes(i@));
            }
        },
        MembershipInstruction::RegisterMember { name, is_ai, voting_power } => {
            out.push(1);
            push_u32_le(&mut out, name.len() as u32);
            push_bytes(&mut out, name);
            out.push(if *is_ai { 1 } else { 0 });
            push_u64_le(&mut out, *voting_power);
            proof {
                assert_seqs_equal!(out@ == instruction_bytes(i@));
            }
        },
        MembershipInstruction::UpdateVotingPower { voting_power } => {
            out.push(2);
            push_u64_le(&mut out, *voting_power);
            proof {
                assert_seqs_equal!(out@ == instruction_bytes(i@));
            }
        },
    }
    out
}

/// Decodes a registry record; `None` exactly when the bytes are not a
/// canonical 40-byte registry encoding.
pub fn decode_membership(b: &Vec<u8>) -> (r: Option<Membership>)
    ensures
        match parse_membership(b@) {
            Some(model) => r matches Some(m) && m@ == model,
            None => r is None,
        },
{
    if b.len() != MEMBERSHIP_RECORD_LEN {
        return None;
    }
    let member_count = read_u64_at(b, 0);
    let authority = read_range(b, 8, 40);
    let m = Membership { member_count, authority };
    proof {
        assert(m@ =~= parse_membership(b@).unwrap());
    }
    Some(m)
}

/// Decodes a member record; `None` exactly when the bytes are not a
/// canonical member encoding.
pub fn decode_member(b: &Vec<u8>) -> (r: Option<Member>)
    ensures
        match parse_member(b@) {
            Some(model) => r matches Some(m) && m@ == model,
            None => r is None,
        },
{
    if b.len() < MEMBER_RECORD_OVERHEAD {
        return None;
    }
    let n = read_u32_at(b, 8) as usize;
    if n != b.len() - MEMBER_RECORD_OVERHEAD {
        return None;
    }
    let id = read_u64_at(b, 0);
    let name = read_range(b, 12, 12 + n);
    let flag = b[12 + n];
    if flag > 1 {
        return None;
    }
    let voting_power = read_u64_at(b, 13 + n);
    let pubkey = read_range(b, 21 + n, b.len());
    let m = Member { id, name, is_ai: flag == 1, voting_power, pubkey };
    proof {
        assert(m@ =~= parse_member(b@).unwrap());
    }
    Some(m)
}

/// Decodes an instruction; `None` exactly when the blob is not a canonical
/// instruction encoding.
pub fn decode_instruction(b: &Vec<u8>) -> (r: Option<MembershipInstruction>)
    ensures
        match parse_instruction(b@) {
            Some(model) => r matches Some(i) && i@ == model,
            None => r is None,
        },
{
    if b.len() == 0 {
        return None;
    }
    let tag = b[0];
    if tag == 0 {
        if b.len() == 1 {
            Some(MembershipInstruction::Initialize)
        } else {
            None
        }
    } else if tag == 1 {
        if b.len() < REGISTER_INSTRUCTION_OVERHEAD {
            return None;
        }
        let n = read_u32_at(b, 1) as usize;
        if n != b.len() - REGISTER_INSTRUCTION_OVERHEAD {
            return None;
        }
        let name = read_range(b, 5, 5 + n);
        let flag = b[5 + n];
        if flag > 1 {
            return None;
        }
        let voting_power = read_u64_at(b, 6 + n);
        let i = MembershipInstruction::RegisterMember { name, is_ai: flag == 1, voting_power };
        proof {
            assert(i@ =~= parse_instruction(b@).unwrap());
        }
        Some(i)
    } else if tag == 2 {
        if b.len() != 9 {
            return None;
        }
        let voting_power = read_u64_at(b, 1);
        Some(MembershipInstruction::UpdateVotingPower { voting_power })
    } else {
        None
    }
}

/// Round trip: decoding the canonical encoding of any well-formed registry
/// record yields the record back.
pub proof fn lemma_membership_round_trip(m: MembershipModel)
    requires
        membership_model_wf(m),
    ensures
        parse_membership(membership_bytes(m)) == Some(m),
{
    lemma_auto_spec_u64_to_from_le_bytes();
    let e = membership_bytes(m);
    assert_seqs_equal!(e.subrange(0, 8) == spec_u64_to_le_bytes(m.member_count));
    assert_seqs_equal!(e.subrange(8, 40) == m.authority);
    assert(parse_membership(e).unwrap() =~= m);
}

/// Round trip: decoding the canonical encoding of any well-formed member
/// record yields the record back.
pub proof fn lemma_member_round_trip(m: MemberModel)
    requires
        member_model_wf(m),
    ensures
        parse_member(member_bytes(m)) == Some(m),
{
    lemma_auto_spec_u64_to_from_le_bytes();
    lemma_auto_spec_u32_to_from_le_bytes();
    let e = member_bytes(m);
    let n = m.name.len() as int;
    assert(e.len() == 53 + n);
    assert_seqs_equal!(e.subrange(0, 8) == spec_u64_to_le_bytes(m.id));
    assert_seqs_equal!(e.subrange(8, 12) == spec_u32_to_le_bytes(m.name.len() as u32));
    assert(spec_u32_from_le_bytes(e.subrange(8, 12)) == n);
    assert_seqs_equal!(e.subrange(12, 12 + n) == m.name);
    assert(e[12 + n] == bool_byte(m.is_ai));
    assert_seqs_equal!(e.subrange(13 + n, 21 + n) == spec_u64_to_le_bytes(m.voting_power));
    assert_seqs_equal!(e.subrange(21 + n, 53 + n) == m.pubkey);
    assert(parse_member(e).unwrap() =~= m);
}

/// Round trip: decoding the canonical encoding of any well-formed
/// instruction yields the instruction back.
pub proof fn lemma_instruction_round_trip(i: InstructionModel)
    requires
        instruction_model_wf(i),
    ensures
        parse_instruction(instruction_bytes(i)) == Some(i),
{
    lemma_auto_spec_u64_to_from_le_bytes();
    lemma_auto_spec_u32_to_from_le_bytes();
    let e = instruction_bytes(i);
    match i {
        InstructionModel::Initialize => {
        },
        InstructionModel::RegisterMember { name, is_ai, voting_power } => {
            let n = name.len() as int;
            assert(e.len() == 14 + n);
            assert(e[0] == 1);
            assert_seqs_equal!(e.subrange(1, 5) == spec_u32_to_le_bytes(name.len() as u32));
            assert(spec_u32_from_le_bytes(e.subrange(1, 5)) == n);
            assert_seqs_equal!(e.subrange(5, 5 + n) == name);
            assert(e[5 + n] == bool_byte(is_ai));
            assert_seqs_equal!(e.subrange(6 + n, 14 + n) == spec_u64_to_le_bytes(voting_power));
            assert(parse_instruction(e).unwrap() =~= i);
        },
        InstructionModel::UpdateVotingPower { voting_power } => {
            assert(e.len() == 9);
            assert(e[0] == 2);
            assert_seqs_equal!(e.subrange(1, 9) == spec_u64_to_le_bytes(voting_power));
            assert(parse_instruction(e).unwrap() =~= i);
        },
    }
}

/// Canonicity: any bytes that decode as a registry record are exactly that
/// record's canonical encoding, and the record is well formed.
pub proof fn lemma_parse_membership_complete(b: Seq<u8>)
    requires
        parse_membership(b) is Some,
    ensures
        membership_model_wf(parse_membership(b).unwrap()),
        membership_bytes(parse_membership(b).unwrap()) == b,
{
    lemma_auto_spec_u64_to_from_le_bytes();
    let m = parse_membership(b).unwrap();
    assert(spec_u64_to_le_bytes(m.member_count) == b.subrange(0, 8));
    assert_seqs_equal!(membership_bytes(m) == b);
}

/// Canonicity: any bytes that decode as a member record are exactly that
/// record's canonical encoding, and the record is well formed.
pub proof fn lemma_parse_member_complete(b: Seq<u8>)
    requires
        parse_member(b) is Some,
    ensures
        member_model_wf(parse_member(b).unwrap()),
        member_bytes(parse_member(b).unwrap()) == b,
{
    lemma_auto_spec_u64_to_from_le_bytes();
    lemma_auto_spec_u32_to_from_le_bytes();
    let m = parse_member(b).unwrap();
    let n = spec_u32_from_le_bytes(b.subrange(8, 12)) as int;
    assert(m.name.len() == n);
    assert(spec_u32_to_le_bytes(m.name.len() as u32) == b.subrange(8, 12));
    assert(spec_u64_to_le_bytes(m.id) == b.subrange(0, 8));
    assert(spec_u64_to_le_bytes(m.voting_power) == b.subrange(13 + n, 21 + n));
    assert(bool_byte(m.is_ai) == b[12 + n]);
    assert_seqs_equal!(member_bytes(m) == b);
}

/// Canonicity: any blob that decodes as an instruction is exactly that
/// instruction's canonical encoding, and the instruction is well formed.
pub proof fn lemma_parse_instruction_complete(b: Seq<u8>)
    requires
        parse_instruction(b) is Some,
    ensures
        instruction_model_wf(parse_instruction(b).unwrap()),
        instruction_bytes(parse_instruction(b).unwrap()) == b,
{
    lemma_auto_spec_u64_to_from_le_bytes();
    lemma_auto_spec_u32_to_from_le_bytes();
    let i = parse_instruction(b).unwrap();
    if b[0] == 0 {
        assert_seqs_equal!(instruction_bytes(i) == b);
    } else if b[0] == 1 {
        let n = spec_u32_from_le_bytes(b.subrange(1, 5)) as int;
        match i {
            InstructionModel::RegisterMember { name, is_ai, voting_power } => {
                assert(name.len() == n);
                assert(spec_u32_to_le_bytes(name.len() as u32) == b.subrange(1, 5));
                assert(bool_byte(is_ai) == b[5 + n]);
                assert(spec_u64_to_le_bytes(voting_power) == b.subrange(6 + n, 14 + n));
                assert_seqs_equal!(instruction_bytes(i) == b);
            },
            _ => {
                assert(false);
            },
        }
    } else {
        match i {
            InstructionModel::UpdateVotingPower { voting_power } => {
                assert(spec_u64_to_le_bytes(voting_power) == b.subrange(1, 9));
                assert_seqs_equal!(instruction_bytes(i) == b);
            },
            _ => {
                assert(false);
            },
        }
    }
}

} // verus!
