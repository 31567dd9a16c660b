//! The record, instruction and error types, together with their
//! mathematical models.
//!
//! Executable values hold byte vectors; their views are ghost structs over
//! `Seq<u8>`, which the codec and processor contracts speak of.

use vstd::prelude::*;

verus! {

/// The number of bytes in a public identity.
pub const IDENTITY_LEN: usize = 32;

/// Why an invocation was rejected. Every failure aborts the whole
/// invocation; no buffer is changed when one of these is returned.
#[derive(Clone, Copy, Debug, PartialEq, Eq, Structural)]
pub enum MembershipError {
    /// The instruction blob has an unknown discriminant, a length prefix
    /// that overruns the buffer, or trailing or missing bytes.
    MalformedInstruction,
    /// A record buffer does not decode under its expected layout.
    CorruptState,
    /// An encoded record does not fit the destination buffer's capacity.
    BufferTooSmall,
    /// The authority did not sign, or its identity does not match the
    /// registry's stored authority.
    NotAuthorized,
    /// The account list is shorter than the instruction requires.
    MissingAccount,
}

/// The singleton registry record: how many members exist and which
/// identity may register more or change voting power.
#[derive(Debug, PartialEq, Eq)]
pub struct Membership {
    /// Number of members registered; also the next identifier to issue.
    pub member_count: u64,
    /// The 32-byte identity allowed to mutate the registry's members.
    pub authority: Vec<u8>,
}

/// One member's persistent record.
#[derive(Debug, PartialEq, Eq)]
pub struct Member {
    /// Identifier issued at registration; equals the registry's count at
    /// that moment.
    pub id: u64,
    /// Free-form name, stored as its UTF-8 bytes.
    pub name: Vec<u8>,
    /// Whether the member is an automated entity.
    pub is_ai: bool,
    /// The member's current voting power.
    pub voting_power: u64,
    /// The 32-byte identity bound to the member's buffer.
    pub pubkey: Vec<u8>,
}

/// A decoded instruction.
#[derive(Debug, PartialEq, Eq)]
pub enum MembershipInstruction {
    /// Write a fresh registry record with count zero and the signing
    /// authority's identity.
    Initialize,
    /// Register a new member under the next identifier.
    RegisterMember { name: Vec<u8>, is_ai: bool, voting_power: u64 },
    /// Overwrite one member's voting power.
    UpdateVotingPower { voting_power: u64 },
}

/// Mathematical model of a registry record.
#[verifier::ext_equal]
pub ghost struct MembershipModel {
    pub member_count: u64,
    pub authority: Seq<u8>,
}

/// Mathematical model of a member record.
#[verifier::ext_equal]
pub ghost struct MemberModel {
    pub id: u64,
    pub name: Seq<u8>,
    pub is_ai: bool,
    pub voting_power: u64,
    pub pubkey: Seq<u8>,
}

/// Mathematical model of an instruction.
#[verifier::ext_equal]
pub ghost enum InstructionModel {
    Initialize,
    RegisterMember { name: Seq<u8>, is_ai: bool, voting_power: u64 },
    UpdateVotingPower { voting_power: u64 },
}

impl View for Membership {
    type V = MembershipModel;

    open spec fn view(&self) -> MembershipModel {
        MembershipModel { member_count: self.member_count, authority: self.authority@ }
    }
}

impl View for Member {
    type V = MemberModel;

    open spec fn view(&self) -> MemberModel {
        MemberModel {
            id: self.id,
            name: self.name@,
            is_ai: self.is_ai,
            voting_power: self.voting_power,
            pubkey: self.pubkey@,
        }
    }
}

impl View for MembershipInstruction {
    type V = InstructionModel;

    open spec fn view(&self) -> InstructionModel {
        match self {
            MembershipInstruction::Initialize => InstructionModel::Initialize,
            MembershipInstruction::RegisterMember { name, is_ai, voting_power } => {
                InstructionModel::RegisterMember {
                    name: name@,
                    is_ai: *is_ai,
                    voting_power: *voting_power,
                }
            },
            MembershipInstruction::UpdateVotingPower { voting_power } => {
                InstructionModel::UpdateVotingPower { voting_power: *voting_power }
            },
        }
    }
}

/// A registry model is well formed when its authority is a full identity.
pub open spec fn membership_model_wf(m: MembershipModel) -> bool {
    m.authority.len() == IDENTITY_LEN
}

/// A member model is well formed when its public key is a full identity and
/// its name's length fits the wire format's 32-bit length prefix.
pub open spec fn member_model_wf(m: MemberModel) -> bool {
    &&& m.pubkey.len() == IDENTITY_LEN
    &&& m.name.len() <= u32::MAX
}

/// An instruction model is well formed when any carried name fits the wire
/// format's 32-bit length prefix.
pub open spec fn instruction_model_wf(i: InstructionModel) -> bool {
    match i {
        InstructionModel::RegisterMember { name, .. } => name.len() <= u32::MAX,
        _ => true,
    }
}

impl MembershipError {
    /// A short human-readable description of the error.
    pub fn describe(&self) -> (r: &'static str)
        ensures
            r@.len() > 0,
    {
        proof {
            reveal_strlit("unrecognized or truncated instruction");
            reveal_strlit("record buffer does not decode");
            reveal_strlit("encoded record exceeds buffer capacity");
            reveal_strlit("missing signature or wrong authority");
            reveal_strlit("too few accounts supplied");
        }
        match self {
            MembershipError::MalformedInstruction => "unrecognized or truncated instruction",
            MembershipError::CorruptState => "record buffer does not decode",
            MembershipError::BufferTooSmall => "encoded record exceeds buffer capacity",
            MembershipError::NotAuthorized => "missing signature or wrong authority",
            MembershipError::MissingAccount => "too few accounts supplied",
        }
    }
}

} // verus!
