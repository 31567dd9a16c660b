//! The state accessor: the bridge between a caller-owned fixed-capacity
//! buffer and a decoded record value.
//!
//! A buffer's capacity is its length, which never changes here: a store
//! rewrites the leading bytes with the record's canonical encoding and
//! leaves any bytes past it as they were, and fails without touching the
//! buffer when the encoding does not fit.

use vstd::assert_seqs_equal;
use vstd::prelude::*;

use crate::codec::MEMBERSHIP_RECORD_LEN;
use crate::codec::MEMBER_RECORD_OVERHEAD;
use crate::codec::decode_member;
use crate::codec::decode_membership;
use crate::codec::encode_member;
use crate::codec::encode_membership;
use crate::codec::member_bytes;
use crate::codec::membership_bytes;
use crate::codec::parse_member;
use crate::codec::parse_membership;
use crate::types::Member;
use crate::types::Membership;
use crate::types::MembershipError;
use crate::types::member_model_wf;
use crate::types::membership_model_wf;

verus! {

/// Overwrites the leading bytes of `buffer` with `src`, leaving the rest
/// and the buffer's length unchanged; `false` when `src` does not fit, with
/// the buffer untouched.
fn overwrite_prefix(buffer: &mut Vec<u8>, src: &Vec<u8>) -> (ok: bool)
    ensures
        ok == (src@.len() <= old(buffer)@.len()),
        ok ==> final(buffer)@ == src@ + old(buffer)@.skip(src@.len() as int),
        !ok ==> final(buffer)@ == old(buffer)@,
{
    if src.len() > buffer.len() {
        return false;
    }
    let mut i: usize = 0;
    while i < src.len()
        invariant
            i <= src@.len() <= buffer@.len() == old(buffer)@.len(),
            forall|j: int| 0 <= j < i ==> buffer@[j] == src@[j],
            forall|j: int| i <= j < buffer@.len() ==> buffer@[j] == old(buffer)@[j],
        decreases src@.len() - i,
    {
        let byte = src[i];
        buffer[i] = byte;
        i = i + 1;
    }
    proof {
        assert_seqs_equal!(buffer@ == src@ + old(buffer)@.skip(src@.len() as int));
    }
    true
}

/// Loads the registry record persisted in `buffer`.
///
/// Fails with `CorruptState` exactly when the buffer's contents are not a
/// canonical registry encoding.
pub fn load_membership(buffer: &Vec<u8>) -> (r: Result<Membership, MembershipError>)
    ensures
        match parse_membership(buffer@) {
            Some(model) => r matches Ok(m) && m@ == model,
            None => r == Err::<Membership, MembershipError>(MembershipError::CorruptState),
        },
{
    match decode_membership(buffer) {
        Some(m) => Ok(m),
        None => Err(MembershipError::CorruptState),
    }
}

/// Loads the member record persisted in `buffer`.
///
/// Fails with `CorruptState` exactly when the buffer's contents are not a
/// canonical member encoding.
pub fn load_member(buffer: &Vec<u8>) -> (r: Result<Member, MembershipError>)
    ensures
        match parse_member(buffer@) {
            Some(model) => r matches Ok(m) && m@ == model,
            None => r == Err::<Member, MembershipError>(MembershipError::CorruptState),
        },
{
    match decode_member(buffer) {
        Some(m) => Ok(m),
        None => Err(MembershipError::CorruptState),
    }
}

/// Writes the registry record's encoding into `buffer`.
///
/// Fails with `BufferTooSmall`, leaving the buffer untouched, exactly when
/// the 40-byte encoding exceeds the buffer's capacity.
pub fn store_membership(buffer: &mut Vec<u8>, m: &Membership) -> (r: Result<(), MembershipError>)
    requires
        membership_model_wf(m@),
    ensures
        final(buffer)@.len() == old(buffer)@.len(),
        old(buffer)@.len() >= MEMBERSHIP_RECORD_LEN ==> r == Ok::<(), MembershipError>(())
            && final(buffer)@ == membership_bytes(m@) + old(buffer)@.skip(
            MEMBERSHIP_RECORD_LEN as int,
        ),
        old(buffer)@.len() < MEMBERSHIP_RECORD_LEN ==> r == Err::<(), MembershipError>(
            MembershipError::BufferTooSmall,
        ) && final(buffer)@ == old(buffer)@,
{
    let encoded = encode_membership(m);
    proof {
        vstd::bytes::lemma_auto_spec_u64_to_from_le_bytes();
        assert(encoded@.len() == 8 + m@.authority.len());
    }
    if overwrite_prefix(buffer, &encoded) {
        Ok(())
    } else {
        Err(MembershipError::BufferTooSmall)
    }
}

/// Writes the member record's encoding into `buffer`.
///
/// Fails with `BufferTooSmall`, leaving the buffer untouched, exactly when
/// the encoding — 53 bytes plus the name — exceeds the buffer's capacity.
pub fn store_member(buffer: &mut Vec<u8>, m: &Member) -> (r: Result<(), MembershipError>)
    requires
        member_model_wf(m@),
    ensures
        final(buffer)@.len() == old(buffer)@.len(),
        old(buffer)@.len() >= MEMBER_RECORD_OVERHEAD + m@.name.len() ==> r == Ok::<
            (),
            MembershipError,
        >(()) && final(buffer)@ == member_bytes(m@) + old(buffer)@.skip(
            MEMBER_RECORD_OVERHEAD + m@.name.len() as int,
        ),
        old(buffer)@.len() < MEMBER_RECORD_OVERHEAD + m@.name.len() ==> r == Err::<
            (),
            MembershipError,
        >(MembershipError::BufferTooSmall) && final(buffer)@ == old(buffer)@,
{
    let encoded = encode_member(m);
    proof {
        vstd::bytes::lemma_auto_spec_u64_to_from_le_bytes();
        vstd::bytes::lemma_auto_spec_u32_to_from_le_bytes();
        assert(encoded@.len() == MEMBER_RECORD_OVERHEAD + m@.name.len());
    }
    if overwrite_prefix(buffer, &encoded) {
        Ok(())
    } else {
        Err(MembershipError::BufferTooSmall)
    }
}

} // verus!
