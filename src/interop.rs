//! Conversions between CRUIDs and `uuid::Uuid` values of the same 16 bytes.
use crate::cruid::{format_text, lemma_format_round_trip, lemma_view_injective, text_raw, Cruid};
use uuid::Uuid;
use vstd::prelude::*;

verus! {

#[verifier::external_type_specification]
#[verifier::external_body]
pub struct ExUuid(Uuid);

/// The UUID that holds the 16 bytes `b`.
pub uninterp spec fn uuid_of(b: Seq<u8>) -> Uuid;

/// Relies on `uuid::Uuid::from_bytes`: the UUID holds exactly the given
/// bytes, so no other 16 bytes give the same UUID.
#[verifier::external_body]
fn uuid_from_bytes(b: [u8; 16]) -> (r: Uuid)
    ensures
        r == uuid_of(b@),
        forall|c: Seq<u8>| c.len() == 16 && #[trigger] uuid_of(c) == r ==> c == b@,
{
    Uuid::from_bytes(b)
}

/// Relies on `uuid::Uuid::as_bytes`: it borrows the 16 bytes that the UUID
/// holds, the only 16 bytes that give this UUID.
#[verifier::external_body]
fn uuid_as_bytes(u: &Uuid) -> (r: [u8; 16])
    ensures
        uuid_of(r@) == *u,
        forall|c: Seq<u8>| c.len() == 16 && #[trigger] uuid_of(c) == *u ==> c == r@,
{
    *u.as_bytes()
}

/// The 16 bytes that the UUID `u` holds.
pub open spec fn uuid_bytes(u: Uuid) -> Seq<u8> {
    choose|b: Seq<u8>| b.len() == 16 && uuid_of(b) == u
}

/// The CRUID whose text is `t`.
pub open spec fn cruid_with_text(t: Seq<u8>) -> Cruid {
    choose|c: Cruid| c@ == t
}

impl From<Cruid> for Uuid {
    fn from(cruid: Cruid) -> (r: Uuid)
        ensures
            r == uuid_of(text_raw(cruid@)),
            uuid_bytes(r) == text_raw(cruid@),
    {
        let bytes = cruid.to_bytes();
        let r = uuid_from_bytes(bytes);
        assert(uuid_bytes(r) == bytes@);
        r
    }
}

impl vstd::std_specs::convert::FromSpecImpl<Cruid> for Uuid {
    open spec fn obeys_from_spec() -> bool {
        true
    }

    open spec fn from_spec(cruid: Cruid) -> Uuid {
        uuid_of(text_raw(cruid@))
    }
}

impl From<Uuid> for Cruid {
    fn from(uuid: Uuid) -> (r: Cruid)
        ensures
            r@ == format_text(uuid_bytes(uuid)),
            uuid_of(text_raw(r@)) == uuid,
    {
        let bytes = uuid_as_bytes(&uuid);
        let r = Cruid::from_bytes(&bytes);
        proof {
            assert(bytes@.len() == 16 && uuid_of(bytes@) == uuid);
            assert(uuid_bytes(uuid) == bytes@);
            lemma_view_injective(r, cruid_with_text(r@));
            lemma_format_round_trip(bytes@);
        }
        r
    }
}

impl vstd::std_specs::convert::FromSpecImpl<Uuid> for Cruid {
    open spec fn obeys_from_spec() -> bool {
        true
    }

    open spec fn from_spec(uuid: Uuid) -> Cruid {
        cruid_with_text(format_text(uuid_bytes(uuid)))
    }
}

} // verus!
