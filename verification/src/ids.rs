use vstd::prelude::*;

verus! {

/// Draws a fresh random identifier of exactly seven characters.
///
/// Relies on `nanoid::format` with the crate's url-safe (ASCII) alphabet:
/// it keeps appending characters drawn from that alphabet until the id
/// reaches the requested length, so the result always has exactly that
/// many characters.
#[verifier::external_body]
pub fn fresh_id() -> (r: String)
    ensures
        r@.len() == 7,
{
    nanoid::format(nanoid::rngs::default, &nanoid::alphabet::SAFE, 7)
}

} // verus!
