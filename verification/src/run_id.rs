//! Run ids: 128-bit numbers, written as hyphenated hexadecimal.

use vstd::prelude::*;

verus! {

/// The text of a run id: its 32 hexadecimal digits in lower case, in groups
/// of 8, 4, 4, 4 and 12 with hyphens between them.
pub uninterp spec fn hyphenated(id: u128) -> Seq<char>;

/// Writes a run id as text.
///
/// Calls `uuid::Uuid::from_u128`, which takes the number as the id's sixteen
/// bytes, most significant first, and the id's `to_string`, which is its
/// hyphenated lower-case form. The contract names that text and claims
/// nothing more of it.
#[verifier::external_body]
pub(crate) fn run_id_text(id: u128) -> (s: String)
    ensures
        s@ == hyphenated(id),
{
    uuid::Uuid::from_u128(id).to_string()
}

/// The bits of a run id that its version and variant occupy.
pub const VERSION_AND_VARIANT_BITS: u128 = 0x0000_0000_0000_f000_c000_0000_0000_0000;

/// What those bits hold in a random run id: version 4, variant `10`.
pub const RANDOM_ID_MARK: u128 = 0x0000_0000_0000_4000_8000_0000_0000_0000;

/// A new random run id.
///
/// Calls `uuid::Uuid::new_v4` and takes the id's `as_u128`. The id is drawn
/// from the operating system's random numbers, so nothing is claimed of its
/// free bits: only that the version and variant bits are those that
/// `new_v4` sets on every id. `new_v4` panics where the operating system
/// has no random numbers to give.
#[verifier::external_body]
pub(crate) fn fresh_run_id() -> (id: u128)
    ensures
        id & VERSION_AND_VARIANT_BITS == RANDOM_ID_MARK,
{
    uuid::Uuid::new_v4().as_u128()
}

} // verus!
