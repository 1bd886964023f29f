//! Who makes a call, and the two checks that the ledger operations apply to it.
//!
//! The checks are those of `frame_system`. Their contracts are not proved:
//! each states what the function's three lines decide.
use vstd::prelude::*;
use crate::AccountId;
use frame_system::RawOrigin;
use sp_runtime::traits::BadOrigin;

verus! {

/// The caller of an operation, as the runtime has authenticated it.
#[derive(Clone, Copy, Debug, PartialEq, Eq, Structural)]
pub enum Origin {
    /// The privileged caller.
    Root,
    /// An ordinary caller, with the account that signed.
    Signed(AccountId),
    /// Nobody signed.
    Unsigned,
}

/// `BadOrigin` of `sp_runtime`, the error of the two checks. It is carried
/// through; nothing is claimed of what it holds.
#[verifier::external_type_specification]
#[verifier::external_body]
pub struct ExBadOrigin(BadOrigin);

/// `RawOrigin` of `frame_system`, the origin as the two checks read it. It is
/// carried through; nothing is claimed of what it holds.
#[verifier::external_type_specification]
#[verifier::external_body]
#[verifier::reject_recursive_types(A)]
pub struct ExRawOrigin<A>(RawOrigin<A>);

/// The form in which `frame_system` takes an origin.
impl From<Origin> for Result<RawOrigin<AccountId>, Origin> {
    /// Builds the `RawOrigin` of `frame_system` that stands for the same
    /// caller. Not verified, and nothing is claimed of the result; what the
    /// two checks below say of an origin rests on this mapping.
    #[verifier::external_body]
    fn from(origin: Origin) -> (r: Self) {
        match origin {
            Origin::Root => Ok(RawOrigin::Root),
            Origin::Signed(who) => Ok(RawOrigin::Signed(who)),
            Origin::Unsigned => Ok(RawOrigin::None),
        }
    }
}

/// Calls `frame_system::ensure_root`. Trusted: the result is `Ok` for the
/// privileged caller and for no other.
#[verifier::external_body]
pub(crate) fn ensure_root(origin: Origin) -> (r: Result<(), BadOrigin>)
    ensures
        r is Ok <==> origin is Root,
{
    frame_system::ensure_root(origin)
}

/// Calls `frame_system::ensure_signed`. Trusted: the result is `Ok` for a
/// signed caller and for no other, and then holds the account that signed.
#[verifier::external_body]
pub(crate) fn ensure_signed(origin: Origin) -> (r: Result<AccountId, BadOrigin>)
    ensures
        r is Ok <==> origin is Signed,
        r matches Ok(who) ==> origin == Origin::Signed(who),
{
    frame_system::ensure_signed(origin)
}

} // verus!
