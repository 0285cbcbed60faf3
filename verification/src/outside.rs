use vstd::prelude::*;

verus! {

/// Relies on the `either` crate's `Either<L, R>`: a plain public enum with
/// the two variants `Left(L)` and `Right(R)`. The declaration is
/// transparent — the verifier reads the enum's shape, so verified code
/// constructs and matches `either::Either` values directly and nothing
/// about the type is taken on trust beyond that shape.
#[verifier::external_type_specification]
#[verifier::reject_recursive_types(L)]
#[verifier::reject_recursive_types(R)]
pub struct ExEither<L, R>(either::Either<L, R>);

} // verus!
