use vstd::prelude::*;

verus! {

/// web3's error type, carried opaque from a failed node call.
#[verifier::external_type_specification]
#[verifier::external_body]
pub struct ExWeb3Error(web3::Error);

/// tokio-postgres's error type, carried opaque from a failed store call.
#[verifier::external_type_specification]
#[verifier::external_body]
pub struct ExPostgresError(tokio_postgres::Error);

/// Why a step of the mirror failed.
#[derive(Debug)]
pub enum PipeError {
    /// Writing encoded text to its destination failed.
    Fmt,
    /// The node could not be reached or answered with an error.
    Web3(web3::Error),
    /// The store could not be reached or refused a statement.
    Postgres(tokio_postgres::Error),
    /// The node reported a tip at or beyond this height but returned no
    /// block for it.
    AbsentBlock(u64),
}

impl From<web3::Error> for PipeError {
    fn from(err: web3::Error) -> (r: PipeError)
        ensures
            r == PipeError::Web3(err),
    {
        PipeError::Web3(err)
    }
}

impl vstd::std_specs::convert::FromSpecImpl<web3::Error> for PipeError {
    open spec fn obeys_from_spec() -> bool {
        true
    }

    open spec fn from_spec(v: web3::Error) -> PipeError {
        PipeError::Web3(v)
    }
}

impl From<tokio_postgres::Error> for PipeError {
    fn from(err: tokio_postgres::Error) -> (r: PipeError)
        ensures
            r == PipeError::Postgres(err),
    {
        PipeError::Postgres(err)
    }
}

impl vstd::std_specs::convert::FromSpecImpl<tokio_postgres::Error> for PipeError {
    open spec fn obeys_from_spec() -> bool {
        true
    }

    open spec fn from_spec(v: tokio_postgres::Error) -> PipeError {
        PipeError::Postgres(v)
    }
}

} // verus!
