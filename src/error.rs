use vstd::prelude::*;

verus! {

/// Classification of a failure of one of the library's operations.
#[derive(Clone, Copy, Debug, PartialEq, Eq, Structural)]
pub enum Error {
    /// A size or a count that the operation does not accept.
    InvalidArgument,
    /// The key exists for this master, but not for this consumer.
    Unauthorized,
    /// No key with this id exists for this master.
    NotFound,
    /// Storage failure, inconsistent stored data or a size that cannot be
    /// represented; the detail is not given to the caller.
    InternalError,
}

impl Error {
    /// HTTP status code that the service answers with for this error.
    pub fn status_code(&self) -> (r: u16)
        ensures
            *self == Error::InvalidArgument ==> r == 400,
            *self == Error::NotFound ==> r == 400,
            *self == Error::Unauthorized ==> r == 401,
            *self == Error::InternalError ==> r == 500,
    {
        match self {
            Error::InvalidArgument => 400,
            Error::NotFound => 400,
            Error::Unauthorized => 401,
            Error::InternalError => 500,
        }
    }
}

} // verus!
