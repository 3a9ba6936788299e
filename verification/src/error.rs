use vstd::prelude::*;

verus! {

/// Why a protocol step refused its input.
#[derive(Clone, Copy, Debug, PartialEq, Eq)]
pub enum Error {
    /// A share does not match the commitments.
    InvalidSS,
    /// A proof that the encrypted shares match the commitments was refused.
    InvalidZkp,
    /// A proof that the Feldman commitments match the Pedersen commitments was refused.
    InvalidSlog,
    /// A node's adapted randomness does not match its key commitments.
    InvalidCom,
}

impl Error {
    /// The variant's name.
    pub fn name(&self) -> (r: &'static str)
        ensures
            *self is InvalidSS ==> r@ == "InvalidSS"@,
            *self is InvalidZkp ==> r@ == "InvalidZkp"@,
            *self is InvalidSlog ==> r@ == "InvalidSlog"@,
            *self is InvalidCom ==> r@ == "InvalidCom"@,
    {
        match self {
            Error::InvalidSS => "InvalidSS",
            Error::InvalidZkp => "InvalidZkp",
            Error::InvalidSlog => "InvalidSlog",
            Error::InvalidCom => "InvalidCom",
        }
    }
}

} // verus!
