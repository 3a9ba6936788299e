use vstd::prelude::*;
use crate::group::Point;

verus! {

/// Threshold `t` and number of parties `n`.
#[derive(Clone, Copy, Debug, PartialEq, Eq)]
pub struct ThreasholdParam {
    pub threshold: u16,
    pub share_counts: u16,
}

/// A CL encryption key pair, as the texts the CL library exchanges.
#[derive(Clone, Debug)]
pub struct CLKeypair {
    pub sk: String,
    pub pk: String,
}

/// Group public key.
#[derive(Clone, Debug)]
pub struct Gpk {
    pub g: Point,
    pub g1: Option<Point>,
}

} // verus!
