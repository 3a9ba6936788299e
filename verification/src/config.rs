//! A party's configuration: threshold parameters and addresses.

use vstd::prelude::*;
use crate::kjg::params::ThreasholdParam;

verus! {

/// Threshold parameters, the proxy's address, the node's address and the address it listens
/// on.
#[derive(Clone, Debug)]
pub struct Config {
    pub threshold_params: ThreasholdParam,
    pub proxy_addr: String,
    pub node_addr: String,
    pub listen_addr: String,
}

} // verus!
