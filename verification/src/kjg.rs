//! Joint generation of a threshold key: every node deals a Pedersen VSS of its secret, the
//! shares travel CL-encrypted through a proxy, and each node ends up with a share of the joint
//! key and Feldman commitments to the joint polynomial.

pub mod code;
pub mod cl;
pub mod vss;
pub mod zkp;
pub mod params;
pub mod message;
pub mod combine;
pub mod batch;
pub mod node;
pub mod proxy;
pub mod laws;
pub mod setup;
