//! Verified core of a distributed key-generation protocol (Pedersen VSS with
//! CL-encrypted shares) and of a distributed chameleon hash built on it.

pub mod numbers;
pub mod text;
pub mod hex;

pub mod digest;
pub mod field;
pub mod group;
pub mod lagrange;
pub mod interpolation;
pub mod dch;
pub mod poly;
pub mod kjg;
pub mod error;
pub mod config;
