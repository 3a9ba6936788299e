//! The distributed chameleon hash: a chameleon hash whose trapdoor is shared among nodes.

pub mod ch;
pub mod message;
pub mod node;
pub mod proxy;
