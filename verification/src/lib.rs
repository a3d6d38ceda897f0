//! A bounded producer/consumer economy: generator threads manufacture ideas
//! and packages onto shared channels, and a pool of student threads drains
//! both, pairing each idea with exactly the number of packages it requires
//! before building it. Order-independent checksums over the produced and
//! consumed names serve as the correctness oracle: no item may be lost or
//! duplicated across threads.

pub mod catalog;
pub mod channel;
pub mod checksum;
pub mod idea;
pub mod package;
pub mod partition;
pub mod student;
