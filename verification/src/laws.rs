//! What the parts of the client owe each other: laws over whole operations, stated of the values
//! that go into the calls and come out of them.

pub mod asking;
pub mod browsing;
pub mod commanding;
pub mod common;
pub mod connecting;
pub mod editing;
pub mod files;
pub mod filling;
pub mod hearing;
pub mod keeping;
pub mod naming;
pub mod opening;
pub mod parts;
pub mod pointing;
pub mod profiling;
pub mod selecting;
pub mod sessions;
pub mod showing;
pub mod tabbing;
pub mod telling;
pub mod texts;
pub mod transferring;
pub mod watching;
