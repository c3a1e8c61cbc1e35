//! Reads the log of a Quake 3 Arena server line by line and tallies, for
//! each game, the kills, the players, their scores and the causes of death.

pub mod cause_of_death;
pub mod error;
pub mod extra_checked_ops;
pub mod instance_counter;
pub mod parser;
pub mod text;

pub use cause_of_death::{CauseOfDeath, CAUSES_OF_DEATH};
pub use error::{Error, Expected, ParseError};
pub use extra_checked_ops::ExtraCheckedOps;
pub use instance_counter::InstanceCounter;
pub use parser::combinator::KillMessage;
pub use parser::header::Header;
pub use parser::LogParser;
