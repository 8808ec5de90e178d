//! What the commands decide and show.

pub mod add;
pub mod clone;
pub mod commit;
pub mod diff;
pub mod list;
pub mod pull;
pub mod push;
pub mod status;
