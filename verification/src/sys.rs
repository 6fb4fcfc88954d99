//! What the runtime keeps for the system as a whole.

pub mod dic;
