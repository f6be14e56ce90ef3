//! Conversion between fungible ("Water") and non-fungible ("Ice") tokens of one
//! capped supply, with the rarity of each new non-fungible chosen from the colors
//! that are furthest behind their target share.

pub mod color;
pub mod rarity;
pub mod time;
pub mod rrc404;
pub mod laws;
