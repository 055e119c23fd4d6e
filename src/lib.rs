//! Box layout for child surfaces: vertical and horizontal stacks, absolute
//! placement, recursive minimum sizes and scrollbar negotiation.

mod fxmap;
pub mod container;
pub mod hotkey;
pub mod keys;
pub mod place;
pub mod property;
pub mod records;
pub mod scroll;
pub mod stack;
pub mod text;
pub mod wildcard;
