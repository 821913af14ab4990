//! What the library is for, said of bytes, values and lists.
//!
//! The contracts say what each function returns in terms of the models of their
//! modules. The laws here tie those models to what a player, a piece of gear or a
//! reader of a message sees of them, and to each other.

pub mod board;
pub mod midi;
pub mod presets;
pub mod rings;
pub mod timing;
