//! Progress tracking for a fifty-level battle pass: the XP curve, the parser
//! for the level a player types in, the elapsed share of a season window, and
//! the tracker state that ties them together.

pub mod xp;
pub mod level;
pub mod window;
pub mod tracker;
