//! A scoring engine for a simplified cricket-style game.
//!
//! Ball outcomes are grouped into overs of six deliveries, each ball
//! carrying a doubling flag.  A single twist pass rewrites the doubling
//! flags across overs according to fixed pattern rules and may append
//! bonus overs; afterwards the game is read-only and can be summed and
//! rendered as a scorecard.

pub mod digits;
pub mod game;
pub mod over;

pub use game::Game;
pub use over::Over;
