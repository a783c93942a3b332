//! Core of an authoritative arena physics server: body identifiers, the
//! fixed-layout and self-describing wire formats, broad-phase pair
//! selection, game scoring, and the server loop's timing decisions.

pub mod body_id;
pub mod broad_phase;
pub mod clock;
pub mod command;
pub mod game;
pub mod message;
pub mod wire;
