//! The host side of a swarm of carriers: the fixed-timestep clock that says
//! how many ticks to run, the frame counter, the reader of slot layouts, and
//! the rules by which carriers and slots are labelled and shaded.

pub mod carrier;
pub mod clock;
pub mod host;
pub mod layout;
pub mod shade;
