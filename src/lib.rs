//! Join/session bookkeeping for a team arena game: which controllers (local
//! gamepads or remote web-socket clients) have joined, what each remote
//! client last reported, and which live player leads each team.

pub mod controller;
pub mod session;
pub mod laws;
pub mod game;
