//! Verified core of the nara.io game server: the entity stores, the spatial
//! hash, the packet framing, the connection cipher state and the anti-cheat
//! bookkeeping.
use vstd::prelude::*;

pub mod anti_cheat;
pub mod entities;
pub mod game;
pub mod net;
pub mod outside;
pub mod packets;
pub mod scripting;

verus! {

} // verus!
