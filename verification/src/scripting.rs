//! Handles that scripts hold on to.
use vstd::prelude::*;

verus! {

/// A script-side handle to an entity slot.
#[derive(Debug, Clone, Copy, PartialEq, Eq, Structural, Hash)]
pub struct EntityId(pub usize);

/// The player a script acts on, passed to Lua as user data.
#[derive(Debug, Clone, Copy)]
pub struct LuaPlayer(pub EntityId);

} // verus!
