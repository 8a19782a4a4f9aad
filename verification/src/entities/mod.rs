//! Server-side entity storage: a generational arena of entities and the
//! per-kind component stores that hang off it.
pub mod bullet;
pub mod entity;
pub mod shape;
pub mod spatial_hash;
pub mod tank;
