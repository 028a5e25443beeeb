//! A grid-indexed particle collision engine on fixed-point numbers.
//!
//! Positions and velocities are held in hundredths of a unit, so a velocity
//! rounded to two decimals is exact. Cells are unit squares: a position lies
//! in the cell given by flooring each component.
//!
//! - `geometry`: fixed-point vectors, cells and rounding.
//! - `bounds`: the playable rectangle and its inward wall normals.
//! - `lookup`: the spatial index from cell to particle.
//! - `particle`: particle state, collision events, the impulse and
//!   reflection formulas.
//! - `resolve`: collision detection and the cascading resolver.
//! - `tick`: the discovery and movement passes, and the event loop.
//! - `laws`: properties proved of the passes and formulas.
pub mod geometry;
pub mod bounds;
pub mod lookup;
pub mod particle;
pub mod resolve;
pub mod tick;
pub mod laws;
