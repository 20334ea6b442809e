//! Discrete core of a procedural tree generator: the seeded random source,
//! mesh index topology, vertex adjacency, spatial cell indexing, the
//! orderings used to walk branch graphs, the rules of the growth
//! simulation, the turn schedule of branch growth and the change hash of
//! the generator's settings.

pub mod adjacency;
pub mod change_hash;
pub mod growth;
pub mod indices;
pub mod ordering;
pub mod rings;
pub mod settings;
pub mod rng;
pub mod schedule;
pub mod spatial;
