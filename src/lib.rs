//! Evolvable cell agents: genomes of weighted entries are decoded into behaviour
//! units that drive a per-tick metabolic update of each cell's chemical pools.
//!
//! All quantities are fixed-point integers counting millionths of a unit
//! (see [`fixed::ONE`]). The squashing function applied to genome entries is
//! a real-valued hyperbolic tangent; it is evaluated by the host, which hands
//! the squashed values back to the functions here.
use vstd::prelude::*;

pub mod fixed;
pub mod genome;
pub mod chem;
pub mod behavior;
pub mod rna;
pub mod cell;
