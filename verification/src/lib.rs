//! The decision core of Orbital, a solar-system simulator and interplanetary
//! trajectory solver: the body catalogue, the mission file, the command line,
//! the seeded search and the state machines that drive the solver.
//!
//! Double-precision numbers enter as bit patterns ([`scalar::Scalar`]); this crate
//! orders, selects and stores them, and its callers do the arithmetic.

pub mod auto;
pub mod beam;
pub mod bodies;
pub mod bounds;
pub mod cli;
pub mod dates;
pub mod ephemeris;
pub mod evaluation;
pub mod identity;
pub mod incumbent;
pub mod lambert;
pub mod mission;
pub mod mutation;
pub mod physical;
pub mod pilot;
pub mod porkchop;
pub mod problem;
pub mod propagation;
pub mod refine;
pub mod rng;
pub mod routes;
pub mod scalar;
pub mod scene;
pub mod schedule;
pub mod search;
pub mod seeding;
pub mod shooting;
pub mod tableau;
pub mod text;
pub mod tour;
pub mod words;
