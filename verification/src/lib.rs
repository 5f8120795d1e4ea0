//! Greeting helpers and a Markov-chain stationary-distribution solver,
//! with every function's behaviour stated as a contract and proved.

pub mod binary32;
pub mod greeting;
pub mod hello_world;
pub mod markov;
pub mod matrix;

pub use greeting::{get_greeting, greet, Arguments, Errors};
pub use markov::{Iteration, MarkovChain, SolveError, Step};
pub use matrix::Matrix;
