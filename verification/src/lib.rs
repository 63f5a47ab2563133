pub mod parse;
pub mod rng;
pub mod ttt;
