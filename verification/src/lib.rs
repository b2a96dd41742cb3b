//! Baseball flight, ground-ball and fielding simulation in saturating decimal
//! fixed-point arithmetic.

pub mod arith;
pub mod batch;
pub mod constants;
pub mod fielder;
pub mod fixed;
pub mod flight;
pub mod force;
pub mod ground;
pub mod rk4;
pub mod table;
pub mod vector;
pub mod wind;
