//! The Sure protocol: insurance pools over concentrated liquidity. Ticks and
//! their bitmaps, square-root price arithmetic, liquidity and premium
//! accounting, coverage positions and fee packages, with their contracts.
pub mod errors;
pub mod runtime;
pub mod u256;
pub mod bitmap;
pub mod tick_bitmap;
pub mod tick_word;
pub mod coverage;
pub mod tick;
pub mod contract;
pub mod shield;
pub mod fixed_point_math;
pub mod liquidity_q32;
pub mod account;
pub mod managers;
pub mod owner;
pub mod tick_math;
pub mod product;
pub mod tick_v2;
pub mod fee;
pub mod fee_package;
pub mod pool;
pub mod liquidity;
