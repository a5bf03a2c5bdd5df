use vstd::prelude::*;

pub mod tables;
pub mod pulse;
pub mod triangle;
pub mod noise;
pub mod dmc;
pub mod apu;
pub mod timing;
pub mod dma;
pub mod wire;
pub mod savestate;
