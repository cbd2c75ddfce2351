//! Command buffers for the console's graphics coprocessor and a driver for
//! the DMA channels that carry them.
//!
//! Devices are reached through the register interfaces of [`register`] and
//! [`dma::ports`], so every driver runs unchanged on hardware and on the
//! simulated registers that the same modules offer.

pub mod addr;
pub mod chain;
pub mod dma;
pub mod gamepad;
pub mod gpu;
pub mod interrupt;
pub mod ordering;
pub mod packet;
pub mod register;
