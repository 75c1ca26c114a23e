//! Launch-side decisions of the kernel-IR matmul routines.

pub mod config;
pub mod iterator;
pub mod planes;
pub mod routines;
