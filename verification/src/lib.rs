//! Configuration parsing, window painting and download bookkeeping of a
//! bootstrapper's splash screen, with their contracts proved by Verus.

pub mod network;
pub mod splash;
