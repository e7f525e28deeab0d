//! A bounded, authority-gated registry of hook programs.
//!
//! A hook program is named by a 32-byte key. A program enters the registry as
//! pending, and the registry's authority then moves it either to the safe or
//! to the unsafe bucket, where it stays.

pub mod error;
pub mod hooks;
pub mod instructions;
pub mod laws;
pub mod pubkey;
