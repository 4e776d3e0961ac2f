//! The decisions of a small privilege-elevation launcher.
//!
//! The launcher resolves the program that was asked for to one absolute path,
//! holds that path against the administrator's policy for the invoking user,
//! and only then asks for a proof of identity and hands over to the program.
//! Everything here is a pure function of plain values; reading the
//! environment, probing files, prompting and launching are left to the caller,
//! which reports what it found as events.

pub mod bytes;
pub mod path;
pub mod identity;
pub mod policy;
pub mod resolver;
pub mod launch;
