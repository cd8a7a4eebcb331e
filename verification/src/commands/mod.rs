//! The commands grit offers.
pub mod init;
