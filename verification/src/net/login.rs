//! The packets of the login phase.

pub mod clientbound;
pub mod serverbound;
