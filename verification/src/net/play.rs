//! The packets of the play phase, as far as they are modelled.

pub mod clientbound;
pub mod serverbound;
