//! Packets of the broadcast discovery protocol that names services by ID.

pub mod sd;
