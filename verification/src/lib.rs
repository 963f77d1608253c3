//! Connection hub and room/broadcast gate for a multi-tenant chat service.
//!
//! The library maintains, for every live connection, which authenticated
//! identity owns it and which community rooms it participates in, and it
//! decides all real-time fan-out: only identities the membership oracle
//! admits may enter a community room, and presence converges on leave and
//! disconnect.  The credential verifier and the membership oracle are
//! external collaborators: their answers are passed in as plain values and
//! every decision taken on them is verified here.

pub mod errors;
pub mod events;
pub mod gate;
pub mod hub;
pub mod model;
pub mod models;
pub mod naming;
pub mod presence;
pub mod registry;
pub mod tracker;
