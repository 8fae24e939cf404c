//! A verified core for cooperative "missions": a chief creates a mission
//! with a crew cap, brawlers join as crew, the chief starts it, and it
//! concludes as completed or failed. The mission lifecycle and the crew
//! membership rules - who may change what, when capacity is reached, and
//! which status transitions follow - are stated in contracts and proved.
//! The in-memory store executes every coordinator operation as one atomic
//! read-modify-write; the surrounding plumbing (HTTP, persistence, token
//! signing, image hosting) stays outside, behind a handful of narrow
//! trusted calls.

pub mod auth;
pub mod brawlers;
pub mod capacity;
pub mod clock;
pub mod config;
pub mod crew;
pub mod dashboard;
pub mod errors;
pub mod image;
pub mod laws;
pub mod lifecycle;
pub mod mission_model;
pub mod missions;
pub mod numbers;
pub mod passport;
pub mod queries;
pub mod signing;
pub mod statuses;
pub mod store;
pub mod text;
