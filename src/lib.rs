//! Engine of a reverse proxy that tells bots and scrapers from ordinary
//! clients by how often they send requests.

pub mod args;
pub mod clock;
pub mod detector;
pub mod lemmas;
pub mod registry;
pub mod server;
