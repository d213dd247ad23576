pub mod card;
pub mod state;
pub mod showdown;
pub mod events;
pub mod reconcile;
pub mod submission;
pub mod queries;
pub mod auth;
