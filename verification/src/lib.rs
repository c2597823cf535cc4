pub mod admin;
pub mod admin_posts;
pub mod auth;
pub mod config;
pub mod errors;
pub mod media;
pub mod public_posts;
pub mod store;
pub mod tags;
