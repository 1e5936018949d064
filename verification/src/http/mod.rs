pub mod auth;
pub mod error;
pub mod handlers;
pub mod views;
