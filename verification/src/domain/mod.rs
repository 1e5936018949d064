pub mod auth;
pub mod catalog;
pub mod events;
pub mod imports;
pub mod library;
pub mod requests;
pub mod search;
pub mod settings;
pub mod submissions;
