pub mod auth;
pub mod covers;
pub mod library;
pub mod prowlarr;
pub mod requests;
pub mod settings;
pub mod submissions;
