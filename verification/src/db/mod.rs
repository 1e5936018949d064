pub mod indexers;
pub mod requests;
