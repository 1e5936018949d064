use vstd::prelude::*;

pub mod config;
pub mod db;
pub mod domain;
pub mod downloads;
pub mod http;
pub mod importer;
pub mod json;
pub mod library_scanner;
pub mod matcher;
pub mod metadata;
pub mod notifications;
pub mod numbers;
pub mod search;
pub mod sorting;
pub mod sync;
pub mod text;
pub mod urls;
pub mod workers;

verus! {
}
