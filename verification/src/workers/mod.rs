pub mod search_worker;
pub mod import_worker;
pub mod download_worker;
pub mod backfill;
pub mod sync_worker;
