pub mod prowlarr;
pub mod torznab;
