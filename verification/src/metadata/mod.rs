pub mod openlibrary;
