pub mod audiobookshelf;
pub mod calibre;
