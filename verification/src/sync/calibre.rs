//! The Calibre hook: the command that adds an imported ebook to a library.
use vstd::prelude::*;

use crate::text::copy_str;

verus! {

#[derive(Clone, Debug, PartialEq, Eq)]
pub struct CalibreHook {
    binary_path: String,
}

impl CalibreHook {
    pub fn new(binary_path: &str) -> (r: Self)
        ensures
            r.program()@ == binary_path@,
    {
        CalibreHook { binary_path: copy_str(binary_path) }
    }

    pub closed spec fn program(&self) -> String {
        self.binary_path
    }

    /// The program the command runs.
    pub fn binary_path(&self) -> (r: &str)
        ensures
            r@ == self.program()@,
    {
        self.binary_path.as_str()
    }

    /// The arguments of the command that adds the book at `path`:
    /// `add <path>`.
    pub fn add_book_args(&self, path: &str) -> (r: Vec<String>)
        ensures
            r@.len() == 2,
            r@[0]@ == "add"@,
            r@[1]@ == path@,
    {
        let mut args: Vec<String> = Vec::new();
        args.push(copy_str("add"));
        args.push(copy_str(path));
        args
    }
}

} // verus!
