//! Where the application keeps its data files.
use vstd::prelude::*;

use crate::paths::{join_path, joined_path, path_exists};

verus! {

/// File-based storage under one data directory, held as its path's text.
pub struct Storage {
    data_dir: String,
}

/// Default data file name for the application's data.
pub const SCHOOLS_DATA_FILE: &'static str = "data.json";

impl Storage {
    pub closed spec fn dir(&self) -> Seq<char> {
        self.data_dir@
    }

    pub fn new(data_dir: String) -> (r: Storage)
        ensures
            r.dir() == data_dir@,
    {
        Storage { data_dir }
    }

    pub fn data_dir(&self) -> (r: &str)
        ensures
            r@ == self.dir(),
    {
        self.data_dir.as_str()
    }

    /// The path of data file `filename`.
    pub fn data_path(&self, filename: &str) -> (r: String)
        ensures
            r@ == joined_path(self.dir(), filename@),
    {
        join_path(self.data_dir.as_str(), filename)
    }

    /// Whether data file `filename` exists now.
    pub fn file_exists(&self, filename: &str) -> bool {
        let path = self.data_path(filename);
        path_exists(path.as_str())
    }
}

} // verus!
