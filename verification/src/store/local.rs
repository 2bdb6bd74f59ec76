//! Where the local JSON store keeps its files.
use vstd::prelude::*;
use crate::text::{chars_of, push_str, string_of};

verus! {

/// The local JSON store: one `<name>.json` file per collection in a data directory.
#[derive(Debug, Clone)]
pub struct LocalJsonStore {
    data_dir: String,
}

impl LocalJsonStore {
    /// The directory the store was opened on.
    pub closed spec fn dir(&self) -> Seq<char> {
        self.data_dir@
    }

    /// A store over `data_dir`; the directory is expected to exist.
    pub fn new(data_dir: String) -> (r: Self)
        ensures
            r.dir() == data_dir@,
    {
        LocalJsonStore { data_dir }
    }

    /// The data directory.
    pub fn data_dir(&self) -> (r: &str)
        ensures
            r@ == self.dir(),
    {
        self.data_dir.as_str()
    }

    /// Name of the file a collection is kept in: the collection's name and `.json`.
    pub fn file_name(&self, filename: &str) -> (r: String)
        ensures
            r@ == filename@ + ".json"@,
    {
        let mut out = chars_of(filename);
        push_str(&mut out, ".json");
        string_of(out.as_slice())
    }
}

} // verus!
