use vstd::prelude::*;

use crate::text::concat;

verus! {

/// Where the documents of a store live: one file per key, named after the key
/// with a `.json` extension, inside one directory.
pub struct JsonStore {
    data_dir: String,
}

impl JsonStore {
    /// The store's directory.
    pub closed spec fn dir(&self) -> Seq<char> {
        self.data_dir@
    }

    /// A store over the directory `data_dir`.
    pub fn new(data_dir: &str) -> (r: Self)
        ensures
            r.dir() == data_dir@,
    {
        JsonStore { data_dir: data_dir.to_owned() }
    }

    /// The store's directory.
    pub fn data_dir(&self) -> (r: &str)
        ensures
            r@ == self.dir(),
    {
        self.data_dir.as_str()
    }

    /// The path of the document stored under `key`: `<dir>/<key>.json`.
    pub fn get_file_path(&self, key: &str) -> (r: String)
        ensures
            r@ == self.dir() + "/"@ + key@ + ".json"@,
    {
        let dir = concat(self.data_dir.as_str(), "/");
        let name = concat(key, ".json");
        proof {
            reveal_strlit("/");
            reveal_strlit(".json");
        }
        let r = concat(dir.as_str(), name.as_str());
        assert(r@ =~= self.dir() + "/"@ + key@ + ".json"@);
        r
    }
}

} // verus!
