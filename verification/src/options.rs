//! How the catalog is reached.

use vstd::prelude::*;
use vstd::string::StringExecFns;

verus! {

/// SQLite connection options.
#[derive(Debug)]
pub struct SqliteConnectionOptions {
    /// local file path to .sqlite file
    pub file_path: String,
}

impl Clone for SqliteConnectionOptions {
    fn clone(&self) -> (r: Self)
        ensures
            r == *self,
    {
        SqliteConnectionOptions { file_path: self.file_path.clone() }
    }
}

impl SqliteConnectionOptions {
    /// The text by which a catalog at this place names itself.
    pub open spec fn spec_describe(&self) -> Seq<char> {
        "Sqlite(dsn='"@ + self.file_path@ + "')"@
    }

    /// Names the catalog at this place.
    pub fn describe(&self) -> (text: String)
        ensures
            text@ == self.spec_describe(),
    {
        let text = String::from_str("Sqlite(dsn='");
        let text = text.concat(self.file_path.as_str());
        text.concat("')")
    }
}

} // verus!
