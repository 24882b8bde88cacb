//! Where the test library lives.

use crate::err::{Error, ErrorView};
use crate::path::{join_path, joined};
use crate::text::opt_view;
use vstd::prelude::*;
use vstd::string::*;

verus! {

/// The test library that every test script sources.
#[derive(Debug, Clone, Default)]
pub struct KTest {
    /// The directory that holds `testlib.sh`.
    pub lib_path: Option<String>,
}

/// What asking for the test library yields: its path inside the configured
/// directory when that file exists, else the complaint that fits.
pub open spec fn lib_path_of(lib_path: Option<Seq<char>>, exists: bool) -> Result<
    Seq<char>,
    ErrorView,
> {
    match lib_path {
        None => Err(ErrorView::message("KTEST_TEST_LIB not configured"@)),
        Some(dir) => if exists {
            Ok(joined(dir, "testlib.sh"@))
        } else {
            Err(ErrorView::message("configured KTEST_TEST_LIB does not exist"@))
        },
    }
}

/// The model of a result that holds a text.
pub open spec fn text_result_view(r: Result<String, Error>) -> Result<Seq<char>, ErrorView> {
    match r {
        Ok(s) => Ok(s@),
        Err(e) => Err(e@),
    }
}

impl KTest {
    /// The file the test library should be: `testlib.sh` in the configured
    /// directory. Nothing when no directory is configured.
    pub fn testlib(&self) -> (r: Option<String>)
        ensures
            opt_view(r) == match opt_view(self.lib_path) {
                Some(dir) => Some(joined(dir, "testlib.sh"@)),
                None => None,
            },
    {
        match &self.lib_path {
            Some(dir) => Some(join_path(dir.as_str(), "testlib.sh")),
            None => None,
        }
    }

    /// The path of the test library. `exists` says whether the file that
    /// `testlib` names exists. An error when no directory is configured, and
    /// when the file does not exist.
    pub fn lib_path(&self, exists: bool) -> (r: Result<String, Error>)
        ensures
            text_result_view(r) == lib_path_of(opt_view(self.lib_path), exists),
    {
        match &self.lib_path {
            None => Err(Error::new("KTEST_TEST_LIB not configured")),
            Some(dir) => {
                if exists {
                    Ok(join_path(dir.as_str(), "testlib.sh"))
                } else {
                    Err(Error::new("configured KTEST_TEST_LIB does not exist"))
                }
            },
        }
    }

    /// Applies the command line: the directory it names, or none.
    pub fn update_from_args(&mut self, lib_path: Option<String>)
        ensures
            final(self).lib_path == lib_path,
    {
        self.lib_path = lib_path;
    }
}

} // verus!
