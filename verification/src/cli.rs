//! The command line of the tool and the launch plan that follows from it.

use vstd::prelude::*;
use vstd::string::*;

use crate::path::{join_path, path_join};

verus! {

/// The command line: the tool's directory, an optional configuration script,
/// an optional cache database path, the dry-run switch, the switch that skips
/// the build script, the entry point to call and the arguments handed to it.
pub struct Cli {
    pub directory: String,
    pub config: Option<String>,
    pub dbpath: Option<String>,
    pub dry_run: bool,
    pub direct_run: bool,
    pub entry: String,
    pub rargs: Vec<String>,
}

impl Cli {
    /// The cache database path: the one given, else `<directory>/.cache`.
    pub open spec fn spec_db_path(&self) -> Seq<char> {
        match self.dbpath {
            Some(p) => p@,
            None => path_join(self.directory@, ".cache"@),
        }
    }

    /// The build script: `<directory>/__build.rn`.
    pub open spec fn spec_build_script_path(&self) -> Seq<char> {
        path_join(self.directory@, "__build.rn"@)
    }

    /// The configuration script: the one given, else `<directory>/config.rn`.
    pub open spec fn spec_config_path(&self) -> Seq<char> {
        match self.config {
            Some(p) => p@,
            None => path_join(self.directory@, "config.rn"@),
        }
    }

    /// The cache database path (see `spec_db_path`).
    pub fn db_path(&self) -> (r: String)
        ensures
            r@ == self.spec_db_path(),
    {
        match &self.dbpath {
            Some(p) => p.clone(),
            None => join_path(self.directory.as_str(), ".cache"),
        }
    }

    /// The build script path (see `spec_build_script_path`).
    pub fn build_script_path(&self) -> (r: String)
        ensures
            r@ == self.spec_build_script_path(),
    {
        join_path(self.directory.as_str(), "__build.rn")
    }

    /// The configuration script path (see `spec_config_path`).
    pub fn config_path(&self) -> (r: String)
        ensures
            r@ == self.spec_config_path(),
    {
        match &self.config {
            Some(p) => p.clone(),
            None => join_path(self.directory.as_str(), "config.rn"),
        }
    }

    /// Whether the build script runs first: unless a direct run was asked
    /// for, it runs exactly when it exists.
    pub fn runs_build_script(&self, build_script_exists: bool) -> (r: bool)
        ensures
            r == (!self.direct_run && build_script_exists),
    {
        !self.direct_run && build_script_exists
    }

    /// The scripts to compile for the entry point: those the build script
    /// listed (none when it did not run), then the configuration script.
    pub fn script_sources(&self, listed: Vec<String>) -> (r: Vec<String>)
        ensures
            r@.map_values(|s: String| s@) == listed@.map_values(|s: String| s@).push(
                self.spec_config_path(),
            ),
    {
        let mut out = listed;
        let ghost before = out@;
        out.push(self.config_path());
        proof {
            assert(out@.map_values(|s: String| s@) =~= before.map_values(|s: String| s@).push(
                self.spec_config_path(),
            ));
        }
        out
    }
}

/// Without an explicit choice, the cache database, the build script and the
/// configuration script are the names `.cache`, `__build.rn` and `config.rn`
/// appended to the directory as path components: after the directory's text
/// comes one separator (none when it already ends with one), then the name.
pub proof fn lemma_default_paths(c: Cli)
    requires
        c.directory@.len() > 0,
    ensures
        c.dbpath is None && c.directory@.last() != '/' ==> c.spec_db_path() == c.directory@ + "/.cache"@,
        c.dbpath is None && c.directory@.last() == '/' ==> c.spec_db_path() == c.directory@ + ".cache"@,
        c.config is None && c.directory@.last() != '/' ==> c.spec_config_path() == c.directory@
            + "/config.rn"@,
        c.config is None && c.directory@.last() == '/' ==> c.spec_config_path() == c.directory@
            + "config.rn"@,
        c.directory@.last() != '/' ==> c.spec_build_script_path() == c.directory@ + "/__build.rn"@,
        c.directory@.last() == '/' ==> c.spec_build_script_path() == c.directory@ + "__build.rn"@,
        c.dbpath matches Some(p) ==> c.spec_db_path() == p@,
        c.config matches Some(p) ==> c.spec_config_path() == p@,
{
    reveal_strlit(".cache");
    reveal_strlit("/.cache");
    reveal_strlit("config.rn");
    reveal_strlit("/config.rn");
    reveal_strlit("__build.rn");
    reveal_strlit("/__build.rn");
    let d = c.directory@;
    assert(".cache"@[0] == '.');
    assert("config.rn"@[0] == 'c');
    assert("__build.rn"@[0] == '_');
    assert(d + seq!['/'] + ".cache"@ =~= d + "/.cache"@);
    assert(d + seq!['/'] + "config.rn"@ =~= d + "/config.rn"@);
    assert(d + seq!['/'] + "__build.rn"@ =~= d + "/__build.rn"@);
}

} // verus!
