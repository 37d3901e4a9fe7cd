//! Application directory paths and their overrides.
//!
//! Directory discovery reads the environment and the file system and
//! belongs to the caller; this module carries the resolved paths, applies
//! configured overrides through the expansion of tildes and environment
//! references, and phrases the messages around them.

use vstd::prelude::*;
use crate::config::AppConfig;
use crate::errors::CoreError;

verus! {

/// Application paths for configuration, data, and state.
#[derive(Debug, Clone)]
pub struct AppPaths {
    /// Path to the configuration file.
    pub config_file: String,
    /// Directory for persistent application data.
    pub data_dir: String,
    /// Directory for application state files.
    pub state_dir: String,
}

/// Relies on `shellexpand::full`: tilde and environment-variable
/// expansion. The result depends on the environment, so little is
/// promised of it; but a text holding no tilde and no variable reference
/// is returned unchanged, and a lookup failure becomes a path error.
#[verifier::external_body]
pub fn expand_str_path(text: &str) -> (r: Result<String, CoreError>)
    ensures
        (forall|i: int| 0 <= i < text@.len() ==> text@[i] != '~' && text@[i] != '$') ==> (r is Ok
            && r.unwrap()@ == text@),
        r is Err ==> (r.unwrap_err() matches CoreError::Path(_)),
{
    match shellexpand::full(text) {
        Ok(expanded) => Ok(expanded.to_string()),
        Err(e) => Err(CoreError::Path(e.to_string())),
    }
}

/// Expand a path, resolving tildes and environment references. A path
/// holding no tilde and no variable reference is returned unchanged.
pub fn expand_path(path: &str) -> (r: Result<String, CoreError>)
    ensures
        (forall|i: int| 0 <= i < path@.len() ==> path@[i] != '~' && path@[i] != '$') ==> (r is Ok
            && r.unwrap()@ == path@),
        r is Err ==> (r.unwrap_err() matches CoreError::Path(_)),
{
    expand_str_path(path)
}

impl AppPaths {
    /// Apply path overrides from the configuration: each configured
    /// directory replaces the discovered one after expansion; an
    /// unconfigured directory stays as it is.
    pub fn apply_overrides(self, cfg: &AppConfig) -> (r: Result<AppPaths, CoreError>)
        ensures
            match r {
                Result::Ok(p) => {
                    &&& p.config_file == self.config_file
                    &&& (cfg.paths.data_dir is None ==> p.data_dir == self.data_dir)
                    &&& (cfg.paths.state_dir is None ==> p.state_dir == self.state_dir)
                },
                Result::Err(e) => e matches CoreError::Path(_),
            },
    {
        let data_dir = match &cfg.paths.data_dir {
            Option::Some(over) => match expand_str_path(over.as_str()) {
                Result::Ok(d) => d,
                Result::Err(e) => {
                    return Result::Err(err_as_path(e));
                },
            },
            Option::None => self.data_dir,
        };
        let state_dir = match &cfg.paths.state_dir {
            Option::Some(over) => match expand_str_path(over.as_str()) {
                Result::Ok(d) => d,
                Result::Err(e) => {
                    return Result::Err(err_as_path(e));
                },
            },
            Option::None => self.state_dir,
        };
        Result::Ok(AppPaths { config_file: self.config_file, data_dir, state_dir })
    }

    /// The message logged when directory creation is skipped in a dry
    /// run.
    pub fn log_dry_run(&self) -> (r: String)
        ensures
            r@ == "dry-run: would ensure data dir "@ + self.data_dir@ + " and state dir "@
                + self.state_dir@,
    {
        String::from_str("dry-run: would ensure data dir ").concat(self.data_dir.as_str()).concat(
            " and state dir ",
        ).concat(self.state_dir.as_str())
    }

    /// A one-line description of the resolved paths.
    pub fn describe(&self) -> (r: String)
        ensures
            r@ == "config: "@ + self.config_file@ + ", data: "@ + self.data_dir@ + ", state: "@
                + self.state_dir@,
    {
        String::from_str("config: ").concat(self.config_file.as_str()).concat(", data: ").concat(
            self.data_dir.as_str(),
        ).concat(", state: ").concat(self.state_dir.as_str())
    }
}

/// Force any error into the path-error shape.
fn err_as_path(e: CoreError) -> (r: CoreError)
    ensures
        r matches CoreError::Path(_),
{
    match e {
        CoreError::Path(m) => CoreError::Path(m),
        _ => CoreError::Path(e.message()),
    }
}

/// The comment block written at the top of a fresh configuration file.
pub fn default_config_header(path: &str) -> (r: String)
    ensures
        r@ == "# Configuration for "@ + crate::APP_NAME@ + "\n# File: "@ + path@ + "\n\n"@,
{
    String::from_str("# Configuration for ").concat(crate::APP_NAME).concat("\n# File: ").concat(
        path,
    ).concat("\n\n")
}

} // verus!
