//! Configuration types: profile, logging, runtime, path overrides, and the
//! user's alias table.
//!
//! The alias table maps short names to display names, email addresses or
//! canonical conversation ids. Lookup is exact first, then ASCII
//! case-insensitive, in the table's order. Reading and writing the
//! configuration file is the caller's concern; this module carries the
//! values and the lookup and update rules.

use vstd::prelude::*;
use crate::ordered::{find_key, has_key, key_pos, lemma_key_pos, lemma_key_pos_at, unique_keys};
use crate::text::{lower_of, str_eq, to_lower};

verus! {

/// Log level enumeration.
#[derive(Debug, Clone, Copy, PartialEq, Eq, Structural)]
pub enum LogLevel {
    /// Only emit error-level messages.
    Error,
    /// Emit warnings and errors.
    Warn,
    /// Emit informational messages and above (default).
    Info,
    /// Emit debug diagnostics and above.
    Debug,
    /// Emit all messages including fine-grained traces.
    Trace,
}

impl LogLevel {
    /// The level's lower-case name.
    pub open spec fn spec_name(self) -> Seq<char> {
        match self {
            LogLevel::Error => "error"@,
            LogLevel::Warn => "warn"@,
            LogLevel::Info => "info"@,
            LogLevel::Debug => "debug"@,
            LogLevel::Trace => "trace"@,
        }
    }

    /// The level's lower-case name.
    pub fn name(&self) -> (r: String)
        ensures
            r@ == self.spec_name(),
    {
        match self {
            LogLevel::Error => String::from_str("error"),
            LogLevel::Warn => String::from_str("warn"),
            LogLevel::Info => String::from_str("info"),
            LogLevel::Debug => String::from_str("debug"),
            LogLevel::Trace => String::from_str("trace"),
        }
    }
}

impl Default for LogLevel {
    /// The default level is `Info`.
    fn default() -> (r: Self)
        ensures
            r == LogLevel::Info,
    {
        LogLevel::Info
    }
}

/// Logging configuration.
#[derive(Debug, Clone)]
pub struct LoggingConfig {
    /// Log level.
    pub level: LogLevel,
    /// Optional path for log file output.
    pub file: Option<String>,
}

impl Default for LoggingConfig {
    /// Level `Info`, no log file.
    fn default() -> (r: Self)
        ensures
            r.level == LogLevel::Info,
            r.file is None,
    {
        LoggingConfig { level: LogLevel::Info, file: Option::None }
    }
}

/// Runtime behavior configuration.
#[derive(Debug, Clone, Copy)]
pub struct RuntimeConfig {
    /// Worker pool size; the logical CPU count when unset.
    pub parallelism: Option<usize>,
    /// Timeout in seconds for long-running operations.
    pub timeout: Option<u64>,
    /// Stop on first error.
    pub fail_fast: bool,
}

impl Default for RuntimeConfig {
    /// No parallelism override, a sixty-second timeout, fail fast.
    fn default() -> (r: Self)
        ensures
            r.parallelism is None,
            r.timeout == Option::Some(60u64),
            r.fail_fast,
    {
        RuntimeConfig { parallelism: Option::None, timeout: Option::Some(60), fail_fast: true }
    }
}

/// Path override configuration.
#[derive(Debug, Clone)]
pub struct PathsConfig {
    /// Directory for persistent data.
    pub data_dir: Option<String>,
    /// Directory for state files.
    pub state_dir: Option<String>,
}

impl Default for PathsConfig {
    /// No overrides.
    fn default() -> (r: Self)
        ensures
            r.data_dir is None,
            r.state_dir is None,
    {
        PathsConfig { data_dir: Option::None, state_dir: Option::None }
    }
}

/// Views of the alias table's entries.
pub open spec fn people_views(v: Seq<(String, String)>) -> Seq<(Seq<char>, Seq<char>)> {
    v.map_values(|p: (String, String)| (p.0@, p.1@))
}

/// The key of an alias entry: its short name.
pub open spec fn alias_name_key() -> spec_fn((Seq<char>, Seq<char>)) -> Seq<char> {
    |p: (Seq<char>, Seq<char>)| p.0
}

/// The lower-cased key of an alias entry.
pub open spec fn alias_fold_key() -> spec_fn((Seq<char>, Seq<char>)) -> Seq<char> {
    |p: (Seq<char>, Seq<char>)| lower_of(p.0)
}

/// What an alias lookup returns: the first entry whose name matches exactly,
/// else the first whose name matches up to ASCII case, else nothing.
pub open spec fn resolve_alias_spec(
    people: Seq<(Seq<char>, Seq<char>)>,
    name: Seq<char>,
) -> Option<Seq<char>> {
    match find_key(people, name, alias_name_key()) {
        Option::Some(p) => Option::Some(p.1),
        Option::None => match find_key(people, lower_of(name), alias_fold_key()) {
            Option::Some(p) => Option::Some(p.1),
            Option::None => Option::None,
        },
    }
}

/// What adding an alias does to the table: the entry with the same name is
/// overwritten, else the new entry is appended.
pub open spec fn add_alias_spec(
    people: Seq<(Seq<char>, Seq<char>)>,
    name: Seq<char>,
    value: Seq<char>,
) -> Seq<(Seq<char>, Seq<char>)> {
    if has_key(people, name, alias_name_key()) {
        people.update(key_pos(people, name, alias_name_key()), (name, value))
    } else {
        people.push((name, value))
    }
}

/// Main application configuration.
#[derive(Debug, Clone)]
pub struct AppConfig {
    /// Schema reference for editor support.
    pub schema: Option<String>,
    /// Active configuration profile.
    pub profile: String,
    /// Logging configuration.
    pub logging: LoggingConfig,
    /// Runtime behavior configuration.
    pub runtime: RuntimeConfig,
    /// Custom paths for data and state directories.
    pub paths: PathsConfig,
    /// People aliases for quick chat access: short name to display name,
    /// email address, or conversation id.
    pub people: Vec<(String, String)>,
}

impl Default for AppConfig {
    /// The `default` profile with default sections and no aliases.
    fn default() -> (r: Self)
        ensures
            r.schema is None,
            r.profile@ == "default"@,
            r.logging.level == LogLevel::Info,
            r.logging.file is None,
            r.runtime.parallelism is None,
            r.runtime.timeout == Option::Some(60u64),
            r.runtime.fail_fast,
            r.paths.data_dir is None,
            r.paths.state_dir is None,
            r.people@.len() == 0,
    {
        AppConfig {
            schema: Option::None,
            profile: String::from_str("default"),
            logging: LoggingConfig { level: LogLevel::Info, file: Option::None },
            runtime: RuntimeConfig {
                parallelism: Option::None,
                timeout: Option::Some(60),
                fail_fast: true,
            },
            paths: PathsConfig { data_dir: Option::None, state_dir: Option::None },
            people: Vec::new(),
        }
    }
}

impl AppConfig {
    /// The alias table as a mathematical sequence of name/value pairs.
    pub open spec fn people_view(&self) -> Seq<(Seq<char>, Seq<char>)> {
        people_views(self.people@)
    }

    /// Override the profile if a value is provided.
    pub fn with_profile_override(self, profile: Option<String>) -> (r: Self)
        ensures
            r.profile@ == (match profile {
                Option::Some(p) => p@,
                Option::None => self.profile@,
            }),
            r.schema == self.schema,
            r.logging == self.logging,
            r.runtime == self.runtime,
            r.paths == self.paths,
            r.people == self.people,
    {
        match profile {
            Option::Some(p) => AppConfig {
                schema: self.schema,
                profile: p,
                logging: self.logging,
                runtime: self.runtime,
                paths: self.paths,
                people: self.people,
            },
            Option::None => self,
        }
    }

    /// Resolve a people alias to its target value: exact name match
    /// first, then case-insensitive under full lower-casing, in the
    /// table's order. Nothing when no alias matches.
    pub fn resolve_alias<'a>(&'a self, name: &str) -> (r: Option<&'a str>)
        ensures
            match r {
                Option::Some(v) => resolve_alias_spec(self.people_view(), name@) == Option::Some(
                    v@,
                ),
                Option::None => resolve_alias_spec(self.people_view(), name@) is None,
            },
    {
        let ghost pv = self.people_view();
        let ghost nk = alias_name_key();
        let ghost fk = alias_fold_key();
        let n = self.people.len();
        let mut i: usize = 0;
        while i < n
            invariant
                i <= n,
                n == self.people@.len(),
                forall|j: int| 0 <= j < i ==> nk(pv[j]) != name@,
            decreases n - i,
        {
            proof {
                assert(nk(pv[i as int]) == pv[i as int].0);
            }
            if str_eq(self.people[i].0.as_str(), name) {
                proof {
                    lemma_key_pos_at(pv, name@, nk, i as int);
                }
                return Option::Some(self.people[i].1.as_str());
            }
            i = i + 1;
        }
        proof {
            lemma_key_pos(pv, name@, nk);
            if has_key(pv, name@, nk) {
                assert(nk(pv[key_pos(pv, name@, nk)]) == name@);
            }
        }
        let folded = to_lower(name);
        let mut i: usize = 0;
        while i < n
            invariant
                i <= n,
                n == self.people@.len(),
                !has_key(pv, name@, nk),
                folded@ == lower_of(name@),
                forall|j: int| 0 <= j < i ==> fk(pv[j]) != lower_of(name@),
            decreases n - i,
        {
            proof {
                assert(fk(pv[i as int]) == lower_of(pv[i as int].0));
            }
            let entry_folded = to_lower(self.people[i].0.as_str());
            if str_eq(entry_folded.as_str(), folded.as_str()) {
                proof {
                    lemma_key_pos_at(pv, lower_of(name@), fk, i as int);
                }
                return Option::Some(self.people[i].1.as_str());
            }
            i = i + 1;
        }
        proof {
            lemma_key_pos(pv, lower_of(name@), fk);
            if has_key(pv, lower_of(name@), fk) {
                assert(fk(pv[key_pos(pv, lower_of(name@), fk)]) == lower_of(name@));
            }
        }
        Option::None
    }

    /// Add a people alias, overwriting the entry with the same name if one
    /// exists. Writing the updated table to disk is the caller's concern.
    pub fn add_alias(&mut self, name: &str, value: &str)
        ensures
            final(self).people_view() == add_alias_spec(old(self).people_view(), name@, value@),
            final(self).schema == old(self).schema,
            final(self).profile == old(self).profile,
            final(self).logging == old(self).logging,
            final(self).runtime == old(self).runtime,
            final(self).paths == old(self).paths,
    {
        let ghost pv = self.people_view();
        let ghost nk = alias_name_key();
        let entry = (String::from_str(name), String::from_str(value));
        let ghost ev = (name@, value@);
        let n = self.people.len();
        let mut idx: usize = n;
        let mut i: usize = 0;
        while i < n
            invariant
                i <= n,
                n == self.people@.len(),
                pv == self.people_view(),
                idx <= n,
                idx == n ==> forall|j: int| 0 <= j < i ==> nk(pv[j]) != name@,
                idx < n ==> idx < i && nk(pv[idx as int]) == name@ && (forall|j: int|
                    0 <= j < idx ==> nk(pv[j]) != name@),
            decreases n - i,
        {
            proof {
                assert(nk(pv[i as int]) == pv[i as int].0);
            }
            if idx == n && str_eq(self.people[i].0.as_str(), name) {
                idx = i;
            }
            i = i + 1;
        }
        if idx < n {
            proof {
                lemma_key_pos_at(pv, name@, nk, idx as int);
            }
            self.people.remove(idx);
            self.people.insert(idx, entry);
            proof {
                assert(self.people_view() =~= pv.update(idx as int, ev));
                assert(has_key(pv, name@, alias_name_key()));
                assert(key_pos(pv, name@, alias_name_key()) == idx as int);
                assert(self.people_view() == add_alias_spec(pv, name@, value@));
            }
        } else {
            proof {
                lemma_key_pos(pv, name@, nk);
                if has_key(pv, name@, nk) {
                    assert(nk(pv[key_pos(pv, name@, nk)]) == name@);
                }
            }
            self.people.push(entry);
            proof {
                assert(self.people_view() =~= pv.push(ev));
                assert(!has_key(pv, name@, alias_name_key())) by {
                    lemma_key_pos(pv, name@, alias_name_key());
                    if has_key(pv, name@, alias_name_key()) {
                        let kp = key_pos(pv, name@, alias_name_key());
                        assert(0 <= kp < pv.len());
                        assert(alias_name_key()(pv[kp]) == name@);
                        assert(nk(pv[kp]) != name@);
                    }
                }
                assert(self.people_view() == add_alias_spec(pv, name@, value@));
            }
        }
    }
}

} // verus!
