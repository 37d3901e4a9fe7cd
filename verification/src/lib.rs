//! Local-first client core for a chat service.
//!
//! The crate mirrors remote conversations and messages into a queryable,
//! fully specified in-memory cache, resolves human-friendly targets to
//! canonical conversation identifiers, manages the credential bundle's
//! lifecycle, and makes the background scheduler's decisions. All state
//! changes are stated in contracts and proved; file, network and process
//! work lives outside the library and hands plain values in and out.

#![verifier::loop_isolation(false)]

use vstd::prelude::*;

pub mod auth;
pub mod cache;
pub mod cli;
pub mod compose;
pub mod config;
pub mod daemon;
pub mod ingest;
pub mod errors;
pub mod html;
pub mod json;
pub mod models;
pub mod ordered;
pub mod paths;
pub mod render;
pub mod resolver;
pub mod text;
pub mod tui;

pub use auth::AuthManager;
pub use cache::{Cache, CachedConversation, CachedMessage, SearchResult};
pub use config::{AppConfig, LogLevel, LoggingConfig, PathsConfig, RuntimeConfig};
pub use errors::{AuthenticationError, CoreError};
pub use models::TeamsTokens;
pub use paths::AppPaths;

verus! {

/// Application name used for directories and the environment prefix.
pub const APP_NAME: &'static str = "tmz";

/// One character of the environment prefix: ASCII letters are upper-cased,
/// digits kept, anything else becomes an underscore.
pub open spec fn env_prefix_char(c: char) -> char {
    if 'a' <= c && c <= 'z' {
        (((c as u8) - 32) as char)
    } else if ('A' <= c && c <= 'Z') || ('0' <= c && c <= '9') {
        c
    } else {
        '_'
    }
}

/// The environment variable prefix derived from the application name.
pub open spec fn spec_env_prefix() -> Seq<char> {
    APP_NAME@.map_values(|c: char| env_prefix_char(c))
}

/// Returns the environment variable prefix for this application.
pub fn env_prefix() -> (r: String)
    ensures
        r@ == spec_env_prefix(),
{
    let n: usize = APP_NAME.unicode_len();
    let mut r = String::new();
    let mut i: usize = 0;
    while i < n
        invariant
            n == APP_NAME@.len(),
            i <= n,
            r@ == spec_env_prefix().take(i as int),
        decreases n - i,
    {
        let c = APP_NAME.get_char(i);
        let u: u32 = c as u32;
        let up: char = if 97 <= u && u <= 122 {
            ((c as u8) - 32) as char
        } else if (65 <= u && u <= 90) || (48 <= u && u <= 57) {
            c
        } else {
            '_'
        };
        text::push_char(&mut r, up);
        i = i + 1;
        proof {
            assert(r@ =~= spec_env_prefix().take(i as int));
        }
    }
    proof {
        assert(r@ =~= spec_env_prefix());
    }
    r
}

} // verus!
