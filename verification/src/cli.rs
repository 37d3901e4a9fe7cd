//! Command-line option types and the rules that interpret them.
//!
//! Argument parsing itself lives with the caller; these are the plain
//! values it hands in, with the derived settings specified and proved.

use vstd::prelude::*;
use crate::cache::ConversationView;
use crate::config::LogLevel;
use crate::text::str_eq;

verus! {

/// Color output mode.
#[derive(Debug, Clone, Copy, PartialEq, Eq, Structural)]
pub enum ColorOption {
    /// Detect terminal capabilities automatically.
    Auto,
    /// Always emit ANSI color codes.
    Always,
    /// Never emit ANSI color codes.
    Never,
}

/// Common CLI options shared across all subcommands.
#[derive(Debug, Clone)]
pub struct CommonOpts {
    /// Override the config file path.
    pub config: Option<String>,
    /// Reduce output to only errors.
    pub quiet: bool,
    /// Increase logging verbosity (stackable).
    pub verbose: u8,
    /// Enable debug logging.
    pub debug: bool,
    /// Enable trace logging.
    pub trace: bool,
    /// Output machine-readable JSON.
    pub json: bool,
    /// Disable ANSI colors in output.
    pub no_color: bool,
    /// Control color output.
    pub color: ColorOption,
    /// Do not change anything on disk.
    pub dry_run: bool,
    /// Assume "yes" for interactive prompts.
    pub assume_yes: bool,
}

impl CommonOpts {
    /// The log level the flags select: trace and debug flags win, then the
    /// stacked verbosity count.
    pub open spec fn spec_log_level(&self) -> LogLevel {
        if self.trace {
            LogLevel::Trace
        } else if self.debug {
            LogLevel::Debug
        } else if self.verbose == 0 {
            LogLevel::Warn
        } else if self.verbose == 1 {
            LogLevel::Info
        } else if self.verbose == 2 {
            LogLevel::Debug
        } else {
            LogLevel::Trace
        }
    }

    /// The log level the flags select.
    pub fn effective_log_level(&self) -> (r: LogLevel)
        ensures
            r == self.spec_log_level(),
    {
        if self.trace {
            LogLevel::Trace
        } else if self.debug {
            LogLevel::Debug
        } else if self.verbose == 0 {
            LogLevel::Warn
        } else if self.verbose == 1 {
            LogLevel::Info
        } else if self.verbose == 2 {
            LogLevel::Debug
        } else {
            LogLevel::Trace
        }
    }
}

/// Filter conversations by type.
#[derive(Debug, Clone, Copy, PartialEq, Eq, Structural)]
pub enum ConvTypeFilter {
    /// One-to-one direct messages.
    OneToOne,
    /// Group chats.
    Group,
    /// Channels.
    Channel,
    /// Meeting chats.
    Meeting,
}

impl ConvTypeFilter {
    /// Whether a product-type tag falls under this filter.
    pub open spec fn spec_matches(self, product_type: Seq<char>) -> bool {
        match self {
            ConvTypeFilter::OneToOne => product_type == "OneToOneChat"@ || product_type
                == "SfbInteropChat"@,
            ConvTypeFilter::Group => product_type == "Chat"@,
            ConvTypeFilter::Channel => product_type == "TeamsStandardChannel"@ || product_type
                == "TeamsPrivateChannel"@ || product_type == "TeamsTeam"@,
            ConvTypeFilter::Meeting => product_type == "Meeting"@,
        }
    }

    /// The filter as a predicate on cached conversations.
    pub open spec fn match_pred(self) -> spec_fn(ConversationView) -> bool {
        |c: ConversationView| self.spec_matches(c.product_type)
    }

    /// Check if a conversation falls under this filter, by its product type.
    pub fn matches(self, product_type: &str) -> (r: bool)
        ensures
            r == self.spec_matches(product_type@),
    {
        match self {
            ConvTypeFilter::OneToOne => str_eq(product_type, "OneToOneChat") || str_eq(
                product_type,
                "SfbInteropChat",
            ),
            ConvTypeFilter::Group => str_eq(product_type, "Chat"),
            ConvTypeFilter::Channel => str_eq(product_type, "TeamsStandardChannel") || str_eq(
                product_type,
                "TeamsPrivateChannel",
            ) || str_eq(product_type, "TeamsTeam"),
            ConvTypeFilter::Meeting => str_eq(product_type, "Meeting"),
        }
    }
}

} // verus!
