//! The error taxonomy surfaced by command handling: each category carries
//! full detail for server-side logs, while the user-facing message is a fixed
//! generic line per category, so raw error text never reaches the end user.

use vstd::prelude::*;

verus! {

/// Why a provider failed to handle a command.
#[derive(Debug)]
pub enum PluginError {
    /// A request to a backing service API failed.
    ApiError(String),
    /// A provider is missing required setup.
    ConfigError(String),
    /// Posting the response to the chat platform failed.
    DiscordError(String),
    /// Anything else; the payload is already user-safe where it is shown.
    Other(String),
}

impl PluginError {
    /// The fixed, category-based message suitable for sending back to the
    /// user; full detail stays in the payload for server-side logs.
    pub fn user_message(&self) -> (r: &str)
        ensures
            self matches PluginError::ApiError(_) ==> r@
                == "A plugin API request failed. Check bot logs for details."@,
            self matches PluginError::ConfigError(_) ==> r@
                == "Plugin configuration error. Check bot logs for details."@,
            self matches PluginError::DiscordError(_) ==> r@
                == "Discord API error. Check bot logs for details."@,
            self matches PluginError::Other(_) ==> r@
                == "Something went wrong. Check bot logs for details."@,
    {
        match self {
            PluginError::ApiError(_) => "A plugin API request failed. Check bot logs for details.",
            PluginError::ConfigError(_) => "Plugin configuration error. Check bot logs for details.",
            PluginError::DiscordError(_) => "Discord API error. Check bot logs for details.",
            PluginError::Other(_) => "Something went wrong. Check bot logs for details.",
        }
    }

    /// The detail payload, for server-side logging.
    pub fn detail(&self) -> (r: &str)
        ensures
            self matches PluginError::ApiError(m) ==> r@ == m@,
            self matches PluginError::ConfigError(m) ==> r@ == m@,
            self matches PluginError::DiscordError(m) ==> r@ == m@,
            self matches PluginError::Other(m) ==> r@ == m@,
    {
        match self {
            PluginError::ApiError(m) => m.as_str(),
            PluginError::ConfigError(m) => m.as_str(),
            PluginError::DiscordError(m) => m.as_str(),
            PluginError::Other(m) => m.as_str(),
        }
    }
}

} // verus!
