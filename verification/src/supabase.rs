//! Narrow connection boundary for future lobby persistence.

use vstd::prelude::*;

use crate::config::{ConfigError, SupabaseConfig, SUPABASE_PUBLISHABLE_KEY, SUPABASE_URL};
use crate::text::{seq_contains_run, str_contains};

verus! {

/// Marker left in the project address until real credentials replace it.
pub const URL_PLACEHOLDER: &'static str = "your-project-ref";

/// Marker left in the publishable key until real credentials replace it.
pub const KEY_PLACEHOLDER: &'static str = "replace-me";

/// Public lobby service configuration passed to the future lobby transport.
pub struct SupabaseLobbyAdapter {
    /// Validated public project configuration.
    pub config: SupabaseConfig,
}

/// Real credentials have replaced both placeholders.
pub open spec fn credentials_ready(url: Seq<char>, key: Seq<char>) -> bool {
    !seq_contains_run(url, URL_PLACEHOLDER@) && !seq_contains_run(key, KEY_PLACEHOLDER@)
}

impl SupabaseLobbyAdapter {
    /// Builds the adapter from the repository's public placeholders.
    pub fn configured() -> (adapter: Result<SupabaseLobbyAdapter, ConfigError>)
        ensures
            adapter is Ok,
            adapter matches Ok(a) ==> a.config.url@ == SUPABASE_URL@
                && a.config.publishable_key@ == SUPABASE_PUBLISHABLE_KEY@,
    {
        proof {
            reveal_strlit("https://your-project-ref.supabase.co");
            reveal_strlit("sb_publishable_replace-me");
        }
        match SupabaseConfig::new(SUPABASE_URL, SUPABASE_PUBLISHABLE_KEY) {
            Ok(config) => Ok(SupabaseLobbyAdapter { config }),
            Err(error) => Err(error),
        }
    }

    /// Returns whether real project credentials have replaced the placeholders.
    pub fn is_ready(&self) -> (ready: bool)
        ensures
            ready == credentials_ready(self.config.url@, self.config.publishable_key@),
    {
        !str_contains(self.config.url.as_str(), URL_PLACEHOLDER)
            && !str_contains(self.config.publishable_key.as_str(), KEY_PLACEHOLDER)
    }
}

} // verus!
