//! Public configuration of the online lobby service.

use vstd::prelude::*;

verus! {

/// Project address used until a real project is configured.
pub const SUPABASE_URL: &'static str = "https://your-project-ref.supabase.co";

/// Publishable key used until a real project is configured.
pub const SUPABASE_PUBLISHABLE_KEY: &'static str = "sb_publishable_replace-me";

/// Why a lobby service configuration was rejected.
#[derive(Debug, Clone, Copy, PartialEq, Eq, Structural)]
pub enum ConfigError {
    /// The project address is empty.
    MissingUrl,
    /// The publishable key is empty.
    MissingPublishableKey,
}

/// Validated public project configuration.
#[derive(Debug, Clone)]
pub struct SupabaseConfig {
    /// Project address.
    pub url: String,
    /// Publishable (client-side) key.
    pub publishable_key: String,
}

impl SupabaseConfig {
    /// Accepts a project address and publishable key, rejecting empty values.
    pub fn new(url: &str, publishable_key: &str) -> (config: Result<SupabaseConfig, ConfigError>)
        ensures
            url@.len() == 0 ==> config == Err::<SupabaseConfig, ConfigError>(ConfigError::MissingUrl),
            url@.len() > 0 && publishable_key@.len() == 0 ==> config == Err::<
                SupabaseConfig,
                ConfigError,
            >(ConfigError::MissingPublishableKey),
            config is Ok <==> (url@.len() > 0 && publishable_key@.len() > 0),
            config matches Ok(c) ==> c.url@ == url@ && c.publishable_key@ == publishable_key@,
    {
        if url.unicode_len() == 0 {
            return Err(ConfigError::MissingUrl);
        }
        if publishable_key.unicode_len() == 0 {
            return Err(ConfigError::MissingPublishableKey);
        }
        Ok(SupabaseConfig { url: String::from_str(url), publishable_key: String::from_str(publishable_key) })
    }
}

} // verus!
