//! The account at Cloudflare.
use crate::text::cat2;
use vstd::prelude::*;

verus! {

/// The account, the key to it, and the name that its workers go by.
#[derive(Debug)]
pub struct AppConfig {
    pub account_id: String,
    pub api_token: String,
    pub subdomain: String,
}

/// The words for a configuration that was never written.
pub fn not_found(path: &str) -> (r: String)
    ensures
        r@ == "No config found. Please run `gmf config` first.\nExpected at: "@ + path@,
{
    cat2("No config found. Please run `gmf config` first.\nExpected at: ", path)
}

/// Keeps the configuration that was read: nothing when its file is not there, and only
/// once.
pub fn load_config(config: &mut Option<AppConfig>, read: Option<AppConfig>, path: &str) -> (r:
    Result<(), String>)
    ensures
        r is Ok <==> read is Some && *old(config) is None,
        *final(config) == if r is Ok {
            read
        } else {
            *old(config)
        },
        r matches Err(e) ==> e@ == if read is None {
            "No config found. Please run `gmf config` first.\nExpected at: "@ + path@
        } else {
            "CONFIG already initialized"@
        },
{
    match read {
        None => Err(not_found(path)),
        Some(cfg) => {
            if config.is_some() {
                return Err("CONFIG already initialized".to_owned());
            }
            *config = Some(cfg);
            Ok(())
        },
    }
}

/// The configuration. It must have been loaded.
pub fn get_config(config: &Option<AppConfig>) -> (r: &AppConfig)
    requires
        config is Some,
    ensures
        *r == config->0,
{
    config.as_ref().unwrap()
}

}
