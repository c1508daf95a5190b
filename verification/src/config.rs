//! The front end's configuration: whether it talks to a back end, and where
//! that back end is.

use vstd::prelude::*;
use crate::stores::{integration_mode_of, IntegrationMode};
use crate::text::opt_text;

verus! {

/// The front end's configuration: the integration mode and, in production,
/// the back end's address as the URL parser writes it.
#[derive(Debug)]
pub struct AppConfig {
    pub integration_mode: IntegrationMode,
    pub backend_url: Option<String>,
}

/// What `url::Url::parse` makes of a text: the URL it writes back, or
/// `None` where the text is no URL.
pub uninterp spec fn parsed_url(s: Seq<char>) -> Option<Seq<char>>;

/// Trusted: calls `url::Url::parse(s)` and keeps the URL's text
/// (`Url::as_str`); an error becomes `None`.  What the parser accepts and
/// how it writes a URL back is not stated; it is named `parsed_url`.
#[verifier::external_body]
fn parse_url(s: &str) -> (r: Option<String>)
    ensures
        opt_text(r) == parsed_url(s@),
{
    url::Url::parse(s).ok().map(|u| u.as_str().to_owned())
}

/// The value of an optional setting.
pub open spec fn setting_text(o: Option<&str>) -> Option<Seq<char>> {
    match o {
        Some(s) => Some(s@),
        None => None,
    }
}

/// Whether the settings make a configuration: in production the back end's
/// address must be set and be a URL.
pub open spec fn config_complete(mode: Option<Seq<char>>, backend_url: Option<Seq<char>>) -> bool {
    let m = match mode {
        Some(t) => integration_mode_of(t),
        None => IntegrationMode::Test,
    };
    m == IntegrationMode::Production ==> (backend_url matches Some(u) && parsed_url(u) is Some)
}

/// The configuration the settings make: the mode they name (test where
/// none is set), and in production the back end's address as the URL parser
/// writes it.
pub open spec fn config_of(mode: Option<Seq<char>>, backend_url: Option<Seq<char>>) -> (IntegrationMode, Option<Seq<char>>) {
    let m = match mode {
        Some(t) => integration_mode_of(t),
        None => IntegrationMode::Test,
    };
    if m == IntegrationMode::Test {
        (m, None)
    } else {
        (m, parsed_url(backend_url.unwrap()))
    }
}

/// Makes the configuration from the integration mode setting and the back
/// end's address setting, each where it is set.
pub fn get_app_config(mode: Option<&str>, backend_url: Option<&str>) -> (r: AppConfig)
    requires
        config_complete(setting_text(mode), setting_text(backend_url)),
    ensures
        (r.integration_mode, opt_text(r.backend_url)) == config_of(setting_text(mode), setting_text(backend_url)),
        r.integration_mode == IntegrationMode::Production ==> r.backend_url is Some,
{
    let integration_mode = match mode {
        Some(m) => IntegrationMode::from(m),
        None => IntegrationMode::default(),
    };
    if integration_mode == IntegrationMode::Test {
        return AppConfig { integration_mode, backend_url: None };
    }
    let backend_url = match backend_url {
        Some(u) => parse_url(u),
        None => None,
    };
    AppConfig { integration_mode, backend_url }
}

/// Makes the configuration where the settings make one; `None` where the
/// mode is production and the back end's address is missing or no URL.
pub fn try_get_app_config(mode: Option<&str>, backend_url: Option<&str>) -> (r: Option<AppConfig>)
    ensures
        match r {
            Some(c) => config_complete(setting_text(mode), setting_text(backend_url)) && (
            c.integration_mode,
            opt_text(c.backend_url),
            ) == config_of(setting_text(mode), setting_text(backend_url)),
            None => !config_complete(setting_text(mode), setting_text(backend_url)),
        },
{
    let integration_mode = match mode {
        Some(m) => IntegrationMode::from(m),
        None => IntegrationMode::default(),
    };
    if integration_mode == IntegrationMode::Production {
        match backend_url {
            None => {
                return None;
            },
            Some(u) => {
                if parse_url(u).is_none() {
                    return None;
                }
            },
        }
    }
    Some(get_app_config(mode, backend_url))
}

} // verus!
