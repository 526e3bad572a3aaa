//! The configuration of a run, checked once before anything is asked.

use crate::error::{result_view, AppError, AppErrorView, ErrorKind};
use crate::ipv4::Ipv4;
use crate::text::{ends_in, ends_with, pieces, split};
use vstd::prelude::*;
use vstd::string::*;

verus! {

/// What a run works on.
#[derive(Debug, PartialEq, Eq)]
pub struct AppConfig {
    /// The key that the update API knows the caller by.
    pub gandi_api_key: String,
    /// The address to set; where there is none, a run finds out the
    /// caller's public address first.
    pub domain_ip: Option<Ipv4>,
    /// The zone, fully qualified: it ends with a dot.
    pub domain_fqdn: String,
    /// The names of the records to keep up to date, in the order in which
    /// they are gone through.
    pub domain_dynamic_items: Vec<String>,
}

/// An [`AppConfig`] as a mathematical value.
pub ghost struct AppConfigView {
    pub gandi_api_key: Seq<char>,
    pub domain_ip: Option<Ipv4>,
    pub domain_fqdn: Seq<char>,
    pub domain_dynamic_items: Seq<Seq<char>>,
}

impl View for AppConfig {
    type V = AppConfigView;

    open spec fn view(&self) -> AppConfigView {
        AppConfigView {
            gandi_api_key: self.gandi_api_key@,
            domain_ip: self.domain_ip,
            domain_fqdn: self.domain_fqdn@,
            domain_dynamic_items: self.domain_dynamic_items.deep_view(),
        }
    }
}

/// A failure of kind `Config` with the message `msg`.
pub open spec fn config_error(msg: Seq<char>) -> AppErrorView {
    AppErrorView { kind: ErrorKind::Config, msg }
}

impl AppConfigView {
    /// The configuration that the four raw values stand for, or what is
    /// wrong with the first of them that is wrong. The key, the zone and the
    /// record names are required; the address is not, but where it is given
    /// it has to be one; the zone has to end with a dot. The record names
    /// are the pieces of `items` between commas.
    pub open spec fn from_env(
        api_key: Option<Seq<char>>,
        ip: Option<Seq<char>>,
        fqdn: Option<Seq<char>>,
        items: Option<Seq<char>>,
    ) -> Result<AppConfigView, AppErrorView> {
        if api_key is None {
            Err(config_error("Configuration entry `gandi_api_key` is missing"@))
        } else if ip is Some && Ipv4::from_text(ip->0) is None {
            Err(
                config_error(
                    "Configuration entry `domain_ip` is not a valid IPv4 address: "@ + ip->0,
                ),
            )
        } else if fqdn is None {
            Err(config_error("Configuration entry `domain_fqdn` is missing"@))
        } else if items is None {
            Err(config_error("Configuration entry `domain_dynamic_items` is missing"@))
        } else if !ends_in(fqdn->0, '.') {
            Err(
                config_error(
                    "Configuration entry `domain_fqdn` does not end with '.': "@ + fqdn->0,
                ),
            )
        } else {
            Ok(
                AppConfigView {
                    gandi_api_key: api_key->0,
                    domain_ip: match ip {
                        Some(text) => Ipv4::from_text(text),
                        None => None,
                    },
                    domain_fqdn: fqdn->0,
                    domain_dynamic_items: pieces(items->0, ','),
                },
            )
        }
    }
}

impl AppConfig {
    /// Checks the four raw values of the configuration, each `None` where
    /// it is not set, and puts them together.
    pub fn from_env(
        api_key: Option<String>,
        ip: Option<String>,
        fqdn: Option<String>,
        items: Option<String>,
    ) -> (r: Result<AppConfig, AppError>)
        ensures
            result_view(r) == AppConfigView::from_env(
                api_key.deep_view(),
                ip.deep_view(),
                fqdn.deep_view(),
                items.deep_view(),
            ),
    {
        let gandi_api_key = match api_key {
            Some(key) => key,
            None => {
                return Err(
                    AppError::new(
                        ErrorKind::Config,
                        "Configuration entry `gandi_api_key` is missing",
                    ),
                );
            },
        };
        let domain_ip = match ip {
            Some(text) => match Ipv4::parse(text.as_str()) {
                Some(addr) => Some(addr),
                None => {
                    let mut msg = String::from_str(
                        "Configuration entry `domain_ip` is not a valid IPv4 address: ",
                    );
                    msg.append(text.as_str());
                    return Err(AppError { kind: ErrorKind::Config, msg });
                },
            },
            None => None,
        };
        let domain_fqdn = match fqdn {
            Some(name) => name,
            None => {
                return Err(
                    AppError::new(
                        ErrorKind::Config,
                        "Configuration entry `domain_fqdn` is missing",
                    ),
                );
            },
        };
        let domain_dynamic_items = match items {
            Some(list) => split(list.as_str(), ','),
            None => {
                return Err(
                    AppError::new(
                        ErrorKind::Config,
                        "Configuration entry `domain_dynamic_items` is missing",
                    ),
                );
            },
        };
        if !ends_with(domain_fqdn.as_str(), '.') {
            let mut msg = String::from_str(
                "Configuration entry `domain_fqdn` does not end with '.': ",
            );
            msg.append(domain_fqdn.as_str());
            return Err(AppError { kind: ErrorKind::Config, msg });
        }
        Ok(AppConfig { gandi_api_key, domain_ip, domain_fqdn, domain_dynamic_items })
    }
}

} // verus!
