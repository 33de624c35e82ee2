//! What an endpoint knows of a request.

use vstd::prelude::*;

use crate::model::config::Config;
use crate::text::{opt_str_view, opt_view};

verus! {

/// The name of the endpoint that speaks as the IDE.
pub const IDE_ENDPOINT_NAME: &'static str = "ide";

/// The name of the endpoint that speaks as the command line client.
pub const CLI_ENDPOINT_NAME: &'static str = "cli";

/// What endpoints read of a credential.
#[derive(Debug, PartialEq, Eq)]
pub struct KiroCredentials {
    /// The region of its API requests, if not that of the configuration.
    pub api_region: Option<String>,
    /// The profile that its requests name.
    pub profile_arn: Option<String>,
    /// The credential is an API key.
    pub api_key: bool,
    /// The credential comes from an identity provider outside of the service.
    pub external_idp: bool,
}

impl Default for KiroCredentials {
    fn default() -> (r: Self)
        ensures
            r.api_region is None,
            r.profile_arn is None,
            !r.api_key,
            !r.external_idp,
    {
        KiroCredentials { api_region: None, profile_arn: None, api_key: false, external_idp: false }
    }
}

/// The region of API requests.
pub open spec fn api_region(credentials: KiroCredentials, config: Config) -> Seq<char> {
    match credentials.api_region {
        Some(region) => region@,
        None => match config.api_region {
            Some(region) => region@,
            None => config.region@,
        },
    }
}

impl KiroCredentials {
    /// The region of API requests.
    pub fn effective_api_region<'a>(&'a self, config: &'a Config) -> (r: &'a str)
        ensures
            r@ == api_region(*self, *config),
    {
        match &self.api_region {
            Some(region) => region.as_str(),
            None => config.effective_api_region(),
        }
    }

    /// The profile that requests name.
    pub fn effective_profile_arn(&self) -> (r: Option<&str>)
        ensures
            opt_str_view(r) == opt_view(self.profile_arn),
    {
        match &self.profile_arn {
            Some(arn) => Some(arn.as_str()),
            None => None,
        }
    }
}

/// What an endpoint knows of a request.
pub struct RequestContext<'a> {
    pub credentials: &'a KiroCredentials,
    pub token: &'a str,
    pub machine_id: &'a str,
    pub config: &'a Config,
}

} // verus!
