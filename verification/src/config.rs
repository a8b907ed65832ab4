//! The settings of the service that renders avatars on request.

use crate::text::is_joined;
use vstd::prelude::*;

verus! {

#[verifier::external_type_specification]
#[verifier::external_body]
pub struct ExPathBuf(std::path::PathBuf);

/// The settings of the service.
pub struct Config {
    /// The key that a request has to present to change stored data.
    pub api_key: String,
    /// The port that the service listens on.
    pub port: u16,
    /// The token sent along with a nickname lookup.
    pub osm_token: String,
    /// The directory whose files are listed as propaganda.
    pub propaganda_path: std::path::PathBuf,
}

impl Config {
    /// The word that stands before the key in an authorization header.
    pub open spec fn scheme() -> Seq<char> {
        "Bearer "@
    }

    /// Whether a request with the given authorization header may change
    /// stored data: the header has to be there and to read `Bearer `
    /// followed by the key, letter for letter.
    pub fn authorizes(&self, authorization: Option<&str>) -> (granted: bool)
        ensures
            granted == match authorization {
                Some(header) => header@ == Config::scheme() + self.api_key@,
                None => false,
            },
    {
        match authorization {
            Some(header) => is_joined(header, "Bearer ", self.api_key.as_str()),
            None => false,
        }
    }
}

} // verus!
