//! The configuration rules of the provider client. The client itself — the
//! HTTP transport, the query text and the response decoding — lives with the
//! process around the library; the rule for a well-formed configuration is
//! decided here.

use vstd::prelude::*;

verus! {

/// When the client may contact the provider over the network.
#[derive(Clone, Copy, PartialEq, Eq, Structural, Debug)]
pub enum ConnectMode {
    Auto,
    Never,
    Always,
}

impl ConnectMode {
    /// A client configuration is acceptable exactly when an access token is
    /// present or the mode forbids connecting anyway.
    pub fn credentials_sufficient(&self, has_access_token: bool) -> (r: bool)
        ensures
            r == (*self == ConnectMode::Never || has_access_token),
    {
        match self {
            ConnectMode::Never => true,
            _ => has_access_token,
        }
    }
}

} // verus!
