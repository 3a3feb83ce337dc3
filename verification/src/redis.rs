//! The client of the redis server.

use crate::errors::SrvError;
use vstd::prelude::*;

verus! {

#[verifier::external_type_specification]
#[verifier::external_body]
pub struct ExClient(redis::Client);

/// A client for the server at `url`, or nothing where the URL is refused.
///
/// Trusted: `redis::Client::open`, which reads the URL and opens no connection. Which
/// URLs it takes depends on the platform it was built for, so nothing is claimed of the
/// result.
#[verifier::external_body]
fn open_client(url: &str) -> Option<redis::Client> {
    redis::Client::open(url).ok()
}

/// What becomes of an attempt to make a client: the client itself, or an internal
/// failure where there is none, for then the URL of the settings is wrong.
pub fn client_or_failure(opened: Option<redis::Client>) -> (r: Result<redis::Client, SrvError>)
    ensures
        match opened {
            Some(client) => r matches Ok(same) && same == client,
            None => r matches Err(error) && error is InternalServerError,
        },
{
    match opened {
        Some(client) => Ok(client),
        None => Err(SrvError::InternalServerError),
    }
}

/// The client for the redis server of the settings. A URL that the client refuses is
/// an internal failure: the settings are wrong. No connection is opened yet.
pub fn connect(redis_url: &str) -> (r: Result<redis::Client, SrvError>)
    ensures
        r matches Err(error) ==> error is InternalServerError,
{
    client_or_failure(open_client(redis_url))
}

} // verus!
