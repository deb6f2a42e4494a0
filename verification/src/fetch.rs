use vstd::prelude::*;

verus! {

/// Why fetching the planner feed failed. Configuration problems, transport
/// problems and protocol problems are distinct, and all of them are fatal at
/// startup; the caller maps each variant to its diagnostic and exits.
#[derive(Clone, Copy, PartialEq, Eq, Structural, Debug)]
pub enum FetchError {
    /// The base-URL environment variable is not set.
    MissingBaseUrl,
    /// The base-URL environment variable does not parse as a URL.
    InvalidBaseUrl,
    /// The access-token environment variable is not set.
    MissingToken,
    /// The server answered 401: the access token is not valid.
    InvalidToken,
    /// The server answered 404: the base URL or path is wrong.
    NotFound,
    /// The server answered some other non-success status.
    UnexpectedStatus(u16),
    /// The request could not be sent or no response came back.
    Network,
    /// The response body did not decode as planner items.
    MalformedBody,
}

/// How a response status is read: 200 is success, 401 an invalid credential,
/// 404 an invalid base URL or path, and every other status an unexpected
/// protocol failure carrying the status itself.
pub open spec fn spec_classify_status(status: u16) -> Result<(), FetchError> {
    if status == 200 {
        Ok(())
    } else if status == 401 {
        Err(FetchError::InvalidToken)
    } else if status == 404 {
        Err(FetchError::NotFound)
    } else {
        Err(FetchError::UnexpectedStatus(status))
    }
}

pub fn classify_status(status: u16) -> (r: Result<(), FetchError>)
    ensures
        r == spec_classify_status(status),
{
    match status {
        200u16 => Ok(()),
        401u16 => Err(FetchError::InvalidToken),
        404u16 => Err(FetchError::NotFound),
        _ => Err(FetchError::UnexpectedStatus(status)),
    }
}

} // verus!
