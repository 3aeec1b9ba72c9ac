use vstd::prelude::*;

verus! {

/// The answer to an authenticate request.
pub struct Response {
    pub access_token: Option<String>,
    pub client_token: Option<String>,
    pub available_profiles: Option<Vec<AvailableProfiles>>,
    pub user: Option<User>,
    pub error: Option<String>,
    pub error_message: Option<String>,
}

/// A game profile of the account.
pub struct AvailableProfiles {
    pub id: String,
    pub name: String,
}

/// The account's user record.
pub struct User {
    pub id: String,
    pub properties: Vec<u8>,
}

} // verus!
