//! Messages of the authentication service, and the decisions taken on its answers.

pub mod msg;
pub mod refresh;

use vstd::prelude::*;

verus! {

/// Where an authenticate answer leaves the login.
pub enum AuthenticateStep {
    /// The login failed; with the service's error when it named one.
    Failed(Option<String>),
    /// The account is known: one of its profiles is to be chosen and confirmed.
    ChooseProfile {
        access_token: String,
        client_token: String,
        profiles: Vec<msg::authenticate::AvailableProfiles>,
    },
}

/// Decides on an authenticate answer: an error fails the login; otherwise the tokens,
/// profiles and user must all be there to go on to choosing a profile.
pub fn after_authenticate(resp: msg::authenticate::Response) -> (r: AuthenticateStep)
    ensures
        match r {
            AuthenticateStep::Failed(e) => if resp.error is Some {
                e == resp.error
            } else {
                e is None && !(resp.access_token is Some && resp.client_token is Some
                    && resp.available_profiles is Some && resp.user is Some)
            },
            AuthenticateStep::ChooseProfile { access_token, client_token, profiles } => {
                &&& resp.error is None
                &&& resp.user is Some
                &&& resp.access_token == Some(access_token)
                &&& resp.client_token == Some(client_token)
                &&& resp.available_profiles == Some(profiles)
            },
        },
{
    if resp.error.is_some() {
        return AuthenticateStep::Failed(resp.error);
    }
    match (resp.access_token, resp.client_token, resp.available_profiles, resp.user) {
        (Some(access_token), Some(client_token), Some(profiles), Some(_)) => {
            AuthenticateStep::ChooseProfile { access_token, client_token, profiles }
        },
        _ => AuthenticateStep::Failed(None),
    }
}

/// Decides on a refresh answer: the confirmed profile's name, or the service's error
/// (`None` when it named none and no profile was confirmed).
pub fn after_refresh(resp: refresh::Response) -> (r: Result<String, Option<String>>)
    ensures
        match r {
            Ok(name) => resp.error is None && (resp.selected_profile matches Some(p) && p.name == name),
            Err(e) => if resp.error is Some {
                e == resp.error
            } else {
                e is None && resp.selected_profile is None
            },
        },
{
    if resp.error.is_some() {
        return Err(resp.error);
    }
    match resp.selected_profile {
        Some(p) => Ok(p.name),
        None => Err(None),
    }
}

} // verus!
