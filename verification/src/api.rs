//! Plain-value mirrors of what the third-party collaborators report: the
//! remote identity service's user records and the moderation screen's
//! verdicts. The HTTP calls themselves live outside the library; callers
//! hand the decoded payloads to the functions here.

use vstd::prelude::*;

verus! {

/// A user record as the remote identity service reports it.
pub struct User {
    pub id: String,
    pub login: String,
    pub display_name: String,
    pub type_field: String,
    pub broadcaster_type: String,
    pub description: String,
    pub profile_image_url: String,
    pub offline_image_url: String,
    pub view_count: i32,
    pub email: Option<String>,
    pub created_at: String,
}

/// The decoded payload of a user query against the remote identity
/// service.
pub struct GetUsersResponse {
    pub data: Vec<User>,
}

/// The user a query response designates: the first entry, a query by login
/// returning at most one.
pub fn first_user(resp: GetUsersResponse) -> (r: Option<User>)
    ensures
        resp.data@.len() == 0 ==> r is None,
        resp.data@.len() > 0 ==> (r matches Some(u) && u == resp.data@[0]),
{
    let mut data = resp.data;
    if data.len() == 0 {
        None
    } else {
        Some(data.remove(0))
    }
}

/// The outcome of a lookup against the remote identity service, as the
/// dispatching caller hands it to the verified behaviors.
pub enum LookupOutcome {
    /// The service answered and knows the login.
    Found { user: User },
    /// The service answered and does not know the login.
    NotFound,
    /// The service could not be reached.
    Unreachable,
}

/// The verdict of the moderation screen on a piece of text.
pub enum ModerationOutcome {
    Allowed,
    Disallowed,
    Unreachable,
}

/// What the moderation service reported about one message.
pub struct BanphraseResponse {
    pub banned: bool,
    pub input_message: String,
    pub banphrase_data: Option<BanphraseData>,
}

/// The matched rule a positive moderation response carries.
pub struct BanphraseData {
    pub id: i32,
    pub name: String,
    pub phrase: String,
    pub length: i32,
    pub permanent: bool,
    pub operator: String,
    pub case_sensitive: bool,
}

/// The verdict a decoded moderation response amounts to: the service's
/// `banned` flag decides.
pub fn screen_verdict(resp: &BanphraseResponse) -> (r: ModerationOutcome)
    ensures
        r == (if resp.banned {
            ModerationOutcome::Disallowed
        } else {
            ModerationOutcome::Allowed
        }),
{
    if resp.banned {
        ModerationOutcome::Disallowed
    } else {
        ModerationOutcome::Allowed
    }
}

} // verus!
