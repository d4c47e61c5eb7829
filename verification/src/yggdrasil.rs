//! Authentication data as the launcher core consumes it: a profile, a
//! session's access token, and the offline authenticator, which
//! derives a stable player identity from the chosen name.

use vstd::prelude::*;

use crate::versions::Error;

verus! {

/// The name-based identifier the offline authenticator derives for a
/// player name: the version-5 identifier under the OID namespace, in
/// simple (32 hexadecimal digits) form.
pub uninterp spec fn uuid_v5_oid_hex(name: Seq<char>) -> Seq<char>;

/// Relies on `uuid::Uuid::new_v5` with the OID namespace and
/// `uuid::fmt::Simple`: the identifier is a function of the name
/// alone, and formats as exactly 32 hexadecimal digits.
#[verifier::external_body]
fn name_based_uuid(name: &str) -> (r: String)
    ensures
        r@ == uuid_v5_oid_hex(name@),
        r@.len() == 32,
{
    uuid::Uuid::new_v5(&uuid::Uuid::NAMESPACE_OID, name.as_bytes()).simple().to_string()
}

/// Relies on `uuid::Uuid::new_v4` and `uuid::fmt::Simple`: a freshly
/// drawn random identifier; nothing holds of its value beyond its
/// simple form of 32 hexadecimal digits.
#[verifier::external_body]
fn random_uuid() -> (r: String)
    ensures
        r@.len() == 32,
{
    uuid::Uuid::new_v4().simple().to_string()
}

/// A player profile: identifier, name, and opaque profile properties.
#[derive(Debug)]
pub struct Profile {
    pub uuid: String,
    pub name: String,
    pub properties: Vec<(String, String)>,
}

impl Profile {
    /// Assemble a profile.
    pub fn new(uuid: String, name: String, properties: Vec<(String, String)>) -> (r: Profile)
        ensures
            r.uuid@ == uuid@,
            r.name@ == name@,
            r.properties == properties,
    {
        Profile { uuid, name, properties }
    }

    /// The profile's identifier.
    pub fn uuid(&self) -> (r: &String)
        ensures
            r@ == self.uuid@,
    {
        &self.uuid
    }

    /// The profile's player name.
    pub fn name(&self) -> (r: &String)
        ensures
            r@ == self.name@,
    {
        &self.name
    }

    /// The profile's properties.
    pub fn properties(&self) -> (r: &Vec<(String, String)>)
        ensures
            r == self.properties,
    {
        &self.properties
    }
}

/// An authenticated session: the access token and the profile it
/// belongs to.
#[derive(Debug)]
pub struct AuthInfo {
    pub access_token: String,
    pub user_profile: Profile,
}

impl AuthInfo {
    /// Assemble a session.
    pub fn new(access_token: String, user_profile: Profile) -> (r: AuthInfo)
        ensures
            r.access_token@ == access_token@,
            r.user_profile == user_profile,
    {
        AuthInfo { access_token, user_profile }
    }

    /// The session's access token.
    pub fn access_token(&self) -> (r: &String)
        ensures
            r@ == self.access_token@,
    {
        &self.access_token
    }

    /// The session's profile.
    pub fn user_profile(&self) -> (r: &Profile)
        ensures
            r == self.user_profile,
    {
        &self.user_profile
    }
}

/// Authenticates without any account: the profile identifier is
/// derived from the chosen name, the access token drawn fresh.
pub struct OfflineAuthenticator {
    pub offline_name: String,
}

impl OfflineAuthenticator {
    /// Produce an offline session: the name's derived identifier, no
    /// properties, and a fresh access token of 32 hexadecimal digits.
    /// Never fails.
    pub fn auth(&self) -> (r: Result<AuthInfo, Error>)
        ensures
            ({
                match r {
                    Result::Ok(a) => a.user_profile.name@ == self.offline_name@
                        && a.user_profile.uuid@ == uuid_v5_oid_hex(self.offline_name@)
                        && a.user_profile.properties@.len() == 0 && a.access_token@.len() == 32,
                    Result::Err(_) => false,
                }
            }),
    {
        let access_token = random_uuid();
        let uuid = name_based_uuid(self.offline_name.as_str());
        let profile = Profile::new(uuid, self.offline_name.clone(), Vec::new());
        Result::Ok(AuthInfo::new(access_token, profile))
    }
}

/// An authenticator for the given offline player name.
pub fn offline(offline_name: &str) -> (r: OfflineAuthenticator)
    ensures
        r.offline_name@ == offline_name@,
{
    OfflineAuthenticator { offline_name: String::from_str(offline_name) }
}

} // verus!
