//! Plain data carried across the service's interfaces.

use vstd::prelude::*;

verus! {

/// Role an identity holds inside a community, as the membership oracle
/// reports it.
#[derive(Debug, Clone, Copy, PartialEq, Eq, Structural)]
pub enum UserRole {
    Owner,
    Admin,
    Member,
}

/// Claims carried by a bearer credential: the identity it was issued to and
/// when it expires.
#[derive(Debug, Clone)]
pub struct Claims {
    pub sub: i32,
    pub username: String,
    pub exp: i64,
}

/// Request to create a channel; the kind defaults to a text channel.
#[derive(Debug, Clone)]
pub struct CreateChannelDto {
    pub name: String,
    pub channel_type: String,
}

/// The channel kind used when a creation request names none.
pub fn default_channel_type() -> (r: String)
    ensures
        r@ == "text"@,
{
    String::from_str("text")
}

} // verus!
