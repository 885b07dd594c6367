//! Shared data contracts: the access token and the small record types
//! that several endpoint families have in common.  These carry no
//! behaviour; they are plain aggregates of primitive fields.

use vstd::prelude::*;

use crate::error::Error;
use crate::json::{
    lookup_number, lookup_string, parse_json_object, spec_number_member,
    spec_parse_object, spec_string_member,
};
use vstd::string::StringExecFns;
use vstd::utf8::encode_utf8;

verus! {

/// A bearer token obtained from the authentication exchange, or supplied
/// directly.  The client does not check that a token is valid.
#[derive(Debug, Clone, PartialEq, Eq)]
pub struct AccessToken {
    /// The token placed in the `Authorization` header.
    pub access_token: String,
    /// The token used to obtain a fresh access token.
    pub refresh_token: String,
    /// The scheme of the token, normally `bearer`.
    pub token_type: String,
    /// Seconds until the token expires.
    pub expires_in: u64,
}

impl AccessToken {
    /// Builds a token from its four fields.
    pub fn new(access_token: String, refresh_token: String, token_type: String, expires_in: u64) -> (r:
        AccessToken)
        ensures
            r == (AccessToken { access_token, refresh_token, token_type, expires_in }),
    {
        AccessToken { access_token, refresh_token, token_type, expires_in }
    }
}

/// The token fields carried by an authentication response body: present
/// exactly when the body is one flat JSON object with string members
/// `access_token`, `refresh_token` and `token_type` and numeric member
/// `expires_in`.
pub open spec fn token_fields_of_json(bytes: Seq<u8>) -> Option<(Seq<char>, Seq<char>, Seq<char>, u64)> {
    match spec_parse_object(bytes) {
        None => None,
        Some(ms) => {
            let access = spec_string_member(ms, encode_utf8("access_token"@));
            let refresh = spec_string_member(ms, encode_utf8("refresh_token"@));
            let ttype = spec_string_member(ms, encode_utf8("token_type"@));
            let expires = spec_number_member(ms, encode_utf8("expires_in"@));
            if access is Some && refresh is Some && ttype is Some && expires is Some {
                Some((access->0, refresh->0, ttype->0, expires->0))
            } else {
                None
            }
        },
    }
}

impl AccessToken {
    /// Reads a token from a response body in canonical flat JSON form:
    /// one object, no surrounding whitespace, no string escapes, string
    /// and unsigned-integer members only.  Anything else is a
    /// deserialization error here; the shell decodes general JSON token
    /// responses with its own codec and installs the fields through
    /// [`crate::client::Client::set_token`].
    pub fn from_json(bytes: &[u8]) -> (r: Result<AccessToken, Error>)
        ensures
            match r {
                Ok(t) => token_fields_of_json(bytes@) == Some(
                    (t.access_token@, t.refresh_token@, t.token_type@, t.expires_in),
                ),
                Err(e) => token_fields_of_json(bytes@) is None && e is Deserialization,
            },
    {
        match parse_json_object(bytes) {
            None => Err(
                Error::Deserialization {
                    detail: String::from_str("the token response is not a flat JSON object"),
                },
            ),
            Some(members) => {
                let access = lookup_string(&members, "access_token");
                let refresh = lookup_string(&members, "refresh_token");
                let ttype = lookup_string(&members, "token_type");
                let expires = lookup_number(&members, "expires_in");
                match (access, refresh, ttype, expires) {
                    (Some(access_token), Some(refresh_token), Some(token_type), Some(expires_in)) => Ok(
                        AccessToken { access_token, refresh_token, token_type, expires_in },
                    ),
                    _ => Err(
                        Error::Deserialization {
                            detail: String::from_str("the token response misses a token field"),
                        },
                    ),
                }
            },
        }
    }
}

/// An opaque pagination cursor.
#[derive(Debug, Clone, PartialEq, Eq)]
pub struct Cursor(pub String);

/// One rendition of an image.
#[derive(Debug, Clone, PartialEq, Eq)]
pub struct ImageSize {
    /// The image width in pixels.
    pub width: u32,
    /// The image height in pixels.
    pub height: u32,
    /// The URL of the image at this size.
    pub url: String,
}

/// An image in multiple sizes.
#[derive(Debug, Clone, PartialEq, Eq)]
pub struct Image {
    /// The available sizes, largest first.
    pub sizes: Vec<ImageSize>,
}

/// A regional store.
#[derive(Debug, Clone, PartialEq, Eq)]
pub struct Country {
    /// The ISO country code.
    pub code: String,
    /// The display name of the country.
    pub name: String,
}

/// The discipline of a film contributor.
#[derive(Debug, Clone, Copy, PartialEq, Eq, Structural)]
pub enum ContributionType {
    Director,
    CoDirector,
    Actor,
    Producer,
    Writer,
    Editor,
    Cinematography,
    Composer,
    Sound,
    Costumes,
    MakeUp,
    Studio,
}

/// A contributor to a film, in summary form.
#[derive(Debug, Clone, PartialEq, Eq)]
pub struct ContributorSummary {
    /// The LID of the contributor.
    pub id: String,
    /// The name of the contributor.
    pub name: String,
    /// The name of the character, when the contribution is a role.
    pub character_name: Option<String>,
}

/// Whether a member filter also covers the member's friends.
#[derive(Debug, Clone, Copy, PartialEq, Eq, Structural)]
pub enum IncludeFriends {
    /// Only the member's own account.
    Exclude,
    /// Only the member's friends.
    Only,
    /// The member and their friends.
    All,
}

/// A streaming or purchasing service.
#[derive(Debug, Clone, PartialEq, Eq)]
pub struct Service {
    /// The ID of the service.
    pub id: String,
    /// The display name of the service.
    pub name: String,
}

/// A member, in summary form.
#[derive(Debug, Clone, PartialEq, Eq)]
pub struct MemberSummary {
    /// The LID of the member.
    pub id: String,
    /// The username of the member.
    pub username: String,
    /// The display name of the member.
    pub display_name: String,
}

/// A member's relationship to a film, in summary form.
#[derive(Debug, Clone, PartialEq, Eq)]
pub struct MemberFilmRelationship {
    /// The member.
    pub member: MemberSummary,
    /// Whether the member has watched the film.
    pub watched: bool,
    /// Whether the member likes the film.
    pub liked: bool,
}

} // verus!
