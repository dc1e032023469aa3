//! Registry references, as far as they are decided here: the scheme of a
//! reference, what a credential allows, and the version that pins an image.
use crate::text::{concat2, has_prefix, owned, strip_prefix};
use crate::views::{optional, views};
use vstd::prelude::*;

verus! {

/// A reference without its scheme, and whether the registry is reached with
/// TLS: `http://` switches it off, `https://` or no scheme leaves it on.
pub open spec fn without_scheme(registry: Seq<char>) -> (bool, Seq<char>) {
    if has_prefix(registry, "http://"@) {
        (false, registry.subrange("http://"@.len() as int, registry.len() as int))
    } else if has_prefix(registry, "https://"@) {
        (true, registry.subrange("https://"@.len() as int, registry.len() as int))
    } else {
        (true, registry)
    }
}

/// Splits the scheme off a reference.
pub fn get_reference_and_registry(registry: &str) -> (r: (bool, String))
    ensures
        (r.0, r.1@) == without_scheme(registry@),
{
    match strip_prefix(registry, "http://") {
        Some(rest) => (false, rest),
        None => match strip_prefix(registry, "https://") {
            Some(rest) => (true, rest),
            None => (true, owned(registry)),
        },
    }
}

/// What the credential helper says of a registry.
#[derive(Debug, Clone)]
pub enum Credential {
    UsernamePassword(String, String),
    IdentityToken(String),
    NotConfigured,
    Failed(String),
}

/// Why no client could be made for a registry.
#[derive(Debug, Clone)]
pub enum RegistryError {
    /// The credential is an identity token, which is not supported.
    TokensUnsupported,
    /// The credential helper failed.
    CredentialFailed(String),
}

impl RegistryError {
    /// The error as a sentence.
    pub fn message(&self) -> (r: String)
        ensures
            r@ == match self {
                RegistryError::TokensUnsupported => "Cannot handle tokens"@,
                RegistryError::CredentialFailed(reason) => "Error fetching credential: "@
                    + reason@,
            },
    {
        match self {
            RegistryError::TokensUnsupported => owned("Cannot handle tokens"),
            RegistryError::CredentialFailed(reason) => concat2(
                "Error fetching credential: ",
                reason.as_str(),
            ),
        }
    }
}

/// The user and the password with which a client logs in, or nothing for an
/// anonymous client: a credential that is not configured is anonymous, an
/// identity token and a failure of the helper are errors.
pub fn get_client(credential: Credential) -> (r: Result<Option<(String, String)>, RegistryError>)
    ensures
        match credential {
            Credential::UsernamePassword(user, password) => r matches Ok(Some(login)) && login.0
                == user && login.1 == password,
            Credential::IdentityToken(_) => r matches Err(RegistryError::TokensUnsupported),
            Credential::NotConfigured => r matches Ok(None),
            Credential::Failed(reason) => r matches Err(RegistryError::CredentialFailed(text))
                && text == reason,
        },
{
    match credential {
        Credential::UsernamePassword(user, password) => Ok(Some((user, password))),
        Credential::IdentityToken(_) => Err(RegistryError::TokensUnsupported),
        Credential::NotConfigured => Ok(None),
        Credential::Failed(reason) => Err(RegistryError::CredentialFailed(reason)),
    }
}

/// The version that pins an image: `@` and the digest of the first layer of
/// its manifest, or nothing for a manifest without layers.
pub fn resolve_image_tag(digests: &Vec<String>) -> (r: Option<String>)
    ensures
        optional(r) == if views(digests@).len() > 0 {
            Some("@"@ + views(digests@)[0])
        } else {
            None
        },
{
    proof {
        assert(views(digests@).len() == digests@.len());
    }
    if digests.len() > 0 {
        Some(concat2("@", digests[0].as_str()))
    } else {
        None
    }
}

} // verus!
