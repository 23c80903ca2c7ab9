//! Service-account credentials.
use vstd::prelude::*;
use vstd::string::*;

verus! {

/// The credentials of a service account.
pub struct Credentials {
    /// Identity of the service principal: issuer and subject of its tokens.
    pub client_id: String,
    /// Identifier of the signing key, carried as the `key` claim.
    pub key_id: String,
    /// URL of the token endpoint, also the audience of its tokens.
    pub token_uri: String,
    /// PEM-encoded RSA private key.
    pub private_key: String,
}

/// Why a set of credentials was refused.
#[derive(Debug, Clone, Copy, PartialEq, Eq, Structural)]
pub enum CredentialError {
    MissingClientId,
    MissingKeyId,
    MissingTokenUri,
    MissingPrivateKey,
}

impl Credentials {
    /// All four fields are present, that is non-empty.
    pub open spec fn wf(&self) -> bool {
        self.client_id@.len() > 0 && self.key_id@.len() > 0 && self.token_uri@.len() > 0
            && self.private_key@.len() > 0
    }

    /// Builds credentials from their four fields; the first empty field, in the
    /// order of the parameters, is reported.
    pub fn new(client_id: String, key_id: String, token_uri: String, private_key: String) -> (r:
        Result<Credentials, CredentialError>)
        ensures
            r is Ok <==> (client_id@.len() > 0 && key_id@.len() > 0 && token_uri@.len() > 0
                && private_key@.len() > 0),
            r matches Ok(c) ==> c.wf() && c.client_id@ == client_id@ && c.key_id@ == key_id@
                && c.token_uri@ == token_uri@ && c.private_key@ == private_key@,
            r == Err::<Credentials, _>(CredentialError::MissingClientId) <==> client_id@.len()
                == 0,
            r == Err::<Credentials, _>(CredentialError::MissingKeyId) <==> (client_id@.len() > 0
                && key_id@.len() == 0),
            r == Err::<Credentials, _>(CredentialError::MissingTokenUri) <==> (client_id@.len()
                > 0 && key_id@.len() > 0 && token_uri@.len() == 0),
            r == Err::<Credentials, _>(CredentialError::MissingPrivateKey) <==> (client_id@.len()
                > 0 && key_id@.len() > 0 && token_uri@.len() > 0 && private_key@.len() == 0),
    {
        if client_id.as_str().unicode_len() == 0 {
            Err(CredentialError::MissingClientId)
        } else if key_id.as_str().unicode_len() == 0 {
            Err(CredentialError::MissingKeyId)
        } else if token_uri.as_str().unicode_len() == 0 {
            Err(CredentialError::MissingTokenUri)
        } else if private_key.as_str().unicode_len() == 0 {
            Err(CredentialError::MissingPrivateKey)
        } else {
            Ok(Credentials { client_id, key_id, token_uri, private_key })
        }
    }
}

} // verus!
