//! How a client session is secured and who it authenticates as.

use vstd::prelude::*;
use crate::error::Error;
use crate::text::{debug_quoted, debug_text, owned};

verus! {

/// The security policies a session can use.
#[derive(Debug, Clone, Copy, PartialEq, Eq, Structural)]
pub enum SecurityPolicy {
    /// A policy this client does not know.
    Unknown,
    /// No security.
    NoSecurity,
    /// `Aes128_Sha256_RsaOaep`.
    Aes128Sha256RsaOaep,
    /// `Basic256Sha256`.
    Basic256Sha256,
    /// `Aes256_Sha256_RsaPss`.
    Aes256Sha256RsaPss,
    /// `Basic128Rsa15`, deprecated.
    Basic128Rsa15,
    /// `Basic256`, deprecated.
    Basic256,
}

/// How messages are protected on the wire.
#[derive(Debug, Clone, Copy, PartialEq, Eq, Structural)]
pub enum MessageSecurityMode {
    /// Not a valid mode.
    Invalid,
    /// Neither signed nor encrypted.
    NoSecurity,
    /// Signed, sent in the clear.
    Sign,
    /// Signed and encrypted.
    SignAndEncrypt,
}

/// Message security applied to a session.
///
/// [`Security::NoSecurity`] leaves traffic in plaintext. The other two sign, and in
/// the encrypting case also encrypt, using the named policy.
#[derive(Debug, Clone, Copy, PartialEq, Eq, Structural)]
#[non_exhaustive]
pub enum Security {
    /// No signing and no encryption. Anyone on the network can read the traffic.
    NoSecurity,
    /// Messages are signed but sent in the clear.
    Sign(SecurityPolicy),
    /// Messages are signed and encrypted.
    SignAndEncrypt(SecurityPolicy),
}

impl Security {
    /// The policy of each mode: `None` for no security, else the one named.
    pub open spec fn spec_policy(self) -> SecurityPolicy {
        match self {
            Security::NoSecurity => SecurityPolicy::NoSecurity,
            Security::Sign(p) => p,
            Security::SignAndEncrypt(p) => p,
        }
    }

    /// The wire mode of each kind of security.
    pub open spec fn spec_mode(self) -> MessageSecurityMode {
        match self {
            Security::NoSecurity => MessageSecurityMode::NoSecurity,
            Security::Sign(_) => MessageSecurityMode::Sign,
            Security::SignAndEncrypt(_) => MessageSecurityMode::SignAndEncrypt,
        }
    }

    /// Returns the security policy this mode uses.
    pub fn policy(&self) -> (r: SecurityPolicy)
        ensures
            r == self.spec_policy(),
    {
        match self {
            Security::NoSecurity => SecurityPolicy::NoSecurity,
            Security::Sign(policy) => *policy,
            Security::SignAndEncrypt(policy) => *policy,
        }
    }

    /// Returns the message security mode this maps to on the wire.
    pub fn mode(&self) -> (r: MessageSecurityMode)
        ensures
            r == self.spec_mode(),
    {
        match self {
            Security::NoSecurity => MessageSecurityMode::NoSecurity,
            Security::Sign(_) => MessageSecurityMode::Sign,
            Security::SignAndEncrypt(_) => MessageSecurityMode::SignAndEncrypt,
        }
    }

    /// Whether traffic is encrypted, and so safe to carry a password.
    pub fn is_encrypted(&self) -> (r: bool)
        ensures
            r == (*self is SignAndEncrypt),
    {
        match self {
            Security::SignAndEncrypt(_) => true,
            _ => false,
        }
    }
}

/// How the client identifies itself to the server.
///
/// Its [`describe`](Self::describe) rendering leaves the password out so it
/// cannot reach a log by accident.
#[derive(Clone)]
#[non_exhaustive]
pub enum Credentials {
    /// No user identity; the server decides what an anonymous client may do.
    Anonymous,
    /// A user name and password, sent only over an encrypted channel.
    UserName {
        /// The user name.
        user: String,
        /// The password. Never appears in [`describe`](Self::describe).
        password: String,
        /// The server's identifier for its user-name token policy.
        policy_id: String,
    },
}

/// The default policy identifier used for user-name authentication.
pub open spec fn default_user_name_policy_id() -> Seq<char> {
    seq!['u', 's', 'e', 'r', 'n', 'a', 'm', 'e']
}

/// The token policy an endpoint description advertises.
#[derive(Debug)]
pub enum TokenPolicy {
    /// The client's anonymous policy.
    Anonymous,
    /// A user-name token under the given policy identifier.
    UserName {
        /// The server's identifier for its user-name token policy.
        policy_id: String,
    },
}

/// The identity presented when a session is activated.
pub enum IdentityToken {
    /// No identity.
    Anonymous,
    /// A user name and its password.
    UserName(String, String),
}

/// `<redacted>`, shown in place of a password.
pub open spec fn redacted() -> Seq<char> {
    seq!['<', 'r', 'e', 'd', 'a', 'c', 't', 'e', 'd', '>']
}

/// How credentials are described: the user and policy, never the password,
/// in the shape `Debug` gives a struct.
pub open spec fn describe_spec(c: Credentials) -> Seq<char> {
    match c {
        Credentials::Anonymous => seq!['A', 'n', 'o', 'n', 'y', 'm', 'o', 'u', 's'],
        Credentials::UserName { user, policy_id, .. } => seq!['U', 's', 'e', 'r', 'N', 'a', 'm', 'e', ' ', '{', ' ', 'u', 's', 'e', 'r', ':', ' ']
            + debug_text(user@) + seq![',', ' ', 'p', 'a', 's', 's', 'w', 'o', 'r', 'd', ':', ' '] + debug_text(redacted())
            + seq![',', ' ', 'p', 'o', 'l', 'i', 'c', 'y', '_', 'i', 'd', ':', ' '] + debug_text(policy_id@) + seq![' ', '}'],
    }
}

impl Credentials {
    /// The policy identifier [`user_name`](Self::user_name) sends, matching
    /// the common server default.
    pub const DEFAULT_USER_NAME_POLICY_ID: &'static str = "username";

    /// Creates user-name credentials with the default policy identifier.
    pub fn user_name(user: &str, password: &str) -> (r: Self)
        ensures
            r matches Credentials::UserName { user: u, password: p, policy_id: id } && u@ == user@ && p@
                == password@ && id@ == default_user_name_policy_id(),
    {
        proof {
            reveal_strlit("username");
        }
        let policy_id = owned(Self::DEFAULT_USER_NAME_POLICY_ID);
        assert(policy_id@ =~= default_user_name_policy_id());
        Credentials::UserName { user: owned(user), password: owned(password), policy_id }
    }

    /// Overrides the policy identifier sent with user-name credentials.
    ///
    /// A no-op on [`Credentials::Anonymous`].
    pub fn policy_id(self, id: &str) -> (r: Self)
        ensures
            match self {
                Credentials::Anonymous => r is Anonymous,
                Credentials::UserName { user, password, .. } => r matches Credentials::UserName {
                    user: u,
                    password: p,
                    policy_id: i,
                } && u == user && p == password && i@ == id@,
            },
    {
        match self {
            Credentials::Anonymous => Credentials::Anonymous,
            Credentials::UserName { user, password, .. } => Credentials::UserName {
                user,
                password,
                policy_id: owned(id),
            },
        }
    }

    /// Returns the token policy the endpoint description should advertise.
    pub fn token_policy(&self) -> (r: TokenPolicy)
        ensures
            match *self {
                Credentials::Anonymous => r is Anonymous,
                Credentials::UserName { policy_id, .. } => r matches TokenPolicy::UserName { policy_id: id }
                    && id == policy_id,
            },
    {
        match self {
            Credentials::Anonymous => TokenPolicy::Anonymous,
            Credentials::UserName { policy_id, .. } => TokenPolicy::UserName { policy_id: policy_id.clone() },
        }
    }

    /// Converts to the identity token sent when the session is activated.
    pub fn identity_token(&self) -> (r: IdentityToken)
        ensures
            match *self {
                Credentials::Anonymous => r is Anonymous,
                Credentials::UserName { user, password, .. } => r matches IdentityToken::UserName(u, p)
                    && u == user && p == password,
            },
    {
        match self {
            Credentials::Anonymous => IdentityToken::Anonymous,
            Credentials::UserName { user, password, .. } => IdentityToken::UserName(user.clone(), password.clone()),
        }
    }

    /// Describes the credentials for a log line, with the password replaced
    /// by `<redacted>`.
    pub fn describe(&self) -> (r: String)
        ensures
            r@ == describe_spec(*self),
    {
        match self {
            Credentials::Anonymous => {
                proof {
                    reveal_strlit("Anonymous");
                }
                let r = owned("Anonymous");
                assert(r@ =~= describe_spec(*self));
                r
            },
            Credentials::UserName { user, policy_id, .. } => {
                proof {
                    reveal_strlit("UserName { user: ");
                    reveal_strlit(", password: ");
                    reveal_strlit("<redacted>");
                    reveal_strlit(", policy_id: ");
                    reveal_strlit(" }");
                    assert("<redacted>"@ =~= redacted());
                }
                let mut r = owned("UserName { user: ");
                r.append(debug_quoted(user.as_str()).as_str());
                r.append(", password: ");
                r.append(debug_quoted("<redacted>").as_str());
                r.append(", policy_id: ");
                r.append(debug_quoted(policy_id.as_str()).as_str());
                r.append(" }");
                assert(r@ =~= describe_spec(*self));
                r
            },
        }
    }
}

/// Options for opening a client session.
///
/// [`Default`] signs and encrypts with `Basic256Sha256` and rejects untrusted
/// server certificates. Use [`insecure`](Self::insecure) for a plaintext server
/// on an isolated network; naming it keeps the choice visible in your source.
#[derive(Clone)]
#[non_exhaustive]
pub struct ConnectOptions {
    /// Application name presented to the server during the handshake.
    pub application_name: String,
    /// Application URI presented to the server. Must match the certificate's URI.
    pub application_uri: String,
    /// Session keep-alive timeout in milliseconds.
    pub session_timeout_ms: u32,
    /// Whether to generate a self-signed keypair if none exists on disk.
    pub create_sample_keypair: bool,
    /// Whether to accept any server certificate without validation.
    pub trust_server_certs: bool,
    /// Whether to verify server certificates against the trust store.
    pub verify_server_certs: bool,
    /// Message security applied to the session.
    pub security: Security,
    /// How the client identifies itself.
    pub credentials: Credentials,
    /// How many times the session retries a dropped connection before giving
    /// up, or `-1` for no limit.
    pub session_retry_limit: i32,
    /// Delay between reconnect attempts, in milliseconds.
    pub session_retry_interval_ms: u64,
}

/// `opcua-tag-browser`.
pub open spec fn default_application_name() -> Seq<char> {
    seq!['o', 'p', 'c', 'u', 'a', '-', 't', 'a', 'g', '-', 'b', 'r', 'o', 'w', 's', 'e', 'r']
}

/// `urn:opcua-tag-browser`.
pub open spec fn default_application_uri() -> Seq<char> {
    seq!['u', 'r', 'n', ':'] + default_application_name()
}

impl ConnectOptions {
    /// The settings of [`Default`] other than the two names.
    pub open spec fn spec_default_settings(o: ConnectOptions) -> bool {
        &&& o.session_timeout_ms == 30_000
        &&& o.create_sample_keypair
        &&& !o.trust_server_certs
        &&& o.verify_server_certs
        &&& o.security == Security::SignAndEncrypt(SecurityPolicy::Basic256Sha256)
        &&& o.credentials is Anonymous
        &&& o.session_retry_limit == 20
        &&& o.session_retry_interval_ms == 2000
    }

    /// Connects with no encryption or authentication, trusting any certificate.
    ///
    /// Appropriate on an isolated machine network with no PKI. Anyone able to
    /// see the traffic can read and forge it.
    pub fn insecure() -> (r: Self)
        ensures
            r.application_name@ == default_application_name(),
            r.application_uri@ == default_application_uri(),
            r.session_timeout_ms == 30_000,
            r.create_sample_keypair,
            r.trust_server_certs,
            !r.verify_server_certs,
            r.security == Security::NoSecurity,
            r.credentials is Anonymous,
            r.session_retry_limit == 20,
            r.session_retry_interval_ms == 2000,
    {
        let base = Self::default();
        ConnectOptions {
            trust_server_certs: true,
            verify_server_certs: false,
            security: Security::NoSecurity,
            credentials: Credentials::Anonymous,
            ..base
        }
    }

    /// Sets the application name.
    pub fn application_name(self, name: &str) -> (r: Self)
        ensures
            r == (ConnectOptions { application_name: r.application_name, ..self }),
            r.application_name@ == name@,
    {
        ConnectOptions { application_name: owned(name), ..self }
    }

    /// Sets the application URI.
    pub fn application_uri(self, uri: &str) -> (r: Self)
        ensures
            r == (ConnectOptions { application_uri: r.application_uri, ..self }),
            r.application_uri@ == uri@,
    {
        ConnectOptions { application_uri: owned(uri), ..self }
    }

    /// Sets the session keep-alive timeout in milliseconds.
    pub fn session_timeout_ms(self, ms: u32) -> (r: Self)
        ensures
            r == (ConnectOptions { session_timeout_ms: ms, ..self }),
    {
        ConnectOptions { session_timeout_ms: ms, ..self }
    }

    /// Sets the message security applied to the session.
    pub fn security(self, security: Security) -> (r: Self)
        ensures
            r == (ConnectOptions { security, ..self }),
    {
        ConnectOptions { security, ..self }
    }

    /// Authenticates with a user name and password.
    ///
    /// The password is only ever sent over an encrypted channel: with any other
    /// [`Security`], [`check_credentials_allowed`] refuses with
    /// [`Error::InsecureCredentials`] rather than transmitting it.
    pub fn user_name(self, user: &str, password: &str) -> (r: Self)
        ensures
            r == (ConnectOptions { credentials: r.credentials, ..self }),
            r.credentials matches Credentials::UserName { user: u, password: p, policy_id: id } && u@
                == user@ && p@ == password@ && id@ == default_user_name_policy_id(),
    {
        ConnectOptions { credentials: Credentials::user_name(user, password), ..self }
    }

    /// Sets the credentials directly.
    pub fn credentials(self, credentials: Credentials) -> (r: Self)
        ensures
            r == (ConnectOptions { credentials, ..self }),
    {
        ConnectOptions { credentials, ..self }
    }

    /// Accepts any server certificate without validating it.
    pub fn trust_server_certs(self, yes: bool) -> (r: Self)
        ensures
            r == (ConnectOptions { trust_server_certs: yes, ..self }),
    {
        ConnectOptions { trust_server_certs: yes, ..self }
    }

    /// Sets how many times a dropped connection is retried before giving up,
    /// or `-1` for no limit.
    ///
    /// Values below `-1` are raised to `-1`: the underlying client panics on
    /// them rather than erroring, so an invalid value is never forwarded.
    pub fn session_retry_limit(self, limit: i32) -> (r: Self)
        ensures
            r == (ConnectOptions { session_retry_limit: if limit < -1 { -1i32 } else { limit }, ..self }),
            r.session_retry_limit >= -1,
    {
        let limit = if limit < -1 { -1 } else { limit };
        ConnectOptions { session_retry_limit: limit, ..self }
    }

    /// Sets the delay between reconnect attempts, in milliseconds.
    pub fn session_retry_interval_ms(self, interval_ms: u64) -> (r: Self)
        ensures
            r == (ConnectOptions { session_retry_interval_ms: interval_ms, ..self }),
    {
        ConnectOptions { session_retry_interval_ms: interval_ms, ..self }
    }
}

impl Default for ConnectOptions {
    fn default() -> (r: Self)
        ensures
            r.application_name@ == default_application_name(),
            r.application_uri@ == default_application_uri(),
            Self::spec_default_settings(r),
    {
        proof {
            reveal_strlit("opcua-tag-browser");
            reveal_strlit("urn:opcua-tag-browser");
        }
        let application_name = owned("opcua-tag-browser");
        let application_uri = owned("urn:opcua-tag-browser");
        assert(application_name@ =~= default_application_name());
        assert(application_uri@ =~= default_application_uri());
        ConnectOptions {
            application_name,
            application_uri,
            session_timeout_ms: 30_000,
            create_sample_keypair: true,
            trust_server_certs: false,
            verify_server_certs: true,
            security: Security::SignAndEncrypt(SecurityPolicy::Basic256Sha256),
            credentials: Credentials::Anonymous,
            session_retry_limit: 20,
            session_retry_interval_ms: 2000,
        }
    }
}

/// Credentials other than anonymous may only travel over an encrypted channel.
pub open spec fn credentials_allowed(options: ConnectOptions) -> bool {
    options.credentials is Anonymous || options.security is SignAndEncrypt
}

/// Refuses options that would send a password over an unencrypted channel.
///
/// A password on an unencrypted channel is readable by anyone on the wire;
/// connecting fails with [`Error::InsecureCredentials`] before anything is sent.
pub fn check_credentials_allowed(options: &ConnectOptions) -> (r: Result<(), Error>)
    ensures
        r is Ok <==> credentials_allowed(*options),
        r is Err ==> r->Err_0 is InsecureCredentials,
{
    let anonymous = match &options.credentials {
        Credentials::Anonymous => true,
        _ => false,
    };
    if !anonymous && !options.security.is_encrypted() {
        return Err(Error::InsecureCredentials);
    }
    Ok(())
}

/// The reconnect interval the client builder takes, in milliseconds; larger
/// values keep their low 32 bits, as an `as u32` conversion does.
pub fn retry_interval_for_client(interval_ms: u64) -> (r: u32)
    ensures
        r == interval_ms as u32,
{
    interval_ms as u32
}

/// The rendering of two credentials that differ only in their password is
/// the same: the password never reaches it.
pub proof fn law_password_never_described(user: String, policy_id: String, a: String, b: String)
    ensures
        describe_spec(Credentials::UserName { user, password: a, policy_id }) == describe_spec(
            Credentials::UserName { user, password: b, policy_id },
        ),
{
}

} // verus!
