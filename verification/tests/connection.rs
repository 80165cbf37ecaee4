//! Connection options: secure defaults, the insecure preset, and credentials.

use opcua_tag_browser::{
    check_credentials_allowed, retry_interval_for_client, ConnectOptions, Credentials, Error, IdentityToken,
    MessageSecurityMode, Security, SecurityPolicy, TokenPolicy,
};

#[test]
fn default_is_encrypted_and_verifies_certs() {
    let options = ConnectOptions::default();
    assert!(options.security.is_encrypted());
    assert!(!options.trust_server_certs);
    assert!(options.verify_server_certs);
}

#[test]
fn insecure_is_plaintext_and_anonymous() {
    let options = ConnectOptions::insecure();
    assert_eq!(options.security, Security::NoSecurity);
    assert!(matches!(options.credentials, Credentials::Anonymous));
    assert!(!options.security.is_encrypted());
}

#[test]
fn debug_redacts_the_password() {
    let rendered = Credentials::user_name("collector", "hunter2").describe();
    assert!(rendered.contains("collector"));
    assert!(!rendered.contains("hunter2"));
}

#[test]
fn credentials_without_encryption_are_refused() {
    let options = ConnectOptions::default()
        .security(Security::Sign(SecurityPolicy::Basic256Sha256))
        .user_name("collector", "hunter2");

    assert!(matches!(check_credentials_allowed(&options), Err(Error::InsecureCredentials)));
}

#[test]
fn security_maps_to_wire_modes() {
    assert_eq!(Security::NoSecurity.mode(), MessageSecurityMode::NoSecurity);
    assert_eq!(Security::Sign(SecurityPolicy::Basic256Sha256).mode(), MessageSecurityMode::Sign);
    assert_eq!(
        Security::SignAndEncrypt(SecurityPolicy::Basic256Sha256).policy(),
        SecurityPolicy::Basic256Sha256
    );
}

#[test]
fn credentials_over_an_encrypted_channel_are_allowed() {
    let options = ConnectOptions::default().user_name("collector", "hunter2");
    assert!(check_credentials_allowed(&options).is_ok());
    let anonymous_plain = ConnectOptions::insecure();
    assert!(check_credentials_allowed(&anonymous_plain).is_ok());
}

#[test]
fn described_credentials_have_a_fixed_shape() {
    assert_eq!(Credentials::Anonymous.describe(), "Anonymous");
    assert_eq!(
        Credentials::user_name("op", "secret").describe(),
        "UserName { user: \"op\", password: \"<redacted>\", policy_id: \"username\" }"
    );
    assert_eq!(
        Credentials::user_name("a\"b", "secret").describe(),
        "UserName { user: \"a\\\"b\", password: \"<redacted>\", policy_id: \"username\" }"
    );
    let custom = Credentials::user_name("op", "secret").policy_id("p1");
    assert_eq!(
        custom.describe(),
        "UserName { user: \"op\", password: \"<redacted>\", policy_id: \"p1\" }"
    );
}

#[test]
fn described_user_names_escape_as_debug_does() {
    assert_eq!(
        Credentials::user_name("a\u{7}b", "secret").describe(),
        "UserName { user: \"a\\u{7}b\", password: \"<redacted>\", policy_id: \"username\" }"
    );
}

#[test]
fn tokens_carry_user_and_policy() {
    let creds = Credentials::user_name("op", "secret");
    match creds.identity_token() {
        IdentityToken::UserName(u, p) => {
            assert_eq!(u, "op");
            assert_eq!(p, "secret");
        }
        IdentityToken::Anonymous => panic!("expected a user-name token"),
    }
    match creds.token_policy() {
        TokenPolicy::UserName { policy_id } => assert_eq!(policy_id, "username"),
        TokenPolicy::Anonymous => panic!("expected a user-name policy"),
    }
    assert!(matches!(Credentials::Anonymous.identity_token(), IdentityToken::Anonymous));
}

#[test]
fn retry_limit_below_minus_one_is_clamped() {
    assert_eq!(ConnectOptions::default().session_retry_limit(-5).session_retry_limit, -1);
    assert_eq!(ConnectOptions::default().session_retry_limit(3).session_retry_limit, 3);
    assert_eq!(retry_interval_for_client(2000), 2000);
    assert_eq!(retry_interval_for_client((1u64 << 32) + 7), 7);
}
