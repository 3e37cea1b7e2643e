use xmpp_start::account::{is_valid_jid, AccountConfig};

// --- is_valid_jid -------------------------------------------------------

#[test]
fn valid_jid_accepted() {
    assert!(is_valid_jid("alice@example.com"));
    assert!(is_valid_jid("user@xmpp.server.org"));
    assert!(is_valid_jid("a@b.c"));
}

#[test]
fn jid_without_at_rejected() {
    assert!(!is_valid_jid("nodomainsign"));
    assert!(!is_valid_jid(""));
}

#[test]
fn jid_empty_local_rejected() {
    assert!(!is_valid_jid("@example.com"));
}

#[test]
fn jid_localhost_accepted() {
    assert!(is_valid_jid("user@localhost"));
    assert!(is_valid_jid("alice@127.0.0.1"));
}

#[test]
fn jid_domain_leading_trailing_dot_rejected() {
    assert!(!is_valid_jid("user@.example.com"));
    assert!(!is_valid_jid("user@example.com."));
}

#[test]
fn jid_with_two_at_signs_rejected() {
    assert!(!is_valid_jid("a@b@c.d"));
    assert!(!is_valid_jid("user@localhost@x"));
}

#[test]
fn jid_empty_domain_or_dotless_domain_rejected() {
    assert!(!is_valid_jid("user@"));
    assert!(!is_valid_jid("user@example"));
}

// --- AccountConfig::validate --------------------------------------------

#[test]
fn validate_ok_for_valid_jid() {
    let a = AccountConfig::new("alice@example.com");
    assert!(a.validate().is_ok());
}

#[test]
fn validate_err_for_invalid_jid() {
    let mut a = AccountConfig::new("alice@example.com");
    a.jid = "notajid".into();
    let err = a.validate().unwrap_err();
    assert!(err.contains("notajid"));
}

#[test]
fn validate_err_message_exact() {
    let mut a = AccountConfig::new("alice@example.com");
    a.jid = "bad".into();
    assert_eq!(
        a.validate().unwrap_err(),
        "Invalid JID \"bad\": must be in the form user@domain"
    );
}

#[test]
fn account_config_defaults() {
    let a = AccountConfig::new("alice@example.com");
    assert_eq!(a.jid, "alice@example.com");
    assert_eq!(a.password_key, "alice@example.com");
    assert!(a.enabled);
    assert!(a.proxy.is_none());
    assert!(a.color.is_none());
}
