use xmpp_start::omemo::{
    get_fingerprint, has_manually_trusted_device, resolve_initial_trust, save_fingerprint,
    set_trust, sync_device_list, upsert_device, verify_device, PeerDevice, TrustState,
};

#[test]
fn trust_state_roundtrip() {
    for state in &[
        TrustState::Undecided,
        TrustState::Tofu,
        TrustState::Trusted,
        TrustState::Untrusted,
        TrustState::BlindTrust,
    ] {
        assert_eq!(state.as_str().parse::<TrustState>().unwrap(), *state);
    }
}

#[test]
fn trust_state_encryptable() {
    assert!(TrustState::Tofu.is_encryptable());
    assert!(TrustState::Trusted.is_encryptable());
    assert!(TrustState::BlindTrust.is_encryptable());
    assert!(!TrustState::Undecided.is_encryptable());
    assert!(!TrustState::Untrusted.is_encryptable());
}

#[test]
fn trust_state_decryptable() {
    assert!(TrustState::Tofu.is_decryptable());
    assert!(TrustState::Trusted.is_decryptable());
    assert!(TrustState::BlindTrust.is_decryptable());
    assert!(!TrustState::Undecided.is_decryptable());
    assert!(!TrustState::Untrusted.is_decryptable());
}

#[test]
fn blind_trust_as_str() {
    assert_eq!(TrustState::BlindTrust.as_str(), "blind_trust");
}

#[test]
fn blind_trust_from_str() {
    assert_eq!("blind_trust".parse::<TrustState>().unwrap(), TrustState::BlindTrust);
}

#[test]
fn unknown_trust_name_is_undecided() {
    assert_eq!("whatever".parse::<TrustState>().unwrap(), TrustState::Undecided);
    assert_eq!(TrustState::from_name("Trusted"), TrustState::Undecided);
}

fn device<'a>(ds: &'a [PeerDevice], id: u32) -> &'a PeerDevice {
    ds.iter().find(|d| d.device_id == id).unwrap()
}

#[test]
fn resolve_initial_trust_blind_when_no_verified() {
    // No devices at all => BlindTrust
    let ds: Vec<PeerDevice> = Vec::new();
    assert_eq!(resolve_initial_trust(&ds), TrustState::BlindTrust);
}

#[test]
fn resolve_initial_trust_undecided_after_verification() {
    let mut ds = Vec::new();
    upsert_device(&mut ds, "alice@example.com", 100, TrustState::Trusted, None, true);
    assert_eq!(resolve_initial_trust(&ds), TrustState::Undecided);
}

#[test]
fn verify_device_downgrades_blind_trust() {
    let mut ds = Vec::new();
    upsert_device(&mut ds, "bob@example.com", 1, TrustState::BlindTrust, None, true);
    upsert_device(&mut ds, "bob@example.com", 2, TrustState::BlindTrust, None, true);
    verify_device(&mut ds, 1);
    assert_eq!(device(&ds, 1).trust, TrustState::Trusted);
    assert_eq!(device(&ds, 2).trust, TrustState::Undecided);
}

#[test]
fn sync_device_list_uses_btbv() {
    let mut ds = Vec::new();
    // First sync: no verified devices => new devices get BlindTrust.
    sync_device_list(&mut ds, "carol@example.com", &[10, 20]);
    for d in &ds {
        assert_eq!(d.trust, TrustState::BlindTrust);
    }
    // Manually trust device 10.
    set_trust(&mut ds, 10, TrustState::Trusted);
    // Sync again with a new device 30 => should get Undecided.
    sync_device_list(&mut ds, "carol@example.com", &[10, 20, 30]);
    assert_eq!(device(&ds, 30).trust, TrustState::Undecided);
    // Device 10 should still be trusted (only activity changes on known devices).
    assert_eq!(device(&ds, 10).trust, TrustState::Trusted);
}

#[test]
fn sync_device_list_sets_activity_and_ignores_repeats() {
    let mut ds = Vec::new();
    sync_device_list(&mut ds, "carol@example.com", &[1, 2, 2]);
    assert_eq!(ds.len(), 2);
    sync_device_list(&mut ds, "carol@example.com", &[2]);
    assert!(!device(&ds, 1)._active);
    assert!(device(&ds, 2)._active);
    assert_eq!(device(&ds, 2)._peer_jid, "carol@example.com");
}

#[test]
fn save_and_get_fingerprint() {
    let mut ds = Vec::new();
    upsert_device(&mut ds, "dave@example.com", 42, TrustState::BlindTrust, None, true);
    assert!(get_fingerprint(&ds, 42).is_none());
    save_fingerprint(&mut ds, 42, "aabbccdd11223344");
    assert_eq!(get_fingerprint(&ds, 42).as_deref(), Some("aabbccdd11223344"));
}

#[test]
fn save_fingerprint_of_unknown_device_does_nothing() {
    let mut ds = Vec::new();
    save_fingerprint(&mut ds, 7, "ff");
    assert!(ds.is_empty());
    assert!(get_fingerprint(&ds, 7).is_none());
}

#[test]
fn has_manually_trusted_device_false_for_blind_trust() {
    let mut ds = Vec::new();
    upsert_device(&mut ds, "eve@example.com", 1, TrustState::BlindTrust, None, true);
    assert!(!has_manually_trusted_device(&ds));
}

#[test]
fn upsert_updates_trust_label_and_activity_but_keeps_fingerprint() {
    let mut ds = Vec::new();
    upsert_device(&mut ds, "frank@example.com", 5, TrustState::Tofu, Some("phone"), true);
    save_fingerprint(&mut ds, 5, "0011");
    upsert_device(&mut ds, "frank@example.com", 5, TrustState::Untrusted, None, false);
    assert_eq!(ds.len(), 1);
    assert_eq!(ds[0].trust, TrustState::Untrusted);
    assert_eq!(ds[0]._label, None);
    assert!(!ds[0]._active);
    assert_eq!(ds[0].fingerprint.as_deref(), Some("0011"));
}
