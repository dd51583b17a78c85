use mc_honeypot::identity::offline_identity;

#[test]
fn identity_is_deterministic() {
    let first = offline_identity("Notch");
    let second = offline_identity("Notch");
    assert_eq!(first.len(), 16);
    assert_eq!(first, second);
}

#[test]
fn identity_matches_version_three_derivation() {
    let ours = offline_identity("Notch");
    let expected = uuid::Uuid::new_v3(&uuid::Uuid::NAMESPACE_DNS, "OfflinePlayer:Notch".as_bytes());
    assert_eq!(ours.as_slice(), expected.as_bytes());
    // The version and variant bits are in place.
    assert_eq!(ours[6] >> 4, 3);
    assert_eq!(ours[8] & 0xc0, 0x80);
}

#[test]
fn different_usernames_differ() {
    assert_ne!(offline_identity("Notch"), offline_identity("Alex"));
    assert_ne!(offline_identity("Notch"), offline_identity("notch"));
}

#[test]
fn identity_depends_on_the_prefixed_name() {
    // The digest runs over "OfflinePlayer:" + username, not the bare name.
    let bare = uuid::Uuid::new_v3(&uuid::Uuid::NAMESPACE_DNS, "Notch".as_bytes());
    assert_ne!(offline_identity("Notch").as_slice(), bare.as_bytes());
}
