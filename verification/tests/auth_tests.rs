use ollamamq::auth::{to_hex_lower, UserEntry, UserRegistry, UsersFile};

// SHA-256 of "abc" and of "secret-token".
const ABC_HASH: &str = "ba7816bf8f01cfea414140de5dae2223b00361a396177a9cb410ff61f20015ad";
const SECRET_HASH: &str = "930bbdc51b6aed5c2a5678fd6e28dee7a05e8a4b643cfc0b4427c3efb86c0d94";

fn entry(hash: &str, user: &str, vip: bool) -> UserEntry {
    UserEntry { token_hash: hash.to_string(), user_id: user.to_string(), vip }
}

fn registry(entries: Vec<UserEntry>) -> UserRegistry {
    UserRegistry::from_users_file(UsersFile { users: entries })
}

#[test]
fn hex_of_bytes_is_two_lowercase_digits_per_byte() {
    assert_eq!(to_hex_lower(&[0x00, 0x0f, 0xa0, 0xff, 0x7b]), "000fa0ff7b");
    assert_eq!(to_hex_lower(&[]), "");
}

#[test]
fn known_token_authenticates() {
    let r = registry(vec![entry(ABC_HASH, "alice", false)]);
    assert_eq!(r.authenticate("abc"), Some("alice"));
}

#[test]
fn unknown_token_is_rejected() {
    let r = registry(vec![entry(ABC_HASH, "alice", false)]);
    assert_eq!(r.authenticate("abd"), None);
    assert_eq!(r.authenticate(""), None);
    // the stored hash itself is not a token
    assert_eq!(r.authenticate(ABC_HASH), None);
}

#[test]
fn empty_registry_rejects_every_token() {
    let r = UserRegistry::empty();
    assert_eq!(r.authenticate("abc"), None);
    assert_eq!(r.authenticate(""), None);
    assert!(r.get_vip_users().is_empty());
}

#[test]
fn upper_case_hash_in_file_is_lower_cased() {
    let r = registry(vec![entry(&ABC_HASH.to_uppercase(), "alice", true)]);
    assert_eq!(r.authenticate("abc"), Some("alice"));
}

#[test]
fn later_entry_with_same_hash_wins() {
    let r = registry(vec![
        entry(ABC_HASH, "alice", true),
        entry(SECRET_HASH, "bob", false),
        entry(&ABC_HASH.to_uppercase(), "carol", false),
    ]);
    assert_eq!(r.authenticate("abc"), Some("carol"));
    assert_eq!(r.authenticate("secret-token"), Some("bob"));
    assert!(r.get_vip_users().is_empty());
}

#[test]
fn lookup_digest_uses_lowercase_hex_of_digest() {
    let digest: Vec<u8> = (0u8..32).collect();
    let hex = to_hex_lower(&digest);
    let r = registry(vec![entry(&hex, "dora", false)]);
    assert_eq!(r.lookup_digest(&digest), Some("dora"));
    let mut other = digest.clone();
    other[31] = 0xff;
    assert_eq!(r.lookup_digest(&other), None);
}

#[test]
fn vip_users_are_exactly_the_vip_entries() {
    let r = registry(vec![
        entry(ABC_HASH, "alice", true),
        entry(SECRET_HASH, "bob", false),
        entry("00", "carol", true),
    ]);
    let mut vips = r.get_vip_users();
    vips.sort();
    assert_eq!(vips, vec!["alice".to_string(), "carol".to_string()]);
}

#[test]
fn clone_keeps_the_users() {
    let r = registry(vec![entry(ABC_HASH, "alice", true)]);
    let c = r.clone();
    assert_eq!(c.authenticate("abc"), Some("alice"));
    assert_eq!(c.get_vip_users(), vec!["alice".to_string()]);
}
