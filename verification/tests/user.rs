use giss::search::Variables;
use giss::user::{
    hash_token, hex_string, viewer_query, Resolution, User, Username, GET_USER_QUERY, USERS_DIR,
};

#[test]
fn the_token_hash_is_the_sha256_digest_in_hex() {
    assert_eq!(
        hash_token(""),
        "e3b0c44298fc1c149afbf4c8996fb92427ae41e4649b934ca495991b7852b855"
    );
    assert_eq!(
        hash_token("abc"),
        "ba7816bf8f01cfea414140de5dae2223b00361a396177a9cb410ff61f20015ad"
    );
}

#[test]
fn the_token_hash_does_not_hold_the_token() {
    let token = "ghp_0123456789";
    let hash = hash_token(token);
    assert_eq!(hash.len(), 64);
    assert!(!hash.contains(token));
    assert_ne!(hash, hash_token("ghp_0123456788"));
    assert_eq!(hash, hash_token(token));
}

#[test]
fn hex_writes_two_lowercase_digits_for_each_byte() {
    assert_eq!(hex_string(&vec![]), "");
    assert_eq!(hex_string(&vec![0x00, 0x0a, 0xff, 0x10, 0x9c]), "000aff109c");
}

#[test]
fn a_kept_login_is_used_without_a_lookup() {
    match Username::from_cache(Some(String::from("alice"))) {
        Resolution::Cached(name) => assert_eq!(name.0, "alice"),
        Resolution::Lookup => panic!("lookup"),
    }
}

#[test]
fn without_a_kept_login_the_api_is_asked() {
    assert!(matches!(Username::from_cache(None), Resolution::Lookup));
}

#[test]
fn resolving_twice_asks_once() {
    // The first run finds nothing kept, asks, and keeps the answer; the second
    // finds it.
    let mut kept: Option<String> = None;
    let mut lookups = 0;
    for _ in 0..2 {
        let name = match Username::from_cache(kept.clone()) {
            Resolution::Cached(name) => name,
            Resolution::Lookup => {
                lookups += 1;
                let user = User { login: String::from("alice"), id: String::from("U_1") };
                let name = Username::from_user(user);
                kept = Some(name.0.clone());
                name
            }
        };
        assert_eq!(name.0, "alice");
    }
    assert_eq!(lookups, 1);
}

#[test]
fn the_viewer_query_takes_no_variables() {
    let request = viewer_query();
    assert_eq!(request.query, GET_USER_QUERY);
    assert_eq!(request.operation_name, "GetUser");
    assert!(matches!(request.variables, Variables::Nothing));
}

#[test]
fn a_username_is_any_text() {
    assert_eq!(Username::from_str("alice").unwrap().0, "alice");
    assert_eq!(Username::from_str("").unwrap().0, "");
    let parsed: Username = "bob".parse().unwrap();
    assert_eq!(parsed.clone().0, "bob");
}

#[test]
fn logins_are_kept_below_the_config_directory() {
    assert_eq!(USERS_DIR, ".config/giss/usernames");
}
