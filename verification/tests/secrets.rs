use cordial::secrets::{
    attributes, decide, decode_keyring, encode_keyring, settle, where_kept, Kind, Store, SETTING,
};

const PROFILE: &str = "/home/someone/.local/share/cordial/profiles/default";

/// What the probe says, for a test that must not depend on the machine it
/// runs on.
fn present() -> Result<(), String> {
    Ok(())
}

fn locked() -> Result<(), String> {
    Err("the desktop keyring is locked".to_string())
}

#[test]
fn the_setting_decides_and_says_which() {
    assert_eq!(decide("", PROFILE, present).0, Store::Keyring);
    assert_eq!(decide("auto", PROFILE, present).0, Store::Keyring);
    assert_eq!(
        decide("file", PROFILE, || unreachable!("the file store must not touch the bus")).0,
        Store::File
    );
    assert!(decide("file", PROFILE, present).1.contains("plaintext"));
    assert_eq!(decide("nonsense", PROFILE, present).0, Store::File);
    assert!(decide("nonsense", PROFILE, present).1.contains("not one of"));
}

#[test]
fn a_locked_keyring_is_the_ordinary_case_and_never_an_error() {
    let (store, line) = decide("auto", PROFILE, locked);
    assert_eq!(store, Store::File, "a locked keyring must not cost the user their session");
    assert!(line.contains("locked"), "and must say why: {line}");
    assert!(line.contains("0600"), "and where the session went instead: {line}");

    let (store, line) = decide("keyring", PROFILE, locked);
    assert_eq!(store, Store::Nowhere);
    assert!(line.contains("will not be saved"), "{line}");
}

#[test]
fn nothing_here_can_stop_a_client_starting() {
    for requested in ["", "auto", "keyring", "file", "nonsense"] {
        for probe in [present as fn() -> Result<(), String>, locked] {
            let (_store, line) = decide(requested, PROFILE, probe);
            assert!(!line.is_empty(), "every outcome is announced");
        }
    }
}

#[test]
fn two_profiles_cannot_read_each_others_session() {
    let a = attributes("/home/someone/.local/share/cordial/profiles/default", Kind::Cookies);
    let b = attributes("/home/someone/.cache/scratch/cordial/profiles/default", Kind::Cookies);
    assert_ne!(a, b, "two roots with the same profile name must not share an item");
    let cookies = attributes("/p/default", Kind::Cookies);
    let identity = attributes("/p/default", Kind::Identity);
    assert_ne!(cookies, identity, "the two stores must be separate items");
}

#[test]
fn the_announcements_are_exact() {
    assert_eq!(
        settle("file", "/p/default", Ok(())).1,
        "  [secrets] CORDIAL_SECRET_STORE=file: the session is kept in plaintext at /p/default/cookies, by request"
    );
    assert_eq!(
        settle("", "/p/default", Ok(())).1,
        "  [secrets] the session is kept in the desktop secret service (org.freedesktop.secrets); nothing is written to the profile"
    );
    assert_eq!(
        settle("keyring", "/p/default", Err("there is no session bus".to_string())),
        (
            Store::Nowhere,
            "  [secrets] CORDIAL_SECRET_STORE=keyring, and there is no session bus. This session will not be saved; you will sign in again next launch.".to_string()
        )
    );
    assert_eq!(
        settle("auto", "/p/default/", Err("there is no session bus".to_string())).1,
        "  [secrets] there is no session bus, so the session falls back to a 0600 file at /p/default/cookies. Anything that can read your files can take the account. Set CORDIAL_SECRET_STORE=keyring to refuse this and stay signed out instead."
    );
    assert_eq!(
        settle("Keyring", "/p/default", Ok(())).1,
        "  [secrets] CORDIAL_SECRET_STORE=\"Keyring\" is not one of auto, keyring, file; treating it as file, which keeps the session in plaintext at /p/default/cookies"
    );
    // The unknown value is written with `{:?}`, escapes and all.
    assert!(settle("a\"b\n", "/p", Ok(())).1.contains("=\"a\\\"b\\n\" is not one of"));
    assert_eq!(SETTING, "CORDIAL_SECRET_STORE");
}

#[test]
fn only_the_service_settings_ask_the_service() {
    for requested in ["file", "nonsense", "KEYRING", " auto"] {
        let (store, _) =
            decide(requested, PROFILE, || unreachable!("this setting must not touch the bus"));
        assert_eq!(store, Store::File);
    }
}

#[test]
fn the_store_names_and_places() {
    assert_eq!(Kind::Cookies.name(), "cookies");
    assert_eq!(Kind::Identity.name(), "identity");
    assert_eq!(where_kept(Store::Keyring, "/p/default", Kind::Cookies), "the desktop secret service");
    assert_eq!(where_kept(Store::File, "/p/default", Kind::Identity), "/p/default/identity");
    assert_eq!(where_kept(Store::File, "", Kind::Identity), "identity");
    assert_eq!(
        where_kept(Store::Nowhere, "/p/default", Kind::Cookies),
        "nowhere; this session is not being saved"
    );
}

#[test]
fn an_item_label_names_the_profile_directory() {
    assert_eq!(
        Kind::Cookies.label("/home/someone/profiles/default"),
        "Cordial: Roblox cookies for profile \"default\""
    );
    assert_eq!(
        Kind::Identity.label("/home/someone/profiles/work/"),
        "Cordial: Roblox identity for profile \"work\""
    );
    assert_eq!(
        Kind::Identity.label("/home/someone/profiles/work/."),
        "Cordial: Roblox identity for profile \"work\""
    );
    assert_eq!(Kind::Cookies.label("/"), "Cordial: Roblox cookies");
    assert_eq!(Kind::Cookies.label("/p/.."), "Cordial: Roblox cookies");
    assert_eq!(Kind::Cookies.label(""), "Cordial: Roblox cookies");
    assert_eq!(Kind::Cookies.label("/p/my \"x\""), "Cordial: Roblox cookies for profile \"my \\\"x\\\"\"");
}

#[test]
fn the_attributes_are_exact() {
    let a = attributes("/p/default", Kind::Identity);
    let expected: Vec<(String, String)> = vec![
        ("xdg:schema".to_string(), "org.cordial.Session".to_string()),
        ("application".to_string(), "cordial".to_string()),
        ("profile".to_string(), "/p/default".to_string()),
        ("store".to_string(), "identity".to_string()),
    ];
    assert_eq!(a, expected);
}

#[test]
fn a_stored_value_is_one_hex_line() {
    let body = "# cordial test\nroblox.com\tCORDIALTEST=not-a-session\n";
    let encoded = encode_keyring(body);
    assert!(encoded.starts_with("cordial-secret-hex-v1:"));
    assert!(!encoded.contains('\n') && !encoded.contains('\t') && !encoded.contains('='));
    assert_eq!(encode_keyring("a=é"), "cordial-secret-hex-v1:613dc3a9");
    assert_eq!(encode_keyring(""), "cordial-secret-hex-v1:");
}

#[test]
fn an_encoded_body_decodes_byte_for_byte() {
    for body in ["", "a=b\n", "# cordial test\nroblox.com\tCORDIALTEST=x\n", "ünïcødé ✓"] {
        assert_eq!(decode_keyring(&encode_keyring(body)).as_deref(), Some(body));
    }
    assert_eq!(decode_keyring("cordial-secret-hex-v1:613DC3A9").as_deref(), Some("a=é"));
}

#[test]
fn a_malformed_value_does_not_decode() {
    // Missing marker, odd length, a non-digit, and bytes that are not UTF-8.
    assert_eq!(decode_keyring("613d"), None);
    assert_eq!(decode_keyring("cordial-secret-hex-v1:613"), None);
    assert_eq!(decode_keyring("cordial-secret-hex-v1:6g"), None);
    assert_eq!(decode_keyring("cordial-secret-hex-v1:ff"), None);
    assert_eq!(decode_keyring("cordial-secret-hex-v1:é1"), None);
}
